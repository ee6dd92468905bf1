//! Resolving the run's policy from flags and preferences: which message
//! catalog speaks, and which confirmation token is demanded. The two
//! decisions share a shape — an explicit flag forces the strict branch,
//! else the persisted preference decides — and are independent of each
//! other.

use vstd::prelude::*;

use crate::messages::MessageCatalog;
use crate::messages::Messages;
use crate::parse::ParseError;
use crate::prefs::Config;
use crate::text::contains_flag;
use crate::text::contains_str;

verus! {

/// The formal catalog speaks: the disable-jokes flag is given, or the
/// persisted `serious` preference is set.
pub open spec fn formal_messages(options: Seq<Seq<char>>, serious: bool) -> bool {
    contains_str(options, "--no-jokes"@) || serious
}

/// The full phrase is demanded: the paranoid flag is given, or the
/// persisted `paranoid` preference is set.
pub open spec fn paranoid_policy(options: Seq<Seq<char>>, paranoid: bool) -> bool {
    contains_str(options, "--paranoid"@) || paranoid
}

/// Picks the catalog that speaks for this run, as `formal_messages`
/// describes. The choice reads only the options and the `serious`
/// preference, never the confirmation policy.
pub fn determine_message_type<'a>(
    options: &Vec<String>,
    configuration: &Result<Config, ParseError>,
    messages: &'a Messages,
) -> (r: &'a MessageCatalog)
    requires
        configuration is Ok,
    ensures
        formal_messages(options.deep_view(), configuration->Ok_0@.serious) ==> r@
            == messages.serious@,
        !formal_messages(options.deep_view(), configuration->Ok_0@.serious) ==> r@
            == messages.jokey@,
{
    let config = match configuration {
        Ok(c) => c,
        Err(_) => {
            proof {
                assert(false);
            }
            return &messages.jokey;
        },
    };
    if contains_flag(options, "--no-jokes") || config.frickoff.serious {
        &messages.serious
    } else {
        &messages.jokey
    }
}

/// Picks the confirmation token and its prompt, as `paranoid_policy`
/// describes: the exact phrase `Yes, do as I say!`, compared
/// case-sensitively, under the strict policy; otherwise the single
/// letter `Y`, compared case-insensitively at the prompt. The choice
/// reads only the options and the `paranoid` preference, never the
/// message-catalog decision.
pub fn determine_confirmation(
    options: &Vec<String>,
    configuration: &Result<Config, ParseError>,
) -> (r: (&'static str, &'static str))
    requires
        configuration is Ok,
    ensures
        paranoid_policy(options.deep_view(), configuration->Ok_0@.paranoid) ==> r.0@
            == "Yes, do as I say!"@ && r.1@ == "To continue type in the phrase \"Yes, do as I say!\""@,
        !paranoid_policy(options.deep_view(), configuration->Ok_0@.paranoid) ==> r.0@ == "Y"@
            && r.1@ == "(Y/N)"@,
{
    let config = match configuration {
        Ok(c) => c,
        Err(_) => {
            proof {
                assert(false);
            }
            return ("Y", "(Y/N)");
        },
    };
    if contains_flag(options, "--paranoid") || config.frickoff.paranoid {
        ("Yes, do as I say!", "To continue type in the phrase \"Yes, do as I say!\"")
    } else {
        ("Y", "(Y/N)")
    }
}

} // verus!
