//! Validating the option tokens and picking the short-circuit action,
//! before the main action is reached.

use vstd::prelude::*;

use crate::text::contains_flag;
use crate::text::contains_str;
use crate::text::contains_token;

verus! {

/// What the option dispatcher decided.
#[derive(Clone, Copy, Debug, PartialEq, Eq, Structural)]
pub enum OptionAction {
    /// Print the resolved catalog's `literal_options` message and end
    /// with status zero.
    ShowOptions,
    /// The first option token is not a known flag: print an
    /// `Invalid option` diagnostic naming it and end with a non-zero
    /// status.
    RejectInvalid,
    /// Print the resolved state and end with status zero.
    ShowDebug,
    /// The preferences did not load: print the parse error on the
    /// diagnostic stream and end with a non-zero status.
    ReportConfigError,
    /// No short-circuit applies: go on to the main action.
    Proceed,
}

/// The dispatcher's decision. Only the first option token is held
/// against the known set, and only when more than one token was given —
/// a deliberate, minimal check.
pub open spec fn dispatch_spec(
    options: Seq<Seq<char>>,
    valid: Seq<Seq<char>>,
    config_ok: bool,
) -> OptionAction {
    if contains_str(options, "--options"@) {
        OptionAction::ShowOptions
    } else if options.len() > 1 && !contains_str(valid, options[0]) {
        OptionAction::RejectInvalid
    } else if contains_str(options, "--debug"@) {
        if config_ok {
            OptionAction::ShowDebug
        } else {
            OptionAction::ReportConfigError
        }
    } else {
        OptionAction::Proceed
    }
}

/// Decides the short-circuit action, as `dispatch_spec` describes.
/// `config_ok` says whether the preference file loaded cleanly.
pub fn handle_options(
    options: &Vec<String>,
    valid_options: &Vec<&str>,
    config_ok: bool,
) -> (r: OptionAction)
    ensures
        r == dispatch_spec(options.deep_view(), valid_options.deep_view(), config_ok),
{
    if contains_flag(options, "--options") {
        return OptionAction::ShowOptions;
    }
    if options.len() > 1 && !contains_token(valid_options, options[0].as_str()) {
        proof {
            assert(options.deep_view()[0] == options@[0]@);
        }
        return OptionAction::RejectInvalid;
    }
    proof {
        if options.deep_view().len() > 1 {
            assert(options.deep_view()[0] == options@[0]@);
        }
    }
    if contains_flag(options, "--debug") {
        if config_ok {
            OptionAction::ShowDebug
        } else {
            OptionAction::ReportConfigError
        }
    } else {
        OptionAction::Proceed
    }
}

} // verus!
