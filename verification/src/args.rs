//! Classifying the raw command-line arguments: is a target utility
//! named at all, and which tokens are option flags.

use vstd::prelude::*;

use crate::text::str_eq;

verus! {

/// What the arity check decided.
#[derive(Clone, Copy, Debug, PartialEq, Eq, Structural)]
pub enum ArgCheck {
    /// No utility was named; show the missing-argument message — the
    /// formal one when the lone flag given was `--no-jokes` — plus a
    /// usage line, and end with a non-zero status.
    Missing { formal: bool },
    /// A utility is named; go on.
    Proceed,
}

/// Whether the token is written as an option flag.
pub open spec fn starts_with_dashes(s: Seq<char>) -> bool {
    s.len() >= 2 && s[0] == '-' && s[1] == '-'
}

/// No real argument was given: fewer than two arguments in all, or
/// exactly two where the second is a bare flag.
pub open spec fn missing_argument(args: Seq<Seq<char>>) -> bool {
    args.len() < 2 || (args.len() == 2 && starts_with_dashes(args[1]))
}

/// The missing-argument message is the formal one exactly when the lone
/// flag given is the one that disables jokes.
pub open spec fn missing_is_formal(args: Seq<Seq<char>>) -> bool {
    args.len() == 2 && args[1] == "--no-jokes"@
}

/// Checks that a target utility is named, as the two predicates above
/// describe.
pub fn check_argument_count(args: &Vec<String>) -> (r: ArgCheck)
    ensures
        r == (if missing_argument(args.deep_view()) {
            ArgCheck::Missing { formal: missing_is_formal(args.deep_view()) }
        } else {
            ArgCheck::Proceed
        }),
{
    let n = args.len();
    if n < 2 {
        return ArgCheck::Missing { formal: false };
    }
    if n > 2 {
        return ArgCheck::Proceed;
    }
    let second = args[1].as_str();
    proof {
        assert(args.deep_view()[1] == args@[1]@);
    }
    let len = second.unicode_len();
    let only_options = len >= 2 && second.get_char(0) == '-' && second.get_char(1) == '-';
    if only_options {
        let formal = str_eq(second, "--no-jokes");
        ArgCheck::Missing { formal }
    } else {
        proof {
            if args.deep_view()[1] == "--no-jokes"@ {
                reveal_strlit("--no-jokes");
                assert(starts_with_dashes(args.deep_view()[1]));
            }
        }
        ArgCheck::Proceed
    }
}

/// Splits the arguments into the utility's name and the option tokens
/// that follow it.
pub fn handle_command_line_args(args: &Vec<String>) -> (r: (String, Vec<String>))
    requires
        args@.len() >= 2,
    ensures
        r.0@ == args.deep_view()[1],
        r.1.deep_view() == args.deep_view().skip(2),
{
    let utility_name = args[1].clone();
    let mut options: Vec<String> = Vec::new();
    let mut i: usize = 2;
    while i < args.len()
        invariant
            2 <= i <= args@.len(),
            options.deep_view().len() == i - 2,
            forall|j: int| 0 <= j < i - 2 ==> options.deep_view()[j] == args.deep_view()[j + 2],
        decreases args.len() - i,
    {
        let ghost prev = options.deep_view();
        options.push(args[i].clone());
        proof {
            assert(options.deep_view() =~= prev.push(args@[i as int]@));
        }
        i += 1;
    }
    proof {
        assert(options.deep_view() =~= args.deep_view().skip(2));
    }
    (utility_name, options)
}

/// The option flags the tool understands.
pub open spec fn valid_options_spec() -> Seq<Seq<char>> {
    seq![
        "--and-init"@,
        "--backup"@,
        "--debug"@,
        "--help"@,
        "--no-confirm"@,
        "--no-jokes"@,
        "--options"@,
        "--paranoid"@,
        "--verbose"@,
    ]
}

/// The currently implemented command-line options.
pub fn get_valid_options() -> (r: Vec<&'static str>)
    ensures
        r.deep_view() == valid_options_spec(),
{
    let mut v: Vec<&'static str> = Vec::new();
    v.push("--and-init");  // start a fresh repository afterwards
    v.push("--backup");  // move the directory aside instead of deleting
    v.push("--debug");  // print the resolved state and quit
    v.push("--help");  // print a help message
    v.push("--no-confirm");  // skip the confirmation prompt
    v.push("--no-jokes");  // use the formal messages
    v.push("--options");  // print the catalog's reply to this and quit
    v.push("--paranoid");  // require the full confirmation phrase
    v.push("--verbose");  // verbose output
    proof {
        assert(v.deep_view() =~= valid_options_spec());
    }
    v
}

} // verus!
