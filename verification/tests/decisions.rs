use frickoff::args::{check_argument_count, get_valid_options, handle_command_line_args, ArgCheck};
use frickoff::confirm::{confirmation_gate, resolve_confirmation, skips_confirmation, GateOutcome};
use frickoff::dispatch::{handle_options, OptionAction};
use frickoff::messages::{MessageError, Messages};
use frickoff::parse::ParseError;
use frickoff::policy::{determine_confirmation, determine_message_type};
use frickoff::prefs::Config;

fn strings(items: &[&str]) -> Vec<String> {
    items.iter().map(|s| s.to_string()).collect()
}

fn config_with(serious: bool, paranoid: bool) -> Result<Config, ParseError> {
    let mut c = Config::new();
    c.frickoff.serious = serious;
    c.frickoff.paranoid = paranoid;
    Ok(c)
}

#[test]
fn bare_program_name_is_missing_argument_casual() {
    let r = check_argument_count(&strings(&["prog"]));
    assert_eq!(r, ArgCheck::Missing { formal: false });
    let m = Messages::new();
    assert_eq!(
        m.jokey.get("no_argument").unwrap().as_str(),
        "What would you like to frick off?"
    );
}

#[test]
fn lone_no_jokes_flag_is_missing_argument_formal() {
    let r = check_argument_count(&strings(&["prog", "--no-jokes"]));
    assert_eq!(r, ArgCheck::Missing { formal: true });
    let m = Messages::new();
    assert_eq!(
        m.serious.get("no_argument").unwrap().as_str(),
        "No utility specified. Cannot proceed."
    );
}

#[test]
fn lone_other_flag_is_missing_argument_casual() {
    let r = check_argument_count(&strings(&["prog", "--backup"]));
    assert_eq!(r, ArgCheck::Missing { formal: false });
}

#[test]
fn named_utility_proceeds() {
    assert_eq!(
        check_argument_count(&strings(&["prog", "editor"])),
        ArgCheck::Proceed
    );
    assert_eq!(
        check_argument_count(&strings(&["prog", "editor", "--backup"])),
        ArgCheck::Proceed
    );
}

#[test]
fn arguments_split_into_name_and_options() {
    let args = strings(&["prog", "editor", "--backup", "--verbose"]);
    let (name, options) = handle_command_line_args(&args);
    assert_eq!(name, "editor");
    assert_eq!(options, strings(&["--backup", "--verbose"]));
}

#[test]
fn valid_options_are_the_nine_known_flags() {
    let v = get_valid_options();
    assert_eq!(
        v,
        vec![
            "--and-init",
            "--backup",
            "--debug",
            "--help",
            "--no-confirm",
            "--no-jokes",
            "--options",
            "--paranoid",
            "--verbose",
        ]
    );
}

#[test]
fn paranoid_flag_forces_full_phrase() {
    let (token, prompt) = determine_confirmation(&strings(&["--paranoid"]), &config_with(false, false));
    assert_eq!(token, "Yes, do as I say!");
    assert_eq!(prompt, "To continue type in the phrase \"Yes, do as I say!\"");
}

#[test]
fn paranoid_preference_forces_full_phrase() {
    let (token, _) = determine_confirmation(&strings(&[]), &config_with(false, true));
    assert_eq!(token, "Yes, do as I say!");
}

#[test]
fn relaxed_confirmation_is_single_letter() {
    let (token, prompt) = determine_confirmation(&strings(&[]), &config_with(false, false));
    assert_eq!(token, "Y");
    assert_eq!(prompt, "(Y/N)");
}

#[test]
fn no_jokes_flag_selects_formal_catalog() {
    let m = Messages::new();
    let c = determine_message_type(&strings(&["--no-jokes"]), &config_with(false, false), &m);
    assert_eq!(c.get("cancelled").unwrap().as_str(), "Operation cancelled.");
}

#[test]
fn serious_preference_selects_formal_catalog() {
    let m = Messages::new();
    let c = determine_message_type(&strings(&[]), &config_with(true, false), &m);
    assert_eq!(c.get("cancelled").unwrap().as_str(), "Operation cancelled.");
}

#[test]
fn default_selects_casual_catalog() {
    let m = Messages::new();
    let c = determine_message_type(&strings(&[]), &config_with(false, false), &m);
    assert_eq!(c.get("cancelled").unwrap().as_str(), "Okay, I won't touch it.");
}

#[test]
fn message_choice_ignores_confirmation_policy() {
    let m = Messages::new();
    let c = determine_message_type(&strings(&["--paranoid"]), &config_with(false, true), &m);
    assert_eq!(c.get("cancelled").unwrap().as_str(), "Okay, I won't touch it.");
    let (token, _) = determine_confirmation(&strings(&["--no-jokes"]), &config_with(true, false));
    assert_eq!(token, "Y");
}

#[test]
fn catalog_lookup_rejects_unknown_key() {
    let m = Messages::new();
    assert_eq!(m.jokey.get("no_such_key").unwrap_err(), MessageError::MissingKey);
    assert_eq!(m.serious.get("no_such_key").unwrap_err(), MessageError::MissingKey);
}

#[test]
fn options_flag_short_circuits_with_casual_text() {
    let args = strings(&["prog", "editor", "--options"]);
    assert_eq!(check_argument_count(&args), ArgCheck::Proceed);
    let (name, options) = handle_command_line_args(&args);
    assert_eq!(name, "editor");
    let m = Messages::new();
    let catalog = determine_message_type(&options, &config_with(false, false), &m);
    let valid = get_valid_options();
    assert_eq!(handle_options(&options, &valid, true), OptionAction::ShowOptions);
    assert_eq!(
        catalog.get("literal_options").unwrap().as_str(),
        "...That is VERY funny."
    );
}

#[test]
fn unknown_first_option_is_rejected_when_more_follow() {
    let valid = get_valid_options();
    assert_eq!(
        handle_options(&strings(&["--bogus", "--debug"]), &valid, true),
        OptionAction::RejectInvalid
    );
}

#[test]
fn lone_unknown_option_is_not_validated() {
    let valid = get_valid_options();
    assert_eq!(
        handle_options(&strings(&["--bogus"]), &valid, true),
        OptionAction::Proceed
    );
}

#[test]
fn debug_flag_shows_state_or_reports_error() {
    let valid = get_valid_options();
    assert_eq!(
        handle_options(&strings(&["--debug"]), &valid, true),
        OptionAction::ShowDebug
    );
    assert_eq!(
        handle_options(&strings(&["--debug"]), &valid, false),
        OptionAction::ReportConfigError
    );
}

#[test]
fn options_flag_wins_over_the_other_checks() {
    let valid = get_valid_options();
    assert_eq!(
        handle_options(&strings(&["--bogus", "--options", "--debug"]), &valid, false),
        OptionAction::ShowOptions
    );
}

#[test]
fn no_confirm_flag_confirms_without_input() {
    let options = strings(&["--no-confirm"]);
    assert!(skips_confirmation(&options));
    assert_eq!(
        confirmation_gate(&options, "Y", ""),
        GateOutcome::Confirmed
    );
}

#[test]
fn single_letter_token_matches_case_insensitively() {
    assert_eq!(resolve_confirmation("Y", "y\n"), GateOutcome::Confirmed);
    assert_eq!(resolve_confirmation("Y", "Y\n"), GateOutcome::Confirmed);
    assert_eq!(resolve_confirmation("Y", "n\n"), GateOutcome::Aborted);
    assert_eq!(resolve_confirmation("Y", "yes\n"), GateOutcome::Aborted);
}

#[test]
fn full_phrase_matches_case_sensitively() {
    assert_eq!(
        resolve_confirmation("Yes, do as I say!", "Yes, do as I say!\n"),
        GateOutcome::Confirmed
    );
    assert_eq!(
        resolve_confirmation("Yes, do as I say!", "yes, do as i say!\n"),
        GateOutcome::Aborted
    );
    assert_eq!(
        resolve_confirmation("Yes, do as I say!", "Y\n"),
        GateOutcome::Aborted
    );
}

#[test]
fn gate_reads_input_without_skip_flag() {
    let options = strings(&["--backup"]);
    assert!(!skips_confirmation(&options));
    assert_eq!(confirmation_gate(&options, "Y", "y\n"), GateOutcome::Confirmed);
    assert_eq!(confirmation_gate(&options, "Y", "n\n"), GateOutcome::Aborted);
}
