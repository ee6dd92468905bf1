use frickoff::parse::{parse_config, ParseError};
use frickoff::paths::preference_file_path;
use frickoff::prefs::{expand_path, load_config, Config};
use frickoff::write::serialize_config;

fn config_with(serious: bool, paranoid: bool, pathdefs: Vec<(String, String)>) -> Config {
    let mut c = Config::new();
    c.frickoff.serious = serious;
    c.frickoff.paranoid = paranoid;
    c.pathdefs = pathdefs;
    c
}

#[test]
fn default_config_text_is_exact() {
    let text = serialize_config(&Config::new());
    assert_eq!(
        text,
        "[frickoff]\nserious = false\nparanoid = false\n\n[pathdefs]\n"
    );
}

#[test]
fn default_config_round_trips() {
    let text = serialize_config(&Config::new());
    let back = parse_config(&text).unwrap();
    assert!(!back.frickoff.serious);
    assert!(!back.frickoff.paranoid);
    assert!(back.pathdefs.is_empty());
}

#[test]
fn full_config_round_trips() {
    let written = config_with(
        true,
        false,
        vec![
            ("neovim".to_string(), "CONFIG/nvim".to_string()),
            ("emacs".to_string(), "HOME/.emacs.d".to_string()),
            ("helix".to_string(), "LOCAL/helix".to_string()),
        ],
    );
    let text = serialize_config(&written);
    let loaded = parse_config(&text).unwrap();
    assert_eq!(loaded.frickoff.serious, written.frickoff.serious);
    assert_eq!(loaded.frickoff.paranoid, written.frickoff.paranoid);
    assert_eq!(loaded.pathdefs, written.pathdefs);
}

#[test]
fn round_trip_keeps_spaces_in_values() {
    let written = config_with(
        false,
        true,
        vec![(
            "code".to_string(),
            "HOME/Application Support/Code = stuff".to_string(),
        )],
    );
    let text = serialize_config(&written);
    let loaded = parse_config(&text).unwrap();
    assert_eq!(loaded.frickoff.paranoid, true);
    assert_eq!(loaded.pathdefs, written.pathdefs);
}

#[test]
fn written_file_is_real_toml() {
    let written = config_with(
        true,
        true,
        vec![("neovim".to_string(), "CONFIG/nvim".to_string())],
    );
    let text = serialize_config(&written);
    let value: toml::Table = text.parse().unwrap();
    assert_eq!(value["frickoff"]["serious"].as_bool(), Some(true));
    assert_eq!(value["frickoff"]["paranoid"].as_bool(), Some(true));
    assert_eq!(value["pathdefs"]["neovim"].as_str(), Some("CONFIG/nvim"));
}

#[test]
fn blank_lines_and_order_are_tolerated() {
    let text = "\n[pathdefs]\nk = \"v\"\n\n[frickoff]\nserious = true\nparanoid = false\n";
    let c = parse_config(text).unwrap();
    assert!(c.frickoff.serious);
    assert!(!c.frickoff.paranoid);
    assert_eq!(c.pathdefs, vec![("k".to_string(), "v".to_string())]);
}

#[test]
fn loaded_config_round_trips_again() {
    let text = "\n[pathdefs]\nk = \"v\"\n\n[frickoff]\nserious = true\nparanoid = false\n";
    let c = parse_config(text).unwrap();
    let again = parse_config(&serialize_config(&c)).unwrap();
    assert_eq!(again.frickoff.serious, c.frickoff.serious);
    assert_eq!(again.frickoff.paranoid, c.frickoff.paranoid);
    assert_eq!(again.pathdefs, c.pathdefs);
}

#[test]
fn later_setting_wins() {
    let text = "[frickoff]\nserious = false\nserious = true\nparanoid = false\n";
    let c = parse_config(text).unwrap();
    assert!(c.frickoff.serious);
}

#[test]
fn error_unexpected_line() {
    let r = parse_config("[frickoff]\nnonsense\n");
    assert_eq!(r.unwrap_err(), ParseError::UnexpectedLine);
}

#[test]
fn error_setting_before_any_section() {
    let r = parse_config("serious = true\n");
    assert_eq!(r.unwrap_err(), ParseError::UnexpectedLine);
}

#[test]
fn error_unknown_section() {
    let r = parse_config("[weird]\n");
    assert_eq!(r.unwrap_err(), ParseError::UnknownSection);
}

#[test]
fn error_unknown_key() {
    let r = parse_config("[frickoff]\nvolume = true\n");
    assert_eq!(r.unwrap_err(), ParseError::UnknownKey);
}

#[test]
fn error_bad_boolean() {
    let r = parse_config("[frickoff]\nserious = maybe\n");
    assert_eq!(r.unwrap_err(), ParseError::BadBoolean);
}

#[test]
fn error_bad_key() {
    let r = parse_config("[frickoff]\nserious = true\nparanoid = true\n[pathdefs]\nba!d = \"x\"\n");
    assert_eq!(r.unwrap_err(), ParseError::BadKey);
}

#[test]
fn error_bad_value() {
    let r = parse_config("[frickoff]\nserious = true\nparanoid = true\n[pathdefs]\nk = naked\n");
    assert_eq!(r.unwrap_err(), ParseError::BadValue);
}

#[test]
fn error_missing_field() {
    assert_eq!(parse_config("").unwrap_err(), ParseError::MissingField);
    assert_eq!(
        parse_config("[frickoff]\nserious = true\n").unwrap_err(),
        ParseError::MissingField
    );
}

#[test]
fn expand_path_substitutes_all_placeholders() {
    let r = expand_path("HOME/a", "/home/u", "/home/u/.config", "/home/u/.local");
    assert_eq!(r, "/home/u/a");
    let r = expand_path("CONFIG/app", "/home/u", "/home/u/.config", "/home/u/.local");
    assert_eq!(r, "/home/u/.config/app");
    let r = expand_path("LOCAL/app", "/home/u", "/home/u/.config", "/home/u/.local");
    assert_eq!(r, "/home/u/.local/app");
}

#[test]
fn expand_path_turns_backslashes_forward() {
    let r = expand_path(
        "HOME\\AppData\\Roaming",
        "C:/Users/u",
        "C:/Users/u/cfg",
        "C:/Users/u/lcl",
    );
    assert_eq!(r, "C:/Users/u/AppData/Roaming");
}

#[test]
fn expand_path_leaves_plain_text_alone() {
    let r = expand_path("/absolute/path", "/h", "/c", "/l");
    assert_eq!(r, "/absolute/path");
}

#[test]
fn load_config_expands_every_entry() {
    let text = "[frickoff]\nserious = false\nparanoid = false\n\n[pathdefs]\na = \"HOME/x\"\nb = \"CONFIG/y\"\n";
    let c = load_config(text, "/h", "/c", "/l").unwrap();
    assert_eq!(
        c.pathdefs,
        vec![
            ("a".to_string(), "/h/x".to_string()),
            ("b".to_string(), "/c/y".to_string()),
        ]
    );
}

#[test]
fn load_config_surfaces_parse_errors() {
    let r = load_config("[frickoff]\nserious = 1\n", "/h", "/c", "/l");
    assert_eq!(r.unwrap_err(), ParseError::BadBoolean);
}

#[test]
fn preference_file_location_is_fixed() {
    let p = preference_file_path("/home/u/.config");
    assert_eq!(p, "/home/u/.config/frickoff/config.toml");
}

#[test]
fn directory_lookups_answer_without_panicking() {
    // What the operating system answers depends on the machine; the
    // lookups themselves must simply return.
    let _ = frickoff::paths::set_paths();
    let _ = frickoff::paths::resolve_template_dirs();
}
