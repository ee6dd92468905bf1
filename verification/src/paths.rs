//! The machine's home and configuration directories, and the fixed
//! location of the preference file under them. What the operating system
//! answers depends on the machine and the environment, so nothing more
//! is promised of the raw lookups than their shape.

use vstd::prelude::*;

verus! {

/// Relies on dirs::home_dir: the user's home directory, if the
/// operating system names one; the answer depends on the environment.
#[verifier::external_body]
fn os_home_dir() -> Option<String> {
    dirs::home_dir().and_then(|p| p.to_str().map(|s| s.to_string()))
}

/// Relies on dirs::config_dir: the user's configuration directory, if
/// the operating system names one; the answer depends on the
/// environment.
#[verifier::external_body]
fn os_config_dir() -> Option<String> {
    dirs::config_dir().and_then(|p| p.to_str().map(|s| s.to_string()))
}

/// Relies on dirs::config_local_dir: the user's local configuration
/// directory, if the operating system names one; the answer depends on
/// the environment.
#[verifier::external_body]
fn os_config_local_dir() -> Option<String> {
    dirs::config_local_dir().and_then(|p| p.to_str().map(|s| s.to_string()))
}

/// The home and configuration directory paths, when the operating
/// system names both.
pub fn set_paths() -> Option<(String, String)> {
    let home = match os_home_dir() {
        Some(h) => h,
        None => {
            return None;
        },
    };
    let config = match os_config_dir() {
        Some(c) => c,
        None => {
            return None;
        },
    };
    Some((home, config))
}

/// The three directories that path templates may name, when the
/// operating system names them all: home, configuration, local
/// configuration.
pub fn resolve_template_dirs() -> Option<(String, String, String)> {
    let home = match os_home_dir() {
        Some(h) => h,
        None => {
            return None;
        },
    };
    let config = match os_config_dir() {
        Some(c) => c,
        None => {
            return None;
        },
    };
    let local = match os_config_local_dir() {
        Some(l) => l,
        None => {
            return None;
        },
    };
    Some((home, config, local))
}

/// Where the preference file lives under the configuration directory.
/// Separators are written as forward slashes, as the expanded path
/// templates are.
pub fn preference_file_path(config_dir: &str) -> (r: String)
    ensures
        r@ == config_dir@ + "/frickoff/config.toml"@,
{
    let mut r = config_dir.to_owned();
    r.append("/frickoff/config.toml");
    r
}

} // verus!
