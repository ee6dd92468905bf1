//! The persisted preferences: two booleans that steer tone and strictness,
//! and an ordered table of named path templates. The templates may hold the
//! placeholders `HOME`, `CONFIG` and `LOCAL`, expanded against the
//! machine's directories after loading.

use vstd::prelude::*;

use crate::text::replace_all;
use crate::text::replace_str;

verus! {

/// The tool's own settings inside the preference file.
#[derive(Debug)]
pub struct AppConfig {
    /// Use the formal message catalog by default.
    pub serious: bool,
    /// Require the full confirmation phrase by default.
    pub paranoid: bool,
}

/// The whole preference file: the tool's settings and the ordered table
/// of named path templates.
#[derive(Debug)]
pub struct Config {
    pub frickoff: AppConfig,
    pub pathdefs: Vec<(String, String)>,
}

/// The mathematical content of a `Config`.
pub struct ConfigView {
    pub serious: bool,
    pub paranoid: bool,
    pub pathdefs: Seq<(Seq<char>, Seq<char>)>,
}

impl View for Config {
    type V = ConfigView;

    open spec fn view(&self) -> ConfigView {
        ConfigView {
            serious: self.frickoff.serious,
            paranoid: self.frickoff.paranoid,
            pathdefs: self.pathdefs.deep_view(),
        }
    }
}

/// Whether `c` may stand in a table key: ASCII letters, digits,
/// underscore and dash.
pub open spec fn is_key_char(c: char) -> bool {
    (97 <= c as u32 && c as u32 <= 122) || (65 <= c as u32 && c as u32 <= 90) || (48 <= c as u32
        && c as u32 <= 57) || c as u32 == 95 || c as u32 == 45
}

/// A key the file format can carry: nonempty, bare characters only.
pub open spec fn wf_key(k: Seq<char>) -> bool {
    k.len() > 0 && forall|i: int| 0 <= i < k.len() ==> is_key_char(#[trigger] k[i])
}

/// A value the file format can carry: no quote and no newline.
pub open spec fn wf_value(v: Seq<char>) -> bool {
    forall|i: int| 0 <= i < v.len() ==> #[trigger] v[i] != '"' && v[i] != '\n'
}

/// A preference record the file format can carry back and forth.
pub open spec fn wf_config(v: ConfigView) -> bool {
    forall|i: int| 0 <= i < v.pathdefs.len() ==> wf_key(#[trigger] v.pathdefs[i].0) && wf_value(
        v.pathdefs[i].1,
    )
}

/// The compiled-in defaults: relaxed tone, relaxed confirmation, and an
/// empty table of path templates.
pub open spec fn default_config() -> ConfigView {
    ConfigView { serious: false, paranoid: false, pathdefs: Seq::empty() }
}

impl Config {
    /// A fresh preference record with the compiled-in defaults.
    pub fn new() -> (c: Config)
        ensures
            c@ == default_config(),
            wf_config(c@),
    {
        let c = Config {
            frickoff: AppConfig { serious: false, paranoid: false },
            pathdefs: Vec::new(),
        };
        proof {
            assert(c.pathdefs.deep_view() =~= Seq::<(Seq<char>, Seq<char>)>::empty());
            assert(c@ =~= default_config());
        }
        c
    }
}

/// A path template after expansion: `HOME`, `CONFIG` and `LOCAL` replaced
/// by the machine's directories, and backslashes turned into forward
/// slashes.
pub open spec fn expand_path_spec(
    p: Seq<char>,
    home: Seq<char>,
    config: Seq<char>,
    local: Seq<char>,
) -> Seq<char> {
    replace_str(
        replace_str(replace_str(replace_str(p, "HOME"@, home), "CONFIG"@, config), "LOCAL"@, local),
        "\\"@,
        "/"@,
    )
}

/// Expands one path template against the given directories.
pub fn expand_path(path: &str, home: &str, config: &str, local: &str) -> (r: String)
    ensures
        r@ == expand_path_spec(path@, home@, config@, local@),
{
    proof {
        reveal_strlit("HOME");
        reveal_strlit("CONFIG");
        reveal_strlit("LOCAL");
        reveal_strlit("\\");
    }
    let step1 = replace_all(path, "HOME", home);
    let step2 = replace_all(step1.as_str(), "CONFIG", config);
    let step3 = replace_all(step2.as_str(), "LOCAL", local);
    replace_all(step3.as_str(), "\\", "/")
}

/// Expands every path template in the record against the given
/// directories; the booleans and the keys stay as they were.
pub fn expand_config_paths(c: &Config, home: &str, config: &str, local: &str) -> (r: Config)
    ensures
        r@.serious == c@.serious,
        r@.paranoid == c@.paranoid,
        r@.pathdefs.len() == c@.pathdefs.len(),
        forall|i: int|
            0 <= i < c@.pathdefs.len() ==> #[trigger] r@.pathdefs[i] == (
                c@.pathdefs[i].0,
                expand_path_spec(c@.pathdefs[i].1, home@, config@, local@),
            ),
{
    let mut expanded: Vec<(String, String)> = Vec::new();
    let mut i: usize = 0;
    while i < c.pathdefs.len()
        invariant
            0 <= i <= c.pathdefs.len(),
            expanded.deep_view().len() == i,
            forall|j: int|
                0 <= j < i ==> #[trigger] expanded.deep_view()[j] == (
                    c@.pathdefs[j].0,
                    expand_path_spec(c@.pathdefs[j].1, home@, config@, local@),
                ),
        decreases c.pathdefs.len() - i,
    {
        let ghost prev = expanded.deep_view();
        let key = c.pathdefs[i].0.clone();
        let value = expand_path(c.pathdefs[i].1.as_str(), home, config, local);
        proof {
            assert(c.pathdefs@[i as int].0@ == c@.pathdefs[i as int].0);
            assert(c.pathdefs@[i as int].1@ == c@.pathdefs[i as int].1);
        }
        expanded.push((key, value));
        proof {
            assert(expanded.deep_view() =~= prev.push((key@, value@)));
        }
        i += 1;
    }
    let r = Config { frickoff: AppConfig { serious: c.frickoff.serious, paranoid: c.frickoff.paranoid }, pathdefs: expanded };
    r
}

/// Reads a preference text and expands every path template against the
/// given directories: the computing half of loading a preference file,
/// once the caller has read the text and resolved the directories.
pub fn load_config(content: &str, home: &str, config: &str, local: &str) -> (r: Result<
    Config,
    crate::parse::ParseError,
>)
    ensures
        match r {
            Ok(c) => {
                let parsed = crate::parse::parse_config_spec(content@);
                &&& parsed is Ok
                &&& c@.serious == parsed->Ok_0.serious
                &&& c@.paranoid == parsed->Ok_0.paranoid
                &&& c@.pathdefs.len() == parsed->Ok_0.pathdefs.len()
                &&& forall|i: int|
                    0 <= i < c@.pathdefs.len() ==> #[trigger] c@.pathdefs[i] == (
                        parsed->Ok_0.pathdefs[i].0,
                        expand_path_spec(parsed->Ok_0.pathdefs[i].1, home@, config@, local@),
                    )
            },
            Err(e) => crate::parse::parse_config_spec(content@) == Err::<ConfigView, _>(e),
        },
{
    match crate::parse::parse_config(content) {
        Ok(c) => Ok(expand_config_paths(&c, home, config, local)),
        Err(e) => Err(e),
    }
}

} // verus!
