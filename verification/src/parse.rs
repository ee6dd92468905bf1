//! Reading a preference file. The format is line-based: a `[frickoff]`
//! section with the two boolean settings, written `key = true` or
//! `key = false`, and a `[pathdefs]` section whose entries are
//! `key = "value"` with a bare key and a quote-free value. Blank lines are
//! skipped; any other line is a typed error.

use vstd::prelude::*;

use crate::prefs::AppConfig;
use crate::prefs::Config;
use crate::prefs::ConfigView;
use crate::prefs::is_key_char;
use crate::prefs::wf_config;
use crate::prefs::wf_key;
use crate::prefs::wf_value;
use crate::text::find_char;
use crate::text::has_char;
use crate::text::lemma_split_at_char_found;
use crate::text::lemma_split_at_char_none;
use crate::text::lines_of;
use crate::text::split_at_char;
use crate::text::split_lines;
use crate::text::str_eq;

verus! {

/// Why a preference file was rejected.
#[derive(Clone, Copy, Debug, PartialEq, Eq, Structural)]
pub enum ParseError {
    /// A line that is neither blank, a section header nor a setting.
    UnexpectedLine,
    /// A section header other than the two known ones.
    UnknownSection,
    /// A setting in the `[frickoff]` section other than the two known ones.
    UnknownKey,
    /// A `[frickoff]` setting whose value is neither `true` nor `false`.
    BadBoolean,
    /// A `[pathdefs]` key that is empty or holds a character outside the
    /// bare-key alphabet.
    BadKey,
    /// A `[pathdefs]` value that is not a quote-delimited, quote-free
    /// string.
    BadValue,
    /// A file that ends without both boolean settings.
    MissingField,
}

/// Which section the reader currently stands in.
#[derive(Clone, Copy, Debug, PartialEq, Eq, Structural)]
pub enum Section {
    /// Before any section header.
    Preamble,
    Frickoff,
    Pathdefs,
}

/// The reader's state between lines.
pub struct ParseState {
    pub section: Section,
    pub serious: Option<bool>,
    pub paranoid: Option<bool>,
    pub pathdefs: Seq<(Seq<char>, Seq<char>)>,
}

/// The state before the first line.
pub open spec fn init_state() -> ParseState {
    ParseState {
        section: Section::Preamble,
        serious: None,
        paranoid: None,
        pathdefs: Seq::empty(),
    }
}

/// What one line does to the reader's state.
pub open spec fn step_line(st: ParseState, line: Seq<char>) -> Result<ParseState, ParseError> {
    if line.len() == 0 {
        Ok(st)
    } else if line == "[frickoff]"@ {
        Ok(ParseState { section: Section::Frickoff, ..st })
    } else if line == "[pathdefs]"@ {
        Ok(ParseState { section: Section::Pathdefs, ..st })
    } else if line[0] == '[' {
        Err(ParseError::UnknownSection)
    } else {
        match split_at_char(line, ' ') {
            None => Err(ParseError::UnexpectedLine),
            Some((key, post)) => {
                if !(post.len() >= 2 && post[0] == '=' && post[1] == ' ') {
                    Err(ParseError::UnexpectedLine)
                } else {
                    let value = post.skip(2);
                    match st.section {
                        Section::Preamble => Err(ParseError::UnexpectedLine),
                        Section::Frickoff => {
                            if key == "serious"@ {
                                if value == "true"@ {
                                    Ok(ParseState { serious: Some(true), ..st })
                                } else if value == "false"@ {
                                    Ok(ParseState { serious: Some(false), ..st })
                                } else {
                                    Err(ParseError::BadBoolean)
                                }
                            } else if key == "paranoid"@ {
                                if value == "true"@ {
                                    Ok(ParseState { paranoid: Some(true), ..st })
                                } else if value == "false"@ {
                                    Ok(ParseState { paranoid: Some(false), ..st })
                                } else {
                                    Err(ParseError::BadBoolean)
                                }
                            } else {
                                Err(ParseError::UnknownKey)
                            }
                        },
                        Section::Pathdefs => {
                            if !wf_key(key) {
                                Err(ParseError::BadKey)
                            } else if value.len() >= 2 && value[0] == '"' && value[value.len()
                                - 1] == '"' && !has_char(value.subrange(1, value.len() - 1), '"') {
                                Ok(
                                    ParseState {
                                        pathdefs: st.pathdefs.push(
                                            (key, value.subrange(1, value.len() - 1)),
                                        ),
                                        ..st
                                    },
                                )
                            } else {
                                Err(ParseError::BadValue)
                            }
                        },
                    }
                }
            },
        }
    }
}

/// What a whole sequence of lines does to the reader's state.
pub open spec fn run_lines(st: ParseState, lines: Seq<Seq<char>>) -> Result<
    ParseState,
    ParseError,
>
    decreases lines.len(),
{
    if lines.len() == 0 {
        Ok(st)
    } else {
        match step_line(st, lines[0]) {
            Err(e) => Err(e),
            Ok(next) => run_lines(next, lines.skip(1)),
        }
    }
}

/// What reading a whole preference text yields.
pub open spec fn parse_config_spec(s: Seq<char>) -> Result<ConfigView, ParseError> {
    match run_lines(init_state(), lines_of(s)) {
        Err(e) => Err(e),
        Ok(st) => match (st.serious, st.paranoid) {
            (Some(serious), Some(paranoid)) => Ok(
                ConfigView { serious, paranoid, pathdefs: st.pathdefs },
            ),
            _ => Err(ParseError::MissingField),
        },
    }
}

/// Every entry the file format can carry.
pub open spec fn wf_entries(pd: Seq<(Seq<char>, Seq<char>)>) -> bool {
    forall|i: int| 0 <= i < pd.len() ==> wf_key(#[trigger] pd[i].0) && wf_value(pd[i].1)
}

/// A step on a newline-free line keeps every stored entry fit for the
/// file format.
pub proof fn lemma_step_preserves_wf(st: ParseState, line: Seq<char>)
    requires
        !has_char(line, '\n'),
        wf_entries(st.pathdefs),
        step_line(st, line) is Ok,
    ensures
        wf_entries(step_line(st, line)->Ok_0.pathdefs),
{
    let next = step_line(st, line)->Ok_0;
    if line.len() == 0 || line == "[frickoff]"@ || line == "[pathdefs]"@ {
    } else {
        match split_at_char(line, ' ') {
            None => {},
            Some((key, post)) => {
                lemma_split_at_char_shape(line, ' ');
                if post.len() >= 2 && post[0] == '=' && post[1] == ' ' && st.section
                    == Section::Pathdefs && wf_key(key) {
                    let value = post.skip(2);
                    if value.len() >= 2 && value[0] == '"' && value[value.len() - 1] == '"'
                        && !has_char(value.subrange(1, value.len() - 1), '"') {
                        let middle = value.subrange(1, value.len() - 1);
                        assert forall|i: int| 0 <= i < middle.len() implies #[trigger] middle[i]
                            != '"' && middle[i] != '\n' by {
                            assert(middle[i] == line[key.len() + 1 + 2 + 1 + i]);
                            assert(!(middle[i] == '"')) by {
                                assert(has_char(middle, '"') == false);
                            }
                            assert(!(line[key.len() + 1 + 2 + 1 + i] == '\n')) by {
                                assert(!has_char(line, '\n'));
                            }
                        }
                        assert(wf_value(middle));
                        assert forall|i: int| 0 <= i < next.pathdefs.len() implies wf_key(
                            #[trigger] next.pathdefs[i].0,
                        ) && wf_value(next.pathdefs[i].1) by {
                            if i < st.pathdefs.len() {
                                assert(next.pathdefs[i] == st.pathdefs[i]);
                            } else {
                                assert(next.pathdefs[i] == (key, middle));
                            }
                        }
                    }
                }
            },
        }
    }
}

/// When the split succeeds, the line is the two parts around the first
/// occurrence of the character.
pub proof fn lemma_split_at_char_shape(s: Seq<char>, c: char)
    requires
        split_at_char(s, c) is Some,
    ensures
        ({
            let (pre, post) = split_at_char(s, c)->Some_0;
            s =~= pre + seq![c] + post && !has_char(pre, c)
        }),
    decreases s.len(),
{
    let (pre, post) = split_at_char(s, c)->Some_0;
    if s.len() == 0 {
    } else if s[0] == c {
        assert(s =~= Seq::<char>::empty() + seq![c] + s.skip(1));
    } else {
        lemma_split_at_char_shape(s.skip(1), c);
        let (p2, q2) = split_at_char(s.skip(1), c)->Some_0;
        assert(s.skip(1) =~= p2 + seq![c] + q2);
        assert(pre =~= seq![s[0]] + p2);
        assert(s =~= seq![s[0]] + s.skip(1));
        assert(s =~= pre + seq![c] + post);
        assert forall|i: int| 0 <= i < pre.len() implies pre[i] != c by {
            if i == 0 {
            } else {
                assert(pre[i] == p2[i - 1]);
                assert(!has_char(p2, c));
            }
        }
    }
}

/// The executable reader's state between lines.
struct ParseRun {
    section: Section,
    serious: Option<bool>,
    paranoid: Option<bool>,
    pathdefs: Vec<(String, String)>,
}

impl View for ParseRun {
    type V = ParseState;

    closed spec fn view(&self) -> ParseState {
        ParseState {
            section: self.section,
            serious: self.serious,
            paranoid: self.paranoid,
            pathdefs: self.pathdefs.deep_view(),
        }
    }
}

/// One line of the executable reader, mirroring `step_line`.
#[verifier::loop_isolation(false)]
fn step_exec(st: ParseRun, line: &str) -> (r: Result<ParseRun, ParseError>)
    ensures
        match r {
            Ok(next) => step_line(st@, line@) == Ok::<ParseState, ParseError>(next@),
            Err(e) => step_line(st@, line@) == Err::<ParseState, ParseError>(e),
        },
{
    let len = line.unicode_len();
    if len == 0 {
        return Ok(st);
    }
    if str_eq(line, "[frickoff]") {
        return Ok(ParseRun { section: Section::Frickoff, ..st });
    }
    if str_eq(line, "[pathdefs]") {
        return Ok(ParseRun { section: Section::Pathdefs, ..st });
    }
    if line.get_char(0) == '[' {
        return Err(ParseError::UnknownSection);
    }
    let i = match find_char(line, 0, ' ') {
        None => {
            proof {
                lemma_split_at_char_none(line@, ' ');
            }
            return Err(ParseError::UnexpectedLine);
        },
        Some(i) => i,
    };
    proof {
        lemma_split_at_char_found(line@, ' ', i as int);
    }
    let ghost key = line@.take(i as int);
    let ghost post = line@.skip(i + 1);
    if len - (i + 1) < 2 {
        return Err(ParseError::UnexpectedLine);
    }
    if line.get_char(i + 1) != '=' || line.get_char(i + 2) != ' ' {
        return Err(ParseError::UnexpectedLine);
    }
    let vstart = i + 3;
    let ghost value = post.skip(2);
    proof {
        assert(value =~= line@.skip(vstart as int));
    }
    match st.section {
        Section::Preamble => Err(ParseError::UnexpectedLine),
        Section::Frickoff => {
            let key_s = line.substring_char(0, i);
            let value_s = line.substring_char(vstart, len);
            proof {
                assert(key_s@ =~= key);
                assert(value_s@ =~= value);
            }
            if str_eq(key_s, "serious") {
                if str_eq(value_s, "true") {
                    Ok(ParseRun { serious: Some(true), ..st })
                } else if str_eq(value_s, "false") {
                    Ok(ParseRun { serious: Some(false), ..st })
                } else {
                    Err(ParseError::BadBoolean)
                }
            } else if str_eq(key_s, "paranoid") {
                if str_eq(value_s, "true") {
                    Ok(ParseRun { paranoid: Some(true), ..st })
                } else if str_eq(value_s, "false") {
                    Ok(ParseRun { paranoid: Some(false), ..st })
                } else {
                    Err(ParseError::BadBoolean)
                }
            } else {
                Err(ParseError::UnknownKey)
            }
        },
        Section::Pathdefs => {
            if i == 0 {
                assert(!wf_key(key));
                return Err(ParseError::BadKey);
            }
            let mut j: usize = 0;
            while j < i
                invariant
                    0 < i < len,
                    len == line@.len(),
                    key == line@.take(i as int),
                    0 <= j <= i,
                    forall|k: int| 0 <= k < j ==> is_key_char(#[trigger] key[k]),
                decreases i - j,
            {
                if !is_key_char_exec(line.get_char(j)) {
                    assert(key[j as int] == line@[j as int]);
                    assert(!wf_key(key));
                    return Err(ParseError::BadKey);
                }
                assert(key[j as int] == line@[j as int]);
                j += 1;
            }
            assert(wf_key(key));
            let vlen = len - vstart;
            if vlen < 2 {
                return Err(ParseError::BadValue);
            }
            if line.get_char(vstart) != '"' {
                assert(value[0] == line@[vstart as int]);
                return Err(ParseError::BadValue);
            }
            if line.get_char(len - 1) != '"' {
                assert(value[value.len() - 1] == line@[len - 1]);
                return Err(ParseError::BadValue);
            }
            let ghost middle = value.subrange(1, value.len() - 1);
            let mut j: usize = vstart + 1;
            while j < len - 1
                invariant
                    0 < vstart < vstart + 2 <= len,
                    len == line@.len(),
                    value == line@.skip(vstart as int),
                    middle == value.subrange(1, value.len() - 1),
                    vstart + 1 <= j <= len - 1,
                    forall|k: int| vstart + 1 <= k < j ==> line@[k] != '"',
                decreases len - j,
            {
                if line.get_char(j) == '"' {
                    assert(middle[j - vstart - 1] == line@[j as int]);
                    assert(has_char(middle, '"'));
                    return Err(ParseError::BadValue);
                }
                j += 1;
            }
            assert forall|k: int| 0 <= k < middle.len() implies #[trigger] middle[k] != '"' by {
                assert(middle[k] == line@[vstart + 1 + k]);
            }
            assert(!has_char(middle, '"'));
            let key_owned = line.substring_char(0, i).to_owned();
            let middle_owned = line.substring_char(vstart + 1, len - 1).to_owned();
            proof {
                assert(key_owned@ =~= key);
                assert(middle_owned@ =~= middle);
            }
            let ghost prev = st.pathdefs.deep_view();
            let mut st = st;
            st.pathdefs.push((key_owned, middle_owned));
            proof {
                assert(st.pathdefs.deep_view() =~= prev.push((key, middle)));
            }
            Ok(st)
        },
    }
}

/// Reads a preference text, as `parse_config_spec` describes; every
/// record it accepts can be written back by the file format.
#[verifier::loop_isolation(false)]
pub fn parse_config(s: &str) -> (r: Result<Config, ParseError>)
    ensures
        match r {
            Ok(c) => parse_config_spec(s@) == Ok::<ConfigView, ParseError>(c@) && wf_config(c@),
            Err(e) => parse_config_spec(s@) == Err::<ConfigView, ParseError>(e),
        },
{
    let lines = split_lines(s);
    let ghost all = lines.deep_view();
    proof {
        lemma_lines_newline_free(s@);
    }
    let mut st = ParseRun {
        section: Section::Preamble,
        serious: None,
        paranoid: None,
        pathdefs: Vec::new(),
    };
    proof {
        assert(st@.pathdefs =~= Seq::<(Seq<char>, Seq<char>)>::empty());
        assert(st@ == init_state());
        assert(all.skip(0) =~= all);
    }
    let mut k: usize = 0;
    while k < lines.len()
        invariant
            all == lines.deep_view(),
            all == lines_of(s@),
            0 <= k <= lines.len(),
            run_lines(init_state(), all) == run_lines(st@, all.skip(k as int)),
            wf_entries(st@.pathdefs),
        decreases lines.len() - k,
    {
        let ghost before = st@;
        let line = &lines[k];
        proof {
            assert(all[k as int] == line@);
            assert(!has_char(line@, '\n'));
        }
        match step_exec(st, line.as_str()) {
            Ok(next) => {
                proof {
                    lemma_step_preserves_wf(before, line@);
                    assert(all.skip(k as int)[0] == all[k as int]);
                    assert(all.skip(k as int).skip(1) =~= all.skip(k + 1));
                }
                st = next;
            },
            Err(e) => {
                proof {
                    assert(all.skip(k as int)[0] == all[k as int]);
                    assert(run_lines(before, all.skip(k as int)) == Err::<ParseState, ParseError>(
                        e,
                    ));
                }
                return Err(e);
            },
        }
        k += 1;
    }
    proof {
        assert(all.skip(lines.len() as int) =~= Seq::<Seq<char>>::empty());
        assert(run_lines(init_state(), all) == Ok::<ParseState, ParseError>(st@));
    }
    let serious = match st.serious {
        Some(b) => b,
        None => {
            return Err(ParseError::MissingField);
        },
    };
    let paranoid = match st.paranoid {
        Some(b) => b,
        None => {
            return Err(ParseError::MissingField);
        },
    };
    let c = Config {
        frickoff: AppConfig { serious, paranoid },
        pathdefs: st.pathdefs,
    };
    proof {
        assert(c@ =~= parse_config_spec(s@)->Ok_0);
    }
    Ok(c)
}

/// No line that splitting yields holds a newline.
pub proof fn lemma_lines_newline_free(s: Seq<char>)
    ensures
        forall|i: int|
            0 <= i < lines_of(s).len() ==> !has_char(#[trigger] lines_of(s)[i], '\n'),
    decreases s.len(),
{
    let ls = lines_of(s);
    if s.len() == 0 {
        assert forall|i: int| 0 <= i < ls.len() implies !has_char(#[trigger] ls[i], '\n') by {
            assert(ls[i].len() == 0);
        }
    } else if s[0] == '\n' {
        lemma_lines_newline_free(s.skip(1));
        assert forall|i: int| 0 <= i < ls.len() implies !has_char(#[trigger] ls[i], '\n') by {
            if i == 0 {
                assert(ls[0].len() == 0);
            } else {
                assert(ls[i] == lines_of(s.skip(1))[i - 1]);
            }
        }
    } else {
        lemma_lines_newline_free(s.skip(1));
        let rest = lines_of(s.skip(1));
        crate::text::lemma_lines_of_len(s.skip(1));
        assert forall|i: int| 0 <= i < ls.len() implies !has_char(#[trigger] ls[i], '\n') by {
            if i == 0 {
                let first = seq![s[0]] + rest[0];
                assert(!has_char(rest[0], '\n'));
                assert forall|j: int| 0 <= j < first.len() implies first[j] != '\n' by {
                    if j == 0 {
                    } else {
                        assert(first[j] == rest[0][j - 1]);
                    }
                }
            } else {
                assert(ls[i] == rest[i]);
            }
        }
    }
}

/// Whether `c` may stand in a table key.
pub fn is_key_char_exec(c: char) -> (r: bool)
    ensures
        r == is_key_char(c),
{
    let n = c as u32;
    (97 <= n && n <= 122) || (65 <= n && n <= 90) || (48 <= n && n <= 57) || n == 95 || n == 45
}

} // verus!
