//! Writing a preference file, and the guarantee that whatever is written
//! can be read back unchanged.

use vstd::prelude::*;

use crate::parse::ParseError;
use crate::parse::ParseState;
use crate::parse::Section;
use crate::parse::init_state;
use crate::parse::parse_config_spec;
use crate::parse::run_lines;
use crate::parse::step_line;
use crate::prefs::Config;
use crate::prefs::ConfigView;
use crate::prefs::is_key_char;
use crate::prefs::wf_config;
use crate::prefs::wf_key;
use crate::prefs::wf_value;
use crate::text::has_char;
use crate::text::lemma_lines_of_concat;
use crate::text::lemma_split_at_char_found;
use crate::text::lines_of;

verus! {

/// The text of a boolean setting.
pub open spec fn bool_str(b: bool) -> Seq<char> {
    if b {
        "true"@
    } else {
        "false"@
    }
}

/// The line that carries one path-template entry.
pub open spec fn entry_line(k: Seq<char>, v: Seq<char>) -> Seq<char> {
    k + seq![' ', '=', ' ', '"'] + v + seq!['"']
}

/// The lines that carry a whole table of path templates.
pub open spec fn entry_lines(pd: Seq<(Seq<char>, Seq<char>)>) -> Seq<Seq<char>> {
    pd.map_values(|p: (Seq<char>, Seq<char>)| entry_line(p.0, p.1))
}

/// Every line of the written file, in order, without the newlines.
pub open spec fn config_lines(v: ConfigView) -> Seq<Seq<char>> {
    seq![
        "[frickoff]"@,
        "serious = "@ + bool_str(v.serious),
        "paranoid = "@ + bool_str(v.paranoid),
        Seq::<char>::empty(),
        "[pathdefs]"@,
    ] + entry_lines(v.pathdefs)
}

/// Joins lines into a text, a newline after each line.
pub open spec fn unlines(ls: Seq<Seq<char>>) -> Seq<char>
    decreases ls.len(),
{
    if ls.len() == 0 {
        Seq::empty()
    } else {
        ls[0] + seq!['\n'] + unlines(ls.skip(1))
    }
}

/// The full text of the written preference file.
pub open spec fn serialize_spec(v: ConfigView) -> Seq<char> {
    unlines(config_lines(v))
}

/// Joining distributes over concatenation of line sequences.
pub proof fn lemma_unlines_concat(a: Seq<Seq<char>>, b: Seq<Seq<char>>)
    ensures
        unlines(a + b) == unlines(a) + unlines(b),
    decreases a.len(),
{
    if a.len() == 0 {
        assert(a + b =~= b);
        assert(unlines(a) + unlines(b) =~= unlines(b));
    } else {
        assert((a + b).skip(1) =~= a.skip(1) + b);
        lemma_unlines_concat(a.skip(1), b);
        assert((a + b)[0] == a[0]);
        assert(unlines(a + b) =~= unlines(a) + unlines(b));
    }
}

/// Splitting a joined text recovers the lines, plus the empty line after
/// the final newline.
pub proof fn lemma_lines_of_unlines(ls: Seq<Seq<char>>)
    requires
        forall|i: int| 0 <= i < ls.len() ==> !has_char(#[trigger] ls[i], '\n'),
    ensures
        lines_of(unlines(ls)) == ls + seq![Seq::<char>::empty()],
    decreases ls.len(),
{
    if ls.len() == 0 {
        assert(unlines(ls) == Seq::<char>::empty());
        assert(lines_of(unlines(ls)) =~= ls + seq![Seq::<char>::empty()]);
    } else {
        assert forall|i: int| 0 <= i < ls.skip(1).len() implies !has_char(
            #[trigger] ls.skip(1)[i],
            '\n',
        ) by {
            assert(ls.skip(1)[i] == ls[i + 1]);
        }
        lemma_lines_of_unlines(ls.skip(1));
        assert(ls[0] == ls.first());
        lemma_lines_of_concat(ls[0], unlines(ls.skip(1)));
        assert(lines_of(unlines(ls)) =~= ls + seq![Seq::<char>::empty()]);
    }
}

/// A bare-key character is none of the characters the file format gives
/// a meaning to.
proof fn lemma_key_char_plain(c: char)
    requires
        is_key_char(c),
    ensures
        c != '\n' && c != ' ' && c != '[' && c != '"',
{
}

/// No line the writer produces holds a newline.
proof fn lemma_config_lines_newline_free(v: ConfigView)
    requires
        wf_config(v),
    ensures
        forall|i: int|
            0 <= i < config_lines(v).len() ==> !has_char(#[trigger] config_lines(v)[i], '\n'),
{
    reveal_strlit("[frickoff]");
    reveal_strlit("[pathdefs]");
    reveal_strlit("serious = ");
    reveal_strlit("paranoid = ");
    reveal_strlit("true");
    reveal_strlit("false");
    let ls = config_lines(v);
    assert forall|i: int| 0 <= i < ls.len() implies !has_char(#[trigger] ls[i], '\n') by {
        if i < 5 {
            assert forall|j: int| 0 <= j < ls[i].len() implies ls[i][j] != '\n' by {
                if i == 1 {
                    assert(ls[1] == "serious = "@ + bool_str(v.serious));
                } else if i == 2 {
                    assert(ls[2] == "paranoid = "@ + bool_str(v.paranoid));
                }
            }
        } else {
            let k = v.pathdefs[i - 5].0;
            let w = v.pathdefs[i - 5].1;
            assert(wf_key(k) && wf_value(w));
            assert(ls[i] == entry_line(k, w));
            let line = entry_line(k, w);
            assert forall|j: int| 0 <= j < line.len() implies line[j] != '\n' by {
                if j < k.len() {
                    assert(line[j] == k[j]);
                    lemma_key_char_plain(k[j]);
                } else if j < k.len() + 4 {
                    assert(line[j] == seq![' ', '=', ' ', '"'][j - k.len()]);
                } else if j < k.len() + 4 + w.len() {
                    assert(line[j] == w[j - k.len() - 4]);
                } else {
                    assert(line[j] == '"');
                }
            }
        }
    }
}

/// Reading back one written path-template line adds exactly that entry.
proof fn lemma_step_entry_line(st: ParseState, k: Seq<char>, v: Seq<char>)
    requires
        st.section == Section::Pathdefs,
        wf_key(k),
        wf_value(v),
    ensures
        step_line(st, entry_line(k, v)) == Ok::<ParseState, ParseError>(
            ParseState { pathdefs: st.pathdefs.push((k, v)), ..st },
        ),
{
    reveal_strlit("[frickoff]");
    reveal_strlit("[pathdefs]");
    let line = entry_line(k, v);
    let klen = k.len() as int;
    assert(line.len() == klen + 4 + v.len() + 1);
    assert(line[0] == k[0]);
    lemma_key_char_plain(k[0]);
    assert(line != "[frickoff]"@) by {
        if line == "[frickoff]"@ {
            assert(line[0] == '[');
        }
    }
    assert(line != "[pathdefs]"@) by {
        if line == "[pathdefs]"@ {
            assert(line[0] == '[');
        }
    }
    assert(line[klen] == ' ');
    assert forall|j: int| 0 <= j < klen implies line[j] != ' ' by {
        assert(line[j] == k[j]);
        lemma_key_char_plain(k[j]);
    }
    lemma_split_at_char_found(line, ' ', klen);
    let key = line.take(klen);
    let post = line.skip(klen + 1);
    assert(key =~= k);
    assert(post =~= seq!['=', ' ', '"'] + v + seq!['"']);
    assert(post[0] == '=' && post[1] == ' ');
    let value = post.skip(2);
    assert(value =~= seq!['"'] + v + seq!['"']);
    assert(value[0] == '"');
    assert(value[value.len() - 1] == '"');
    let middle = value.subrange(1, value.len() - 1);
    assert(middle =~= v);
    assert(!has_char(middle, '"')) by {
        if has_char(middle, '"') {
            let w = choose|i: int| 0 <= i < middle.len() && middle[i] == '"';
            assert(v[w] != '"');
        }
    }
    assert(step_line(st, line) == Ok::<ParseState, ParseError>(
        ParseState { pathdefs: st.pathdefs.push((key, middle)), ..st },
    ));
    assert((key, middle) == (k, v));
}

/// Reading back the written path-template lines, with the empty line
/// that ends the file, appends exactly the written entries.
proof fn lemma_run_entry_lines(st: ParseState, pd: Seq<(Seq<char>, Seq<char>)>)
    requires
        st.section == Section::Pathdefs,
        forall|i: int| 0 <= i < pd.len() ==> wf_key(#[trigger] pd[i].0) && wf_value(pd[i].1),
    ensures
        run_lines(st, entry_lines(pd) + seq![Seq::<char>::empty()]) == Ok::<
            ParseState,
            ParseError,
        >(ParseState { pathdefs: st.pathdefs + pd, ..st }),
    decreases pd.len(),
{
    let e = Seq::<char>::empty();
    let lines = entry_lines(pd) + seq![e];
    if pd.len() == 0 {
        assert(lines =~= seq![e]);
        assert(step_line(st, e) == Ok::<ParseState, ParseError>(st));
        assert(lines.skip(1) =~= Seq::<Seq<char>>::empty());
        assert(run_lines(st, Seq::<Seq<char>>::empty()) == Ok::<ParseState, ParseError>(st));
        assert(st.pathdefs + pd =~= st.pathdefs);
    } else {
        let k = pd[0].0;
        let v = pd[0].1;
        assert(lines[0] == entry_line(k, v));
        lemma_step_entry_line(st, k, v);
        let st1 = ParseState { pathdefs: st.pathdefs.push((k, v)), ..st };
        assert forall|i: int| 0 <= i < pd.skip(1).len() implies wf_key(
            #[trigger] pd.skip(1)[i].0,
        ) && wf_value(pd.skip(1)[i].1) by {
            assert(pd.skip(1)[i] == pd[i + 1]);
        }
        lemma_run_entry_lines(st1, pd.skip(1));
        assert(lines.skip(1) =~= entry_lines(pd.skip(1)) + seq![e]);
        assert(st.pathdefs.push((k, v)) + pd.skip(1) =~= st.pathdefs + pd);
        assert(run_lines(st, lines) == run_lines(st1, lines.skip(1)));
    }
}

/// The round trip: any record the file format can carry reads back,
/// after a write, exactly as it was written.
pub proof fn lemma_write_then_read_round_trip(v: ConfigView)
    requires
        wf_config(v),
    ensures
        parse_config_spec(serialize_spec(v)) == Ok::<ConfigView, ParseError>(v),
{
    reveal_strlit("[frickoff]");
    reveal_strlit("[pathdefs]");
    reveal_strlit("serious = ");
    reveal_strlit("paranoid = ");
    reveal_strlit("serious");
    reveal_strlit("paranoid");
    reveal_strlit("true");
    reveal_strlit("false");
    let ls = config_lines(v);
    lemma_config_lines_newline_free(v);
    lemma_lines_of_unlines(ls);
    let e = Seq::<char>::empty();
    assert(lines_of(serialize_spec(v)) == ls + seq![e]);
    let l0 = "[frickoff]"@;
    let l1 = "serious = "@ + bool_str(v.serious);
    let l2 = "paranoid = "@ + bool_str(v.paranoid);
    let l4 = "[pathdefs]"@;
    let tail = entry_lines(v.pathdefs) + seq![e];
    let lines = ls + seq![e];
    assert(lines =~= seq![l0, l1, l2, e, l4] + tail);
    let r1 = seq![l1, l2, e, l4] + tail;
    let r2 = seq![l2, e, l4] + tail;
    let r3 = seq![e, l4] + tail;
    let r4 = seq![l4] + tail;
    assert(lines.skip(1) =~= r1);
    assert(r1.skip(1) =~= r2);
    assert(r2.skip(1) =~= r3);
    assert(r3.skip(1) =~= r4);
    assert(r4.skip(1) =~= tail);

    let st0 = init_state();
    // `[frickoff]` opens the first section.
    assert(step_line(st0, lines[0]) == Ok::<ParseState, ParseError>(
        ParseState { section: Section::Frickoff, ..st0 },
    ));
    let st1 = ParseState { section: Section::Frickoff, ..st0 };
    assert(run_lines(st0, lines) == run_lines(st1, r1));

    // `serious = <bool>` stores the first setting.
    assert(l1[7] == ' ');
    assert forall|j: int| 0 <= j < 7 implies l1[j] != ' ' by {
        assert(l1[j] == "serious = "@[j]);
    }
    lemma_split_at_char_found(l1, ' ', 7);
    assert(l1.take(7) =~= "serious"@);
    let post1 = l1.skip(8);
    assert(post1[0] == l1[8] && post1[1] == l1[9]);
    assert(post1.skip(2) =~= bool_str(v.serious));
    assert(l1 != "[frickoff]"@ && l1 != "[pathdefs]"@);
    assert(l1[0] != '[');
    assert("serious"@ != "paranoid"@) by {
        assert("serious"@.len() != "paranoid"@.len());
    }
    let st2 = ParseState { serious: Some(v.serious), ..st1 };
    assert(step_line(st1, l1) == Ok::<ParseState, ParseError>(st2)) by {
        if v.serious {
            assert(bool_str(v.serious) == "true"@);
        } else {
            assert(bool_str(v.serious) != "true"@) by {
                assert("false"@.len() != "true"@.len());
            }
        }
    }
    assert(r1[0] == l1);
    assert(run_lines(st1, r1) == run_lines(st2, r2));

    // `paranoid = <bool>` stores the second setting.
    assert(l2[8] == ' ');
    assert forall|j: int| 0 <= j < 8 implies l2[j] != ' ' by {
        assert(l2[j] == "paranoid = "@[j]);
    }
    lemma_split_at_char_found(l2, ' ', 8);
    assert(l2.take(8) =~= "paranoid"@);
    let post2 = l2.skip(9);
    assert(post2[0] == l2[9] && post2[1] == l2[10]);
    assert(post2.skip(2) =~= bool_str(v.paranoid));
    assert(l2 != "[frickoff]"@ && l2 != "[pathdefs]"@);
    assert(l2[0] != '[');
    let st3 = ParseState { paranoid: Some(v.paranoid), ..st2 };
    assert(step_line(st2, l2) == Ok::<ParseState, ParseError>(st3)) by {
        assert("paranoid"@ != "serious"@) by {
            assert("serious"@.len() != "paranoid"@.len());
        }
        if v.paranoid {
            assert(bool_str(v.paranoid) == "true"@);
        } else {
            assert(bool_str(v.paranoid) != "true"@) by {
                assert("false"@.len() != "true"@.len());
            }
        }
    }
    assert(r2[0] == l2);
    assert(run_lines(st2, r2) == run_lines(st3, r3));

    // The blank separator changes nothing.
    assert(r3[0] == e);
    assert(step_line(st3, e) == Ok::<ParseState, ParseError>(st3));
    assert(run_lines(st3, r3) == run_lines(st3, r4));

    // `[pathdefs]` opens the second section.
    assert(r4[0] == l4);
    let st4 = ParseState { section: Section::Pathdefs, ..st3 };
    assert(l4 != "[frickoff]"@) by {
        if l4 == "[frickoff]"@ {
            assert(l4[1] == "[frickoff]"@[1]);
        }
    }
    assert(step_line(st3, l4) == Ok::<ParseState, ParseError>(st4));
    assert(run_lines(st3, r4) == run_lines(st4, tail));

    // The written entries read back as themselves.
    assert forall|i: int| 0 <= i < v.pathdefs.len() implies wf_key(#[trigger] v.pathdefs[i].0)
        && wf_value(v.pathdefs[i].1) by {
        assert(wf_config(v));
    }
    lemma_run_entry_lines(st4, v.pathdefs);
    let fin = run_lines(st4, tail)->Ok_0;
    assert(fin.pathdefs =~= v.pathdefs);
    assert(parse_config_spec(serialize_spec(v)) == Ok::<ConfigView, ParseError>(
        ConfigView { serious: v.serious, paranoid: v.paranoid, pathdefs: fin.pathdefs },
    ));
    assert(ConfigView { serious: v.serious, paranoid: v.paranoid, pathdefs: fin.pathdefs } == v);
}

/// Writes the preference record in the file format, as `serialize_spec`
/// describes.
#[verifier::loop_isolation(false)]
pub fn serialize_config(c: &Config) -> (r: String)
    ensures
        r@ == serialize_spec(c@),
{
    proof {
        reveal_strlit("\n");
        reveal_strlit(" = \"");
        reveal_strlit("\"");
    }
    let ghost all = config_lines(c@);
    let mut r = String::new();
    r.append("[frickoff]");
    r.append("\n");
    r.append("serious = ");
    if c.frickoff.serious {
        r.append("true");
    } else {
        r.append("false");
    }
    r.append("\n");
    r.append("paranoid = ");
    if c.frickoff.paranoid {
        r.append("true");
    } else {
        r.append("false");
    }
    r.append("\n");
    r.append("\n");
    r.append("[pathdefs]");
    r.append("\n");
    proof {
        assert("\n"@ =~= seq!['\n']);
        let l0 = "[frickoff]"@;
        let l1 = "serious = "@ + bool_str(c@.serious);
        let l2 = "paranoid = "@ + bool_str(c@.paranoid);
        let l3 = Seq::<char>::empty();
        let l4 = "[pathdefs]"@;
        let t0 = Seq::<Seq<char>>::empty();
        let t1 = seq![l4];
        let t2 = seq![l3, l4];
        let t3 = seq![l2, l3, l4];
        let t4 = seq![l1, l2, l3, l4];
        let t5 = seq![l0, l1, l2, l3, l4];
        assert(unlines(t0) == Seq::<char>::empty());
        assert(t1.skip(1) =~= t0);
        assert(unlines(t1) == l4 + seq!['\n'] + unlines(t0));
        assert(t2.skip(1) =~= t1);
        assert(unlines(t2) == l3 + seq!['\n'] + unlines(t1));
        assert(t3.skip(1) =~= t2);
        assert(unlines(t3) == l2 + seq!['\n'] + unlines(t2));
        assert(t4.skip(1) =~= t3);
        assert(unlines(t4) == l1 + seq!['\n'] + unlines(t3));
        assert(t5.skip(1) =~= t4);
        assert(unlines(t5) == l0 + seq!['\n'] + unlines(t4));
        assert(all.take(5) =~= t5);
        assert(r@ =~= unlines(t5));
    }
    let mut i: usize = 0;
    while i < c.pathdefs.len()
        invariant
            all == config_lines(c@),
            0 <= i <= c.pathdefs.len(),
            c.pathdefs.deep_view().len() == c.pathdefs.len(),
            r@ == unlines(all.take(5 + i as int)),
        decreases c.pathdefs.len() - i,
    {
        let ghost prev = r@;
        r.append(c.pathdefs[i].0.as_str());
        r.append(" = \"");
        r.append(c.pathdefs[i].1.as_str());
        r.append("\"");
        r.append("\n");
        proof {
            let k = c@.pathdefs[i as int].0;
            let v = c@.pathdefs[i as int].1;
            assert(c.pathdefs@[i as int].0@ == k);
            assert(c.pathdefs@[i as int].1@ == v);
            assert(" = \""@ =~= seq![' ', '=', ' ', '"']);
            assert("\""@ =~= seq!['"']);
            assert(r@ =~= prev + (entry_line(k, v) + seq!['\n']));
            assert(all[5 + i as int] == entry_line(k, v));
            assert(all.take(5 + i as int + 1) =~= all.take(5 + i as int) + seq![entry_line(k, v)]);
            lemma_unlines_concat(all.take(5 + i as int), seq![entry_line(k, v)]);
            assert(unlines(Seq::<Seq<char>>::empty()) == Seq::<char>::empty());
            assert(seq![entry_line(k, v)].skip(1) =~= Seq::<Seq<char>>::empty());
            assert(unlines(seq![entry_line(k, v)]) =~= entry_line(k, v) + seq!['\n']);
        }
        i += 1;
    }
    proof {
        assert(all.take(5 + c.pathdefs.len() as int) =~= all);
    }
    r
}

} // verus!
