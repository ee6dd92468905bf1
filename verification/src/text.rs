//! Verified helpers for character-sequence work: equality, flag lookup,
//! line splitting and substring search. The rest of the library states its
//! contracts over `Seq<char>` views, and these helpers bridge the
//! executable strings to those views.

use vstd::prelude::*;

verus! {

/// True when the sequence of options holds the given flag, compared
/// character for character.
pub open spec fn contains_str(opts: Seq<Seq<char>>, flag: Seq<char>) -> bool {
    exists|i: int| 0 <= i < opts.len() && opts[i] == flag
}

/// True when `c` occurs in `s`.
pub open spec fn has_char(s: Seq<char>, c: char) -> bool {
    exists|i: int| 0 <= i < s.len() && s[i] == c
}

/// Splits `s` at the first occurrence of `c`: the part before it and the
/// part after it, or nothing when `c` does not occur.
pub open spec fn split_at_char(s: Seq<char>, c: char) -> Option<(Seq<char>, Seq<char>)>
    decreases s.len(),
{
    if s.len() == 0 {
        None
    } else if s[0] == c {
        Some((Seq::empty(), s.skip(1)))
    } else {
        match split_at_char(s.skip(1), c) {
            None => None,
            Some((pre, post)) => Some((seq![s[0]] + pre, post)),
        }
    }
}

/// The lines of `s`, split at each newline character. A trailing newline
/// yields a final empty line; the empty text is one empty line.
pub open spec fn lines_of(s: Seq<char>) -> Seq<Seq<char>>
    decreases s.len(),
{
    if s.len() == 0 {
        seq![s]
    } else if s[0] == '\n' {
        seq![Seq::<char>::empty()] + lines_of(s.skip(1))
    } else {
        let rest = lines_of(s.skip(1));
        seq![seq![s[0]] + rest[0]] + rest.skip(1)
    }
}

/// Splitting never yields an empty sequence of lines.
pub proof fn lemma_lines_of_len(s: Seq<char>)
    ensures
        lines_of(s).len() >= 1,
    decreases s.len(),
{
    if s.len() == 0 {
    } else if s[0] == '\n' {
    } else {
        lemma_lines_of_len(s.skip(1));
    }
}

/// A text without newlines is a single line.
pub proof fn lemma_lines_of_no_newline(s: Seq<char>)
    requires
        !has_char(s, '\n'),
    ensures
        lines_of(s) == seq![s],
    decreases s.len(),
{
    if s.len() == 0 {
        assert(lines_of(s) =~= seq![s]);
    } else {
        assert(s[0] != '\n');
        assert forall|i: int| 0 <= i < s.skip(1).len() implies s.skip(1)[i] != '\n' by {
            assert(s.skip(1)[i] == s[i + 1]);
        }
        lemma_lines_of_no_newline(s.skip(1));
        assert(lines_of(s.skip(1)) == seq![s.skip(1)]);
        assert(seq![s[0]] + s.skip(1) =~= s);
        assert(lines_of(s) =~= seq![s]);
    }
}

/// Splitting a text that starts with a newline-free line: the line comes
/// first, and the rest splits on its own.
pub proof fn lemma_lines_of_concat(a: Seq<char>, b: Seq<char>)
    requires
        !has_char(a, '\n'),
    ensures
        lines_of(a + seq!['\n'] + b) == seq![a] + lines_of(b),
    decreases a.len(),
{
    let s = a + seq!['\n'] + b;
    if a.len() == 0 {
        assert(a =~= Seq::<char>::empty());
        assert(s[0] == '\n');
        assert(s.skip(1) =~= b);
        assert(lines_of(s) =~= seq![a] + lines_of(b));
    } else {
        assert(s[0] == a[0]);
        assert(s[0] != '\n');
        assert forall|i: int| 0 <= i < a.skip(1).len() implies a.skip(1)[i] != '\n' by {
            assert(a.skip(1)[i] == a[i + 1]);
        }
        lemma_lines_of_concat(a.skip(1), b);
        assert(s.skip(1) =~= a.skip(1) + seq!['\n'] + b);
        let rest = lines_of(s.skip(1));
        assert(rest == seq![a.skip(1)] + lines_of(b));
        lemma_lines_of_len(b);
        assert(rest[0] == a.skip(1));
        assert(seq![s[0]] + rest[0] =~= a);
        assert(rest.skip(1) =~= lines_of(b));
        assert(lines_of(s) =~= seq![a] + lines_of(b));
    }
}

/// When `c` does not occur before position `i` and stands at `i`, the
/// split falls exactly there.
pub proof fn lemma_split_at_char_found(s: Seq<char>, c: char, i: int)
    requires
        0 <= i < s.len(),
        s[i] == c,
        forall|j: int| 0 <= j < i ==> s[j] != c,
    ensures
        split_at_char(s, c) == Some((s.take(i), s.skip(i + 1))),
    decreases i,
{
    if i == 0 {
        assert(s.take(0) =~= Seq::<char>::empty());
        assert(split_at_char(s, c) == Some((s.take(0), s.skip(1))));
    } else {
        assert(s[0] != c);
        let t = s.skip(1);
        assert(t[i - 1] == s[i]);
        assert forall|j: int| 0 <= j < i - 1 implies t[j] != c by {
            assert(t[j] == s[j + 1]);
        }
        lemma_split_at_char_found(t, c, i - 1);
        assert(split_at_char(t, c) == Some((t.take(i - 1), t.skip(i))));
        assert(seq![s[0]] + t.take(i - 1) =~= s.take(i));
        assert(t.skip(i) =~= s.skip(i + 1));
    }
}

/// When `c` does not occur in `s`, there is no split.
pub proof fn lemma_split_at_char_none(s: Seq<char>, c: char)
    requires
        !has_char(s, c),
    ensures
        split_at_char(s, c) is None,
    decreases s.len(),
{
    if s.len() == 0 {
    } else {
        assert(s[0] != c);
        assert forall|i: int| 0 <= i < s.skip(1).len() implies s.skip(1)[i] != c by {
            assert(s.skip(1)[i] == s[i + 1]);
        }
        lemma_split_at_char_none(s.skip(1), c);
    }
}

/// Character-for-character equality of two string slices.
pub fn str_eq(a: &str, b: &str) -> (r: bool)
    ensures
        r == (a@ == b@),
{
    let a_len = a.unicode_len();
    let b_len = b.unicode_len();
    if a_len != b_len {
        assert(a@.len() != b@.len());
        return false;
    }
    let mut i: usize = 0;
    while i < a_len
        invariant
            a_len == a@.len(),
            b_len == b@.len(),
            a_len == b_len,
            0 <= i <= a_len,
            forall|j: int| 0 <= j < i ==> a@[j] == b@[j],
        decreases a_len - i,
    {
        if a.get_char(i) != b.get_char(i) {
            assert(a@[i as int] != b@[i as int]);
            return false;
        }
        i += 1;
    }
    assert(a@ =~= b@);
    true
}

/// The position of the first occurrence of `c` in `s` at or after `from`.
pub fn find_char(s: &str, from: usize, c: char) -> (r: Option<usize>)
    requires
        from <= s@.len(),
    ensures
        match r {
            Some(i) => from <= i < s@.len() && s@[i as int] == c && forall|j: int|
                from <= j < i ==> s@[j] != c,
            None => forall|j: int| from <= j < s@.len() ==> s@[j] != c,
        },
{
    let len = s.unicode_len();
    let mut i: usize = from;
    while i < len
        invariant
            len == s@.len(),
            from <= i <= len,
            forall|j: int| from <= j < i ==> s@[j] != c,
        decreases len - i,
    {
        if s.get_char(i) == c {
            return Some(i);
        }
        i += 1;
    }
    None
}

/// Splits a text into its lines, as `lines_of` describes.
pub fn split_lines(s: &str) -> (r: Vec<String>)
    ensures
        r.deep_view() == lines_of(s@),
{
    let len = s.unicode_len();
    let mut acc: Vec<String> = Vec::new();
    let mut start: usize = 0;
    proof {
        assert(acc.deep_view() =~= Seq::<Seq<char>>::empty());
        assert(s@.skip(0) =~= s@);
        assert(acc.deep_view() + lines_of(s@) =~= lines_of(s@));
    }
    loop
        invariant
            len == s@.len(),
            start <= len,
            acc.deep_view() + lines_of(s@.skip(start as int)) == lines_of(s@),
        decreases len - start,
    {
        let ghost prev = acc.deep_view();
        match find_char(s, start, '\n') {
            Some(i) => {
                let line = s.substring_char(start, i).to_owned();
                proof {
                    let a = s@.subrange(start as int, i as int);
                    let b = s@.skip(i + 1);
                    assert forall|j: int| 0 <= j < a.len() implies a[j] != '\n' by {
                        assert(a[j] == s@[start + j]);
                    }
                    assert(s@.skip(start as int) =~= a + seq!['\n'] + b);
                    lemma_lines_of_concat(a, b);
                    assert(line@ == a);
                }
                acc.push(line);
                proof {
                    assert(acc.deep_view() =~= prev.push(line@));
                    assert(acc.deep_view() + lines_of(s@.skip(i + 1)) =~= prev + lines_of(
                        s@.skip(start as int),
                    ));
                }
                start = i + 1;
            },
            None => {
                let line = s.substring_char(start, len).to_owned();
                proof {
                    let a = s@.skip(start as int);
                    assert forall|j: int| 0 <= j < a.len() implies a[j] != '\n' by {
                        assert(a[j] == s@[start + j]);
                    }
                    lemma_lines_of_no_newline(a);
                    assert(line@ == s@.subrange(start as int, len as int));
                    assert(line@ =~= a);
                }
                acc.push(line);
                proof {
                    assert(acc.deep_view() =~= prev.push(line@));
                    assert(acc.deep_view() =~= prev + lines_of(s@.skip(start as int)));
                }
                return acc;
            },
        }
    }
}

/// Replaces every occurrence of `pat` in `s` by `to`, scanning from the
/// left without overlap, as `str::replace` does.
pub open spec fn replace_str(s: Seq<char>, pat: Seq<char>, to: Seq<char>) -> Seq<char>
    decreases s.len(),
{
    if s.len() == 0 {
        s
    } else if 0 < pat.len() <= s.len() && s.take(pat.len() as int) == pat {
        to + replace_str(s.skip(pat.len() as int), pat, to)
    } else {
        seq![s[0]] + replace_str(s.skip(1), pat, to)
    }
}

/// Whether `pat` occurs in `s` starting at position `i`.
pub fn starts_with_at(s: &str, i: usize, pat: &str) -> (r: bool)
    requires
        i <= s@.len(),
    ensures
        r == (i + pat@.len() <= s@.len() && s@.subrange(
            i as int,
            i + pat@.len(),
        ) == pat@),
{
    let len = s.unicode_len();
    let plen = pat.unicode_len();
    if len - i < plen {
        return false;
    }
    let mut j: usize = 0;
    while j < plen
        invariant
            len == s@.len(),
            plen == pat@.len(),
            i + plen <= len,
            0 <= j <= plen,
            forall|k: int| 0 <= k < j ==> s@[i + k] == pat@[k],
        decreases plen - j,
    {
        if s.get_char(i + j) != pat.get_char(j) {
            assert(s@.subrange(i as int, i + plen)[j as int] != pat@[j as int]);
            return false;
        }
        j += 1;
    }
    assert(s@.subrange(i as int, i + plen) =~= pat@);
    true
}

/// Replaces every occurrence of `pat` in `s` by `to`, as `replace_str`
/// describes.
pub fn replace_all(s: &str, pat: &str, to: &str) -> (r: String)
    requires
        pat@.len() > 0,
    ensures
        r@ == replace_str(s@, pat@, to@),
{
    let len = s.unicode_len();
    let plen = pat.unicode_len();
    let mut r = String::new();
    let mut i: usize = 0;
    proof {
        assert(s@.skip(0) =~= s@);
        assert(r@ + replace_str(s@, pat@, to@) =~= replace_str(s@, pat@, to@));
    }
    while i < len
        invariant
            len == s@.len(),
            plen == pat@.len(),
            plen > 0,
            i <= len,
            r@ + replace_str(s@.skip(i as int), pat@, to@) == replace_str(s@, pat@, to@),
        decreases len - i,
    {
        let ghost rem = s@.skip(i as int);
        if starts_with_at(s, i, pat) {
            r.append(to);
            proof {
                assert(rem.take(plen as int) =~= s@.subrange(i as int, i + plen));
                assert(rem.skip(plen as int) =~= s@.skip(i + plen));
                assert(replace_str(rem, pat@, to@) == to@ + replace_str(
                    s@.skip(i + plen),
                    pat@,
                    to@,
                ));
            }
            i += plen;
        } else {
            let piece = s.substring_char(i, i + 1);
            r.append(piece);
            proof {
                if i + plen <= len {
                    assert(rem.take(plen as int) =~= s@.subrange(i as int, i + plen));
                    assert(rem.take(plen as int) != pat@);
                }
                assert(rem.skip(1) =~= s@.skip(i + 1));
                assert(piece@ =~= seq![rem[0]]);
                assert(replace_str(rem, pat@, to@) == seq![rem[0]] + replace_str(
                    s@.skip(i + 1),
                    pat@,
                    to@,
                ));
            }
            i += 1;
        }
    }
    proof {
        assert(s@.skip(len as int) =~= Seq::<char>::empty());
        assert(replace_str(Seq::<char>::empty(), pat@, to@) == Seq::<char>::empty());
        assert(r@ =~= r@ + Seq::<char>::empty());
    }
    r
}

/// Whether the flag stands among the options.
pub fn contains_flag(options: &Vec<String>, flag: &str) -> (r: bool)
    ensures
        r == contains_str(options.deep_view(), flag@),
{
    let mut i: usize = 0;
    while i < options.len()
        invariant
            0 <= i <= options.len(),
            forall|j: int| 0 <= j < i ==> options.deep_view()[j] != flag@,
        decreases options.len() - i,
    {
        if str_eq(options[i].as_str(), flag) {
            assert(options.deep_view()[i as int] == flag@);
            return true;
        }
        assert(options.deep_view()[i as int] == options@[i as int]@);
        i += 1;
    }
    false
}

/// Whether the token stands in the list.
pub fn contains_token(list: &Vec<&str>, token: &str) -> (r: bool)
    ensures
        r == contains_str(list.deep_view(), token@),
{
    let mut i: usize = 0;
    while i < list.len()
        invariant
            0 <= i <= list.len(),
            forall|j: int| 0 <= j < i ==> list.deep_view()[j] != token@,
        decreases list.len() - i,
    {
        if str_eq(list[i], token) {
            assert(list.deep_view()[i as int] == token@);
            return true;
        }
        assert(list.deep_view()[i as int] == list@[i as int]@);
        i += 1;
    }
    false
}

} // verus!
