//! The confirmation step: the one interactive moment. It either confirms
//! outright when the skip flag is given, or compares one line of input
//! against the expected token — trimmed on both ends, and
//! case-insensitively when the token is a single letter.

use vstd::prelude::*;

use crate::text::contains_flag;
use crate::text::contains_str;
use crate::text::str_eq;

verus! {

/// Where the confirmation step ends up.
#[derive(Clone, Copy, Debug, PartialEq, Eq, Structural)]
pub enum GateOutcome {
    /// Fall through to the action.
    Confirmed,
    /// Print the `cancelled` message and end with status zero:
    /// cancellation is a normal outcome, not an error.
    Aborted,
}

/// ASCII whitespace, as the confirmation step trims it.
pub open spec fn is_space(c: char) -> bool {
    c == ' ' || c == '\t' || c == '\r' || c == '\n'
}

/// The text without its leading whitespace.
pub open spec fn trim_front(s: Seq<char>) -> Seq<char>
    decreases s.len(),
{
    if s.len() > 0 && is_space(s[0]) {
        trim_front(s.skip(1))
    } else {
        s
    }
}

/// The text without its trailing whitespace.
pub open spec fn trim_back(s: Seq<char>) -> Seq<char>
    decreases s.len(),
{
    if s.len() > 0 && is_space(s[s.len() - 1]) {
        trim_back(s.take(s.len() - 1))
    } else {
        s
    }
}

/// The text without whitespace on either end.
pub open spec fn trim_spec(s: Seq<char>) -> Seq<char> {
    trim_back(trim_front(s))
}

/// The character's code with an uppercase ASCII letter lowered.
pub open spec fn lower_code(c: char) -> u32 {
    if 65 <= c as u32 && c as u32 <= 90 {
        (c as u32 + 32) as u32
    } else {
        c as u32
    }
}

/// Equality after lowering both sides.
pub open spec fn fold_eq(a: Seq<char>, b: Seq<char>) -> bool {
    a.len() == b.len() && forall|i: int|
        0 <= i < a.len() ==> lower_code(#[trigger] a[i]) == lower_code(b[i])
}

/// The comparison itself: trim the input; a one-letter token compares
/// case-insensitively, a longer phrase character for character.
pub open spec fn confirm_spec(expected: Seq<char>, input: Seq<char>) -> GateOutcome {
    let t = trim_spec(input);
    if expected.len() == 1 {
        if fold_eq(t, expected) {
            GateOutcome::Confirmed
        } else {
            GateOutcome::Aborted
        }
    } else {
        if t == expected {
            GateOutcome::Confirmed
        } else {
            GateOutcome::Aborted
        }
    }
}

/// The whole confirmation step: with the skip flag it confirms without reading any
/// input; otherwise the comparison above decides.
pub open spec fn gate_spec(options: Seq<Seq<char>>, expected: Seq<char>, input: Seq<char>) -> GateOutcome {
    if contains_str(options, "--no-confirm"@) {
        GateOutcome::Confirmed
    } else {
        confirm_spec(expected, input)
    }
}

/// When the first `a` characters are whitespace and the next is not,
/// trimming the front drops exactly those `a`.
proof fn lemma_trim_front_at(s: Seq<char>, a: int)
    requires
        0 <= a <= s.len(),
        forall|j: int| 0 <= j < a ==> is_space(#[trigger] s[j]),
        a < s.len() ==> !is_space(s[a]),
    ensures
        trim_front(s) == s.skip(a),
    decreases a,
{
    if a == 0 {
        assert(s.skip(0) =~= s);
    } else {
        assert(is_space(s[0]));
        assert forall|j: int| 0 <= j < a - 1 implies is_space(#[trigger] s.skip(1)[j]) by {
            assert(s.skip(1)[j] == s[j + 1]);
        }
        assert(a - 1 < s.skip(1).len() ==> !is_space(s.skip(1)[a - 1]));
        lemma_trim_front_at(s.skip(1), a - 1);
        assert(s.skip(1).skip(a - 1) =~= s.skip(a));
    }
}

/// When everything from position `b` on is whitespace and the character
/// before it is not, trimming the back keeps exactly the first `b`.
proof fn lemma_trim_back_at(s: Seq<char>, b: int)
    requires
        0 <= b <= s.len(),
        forall|j: int| b <= j < s.len() ==> is_space(#[trigger] s[j]),
        b > 0 ==> !is_space(s[b - 1]),
    ensures
        trim_back(s) == s.take(b),
    decreases s.len(),
{
    if b == s.len() {
        assert(s.take(b) =~= s);
    } else {
        assert(is_space(s[s.len() - 1]));
        let t = s.take(s.len() - 1);
        assert forall|j: int| b <= j < t.len() implies is_space(#[trigger] t[j]) by {
            assert(t[j] == s[j]);
        }
        assert(b > 0 ==> t[b - 1] == s[b - 1]);
        lemma_trim_back_at(t, b);
        assert(t.take(b) =~= s.take(b));
    }
}

/// Whether the confirmation step trims this character.
fn is_space_exec(c: char) -> (r: bool)
    ensures
        r == is_space(c),
{
    c == ' ' || c == '\t' || c == '\r' || c == '\n'
}

/// The character's code with an uppercase ASCII letter lowered.
fn lower_exec(c: char) -> (r: u32)
    ensures
        r == lower_code(c),
{
    let n = c as u32;
    if 65 <= n && n <= 90 {
        n + 32
    } else {
        n
    }
}

/// The input without whitespace on either end.
fn trim_str<'a>(s: &'a str) -> (t: &'a str)
    ensures
        t@ == trim_spec(s@),
{
    let len = s.unicode_len();
    let mut a: usize = 0;
    while a < len && is_space_exec(s.get_char(a))
        invariant
            len == s@.len(),
            0 <= a <= len,
            forall|j: int| 0 <= j < a ==> is_space(#[trigger] s@[j]),
        decreases len - a,
    {
        a += 1;
    }
    let mut b: usize = len;
    while b > a && is_space_exec(s.get_char(b - 1))
        invariant
            len == s@.len(),
            a <= b <= len,
            forall|j: int| b <= j < len ==> is_space(#[trigger] s@[j]),
        decreases b,
    {
        b -= 1;
    }
    let t = s.substring_char(a, b);
    proof {
        lemma_trim_front_at(s@, a as int);
        let m = s@.skip(a as int);
        assert forall|j: int| b - a <= j < m.len() implies is_space(#[trigger] m[j]) by {
            assert(m[j] == s@[a + j]);
        }
        assert(b - a > 0 ==> m[b - a - 1] == s@[b - 1]);
        lemma_trim_back_at(m, b - a);
        assert(t@ =~= m.take(b - a));
    }
    t
}

/// Compares one line of input against the expected token, as
/// `confirm_spec` describes.
pub fn resolve_confirmation(expected: &str, input: &str) -> (r: GateOutcome)
    ensures
        r == confirm_spec(expected@, input@),
{
    let t = trim_str(input);
    let elen = expected.unicode_len();
    if elen == 1 {
        let tlen = t.unicode_len();
        if tlen != 1 {
            return GateOutcome::Aborted;
        }
        if lower_exec(t.get_char(0)) == lower_exec(expected.get_char(0)) {
            proof {
                assert forall|i: int| 0 <= i < t@.len() implies lower_code(#[trigger] t@[i])
                    == lower_code(expected@[i]) by {
                    assert(i == 0);
                }
            }
            GateOutcome::Confirmed
        } else {
            GateOutcome::Aborted
        }
    } else {
        if str_eq(t, expected) {
            GateOutcome::Confirmed
        } else {
            GateOutcome::Aborted
        }
    }
}

/// Whether the confirmation step is skipped outright.
pub fn skips_confirmation(options: &Vec<String>) -> (r: bool)
    ensures
        r == contains_str(options.deep_view(), "--no-confirm"@),
{
    contains_flag(options, "--no-confirm")
}

/// The whole confirmation decision, as `gate_spec` describes. When the skip
/// flag is among the options the input plays no part.
pub fn confirmation_gate(options: &Vec<String>, expected: &str, input: &str) -> (r: GateOutcome)
    ensures
        r == gate_spec(options.deep_view(), expected@, input@),
{
    if skips_confirmation(options) {
        GateOutcome::Confirmed
    } else {
        resolve_confirmation(expected, input)
    }
}

} // verus!
