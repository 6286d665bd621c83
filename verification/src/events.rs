//! Cleaning tool output before it is shown: terminal escape sequences and
//! control characters other than newline, tab and carriage return are
//! removed.
use vstd::prelude::*;

use crate::text::chars_of;

verus! {

/// An ASCII control character (as `char::is_ascii_control`).
pub open spec fn is_ascii_control(c: char) -> bool {
    (c as u32) < 0x20 || c as u32 == 0x7f
}

/// A control character that is dropped: all but newline, tab and carriage
/// return.
pub open spec fn is_dropped_control(c: char) -> bool {
    is_ascii_control(c) && c != '\n' && c != '\t' && c != '\r'
}

/// The character ends a `ESC [` or `ESC ]` sequence: an ASCII letter or `~`.
pub open spec fn ends_sequence(c: char) -> bool {
    ('a' <= c && c <= 'z') || ('A' <= c && c <= 'Z') || c == '~'
}

/// How many characters of `t` the body of an escape sequence takes: up to
/// and including its final letter or `~`, or all of `t` without one.
pub open spec fn sequence_len(t: Seq<char>) -> int
    decreases t.len(),
{
    if t.len() == 0 {
        0
    } else if ends_sequence(t[0]) {
        1
    } else {
        1 + sequence_len(t.skip(1))
    }
}

/// The body of an escape sequence lies within the text.
pub proof fn lemma_sequence_len(t: Seq<char>)
    ensures
        0 <= sequence_len(t) <= t.len(),
    decreases t.len(),
{
    if t.len() > 0 && !ends_sequence(t[0]) {
        lemma_sequence_len(t.skip(1));
    }
}

/// `s` with escape sequences and dropped control characters removed: `ESC [`
/// and `ESC ]` take their body with them, `ESC` and any other character
/// form a pair that goes, and a final `ESC` ends the text.
pub open spec fn sanitized(s: Seq<char>) -> Seq<char>
    decreases s.len(),
{
    if s.len() == 0 {
        Seq::empty()
    } else if s[0] == '\x1b' {
        if s.len() == 1 {
            Seq::empty()
        } else if s[1] == '[' || s[1] == ']' {
            let rest = s.skip(2);
            proof {
                lemma_sequence_len(rest);
            }
            sanitized(rest.skip(sequence_len(rest)))
        } else {
            sanitized(s.skip(2))
        }
    } else if is_dropped_control(s[0]) {
        sanitized(s.skip(1))
    } else {
        seq![s[0]] + sanitized(s.skip(1))
    }
}

/// No character of `t` is a dropped control character (the escape
/// character among them).
pub open spec fn is_clean(t: Seq<char>) -> bool {
    forall|i: int| 0 <= i < t.len() ==> !is_dropped_control(#[trigger] t[i])
}

/// Clean text is left as it is.
pub proof fn law_clean_text_unchanged(t: Seq<char>)
    requires
        is_clean(t),
    ensures
        sanitized(t) == t,
    decreases t.len(),
{
    if t.len() > 0 {
        assert(!is_dropped_control(t[0]));
        let u = t.skip(1);
        assert forall|i: int| 0 <= i < u.len() implies !is_dropped_control(#[trigger] u[i]) by {
            assert(u[i] == t[i + 1]);
        }
        law_clean_text_unchanged(u);
        assert(seq![t[0]] + u =~= t);
    }
}

/// Cleaned text holds no escape or dropped control character.
pub proof fn law_sanitized_is_clean(s: Seq<char>)
    ensures
        is_clean(sanitized(s)),
    decreases s.len(),
{
    if s.len() == 0 {
    } else if s[0] == '\x1b' {
        if s.len() == 1 {
        } else if s[1] == '[' || s[1] == ']' {
            let rest = s.skip(2);
            lemma_sequence_len(rest);
            law_sanitized_is_clean(rest.skip(sequence_len(rest)));
        } else {
            law_sanitized_is_clean(s.skip(2));
        }
    } else if is_dropped_control(s[0]) {
        law_sanitized_is_clean(s.skip(1));
    } else {
        law_sanitized_is_clean(s.skip(1));
        let r = seq![s[0]] + sanitized(s.skip(1));
        assert forall|i: int| 0 <= i < r.len() implies !is_dropped_control(#[trigger] r[i]) by {
            if i > 0 {
                assert(r[i] == sanitized(s.skip(1))[i - 1]);
            }
        }
    }
}

/// Cleaning is idempotent, and cleaned text holds no escape character and
/// no control character but newline, tab and carriage return.
pub proof fn law_sanitize_idempotent(s: Seq<char>)
    ensures
        is_clean(sanitized(s)),
        sanitized(sanitized(s)) == sanitized(s),
{
    law_sanitized_is_clean(s);
    law_clean_text_unchanged(sanitized(s));
}

/// Length of the body of the escape sequence that starts at index `start`.
fn sequence_len_at(v: &[char], start: usize) -> (r: usize)
    requires
        start <= v@.len(),
    ensures
        r == sequence_len(v@.skip(start as int)),
{
    let mut j: usize = start;
    while j < v.len()
        invariant
            start <= j <= v@.len(),
            sequence_len(v@.skip(start as int)) == (j - start) + sequence_len(v@.skip(j as int)),
        decreases v@.len() - j,
    {
        let c = v[j];
        assert(v@.skip(j as int)[0] == c);
        if ('a' <= c && c <= 'z') || ('A' <= c && c <= 'Z') || c == '~' {
            return j - start + 1;
        }
        assert(v@.skip(j as int).skip(1) =~= v@.skip(j + 1));
        j = j + 1;
    }
    j - start
}

/// Removes terminal escape sequences and control characters other than
/// newline, tab and carriage return.
pub fn sanitize_output(text: &str) -> (r: String)
    ensures
        r@ == sanitized(text@),
{
    let v = chars_of(text);
    let n = v.len();
    let mut out = String::new();
    let mut i: usize = 0;
    assert(v@.skip(0) =~= v@);
    while i < n
        invariant
            n == v@.len(),
            i <= n,
            out@ + sanitized(v@.skip(i as int)) == sanitized(v@),
        decreases n - i,
    {
        let c = v[i];
        let ghost rest = v@.skip(i as int);
        assert(rest[0] == c);
        if c == '\x1b' {
            if i + 1 >= n {
                assert(rest.len() == 1);
                assert(out@ + Seq::<char>::empty() =~= out@);
                assert(v@.skip(n as int).len() == 0);
                assert(sanitized(rest).len() == 0);
                assert(sanitized(v@.skip(n as int)).len() == 0);
                i = n;
            } else {
                let d = v[i + 1];
                assert(rest[1] == d);
                if d == '[' || d == ']' {
                    let k = sequence_len_at(v.as_slice(), i + 2);
                    proof {
                        lemma_sequence_len(v@.skip(i + 2));
                        assert(rest.skip(2) =~= v@.skip(i + 2));
                        assert(v@.skip(i + 2).skip(k as int) =~= v@.skip(i + 2 + k));
                        assert(sanitized(rest) == sanitized(v@.skip(i + 2 + k)));
                    }
                    i = i + 2 + k;
                } else {
                    assert(rest.skip(2) =~= v@.skip(i + 2));
                    assert(sanitized(rest) == sanitized(v@.skip(i + 2)));
                    i = i + 2;
                }
            }
        } else if (c as u32) < 0x20 || (c as u32) == 0x7f {
            if c == '\n' || c == '\t' || c == '\r' {
                let ghost before = out@;
                out.push(c);
                assert(rest.skip(1) =~= v@.skip(i + 1));
                assert(before + (seq![c] + sanitized(rest.skip(1))) =~= out@ + sanitized(v@.skip(i + 1)));
            } else {
                assert(rest.skip(1) =~= v@.skip(i + 1));
                assert(sanitized(rest) == sanitized(v@.skip(i + 1)));
            }
            i = i + 1;
        } else {
            let ghost before = out@;
            out.push(c);
            assert(rest.skip(1) =~= v@.skip(i + 1));
            assert(before + (seq![c] + sanitized(rest.skip(1))) =~= out@ + sanitized(v@.skip(i + 1)));
            i = i + 1;
        }
    }
    assert(out@ + sanitized(v@.skip(i as int)) =~= out@);
    out
}

} // verus!
