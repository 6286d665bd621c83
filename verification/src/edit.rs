//! Editing primitives of the input line: splicing at byte offsets, word
//! motions over characters, and the kill ring.
use vstd::prelude::*;

use crate::text::{
    byte_offset, chars_of, floor_index, floor_index_of, is_boundary, lemma_byte_offset_end,
    lemma_byte_offset_mono, lemma_floor_index, lemma_floor_index_unique, push_chars,
    string_of, utf8_len,
};

verus! {

/// Most entries the kill ring keeps.
pub const MAX_KILL_RING: usize = 30;

/// `s` with `t` inserted at byte offset `b`.
pub open spec fn insert_at(s: Seq<char>, b: int, t: Seq<char>) -> Seq<char> {
    let k = floor_index(s, b);
    s.take(k) + t + s.skip(k)
}

/// `s` without the character that starts at byte offset `b`.
pub open spec fn remove_at(s: Seq<char>, b: int) -> Seq<char> {
    s.remove(floor_index(s, b))
}

/// The smaller of two integers.
pub open spec fn min_int(a: int, b: int) -> int {
    if a <= b {
        a
    } else {
        b
    }
}

/// At a boundary, `floor_index` names the character that starts there.
pub proof fn lemma_boundary_index(s: Seq<char>, b: int)
    requires
        is_boundary(s, b),
    ensures
        0 <= floor_index(s, b) <= s.len(),
        byte_offset(s, floor_index(s, b)) == b,
        b < utf8_len(s) ==> floor_index(s, b) < s.len(),
        b <= utf8_len(s),
{
    let k = choose|k: int| 0 <= k <= s.len() && #[trigger] byte_offset(s, k) == b;
    if k < s.len() {
        crate::text::lemma_byte_offset_strict(s, k, k + 1);
    }
    lemma_floor_index_unique(s, b, k);
    lemma_byte_offset_end(s);
    lemma_byte_offset_mono(s, k, s.len() as int);
}

/// After inserting `t` at a boundary, the end of the insertion is a boundary
/// and the length grows by the length of `t`.
pub proof fn lemma_insert_at(s: Seq<char>, b: int, t: Seq<char>)
    requires
        is_boundary(s, b),
    ensures
        utf8_len(insert_at(s, b, t)) == utf8_len(s) + utf8_len(t),
        is_boundary(insert_at(s, b, t), b + utf8_len(t)),
{
    lemma_boundary_index(s, b);
    let k = floor_index(s, b);
    let r = insert_at(s, b, t);
    crate::text::lemma_utf8_len_concat(s.take(k), t);
    crate::text::lemma_utf8_len_concat(s.take(k) + t, s.skip(k));
    crate::text::lemma_utf8_len_concat(s.take(k), s.skip(k));
    assert(s.take(k) + s.skip(k) =~= s);
    assert(r.take(k + t.len()) =~= s.take(k) + t);
    assert(byte_offset(r, k + t.len()) == b + utf8_len(t));
}

/// Inserts `t` into `buf` at byte offset `b`, which must be a boundary.
pub fn string_insert(buf: &String, b: usize, t: &[char]) -> (r: String)
    requires
        is_boundary(buf@, b as int),
    ensures
        r@ == insert_at(buf@, b as int, t@),
{
    let v = chars_of(buf.as_str());
    let (k, _off) = floor_index_of(v.as_slice(), b);
    proof {
        lemma_boundary_index(buf@, b as int);
    }
    let mut out = String::new();
    push_chars(&mut out, slice_take(v.as_slice(), k).as_slice());
    push_chars(&mut out, t);
    push_chars(&mut out, slice_skip(v.as_slice(), k).as_slice());
    out
}

/// Removes the character of `buf` that starts at byte offset `b`.
pub fn string_remove(buf: &String, b: usize) -> (r: String)
    requires
        is_boundary(buf@, b as int),
        b < utf8_len(buf@),
    ensures
        r@ == remove_at(buf@, b as int),
{
    let v = chars_of(buf.as_str());
    let (k, _off) = floor_index_of(v.as_slice(), b);
    proof {
        lemma_boundary_index(buf@, b as int);
    }
    assert(k < v.len());
    let mut out = String::new();
    push_chars(&mut out, slice_take(v.as_slice(), k).as_slice());
    push_chars(&mut out, slice_skip(v.as_slice(), k + 1).as_slice());
    assert(v@.take(k as int) + v@.skip(k + 1) =~= v@.remove(k as int));
    out
}

/// The first `k` characters of `v` (all of them when `k` is past the end).
pub fn slice_take(v: &[char], k: usize) -> (r: Vec<char>)
    ensures
        r@ == v@.take(min_int(k as int, v@.len() as int)),
{
    let n = if k < v.len() {
        k
    } else {
        v.len()
    };
    let mut r: Vec<char> = Vec::new();
    let mut i: usize = 0;
    while i < n
        invariant
            n <= v@.len(),
            n == min_int(k as int, v@.len() as int),
            i <= n,
            r@ == v@.take(i as int),
        decreases n - i,
    {
        r.push(v[i]);
        assert(v@.take(i + 1) =~= v@.take(i as int).push(v@[i as int]));
        i = i + 1;
    }
    r
}

/// The characters of `v` after the first `k` (none when `k` is past the end).
pub fn slice_skip(v: &[char], k: usize) -> (r: Vec<char>)
    ensures
        r@ == v@.skip(min_int(k as int, v@.len() as int)),
{
    let n = if k < v.len() {
        k
    } else {
        v.len()
    };
    let mut r: Vec<char> = Vec::new();
    let mut i: usize = n;
    while i < v.len()
        invariant
            n <= i <= v@.len(),
            n == min_int(k as int, v@.len() as int),
            r@ == v@.subrange(n as int, i as int),
        decreases v@.len() - i,
    {
        r.push(v[i]);
        assert(v@.subrange(n as int, i + 1) =~= v@.subrange(n as int, i as int).push(
            v@[i as int],
        ));
        i = i + 1;
    }
    assert(v@.subrange(n as int, v@.len() as int) =~= v@.skip(n as int));
    r
}

/// Characters `lo .. hi` of `v`.
pub fn slice_range(v: &[char], lo: usize, hi: usize) -> (r: Vec<char>)
    requires
        lo <= hi <= v@.len(),
    ensures
        r@ == v@.subrange(lo as int, hi as int),
{
    let mut r: Vec<char> = Vec::new();
    let mut i: usize = lo;
    while i < hi
        invariant
            lo <= i <= hi <= v@.len(),
            r@ == v@.subrange(lo as int, i as int),
        decreases hi - i,
    {
        r.push(v[i]);
        assert(v@.subrange(lo as int, i + 1) =~= v@.subrange(lo as int, i as int).push(
            v@[i as int],
        ));
        i = i + 1;
    }
    r
}

/// Index reached from `p` by stepping back over spaces.
pub open spec fn back_spaces(s: Seq<char>, p: int) -> int
    decreases p,
{
    if p > 0 && p <= s.len() && s[p - 1] == ' ' {
        back_spaces(s, p - 1)
    } else {
        p
    }
}

/// Index reached from `p` by stepping back over non-spaces.
pub open spec fn back_word(s: Seq<char>, p: int) -> int
    decreases p,
{
    if p > 0 && p <= s.len() && s[p - 1] != ' ' {
        back_word(s, p - 1)
    } else {
        p
    }
}

/// Index reached from `p` by stepping forward over spaces.
pub open spec fn fwd_spaces(s: Seq<char>, p: int) -> int
    decreases s.len() - p,
{
    if 0 <= p < s.len() && s[p] == ' ' {
        fwd_spaces(s, p + 1)
    } else {
        p
    }
}

/// Index reached from `p` by stepping forward over non-spaces.
pub open spec fn fwd_word(s: Seq<char>, p: int) -> int
    decreases s.len() - p,
{
    if 0 <= p < s.len() && s[p] != ' ' {
        fwd_word(s, p + 1)
    } else {
        p
    }
}

/// Start of the word before character position `cur` (clamped to the text):
/// spaces, then non-spaces, are stepped over backwards.
pub open spec fn prev_word_start_spec(s: Seq<char>, cur: int) -> int {
    if cur == 0 || s.len() == 0 {
        0
    } else {
        back_word(s, back_spaces(s, min_int(cur, s.len() as int)))
    }
}

/// End of the word after character position `cur`: spaces, then non-spaces,
/// are stepped over forwards.
pub open spec fn next_word_end_spec(s: Seq<char>, cur: int) -> int {
    if cur >= s.len() {
        s.len() as int
    } else {
        fwd_word(s, fwd_spaces(s, cur))
    }
}

pub proof fn lemma_back(s: Seq<char>, p: int)
    requires
        0 <= p <= s.len(),
    ensures
        0 <= back_spaces(s, p) <= p,
        0 <= back_word(s, p) <= p,
    decreases p,
{
    if p > 0 {
        lemma_back(s, p - 1);
    }
}

pub proof fn lemma_fwd(s: Seq<char>, p: int)
    requires
        0 <= p <= s.len(),
    ensures
        p <= fwd_spaces(s, p) <= s.len(),
        p <= fwd_word(s, p) <= s.len(),
    decreases s.len() - p,
{
    if p < s.len() {
        lemma_fwd(s, p + 1);
    }
}

/// Start of the word before character position `cur`.
pub fn prev_word_start_of(v: &[char], cur: usize) -> (r: usize)
    ensures
        r == prev_word_start_spec(v@, cur as int),
        r <= v@.len(),
        r <= cur,
{
    let len = v.len();
    if cur == 0 || len == 0 {
        return 0;
    }
    let mut pos = if cur < len {
        cur
    } else {
        len
    };
    let ghost start = pos;
    while pos > 0 && v[pos - 1] == ' '
        invariant
            pos <= start <= v@.len(),
            back_spaces(v@, start as int) == back_spaces(v@, pos as int),
        decreases pos,
    {
        pos = pos - 1;
    }
    let ghost mid = pos;
    while pos > 0 && v[pos - 1] != ' '
        invariant
            pos <= mid <= v@.len(),
            mid == back_spaces(v@, start as int),
            back_word(v@, mid as int) == back_word(v@, pos as int),
        decreases pos,
    {
        pos = pos - 1;
    }
    pos
}

/// End of the word after character position `cur`.
pub fn next_word_end_of(v: &[char], cur: usize) -> (r: usize)
    ensures
        r == next_word_end_spec(v@, cur as int),
        r <= v@.len(),
        cur < v@.len() ==> cur <= r,
{
    let len = v.len();
    if cur >= len {
        return len;
    }
    let mut pos = cur;
    while pos < len && v[pos] == ' '
        invariant
            cur <= pos <= len,
            len == v@.len(),
            fwd_spaces(v@, cur as int) == fwd_spaces(v@, pos as int),
        decreases len - pos,
    {
        pos = pos + 1;
    }
    let ghost mid = pos;
    while pos < len && v[pos] != ' '
        invariant
            mid <= pos <= len,
            len == v@.len(),
            mid == fwd_spaces(v@, cur as int),
            fwd_word(v@, mid as int) == fwd_word(v@, pos as int),
        decreases len - pos,
    {
        pos = pos + 1;
    }
    pos
}

/// The kill ring after killing `t`: an empty text, or a repeat of the most
/// recent entry, changes nothing; otherwise `t` becomes the most recent entry
/// and the oldest falls off past `MAX_KILL_RING`.
pub open spec fn push_kill_spec(ring: Seq<Seq<char>>, t: Seq<char>) -> Seq<Seq<char>> {
    if t.len() == 0 || (ring.len() > 0 && ring[0] == t) {
        ring
    } else {
        let r = seq![t] + ring;
        if r.len() > MAX_KILL_RING {
            r.drop_last()
        } else {
            r
        }
    }
}

/// The first `n` characters of `s` (all of them when `n` is past the end).
pub open spec fn take_chars(s: Seq<char>, n: int) -> Seq<char> {
    s.take(min_int(n, s.len() as int))
}

/// The characters of `s` after the first `n` (none when `n` is past the end).
pub open spec fn skip_chars(s: Seq<char>, n: int) -> Seq<char> {
    s.skip(min_int(n, s.len() as int))
}

/// Index of the last occurrence of `ch` in `s`, or -1.
pub open spec fn last_index(s: Seq<char>, ch: char) -> int
    decreases s.len(),
{
    if s.len() == 0 {
        -1
    } else if s.last() == ch {
        s.len() - 1
    } else {
        last_index(s.drop_last(), ch)
    }
}

/// Index of the first occurrence of `ch` in `s`, or -1.
pub open spec fn first_index(s: Seq<char>, ch: char) -> int
    decreases s.len(),
{
    if s.len() == 0 {
        -1
    } else if s[0] == ch {
        0
    } else {
        let k = first_index(s.drop_first(), ch);
        if k < 0 {
            -1
        } else {
            k + 1
        }
    }
}

/// `last_index` lies within the text and names an occurrence.
pub proof fn lemma_last_index(s: Seq<char>, ch: char)
    ensures
        -1 <= last_index(s, ch) < s.len(),
        last_index(s, ch) >= 0 ==> s[last_index(s, ch)] == ch,
        last_index(s, ch) < 0 ==> forall|j: int| 0 <= j < s.len() ==> s[j] != ch,
    decreases s.len(),
{
    if s.len() > 0 && s.last() != ch {
        lemma_last_index(s.drop_last(), ch);
        if last_index(s, ch) < 0 {
            assert forall|j: int| 0 <= j < s.len() implies s[j] != ch by {
                if j < s.len() - 1 {
                    assert(s.drop_last()[j] == s[j]);
                }
            }
        }
    }
}

/// `first_index` lies within the text and names an occurrence.
pub proof fn lemma_first_index(s: Seq<char>, ch: char)
    ensures
        -1 <= first_index(s, ch) < s.len(),
        first_index(s, ch) >= 0 ==> s[first_index(s, ch)] == ch,
    decreases s.len(),
{
    if s.len() > 0 && s[0] != ch {
        lemma_first_index(s.drop_first(), ch);
    }
}

/// Finds the index of the last occurrence of `ch` in `v`.
pub fn last_index_of(v: &[char], ch: char) -> (r: Option<usize>)
    ensures
        match r {
            Some(k) => k == last_index(v@, ch),
            None => last_index(v@, ch) < 0,
        },
{
    let mut i: usize = v.len();
    assert(v@.take(v@.len() as int) =~= v@);
    while i > 0
        invariant
            i <= v@.len(),
            last_index(v@, ch) == last_index(v@.take(i as int), ch),
        decreases i,
    {
        assert(v@.take(i as int).last() == v@[i - 1]);
        if v[i - 1] == ch {
            return Some(i - 1);
        }
        assert(v@.take(i as int).drop_last() =~= v@.take(i - 1));
        i = i - 1;
    }
    None
}

/// Finds the index of the first occurrence of `ch` in `v`.
pub fn first_index_of(v: &[char], ch: char) -> (r: Option<usize>)
    ensures
        match r {
            Some(k) => k == first_index(v@, ch),
            None => first_index(v@, ch) < 0,
        },
{
    let mut i: usize = 0;
    assert(v@.skip(0) =~= v@);
    while i < v.len()
        invariant
            i <= v@.len(),
            first_index(v@, ch) == (if first_index(v@.skip(i as int), ch) < 0 {
                -1
            } else {
                first_index(v@.skip(i as int), ch) + i
            }),
        decreases v@.len() - i,
    {
        assert(v@.skip(i as int)[0] == v@[i as int]);
        if v[i] == ch {
            return Some(i);
        }
        assert(v@.skip(i as int).drop_first() =~= v@.skip(i + 1));
        i = i + 1;
    }
    None
}

/// `take_chars(v, a) + mid + skip_chars(v, b)` as a `String`.
pub fn splice_chars(v: &[char], a: usize, mid: &[char], b: usize) -> (r: String)
    ensures
        r@ == take_chars(v@, a as int) + mid@ + skip_chars(v@, b as int),
{
    let mut out = String::new();
    crate::text::push_chars(&mut out, slice_take(v, a).as_slice());
    crate::text::push_chars(&mut out, mid);
    crate::text::push_chars(&mut out, slice_skip(v, b).as_slice());
    out
}

/// Whether two runs of characters are equal.
pub fn chars_eq(a: &[char], b: &[char]) -> (r: bool)
    ensures
        r == (a@ == b@),
{
    if a.len() != b.len() {
        return false;
    }
    let mut i: usize = 0;
    while i < a.len()
        invariant
            i <= a@.len(),
            a@.len() == b@.len(),
            forall|j: int| 0 <= j < i ==> a@[j] == b@[j],
        decreases a@.len() - i,
    {
        if a[i] != b[i] {
            return false;
        }
        i = i + 1;
    }
    assert(a@ =~= b@);
    true
}

/// After inserting one character at a boundary, the boundary before the end
/// of the insertion is where it started, and removing the character there
/// gives back the text.
pub proof fn lemma_insert_char_then_remove(s: Seq<char>, b: int, ch: char)
    requires
        is_boundary(s, b),
    ensures
        crate::cursor::prev_boundary(insert_at(s, b, seq![ch]), b + crate::text::utf8_width(ch))
            == b,
        remove_at(insert_at(s, b, seq![ch]), b) == s,
{
    lemma_boundary_index(s, b);
    let k = floor_index(s, b);
    let s1 = insert_at(s, b, seq![ch]);
    let w = crate::text::utf8_width(ch);
    assert(s1.take(k) =~= s.take(k));
    assert(s1.take(k + 1).drop_last() =~= s.take(k));
    assert(s1.take(k + 1).last() == ch);
    assert(byte_offset(s1, k) == b);
    assert(byte_offset(s1, k + 1) == b + w);
    crate::text::lemma_floor_index_unique(s1, b + w - 1, k);
    crate::text::lemma_floor_index_unique(s1, b, k);
    assert(s1.remove(k) =~= s);
}

/// Inserting the first `k` characters of a text before the rest gives back
/// the text.
pub proof fn lemma_insert_prefix_at_start(s: Seq<char>, k: int)
    requires
        0 <= k <= s.len(),
    ensures
        insert_at(s.skip(k), 0, s.take(k)) == s,
{
    let t = s.skip(k);
    assert(t.take(0) =~= Seq::<char>::empty());
    assert(byte_offset(t, 0) == 0);
    if t.len() > 0 {
        crate::text::lemma_byte_offset_strict(t, 0, 1);
    }
    crate::text::lemma_floor_index_unique(t, 0, 0);
    assert(Seq::<char>::empty() + s.take(k) + t =~= s);
}

/// Appending at the end of a text whose characters take one byte each.
pub proof fn lemma_insert_at_single_byte_end(s: Seq<char>, c: int, t: Seq<char>)
    requires
        0 <= c <= s.len(),
        byte_offset(s, c) == c,
    ensures
        insert_at(s.take(c), c, t) == s.take(c) + t,
{
    let u = s.take(c);
    assert(u.take(c) =~= u);
    crate::text::lemma_byte_offset_end(u);
    assert(s.take(c) =~= u);
    crate::text::lemma_floor_index_unique(u, c, c);
    assert(u.take(c) + t + u.skip(c) =~= u + t);
}

} // verus!
