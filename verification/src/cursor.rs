//! Byte-offset cursor arithmetic over multi-line text.
//!
//! A cursor is a byte offset into UTF-8 text. Lines are separated by `'\n'`
//! and columns are counted in characters.
use vstd::prelude::*;

use crate::text::{
    byte_len, byte_offset, char_utf8_len, chars_of, floor_index, floor_index_of, is_boundary,
    lemma_byte_offset_end, lemma_byte_offset_mono, lemma_byte_offset_step,
    lemma_byte_offset_strict, lemma_floor_index, lemma_floor_index_unique, utf8_len,
};

verus! {

/// The (line, column) reached after reading all of `s`.
pub open spec fn line_col(s: Seq<char>) -> (nat, nat)
    decreases s.len(),
{
    if s.len() == 0 {
        (0, 0)
    } else {
        let p = line_col(s.drop_last());
        if s.last() == '\n' {
            (p.0 + 1, 0)
        } else {
            (p.0, p.1 + 1)
        }
    }
}

/// Number of characters of `s` that start before byte `b`.
pub open spec fn chars_before(s: Seq<char>, b: int) -> int {
    if b <= 0 {
        0
    } else if floor_index(s, b - 1) + 1 <= s.len() {
        floor_index(s, b - 1) + 1
    } else {
        s.len() as int
    }
}

/// The character at index `j` is where `line_col_to_cursor` stops when it
/// looks for line `tl`, column `tc`.
pub open spec fn lc_stop(s: Seq<char>, tl: int, tc: int, j: int) -> bool {
    let p = line_col(s.take(j));
    (p.0 == tl && p.1 == tc) || (s[j] == '\n' && p.0 == tl)
}

/// First index from `j` on where the search for (`tl`, `tc`) stops, or the
/// length when it never does.
pub open spec fn lc_from(s: Seq<char>, tl: int, tc: int, j: int) -> int
    decreases s.len() - j,
{
    if j < 0 || j >= s.len() {
        s.len() as int
    } else if lc_stop(s, tl, tc, j) {
        j
    } else {
        lc_from(s, tl, tc, j + 1)
    }
}

/// Character index that `line_col_to_cursor` lands on.
pub open spec fn lc_index(s: Seq<char>, tl: int, tc: int) -> int {
    lc_from(s, tl, tc, 0)
}

/// First index at or after `k` holding a newline, or the length.
pub open spec fn next_nl(s: Seq<char>, k: int) -> int
    decreases s.len() - k,
{
    if k < 0 || k >= s.len() {
        s.len() as int
    } else if s[k] == '\n' {
        k
    } else {
        next_nl(s, k + 1)
    }
}

/// Byte offset of the largest character boundary strictly before `idx`
/// (0 when `idx` is 0).
pub open spec fn prev_boundary(s: Seq<char>, idx: int) -> int {
    if idx <= 0 {
        0
    } else {
        byte_offset(s, floor_index(s, idx - 1)) as int
    }
}

/// Byte offset of the smallest character boundary at or after
/// `min(idx + 1, len)`.
pub open spec fn next_boundary(s: Seq<char>, idx: int) -> int {
    let t = if idx < utf8_len(s) {
        idx + 1
    } else {
        utf8_len(s) as int
    };
    let k = floor_index(s, t);
    if byte_offset(s, k) == t {
        t
    } else {
        byte_offset(s, k + 1) as int
    }
}

/// Byte offset of the start of the line holding `cursor`.
pub open spec fn line_start_spec(s: Seq<char>, cursor: int) -> int {
    let p = line_col(s.take(chars_before(s, cursor)));
    byte_offset(s, lc_index(s, p.0 as int, 0)) as int
}

/// Byte offset of the end of the line holding `cursor` (its newline, or the
/// end of the text).
pub open spec fn line_end_spec(s: Seq<char>, cursor: int) -> int {
    let p = line_col(s.take(chars_before(s, cursor)));
    byte_offset(s, next_nl(s, lc_index(s, p.0 as int, 0))) as int
}

pub proof fn lemma_line_col_bound(s: Seq<char>)
    ensures
        line_col(s).0 + line_col(s).1 <= s.len(),
    decreases s.len(),
{
    if s.len() > 0 {
        lemma_line_col_bound(s.drop_last());
    }
}

/// Reading further never lowers the line; staying on the same line advances
/// the column by the number of characters read.
pub proof fn lemma_line_col_mono(s: Seq<char>, j: int, k: int)
    requires
        0 <= j <= k <= s.len(),
    ensures
        line_col(s.take(j)).0 <= line_col(s.take(k)).0,
        line_col(s.take(j)).0 == line_col(s.take(k)).0 ==> line_col(s.take(k)).1 == line_col(
            s.take(j),
        ).1 + (k - j),
        (j < k && s[j] == '\n') ==> line_col(s.take(j)).0 < line_col(s.take(k)).0,
    decreases k - j,
{
    if j < k {
        lemma_line_col_mono(s, j, k - 1);
        assert(s.take(k).drop_last() =~= s.take(k - 1));
        if j == k - 1 {
            assert(s.take(k).last() == s[j]);
        }
    }
}

pub proof fn lemma_lc_from(s: Seq<char>, tl: int, tc: int, j: int)
    requires
        0 <= j <= s.len(),
    ensures
        j <= lc_from(s, tl, tc, j) <= s.len(),
        lc_from(s, tl, tc, j) < s.len() ==> lc_stop(s, tl, tc, lc_from(s, tl, tc, j)),
        forall|i: int| j <= i < lc_from(s, tl, tc, j) ==> !#[trigger] lc_stop(s, tl, tc, i),
    decreases s.len() - j,
{
    if j < s.len() && !lc_stop(s, tl, tc, j) {
        lemma_lc_from(s, tl, tc, j + 1);
    }
}

/// `lc_index` is the first stopping index (or the length).
pub proof fn lemma_lc_index(s: Seq<char>, tl: int, tc: int)
    ensures
        0 <= lc_index(s, tl, tc) <= s.len(),
        lc_index(s, tl, tc) < s.len() ==> lc_stop(s, tl, tc, lc_index(s, tl, tc)),
        forall|i: int| 0 <= i < lc_index(s, tl, tc) ==> !#[trigger] lc_stop(s, tl, tc, i),
{
    lemma_lc_from(s, tl, tc, 0);
}

pub proof fn lemma_next_nl(s: Seq<char>, k: int)
    requires
        0 <= k <= s.len(),
    ensures
        k <= next_nl(s, k) <= s.len(),
        next_nl(s, k) < s.len() ==> s[next_nl(s, k)] == '\n',
        forall|i: int| k <= i < next_nl(s, k) ==> s[i] != '\n',
    decreases s.len() - k,
{
    if k < s.len() && s[k] != '\n' {
        lemma_next_nl(s, k + 1);
    }
}

/// At a character boundary, `chars_before` is the index of that boundary.
pub proof fn lemma_chars_before_boundary(s: Seq<char>, k: int)
    requires
        0 <= k <= s.len(),
    ensures
        chars_before(s, byte_offset(s, k) as int) == k,
{
    let b = byte_offset(s, k) as int;
    if k == 0 {
        assert(s.take(0) =~= Seq::<char>::empty());
    } else {
        lemma_byte_offset_strict(s, k - 1, k);
        if k < s.len() {
            lemma_byte_offset_strict(s, k - 1, k);
        }
        lemma_floor_index_unique(s, b - 1, k - 1);
    }
}

proof fn lemma_offset_bound(s: Seq<char>, k: int)
    requires
        0 <= k <= s.len(),
    ensures
        byte_offset(s, k) <= utf8_len(s),
{
    lemma_byte_offset_mono(s, k, s.len() as int);
    lemma_byte_offset_end(s);
}

/// Byte offset of character index `k` of `v` (whose byte length fits a `usize`).
pub fn offset_of(v: &[char], k: usize) -> (off: usize)
    requires
        k <= v@.len(),
        utf8_len(v@) <= usize::MAX,
    ensures
        off == byte_offset(v@, k as int),
{
    let mut i: usize = 0;
    let mut off: usize = 0;
    assert(v@.take(0) =~= Seq::<char>::empty());
    while i < k
        invariant
            i <= k <= v@.len(),
            utf8_len(v@) <= usize::MAX,
            off == byte_offset(v@, i as int),
        decreases k - i,
    {
        proof {
            lemma_byte_offset_step(v@, i as int);
            lemma_offset_bound(v@, i + 1);
        }
        off = off + char_utf8_len(v[i]);
        i = i + 1;
    }
    off
}

/// (line, column) after reading the first `m` characters of `v`.
pub fn line_col_upto(v: &[char], m: usize) -> (r: (usize, usize))
    requires
        m <= v@.len(),
    ensures
        r.0 == line_col(v@.take(m as int)).0,
        r.1 == line_col(v@.take(m as int)).1,
{
    let mut line: usize = 0;
    let mut col: usize = 0;
    let mut j: usize = 0;
    assert(v@.take(0) =~= Seq::<char>::empty());
    while j < m
        invariant
            j <= m <= v@.len(),
            line == line_col(v@.take(j as int)).0,
            col == line_col(v@.take(j as int)).1,
        decreases m - j,
    {
        proof {
            lemma_line_col_bound(v@.take(j as int));
            assert(v@.take(j + 1).drop_last() =~= v@.take(j as int));
        }
        if v[j] == '\n' {
            line = line + 1;
            col = 0;
        } else {
            col = col + 1;
        }
        j = j + 1;
    }
    (line, col)
}

/// Number of characters of `v` that start before byte `b`.
pub fn chars_before_of(v: &[char], b: usize) -> (m: usize)
    ensures
        m == chars_before(v@, b as int),
{
    if b == 0 {
        return 0;
    }
    let (k, _off) = floor_index_of(v, b - 1);
    if k < v.len() {
        k + 1
    } else {
        v.len()
    }
}

/// Character index that the search for (`tl`, `tc`) lands on.
pub fn lc_index_of(v: &[char], tl: usize, tc: usize) -> (k: usize)
    ensures
        k == lc_index(v@, tl as int, tc as int),
{
    let mut line: usize = 0;
    let mut col: usize = 0;
    let mut j: usize = 0;
    assert(v@.take(0) =~= Seq::<char>::empty());
    while j < v.len()
        invariant
            j <= v@.len(),
            line == line_col(v@.take(j as int)).0,
            col == line_col(v@.take(j as int)).1,
            lc_from(v@, tl as int, tc as int, 0) == lc_from(v@, tl as int, tc as int, j as int),
        decreases v@.len() - j,
    {
        if line == tl && col == tc {
            return j;
        }
        if v[j] == '\n' {
            if line == tl {
                return j;
            }
        }
        proof {
            lemma_line_col_bound(v@.take(j as int));
            assert(v@.take(j + 1).drop_last() =~= v@.take(j as int));
        }
        if v[j] == '\n' {
            line = line + 1;
            col = 0;
        } else {
            col = col + 1;
        }
        j = j + 1;
    }
    j
}

/// First index at or after `k` holding a newline, or the length.
pub fn next_newline_of(v: &[char], k: usize) -> (r: usize)
    requires
        k <= v@.len(),
    ensures
        r == next_nl(v@, k as int),
{
    let mut i = k;
    while i < v.len() && v[i] != '\n'
        invariant
            k <= i <= v@.len(),
            next_nl(v@, k as int) == next_nl(v@, i as int),
        decreases v@.len() - i,
    {
        i = i + 1;
    }
    i
}

/// Byte offset of the previous character boundary: the largest boundary
/// strictly below `idx`, or 0 when `idx` is 0.
pub fn prev_char_boundary(s: &str, idx: usize) -> (r: usize)
    ensures
        r == prev_boundary(s@, idx as int),
        is_boundary(s@, r as int),
        idx > 0 ==> r < idx,
        forall|b: int| is_boundary(s@, b) && r < b < idx ==> false,
{
    let v = chars_of(s);
    let r = if idx == 0 {
        0
    } else {
        let (_k, off) = floor_index_of(v.as_slice(), idx - 1);
        off
    };
    proof {
        let k = floor_index(s@, idx - 1);
        if idx == 0 {
            assert(s@.take(0) =~= Seq::<char>::empty());
            assert(byte_offset(s@, 0) == 0);
        } else {
            lemma_floor_index(s@, idx - 1);
            assert(byte_offset(s@, k) == r);
        }
        assert forall|b: int| is_boundary(s@, b) && r < b < idx implies false by {
            let j = choose|j: int| 0 <= j <= s@.len() && #[trigger] byte_offset(s@, j) == b;
            if j <= k {
                lemma_byte_offset_mono(s@, j, k);
            } else {
                lemma_byte_offset_mono(s@, k + 1, j);
            }
        }
    }
    r
}

/// Byte offset of the next character boundary: the smallest boundary at or
/// after `min(idx + 1, len)`.
pub fn next_char_boundary(s: &str, idx: usize) -> (r: usize)
    ensures
        r == next_boundary(s@, idx as int),
        is_boundary(s@, r as int),
        r <= utf8_len(s@),
        idx < utf8_len(s@) ==> idx < r,
        forall|b: int|
            is_boundary(s@, b) && (if idx < utf8_len(s@) {
                idx + 1
            } else {
                utf8_len(s@) as int
            }) <= b < r ==> false,
{
    let v = chars_of(s);
    let len = byte_len(s);
    let t = if idx < len {
        idx + 1
    } else {
        len
    };
    let (k, off) = floor_index_of(v.as_slice(), t);
    proof {
        lemma_floor_index(s@, t as int);
        lemma_byte_offset_end(s@);
    }
    let r = if off == t {
        t
    } else {
        proof {
            lemma_byte_offset_step(s@, k as int);
            lemma_offset_bound(s@, k + 1);
        }
        off + char_utf8_len(v[k])
    };
    proof {
        if off == t {
            lemma_offset_bound(s@, k as int);
        } else {
            lemma_offset_bound(s@, k + 1);
            assert(byte_offset(s@, k + 1) == r);
        }
        assert forall|b: int|
            is_boundary(s@, b) && t <= b < r implies false by {
            let j = choose|j: int| 0 <= j <= s@.len() && #[trigger] byte_offset(s@, j) == b;
            if j <= k {
                lemma_byte_offset_mono(s@, j, k as int);
            } else {
                lemma_byte_offset_mono(s@, k + 1, j);
            }
        }
    }
    r
}

/// The line and column (both counted from 0) of byte offset `cursor`:
/// newlines before the cursor, and characters since the last of them.
pub fn cursor_to_line_col(buffer: &str, cursor: usize) -> (r: (usize, usize))
    ensures
        r.0 == line_col(buffer@.take(chars_before(buffer@, cursor as int))).0,
        r.1 == line_col(buffer@.take(chars_before(buffer@, cursor as int))).1,
{
    let v = chars_of(buffer);
    let m = chars_before_of(v.as_slice(), cursor);
    proof {
        if cursor > 0 {
            lemma_floor_index(buffer@, cursor - 1);
        }
    }
    line_col_upto(v.as_slice(), m)
}

/// Byte offset of column `target_col` of line `target_line`; a column past
/// the end of its line gives the line's end, and a line past the last gives
/// the end of the text.
pub fn line_col_to_cursor(buffer: &str, target_line: usize, target_col: usize) -> (r: usize)
    ensures
        r == byte_offset(buffer@, lc_index(buffer@, target_line as int, target_col as int)),
{
    let v = chars_of(buffer);
    let k = lc_index_of(v.as_slice(), target_line, target_col);
    let _len = byte_len(buffer);
    proof {
        lemma_lc_index(buffer@, target_line as int, target_col as int);
    }
    offset_of(v.as_slice(), k)
}

/// Number of lines: newlines plus one.
pub fn count_lines(buffer: &str) -> (n: usize)
    requires
        buffer@.len() < usize::MAX,
    ensures
        n == line_col(buffer@).0 + 1,
{
    let v = chars_of(buffer);
    let (line, _col) = line_col_upto(v.as_slice(), v.len());
    assert(v@.take(v@.len() as int) =~= v@);
    proof {
        lemma_line_col_bound(buffer@);
    }
    line + 1
}

/// Byte offset of the start of the line that holds `cursor`.
pub fn line_start(buffer: &str, cursor: usize) -> (r: usize)
    ensures
        r == line_start_spec(buffer@, cursor as int),
{
    let (line, _col) = cursor_to_line_col(buffer, cursor);
    line_col_to_cursor(buffer, line, 0)
}

/// Byte offset of the end of the line that holds `cursor`: its newline, or
/// the end of the text.
pub fn line_end(buffer: &str, cursor: usize) -> (r: usize)
    ensures
        r == line_end_spec(buffer@, cursor as int),
{
    let v = chars_of(buffer);
    let _len = byte_len(buffer);
    let (line, _col) = cursor_to_line_col(buffer, cursor);
    let k = lc_index_of(v.as_slice(), line, 0);
    proof {
        lemma_lc_index(buffer@, line as int, 0);
    }
    let e = next_newline_of(v.as_slice(), k);
    proof {
        lemma_next_nl(buffer@, k as int);
    }
    offset_of(v.as_slice(), e)
}

/// Going from a cursor on a character boundary to its (line, column) and back
/// gives the same cursor.
pub proof fn lemma_line_col_roundtrip(s: Seq<char>, k: int)
    requires
        0 <= k <= s.len(),
    ensures
        ({
            let c = byte_offset(s, k) as int;
            let p = line_col(s.take(chars_before(s, c)));
            byte_offset(s, lc_index(s, p.0 as int, p.1 as int)) == c
        }),
{
    let c = byte_offset(s, k) as int;
    lemma_chars_before_boundary(s, k);
    let p = line_col(s.take(k));
    let tl = p.0 as int;
    let tc = p.1 as int;
    lemma_lc_index(s, tl, tc);
    let li = lc_index(s, tl, tc);
    if li < k {
        lemma_line_col_mono(s, li, k);
        if li + 1 <= k {
            lemma_line_col_mono(s, li + 1, k);
            assert(s.take(li + 1).drop_last() =~= s.take(li));
            assert(s.take(li + 1).last() == s[li]);
        }
        assert(false);
    }
    if k < li {
        assert(k < s.len());
        assert(lc_stop(s, tl, tc, k));
        assert(false);
    }
}

/// Converting a cursor on a character boundary to (line, column) with
/// `cursor_to_line_col` and back with `line_col_to_cursor` gives the cursor.
pub proof fn law_cursor_line_col_roundtrip(s: Seq<char>, cursor: int)
    requires
        is_boundary(s, cursor),
    ensures
        ({
            let p = line_col(s.take(chars_before(s, cursor)));
            byte_offset(s, lc_index(s, p.0 as int, p.1 as int)) == cursor
        }),
{
    let k = choose|k: int| 0 <= k <= s.len() && #[trigger] byte_offset(s, k) == cursor;
    lemma_line_col_roundtrip(s, k);
}

/// A (line, column) that the text reaches: the cursor that
/// `line_col_to_cursor` finds for it converts back to it with
/// `cursor_to_line_col`.
pub proof fn law_line_col_cursor_roundtrip(s: Seq<char>, l: nat, c: nat)
    requires
        exists|j: int| 0 <= j <= s.len() && #[trigger] line_col(s.take(j)) == (l, c),
    ensures
        line_col(s.take(chars_before(s, byte_offset(s, lc_index(s, l as int, c as int)) as int)))
            == (l, c),
{
    let j = choose|j: int| 0 <= j <= s.len() && #[trigger] line_col(s.take(j)) == (l, c);
    lemma_lc_index(s, l as int, c as int);
    let i = lc_index(s, l as int, c as int);
    lemma_chars_before_boundary(s, i);
    if j < i {
        assert(lc_stop(s, l as int, c as int, j));
        assert(false);
    }
    if i < j {
        assert(lc_stop(s, l as int, c as int, i));
        if line_col(s.take(i)) != (l, c) {
            lemma_line_col_mono(s, i, j);
            assert(false);
        }
    }
}

} // verus!
