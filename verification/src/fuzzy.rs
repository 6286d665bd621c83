//! Fuzzy ranking of picker items against a query.
//!
//! A query that occurs contiguously in an item scores high (more at a word
//! start, more still at the very start, less the further in and the longer
//! the item). Otherwise the query's characters are matched left to right,
//! each at its first occurrence after the previous one, with small bonuses
//! for adjacent matches and for matches at word starts.
use vstd::prelude::*;

use crate::text::{
    byte_len, byte_offset, chars_of, find_seq, first_occurrence, lemma_byte_offset_end,
    lemma_byte_offset_mono, lemma_byte_offset_step, lemma_utf8_len_bounds, lowercase, occurs_at,
    utf8_len,
};
use crate::text::char_utf8_len;

verus! {

/// Characters after which a match counts as the start of a word.
pub open spec fn is_word_sep(c: char) -> bool {
    c == '-' || c == '.' || c == '/' || c == '_' || c == ' ' || c == ':'
}

/// Index `i` of `s` starts a word: it is the first index, or follows a
/// separator.
pub open spec fn at_word_start(s: Seq<char>, i: int) -> bool {
    i == 0 || (0 < i <= s.len() && is_word_sep(s[i - 1]))
}

/// The score of a contiguous match at index `i` of `s` (before it is cut to
/// 32 bits): the offset is counted in bytes.
pub open spec fn contiguous_score(s: Seq<char>, i: int) -> int {
    1000 + (if at_word_start(s, i) {
        200int
    } else {
        0int
    }) + (if i == 0 {
        100int
    } else {
        0int
    }) - byte_offset(s, i) - s.len() / 4
}

/// The first index at or after `from` where `c` stands in `s`, or -1.
pub open spec fn next_at(s: Seq<char>, c: char, from: int) -> int
    decreases s.len() - from,
{
    if from < 0 || from >= s.len() {
        -1
    } else if s[from] == c {
        from
    } else {
        next_at(s, c, from + 1)
    }
}

/// Adds `a` to an optional score.
pub open spec fn add_opt(o: Option<int>, a: int) -> Option<int> {
    match o {
        Some(r) => Some(r + a),
        None => None,
    }
}

/// The bonuses of a scattered match of `q` in `s`, searching from `from`
/// with the previous match at `last` (-1 for none): 5 for each character
/// right after the previous one, 3 for each at a word start; none when some
/// character cannot be found.
pub open spec fn spread_score(s: Seq<char>, q: Seq<char>, from: int, last: int) -> Option<int>
    decreases q.len(),
{
    if q.len() == 0 {
        Some(0)
    } else {
        let p = next_at(s, q[0], from);
        if p < 0 {
            None
        } else {
            let bonus = (if last >= 0 && last + 1 == p {
                5int
            } else {
                0int
            }) + (if at_word_start(s, p) {
                3int
            } else {
                0int
            });
            add_opt(spread_score(s, q.drop_first(), p + 1, p), bonus)
        }
    }
}

/// The score of already lowercased text `s` against the lowercased query
/// `q`, cut to 32 bits as two's complement arithmetic does.
pub open spec fn lowered_score(s: Seq<char>, q: Seq<char>) -> Option<i32> {
    match first_occurrence(q, s) {
        Some(i) => Some(contiguous_score(s, i) as i32),
        None => match spread_score(s, q, 0, -1) {
            Some(r) => Some((r - s.len() / 20) as i32),
            None => None,
        },
    }
}

/// The score of `item` against `query`, compared without case; an empty
/// query matches everything with score 0.
pub open spec fn fuzzy_score_of(item: Seq<char>, query: Seq<char>) -> Option<i32> {
    if query.len() == 0 {
        Some(0)
    } else {
        lowered_score(lowercase(item), lowercase(query))
    }
}

/// Whether `c` separates words.
fn is_word_sep_char(c: char) -> (b: bool)
    ensures
        b == is_word_sep(c),
{
    c == '-' || c == '.' || c == '/' || c == '_' || c == ' ' || c == ':'
}

/// The byte offset of character `k` of `v`, whose whole encoding takes
/// `total` bytes.
fn prefix_bytes(v: &[char], k: usize, total: usize) -> (n: usize)
    requires
        k <= v@.len(),
        total == utf8_len(v@),
    ensures
        n == byte_offset(v@, k as int),
{
    let mut n: usize = 0;
    let mut i: usize = 0;
    while i < k
        invariant
            i <= k <= v@.len(),
            total == utf8_len(v@),
            n == byte_offset(v@, i as int),
        decreases k - i,
    {
        proof {
            lemma_byte_offset_step(v@, i as int);
            lemma_byte_offset_mono(v@, i + 1, v@.len() as int);
            lemma_byte_offset_end(v@);
        }
        n = n + char_utf8_len(v[i]);
        i = i + 1;
    }
    n
}

/// The score of a contiguous match at index `pos` of `v`.
fn contiguous_at(v: &[char], pos: usize, total: usize) -> (r: i128)
    requires
        pos <= v@.len(),
        total == utf8_len(v@),
    ensures
        r == contiguous_score(v@, pos as int),
{
    proof {
        lemma_byte_offset_mono(v@, pos as int, v@.len() as int);
        lemma_byte_offset_end(v@);
    }
    let b = prefix_bytes(v, pos, total);
    let mut score: i128 = 1000;
    if pos == 0 || is_word_sep_char(v[pos - 1]) {
        score = score + 200;
    }
    if pos == 0 {
        score = score + 100;
    }
    score = score - b as i128;
    score - (v.len() / 4) as i128
}

/// The bonuses of the scattered match of `q` in `v` (see `spread_score`).
fn spread_bonus(v: &[char], q: &[char]) -> (r: Option<i128>)
    ensures
        match r {
            Some(x) => spread_score(v@, q@, 0, -1) == Some(x as int) && 0 <= x <= 8 * q@.len(),
            None => spread_score(v@, q@, 0, -1) is None,
        },
{
    let ghost s = v@;
    let ghost qv = q@;
    let mut score: i128 = 0;
    let mut idx: usize = 0;
    let mut last: Option<usize> = None;
    let mut k: usize = 0;
    assert(qv.skip(0) =~= qv);
    while k < q.len()
        invariant
            s == v@,
            qv == q@,
            k <= qv.len(),
            idx <= s.len(),
            0 <= score <= 8 * k,
            match last {
                Some(l) => l + 1 == idx,
                None => idx == 0,
            },
            spread_score(s, qv, 0, -1) == add_opt(
                spread_score(
                    s,
                    qv.skip(k as int),
                    idx as int,
                    match last {
                        Some(l) => l as int,
                        None => -1,
                    },
                ),
                score as int,
            ),
        decreases qv.len() - k,
    {
        let qc = q[k];
        let ghost last_i: int = match last {
            Some(l) => l as int,
            None => -1,
        };
        let mut j = idx;
        while j < v.len() && v[j] != qc
            invariant
                s == v@,
                idx <= j <= s.len(),
                next_at(s, qc, idx as int) == next_at(s, qc, j as int),
            decreases s.len() - j,
        {
            j = j + 1;
        }
        proof {
            assert(qv.skip(k as int)[0] == qc);
            assert(qv.skip(k as int).drop_first() =~= qv.skip(k + 1));
        }
        if j == v.len() {
            assert(next_at(s, qc, idx as int) == -1);
            return None;
        }
        let pos = j;
        assert(next_at(s, qc, idx as int) == pos);
        let adjacent = match last {
            Some(l) => l + 1 == pos,
            None => false,
        };
        let mut bonus: i128 = 0;
        if adjacent {
            bonus = bonus + 5;
        }
        if pos == 0 || is_word_sep_char(v[pos - 1]) {
            bonus = bonus + 3;
        }
        assert(adjacent == (last_i >= 0 && last_i + 1 == pos));
        score = score + bonus;
        last = Some(pos);
        idx = pos + 1;
        k = k + 1;
    }
    assert(qv.skip(k as int).len() == 0);
    Some(score)
}

/// Scores lowercased text against a lowercased query (see `lowered_score`).
pub fn fuzzy_score_lowered(item_l: &str, query_l: &str) -> (r: Option<i32>)
    ensures
        r == lowered_score(item_l@, query_l@),
{
    let chars = chars_of(item_l);
    let q = chars_of(query_l);
    let total = byte_len(item_l);
    let ghost s = chars@;
    let ghost qv = q@;
    match find_seq(chars.as_slice(), q.as_slice()) {
        Some(pos) => {
            proof {
                let i = choose|i: int|
                    occurs_at(qv, s, i) && forall|j: int| 0 <= j < i ==> !occurs_at(qv, s, j);
                assert(occurs_at(qv, s, pos as int));
                assert(s.subrange(pos as int, pos + qv.len()) == qv);
                assert(first_occurrence(qv, s) == Some(i));
                if i < pos {
                    assert(!occurs_at(qv, s, i));
                } else if pos < i {
                    assert(!occurs_at(qv, s, pos as int));
                }
                assert(i == pos);
            }
            let score = contiguous_at(chars.as_slice(), pos, total);
            Some(#[verifier::truncate] (score as i32))
        },
        None => {
            match spread_bonus(chars.as_slice(), q.as_slice()) {
                Some(b) => {
                    let score = b - (chars.len() / 20) as i128;
                    Some(#[verifier::truncate] (score as i32))
                },
                None => None,
            }
        },
    }
}

/// Scores `item` against `query` without regard to case (see
/// `fuzzy_score_of`).
pub fn fuzzy_score(item: &str, query: &str) -> (r: Option<i32>)
    ensures
        r == fuzzy_score_of(item@, query@),
{
    if byte_len(query) == 0 {
        proof {
            lemma_utf8_len_bounds(query@);
        }
        return Some(0);
    }
    proof {
        lemma_utf8_len_bounds(query@);
    }
    let item_l = item.to_lowercase();
    let query_l = query.to_lowercase();
    fuzzy_score_lowered(item_l.as_str(), query_l.as_str())
}

/// `q` is a subsequence of `s` at indices from `from` on: its characters
/// stand in `s` in order, at strictly increasing indices, none before
/// `from`.
pub open spec fn subsequence_from(q: Seq<char>, s: Seq<char>, from: int) -> bool {
    exists|idx: Seq<int>|
        #![trigger idx.len()]
        idx.len() == q.len() && (forall|i: int| 0 <= i < idx.len() ==> from <= #[trigger] idx[i] < s.len()
            && s[idx[i]] == q[i]) && (forall|i: int, j: int| 0 <= i < j < idx.len() ==> idx[i] < idx[j])
}

/// `q` is a subsequence of `s`.
pub open spec fn is_subsequence(q: Seq<char>, s: Seq<char>) -> bool {
    subsequence_from(q, s, 0)
}

/// `next_at` finds the first occurrence at or after `from`.
proof fn lemma_next_at(s: Seq<char>, c: char, from: int)
    requires
        0 <= from,
    ensures
        next_at(s, c, from) == -1 || (from <= next_at(s, c, from) < s.len() && s[next_at(s, c, from)] == c),
        next_at(s, c, from) == -1 ==> forall|j: int| from <= j < s.len() ==> s[j] != c,
        next_at(s, c, from) >= 0 ==> forall|j: int| from <= j < next_at(s, c, from) ==> s[j] != c,
    decreases s.len() - from,
{
    if from < s.len() && s[from] != c {
        lemma_next_at(s, c, from + 1);
    }
}

/// The scattered match succeeds exactly when the query is a subsequence
/// from `from` on.
proof fn lemma_spread_subsequence(s: Seq<char>, q: Seq<char>, from: int, last: int)
    requires
        0 <= from,
    ensures
        spread_score(s, q, from, last) is Some <==> subsequence_from(q, s, from),
    decreases q.len(),
{
    if q.len() == 0 {
        let idx = Seq::<int>::empty();
        assert(idx.len() == q.len());
    } else {
        let p = next_at(s, q[0], from);
        lemma_next_at(s, q[0], from);
        let rest = q.drop_first();
        if p >= 0 {
            lemma_spread_subsequence(s, rest, p + 1, p);
            if subsequence_from(rest, s, p + 1) {
                let idx = choose|idx: Seq<int>|
                    #![trigger idx.len()]
                    idx.len() == rest.len() && (forall|i: int| 0 <= i < idx.len() ==> p + 1 <= #[trigger] idx[i]
                        < s.len() && s[idx[i]] == rest[i]) && (forall|i: int, j: int|
                        0 <= i < j < idx.len() ==> idx[i] < idx[j]);
                let full = seq![p] + idx;
                assert(full.len() == q.len());
                assert forall|i: int| 0 <= i < full.len() implies from <= #[trigger] full[i] < s.len()
                    && s[full[i]] == q[i] by {
                    if i > 0 {
                        assert(full[i] == idx[i - 1]);
                        assert(rest[i - 1] == q[i]);
                    }
                }
                assert forall|i: int, j: int| 0 <= i < j < full.len() implies full[i] < full[j] by {
                    if i > 0 {
                        assert(full[i] == idx[i - 1]);
                    }
                    assert(full[j] == idx[j - 1]);
                }
            }
            if subsequence_from(q, s, from) {
                let idx = choose|idx: Seq<int>|
                    #![trigger idx.len()]
                    idx.len() == q.len() && (forall|i: int| 0 <= i < idx.len() ==> from <= #[trigger] idx[i]
                        < s.len() && s[idx[i]] == q[i]) && (forall|i: int, j: int|
                        0 <= i < j < idx.len() ==> idx[i] < idx[j]);
                assert(from <= idx[0] < s.len() && s[idx[0]] == q[0]);
                assert(p <= idx[0]);
                let tail = idx.drop_first();
                assert(tail.len() == rest.len());
                assert forall|i: int| 0 <= i < tail.len() implies p + 1 <= #[trigger] tail[i] < s.len()
                    && s[tail[i]] == rest[i] by {
                    assert(tail[i] == idx[i + 1]);
                    assert(idx[0] < idx[i + 1]);
                }
                assert forall|i: int, j: int| 0 <= i < j < tail.len() implies tail[i] < tail[j] by {
                    assert(tail[i] == idx[i + 1]);
                    assert(tail[j] == idx[j + 1]);
                }
            }
        } else {
            if subsequence_from(q, s, from) {
                let idx = choose|idx: Seq<int>|
                    #![trigger idx.len()]
                    idx.len() == q.len() && (forall|i: int| 0 <= i < idx.len() ==> from <= #[trigger] idx[i]
                        < s.len() && s[idx[i]] == q[i]) && (forall|i: int, j: int|
                        0 <= i < j < idx.len() ==> idx[i] < idx[j]);
                assert(from <= idx[0] < s.len() && s[idx[0]] == q[0]);
                assert(false);
            }
        }
    }
}

/// An item matches a query exactly when the query is empty or the query's
/// lowercase characters stand, in order, among the item's lowercase
/// characters; a contiguous occurrence is one such case.
pub proof fn law_fuzzy_matches_subsequence(item: Seq<char>, query: Seq<char>)
    ensures
        fuzzy_score_of(item, query) is Some <==> (query.len() == 0 || is_subsequence(
            lowercase(query),
            lowercase(item),
        )),
{
    if query.len() > 0 {
        let s = lowercase(item);
        let q = lowercase(query);
        lemma_spread_subsequence(s, q, 0, -1);
        if first_occurrence(q, s) is Some {
            let i = choose|i: int|
                0 <= i && i + q.len() <= s.len() && #[trigger] s.subrange(i, i + q.len()) == q;
            let idx = Seq::new(q.len(), |k: int| i + k);
            assert(idx.len() == q.len());
            assert forall|k: int| 0 <= k < idx.len() implies 0 <= #[trigger] idx[k] < s.len() && s[idx[k]] == q[k] by {
                assert(s.subrange(i, i + q.len())[k] == s[i + k]);
            }
            assert(subsequence_from(q, s, 0));
        }
    }
}

} // verus!
