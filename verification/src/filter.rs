//! Query editing and case-insensitive filtering shared by all pickers.
use vstd::prelude::*;

use crate::text::{chars_of, contains_seq, is_substring, lowercase, string_of};

verus! {

/// At most this many matches are kept by a filter.
pub const MAX_MATCHES: usize = 50;

/// The views of a run of strings.
pub open spec fn views(v: Seq<String>) -> Seq<Seq<char>> {
    v.map_values(|s: String| s@)
}

/// The views of a run of string slices.
pub open spec fn str_views(v: Seq<&'static str>) -> Seq<Seq<char>> {
    v.map_values(|s: &'static str| s@)
}

/// An item matches a query when the lowercased query occurs in the
/// lowercased item.
pub open spec fn item_matches(item: Seq<char>, query: Seq<char>) -> bool {
    is_substring(lowercase(query), lowercase(item))
}

/// All items that match the query, in their original order.
pub open spec fn hits(items: Seq<Seq<char>>, query: Seq<char>) -> Seq<Seq<char>>
    decreases items.len(),
{
    if items.len() == 0 {
        Seq::<Seq<char>>::empty()
    } else {
        let h = hits(items.drop_last(), query);
        if item_matches(items.last(), query) {
            h.push(items.last())
        } else {
            h
        }
    }
}

/// The first `MAX_MATCHES` items that match the query, in order.
pub open spec fn filtered(items: Seq<Seq<char>>, query: Seq<char>) -> Seq<Seq<char>> {
    let h = hits(items, query);
    if h.len() <= MAX_MATCHES {
        h
    } else {
        h.take(MAX_MATCHES as int)
    }
}

/// The query after inserting `c` before character `k` (at the end when `k`
/// is past it).
pub open spec fn insert_char(q: Seq<char>, k: int, c: char) -> Seq<char> {
    let p = if k < q.len() {
        k
    } else {
        q.len() as int
    };
    q.take(p).push(c) + q.skip(p)
}

/// The position after `selected` in a list of `len` entries, wrapping around.
pub open spec fn next_pos(selected: int, len: int) -> int {
    (selected + 1) % len
}

/// The position before `selected` in a list of `len` entries, wrapping around.
pub open spec fn prev_pos(selected: int, len: int) -> int {
    if selected == 0 {
        len - 1
    } else {
        selected - 1
    }
}

/// Inserts `c` before character `cursor` of `q` (at the end when past it).
pub fn insert_char_at(q: &String, cursor: usize, c: char) -> (r: String)
    ensures
        r@ == insert_char(q@, cursor as int, c),
{
    let v = chars_of(q.as_str());
    let p = if cursor < v.len() {
        cursor
    } else {
        v.len()
    };
    let mut out: Vec<char> = Vec::new();
    let mut i: usize = 0;
    while i < p
        invariant
            p <= v@.len(),
            i <= p,
            out@ == v@.take(i as int),
        decreases p - i,
    {
        out.push(v[i]);
        assert(v@.take(i + 1) =~= v@.take(i as int).push(v@[i as int]));
        i = i + 1;
    }
    out.push(c);
    while i < v.len()
        invariant
            p <= i <= v@.len(),
            out@ == v@.take(p as int).push(c) + v@.subrange(p as int, i as int),
        decreases v@.len() - i,
    {
        out.push(v[i]);
        assert(v@.subrange(p as int, i + 1) =~= v@.subrange(p as int, i as int).push(v@[i as int]));
        i = i + 1;
    }
    assert(v@.subrange(p as int, v@.len() as int) =~= v@.skip(p as int));
    string_of(out.as_slice())
}

/// Removes character `k` of `q`.
pub fn remove_char_at(q: &String, k: usize) -> (r: String)
    requires
        k < q@.len(),
    ensures
        r@ == q@.remove(k as int),
{
    let v = chars_of(q.as_str());
    let mut out: Vec<char> = Vec::new();
    let mut i: usize = 0;
    while i < v.len()
        invariant
            k < v@.len(),
            i <= v@.len(),
            out@ == (if i <= k {
                v@.take(i as int)
            } else {
                v@.take(k as int) + v@.subrange(k + 1, i as int)
            }),
        decreases v@.len() - i,
    {
        if i != k {
            out.push(v[i]);
        }
        proof {
            if i < k {
                assert(v@.take(i + 1) =~= v@.take(i as int).push(v@[i as int]));
            } else if i == k {
                assert(v@.subrange(k + 1, k + 1) =~= Seq::<char>::empty());
                assert(v@.take(k as int) + v@.subrange(k + 1, i + 1) =~= v@.take(k as int));
            } else {
                assert(v@.subrange(k + 1, i + 1) =~= v@.subrange(k + 1, i as int).push(
                    v@[i as int],
                ));
            }
        }
        i = i + 1;
    }
    assert(v@.take(k as int) + v@.subrange(k + 1, v@.len() as int) =~= v@.remove(k as int));
    string_of(out.as_slice())
}

/// Whether `item` matches the lowercased query `ql`.
fn matches_lowered(item: &str, ql: &Vec<char>, Ghost(query): Ghost<Seq<char>>) -> (b: bool)
    requires
        ql@ == lowercase(query),
    ensures
        b == item_matches(item@, query),
{
    let il = item.to_lowercase();
    let iv = chars_of(il.as_str());
    contains_seq(iv.as_slice(), ql.as_slice())
}

proof fn lemma_hits_step(items: Seq<Seq<char>>, query: Seq<char>, i: int)
    requires
        0 <= i < items.len(),
    ensures
        hits(items.take(i + 1), query) == (if item_matches(items[i], query) {
            hits(items.take(i), query).push(items[i])
        } else {
            hits(items.take(i), query)
        }),
{
    assert(items.take(i + 1).drop_last() =~= items.take(i));
    assert(items.take(i + 1).last() == items[i]);
}

proof fn lemma_cap_push(h: Seq<Seq<char>>, x: Seq<char>)
    requires
        h.len() >= MAX_MATCHES,
    ensures
        h.push(x).take(MAX_MATCHES as int) == (if h.len() <= MAX_MATCHES {
            h
        } else {
            h.take(MAX_MATCHES as int)
        }),
{
    assert(h.push(x).take(MAX_MATCHES as int) =~= h.take(MAX_MATCHES as int));
    if h.len() == MAX_MATCHES {
        assert(h.take(MAX_MATCHES as int) =~= h);
    }
}

/// Keeps the first `MAX_MATCHES` strings whose lowercase form contains the
/// lowercase query.
pub fn filter_strings(items: &Vec<String>, query: &str) -> (r: Vec<String>)
    ensures
        views(r@) == filtered(views(items@), query@),
{
    let qs = query.to_lowercase();
    let ql = chars_of(qs.as_str());
    let ghost iv = views(items@);
    let mut out: Vec<String> = Vec::new();
    let mut i: usize = 0;
    assert(iv.take(0) =~= Seq::<Seq<char>>::empty());
    assert(views(out@) =~= Seq::<Seq<char>>::empty());
    while i < items.len()
        invariant
            i <= items@.len(),
            iv == views(items@),
            ql@ == lowercase(query@),
            views(out@) == filtered(iv.take(i as int), query@),
        decreases items@.len() - i,
    {
        let m = matches_lowered(items[i].as_str(), &ql, Ghost(query@));
        proof {
            lemma_hits_step(iv, query@, i as int);
        }
        if m && out.len() < MAX_MATCHES {
            let item = items[i].clone();
            let ghost before = out@;
            out.push(item);
            assert(views(out@) =~= views(before).push(iv[i as int]));
        } else if m {
            proof {
                let h = hits(iv.take(i as int), query@);
                lemma_cap_push(h, iv[i as int]);
            }
        }
        i = i + 1;
    }
    assert(iv.take(items@.len() as int) =~= iv);
    out
}

/// Keeps the first `MAX_MATCHES` string slices whose lowercase form contains
/// the lowercase query.
pub fn filter_strs(items: &Vec<&'static str>, query: &str) -> (r: Vec<&'static str>)
    ensures
        str_views(r@) == filtered(str_views(items@), query@),
{
    let qs = query.to_lowercase();
    let ql = chars_of(qs.as_str());
    let ghost iv = str_views(items@);
    let mut out: Vec<&'static str> = Vec::new();
    let mut i: usize = 0;
    assert(iv.take(0) =~= Seq::<Seq<char>>::empty());
    assert(str_views(out@) =~= Seq::<Seq<char>>::empty());
    while i < items.len()
        invariant
            i <= items@.len(),
            iv == str_views(items@),
            ql@ == lowercase(query@),
            str_views(out@) == filtered(iv.take(i as int), query@),
        decreases items@.len() - i,
    {
        let m = matches_lowered(items[i], &ql, Ghost(query@));
        proof {
            lemma_hits_step(iv, query@, i as int);
        }
        if m && out.len() < MAX_MATCHES {
            let ghost before = out@;
            out.push(items[i]);
            assert(str_views(out@) =~= str_views(before).push(iv[i as int]));
        } else if m {
            proof {
                let h = hits(iv.take(i as int), query@);
                lemma_cap_push(h, iv[i as int]);
            }
        }
        i = i + 1;
    }
    assert(iv.take(items@.len() as int) =~= iv);
    out
}

/// The next position in a list of `len` entries, wrapping around.
pub fn next_index(selected: usize, len: usize) -> (r: usize)
    requires
        len > 0,
        selected < usize::MAX,
    ensures
        r == next_pos(selected as int, len as int),
        r < len,
{
    (selected + 1) % len
}

/// The previous position in a list of `len` entries, wrapping around.
pub fn prev_index(selected: usize, len: usize) -> (r: usize)
    requires
        len > 0,
    ensures
        r == prev_pos(selected as int, len as int),
{
    if selected == 0 {
        len - 1
    } else {
        selected - 1
    }
}

/// With an empty query every item matches, so a filter keeps the first
/// `MAX_MATCHES` items.
pub proof fn lemma_hits_all(items: Seq<Seq<char>>, query: Seq<char>)
    requires
        lowercase(query).len() == 0,
    ensures
        hits(items, query) == items,
    decreases items.len(),
{
    if items.len() > 0 {
        lemma_hits_all(items.drop_last(), query);
        let l = lowercase(items.last());
        assert(l.subrange(0, 0 + lowercase(query).len() as int) =~= lowercase(query));
        assert(items.drop_last().push(items.last()) =~= items);
    }
}

/// Filtering with an empty query lists the first `MAX_MATCHES` items in
/// their order.
pub proof fn law_empty_query_lists_all(items: Seq<Seq<char>>, query: Seq<char>)
    requires
        query.len() == 0,
        lowercase(query).len() == 0,
    ensures
        filtered(items, query) == (if items.len() <= MAX_MATCHES {
            items
        } else {
            items.take(MAX_MATCHES as int)
        }),
{
    lemma_hits_all(items, query);
}

/// Stepping to the next entry and then to the previous one (or the other
/// way round) returns to the entry that was selected.
pub proof fn law_next_prev_inverse(selected: int, len: int)
    requires
        0 <= selected < len,
    ensures
        prev_pos(next_pos(selected, len), len) == selected,
        next_pos(prev_pos(selected, len), len) == selected,
        0 <= next_pos(selected, len) < len,
        0 <= prev_pos(selected, len) < len,
{
    if selected + 1 < len {
        vstd::arithmetic::div_mod::lemma_small_mod((selected + 1) as nat, len as nat);
    } else {
        vstd::arithmetic::div_mod::lemma_mod_self_0(len);
    }
    if selected == 0 {
        vstd::arithmetic::div_mod::lemma_mod_self_0(len);
    } else {
        vstd::arithmetic::div_mod::lemma_small_mod(selected as nat, len as nat);
    }
}

/// Typing a character into the query and deleting it again with
/// backspace restores the query.
pub proof fn law_insert_then_remove(q: Seq<char>, k: int, c: char)
    requires
        0 <= k <= q.len(),
    ensures
        insert_char(q, k, c).remove(k) == q,
        insert_char(q, k, c).len() == q.len() + 1,
{
    assert(insert_char(q, k, c).remove(k) =~= q);
}

/// The selection after `k` moves to the next position from `s` in a list of
/// `m` entries.
pub open spec fn after_nexts(s: int, m: int, k: nat) -> int
    decreases k,
{
    if k == 0 {
        s
    } else {
        next_pos(after_nexts(s, m, (k - 1) as nat), m)
    }
}

/// Some of the first `m` moves from `s` lands on `t`.
pub open spec fn visited(s: int, m: int, t: int) -> bool {
    exists|k: nat| k < m && #[trigger] after_nexts(s, m, k) == t
}

/// `k` moves forward from `s` land on `s + k`, wrapped once.
proof fn lemma_after_nexts(s: int, m: int, k: nat)
    requires
        0 <= s < m,
        k <= m,
    ensures
        after_nexts(s, m, k) == (if s + k < m {
            s + k
        } else {
            s + k - m
        }),
    decreases k,
{
    if k > 0 {
        lemma_after_nexts(s, m, (k - 1) as nat);
        let prev = after_nexts(s, m, (k - 1) as nat);
        if prev + 1 < m {
            vstd::arithmetic::div_mod::lemma_small_mod((prev + 1) as nat, m as nat);
        } else {
            vstd::arithmetic::div_mod::lemma_mod_self_0(m);
        }
    }
}

/// Moving to the next position `m` times in a list of `m` entries visits
/// every position exactly once and comes back to the start.
pub proof fn law_next_cycles(s: int, m: int)
    requires
        0 <= s < m,
    ensures
        after_nexts(s, m, m as nat) == s,
        forall|k: nat| k < m ==> 0 <= #[trigger] after_nexts(s, m, k) < m,
        forall|k1: nat, k2: nat|
            k1 < k2 < m ==> #[trigger] after_nexts(s, m, k1) != #[trigger] after_nexts(s, m, k2),
        forall|t: int| 0 <= t < m ==> #[trigger] visited(s, m, t),
{
    lemma_after_nexts(s, m, m as nat);
    assert forall|k: nat| k < m implies 0 <= #[trigger] after_nexts(s, m, k) < m by {
        lemma_after_nexts(s, m, k);
    }
    assert forall|k1: nat, k2: nat| k1 < k2 < m implies #[trigger] after_nexts(s, m, k1)
        != #[trigger] after_nexts(s, m, k2) by {
        lemma_after_nexts(s, m, k1);
        lemma_after_nexts(s, m, k2);
    }
    assert forall|t: int| 0 <= t < m implies #[trigger] visited(s, m, t) by {
        let k: nat = if t >= s {
            (t - s) as nat
        } else {
            (t - s + m) as nat
        };
        lemma_after_nexts(s, m, k);
        assert(after_nexts(s, m, k) == t);
    }
}

} // verus!
