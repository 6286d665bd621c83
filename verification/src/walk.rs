//! Which entries of a directory walk the file picker offers, and how.
//!
//! Paths with a hidden component (a name starting with `.`, other than `.`
//! and `..`) are skipped; the others are shown relative to the root of the
//! walk, without a leading `/`. At most `MAX_WALK_FILES` are kept.
use vstd::prelude::*;

use crate::edit::{slice_range, slice_skip};
use crate::text::{chars_of, string_of};

verus! {

/// Most entries a walk keeps.
pub const MAX_WALK_FILES: usize = 200;

/// `path` relative to `root`, as `std::path::Path::strip_prefix` computes
/// it (none when `root` is not a prefix of `path`, component by component).
pub uninterp spec fn path_strip_prefix(path: Seq<char>, root: Seq<char>) -> Option<Seq<char>>;

/// `std::path::Path::strip_prefix` on paths given as text, the result taken
/// back as text: the result is `path_strip_prefix` of the arguments.
#[verifier::external_body]
fn strip_root(path: &str, root: &str) -> (r: Option<String>)
    ensures
        match r {
            Some(q) => path_strip_prefix(path@, root@) == Some(q@),
            None => path_strip_prefix(path@, root@) is None,
        },
{
    match std::path::Path::new(path).strip_prefix(root) {
        Ok(q) => Some(q.to_string_lossy().into_owned()),
        Err(_) => None,
    }
}

/// The index of the first `/` at or after `i`, or the length.
pub open spec fn segment_end(p: Seq<char>, i: int) -> int
    decreases p.len() - i,
{
    if i < 0 || i >= p.len() || p[i] == '/' {
        if i < 0 {
            0
        } else if i > p.len() {
            p.len() as int
        } else {
            i
        }
    } else {
        segment_end(p, i + 1)
    }
}

/// A name that hides a file: it starts with `.` and is neither `.` nor
/// `..`.
pub open spec fn hidden_name(s: Seq<char>) -> bool {
    s.len() > 0 && s[0] == '.' && s != seq!['.'] && s != seq!['.', '.']
}

/// A component of `p` starts at index `i`.
pub open spec fn starts_component(p: Seq<char>, i: int) -> bool {
    0 <= i < p.len() && (i == 0 || p[i - 1] == '/')
}

/// Some component of `p` is a hidden name.
pub open spec fn has_hidden_component(p: Seq<char>) -> bool {
    exists|i: int| #[trigger] starts_component(p, i) && hidden_name(p.subrange(i, segment_end(p, i)))
}

/// `s` without its leading `/` characters.
pub open spec fn trim_slashes(s: Seq<char>) -> Seq<char>
    decreases s.len(),
{
    if s.len() > 0 && s[0] == '/' {
        trim_slashes(s.drop_first())
    } else {
        s
    }
}

/// The entry a walk shows for `path` under `root`: none for a hidden path,
/// else the path relative to the root (the whole path when it is not under
/// it) without leading `/`.
pub open spec fn walk_entry_of(path: Seq<char>, root: Seq<char>) -> Option<Seq<char>> {
    if has_hidden_component(path) {
        None
    } else {
        Some(
            trim_slashes(
                match path_strip_prefix(path, root) {
                    Some(rel) => rel,
                    None => path,
                },
            ),
        )
    }
}

/// `segment_end` lies between `i` and the length, and no `/` comes before
/// it from `i` on.
pub proof fn lemma_segment_end(p: Seq<char>, i: int)
    requires
        0 <= i <= p.len(),
    ensures
        i <= segment_end(p, i) <= p.len(),
        segment_end(p, i) < p.len() ==> p[segment_end(p, i)] == '/',
        forall|k: int| i <= k < segment_end(p, i) ==> p[k] != '/',
    decreases p.len() - i,
{
    if i < p.len() && p[i] != '/' {
        lemma_segment_end(p, i + 1);
    }
}

/// The end of the component that starts at `i`.
fn segment_end_of(v: &[char], i: usize) -> (r: usize)
    requires
        i <= v@.len(),
    ensures
        r == segment_end(v@, i as int),
{
    let mut k = i;
    while k < v.len() && v[k] != '/'
        invariant
            i <= k <= v@.len(),
            segment_end(v@, i as int) == segment_end(v@, k as int),
        decreases v@.len() - k,
    {
        k = k + 1;
    }
    k
}

/// Whether `v` is a hidden name.
fn is_hidden_name(v: &[char]) -> (b: bool)
    ensures
        b == hidden_name(v@),
{
    if v.len() == 0 || v[0] != '.' {
        return false;
    }
    let dot = v.len() == 1;
    let dots = v.len() == 2 && v[1] == '.';
    proof {
        if dot {
            assert(v@ =~= seq!['.']);
        }
        if dots {
            assert(v@ =~= seq!['.', '.']);
        }
        if v@ == seq!['.'] {
            assert(v@.len() == 1);
        }
        if v@ == seq!['.', '.'] {
            assert(v@.len() == 2 && v@[1] == '.');
        }
    }
    !dot && !dots
}

/// Whether some component of `v` is hidden (see `has_hidden_component`).
fn hidden_path(v: &[char]) -> (b: bool)
    ensures
        b == has_hidden_component(v@),
{
    let mut i: usize = 0;
    while i < v.len()
        invariant
            i <= v@.len(),
            forall|j: int|
                0 <= j < i && #[trigger] starts_component(v@, j) ==> !hidden_name(
                    v@.subrange(j, segment_end(v@, j)),
                ),
        decreases v@.len() - i,
    {
        if i == 0 || v[i - 1] == '/' {
            let e = segment_end_of(v, i);
            proof {
                lemma_segment_end(v@, i as int);
            }
            let name = slice_range(v, i, e);
            if is_hidden_name(name.as_slice()) {
                assert(starts_component(v@, i as int));
                return true;
            }
        }
        i = i + 1;
    }
    false
}

/// `v` without its leading `/` characters.
fn trimmed_slashes(v: &[char]) -> (r: Vec<char>)
    ensures
        r@ == trim_slashes(v@),
{
    let mut i: usize = 0;
    assert(v@.skip(0) =~= v@);
    while i < v.len() && v[i] == '/'
        invariant
            i <= v@.len(),
            trim_slashes(v@) == trim_slashes(v@.skip(i as int)),
        decreases v@.len() - i,
    {
        assert(v@.skip(i as int).drop_first() =~= v@.skip(i + 1));
        i = i + 1;
    }
    slice_skip(v, i)
}

/// The entry a walk shows for `path` under `root` (see `walk_entry_of`).
pub fn walk_entry(path: &str, root: &str) -> (r: Option<String>)
    ensures
        match r {
            Some(e) => walk_entry_of(path@, root@) == Some(e@),
            None => walk_entry_of(path@, root@) is None,
        },
{
    let v = chars_of(path);
    if hidden_path(v.as_slice()) {
        return None;
    }
    let rel = match strip_root(path, root) {
        Some(q) => q,
        None => string_of(v.as_slice()),
    };
    let rv = chars_of(rel.as_str());
    let t = trimmed_slashes(rv.as_slice());
    Some(string_of(t.as_slice()))
}

/// Adds the entry for a walked `path` under `root` to `files` (see
/// `walk_entry_of`); returns whether the walk is done, `files` holding
/// `MAX_WALK_FILES` entries.
pub fn add_walk_entry(files: &mut Vec<String>, path: &str, root: &str) -> (full: bool)
    requires
        old(files)@.len() < MAX_WALK_FILES,
    ensures
        match walk_entry_of(path@, root@) {
            Some(e) => final(files)@.len() == old(files)@.len() + 1 && final(files)@.last()@ == e
                && final(files)@.drop_last() == old(files)@,
            None => final(files)@ == old(files)@,
        },
        full == (final(files)@.len() >= MAX_WALK_FILES),
{
    match walk_entry(path, root) {
        Some(e) => {
            files.push(e);
            assert(files@.drop_last() =~= old(files)@);
        },
        None => {},
    }
    files.len() >= MAX_WALK_FILES
}

} // verus!
