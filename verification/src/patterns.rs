//! The allow pattern suggested when a tool asks for permission.
use vstd::prelude::*;

use crate::edit::slice_range;
use crate::text::{
    chars_of, is_white_space, is_whitespace, lemma_leading_ws_bounds, leading_ws_count, push_chars,
    string_of, trim_start,
};

verus! {

/// The path of the directory holding `p`, as `std::path::Path::parent`
/// computes it (none for a root or an empty path).
pub uninterp spec fn path_parent(p: Seq<char>) -> Option<Seq<char>>;

/// `std::path::Path::parent` on a path given as text, the result taken
/// back as text: the result is `path_parent` of the argument.
#[verifier::external_body]
fn parent_of(p: &str) -> (r: Option<String>)
    ensures
        match r {
            Some(q) => path_parent(p@) == Some(q@),
            None => path_parent(p@) is None,
        },
{
    match std::path::Path::new(p).parent() {
        Some(q) => Some(q.to_string_lossy().into_owned()),
        None => None,
    }
}

/// Number of leading characters of `s` that are not white space.
pub open spec fn word_len(s: Seq<char>) -> int
    decreases s.len(),
{
    if s.len() > 0 && !is_white_space(s[0]) {
        1 + word_len(s.drop_first())
    } else {
        0
    }
}

/// The first white-space separated word of `s`, or `*` when it has none.
pub open spec fn first_word_or_star(s: Seq<char>) -> Seq<char> {
    let t = trim_start(s);
    if t.len() == 0 {
        seq!['*']
    } else {
        t.take(word_len(t))
    }
}

/// `**`, or the directory followed by `/**/*` (`*` standing for a missing
/// directory).
pub open spec fn under_dir(parent: Option<Seq<char>>) -> Seq<char> {
    match parent {
        Some(d) => if d.len() == 0 {
            seq!['*', '*']
        } else {
            d + seq!['/', '*', '*', '/', '*']
        },
        None => seq!['*', '/', '*', '*', '/', '*'],
    }
}

/// The pattern suggested for allowing `tool` with `input` (`expanded` is
/// the input with a leading `~` expanded): for `bash` the command's first
/// word and ` *`; for the file tools everything under the directory of the
/// path; for the search tools the first word and `*`; else `*`.
pub open spec fn suggested(tool: Seq<char>, input: Seq<char>, expanded: Seq<char>) -> Seq<char> {
    if tool == seq!['b', 'a', 's', 'h'] {
        first_word_or_star(input) + seq![' ', '*']
    } else if tool == seq!['r', 'e', 'a', 'd'] || tool == seq!['w', 'r', 'i', 't', 'e'] || tool
        == seq!['e', 'd', 'i', 't'] || tool == seq!['l', 'i', 's', 't', '_', 'd', 'i', 'r'] {
        under_dir(path_parent(expanded))
    } else if tool == seq!['g', 'r', 'e', 'p'] || tool == seq![
        'f',
        'i',
        'n',
        'd',
        '_',
        'f',
        'i',
        'l',
        'e',
        's',
    ] {
        first_word_or_star(input) + seq!['*']
    } else {
        seq!['*']
    }
}

/// The first word of `v` (see `first_word_or_star`).
fn first_word_of(v: &[char]) -> (r: Vec<char>)
    ensures
        r@ == first_word_or_star(v@),
{
    let start = leading_ws_count(v);
    proof {
        lemma_leading_ws_bounds(v@);
    }
    let ghost t = trim_start(v@);
    if start == v.len() {
        let mut r: Vec<char> = Vec::new();
        r.push('*');
        assert(r@ =~= seq!['*']);
        return r;
    }
    let mut end = start;
    assert(t.skip(0) =~= t);
    while end < v.len() && !is_whitespace(v[end])
        invariant
            start <= end <= v@.len(),
            t == v@.skip(start as int),
            word_len(t) == (end - start) + word_len(t.skip(end - start)),
        decreases v@.len() - end,
    {
        proof {
            let u = t.skip(end - start);
            assert(u[0] == v@[end as int]);
            assert(u.drop_first() =~= t.skip(end - start + 1));
        }
        end = end + 1;
    }
    proof {
        let u = t.skip(end - start);
        if end < v@.len() {
            assert(u[0] == v@[end as int]);
        }
        assert(word_len(u) == 0);
    }
    let r = slice_range(v, start, end);
    assert(r@ =~= t.take(word_len(t)));
    r
}

/// Whether `v` spells `name`.
fn is_name(v: &[char], name: &str) -> (b: bool)
    ensures
        b == (v@ == name@),
{
    let n = chars_of(name);
    crate::edit::chars_eq(v, n.as_slice())
}

/// Suggests an allow pattern (see `suggested`).
pub fn suggest_pattern(tool: &str, input: &str, expanded: &str) -> (r: String)
    ensures
        r@ == suggested(tool@, input@, expanded@),
{
    proof {
        reveal_strlit("bash");
        reveal_strlit("read");
        reveal_strlit("write");
        reveal_strlit("edit");
        reveal_strlit("list_dir");
        reveal_strlit("grep");
        reveal_strlit("find_files");
        assert("bash"@ =~= seq!['b', 'a', 's', 'h']);
        assert("read"@ =~= seq!['r', 'e', 'a', 'd']);
        assert("write"@ =~= seq!['w', 'r', 'i', 't', 'e']);
        assert("edit"@ =~= seq!['e', 'd', 'i', 't']);
        assert("list_dir"@ =~= seq!['l', 'i', 's', 't', '_', 'd', 'i', 'r']);
        assert("grep"@ =~= seq!['g', 'r', 'e', 'p']);
        assert("find_files"@ =~= seq!['f', 'i', 'n', 'd', '_', 'f', 'i', 'l', 'e', 's']);
    }
    let t = chars_of(tool);
    let t = t.as_slice();
    let iv = chars_of(input);
    if is_name(t, "bash") {
        let w = first_word_of(iv.as_slice());
        let mut r = string_of(w.as_slice());
        r.push(' ');
        r.push('*');
        assert(r@ =~= first_word_or_star(input@) + seq![' ', '*']);
        r
    } else if is_name(t, "read") || is_name(t, "write") || is_name(t, "edit") || is_name(
        t,
        "list_dir",
    ) {
        match parent_of(expanded) {
            Some(d) => {
                let dv = chars_of(d.as_str());
                if dv.len() == 0 {
                    let mut r = String::new();
                    r.push('*');
                    r.push('*');
                    assert(r@ =~= seq!['*', '*']);
                    r
                } else {
                    let mut r = string_of(dv.as_slice());
                    r.push('/');
                    r.push('*');
                    r.push('*');
                    r.push('/');
                    r.push('*');
                    assert(r@ =~= d@ + seq!['/', '*', '*', '/', '*']);
                    r
                }
            },
            None => {
                let mut r = String::new();
                let tail: Vec<char> = vec!['*', '/', '*', '*', '/', '*'];
                push_chars(&mut r, tail.as_slice());
                assert(r@ =~= seq!['*', '/', '*', '*', '/', '*']);
                r
            },
        }
    } else if is_name(t, "grep") || is_name(t, "find_files") {
        let w = first_word_of(iv.as_slice());
        let mut r = string_of(w.as_slice());
        r.push('*');
        assert(r@ =~= first_word_or_star(input@) + seq!['*']);
        r
    } else {
        let mut r = String::new();
        r.push('*');
        assert(r@ =~= seq!['*']);
        r
    }
}

} // verus!
