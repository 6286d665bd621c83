//! Markdown rendered as colored lines that fit the terminal width, and the
//! word wrapping that every wrapped line of the interface goes through.
use vstd::prelude::*;

use crate::filter::views;
use crate::text::{
    chars_of, is_white_space, is_whitespace, push_chars, string_of, trailing_ws,
    trailing_ws_count, trim_end,
};

verus! {

/// The displayed width in columns of a text, as the `unicode-width` crate
/// computes it (`UnicodeWidthStr::width`).
pub uninterp spec fn text_columns(s: Seq<char>) -> usize;

/// The displayed width in columns of a character, or none for a control
/// character, as the `unicode-width` crate computes it
/// (`UnicodeWidthChar::width`).
pub uninterp spec fn char_columns(c: char) -> Option<usize>;

/// `unicode_width::UnicodeWidthStr::width`: the result is `text_columns` of
/// the text; nothing more about it is stated here.
#[verifier::external_body]
pub(crate) fn display_width(s: &str) -> (r: usize)
    ensures
        r == text_columns(s@),
{
    unicode_width::UnicodeWidthStr::width(s)
}

/// `unicode_width::UnicodeWidthChar::width`: the result is `char_columns` of
/// the character; nothing more about it is stated here.
#[verifier::external_body]
fn char_width_of(c: char) -> (r: Option<usize>)
    ensures
        r == char_columns(c),
{
    unicode_width::UnicodeWidthChar::width(c)
}

/// The displayed width of a character, zero for a control character.
pub open spec fn char_cols(c: char) -> int {
    match char_columns(c) {
        Some(w) => w as int,
        None => 0,
    }
}

/// The displayed width of a character, zero for a control character.
pub(crate) fn char_display_width(c: char) -> (r: usize)
    ensures
        r == char_cols(c),
{
    match char_width_of(c) {
        Some(w) => w,
        None => 0,
    }
}

/// Length of the first piece of `s` when it is split after every white-space
/// character (as `str::split_inclusive(char::is_whitespace)`).
pub open spec fn first_piece_len(s: Seq<char>) -> int
    decreases s.len(),
{
    if s.len() == 0 {
        0
    } else if is_white_space(s[0]) {
        1
    } else {
        1 + first_piece_len(s.skip(1))
    }
}

/// A non-empty text has a non-empty first piece.
pub proof fn lemma_first_piece_len(s: Seq<char>)
    ensures
        s.len() > 0 ==> 1 <= first_piece_len(s) <= s.len(),
        s.len() == 0 ==> first_piece_len(s) == 0,
    decreases s.len(),
{
    if s.len() > 0 && !is_white_space(s[0]) {
        lemma_first_piece_len(s.skip(1));
    }
}

/// The pieces of `s` split after every white-space character.
pub open spec fn pieces(s: Seq<char>) -> Seq<Seq<char>>
    decreases s.len(),
{
    if s.len() == 0 {
        Seq::empty()
    } else {
        let k = first_piece_len(s);
        proof {
            lemma_first_piece_len(s);
        }
        seq![s.take(k)] + pieces(s.skip(k))
    }
}

/// The state of word wrapping: the finished lines, the line being filled
/// and its width.
pub struct WrapState {
    pub lines: Seq<Seq<char>>,
    pub line: Seq<char>,
    pub width: int,
}

/// The text ends with a white-space character.
pub open spec fn ends_ws(w: Seq<char>) -> bool {
    w.len() > 0 && is_white_space(w.last())
}

/// Adds the characters `cs` one by one, starting a new line before a
/// character that would make a non-empty line wider than `max`.
pub open spec fn split_chars(st: WrapState, cs: Seq<char>, max: int) -> WrapState
    decreases cs.len(),
{
    if cs.len() == 0 {
        st
    } else {
        let c = cs[0];
        let w = char_cols(c);
        let st1 = if st.width + w > max && st.line.len() > 0 {
            WrapState { lines: st.lines.push(st.line), line: Seq::empty(), width: 0 }
        } else {
            st
        };
        split_chars(WrapState { line: st1.line.push(c), width: st1.width + w, ..st1 }, cs.skip(1), max)
    }
}

/// Adds one piece (a word with the white space after it, or white space
/// alone) to the wrapping state.
pub open spec fn wrap_piece(st: WrapState, word: Seq<char>, max: int) -> WrapState {
    let t = trim_end(word);
    let ww = text_columns(word) as int;
    let tw = text_columns(t) as int;
    if t.len() == 0 {
        if st.width > 0 && st.width < max {
            WrapState { line: st.line.push(' '), width: st.width + 1, ..st }
        } else {
            st
        }
    } else if st.width + ww <= max {
        WrapState { line: st.line + word, width: st.width + ww, ..st }
    } else if st.line.len() > 0 && st.width + 1 + tw <= max {
        let l = st.line.push(' ') + t;
        if ends_ws(word) {
            WrapState { line: l.push(' '), width: st.width + 1 + tw + 1, ..st }
        } else {
            WrapState { line: l, width: st.width + 1 + tw, ..st }
        }
    } else {
        let lines = if st.line.len() > 0 {
            st.lines.push(trim_end(st.line))
        } else {
            st.lines
        };
        let base = WrapState { lines, line: Seq::empty(), width: 0 };
        let st2 = if tw > max {
            split_chars(base, t, max)
        } else {
            WrapState { line: t, width: tw, ..base }
        };
        if ends_ws(word) {
            WrapState { line: st2.line.push(' '), width: st2.width + 1, ..st2 }
        } else {
            st2
        }
    }
}

/// Adds the pieces `ps` in order.
pub open spec fn wrap_pieces(st: WrapState, ps: Seq<Seq<char>>, max: int) -> WrapState
    decreases ps.len(),
{
    if ps.len() == 0 {
        st
    } else {
        wrap_pieces(wrap_piece(st, ps[0], max), ps.skip(1), max)
    }
}

/// The lines `text` wraps into at width `max`: the text itself when it is
/// empty, fits, or `max` is zero; otherwise words are kept together where
/// they fit, lines are cut after white space (which is dropped at line
/// ends), and words wider than a line are split between characters.
pub open spec fn wrapped(text: Seq<char>, max: int) -> Seq<Seq<char>> {
    if text.len() == 0 || max == 0 || text_columns(text) <= max {
        seq![text]
    } else {
        let st = wrap_pieces(WrapState { lines: Seq::empty(), line: Seq::empty(), width: 0 }, pieces(text), max);
        let last = trim_end(st.line);
        let lines = if last.len() > 0 {
            st.lines.push(last)
        } else {
            st.lines
        };
        if lines.len() == 0 {
            seq![text]
        } else {
            lines
        }
    }
}

/// The characters of `v` without trailing white space.
fn trim_end_chars(v: &[char]) -> (r: Vec<char>)
    ensures
        r@ == trim_end(v@),
{
    let n = trailing_ws_count(v);
    proof {
        crate::text::lemma_trailing_ws_bounds(v@);
    }
    crate::edit::slice_take(v, v.len() - n)
}

/// The text of `lines` as views.
pub open spec fn state_of(lines: Seq<String>, line: Seq<char>, width: int) -> WrapState {
    WrapState { lines: views(lines), line, width }
}

/// Adds the characters `cs` one by one (see `split_chars`).
fn split_chars_exec(
    lines: &mut Vec<String>,
    line: &mut Vec<char>,
    width: &mut u128,
    cs: &[char],
    max: usize,
)
    requires
        *old(width) == 0,
        old(line)@.len() == 0,
    ensures
        state_of(final(lines)@, final(line)@, *final(width) as int) == split_chars(
            state_of(old(lines)@, old(line)@, *old(width) as int),
            cs@,
            max as int,
        ),
        *final(width) <= usize::MAX,
        final(line)@.len() == 0 ==> *final(width) == 0,
{
    let mut i: usize = 0;
    assert(cs@.skip(0) =~= cs@);
    while i < cs.len()
        invariant
            i <= cs@.len(),
            *width <= usize::MAX,
            line@.len() == 0 ==> *width == 0,
            split_chars(state_of(old(lines)@, old(line)@, *old(width) as int), cs@, max as int)
                == split_chars(state_of(lines@, line@, *width as int), cs@.skip(i as int), max as int),
        decreases cs@.len() - i,
    {
        let c = cs[i];
        let w = char_display_width(c);
        let ghost st = state_of(lines@, line@, *width as int);
        let ghost rest = cs@.skip(i as int);
        assert(rest[0] == c);
        assert(rest.skip(1) =~= cs@.skip(i + 1));
        if *width + (w as u128) > (max as u128) && line.len() > 0 {
            let ghost before = lines@;
            lines.push(string_of(line.as_slice()));
            assert(views(lines@) =~= views(before).push(st.line));
            *line = Vec::new();
            *width = 0;
        }
        line.push(c);
        *width = *width + (w as u128);
        proof {
            let st1 = if st.width + char_cols(c) > max && st.line.len() > 0 {
                WrapState { lines: st.lines.push(st.line), line: Seq::empty(), width: 0 }
            } else {
                st
            };
            assert(state_of(lines@, line@, *width as int) == WrapState {
                line: st1.line.push(c),
                width: st1.width + char_cols(c),
                ..st1
            });
        }
        i = i + 1;
    }
}

/// Adds one piece (see `wrap_piece`).
fn wrap_piece_exec(
    lines: &mut Vec<String>,
    line: &mut Vec<char>,
    width: &mut u128,
    word: &[char],
    max: usize,
)
    requires
        *old(width) <= usize::MAX + 1,
        old(line)@.len() == 0 ==> *old(width) == 0,
    ensures
        state_of(final(lines)@, final(line)@, *final(width) as int) == wrap_piece(
            state_of(old(lines)@, old(line)@, *old(width) as int),
            word@,
            max as int,
        ),
        *final(width) <= usize::MAX + 1,
        final(line)@.len() == 0 ==> *final(width) == 0,
{
    let ghost st = state_of(lines@, line@, *width as int);
    let t = trim_end_chars(word);
    let ws = string_of(word);
    let ts = string_of(t.as_slice());
    let ww = display_width(ws.as_str()) as u128;
    let tw = display_width(ts.as_str()) as u128;
    let max_w = max as u128;
    let ends = word.len() > 0 && is_whitespace(word[word.len() - 1]);
    proof {
        if word@.len() > 0 {
            assert(word@.last() == word@[word@.len() - 1]);
        }
    }
    if t.len() == 0 {
        if *width > 0 && *width < max_w {
            line.push(' ');
            *width = *width + 1;
        }
    } else if *width + ww <= max_w {
        push_vec(line, word);
        *width = *width + ww;
    } else if line.len() > 0 && *width + 1 + tw <= max_w {
        line.push(' ');
        push_vec(line, t.as_slice());
        *width = *width + 1 + tw;
        if ends {
            line.push(' ');
            *width = *width + 1;
        }
    } else {
        if line.len() > 0 {
            let trimmed = trim_end_chars(line.as_slice());
            let ghost before = lines@;
            lines.push(string_of(trimmed.as_slice()));
            assert(views(lines@) =~= views(before).push(trim_end(st.line)));
        }
        *line = Vec::new();
        *width = 0;
        if tw > max_w {
            split_chars_exec(lines, line, width, t.as_slice(), max);
        } else {
            push_vec(line, t.as_slice());
            *width = tw;
            assert(line@ =~= t@);
        }
        if ends {
            line.push(' ');
            *width = *width + 1;
        }
    }
}

/// Appends the characters of `v` to `line`.
fn push_vec(line: &mut Vec<char>, v: &[char])
    ensures
        final(line)@ == old(line)@ + v@,
{
    let mut i: usize = 0;
    while i < v.len()
        invariant
            i <= v@.len(),
            line@ == old(line)@ + v@.take(i as int),
        decreases v@.len() - i,
    {
        line.push(v[i]);
        assert(v@.take(i + 1) =~= v@.take(i as int).push(v@[i as int]));
        i = i + 1;
    }
    assert(v@.take(v@.len() as int) =~= v@);
}

/// Length of the first piece of `v` from index `start` on.
fn first_piece_len_at(v: &[char], start: usize) -> (k: usize)
    requires
        start <= v@.len(),
    ensures
        k == first_piece_len(v@.skip(start as int)),
{
    let mut j: usize = start;
    while j < v.len()
        invariant
            start <= j <= v@.len(),
            first_piece_len(v@.skip(start as int)) == (j - start) + first_piece_len(
                v@.skip(j as int),
            ),
        decreases v@.len() - j,
    {
        assert(v@.skip(j as int)[0] == v@[j as int]);
        if is_whitespace(v[j]) {
            return j - start + 1;
        }
        assert(v@.skip(j as int).skip(1) =~= v@.skip(j + 1));
        j = j + 1;
    }
    j - start
}

/// Wraps `text` into lines at most `max_width` columns wide (see
/// `wrapped`).
pub fn word_wrap(text: &str, max_width: usize) -> (r: Vec<String>)
    ensures
        views(r@) == wrapped(text@, max_width as int),
{
    let v = chars_of(text);
    if v.len() == 0 || max_width == 0 || display_width(text) <= max_width {
        let mut r: Vec<String> = Vec::new();
        r.push(string_of(v.as_slice()));
        assert(views(r@) =~= seq![text@]);
        return r;
    }
    let mut lines: Vec<String> = Vec::new();
    let mut line: Vec<char> = Vec::new();
    let mut width: u128 = 0;
    let mut i: usize = 0;
    let ghost init = WrapState { lines: Seq::empty(), line: Seq::empty(), width: 0 };
    assert(v@.skip(0) =~= v@);
    assert(views(lines@) =~= Seq::<Seq<char>>::empty());
    assert(line@ =~= Seq::<char>::empty());
    assert(state_of(lines@, line@, 0) == init);
    while i < v.len()
        invariant
            i <= v@.len(),
            v@ == text@,
            width <= usize::MAX + 1,
            line@.len() == 0 ==> width == 0,
            wrap_pieces(init, pieces(v@), max_width as int) == wrap_pieces(
                state_of(lines@, line@, width as int),
                pieces(v@.skip(i as int)),
                max_width as int,
            ),
        decreases v@.len() - i,
    {
        let k = first_piece_len_at(v.as_slice(), i);
        proof {
            lemma_first_piece_len(v@.skip(i as int));
        }
        let word = crate::edit::slice_range(v.as_slice(), i, i + k);
        proof {
            let rest = v@.skip(i as int);
            assert(rest.take(k as int) =~= word@);
            assert(rest.skip(k as int) =~= v@.skip(i + k));
            let ps = pieces(rest);
            assert(ps[0] == word@);
            assert(ps.skip(1) =~= pieces(v@.skip(i + k)));
        }
        wrap_piece_exec(&mut lines, &mut line, &mut width, word.as_slice(), max_width);
        i = i + k;
    }
    assert(pieces(v@.skip(i as int)).len() == 0);
    let last = trim_end_chars(line.as_slice());
    if last.len() > 0 {
        let ghost before = lines@;
        lines.push(string_of(last.as_slice()));
        assert(views(lines@) =~= views(before).push(last@));
    }
    if lines.len() == 0 {
        lines.push(string_of(v.as_slice()));
        assert(views(lines@) =~= seq![text@]);
    }
    lines
}

} // verus!
