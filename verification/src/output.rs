//! Writing text into the chat view.
//!
//! A write changes the chat buffer (the lines kept for redrawing and
//! scrolling, and the line still being written) and, while the view is at
//! the bottom, shows the text at once. The changes to the buffer are made
//! here; the terminal operations that show the text are returned, in order,
//! for the caller to perform.
use vstd::prelude::*;

use crate::color::Color;
use crate::markdown::{word_wrap, wrapped};
use crate::filter::views;
use crate::renderer::{chunk_end, chunk_end_of, last_space_before, min2, sat_sub, Renderer};
use crate::styled::{char_views, split_lines, split_newlines};
use crate::table::{entries_view, LineEntry};
use crate::text::{chars_of, push_chars, string_of};
use crate::edit::slice_range;

verus! {

/// A terminal operation that shows written text.
#[derive(Debug, PartialEq, Eq)]
pub enum DrawOp {
    /// Scroll the terminal up one row and blank rows `row - 1` and `row`.
    MakeRoom { row: u16 },
    /// Clear row `row` and show `text` from its start, then go to the next
    /// row.
    Line { row: u16, text: String, color: Color },
    /// Show `text` from column `col` of row `row`.
    Piece { col: u16, row: u16, text: String, color: Color },
    /// Show `text` (nothing when empty) from column `col` of row `row`, then
    /// go to the next row.
    Break { col: u16, row: u16, text: String, color: Color },
}

/// A terminal operation with its text as characters.
pub enum OpView {
    MakeRoom(u16),
    Line(u16, Seq<char>, Color),
    Piece(u16, u16, Seq<char>, Color),
    Break(u16, u16, Seq<char>, Color),
}

/// The operation `op` with its text as characters.
pub open spec fn op_view(op: DrawOp) -> OpView {
    match op {
        DrawOp::MakeRoom { row } => OpView::MakeRoom(row),
        DrawOp::Line { row, text, color } => OpView::Line(row, text@, color),
        DrawOp::Piece { col, row, text, color } => OpView::Piece(col, row, text@, color),
        DrawOp::Break { col, row, text, color } => OpView::Break(col, row, text@, color),
    }
}

/// A run of operations with their texts as characters.
pub open spec fn ops_view(ops: Seq<DrawOp>) -> Seq<OpView> {
    ops.map_values(|o: DrawOp| op_view(o))
}

/// What a write changes: the buffer's lines, the line still being written
/// and its color, the count of rows drawn and the column of the next
/// character.
pub struct ChatState {
    pub lines_view: Seq<(Seq<char>, Color)>,
    pub partial: Seq<char>,
    pub partial_color: Color,
    pub lines: u16,
    pub col: u16,
}

/// The parts of the chat view that a write changes.
pub open spec fn chat_of(r: Renderer) -> ChatState {
    ChatState {
        lines_view: r.lines_view(),
        partial: r.partial@,
        partial_color: r.partial_color,
        lines: r.lines,
        col: r.col,
    }
}

/// `st` with the line still being written moved into the buffer, wrapped
/// to `w` columns.
pub open spec fn committed(st: ChatState, w: int) -> ChatState {
    if st.partial.len() > 0 {
        ChatState {
            lines_view: st.lines_view + wrapped(st.partial, w).map_values(
                |t: Seq<char>| (t, st.partial_color),
            ),
            partial: Seq::empty(),
            ..st
        }
    } else {
        st
    }
}

/// `l + 1`, kept at the largest 16-bit value.
pub open spec fn bumped(l: u16) -> u16 {
    if l < u16::MAX {
        (l + 1) as u16
    } else {
        l
    }
}

/// The view is full: a new row needs the terminal scrolled up first.
pub open spec fn room_needed(lines: u16, rows: u16) -> bool {
    rows >= 3 && lines >= rows - 2
}

/// `st` after making room for a new row on a terminal of `rows` rows.
pub open spec fn after_room(st: ChatState, rows: u16) -> ChatState {
    if room_needed(st.lines, rows) {
        ChatState { lines: sat_sub(st.lines as int, 1) as u16, ..st }
    } else {
        st
    }
}

/// The operations that make room for a new row.
pub open spec fn room_ops(st: ChatState, rows: u16) -> Seq<OpView> {
    if room_needed(st.lines, rows) {
        seq![OpView::MakeRoom((rows - 2) as u16)]
    } else {
        Seq::empty()
    }
}

/// The row that output goes to.
pub open spec fn out_row(st: ChatState, rows: u16) -> u16 {
    min2(st.lines as int, sat_sub(rows as int, 3)) as u16
}

/// `st` at the start of the next row.
pub open spec fn next_line(st: ChatState) -> ChatState {
    ChatState { lines: bumped(st.lines), col: 0, ..st }
}

/// Appends whole lines of one color; while the view is at the bottom
/// (`scrolled` false) each is shown on a row of its own.
pub open spec fn put_lines(
    st: ChatState,
    chunks: Seq<Seq<char>>,
    color: Color,
    rows: u16,
    scrolled: bool,
) -> (ChatState, Seq<OpView>)
    decreases chunks.len(),
{
    if chunks.len() == 0 {
        (st, Seq::empty())
    } else {
        let c = chunks[0];
        let st1 = ChatState { lines_view: st.lines_view.push((c, color)), ..st };
        let (st2, ops) = if scrolled {
            (st1, Seq::<OpView>::empty())
        } else {
            let sr = after_room(st1, rows);
            (next_line(sr), room_ops(st1, rows).push(OpView::Line(out_row(sr, rows), c, color)))
        };
        let rest = put_lines(st2, chunks.drop_first(), color, rows, scrolled);
        (rest.0, ops + rest.1)
    }
}

/// Appends the wrapped lines of each part in turn.
pub open spec fn put_parts(
    st: ChatState,
    parts: Seq<Seq<char>>,
    color: Color,
    w: int,
    rows: u16,
    scrolled: bool,
) -> (ChatState, Seq<OpView>)
    decreases parts.len(),
{
    if parts.len() == 0 {
        (st, Seq::empty())
    } else {
        let a = put_lines(st, wrapped(parts[0], w), color, rows, scrolled);
        let b = put_parts(a.0, parts.drop_first(), color, w, rows, scrolled);
        (b.0, a.1 + b.1)
    }
}

/// `write_line` of `text` on a terminal of `cols` by `rows`: the line
/// being written is committed, then each line of `text` is appended,
/// wrapped to the width less one column.
pub open spec fn line_written(
    st: ChatState,
    text: Seq<char>,
    color: Color,
    cols: u16,
    rows: u16,
    scrolled: bool,
) -> (ChatState, Seq<OpView>) {
    let w = sat_sub(cols as int, 1);
    put_parts(committed(st, w), split_lines(text), color, w, rows, scrolled)
}

/// `a + n`, kept at the largest 16-bit value.
pub open spec fn sat_add16(a: u16, n: int) -> u16 {
    if a + n <= u16::MAX {
        (a + n) as u16
    } else {
        u16::MAX
    }
}

/// A line break met by `write`: the line being written is committed, and
/// the text before the break becomes a line of its own (an empty line when
/// there is no text and nothing was committed); at the bottom of the view
/// the text is shown from the current column and the output moves to the
/// next row.
pub open spec fn break_part(
    st: ChatState,
    seg: Seq<char>,
    color: Color,
    w: int,
    rows: u16,
    scrolled: bool,
) -> (ChatState, Seq<OpView>) {
    let st1 = committed(st, w);
    let st2 = if seg.len() > 0 {
        committed(ChatState { partial: seg, partial_color: color, ..st1 }, w)
    } else if st1.lines_view.len() == st.lines_view.len() {
        ChatState { lines_view: st1.lines_view.push((Seq::empty(), color)), ..st1 }
    } else {
        st1
    };
    if scrolled {
        (st2, Seq::empty())
    } else {
        let sr = after_room(st2, rows);
        (next_line(sr), room_ops(st2, rows).push(OpView::Break(sr.col, out_row(sr, rows), seg, color)))
    }
}

/// The line breaks of a write, in turn.
pub open spec fn break_parts(
    st: ChatState,
    segs: Seq<Seq<char>>,
    color: Color,
    w: int,
    rows: u16,
    scrolled: bool,
) -> (ChatState, Seq<OpView>)
    decreases segs.len(),
{
    if segs.len() == 0 {
        (st, Seq::empty())
    } else {
        let a = break_part(st, segs[0], color, w, rows, scrolled);
        let b = break_parts(a.0, segs.drop_first(), color, w, rows, scrolled);
        (b.0, a.1 + b.1)
    }
}

/// The text after the last line break of a write, from index `idx` on: it
/// goes to the line being written in pieces that fit the rest of the row
/// (see `chunk_end_of`), a full row moving on to the next; at the bottom of
/// the view each piece is shown where the output stands. (A full row while
/// scrolled back would never end; `write` rules that case out.)
pub open spec fn stream(
    st: ChatState,
    seg: Seq<char>,
    idx: int,
    color: Color,
    w: int,
    rows: u16,
    scrolled: bool,
) -> (ChatState, Seq<OpView>)
    decreases seg.len() - idx, (if sat_sub(w, st.col as int) == 0 {
        1int
    } else {
        0int
    }),
{
    if idx < 0 || idx >= seg.len() || w <= 0 {
        (st, Seq::empty())
    } else {
        let avail = sat_sub(w, st.col as int);
        if avail == 0 {
            if scrolled {
                (st, Seq::empty())
            } else {
                stream(next_line(committed(st, w)), seg, idx, color, w, rows, scrolled)
            }
        } else {
            let end = chunk_end_of(seg, idx, avail);
            proof {
                lemma_chunk_end_bounds(seg, idx, avail);
            }
            let chunk = seg.subrange(idx, end);
            let st1 = ChatState { partial: st.partial + chunk, partial_color: color, ..st };
            let (st2, ops) = if scrolled {
                (st1, Seq::<OpView>::empty())
            } else {
                let sr = after_room(st1, rows);
                (
                    ChatState { col: sat_add16(sr.col, chunk.len() as int), ..sr },
                    room_ops(st1, rows).push(OpView::Piece(sr.col, out_row(sr, rows), chunk, color)),
                )
            };
            let st3 = if end < seg.len() {
                let c = committed(st2, w);
                if scrolled {
                    c
                } else {
                    next_line(c)
                }
            } else {
                st2
            };
            let rest = stream(st3, seg, end, color, w, rows, scrolled);
            (rest.0, ops + rest.1)
        }
    }
}

/// `write` of `text` on a terminal of `cols` by `rows`: nothing for empty
/// text or a terminal one column wide; else each line break in turn (see
/// `break_part`), then the text after the last one (see `stream`).
pub open spec fn text_written(
    st: ChatState,
    text: Seq<char>,
    color: Color,
    cols: u16,
    rows: u16,
    scrolled: bool,
) -> (ChatState, Seq<OpView>) {
    let w = sat_sub(cols as int, 1);
    if text.len() == 0 || w == 0 {
        (st, Seq::empty())
    } else {
        let parts = split_lines(text);
        let a = break_parts(st, parts.drop_last(), color, w, rows, scrolled);
        let b = stream(a.0, parts.last(), 0, color, w, rows, scrolled);
        (b.0, a.1 + b.1)
    }
}

/// `last_space_before` finds nothing or an index in `idx .. end`.
pub proof fn lemma_last_space_bounds(chars: Seq<char>, idx: int, end: int)
    ensures
        last_space_before(chars, idx, end) == -1 || idx <= last_space_before(chars, idx, end) < end,
    decreases end - idx,
{
    if end > idx && chars[end - 1] != ' ' {
        lemma_last_space_bounds(chars, idx, end - 1);
    }
}

/// A piece of a write is never empty and never longer than the room left.
pub proof fn lemma_chunk_end_bounds(chars: Seq<char>, idx: int, avail: int)
    requires
        0 <= idx < chars.len(),
        avail > 0,
    ensures
        idx < chunk_end_of(chars, idx, avail) <= chars.len(),
        chunk_end_of(chars, idx, avail) <= idx + avail,
{
    let end = min2(idx + avail, chars.len() as int);
    lemma_last_space_bounds(chars, idx, end);
}

/// Splitting text at line breaks gives at least one part.
pub proof fn lemma_split_lines_nonempty(s: Seq<char>)
    ensures
        split_lines(s).len() >= 1,
{
    crate::edit::lemma_first_index(s, '\n');
}

/// The text that a run of operations puts on the screen, in order: each
/// piece as it is, each line and each line break followed by a newline.
pub open spec fn shown(ops: Seq<OpView>) -> Seq<char>
    decreases ops.len(),
{
    if ops.len() == 0 {
        Seq::empty()
    } else {
        let t = match ops[0] {
            OpView::Piece(_, _, t, _) => t,
            OpView::Break(_, _, t, _) => t.push('\n'),
            OpView::Line(_, t, _) => t.push('\n'),
            OpView::MakeRoom(_) => Seq::empty(),
        };
        t + shown(ops.drop_first())
    }
}

/// Texts each followed by a newline.
pub open spec fn with_newlines(segs: Seq<Seq<char>>) -> Seq<char>
    decreases segs.len(),
{
    if segs.len() == 0 {
        Seq::empty()
    } else {
        segs[0].push('\n') + with_newlines(segs.drop_first())
    }
}

/// What two runs of operations show is what each shows, in turn.
pub proof fn lemma_shown_concat(a: Seq<OpView>, b: Seq<OpView>)
    ensures
        shown(a + b) == shown(a) + shown(b),
    decreases a.len(),
{
    if a.len() == 0 {
        assert(a + b =~= b);
    } else {
        lemma_shown_concat(a.drop_first(), b);
        assert((a + b).drop_first() =~= a.drop_first() + b);
        assert((a + b)[0] == a[0]);
    }
}

/// Making room shows nothing.
pub proof fn lemma_room_shows_nothing(st: ChatState, rows: u16)
    ensures
        shown(room_ops(st, rows)) == Seq::<char>::empty(),
{
    let e = Seq::<OpView>::empty();
    assert(shown(e) == Seq::<char>::empty());
    if room_needed(st.lines, rows) {
        let ops = room_ops(st, rows);
        assert(ops.drop_first() =~= e);
        assert(shown(ops) =~= Seq::<char>::empty() + shown(e));
    }
}

/// One more operation at the end shows its text after the rest.
pub proof fn lemma_shown_push(a: Seq<OpView>, op: OpView)
    ensures
        shown(a.push(op)) == shown(a) + shown(seq![op]),
{
    assert(a.push(op) =~= a + seq![op]);
    lemma_shown_concat(a, seq![op]);
}

/// At the bottom of the view, the text after the last line break is shown
/// in full and in order, from index `idx` on.
pub proof fn lemma_stream_shows(
    st: ChatState,
    seg: Seq<char>,
    idx: int,
    color: Color,
    w: int,
    rows: u16,
)
    requires
        w > 0,
        0 <= idx <= seg.len(),
    ensures
        shown(stream(st, seg, idx, color, w, rows, false).1) == seg.skip(idx),
    decreases seg.len() - idx, (if sat_sub(w, st.col as int) == 0 {
        1int
    } else {
        0int
    }),
{
    if idx >= seg.len() {
        assert(seg.skip(idx) =~= Seq::<char>::empty());
    } else {
        let avail = sat_sub(w, st.col as int);
        if avail == 0 {
            lemma_stream_shows(next_line(committed(st, w)), seg, idx, color, w, rows);
        } else {
            let end = chunk_end_of(seg, idx, avail);
            lemma_chunk_end_bounds(seg, idx, avail);
            let chunk = seg.subrange(idx, end);
            let st1 = ChatState { partial: st.partial + chunk, partial_color: color, ..st };
            let sr = after_room(st1, rows);
            let st2 = ChatState { col: sat_add16(sr.col, chunk.len() as int), ..sr };
            let st3 = if end < seg.len() {
                next_line(committed(st2, w))
            } else {
                st2
            };
            let piece = OpView::Piece(sr.col, out_row(sr, rows), chunk, color);
            let ops = room_ops(st1, rows).push(piece);
            lemma_stream_shows(st3, seg, end, color, w, rows);
            let rest = stream(st3, seg, end, color, w, rows, false);
            lemma_shown_concat(ops, rest.1);
            lemma_shown_push(room_ops(st1, rows), piece);
            lemma_room_shows_nothing(st1, rows);
            assert(shown(seq![piece]) =~= chunk) by {
                let e = Seq::<OpView>::empty();
                assert(shown(e) == Seq::<char>::empty());
                assert(seq![piece].drop_first() =~= e);
                assert(shown(seq![piece]) == chunk + shown(e));
            }
            assert(seg.skip(idx) =~= chunk + seg.skip(end));
        }
    }
}

/// At the bottom of the view, each line break of a write shows the text
/// before it and a newline.
pub proof fn lemma_breaks_show(
    st: ChatState,
    segs: Seq<Seq<char>>,
    color: Color,
    w: int,
    rows: u16,
)
    ensures
        shown(break_parts(st, segs, color, w, rows, false).1) == with_newlines(segs),
    decreases segs.len(),
{
    if segs.len() > 0 {
        let a = break_part(st, segs[0], color, w, rows, false);
        lemma_breaks_show(a.0, segs.drop_first(), color, w, rows);
        let b = break_parts(a.0, segs.drop_first(), color, w, rows, false);
        lemma_shown_concat(a.1, b.1);
        let st1 = committed(st, w);
        let st2 = if segs[0].len() > 0 {
            committed(ChatState { partial: segs[0], partial_color: color, ..st1 }, w)
        } else if st1.lines_view.len() == st.lines_view.len() {
            ChatState { lines_view: st1.lines_view.push((Seq::empty(), color)), ..st1 }
        } else {
            st1
        };
        let sr = after_room(st2, rows);
        let brk = OpView::Break(sr.col, out_row(sr, rows), segs[0], color);
        lemma_shown_push(room_ops(st2, rows), brk);
        lemma_room_shows_nothing(st2, rows);
        assert(shown(seq![brk]) =~= segs[0].push('\n')) by {
            let e = Seq::<OpView>::empty();
            assert(shown(e) == Seq::<char>::empty());
            assert(seq![brk].drop_first() =~= e);
            assert(shown(seq![brk]) == segs[0].push('\n') + shown(e));
        }
    }
}

/// Joining the parts of a text split at its line breaks gives the text
/// back.
pub proof fn lemma_split_lines_rejoin(s: Seq<char>)
    ensures
        split_lines(s).len() >= 1,
        with_newlines(split_lines(s).drop_last()) + split_lines(s).last() == s,
    decreases s.len(),
{
    let k = crate::edit::first_index(s, '\n');
    crate::edit::lemma_first_index(s, '\n');
    if k < 0 {
        assert(split_lines(s).drop_last() =~= Seq::<Seq<char>>::empty());
        assert(Seq::<char>::empty() + s =~= s);
    } else {
        let rest = split_lines(s.skip(k + 1));
        lemma_split_lines_rejoin(s.skip(k + 1));
        let all = split_lines(s);
        assert(all == seq![s.take(k)] + rest);
        assert(all.drop_last() =~= seq![s.take(k)] + rest.drop_last());
        assert((seq![s.take(k)] + rest.drop_last()).drop_first() =~= rest.drop_last());
        assert(all.last() == rest.last());
        assert(with_newlines(all.drop_last()) == s.take(k).push('\n') + with_newlines(rest.drop_last()));
        assert(s =~= s.take(k).push('\n') + s.skip(k + 1));
        assert(s.take(k).push('\n') + with_newlines(rest.drop_last()) + rest.last() =~= s.take(k).push(
            '\n',
        ) + (with_newlines(rest.drop_last()) + rest.last()));
    }
}

/// At the bottom of the view, a write shows exactly the text written (the
/// terminal being at least two columns wide): every line break in its
/// place, and the text after the last one in pieces that add up to it.
pub proof fn law_write_shows_text(st: ChatState, text: Seq<char>, color: Color, cols: u16, rows: u16)
    requires
        cols > 1,
    ensures
        shown(text_written(st, text, color, cols, rows, false).1) == text,
{
    let w = sat_sub(cols as int, 1);
    if text.len() > 0 {
        let parts = split_lines(text);
        lemma_split_lines_rejoin(text);
        let a = break_parts(st, parts.drop_last(), color, w, rows, false);
        lemma_breaks_show(st, parts.drop_last(), color, w, rows);
        lemma_stream_shows(a.0, parts.last(), 0, color, w, rows);
        let b = stream(a.0, parts.last(), 0, color, w, rows, false);
        lemma_shown_concat(a.1, b.1);
        assert(parts.last().skip(0) =~= parts.last());
    } else {
        assert(text =~= Seq::<char>::empty());
    }
}

/// The texts of buffer lines.
pub open spec fn texts_of(ls: Seq<(Seq<char>, Color)>) -> Seq<Seq<char>> {
    ls.map_values(|p: (Seq<char>, Color)| p.0)
}

/// Texts with newlines, taken in two runs, are the two runs in turn.
pub proof fn lemma_with_newlines_concat(a: Seq<Seq<char>>, b: Seq<Seq<char>>)
    ensures
        with_newlines(a + b) == with_newlines(a) + with_newlines(b),
    decreases a.len(),
{
    if a.len() == 0 {
        assert(a + b =~= b);
    } else {
        lemma_with_newlines_concat(a.drop_first(), b);
        assert((a + b).drop_first() =~= a.drop_first() + b);
        assert((a + b)[0] == a[0]);
    }
}

/// At the bottom of the view, appending whole lines adds them to the
/// buffer and shows each on a row of its own.
pub proof fn lemma_put_lines_shows(st: ChatState, chunks: Seq<Seq<char>>, color: Color, rows: u16)
    ensures
        put_lines(st, chunks, color, rows, false).0.lines_view == st.lines_view + chunks.map_values(
            |c: Seq<char>| (c, color),
        ),
        shown(put_lines(st, chunks, color, rows, false).1) == with_newlines(chunks),
    decreases chunks.len(),
{
    if chunks.len() == 0 {
        assert(st.lines_view + chunks.map_values(|c: Seq<char>| (c, color)) =~= st.lines_view);
    } else {
        let c = chunks[0];
        let st1 = ChatState { lines_view: st.lines_view.push((c, color)), ..st };
        let sr = after_room(st1, rows);
        let line = OpView::Line(out_row(sr, rows), c, color);
        let ops = room_ops(st1, rows).push(line);
        lemma_put_lines_shows(next_line(sr), chunks.drop_first(), color, rows);
        let rest = put_lines(next_line(sr), chunks.drop_first(), color, rows, false);
        lemma_shown_concat(ops, rest.1);
        lemma_shown_push(room_ops(st1, rows), line);
        lemma_room_shows_nothing(st1, rows);
        assert(shown(seq![line]) =~= c.push('\n')) by {
            let e = Seq::<OpView>::empty();
            assert(shown(e) == Seq::<char>::empty());
            assert(seq![line].drop_first() =~= e);
            assert(shown(seq![line]) == c.push('\n') + shown(e));
        }
        assert(st.lines_view + chunks.map_values(|c: Seq<char>| (c, color)) =~= st1.lines_view
            + chunks.drop_first().map_values(|c: Seq<char>| (c, color)));
    }
}

/// At the bottom of the view, appending the lines of several parts shows
/// exactly the lines added to the buffer.
pub proof fn lemma_put_parts_shows(st: ChatState, parts: Seq<Seq<char>>, color: Color, w: int, rows: u16)
    ensures
        ({
            let r = put_parts(st, parts, color, w, rows, false);
            &&& st.lines_view.len() <= r.0.lines_view.len()
            &&& r.0.lines_view.take(st.lines_view.len() as int) == st.lines_view
            &&& shown(r.1) == with_newlines(texts_of(r.0.lines_view.skip(st.lines_view.len() as int)))
        }),
    decreases parts.len(),
{
    let r = put_parts(st, parts, color, w, rows, false);
    let n = st.lines_view.len() as int;
    if parts.len() == 0 {
        assert(r.0.lines_view.skip(n) =~= Seq::<(Seq<char>, Color)>::empty());
        assert(texts_of(r.0.lines_view.skip(n)) =~= Seq::<Seq<char>>::empty());
        assert(r.0.lines_view.take(n) =~= st.lines_view);
    } else {
        let chunks = wrapped(parts[0], w);
        let a = put_lines(st, chunks, color, rows, false);
        lemma_put_lines_shows(st, chunks, color, rows);
        lemma_put_parts_shows(a.0, parts.drop_first(), color, w, rows);
        let b = put_parts(a.0, parts.drop_first(), color, w, rows, false);
        lemma_shown_concat(a.1, b.1);
        let m = a.0.lines_view.len() as int;
        let added = chunks.map_values(|c: Seq<char>| (c, color));
        assert(texts_of(added) =~= chunks);
        assert(b.0.lines_view.take(n) =~= st.lines_view) by {
            assert(b.0.lines_view.take(m).take(n) =~= b.0.lines_view.take(n));
        }
        assert(b.0.lines_view.skip(n) =~= added + b.0.lines_view.skip(m)) by {
            let bl = b.0.lines_view;
            assert(bl.take(m) == a.0.lines_view);
            assert(a.0.lines_view == st.lines_view + added);
            assert(bl =~= bl.take(m) + bl.skip(m));
            assert(bl =~= st.lines_view + added + bl.skip(m));
            assert forall|i: int| 0 <= i < bl.len() - n implies #[trigger] bl.skip(n)[i] == (added
                + bl.skip(m))[i] by {
                assert(bl.skip(n)[i] == bl[n + i]);
                if i < added.len() {
                    assert(bl[n + i] == (st.lines_view + added + bl.skip(m))[n + i]);
                } else {
                    assert(bl[n + i] == bl.skip(m)[n + i - m]);
                }
            }
        }
        assert(texts_of(b.0.lines_view.skip(n)) =~= texts_of(added) + texts_of(b.0.lines_view.skip(m)));
        lemma_with_newlines_concat(texts_of(added), texts_of(b.0.lines_view.skip(m)));
    }
}

/// At the bottom of the view, `write_line` shows exactly the lines it adds
/// to the buffer after committing the line being written, each on a row of
/// its own, and keeps the lines before them.
pub proof fn law_write_line_shows_added_lines(
    st: ChatState,
    text: Seq<char>,
    color: Color,
    cols: u16,
    rows: u16,
)
    ensures
        ({
            let c = committed(st, sat_sub(cols as int, 1));
            let r = line_written(st, text, color, cols, rows, false);
            &&& c.lines_view.len() <= r.0.lines_view.len()
            &&& r.0.lines_view.take(c.lines_view.len() as int) == c.lines_view
            &&& shown(r.1) == with_newlines(texts_of(r.0.lines_view.skip(c.lines_view.len() as int)))
        }),
{
    let w = sat_sub(cols as int, 1);
    lemma_put_parts_shows(committed(st, w), split_lines(text), color, w, rows);
}

impl Renderer {
    /// Makes room for a new row (see `ensure_room`), recording the
    /// operation.
    fn room_for_row(&mut self, rows: u16, ops: &mut Vec<DrawOp>)
        requires
            old(self).scroll_offset == 0,
        ensures
            chat_of(*final(self)) == after_room(chat_of(*old(self)), rows),
            ops_view(final(ops)@) == ops_view(old(ops)@) + room_ops(chat_of(*old(self)), rows),
            *final(self) == (Renderer { lines: final(self).lines, ..*old(self) }),
    {
        let ghost ops0 = ops@;
        if self.ensure_room(rows) {
            ops.push(DrawOp::MakeRoom { row: rows - 2 });
            assert(ops_view(ops@) =~= ops_view(ops0).push(OpView::MakeRoom((rows - 2) as u16)));
        } else {
            assert(ops_view(ops@) =~= ops_view(ops0) + Seq::<OpView>::empty());
        }
    }

    /// Appends the lines `chunks` in one color, showing each while the view
    /// is at the bottom (see `put_lines`).
    fn put_chunks(&mut self, chunks: &Vec<String>, color: Color, rows: u16, ops: &mut Vec<DrawOp>)
        ensures
            ({
                let res = put_lines(
                    chat_of(*old(self)),
                    views(chunks@),
                    color,
                    rows,
                    old(self).scroll_offset > 0,
                );
                &&& chat_of(*final(self)) == res.0
                &&& ops_view(final(ops)@) == ops_view(old(ops)@) + res.1
            }),
            *final(self) == (Renderer {
                buffer: final(self).buffer,
                lines: final(self).lines,
                col: final(self).col,
                ..*old(self)
            }),
    {
        let ghost s0 = *self;
        let ghost ops0 = ops@;
        let ghost cv = views(chunks@);
        let ghost scrolled = self.scroll_offset > 0;
        let ghost total = put_lines(chat_of(s0), cv, color, rows, scrolled);
        let ghost mut acc: Seq<OpView> = Seq::empty();
        let mut j: usize = 0;
        assert(cv.skip(0) =~= cv);
        assert(ops_view(ops@) =~= ops_view(ops0) + acc);
        while j < chunks.len()
            invariant
                j <= chunks@.len(),
                cv == views(chunks@),
                scrolled == (s0.scroll_offset > 0),
                *self == (Renderer { buffer: self.buffer, lines: self.lines, col: self.col, ..s0 }),
                ops_view(ops@) == ops_view(ops0) + acc,
                total.0 == put_lines(chat_of(*self), cv.skip(j as int), color, rows, scrolled).0,
                total.1 == acc + put_lines(chat_of(*self), cv.skip(j as int), color, rows, scrolled).1,
            decreases chunks@.len() - j,
        {
            let ghost before = chat_of(*self);
            let ghost ops_b = ops@;
            let ghost rest = cv.skip(j as int);
            let c = string_of(chars_of(chunks[j].as_str()).as_slice());
            proof {
                assert(rest[0] == chunks@[j as int]@);
                assert(rest.drop_first() =~= cv.skip(j + 1));
            }
            let ghost c_view = c@;
            let ghost lv0 = self.lines_view();
            self.buffer.push(LineEntry { text: c, color });
            assert(self.lines_view() =~= lv0.push((c_view, color)));
            let ghost st1 = chat_of(*self);
            let ghost mut d: Seq<OpView> = Seq::empty();
            if self.scroll_offset == 0 {
                self.room_for_row(rows, ops);
                let row = self.content_row(rows);
                let ghost sr = chat_of(*self);
                let t = string_of(chars_of(chunks[j].as_str()).as_slice());
                let ghost ops_m = ops@;
                assert(row == out_row(sr, rows));
                ops.push(DrawOp::Line { row, text: t, color });
                assert(ops_view(ops@) =~= ops_view(ops_m).push(OpView::Line(row, c_view, color)));
                self.line_drawn();
                proof {
                    d = room_ops(st1, rows).push(OpView::Line(out_row(sr, rows), c_view, color));
                    assert(ops_view(ops@) =~= ops_view(ops_b) + d);
                }
            } else {
                assert(ops_view(ops@) =~= ops_view(ops_b) + d);
            }
            proof {
                assert(put_lines(before, rest, color, rows, scrolled).1 =~= d + put_lines(
                    chat_of(*self),
                    cv.skip(j + 1),
                    color,
                    rows,
                    scrolled,
                ).1);
                assert(ops_view(ops@) =~= ops_view(ops0) + (acc + d));
                assert(acc + (d + put_lines(chat_of(*self), cv.skip(j + 1), color, rows, scrolled).1)
                    =~= (acc + d) + put_lines(chat_of(*self), cv.skip(j + 1), color, rows, scrolled).1);
                acc = acc + d;
            }
            j = j + 1;
        }
        proof {
            assert(cv.skip(j as int).len() == 0);
            assert(acc + Seq::<OpView>::empty() =~= acc);
        }
    }

    /// Writes whole lines (see `line_written`): the line being written is
    /// committed, then each line of `text`, wrapped to the terminal of
    /// `cols` by `rows`, is added to the buffer and, at the bottom of the
    /// view, shown; the operations that show them are returned.
    pub fn write_line(&mut self, text: &str, color: Color, cols: u16, rows: u16) -> (ops: Vec<DrawOp>)
        ensures
            ({
                let res = line_written(
                    chat_of(*old(self)),
                    text@,
                    color,
                    cols,
                    rows,
                    old(self).scroll_offset > 0,
                );
                &&& chat_of(*final(self)) == res.0
                &&& ops_view(ops@) == res.1
            }),
            *final(self) == (Renderer {
                buffer: final(self).buffer,
                partial: final(self).partial,
                lines: final(self).lines,
                col: final(self).col,
                ..*old(self)
            }),
    {
        let w = self.line_width(cols);
        let ghost st0 = chat_of(*self);
        let ghost scrolled = self.scroll_offset > 0;
        self.commit_partial(w);
        proof {
            if st0.partial.len() == 0 {
                assert(chat_of(*self).lines_view =~= st0.lines_view);
                assert(chat_of(*self).partial =~= st0.partial);
            } else {
                assert(chat_of(*self).lines_view =~= committed(st0, w as int).lines_view);
                assert(chat_of(*self).partial =~= Seq::<char>::empty());
            }
            assert(chat_of(*self) == committed(st0, w as int));
        }
        let ghost s1 = *self;
        let v = chars_of(text);
        let parts = split_newlines(v.as_slice());
        let ghost pv = char_views(parts@);
        let ghost total = put_parts(chat_of(s1), pv, color, w as int, rows, scrolled);
        let mut ops: Vec<DrawOp> = Vec::new();
        let ghost mut acc: Seq<OpView> = Seq::empty();
        let mut i: usize = 0;
        assert(pv.skip(0) =~= pv);
        assert(ops_view(ops@) =~= acc);
        while i < parts.len()
            invariant
                i <= parts@.len(),
                pv == char_views(parts@),
                scrolled == (s1.scroll_offset > 0),
                w == sat_sub(cols as int, 1),
                *self == (Renderer { buffer: self.buffer, lines: self.lines, col: self.col, ..s1 }),
                ops_view(ops@) == acc,
                total.0 == put_parts(chat_of(*self), pv.skip(i as int), color, w as int, rows, scrolled).0,
                total.1 == acc + put_parts(chat_of(*self), pv.skip(i as int), color, w as int, rows, scrolled).1,
            decreases parts@.len() - i,
        {
            let ghost before = chat_of(*self);
            let ghost rest = pv.skip(i as int);
            let ghost ops_b = ops@;
            proof {
                assert(rest[0] == parts@[i as int]@);
                assert(rest.drop_first() =~= pv.skip(i + 1));
            }
            let part = string_of(parts[i].as_slice());
            let chunks = word_wrap(part.as_str(), w);
            self.put_chunks(&chunks, color, rows, &mut ops);
            proof {
                let d = put_lines(before, wrapped(rest[0], w as int), color, rows, scrolled).1;
                let next = put_parts(chat_of(*self), pv.skip(i + 1), color, w as int, rows, scrolled);
                assert(ops_view(ops@) == acc + d);
                assert(acc + (d + next.1) =~= (acc + d) + next.1);
                acc = acc + d;
            }
            i = i + 1;
        }
        proof {
            assert(pv.skip(i as int).len() == 0);
            assert(acc + Seq::<OpView>::empty() =~= acc);
        }
        ops
    }

    /// Commits the line being written (see `committed`).
    fn commit_now(&mut self, w: usize)
        ensures
            chat_of(*final(self)) == committed(chat_of(*old(self)), w as int),
            *final(self) == (Renderer {
                buffer: final(self).buffer,
                partial: final(self).partial,
                ..*old(self)
            }),
    {
        let ghost st0 = chat_of(*self);
        self.commit_partial(w);
        proof {
            if st0.partial.len() == 0 {
                assert(chat_of(*self).lines_view =~= st0.lines_view);
                assert(chat_of(*self).partial =~= st0.partial);
            } else {
                assert(chat_of(*self).lines_view =~= committed(st0, w as int).lines_view);
                assert(chat_of(*self).partial =~= Seq::<char>::empty());
            }
        }
    }

    /// Handles a line break of a write, `seg` being the text before it (see
    /// `break_part`).
    fn break_segment(&mut self, seg: &[char], color: Color, w: usize, rows: u16, ops: &mut Vec<DrawOp>)
        ensures
            ({
                let res = break_part(chat_of(*old(self)), seg@, color, w as int, rows, old(self).scroll_offset > 0);
                &&& chat_of(*final(self)) == res.0
                &&& ops_view(final(ops)@) == ops_view(old(ops)@) + res.1
            }),
            *final(self) == (Renderer {
                buffer: final(self).buffer,
                partial: final(self).partial,
                partial_color: final(self).partial_color,
                lines: final(self).lines,
                col: final(self).col,
                ..*old(self)
            }),
    {
        let ghost st = chat_of(*self);
        let ghost ops0 = ops@;
        let len_before = self.buffer.len();
        self.commit_now(w);
        let ghost st1 = chat_of(*self);
        let had_content = len_before < self.buffer.len();
        if seg.len() > 0 {
            self.partial_color = color;
            let mut p = String::new();
            push_chars(&mut p, seg);
            assert(p@ =~= seg@);
            self.partial = p;
            assert(chat_of(*self) == (ChatState { partial: seg@, partial_color: color, ..st1 }));
            self.commit_now(w);
        } else if !had_content {
            let ghost lv = self.lines_view();
            self.buffer.push(LineEntry { text: String::new(), color });
            assert(self.lines_view() =~= lv.push((Seq::<char>::empty(), color)));
        }
        let ghost st2 = chat_of(*self);
        if self.scroll_offset == 0 {
            self.room_for_row(rows, ops);
            let ghost sr = chat_of(*self);
            let row = self.content_row(rows);
            assert(row == out_row(sr, rows));
            let ghost ops_m = ops@;
            ops.push(DrawOp::Break { col: self.col, row, text: string_of(seg), color });
            assert(ops_view(ops@) =~= ops_view(ops_m).push(OpView::Break(sr.col, row, seg@, color)));
            self.line_drawn();
            assert(ops_view(ops@) =~= ops_view(ops0) + room_ops(st2, rows).push(
                OpView::Break(sr.col, out_row(sr, rows), seg@, color),
            ));
        } else {
            assert(ops_view(ops@) =~= ops_view(ops0) + Seq::<OpView>::empty());
        }
    }

    /// Writes the text after the last line break of a write (see `stream`).
    fn stream_segment(&mut self, seg: &[char], color: Color, w: usize, rows: u16, ops: &mut Vec<DrawOp>)
        requires
            0 < w < u16::MAX,
            old(self).scroll_offset > 0 ==> (old(self).col as int) < w,
        ensures
            ({
                let res = stream(chat_of(*old(self)), seg@, 0, color, w as int, rows, old(self).scroll_offset > 0);
                &&& chat_of(*final(self)) == res.0
                &&& ops_view(final(ops)@) == ops_view(old(ops)@) + res.1
            }),
            *final(self) == (Renderer {
                buffer: final(self).buffer,
                partial: final(self).partial,
                partial_color: final(self).partial_color,
                lines: final(self).lines,
                col: final(self).col,
                ..*old(self)
            }),
    {
        let ghost s0 = *self;
        let ghost ops0 = ops@;
        let ghost scrolled = self.scroll_offset > 0;
        let ghost total = stream(chat_of(s0), seg@, 0, color, w as int, rows, scrolled);
        let ghost mut acc: Seq<OpView> = Seq::empty();
        let mut idx: usize = 0;
        assert(ops_view(ops@) =~= ops_view(ops0) + acc);
        while idx < seg.len()
            invariant
                idx <= seg@.len(),
                0 < w < u16::MAX,
                scrolled == (s0.scroll_offset > 0),
                *self == (Renderer {
                    buffer: self.buffer,
                    partial: self.partial,
                    partial_color: self.partial_color,
                    lines: self.lines,
                    col: self.col,
                    ..s0
                }),
                scrolled ==> (self.col as int) < w,
                ops_view(ops@) == ops_view(ops0) + acc,
                total.0 == stream(chat_of(*self), seg@, idx as int, color, w as int, rows, scrolled).0,
                total.1 == acc + stream(chat_of(*self), seg@, idx as int, color, w as int, rows, scrolled).1,
            decreases (seg@.len() - idx) * 2 + (if (self.col as int) >= w {
                1int
            } else {
                0int
            }),
        {
            let ghost before = chat_of(*self);
            let ghost ops_b = ops@;
            let c = self.col as usize;
            if c >= w {
                self.commit_now(w);
                self.line_drawn();
                proof {
                    assert(chat_of(*self) == next_line(committed(before, w as int)));
                    assert(ops_view(ops@) =~= ops_view(ops0) + acc);
                }
            } else {
                let avail = w - c;
                let end = chunk_end(seg, idx, avail);
                proof {
                    lemma_chunk_end_bounds(seg@, idx as int, avail as int);
                }
                let chunk = slice_range(seg, idx, end);
                self.partial_color = color;
                let ghost p0 = self.partial@;
                let mut p = String::new();
                std::mem::swap(&mut p, &mut self.partial);
                push_chars(&mut p, chunk.as_slice());
                self.partial = p;
                let ghost st1 = chat_of(*self);
                assert(st1 == (ChatState { partial: before.partial + chunk@, partial_color: color, ..before }));
                let ghost mut d: Seq<OpView> = Seq::empty();
                if self.scroll_offset == 0 {
                    self.room_for_row(rows, ops);
                    let ghost sr = chat_of(*self);
                    let row = self.content_row(rows);
                    assert(row == out_row(sr, rows));
                    let ghost ops_m = ops@;
                    ops.push(DrawOp::Piece { col: self.col, row, text: string_of(chunk.as_slice()), color });
                    assert(ops_view(ops@) =~= ops_view(ops_m).push(OpView::Piece(sr.col, row, chunk@, color)));
                    let n = chunk.len() as u16;
                    self.col = self.col.saturating_add(n);
                    proof {
                        d = room_ops(st1, rows).push(OpView::Piece(sr.col, out_row(sr, rows), chunk@, color));
                        assert(chat_of(*self) == (ChatState { col: sat_add16(sr.col, chunk@.len() as int), ..sr }));
                    }
                }
                assert(ops_view(ops@) =~= ops_view(ops_b) + d);
                let ghost st2 = chat_of(*self);
                let ghost idx0 = idx;
                idx = end;
                if idx < seg.len() {
                    self.commit_now(w);
                    if self.scroll_offset == 0 {
                        self.line_drawn();
                    }
                }
                proof {
                    let next = stream(chat_of(*self), seg@, idx as int, color, w as int, rows, scrolled);
                    let prev = stream(before, seg@, idx0 as int, color, w as int, rows, scrolled);
                    assert(prev.0 == next.0);
                    assert(prev.1 =~= d + next.1);
                    assert(ops_view(ops@) =~= ops_view(ops0) + (acc + d));
                    assert(acc + (d + next.1) =~= (acc + d) + next.1);
                    acc = acc + d;
                }
            }
        }
        proof {
            assert(acc + Seq::<OpView>::empty() =~= acc);
        }
    }

    /// Writes text as it streams in (see `text_written`) on a terminal of
    /// `cols` by `rows`: each line break ends the line being written, the
    /// text after the last one stays in the line being written, wrapped at
    /// spaces to the width; the operations that show it at the bottom of the
    /// view are returned. While scrolled back, text after the last line
    /// break needs room left on the current row (else the write would never
    /// end).
    pub fn write(&mut self, text: &str, color: Color, cols: u16, rows: u16) -> (ops: Vec<DrawOp>)
        requires
            old(self).scroll_offset > 0 && cols > 1 && split_lines(text@).last().len() > 0
                ==> old(self).col + 1 < cols,
        ensures
            ({
                let res = text_written(
                    chat_of(*old(self)),
                    text@,
                    color,
                    cols,
                    rows,
                    old(self).scroll_offset > 0,
                );
                &&& chat_of(*final(self)) == res.0
                &&& ops_view(ops@) == res.1
            }),
            *final(self) == (Renderer {
                buffer: final(self).buffer,
                partial: final(self).partial,
                partial_color: final(self).partial_color,
                lines: final(self).lines,
                col: final(self).col,
                ..*old(self)
            }),
    {
        let mut ops: Vec<DrawOp> = Vec::new();
        assert(ops_view(ops@) =~= Seq::<OpView>::empty());
        let v = chars_of(text);
        if v.len() == 0 {
            return ops;
        }
        let w = self.line_width(cols);
        if w == 0 {
            return ops;
        }
        let ghost s0 = *self;
        let ghost scrolled = self.scroll_offset > 0;
        let parts = split_newlines(v.as_slice());
        proof {
            lemma_split_lines_nonempty(text@);
        }
        let last = parts.len() - 1;
        let ghost pv = char_views(parts@);
        let ghost segs = pv.drop_last();
        let ghost total = break_parts(chat_of(s0), segs, color, w as int, rows, scrolled);
        let ghost mut acc: Seq<OpView> = Seq::empty();
        let mut i: usize = 0;
        assert(segs.skip(0) =~= segs);
        while i < last
            invariant
                i <= last,
                last + 1 == parts@.len(),
                pv == char_views(parts@),
                segs == pv.drop_last(),
                scrolled == (s0.scroll_offset > 0),
                *self == (Renderer {
                    buffer: self.buffer,
                    partial: self.partial,
                    partial_color: self.partial_color,
                    lines: self.lines,
                    col: self.col,
                    ..s0
                }),
                scrolled ==> self.col == s0.col,
                ops_view(ops@) == acc,
                total.0 == break_parts(chat_of(*self), segs.skip(i as int), color, w as int, rows, scrolled).0,
                total.1 == acc + break_parts(chat_of(*self), segs.skip(i as int), color, w as int, rows, scrolled).1,
            decreases last - i,
        {
            let ghost before = chat_of(*self);
            let ghost rest = segs.skip(i as int);
            proof {
                assert(rest[0] == parts@[i as int]@);
                assert(rest.drop_first() =~= segs.skip(i + 1));
            }
            self.break_segment(parts[i].as_slice(), color, w, rows, &mut ops);
            proof {
                let d = break_part(before, rest[0], color, w as int, rows, scrolled).1;
                let next = break_parts(chat_of(*self), segs.skip(i + 1), color, w as int, rows, scrolled);
                assert(acc + (d + next.1) =~= (acc + d) + next.1);
                acc = acc + d;
            }
            i = i + 1;
        }
        proof {
            assert(segs.skip(i as int).len() == 0);
            assert(acc + Seq::<OpView>::empty() =~= acc);
            assert(pv.last() == parts@[last as int]@);
        }
        let ghost mid = ops@;
        if parts[last].len() > 0 {
            self.stream_segment(parts[last].as_slice(), color, w, rows, &mut ops);
        } else {
            assert(ops_view(ops@) =~= ops_view(mid) + Seq::<OpView>::empty());
        }
        ops
    }
}

} // verus!
