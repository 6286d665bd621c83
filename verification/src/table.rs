//! Markdown tables drawn with box-drawing characters: column widths from the
//! widest cell, shrunk to fit the terminal, cells wrapped and aligned.
use vstd::prelude::*;

use crate::color::Color;
use crate::filter::views;
use crate::markdown::{display_width, text_columns, word_wrap, wrapped};
use crate::text::{push_str_chars, string_of};

verus! {

/// How the cells of a column are aligned.
#[derive(Clone, Copy, Debug, PartialEq, Eq, Structural)]
pub enum ColumnAlign {
    Unspecified,
    Left,
    Center,
    Right,
}

/// A line of styled output: its text and color.
pub struct LineEntry {
    pub text: String,
    pub color: Color,
}

/// The text and color of a line.
pub open spec fn entry_view(e: LineEntry) -> (Seq<char>, Color) {
    (e.text@, e.color)
}

/// The texts and colors of a run of lines.
pub open spec fn entries_view(v: Seq<LineEntry>) -> Seq<(Seq<char>, Color)> {
    v.map_values(|e: LineEntry| entry_view(e))
}

/// `n` copies of `c`.
pub open spec fn repeat_char(c: char, n: int) -> Seq<char>
    decreases n,
{
    if n <= 0 {
        Seq::empty()
    } else {
        repeat_char(c, n - 1).push(c)
    }
}

/// The rule segments for the columns `widths`: each `width + 2` horizontal
/// lines, with `mid` between columns.
pub open spec fn rule_body(widths: Seq<usize>, mid: char) -> Seq<char>
    decreases widths.len(),
{
    if widths.len() == 0 {
        Seq::empty()
    } else {
        let n = widths.len() - 1;
        let prev = rule_body(widths.drop_last(), mid);
        (if n > 0 {
            prev.push(mid)
        } else {
            prev
        }) + repeat_char('\u{2500}', widths[n] + 2)
    }
}

/// A horizontal rule of a table: `left`, the column segments, `right`.
pub open spec fn table_rule(widths: Seq<usize>, left: char, mid: char, right: char) -> Seq<char> {
    seq![left] + rule_body(widths, mid) + seq![right]
}

/// Appends `n` copies of `c`.
pub(crate) fn push_repeat(s: &mut String, c: char, n: usize)
    ensures
        final(s)@ == old(s)@ + repeat_char(c, n as int),
{
    let mut i: usize = 0;
    while i < n
        invariant
            i <= n,
            s@ == old(s)@ + repeat_char(c, i as int),
        decreases n - i,
    {
        s.push(c);
        i = i + 1;
        assert(repeat_char(c, i as int) == repeat_char(c, i - 1).push(c));
    }
}

/// A horizontal rule of a table with columns `widths`.
pub fn format_table_rule(widths: &[usize], left: char, mid: char, right: char) -> (r: String)
    ensures
        r@ == table_rule(widths@, left, mid, right),
{
    let mut s = String::new();
    s.push(left);
    let mut i: usize = 0;
    assert(widths@.take(0) =~= Seq::<usize>::empty());
    while i < widths.len()
        invariant
            i <= widths@.len(),
            s@ == seq![left] + rule_body(widths@.take(i as int), mid),
        decreases widths@.len() - i,
    {
        let ghost before = s@;
        if i > 0 {
            s.push(mid);
        }
        push_repeat(&mut s, '\u{2500}', widths[i]);
        push_repeat(&mut s, '\u{2500}', 2);
        proof {
            let t = widths@.take(i + 1);
            assert(t.drop_last() =~= widths@.take(i as int));
            assert(t[i as int] == widths@[i as int]);
            lemma_repeat_add('\u{2500}', widths@[i as int] as int, 2);
            assert(s@ =~= seq![left] + rule_body(t, mid));
        }
        i = i + 1;
    }
    assert(widths@.take(widths@.len() as int) =~= widths@);
    s.push(right);
    s
}

/// Repeating `a` times and then `b` times is repeating `a + b` times.
pub proof fn lemma_repeat_add(c: char, a: int, b: int)
    requires
        a >= 0,
        b >= 0,
    ensures
        repeat_char(c, a) + repeat_char(c, b) == repeat_char(c, a + b),
    decreases b,
{
    if b == 0 {
        assert(repeat_char(c, a) + repeat_char(c, 0) =~= repeat_char(c, a));
    } else {
        lemma_repeat_add(c, a, b - 1);
        assert(repeat_char(c, a) + repeat_char(c, b) =~= (repeat_char(c, a) + repeat_char(c, b - 1)).push(c));
    }
}

/// The width of column `i`, 10 when there is none.
pub open spec fn col_width(widths: Seq<usize>, i: int) -> int {
    if i < widths.len() {
        widths[i] as int
    } else {
        10
    }
}

/// The alignment of column `i`, none when there is none.
pub open spec fn col_align(alignments: Seq<ColumnAlign>, i: int) -> ColumnAlign {
    if i < alignments.len() {
        alignments[i]
    } else {
        ColumnAlign::Unspecified
    }
}

/// The lines a cell takes: the cell itself when it fits its column, else
/// its wrapping.
pub open spec fn cell_lines(cell: Seq<char>, width: int) -> Seq<Seq<char>> {
    if text_columns(cell) <= width {
        seq![cell]
    } else {
        wrapped(cell, width)
    }
}

/// `text` padded to `width` columns as `align` says: centered (extra space
/// on the right), right-aligned, or left-aligned.
pub open spec fn aligned(text: Seq<char>, width: int, align: ColumnAlign) -> Seq<char> {
    let tw = text_columns(text) as int;
    let padding = if width > tw {
        width - tw
    } else {
        0
    };
    match align {
        ColumnAlign::Center => repeat_char(' ', padding / 2) + text + repeat_char(
            ' ',
            padding - padding / 2,
        ),
        ColumnAlign::Right => repeat_char(' ', padding) + text,
        _ => text + repeat_char(' ', padding),
    }
}

/// The most lines any of the cells takes.
pub open spec fn max_lines(cells: Seq<Seq<Seq<char>>>) -> int
    decreases cells.len(),
{
    if cells.len() == 0 {
        0
    } else {
        let m = max_lines(cells.drop_last());
        if cells.last().len() > m {
            cells.last().len() as int
        } else {
            m
        }
    }
}

/// The text of line `sub` of the wrapped cells: each cell's line (empty
/// when it has fewer), aligned in its column and framed by `│`.
pub open spec fn row_line_body(
    wrapped_cells: Seq<Seq<Seq<char>>>,
    widths: Seq<usize>,
    alignments: Seq<ColumnAlign>,
    sub: int,
) -> Seq<char>
    decreases wrapped_cells.len(),
{
    if wrapped_cells.len() == 0 {
        Seq::empty()
    } else {
        let n = wrapped_cells.len() - 1;
        let prev = row_line_body(wrapped_cells.drop_last(), widths, alignments, sub);
        let cw = wrapped_cells[n];
        let text = if sub < cw.len() {
            cw[sub]
        } else {
            Seq::empty()
        };
        (if n > 0 {
            prev.push('\u{2502}')
        } else {
            prev
        }) + seq![' '] + aligned(text, col_width(widths, n), col_align(alignments, n)) + seq![' ']
    }
}

/// The wrapped lines of each cell.
pub open spec fn wrapped_cells(cells: Seq<Seq<char>>, widths: Seq<usize>) -> Seq<Seq<Seq<char>>> {
    Seq::new(cells.len(), |i: int| cell_lines(cells[i], col_width(widths, i)))
}

/// The lines a table row takes.
pub open spec fn table_row_lines(
    cells: Seq<Seq<char>>,
    widths: Seq<usize>,
    alignments: Seq<ColumnAlign>,
) -> Seq<Seq<char>> {
    let wc = wrapped_cells(cells, widths);
    Seq::new(
        max_lines(wc) as nat,
        |sub: int| seq!['\u{2502}'] + row_line_body(wc, widths, alignments, sub) + seq!['\u{2502}'],
    )
}

/// Appends `text` padded to `width` columns as `align` says.
fn push_aligned(line: &mut String, text: &str, width: usize, align: ColumnAlign)
    ensures
        final(line)@ == old(line)@ + aligned(text@, width as int, align),
{
    let tw = display_width(text);
    let padding = if width > tw {
        width - tw
    } else {
        0
    };
    match align {
        ColumnAlign::Center => {
            let left_pad = padding / 2;
            let right_pad = padding - left_pad;
            push_repeat(line, ' ', left_pad);
            push_str_chars(line, text);
            push_repeat(line, ' ', right_pad);
        },
        ColumnAlign::Right => {
            push_repeat(line, ' ', padding);
            push_str_chars(line, text);
        },
        _ => {
            push_str_chars(line, text);
            push_repeat(line, ' ', padding);
        },
    }
}

/// The texts of wrapped cells.
pub open spec fn wc_view(cw: Seq<Vec<String>>) -> Seq<Seq<Seq<char>>> {
    cw.map_values(|v: Vec<String>| views(v@))
}

/// Line `sub` of a wrapped cell, empty when it has fewer lines.
pub open spec fn line_of(cw: Seq<Seq<char>>, sub: int) -> Seq<char> {
    if sub < cw.len() {
        cw[sub]
    } else {
        Seq::empty()
    }
}

/// Line `sub` of the wrapped cell `cw`, aligned in a column of `width`.
fn cell_piece(cw: &Vec<String>, sub: usize, width: usize, align: ColumnAlign) -> (r: String)
    ensures
        r@ == aligned(line_of(views(cw@), sub as int), width as int, align),
{
    let mut piece = String::new();
    if sub < cw.len() {
        push_aligned(&mut piece, cw[sub].as_str(), width, align);
        assert(views(cw@)[sub as int] == cw@[sub as int]@);
    } else {
        proof {
            reveal_strlit("");
        }
        push_aligned(&mut piece, "", width, align);
        assert(""@ =~= Seq::<char>::empty());
    }
    assert(piece@ =~= aligned(line_of(views(cw@), sub as int), width as int, align));
    piece
}

/// `row_line_body` for one more cell.
proof fn lemma_row_line_step(
    wc: Seq<Seq<Seq<char>>>,
    widths: Seq<usize>,
    alignments: Seq<ColumnAlign>,
    sub: int,
    k: int,
)
    requires
        0 <= k < wc.len(),
    ensures
        row_line_body(wc.take(k + 1), widths, alignments, sub) == (if k > 0 {
            row_line_body(wc.take(k), widths, alignments, sub).push('\u{2502}')
        } else {
            row_line_body(wc.take(k), widths, alignments, sub)
        }) + seq![' '] + aligned(line_of(wc[k], sub), col_width(widths, k), col_align(alignments, k))
            + seq![' '],
{
    let t = wc.take(k + 1);
    assert(t.drop_last() =~= wc.take(k));
    assert(t.last() == wc[k]);
}

/// Line `sub` of a table row (see `row_line_body`), framed by `│`.
fn row_line(cell_wrapped: &Vec<Vec<String>>, widths: &[usize], alignments: &[ColumnAlign], sub: usize) -> (r: String)
    ensures
        r@ == seq!['\u{2502}'] + row_line_body(wc_view(cell_wrapped@), widths@, alignments@, sub as int)
            + seq!['\u{2502}'],
{
    let ghost wc = wc_view(cell_wrapped@);
    let mut line = String::new();
    line.push('\u{2502}');
    let mut k: usize = 0;
    assert(wc.take(0) =~= Seq::<Seq<Seq<char>>>::empty());
    while k < cell_wrapped.len()
        invariant
            k <= cell_wrapped@.len(),
            wc == wc_view(cell_wrapped@),
            line@ == seq!['\u{2502}'] + row_line_body(wc.take(k as int), widths@, alignments@, sub as int),
        decreases cell_wrapped@.len() - k,
    {
        let width: usize = if k < widths.len() {
            widths[k]
        } else {
            10
        };
        let align = if k < alignments.len() {
            alignments[k]
        } else {
            ColumnAlign::Unspecified
        };
        let piece = cell_piece(&cell_wrapped[k], sub, width, align);
        let ghost before = line@;
        if k > 0 {
            line.push('\u{2502}');
        }
        line.push(' ');
        push_str_chars(&mut line, piece.as_str());
        line.push(' ');
        proof {
            lemma_row_line_step(wc, widths@, alignments@, sub as int, k as int);
            assert(wc[k as int] == views(cell_wrapped@[k as int]@));
            assert(width == col_width(widths@, k as int));
            assert(align == col_align(alignments@, k as int));
            assert(line@ =~= seq!['\u{2502}'] + row_line_body(wc.take(k + 1), widths@, alignments@, sub as int));
        }
        k = k + 1;
    }
    assert(wc.take(wc.len() as int) =~= wc);
    line.push('\u{2502}');
    line
}

/// The lines of a table row: each cell wrapped to its column and aligned.
pub fn format_table_row(cells: &[String], widths: &[usize], alignments: &[ColumnAlign]) -> (r: Vec<String>)
    ensures
        views(r@) == table_row_lines(views(cells@), widths@, alignments@),
{
    let ghost wc = wrapped_cells(views(cells@), widths@);
    let mut cell_wrapped: Vec<Vec<String>> = Vec::new();
    let mut max_subrows: usize = 0;
    let mut i: usize = 0;
    while i < cells.len()
        invariant
            i <= cells@.len(),
            wc == wrapped_cells(views(cells@), widths@),
            wc_view(cell_wrapped@) == wc.take(i as int),
            max_subrows == max_lines(wc.take(i as int)),
        decreases cells@.len() - i,
    {
        let width: usize = if i < widths.len() {
            widths[i]
        } else {
            10
        };
        let cell = &cells[i];
        let wrapped_cell = if display_width(cell.as_str()) <= width {
            let mut v: Vec<String> = Vec::new();
            v.push(string_of(crate::text::chars_of(cell.as_str()).as_slice()));
            assert(views(v@) =~= seq![cell@]);
            v
        } else {
            word_wrap(cell.as_str(), width)
        };
        proof {
            assert(views(cells@)[i as int] == cell@);
            assert(views(wrapped_cell@) == wc[i as int]);
            assert(wc.take(i + 1).drop_last() =~= wc.take(i as int));
        }
        if wrapped_cell.len() > max_subrows {
            max_subrows = wrapped_cell.len();
        }
        let ghost cb = cell_wrapped@;
        cell_wrapped.push(wrapped_cell);
        assert(wc_view(cell_wrapped@) =~= wc_view(cb).push(views(wrapped_cell@)));
        assert(wc.take(i + 1) =~= wc.take(i as int).push(wc[i as int]));
        i = i + 1;
    }
    assert(wc.take(wc.len() as int) =~= wc);
    let ghost all = table_row_lines(views(cells@), widths@, alignments@);
    let mut lines: Vec<String> = Vec::new();
    let mut sub: usize = 0;
    while sub < max_subrows
        invariant
            sub <= max_subrows,
            max_subrows == max_lines(wc),
            wc == wrapped_cells(views(cells@), widths@),
            wc_view(cell_wrapped@) == wc,
            all == table_row_lines(views(cells@), widths@, alignments@),
            all.len() == max_subrows,
            views(lines@) == all.take(sub as int),
        decreases max_subrows - sub,
    {
        let line = row_line(&cell_wrapped, widths, alignments, sub);
        let ghost lb = lines@;
        lines.push(line);
        proof {
            assert(all.take(sub + 1) =~= all.take(sub as int).push(all[sub as int]));
            assert(views(lines@) =~= views(lb).push(line@));
        }
        sub = sub + 1;
    }
    assert(all.take(max_subrows as int) =~= all);
    lines
}

/// The most cells any row has.
pub open spec fn max_row_len(rows: Seq<Seq<Seq<char>>>) -> int
    decreases rows.len(),
{
    if rows.len() == 0 {
        0
    } else {
        let m = max_row_len(rows.drop_last());
        if rows.last().len() > m {
            rows.last().len() as int
        } else {
            m
        }
    }
}

/// The width of the widest cell of column `i` (0 when no row has one).
pub open spec fn col_natural(rows: Seq<Seq<Seq<char>>>, i: int) -> usize
    decreases rows.len(),
{
    if rows.len() == 0 {
        0
    } else {
        let m = col_natural(rows.drop_last(), i);
        let r = rows.last();
        if i < r.len() && text_columns(r[i]) > m {
            text_columns(r[i])
        } else {
            m
        }
    }
}

/// The widths of the widest cells of the first `n` columns.
pub open spec fn natural_widths(rows: Seq<Seq<Seq<char>>>, n: int) -> Seq<usize> {
    Seq::new(n as nat, |i: int| col_natural(rows, i))
}

/// The sum of the widths.
pub open spec fn sum_widths(ws: Seq<usize>) -> int
    decreases ws.len(),
{
    if ws.len() == 0 {
        0
    } else {
        sum_widths(ws.drop_last()) + ws.last()
    }
}

/// The first widest column and its width (column 0 and width 0 when every
/// width is 0).
pub open spec fn widest(ws: Seq<usize>) -> (int, int)
    decreases ws.len(),
{
    if ws.len() == 0 {
        (0, 0)
    } else {
        let b = widest(ws.drop_last());
        if ws.last() > b.1 {
            (ws.len() - 1, ws.last() as int)
        } else {
            b
        }
    }
}

/// The widest column lies among the columns and has the width it names.
pub proof fn lemma_widest(ws: Seq<usize>)
    ensures
        ws.len() > 0 ==> 0 <= widest(ws).0 < ws.len(),
        ws.len() > 0 && widest(ws).1 > 0 ==> ws[widest(ws).0] == widest(ws).1,
        widest(ws).1 >= 0,
    decreases ws.len(),
{
    if ws.len() > 0 {
        lemma_widest(ws.drop_last());
    }
}

/// Making one width smaller by one makes the sum smaller by one.
pub proof fn lemma_sum_update(ws: Seq<usize>, k: int, v: usize)
    requires
        0 <= k < ws.len(),
    ensures
        sum_widths(ws.update(k, v)) == sum_widths(ws) - ws[k] + v,
    decreases ws.len(),
{
    let u = ws.update(k, v);
    if k < ws.len() - 1 {
        assert(u.drop_last() =~= ws.drop_last().update(k, v));
        lemma_sum_update(ws.drop_last(), k, v);
    } else {
        assert(u.drop_last() =~= ws.drop_last());
    }
}

/// Narrows the widest column, one column at a time, until the widths fit in
/// `available` or the widest is down to 4.
pub open spec fn shrink(ws: Seq<usize>, available: int) -> Seq<usize>
    decreases sum_widths(ws),
{
    if sum_widths(ws) > available {
        let b = widest(ws);
        if b.1 <= 4 {
            ws
        } else {
            proof {
                lemma_widest(ws);
                lemma_sum_update(ws, b.0, (b.1 - 1) as usize);
                lemma_sum_nonneg(ws.update(b.0, (b.1 - 1) as usize));
            }
            shrink(ws.update(b.0, (b.1 - 1) as usize), available)
        }
    } else {
        ws
    }
}

/// Widths are never negative, so neither is their sum.
pub proof fn lemma_sum_nonneg(ws: Seq<usize>)
    ensures
        sum_widths(ws) >= 0,
    decreases ws.len(),
{
    if ws.len() > 0 {
        lemma_sum_nonneg(ws.drop_last());
    }
}

/// The widths the columns of a table get in `max_width` columns: the widest
/// cell of each column, narrowed to fit. None when the borders leave no
/// room.
pub open spec fn table_widths(rows: Seq<Seq<Seq<char>>>, max_width: int) -> Option<Seq<usize>> {
    let n = max_row_len(rows);
    let available = max_width - (3 * n + 1);
    if rows.len() == 0 || n == 0 || available <= 0 {
        None
    } else {
        Some(shrink(natural_widths(rows, n), available))
    }
}

/// The lines of every row, in order, with the separator rule after the
/// header row when more rows follow.
pub open spec fn body_lines(
    rows: Seq<Seq<Seq<char>>>,
    ws: Seq<usize>,
    alignments: Seq<ColumnAlign>,
    total: int,
) -> Seq<(Seq<char>, Color)>
    decreases rows.len(),
{
    if rows.len() == 0 {
        Seq::empty()
    } else {
        let i = rows.len() - 1;
        let lines = table_row_lines(rows[i], ws, alignments).map_values(
            |l: Seq<char>| (l, Color::White),
        );
        body_lines(rows.drop_last(), ws, alignments, total) + lines + if i == 0 && total > 1 {
            seq![(table_rule(ws, '\u{251c}', '\u{253c}', '\u{2524}'), Color::DarkGrey)]
        } else {
            Seq::empty()
        }
    }
}

/// The lines of a table: top rule, rows, bottom rule; nothing when there is
/// no room.
pub open spec fn table_lines(
    rows: Seq<Seq<Seq<char>>>,
    alignments: Seq<ColumnAlign>,
    max_width: int,
) -> Seq<(Seq<char>, Color)> {
    match table_widths(rows, max_width) {
        Some(ws) => seq![(table_rule(ws, '\u{250c}', '\u{252c}', '\u{2510}'), Color::DarkGrey)]
            + body_lines(rows, ws, alignments, rows.len() as int) + seq![
            (table_rule(ws, '\u{2514}', '\u{2534}', '\u{2518}'), Color::DarkGrey),
        ],
        None => Seq::empty(),
    }
}

/// The texts of the cells of each row.
pub open spec fn rows_view(rows: Seq<Vec<String>>) -> Seq<Seq<Seq<char>>> {
    rows.map_values(|r: Vec<String>| views(r@))
}

/// Adds a line of the given color.
fn push_line(out: &mut Vec<LineEntry>, text: String, color: Color)
    ensures
        entries_view(final(out)@) == entries_view(old(out)@).push((text@, color)),
{
    let ghost before = out@;
    out.push(LineEntry { text, color });
    assert(entries_view(out@) =~= entries_view(before).push((text@, color)));
}

/// Draws a table into `out`: box-drawing rules around the rows, the header
/// row separated from the others, columns as wide as their widest cell but
/// narrowed to fit `max_width`; nothing when there is no room.
pub fn flush_table(
    rows: &[Vec<String>],
    alignments: &[ColumnAlign],
    max_width: usize,
    out: &mut Vec<LineEntry>,
)
    ensures
        entries_view(final(out)@) == entries_view(old(out)@) + table_lines(
            rows_view(rows@),
            alignments@,
            max_width as int,
        ),
{
    let ghost rv = rows_view(rows@);
    if rows.len() == 0 {
        assert(entries_view(out@) + Seq::<(Seq<char>, Color)>::empty() =~= entries_view(out@));
        return;
    }
    let mut col_count: usize = 0;
    let mut i: usize = 0;
    while i < rows.len()
        invariant
            i <= rows@.len(),
            rv == rows_view(rows@),
            col_count == max_row_len(rv.take(i as int)),
        decreases rows@.len() - i,
    {
        assert(rv.take(i + 1).drop_last() =~= rv.take(i as int));
        assert(rv[i as int] == views(rows@[i as int]@));
        if rows[i].len() > col_count {
            col_count = rows[i].len();
        }
        i = i + 1;
    }
    assert(rv.take(rv.len() as int) =~= rv);
    if col_count == 0 {
        assert(entries_view(out@) + Seq::<(Seq<char>, Color)>::empty() =~= entries_view(out@));
        return;
    }
    let mut col_widths: Vec<usize> = Vec::new();
    let mut c: usize = 0;
    while c < col_count
        invariant
            c <= col_count,
            rv == rows_view(rows@),
            col_widths@ == natural_widths(rv, col_count as int).take(c as int),
        decreases col_count - c,
    {
        let mut w: usize = 0;
        let mut j: usize = 0;
        while j < rows.len()
            invariant
                j <= rows@.len(),
                rv == rows_view(rows@),
                w == col_natural(rv.take(j as int), c as int),
            decreases rows@.len() - j,
        {
            assert(rv.take(j + 1).drop_last() =~= rv.take(j as int));
            assert(rv[j as int] == views(rows@[j as int]@));
            if c < rows[j].len() {
                let cw = display_width(rows[j][c].as_str());
                assert(views(rows@[j as int]@)[c as int] == rows@[j as int]@[c as int]@);
                if cw > w {
                    w = cw;
                }
            }
            j = j + 1;
        }
        assert(rv.take(rv.len() as int) =~= rv);
        col_widths.push(w);
        assert(natural_widths(rv, col_count as int).take(c + 1) =~= natural_widths(
            rv,
            col_count as int,
        ).take(c as int).push(w));
        c = c + 1;
    }
    assert(natural_widths(rv, col_count as int).take(col_count as int) =~= natural_widths(
        rv,
        col_count as int,
    ));
    let available: usize = if col_count > (usize::MAX - 1) / 3 {
        0
    } else if max_width > 3 * col_count + 1 {
        max_width - (3 * col_count + 1)
    } else {
        0
    };
    if available == 0 {
        assert(entries_view(out@) + Seq::<(Seq<char>, Color)>::empty() =~= entries_view(out@));
        return;
    }
    let mut total: u128 = 0;
    let mut k: usize = 0;
    assert(col_widths@.take(0) =~= Seq::<usize>::empty());
    while k < col_widths.len()
        invariant
            k <= col_widths@.len(),
            total == sum_widths(col_widths@.take(k as int)),
            total <= k * usize::MAX,
        decreases col_widths@.len() - k,
    {
        assert(col_widths@.take(k + 1).drop_last() =~= col_widths@.take(k as int));
        assert(total + col_widths[k as int] <= (k + 1) * usize::MAX) by (nonlinear_arith)
            requires
                total <= k * usize::MAX,
                col_widths[k as int] <= usize::MAX,
        ;
        assert((k + 1) * usize::MAX <= usize::MAX * usize::MAX) by (nonlinear_arith)
            requires
                k + 1 <= usize::MAX,
        ;
        total = total + col_widths[k] as u128;
        k = k + 1;
    }
    assert(col_widths@.take(col_widths@.len() as int) =~= col_widths@);
    proof {
        lemma_sum_nonneg(col_widths@);
    }
    let mut done = false;
    while !done && total > available as u128
        invariant
            total == sum_widths(col_widths@),
            total >= 0,
            shrink(col_widths@, available as int) == shrink(
                natural_widths(rv, col_count as int),
                available as int,
            ),
            done ==> total > available && widest(col_widths@).1 <= 4,
        decreases total + (if done {
            0int
        } else {
            1int
        }),
    {
        let mut widest_idx: usize = 0;
        let mut widest_w: usize = 0;
        let mut m: usize = 0;
        assert(col_widths@.take(0) =~= Seq::<usize>::empty());
        while m < col_widths.len()
            invariant
                m <= col_widths@.len(),
                (widest_idx as int, widest_w as int) == widest(col_widths@.take(m as int)),
            decreases col_widths@.len() - m,
        {
            assert(col_widths@.take(m + 1).drop_last() =~= col_widths@.take(m as int));
            if col_widths[m] > widest_w {
                widest_w = col_widths[m];
                widest_idx = m;
            }
            m = m + 1;
        }
        assert(col_widths@.take(col_widths@.len() as int) =~= col_widths@);
        if widest_w <= 4 {
            done = true;
        } else {
            proof {
                lemma_widest(col_widths@);
                lemma_sum_update(col_widths@, widest_idx as int, (widest_w - 1) as usize);
                lemma_sum_nonneg(col_widths@.update(widest_idx as int, (widest_w - 1) as usize));
            }
            col_widths.set(widest_idx, widest_w - 1);
            total = total - 1;
        }
    }
    let ghost ws = shrink(natural_widths(rv, col_count as int), available as int);
    assert(col_widths@ == ws);
    let top = format_table_rule(col_widths.as_slice(), '\u{250c}', '\u{252c}', '\u{2510}');
    let sep = format_table_rule(col_widths.as_slice(), '\u{251c}', '\u{253c}', '\u{2524}');
    let bot = format_table_rule(col_widths.as_slice(), '\u{2514}', '\u{2534}', '\u{2518}');
    let ghost start = entries_view(out@);
    push_line(out, top, Color::DarkGrey);
    let mut r: usize = 0;
    assert(rv.take(0) =~= Seq::<Seq<Seq<char>>>::empty());
    while r < rows.len()
        invariant
            r <= rows@.len(),
            rv == rows_view(rows@),
            col_widths@ == ws,
            sep@ == table_rule(ws, '\u{251c}', '\u{253c}', '\u{2524}'),
            entries_view(out@) == start + seq![(table_rule(ws, '\u{250c}', '\u{252c}', '\u{2510}'), Color::DarkGrey)]
                + body_lines(rv.take(r as int), ws, alignments@, rv.len() as int),
        decreases rows@.len() - r,
    {
        let lines = format_table_row(rows[r].as_slice(), col_widths.as_slice(), alignments);
        let ghost before = entries_view(out@);
        let mut q: usize = 0;
        while q < lines.len()
            invariant
                q <= lines@.len(),
                entries_view(out@) == before + views(lines@).take(q as int).map_values(
                    |l: Seq<char>| (l, Color::White),
                ),
            decreases lines@.len() - q,
        {
            let t = string_of(crate::text::chars_of(lines[q].as_str()).as_slice());
            push_line(out, t, Color::White);
            assert(views(lines@).take(q + 1).map_values(|l: Seq<char>| (l, Color::White)) =~= views(
                lines@,
            ).take(q as int).map_values(|l: Seq<char>| (l, Color::White)).push(
                (lines@[q as int]@, Color::White),
            ));
            q = q + 1;
        }
        assert(views(lines@).take(lines@.len() as int) =~= views(lines@));
        if r == 0 && rows.len() > 1 {
            let st = string_of(crate::text::chars_of(sep.as_str()).as_slice());
            push_line(out, st, Color::DarkGrey);
        }
        proof {
            let t = rv.take(r + 1);
            assert(t.drop_last() =~= rv.take(r as int));
            assert(t[r as int] == views(rows@[r as int]@));
            assert(entries_view(out@) =~= start + seq![(table_rule(ws, '\u{250c}', '\u{252c}', '\u{2510}'), Color::DarkGrey)]
                + body_lines(t, ws, alignments@, rv.len() as int));
        }
        r = r + 1;
    }
    assert(rv.take(rv.len() as int) =~= rv);
    push_line(out, bot, Color::DarkGrey);
    assert(entries_view(out@) =~= start + table_lines(rv, alignments@, max_width as int));
}

} // verus!
