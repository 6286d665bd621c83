//! Layout of a picker's list above the input: which matches show, on which
//! rows, and the text of each row. The list shows at most ten matches, and
//! keeps the selected one in view, centred where it can be.
use vstd::prelude::*;

use crate::edit::{slice_take, take_chars};
use crate::text::{chars_of, push_chars};

verus! {

/// The matches from `start` (inclusive) to `end` (exclusive) show, the
/// first on terminal row `top_row`.
pub struct ListWindow {
    pub start: usize,
    pub end: usize,
    pub top_row: u16,
}

/// `a - b`, or 0 when `b` is larger.
pub open spec fn sub0(a: int, b: int) -> int {
    if a > b {
        a - b
    } else {
        0
    }
}

/// The smaller of two integers.
pub open spec fn min_of(a: int, b: int) -> int {
    if a < b {
        a
    } else {
        b
    }
}

/// How many matches show: at most ten, at most the rows left above the
/// `reserved` bottom rows, at most the number of matches.
pub open spec fn list_height(count: int, rows: int, reserved: int) -> int {
    min_of(min_of(sub0(rows, reserved), 10), count)
}

/// The window of `count` matches with `selected` highlighted on a terminal
/// of `rows` rows: the selection sits in the middle unless that would run
/// past either end; the list ends three rows above the bottom.
pub open spec fn window_of(count: int, selected: int, rows: int, reserved: int) -> (int, int, int) {
    let h = list_height(count, rows, reserved);
    let start = min_of(sub0(selected, h / 2), sub0(count, h));
    let end = min_of(start + h, count);
    (start, end, sub0(sub0(rows, 3), h))
}

/// Lays out the list of `count` matches (see `window_of`).
pub fn list_window(count: usize, selected: usize, rows: u16, reserved: u16) -> (w: ListWindow)
    ensures
        (w.start as int, w.end as int, w.top_row as int) == window_of(
            count as int,
            selected as int,
            rows as int,
            reserved as int,
        ),
{
    let room = rows.saturating_sub(reserved);
    let max_items: usize = if room < 10 {
        room as usize
    } else {
        10
    };
    let h = if max_items < count {
        max_items
    } else {
        count
    };
    let a = selected.saturating_sub(h / 2);
    let b = count.saturating_sub(h);
    let start = if a < b {
        a
    } else {
        b
    };
    let end = if start + h < count {
        start + h
    } else {
        count
    };
    let top_row = rows.saturating_sub(3).saturating_sub(h as u16);
    ListWindow { start, end, top_row }
}

/// The text of a list row: `▸ ` before the selected match, two spaces
/// before the others, the match cut to the terminal width less three.
pub open spec fn row_text(item: Seq<char>, is_selected: bool, cols: int) -> Seq<char> {
    (if is_selected {
        seq!['\u{25b8}', ' ']
    } else {
        seq![' ', ' ']
    }) + take_chars(item, sub0(cols, 3))
}

/// The text of one list row (see `row_text`).
pub fn list_row_text(item: &str, is_selected: bool, cols: u16) -> (r: String)
    ensures
        r@ == row_text(item@, is_selected, cols as int),
{
    let mut r = String::new();
    if is_selected {
        r.push('\u{25b8}');
    } else {
        r.push(' ');
    }
    r.push(' ');
    let v = chars_of(item);
    let t = slice_take(v.as_slice(), cols.saturating_sub(3) as usize);
    let ghost r0 = r@;
    push_chars(&mut r, t.as_slice());
    proof {
        if is_selected {
            assert(r0 =~= seq!['\u{25b8}', ' ']);
        } else {
            assert(r0 =~= seq![' ', ' ']);
        }
    }
    r
}

/// The selected match is always in view: whenever a row is left for the
/// list and the selection is one of the matches, it lies in the window,
/// and the window's rows lie above the three bottom rows.
pub proof fn law_selection_in_view(count: int, selected: int, rows: int, reserved: int)
    requires
        0 <= selected < count,
        0 <= reserved < rows,
        rows >= 3,
    ensures
        ({
            let (start, end, top) = window_of(count, selected, rows, reserved);
            &&& 0 <= start <= selected < end <= count
            &&& end - start == list_height(count, rows, reserved)
            &&& top + (end - start) <= rows - 3 || top == 0
        }),
{
}

} // verus!
