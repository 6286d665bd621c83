//! The chat view: the buffer of wrapped, colored lines, its scroll state,
//! the layout of the input area, and the base64 text that copies a selection
//! to the clipboard through the terminal.
use vstd::prelude::*;

use crate::color::Color;
use crate::cursor::{cursor_to_line_col, line_col};
use crate::filter::views;
use crate::markdown::{word_wrap, wrapped};
use crate::cursor::chars_before;
use crate::edit::{skip_chars, slice_skip, slice_take, take_chars};
use crate::styled::{char_views, split_lines, split_newlines};
use crate::table::{entries_view, LineEntry};
use crate::text::{chars_of, push_chars, push_str_chars, string_of};

verus! {

/// The base64 digit for a value below 64 (standard alphabet).
pub open spec fn b64_digit(v: int) -> char {
    if v < 26 {
        (65 + v) as char
    } else if v < 52 {
        (97 + v - 26) as char
    } else if v < 62 {
        (48 + v - 52) as char
    } else if v == 62 {
        '+'
    } else {
        '/'
    }
}

/// The four characters encoding the bytes `b0 b1 b2`, of which the first
/// `n` are real (`1 <= n <= 3`); missing bytes count as zero and their
/// digits become `=`.
pub open spec fn b64_group(b0: int, b1: int, b2: int, n: int) -> Seq<char> {
    let t = b0 * 65536 + b1 * 256 + b2;
    seq![
        b64_digit(t / 262144),
        b64_digit((t / 4096) % 64),
        if n > 1 {
            b64_digit((t / 64) % 64)
        } else {
            '='
        },
        if n > 2 {
            b64_digit(t % 64)
        } else {
            '='
        },
    ]
}

/// Standard base64 of `input`, padded with `=`.
pub open spec fn base64(input: Seq<u8>) -> Seq<char>
    decreases input.len(),
{
    if input.len() == 0 {
        Seq::empty()
    } else {
        let n: int = if input.len() < 3 {
            input.len() as int
        } else {
            3
        };
        let b1: int = if n > 1 {
            input[1] as int
        } else {
            0
        };
        let b2: int = if n > 2 {
            input[2] as int
        } else {
            0
        };
        b64_group(input[0] as int, b1, b2, n) + base64(input.skip(n))
    }
}

/// The base64 text of `input` has four characters for every started group
/// of three bytes.
pub proof fn law_base64_length(input: Seq<u8>)
    ensures
        base64(input).len() == 4 * ((input.len() + 2) / 3),
    decreases input.len(),
{
    if input.len() > 0 {
        let n: int = if input.len() < 3 {
            input.len() as int
        } else {
            3
        };
        law_base64_length(input.skip(n));
    }
}

/// The digits of base64 are the standard alphabet: the digit of value `v`
/// is the character at index `v` of `A-Z a-z 0-9 + /`.
pub proof fn law_b64_alphabet(v: int)
    requires
        0 <= v < 64,
    ensures
        b64_digit(v) == "ABCDEFGHIJKLMNOPQRSTUVWXYZabcdefghijklmnopqrstuvwxyz0123456789+/"@[v],
{
    reveal_strlit("ABCDEFGHIJKLMNOPQRSTUVWXYZabcdefghijklmnopqrstuvwxyz0123456789+/");
    let a = "ABCDEFGHIJKLMNOPQRSTUVWXYZabcdefghijklmnopqrstuvwxyz0123456789+/"@;
    assert(a.len() == 64);
    if v < 26 {
        assert(((65 + v) as char) == a[v]) by {
            assert(a[v] as int == 65 + v);
        }
    } else if v < 52 {
        assert(((97 + v - 26) as char) == a[v]) by {
            assert(a[v] as int == 97 + v - 26);
        }
    } else if v < 62 {
        assert(((48 + v - 52) as char) == a[v]) by {
            assert(a[v] as int == 48 + v - 52);
        }
    }
}

/// The value a base64 digit stands for: its index in `A-Z a-z 0-9 + /`.
pub open spec fn b64_index(c: char) -> int {
    let x = c as int;
    if 65 <= x <= 90 {
        x - 65
    } else if 97 <= x <= 122 {
        x - 97 + 26
    } else if 48 <= x <= 57 {
        x - 48 + 52
    } else if c == '+' {
        62
    } else {
        63
    }
}

proof fn lemma_index_of_digit(v: int)
    requires
        0 <= v < 64,
    ensures
        b64_index(b64_digit(v)) == v,
{
    if v < 26 {
        assert(((65 + v) as char) as int == 65 + v);
    } else if v < 52 {
        assert(((97 + v - 26) as char) as int == 97 + v - 26);
    } else if v < 62 {
        assert(((48 + v - 52) as char) as int == 48 + v - 52);
    }
}

/// Three bytes encode as four digits whose values, read as 6-bit groups
/// from the highest, give back the 24 bits of the three bytes.
pub proof fn law_base64_group_decodes(b0: u8, b1: u8, b2: u8)
    ensures
        ({
            let g = base64(seq![b0, b1, b2]);
            &&& g.len() == 4
            &&& b64_index(g[0]) * 262144 + b64_index(g[1]) * 4096 + b64_index(g[2]) * 64
                + b64_index(g[3]) == b0 * 65536 + b1 * 256 + b2
        }),
{
    let input = seq![b0, b1, b2];
    let t: int = b0 * 65536 + b1 * 256 + b2;
    assert(input.skip(3) =~= Seq::<u8>::empty());
    assert(base64(input.skip(3)) =~= Seq::<char>::empty());
    assert(base64(input) =~= b64_group(b0 as int, b1 as int, b2 as int, 3));
    assert(0 <= t < 16777216) by (nonlinear_arith)
        requires
            t == b0 * 65536 + b1 * 256 + b2,
            0 <= b0 < 256,
            0 <= b1 < 256,
            0 <= b2 < 256,
    ;
    let x: u32 = t as u32;
    assert(x == (x / 262144) * 262144 + ((x / 4096) % 64) * 4096 + ((x / 64) % 64) * 64 + x % 64
        && x / 262144 < 64) by (bit_vector)
        requires
            x < 16777216,
    ;
    lemma_index_of_digit(t / 262144);
    lemma_index_of_digit((t / 4096) % 64);
    lemma_index_of_digit((t / 64) % 64);
    lemma_index_of_digit(t % 64);
}

/// A last group of one or two bytes encodes as digits that give back those
/// bytes in their high bits (the missing bytes read as zero), followed by
/// the padding.
pub proof fn law_base64_short_groups_decode(b0: u8, b1: u8)
    ensures
        ({
            let g = base64(seq![b0, b1]);
            &&& g.len() == 4
            &&& g[3] == '='
            &&& b64_index(g[0]) * 262144 + b64_index(g[1]) * 4096 + b64_index(g[2]) * 64 == b0
                * 65536 + b1 * 256
        }),
        ({
            let g = base64(seq![b0]);
            &&& g.len() == 4
            &&& g[2] == '=' && g[3] == '='
            &&& b64_index(g[0]) * 262144 + b64_index(g[1]) * 4096 == b0 * 65536
        }),
{
    let two = seq![b0, b1];
    let one = seq![b0];
    assert(two.skip(2) =~= Seq::<u8>::empty());
    assert(one.skip(1) =~= Seq::<u8>::empty());
    assert(base64(two.skip(2)) =~= Seq::<char>::empty());
    assert(base64(one.skip(1)) =~= Seq::<char>::empty());
    assert(base64(two) =~= b64_group(b0 as int, b1 as int, 0, 2));
    assert(base64(one) =~= b64_group(b0 as int, 0, 0, 1));
    let t2: int = b0 * 65536 + b1 * 256;
    let t1: int = b0 * 65536;
    assert(0 <= t2 < 16777216 && 0 <= t1 < 16777216) by (nonlinear_arith)
        requires
            t2 == b0 * 65536 + b1 * 256,
            t1 == b0 * 65536,
            0 <= b0 < 256,
            0 <= b1 < 256,
    ;
    let x: u32 = t2 as u32;
    let y: u32 = t1 as u32;
    assert(x == (x / 262144) * 262144 + ((x / 4096) % 64) * 4096 + ((x / 64) % 64) * 64
        && x / 262144 < 64) by (bit_vector)
        requires
            x < 16777216,
            x % 256 == 0,
    ;
    assert(y == (y / 262144) * 262144 + ((y / 4096) % 64) * 4096 && y / 262144 < 64) by (bit_vector)
        requires
            y < 16777216,
            y % 65536 == 0,
    ;
    lemma_index_of_digit(t2 / 262144);
    lemma_index_of_digit((t2 / 4096) % 64);
    lemma_index_of_digit((t2 / 64) % 64);
    lemma_index_of_digit(t1 / 262144);
    lemma_index_of_digit((t1 / 4096) % 64);
}

/// How many `=` pad the base64 text of `n` bytes.
pub open spec fn pad_count(n: int) -> int {
    (3 - n % 3) % 3
}

/// No base64 digit is the pad character.
proof fn lemma_digit_not_pad(v: int)
    requires
        0 <= v < 64,
    ensures
        b64_digit(v) != '=',
{
    if v < 26 {
        assert(((65 + v) as char) as int == 65 + v);
    } else if v < 52 {
        assert(((97 + v - 26) as char) as int == 97 + v - 26);
    } else if v < 62 {
        assert(((48 + v - 52) as char) as int == 48 + v - 52);
    }
}

/// The digits of a group are never `=`; its pads are.
proof fn lemma_group_pads(b0: int, b1: int, b2: int, n: int)
    requires
        0 <= b0 < 256,
        0 <= b1 < 256,
        0 <= b2 < 256,
        1 <= n <= 3,
    ensures
        b64_group(b0, b1, b2, n)[0] != '=',
        b64_group(b0, b1, b2, n)[1] != '=',
        (b64_group(b0, b1, b2, n)[2] == '=') == (n < 2),
        (b64_group(b0, b1, b2, n)[3] == '=') == (n < 3),
{
    let t = b0 * 65536 + b1 * 256 + b2;
    assert(0 <= t < 16777216) by (nonlinear_arith)
        requires
            0 <= b0 < 256,
            0 <= b1 < 256,
            0 <= b2 < 256,
            t == b0 * 65536 + b1 * 256 + b2,
    ;
    lemma_digit_not_pad(t / 262144);
    lemma_digit_not_pad((t / 4096) % 64);
    lemma_digit_not_pad((t / 64) % 64);
    lemma_digit_not_pad(t % 64);
}

/// The base64 text of `input` ends in exactly `pad_count` characters `=`
/// (none for a multiple of three bytes, two for one byte over, one for two
/// over), and has no `=` anywhere else.
pub proof fn law_base64_padding(input: Seq<u8>)
    ensures
        forall|i: int|
            0 <= i < base64(input).len() ==> ((#[trigger] base64(input)[i] == '=') == (i
                >= base64(input).len() - pad_count(input.len() as int))),
    decreases input.len(),
{
    if input.len() > 0 {
        let n: int = if input.len() < 3 {
            input.len() as int
        } else {
            3
        };
        let b1: int = if n > 1 {
            input[1] as int
        } else {
            0
        };
        let b2: int = if n > 2 {
            input[2] as int
        } else {
            0
        };
        let g = b64_group(input[0] as int, b1, b2, n);
        let rest = input.skip(n);
        law_base64_padding(rest);
        law_base64_length(input);
        law_base64_length(rest);
        lemma_group_pads(input[0] as int, b1, b2, n);
        assert(base64(input) == g + base64(rest));
        if input.len() <= 3 {
            assert(rest.len() == 0);
            assert(base64(rest).len() == 0);
        } else {
            assert(pad_count(input.len() as int) == pad_count(rest.len() as int));
        }
        assert forall|i: int| 0 <= i < base64(input).len() implies ((#[trigger] base64(input)[i]
            == '=') == (i >= base64(input).len() - pad_count(input.len() as int))) by {
            if i >= 4 {
                assert(base64(input)[i] == base64(rest)[i - 4]);
            } else {
                assert(base64(input)[i] == g[i]);
            }
        }
    }
}

/// The base64 digit for `v < 64`.
fn b64_digit_of(v: u32) -> (c: char)
    requires
        v < 64,
    ensures
        c == b64_digit(v as int),
{
    if v < 26 {
        ((65 + v) as u8) as char
    } else if v < 52 {
        ((97 + v - 26) as u8) as char
    } else if v < 62 {
        ((48 + v - 52) as u8) as char
    } else if v == 62 {
        '+'
    } else {
        '/'
    }
}

/// Encodes `input` as standard base64 with `=` padding.
pub fn base64_encode(input: &[u8]) -> (r: String)
    ensures
        r@ == base64(input@),
{
    let mut out = String::new();
    let mut i: usize = 0;
    assert(input@.skip(0) =~= input@);
    while i < input.len()
        invariant
            i <= input@.len(),
            out@ + base64(input@.skip(i as int)) == base64(input@),
        decreases input@.len() - i,
    {
        let n: usize = if input.len() - i < 3 {
            input.len() - i
        } else {
            3
        };
        let b0 = input[i] as u32;
        let b1 = if n > 1 {
            input[i + 1] as u32
        } else {
            0
        };
        let b2 = if n > 2 {
            input[i + 2] as u32
        } else {
            0
        };
        let triple: u32 = (b0 << 16u32) | (b1 << 8u32) | b2;
        proof {
            assert(triple == b0 * 65536 + b1 * 256 + b2 && (triple >> 18u32) & 63 == triple / 262144
                && (triple >> 12u32) & 63 == (triple / 4096) % 64 && (triple >> 6u32) & 63 == (
            triple / 64) % 64 && triple & 63 == triple % 64) by (bit_vector)
                requires
                    b0 < 256 && b1 < 256 && b2 < 256 && triple == (b0 << 16u32) | (b1 << 8u32)
                        | b2,
            ;
        }
        let ghost before = out@;
        out.push(b64_digit_of((triple >> 18u32) & 63));
        out.push(b64_digit_of((triple >> 12u32) & 63));
        out.push(
            if n > 1 {
                b64_digit_of((triple >> 6u32) & 63)
            } else {
                '='
            },
        );
        out.push(
            if n > 2 {
                b64_digit_of(triple & 63)
            } else {
                '='
            },
        );
        proof {
            let rest = input@.skip(i as int);
            assert(rest[0] == input@[i as int]);
            assert(n > 1 ==> rest[1] == input@[i + 1]);
            assert(n > 2 ==> rest[2] == input@[i + 2]);
            assert(rest.skip(n as int) =~= input@.skip(i + n));
            assert(out@ =~= before + b64_group(b0 as int, b1 as int, b2 as int, n as int));
            assert(base64(rest) == b64_group(b0 as int, b1 as int, b2 as int, n as int) + base64(
                rest.skip(n as int),
            ));
            assert(before + base64(rest) =~= out@ + base64(input@.skip(i + n)));
        }
        i = i + n;
    }
    assert(out@ + base64(input@.skip(i as int)) =~= out@);
    out
}

/// `a - b`, or 0 when `b` is larger.
pub open spec fn sat_sub(a: int, b: int) -> int {
    if a > b {
        a - b
    } else {
        0
    }
}

/// The smaller of two integers.
pub open spec fn min2(a: int, b: int) -> int {
    if a <= b {
        a
    } else {
        b
    }
}

/// Rows of the chat view on a terminal of `rows` rows (two are kept for the
/// input and the status line).
pub open spec fn visible_rows(rows: u16) -> int {
    sat_sub(rows as int, 2)
}

/// The first line of the buffer shown: the last screenful, moved up by the
/// scroll offset, never before the start.
pub open spec fn view_start(total: int, visible: int, offset: int) -> int {
    let s = if offset == 0 {
        sat_sub(total, visible)
    } else {
        sat_sub(total, offset + visible)
    };
    min2(s, sat_sub(total, visible))
}

/// The chat view: the lines written so far (wrapped to the terminal), the
/// text of the line still being written, the scroll position, colors, and
/// the selected range of lines.
pub struct Renderer {
    pub lines: u16,
    pub col: u16,
    pub spinner_tick: bool,
    pub buffer: Vec<LineEntry>,
    pub partial: String,
    pub partial_color: Color,
    pub scroll_offset: usize,
    pub input_scroll_offset: usize,
    pub monochrome: bool,
    pub chat_bg: Option<Color>,
    pub input_bg: Option<Color>,
    pub status_bg: Option<Color>,
    pub selection_active: bool,
    pub selection_start: Option<usize>,
    pub selection_end: Option<usize>,
}

impl Renderer {
    /// The texts and colors of the buffer.
    pub open spec fn lines_view(&self) -> Seq<(Seq<char>, Color)> {
        entries_view(self.buffer@)
    }

    /// The largest scroll offset on a terminal of `rows` rows.
    pub open spec fn max_offset(&self, rows: u16) -> int {
        sat_sub(self.buffer@.len() as int, visible_rows(rows))
    }

    /// An empty view at the bottom, nothing selected, white text.
    pub fn new() -> (r: Self)
        ensures
            r.buffer@.len() == 0,
            r.partial@.len() == 0,
            r.partial_color == Color::White,
            r.lines == 0 && r.col == 0 && !r.spinner_tick,
            r.scroll_offset == 0 && r.input_scroll_offset == 0,
            !r.monochrome,
            r.chat_bg is None && r.input_bg is None && r.status_bg is None,
            !r.selection_active && r.selection_start is None && r.selection_end is None,
    {
        Renderer {
            lines: 0,
            col: 0,
            spinner_tick: false,
            buffer: Vec::new(),
            partial: String::new(),
            partial_color: Color::White,
            scroll_offset: 0,
            input_scroll_offset: 0,
            monochrome: false,
            chat_bg: None,
            input_bg: None,
            status_bg: None,
            selection_active: false,
            selection_start: None,
            selection_end: None,
        }
    }

    /// Turns monochrome drawing on or off.
    pub fn set_monochrome(&mut self, monochrome: bool)
        ensures
            *final(self) == (Renderer { monochrome, ..*old(self) }),
    {
        self.monochrome = monochrome;
    }

    /// Sets the background colors of the chat, the input and the status
    /// line.
    pub fn set_background_colors(
        &mut self,
        chat_bg: Option<Color>,
        input_bg: Option<Color>,
        status_bg: Option<Color>,
    )
        ensures
            *final(self) == (Renderer { chat_bg, input_bg, status_bg, ..*old(self) }),
    {
        self.chat_bg = chat_bg;
        self.input_bg = input_bg;
        self.status_bg = status_bg;
    }

    /// The width lines are wrapped to on a terminal of `cols` columns (one
    /// column is kept free).
    pub fn line_width(&self, cols: u16) -> (r: usize)
        ensures
            r == sat_sub(cols as int, 1),
    {
        if cols > 0 {
            (cols - 1) as usize
        } else {
            0
        }
    }

    /// The number of lines in the buffer.
    pub fn buffer_len(&self) -> (r: usize)
        ensures
            r == self.buffer@.len(),
    {
        self.buffer.len()
    }

    /// Rows of the chat view on a terminal of `rows` rows.
    pub fn visible_lines(&self, rows: u16) -> (r: usize)
        ensures
            r == visible_rows(rows),
    {
        if rows > 2 {
            (rows - 2) as usize
        } else {
            0
        }
    }

    /// Moves the line still being written into the buffer, wrapped to
    /// `max_width` columns.
    pub fn commit_partial(&mut self, max_width: usize)
        ensures
            final(self).lines_view() == old(self).lines_view() + (if old(self).partial@.len() > 0 {
                wrapped(old(self).partial@, max_width as int).map_values(
                    |t: Seq<char>| (t, old(self).partial_color),
                )
            } else {
                Seq::empty()
            }),
            final(self).partial@.len() == 0,
            *final(self) == (Renderer {
                buffer: final(self).buffer,
                partial: final(self).partial,
                ..*old(self)
            }),
    {
        if self.partial.as_str().is_empty() {
            proof {
                assert(self.lines_view() + Seq::<(Seq<char>, Color)>::empty() =~= self.lines_view());
            }
            return;
        }
        let c = self.partial_color;
        let chunks = word_wrap(self.partial.as_str(), max_width);
        let ghost start = self.lines_view();
        let ghost s0 = *self;
        let mut i: usize = 0;
        while i < chunks.len()
            invariant
                i <= chunks@.len(),
                *self == (Renderer { buffer: self.buffer, ..s0 }),
                self.lines_view() == start + views(chunks@).take(i as int).map_values(
                    |t: Seq<char>| (t, c),
                ),
            decreases chunks@.len() - i,
        {
            let t = string_of(chars_of(chunks[i].as_str()).as_slice());
            let ghost before = self.buffer@;
            self.buffer.push(LineEntry { text: t, color: c });
            assert(entries_view(self.buffer@) =~= entries_view(before).push((chunks@[i as int]@, c)));
            assert(views(chunks@).take(i + 1).map_values(|t: Seq<char>| (t, c)) =~= views(chunks@).take(
                i as int,
            ).map_values(|t: Seq<char>| (t, c)).push((chunks@[i as int]@, c)));
            i = i + 1;
        }
        assert(views(chunks@).take(chunks@.len() as int) =~= views(chunks@));
        self.partial = String::new();
    }

    /// Replaces the lines from `start` on by `lines`, on a terminal of `cols`
    /// columns and `rows` rows: the line still being written is committed
    /// first, and the scroll offset is kept in range.
    pub fn replace_from(&mut self, start: usize, lines: Vec<LineEntry>, cols: u16, rows: u16)
        ensures
            ({
                let committed = old(self).lines_view() + (if old(self).partial@.len() > 0 {
                    wrapped(old(self).partial@, sat_sub(cols as int, 1)).map_values(
                        |t: Seq<char>| (t, old(self).partial_color),
                    )
                } else {
                    Seq::empty()
                });
                final(self).lines_view() == committed.take(min2(start as int, committed.len() as int))
                    + entries_view(lines@)
            }),
            final(self).lines == final(self).buffer@.len() as u16,
            final(self).col == 0,
            final(self).partial@.len() == 0,
            final(self).scroll_offset == min2(old(self).scroll_offset as int, final(self).max_offset(rows)),
            *final(self) == (Renderer {
                buffer: final(self).buffer,
                partial: final(self).partial,
                lines: final(self).lines,
                col: 0,
                scroll_offset: final(self).scroll_offset,
                ..*old(self)
            }),
    {
        let w = self.line_width(cols);
        self.commit_partial(w);
        let ghost committed = self.lines_view();
        self.buffer.truncate(start);
        let ghost kept = self.buffer@;
        let ghost s1 = *self;
        let mut rest = lines;
        let ghost added = rest@;
        while rest.len() > 0
            invariant
                *self == (Renderer { buffer: self.buffer, ..s1 }),
                entries_view(self.buffer@) + entries_view(rest@) == entries_view(kept) + entries_view(added),
            decreases rest@.len(),
        {
            let ghost b0 = self.buffer@;
            let ghost r0 = rest@;
            let e = rest.remove(0);
            self.buffer.push(e);
            assert(entries_view(self.buffer@) + entries_view(rest@) =~= entries_view(b0) + entries_view(r0));
        }
        assert(entries_view(self.buffer@) + entries_view(rest@) =~= entries_view(self.buffer@));
        proof {
            if start as int <= committed.len() {
                assert(entries_view(kept) =~= committed.take(start as int));
            } else {
                assert(entries_view(kept) =~= committed.take(committed.len() as int));
            }
        }
        self.lines = self.buffer.len() as u16;
        self.col = 0;
        let visible = self.visible_lines(rows);
        let max_offset = if self.buffer.len() > visible {
            self.buffer.len() - visible
        } else {
            0
        };
        if self.scroll_offset > max_offset {
            self.scroll_offset = max_offset;
        }
    }

    /// Forgets the selection.
    pub fn clear_selection(&mut self)
        ensures
            *final(self) == (Renderer {
                selection_active: false,
                selection_start: None,
                selection_end: None,
                ..*old(self)
            }),
    {
        self.selection_active = false;
        self.selection_start = None;
        self.selection_end = None;
    }

    /// Whether buffer line `idx` is in the selected range (the selection
    /// runs between its two ends, in either order).
    pub fn line_selected(&self, idx: usize) -> (r: bool)
        ensures
            r == (self.selection_active && match (self.selection_start, self.selection_end) {
                (Some(s), Some(e)) => min2(s as int, e as int) <= idx <= (if s <= e {
                    e as int
                } else {
                    s as int
                }),
                _ => false,
            }),
    {
        if !self.selection_active {
            return false;
        }
        match (self.selection_start, self.selection_end) {
            (Some(s), Some(e)) => {
                let lo = if s <= e {
                    s
                } else {
                    e
                };
                let hi = if s <= e {
                    e
                } else {
                    s
                };
                lo <= idx && idx <= hi
            },
            _ => false,
        }
    }

    /// Empties the chat view: no lines, nothing being written, at the
    /// bottom, nothing selected, output at the top left.
    pub fn clear_all(&mut self)
        ensures
            final(self).buffer@.len() == 0,
            final(self).partial@.len() == 0,
            *final(self) == (Renderer {
                buffer: final(self).buffer,
                partial: final(self).partial,
                scroll_offset: 0,
                selection_active: false,
                selection_start: None,
                selection_end: None,
                lines: 0,
                col: 0,
                ..*old(self)
            }),
    {
        self.buffer = Vec::new();
        self.partial = String::new();
        self.scroll_offset = 0;
        self.clear_selection();
        self.lines = 0;
        self.col = 0;
    }

    /// Whether the view is scrolled up from the bottom.
    pub fn is_scrolling(&self) -> (r: bool)
        ensures
            r == (self.scroll_offset > 0),
    {
        self.scroll_offset > 0
    }

    /// Scrolls up one line, as far as the first screenful.
    pub fn scroll_line_up(&mut self, rows: u16)
        ensures
            final(self).scroll_offset == scrolled_up(
                old(self).scroll_offset as int,
                old(self).max_offset(rows),
            ),
            *final(self) == (Renderer { scroll_offset: final(self).scroll_offset, ..*old(self) }),
    {
        let visible = self.visible_lines(rows);
        let max_offset = if self.buffer.len() > visible {
            self.buffer.len() - visible
        } else {
            0
        };
        if self.scroll_offset < max_offset {
            self.scroll_offset = self.scroll_offset + 1;
        }
    }

    /// Scrolls down one line, as far as the bottom.
    pub fn scroll_line_down(&mut self)
        ensures
            final(self).scroll_offset == scrolled_down(old(self).scroll_offset as int),
            *final(self) == (Renderer { scroll_offset: final(self).scroll_offset, ..*old(self) }),
    {
        if self.scroll_offset > 0 {
            self.scroll_offset = self.scroll_offset - 1;
        }
    }

    /// Scrolls up a page (the view less two lines, at least one line), as far
    /// as the first screenful.
    pub fn scroll_page_up(&mut self, rows: u16)
        ensures
            final(self).scroll_offset == min2(
                old(self).scroll_offset + page_size(rows),
                old(self).max_offset(rows),
            ),
            *final(self) == (Renderer { scroll_offset: final(self).scroll_offset, ..*old(self) }),
    {
        let visible = self.visible_lines(rows);
        let page = if visible > 3 {
            visible - 2
        } else {
            1
        };
        let max_offset = if self.buffer.len() > visible {
            self.buffer.len() - visible
        } else {
            0
        };
        self.scroll_offset = if self.scroll_offset >= max_offset || max_offset - self.scroll_offset
            <= page {
            max_offset
        } else {
            self.scroll_offset + page
        };
    }

    /// Scrolls down a page, as far as the bottom.
    pub fn scroll_page_down(&mut self, rows: u16)
        ensures
            final(self).scroll_offset == sat_sub(old(self).scroll_offset as int, page_size(rows)),
            *final(self) == (Renderer { scroll_offset: final(self).scroll_offset, ..*old(self) }),
    {
        let visible = self.visible_lines(rows);
        let page = if visible > 3 {
            visible - 2
        } else {
            1
        };
        if self.scroll_offset <= page {
            self.scroll_offset = 0;
        } else {
            self.scroll_offset = self.scroll_offset - page;
        }
    }

    /// Scrolls to the first screenful.
    pub fn scroll_to_top(&mut self, rows: u16)
        ensures
            final(self).scroll_offset == old(self).max_offset(rows),
            *final(self) == (Renderer { scroll_offset: final(self).scroll_offset, ..*old(self) }),
    {
        let visible = self.visible_lines(rows);
        self.scroll_offset = if self.buffer.len() > visible {
            self.buffer.len() - visible
        } else {
            0
        };
    }

    /// Scrolls to the bottom: the line still being written is committed,
    /// the cursor goes to the start of a line after the buffer, and the view
    /// is drawn again (by the caller).
    pub fn scroll_to_bottom(&mut self, cols: u16)
        ensures
            final(self).scroll_offset == 0,
            final(self).col == 0,
            final(self).lines == final(self).buffer@.len() as u16,
            final(self).partial@.len() == 0,
            final(self).lines_view() == old(self).lines_view() + (if old(self).partial@.len() > 0 {
                wrapped(old(self).partial@, sat_sub(cols as int, 1)).map_values(
                    |t: Seq<char>| (t, old(self).partial_color),
                )
            } else {
                Seq::empty()
            }),
    {
        self.scroll_offset = 0;
        let w = self.line_width(cols);
        self.commit_partial(w);
        self.col = 0;
        self.lines = self.buffer.len() as u16;
    }

    /// Keeps the scroll offset in range after the terminal was resized to
    /// `rows` rows.
    pub fn resize(&mut self, rows: u16)
        ensures
            final(self).scroll_offset == min2(old(self).scroll_offset as int, old(self).max_offset(rows)),
            *final(self) == (Renderer { scroll_offset: final(self).scroll_offset, ..*old(self) }),
    {
        let visible = self.visible_lines(rows);
        let max_offset = if self.buffer.len() > visible {
            self.buffer.len() - visible
        } else {
            0
        };
        if self.scroll_offset > max_offset {
            self.scroll_offset = max_offset;
        }
    }

    /// The text of the selected lines, joined by newlines; none without a
    /// selection or when it holds no text.
    pub fn selected_text(&self) -> (r: Option<String>)
        ensures
            match (self.selection_start, self.selection_end) {
                (Some(s), Some(e)) => {
                    let lo = min2(s as int, e as int);
                    let hi = if s <= e {
                        e as int
                    } else {
                        s as int
                    };
                    let t = joined_lines(self.lines_view(), lo, hi + 1);
                    match r {
                        Some(x) => t.len() > 0 && x@ == t,
                        None => t.len() == 0,
                    }
                },
                _ => r is None,
            },
    {
        let (start, end) = match (self.selection_start, self.selection_end) {
            (Some(s), Some(e)) => if s <= e {
                (s, e)
            } else {
                (e, s)
            },
            _ => return None,
        };
        let mut result = String::new();
        let mut i: usize = start;
        let n = self.buffer.len();
        let stop = if end < n {
            end + 1
        } else {
            n
        };
        while i < stop
            invariant
                start <= i,
                i <= stop || i == start,
                stop <= n,
                n == self.buffer@.len(),
                result@ == joined_lines(self.lines_view(), start as int, i as int),
            decreases stop - i,
        {
            let ghost prev = result@;
            let nonempty = crate::text::byte_len(result.as_str()) > 0;
            proof {
                crate::text::lemma_utf8_len_bounds(prev);
            }
            if nonempty {
                result.push('\n');
            }
            push_str_chars(&mut result, self.buffer[i].text.as_str());
            assert(self.lines_view()[i as int].0 == self.buffer@[i as int].text@);
            i = i + 1;
        }
        proof {
            if end >= n {
                lemma_joined_tail(self.lines_view(), start as int, end + 1);
            }
        }
        let empty_result = crate::text::byte_len(result.as_str()) == 0;
        proof {
            crate::text::lemma_utf8_len_bounds(result@);
        }
        if empty_result {
            None
        } else {
            Some(result)
        }
    }
}

/// The scroll offset after scrolling up a line, as far as `max`.
pub open spec fn scrolled_up(offset: int, max: int) -> int {
    if offset < max {
        offset + 1
    } else {
        offset
    }
}

/// The scroll offset after scrolling down a line, as far as the bottom.
pub open spec fn scrolled_down(offset: int) -> int {
    if offset > 0 {
        offset - 1
    } else {
        0
    }
}

/// Scrolling up a line and then down a line comes back to where the view
/// was, unless it was already at the top; scrolling down and then up comes
/// back unless it was at the bottom.
pub proof fn law_scroll_round_trip(offset: int, max: int)
    requires
        0 <= offset,
    ensures
        offset < max ==> scrolled_down(scrolled_up(offset, max)) == offset,
        0 < offset <= max ==> scrolled_up(scrolled_down(offset), max) == offset,
{
}

/// Every scroll keeps the offset between the bottom (0) and the first
/// screenful (`max`).
pub proof fn law_scroll_in_range(offset: int, max: int, rows: u16)
    requires
        0 <= offset <= max,
    ensures
        0 <= scrolled_up(offset, max) <= max,
        0 <= scrolled_down(offset) <= max,
        0 <= min2(offset + page_size(rows), max) <= max,
        0 <= sat_sub(offset, page_size(rows)) <= max,
{
}

/// Lines after a page up or down on a terminal of `rows` rows: the view less
/// two lines, at least one.
pub open spec fn page_size(rows: u16) -> int {
    let v = visible_rows(rows);
    if v - 2 > 1 {
        v - 2
    } else {
        1
    }
}

/// The texts of lines `lo .. hi` that exist, each non-empty result separated
/// from the next by a newline (as the selection is copied).
pub open spec fn joined_lines(ls: Seq<(Seq<char>, Color)>, lo: int, hi: int) -> Seq<char>
    decreases hi - lo,
{
    if hi <= lo {
        Seq::empty()
    } else {
        let prev = joined_lines(ls, lo, hi - 1);
        let i = hi - 1;
        if 0 <= i < ls.len() {
            (if prev.len() > 0 {
                prev.push('\n')
            } else {
                prev
            }) + ls[i].0
        } else {
            prev
        }
    }
}

/// Lines past the end of the buffer add nothing.
pub proof fn lemma_joined_tail(ls: Seq<(Seq<char>, Color)>, lo: int, hi: int)
    requires
        hi >= ls.len(),
    ensures
        joined_lines(ls, lo, hi) == joined_lines(ls, lo, if lo > ls.len() {
            lo
        } else {
            ls.len() as int
        }),
    decreases hi - ls.len(),
{
    if hi > ls.len() && hi > lo {
        lemma_joined_tail(ls, lo, hi - 1);
    }
}

/// How the input area is drawn: the prompt, which input lines are shown
/// from which terminal row, the text shown on each (scrolled sideways on the
/// cursor's line and cut to the width), and where the cursor goes.
pub struct InputLayout {
    pub prompt: String,
    pub first_visible: usize,
    pub visible_line_count: usize,
    pub top_row: u16,
    pub shown: Vec<String>,
    pub cursor_x: u16,
    pub cursor_row: u16,
}

/// The sideways scroll of the cursor's line: the offset kept between
/// frames and the offset used, given the previous offset `iso`, the
/// cursor's column, the length of its line and the width available.
pub open spec fn h_scroll_of(iso: int, col: int, len: int, width: int) -> (int, int) {
    if len > width {
        let iso2 = if col < iso {
            col
        } else if col >= iso + width {
            col - width + 1
        } else {
            iso
        };
        (iso2, min2(iso2, len - width))
    } else {
        (0, 0)
    }
}

/// The cursor's line and column in the input.
pub open spec fn cursor_lc(input: Seq<char>, cursor: int) -> (nat, nat) {
    line_col(input.take(chars_before(input, cursor)))
}

/// The layout of the input area for `input` with the cursor at byte
/// `cursor`, on a terminal of `cols` by `rows`, after a sideways scroll of
/// `iso` and with `prompt` shown.
pub open spec fn layout_of(
    input: Seq<char>,
    cursor: int,
    cols: u16,
    rows: u16,
    iso: int,
) -> (int, int, int, int, int, int, int) {
    let ls = split_lines(input);
    let n = ls.len() as int;
    let avail = visible_rows(rows);
    let first = if n > avail {
        n - avail
    } else {
        0
    };
    let vlc = if n > avail {
        avail
    } else {
        n
    };
    let lc = cursor_lc(input, cursor);
    let width = sat_sub(cols as int, 2);
    let len = if (lc.0 as int) < n {
        ls[lc.0 as int].len() as int
    } else {
        0
    };
    let h = h_scroll_of(iso, lc.1 as int, len, width);
    (first, vlc, avail - vlc + 1, width, h.0, h.1, lc.0 as int)
}

/// The text shown for input line `i`: scrolled by `h` when it holds the
/// cursor, cut to `width` characters.
pub open spec fn shown_line(ls: Seq<Seq<char>>, i: int, cursor_line: int, h: int, width: int) -> Seq<char> {
    let off = if i == cursor_line {
        h
    } else {
        0
    };
    take_chars(skip_chars(ls[i], off), width)
}

impl Renderer {
    /// Lays out the input area (see `layout_of`) for drawing: while a run is
    /// active the prompt blinks between `. ` and `: `, else it is `> `; the
    /// sideways scroll follows the cursor. Needs at least three rows.
    #[verifier::rlimit(60)]
    #[verifier::spinoff_prover]
    pub fn input_layout(
        &mut self,
        input_line: &str,
        cursor_pos: usize,
        is_running: bool,
        cols: u16,
        rows: u16,
    ) -> (r: InputLayout)
        requires
            rows >= 3,
            input_line@.len() < usize::MAX,
        ensures
            ({
                let l = layout_of(input_line@, cursor_pos as int, cols, rows, old(self).input_scroll_offset as int);
                let ls = split_lines(input_line@);
                let lc = cursor_lc(input_line@, cursor_pos as int);
                &&& r.first_visible == l.0
                &&& r.visible_line_count == l.1
                &&& r.top_row == l.2
                &&& final(self).input_scroll_offset == l.4
                &&& views(r.shown@).len() == l.1
                &&& forall|k: int| 0 <= k < l.1 ==> #[trigger] views(r.shown@)[k] == shown_line(ls, l.0 + k, l.6, l.5, l.3)
                &&& r.cursor_row == (l.2 + sat_sub(l.6, l.0)) as u16
                &&& r.cursor_x == (2 + sat_sub(lc.1 as int, l.5)) as u16
            }),
            final(self).spinner_tick == (if is_running {
                !old(self).spinner_tick
            } else {
                old(self).spinner_tick
            }),
            r.prompt@ == (if !is_running {
                seq!['>', ' ']
            } else if final(self).spinner_tick {
                seq!['.', ' ']
            } else {
                seq![':', ' ']
            }),
            *final(self) == (Renderer {
                spinner_tick: final(self).spinner_tick,
                input_scroll_offset: final(self).input_scroll_offset,
                ..*old(self)
            }),
    {
        let ghost iso0 = self.input_scroll_offset as int;
        let v = chars_of(input_line);
        let lines = split_newlines(v.as_slice());
        let ghost ls = split_lines(input_line@);
        assert(char_views(lines@) == ls);
        let line_count = lines.len();
        let available_rows: usize = (rows - 2) as usize;
        let need_scroll = line_count > available_rows;
        let first_visible = if need_scroll {
            line_count - available_rows
        } else {
            0
        };
        let mut prompt = String::new();
        if is_running {
            self.spinner_tick = !self.spinner_tick;
            if self.spinner_tick {
                prompt.push('.');
            } else {
                prompt.push(':');
            }
        } else {
            prompt.push('>');
        }
        prompt.push(' ');
        let (cursor_line, cursor_col) = cursor_to_line_col(input_line, cursor_pos);
        proof {
            crate::editor::lemma_chars_before_bounds(input_line@, cursor_pos as int);
            crate::cursor::lemma_line_col_bound(input_line@.take(chars_before(input_line@, cursor_pos as int)));
        }
        let visible_width: usize = if cols > 2 {
            (cols - 2) as usize
        } else {
            0
        };
        let cursor_line_len: usize = if cursor_line < line_count {
            lines[cursor_line].len()
        } else {
            0
        };
        proof {
            if (cursor_line as int) < ls.len() {
                assert(ls[cursor_line as int] == lines@[cursor_line as int]@);
            }
        }
        let mut h_scroll: usize = 0;
        if cursor_line_len > visible_width {
            if cursor_col < self.input_scroll_offset {
                self.input_scroll_offset = cursor_col;
            } else if cursor_col >= visible_width && cursor_col - visible_width
                >= self.input_scroll_offset {
                self.input_scroll_offset = cursor_col - visible_width + 1;
            }
            let max_h_scroll = cursor_line_len - visible_width;
            h_scroll = if self.input_scroll_offset < max_h_scroll {
                self.input_scroll_offset
            } else {
                max_h_scroll
            };
        } else {
            self.input_scroll_offset = 0;
        }
        let visible_line_count = if need_scroll {
            available_rows
        } else {
            line_count
        };
        let top_row: u16 = ((rows - 2) as usize - visible_line_count + 1) as u16;
        let ghost l = layout_of(input_line@, cursor_pos as int, cols, rows, iso0);
        assert(first_visible == l.0 && visible_line_count == l.1 && top_row == l.2);
        assert(self.input_scroll_offset == l.4 && h_scroll == l.5);
        let mut shown: Vec<String> = Vec::new();
        let mut k: usize = 0;
        while k < visible_line_count
            invariant
                k <= visible_line_count,
                visible_line_count == l.1,
                first_visible == l.0,
                first_visible + visible_line_count == line_count,
                line_count == lines@.len(),
                char_views(lines@) == ls,
                h_scroll == l.5,
                visible_width == l.3,
                cursor_line == l.6,
                views(shown@).len() == k,
                forall|j: int| 0 <= j < k ==> #[trigger] views(shown@)[j] == shown_line(ls, l.0 + j, l.6, l.5, l.3),
            decreases visible_line_count - k,
        {
            let i = first_visible + k;
            let off = if i == cursor_line {
                h_scroll
            } else {
                0
            };
            let rest = slice_skip(lines[i].as_slice(), off);
            let cut = slice_take(rest.as_slice(), visible_width);
            let ghost before = shown@;
            shown.push(string_of(cut.as_slice()));
            proof {
                assert(ls[i as int] == lines@[i as int]@);
                assert(views(shown@) =~= views(before).push(cut@));
                assert forall|j: int| 0 <= j < k + 1 implies #[trigger] views(shown@)[j] == shown_line(ls, l.0 + j, l.6, l.5, l.3) by {
                    if j < k {
                        assert(views(shown@)[j] == views(before)[j]);
                    }
                }
            }
            k = k + 1;
        }
        let cursor_render_idx = if cursor_line > first_visible {
            cursor_line - first_visible
        } else {
            0
        };
        let cursor_row = #[verifier::truncate] ((top_row as u128 + cursor_render_idx as u128) as u16);
        let back = if cursor_col > h_scroll {
            cursor_col - h_scroll
        } else {
            0
        };
        let cursor_x = #[verifier::truncate] ((2u128 + back as u128) as u16);
        InputLayout {
            prompt,
            first_visible,
            visible_line_count,
            top_row,
            shown,
            cursor_x,
            cursor_row,
        }
    }
}

/// The terminal rows a buffer line takes: its wrapping when it is longer
/// than `max` characters (the count cut to 16 bits), else one.
pub open spec fn rows_of(text: Seq<char>, max: int) -> int {
    if text.len() > max {
        (wrapped(text, max).len() as u16) as int
    } else {
        1
    }
}

/// The buffer line drawn at terminal row `row`, scanning from line `idx`
/// whose first row is `vrow`.
pub open spec fn line_at_row(ls: Seq<(Seq<char>, Color)>, idx: int, vrow: int, row: int, max: int) -> Option<int>
    decreases ls.len() - idx,
{
    if idx < 0 || idx >= ls.len() {
        None
    } else {
        let w = rows_of(ls[idx].0, max);
        if vrow + w > row {
            Some(idx)
        } else {
            line_at_row(ls, idx + 1, vrow + w, row, max)
        }
    }
}

/// The scroll position as a percentage: 100 at the first screenful, 0 at
/// the bottom.
pub open spec fn scroll_pct(total: int, visible: int, offset: int) -> int {
    if total > visible {
        min2((total - offset - visible) * 100 / (total - visible), 100)
    } else {
        0
    }
}

/// The first characters of a write segment that go on the current line:
/// those that fit in `avail` columns, cut after the last space among them
/// when the segment goes on past them.
pub open spec fn chunk_end_of(chars: Seq<char>, idx: int, avail: int) -> int {
    let end = min2(idx + avail, chars.len() as int);
    if end < chars.len() {
        let b = last_space_before(chars, idx, end);
        if b >= idx {
            b + 1
        } else {
            end
        }
    } else {
        end
    }
}

/// The last index in `idx .. end` holding a space, or -1.
pub open spec fn last_space_before(chars: Seq<char>, idx: int, end: int) -> int
    decreases end - idx,
{
    if end <= idx {
        -1
    } else if chars[end - 1] == ' ' {
        end - 1
    } else {
        last_space_before(chars, idx, end - 1)
    }
}

impl Renderer {
    /// The first buffer line shown on a terminal of `rows` rows.
    pub fn viewport_start(&self, rows: u16) -> (r: usize)
        ensures
            r == view_start(self.buffer@.len() as int, visible_rows(rows), self.scroll_offset as int),
    {
        let visible = self.visible_lines(rows);
        let total = self.buffer.len();
        let s = if self.scroll_offset == 0 {
            if total > visible {
                total - visible
            } else {
                0
            }
        } else if self.scroll_offset <= usize::MAX - visible && total > self.scroll_offset + visible {
            total - (self.scroll_offset + visible)
        } else {
            0
        };
        let cap = if total > visible {
            total - visible
        } else {
            0
        };
        if s < cap {
            s
        } else {
            cap
        }
    }

    /// The buffer line drawn at terminal row `row` of the chat view, on a
    /// terminal of `cols` by `rows`; none past the last line.
    pub fn buffer_line_at_row(&self, row: u16, cols: u16, rows: u16) -> (r: Option<usize>)
        ensures
            ({
                let ls = self.lines_view();
                let start = view_start(ls.len() as int, visible_rows(rows), self.scroll_offset as int);
                let res = if ls.len() == 0 {
                    None
                } else {
                    line_at_row(ls, start, 0, row as int, sat_sub(cols as int, 1))
                };
                match r {
                    Some(i) => res == Some(i as int),
                    None => res is None,
                }
            }),
    {
        let max_width = self.line_width(cols);
        let total = self.buffer.len();
        if total == 0 {
            return None;
        }
        let start = self.viewport_start(rows);
        let mut visual_row: u128 = 0;
        let mut buf_idx = start;
        let ghost ls = self.lines_view();
        while buf_idx < total
            invariant
                total == ls.len(),
                total > 0,
                ls == self.lines_view(),
                start == view_start(ls.len() as int, visible_rows(rows), self.scroll_offset as int),
                max_width == sat_sub(cols as int, 1),
                visual_row <= row,
                line_at_row(ls, start as int, 0, row as int, max_width as int) == line_at_row(
                    ls,
                    buf_idx as int,
                    visual_row as int,
                    row as int,
                    max_width as int,
                ),
            decreases total - buf_idx,
        {
            let entry = &self.buffer[buf_idx];
            let n = chars_of(entry.text.as_str()).len();
            let wrapped_rows: u16 = if n > max_width {
                let w = word_wrap(entry.text.as_str(), max_width);
                proof {
                    assert(views(w@).len() == w@.len());
                }
                #[verifier::truncate] (w.len() as u16)
            } else {
                1
            };
            proof {
                assert(ls[buf_idx as int].0 == entry.text@);
                assert(wrapped_rows as int == rows_of(ls[buf_idx as int].0, max_width as int));
            }
            if visual_row + wrapped_rows as u128 > row as u128 {
                assert(line_at_row(ls, buf_idx as int, visual_row as int, row as int, max_width as int)
                    == Some(buf_idx as int));
                return Some(buf_idx);
            }
            visual_row = visual_row + wrapped_rows as u128;
            buf_idx = buf_idx + 1;
        }
        None
    }

    /// The scroll position as a percentage (see `scroll_pct`), with the
    /// offset within range.
    pub fn scroll_percent(&self, rows: u16) -> (r: usize)
        requires
            self.scroll_offset <= self.max_offset(rows),
        ensures
            r == scroll_pct(self.buffer@.len() as int, visible_rows(rows), self.scroll_offset as int),
    {
        let visible = self.visible_lines(rows);
        let total = self.buffer.len();
        if total > visible {
            let num = (total - self.scroll_offset - visible) as u128 * 100;
            let q = num / ((total - visible) as u128);
            if q < 100 {
                q as usize
            } else {
                100
            }
        } else {
            0
        }
    }

    /// The status line text on a terminal of `cols` columns: marked while
    /// scrolled, cut to the width.
    pub fn status_text(&self, status: &str, cols: u16) -> (r: String)
        ensures
            r@ == take_chars(
                if self.scroll_offset > 0 {
                    "-- SCROLL -- "@ + status@
                } else {
                    status@
                },
                cols as int,
            ),
    {
        let mut full = String::new();
        if self.scroll_offset > 0 {
            push_str_chars(&mut full, "-- SCROLL -- ");
        }
        push_str_chars(&mut full, status);
        let v = chars_of(full.as_str());
        string_of(slice_take(v.as_slice(), cols as usize).as_slice())
    }

    /// Makes room for a new line at the bottom of the chat view on a
    /// terminal of `rows` rows: when the view is at the bottom and full, the
    /// line count drops by one and the caller scrolls the terminal up one
    /// row (returns `true`).
    pub fn ensure_room(&mut self, rows: u16) -> (scrolled: bool)
        ensures
            scrolled == (old(self).scroll_offset == 0 && rows >= 3 && old(self).lines >= rows - 2),
            final(self).lines == (if scrolled {
                sat_sub(old(self).lines as int, 1)
            } else {
                old(self).lines as int
            }),
            *final(self) == (Renderer { lines: final(self).lines, ..*old(self) }),
    {
        if self.scroll_offset > 0 {
            return false;
        }
        if rows < 3 {
            return false;
        }
        let max_content = rows - 2;
        if self.lines >= max_content {
            self.lines = if self.lines > 0 {
                self.lines - 1
            } else {
                0
            };
            true
        } else {
            false
        }
    }

    /// The terminal row the next line of output goes to.
    pub fn content_row(&self, rows: u16) -> (r: u16)
        ensures
            r == min2(self.lines as int, sat_sub(rows as int, 3)),
    {
        let limit = if rows > 3 {
            rows - 3
        } else {
            0
        };
        if self.lines < limit {
            self.lines
        } else {
            limit
        }
    }

    /// Counts a line drawn and goes to the start of the next one.
    pub fn line_drawn(&mut self)
        ensures
            final(self).lines == (if old(self).lines < u16::MAX {
                old(self).lines + 1
            } else {
                u16::MAX as int
            }),
            final(self).col == 0,
            *final(self) == (Renderer { lines: final(self).lines, col: 0, ..*old(self) }),
    {
        self.lines = self.lines.saturating_add(1);
        self.col = 0;
    }
}

/// Where the part of a write segment that fits on the current line ends
/// (see `chunk_end_of`), starting at `idx` with `avail` columns left.
pub fn chunk_end(chars: &[char], idx: usize, avail: usize) -> (r: usize)
    requires
        idx <= chars@.len(),
    ensures
        r == chunk_end_of(chars@, idx as int, avail as int),
{
    let end = if avail <= chars.len() - idx {
        idx + avail
    } else {
        chars.len()
    };
    if end < chars.len() {
        let mut i = end;
        while i > idx
            invariant
                idx <= i <= end,
                end < chars@.len(),
                end == min2(idx + avail, chars@.len() as int),
                last_space_before(chars@, idx as int, end as int) == last_space_before(chars@, idx as int, i as int),
            decreases i,
        {
            if chars[i - 1] == ' ' {
                assert(last_space_before(chars@, idx as int, i as int) == i - 1);
                assert(end == min2(idx + avail, chars@.len() as int));
                assert(last_space_before(chars@, idx as int, end as int) == i - 1);
                return i;
            }
            i = i - 1;
        }
        end
    } else {
        end
    }
}

/// The rows a buffer line takes on the screen: its wrapping when it is
/// longer than `max_width` characters, else the line itself.
pub open spec fn display_rows_of(text: Seq<char>, max_width: int) -> Seq<Seq<char>> {
    if text.len() > max_width {
        wrapped(text, max_width)
    } else {
        seq![text]
    }
}

/// The rows a buffer line takes on the screen (see `display_rows_of`).
pub fn display_rows(text: &str, max_width: usize) -> (r: Vec<String>)
    ensures
        views(r@) == display_rows_of(text@, max_width as int),
{
    let n = chars_of(text).len();
    if n > max_width {
        word_wrap(text, max_width)
    } else {
        let mut r: Vec<String> = Vec::new();
        r.push(string_of(chars_of(text).as_slice()));
        assert(views(r@) =~= seq![text@]);
        r
    }
}

/// The marker shown at the top right while scrolled back: ` SCROLL n% `.
pub open spec fn scroll_marker(pct: nat) -> Seq<char> {
    seq![' ', 'S', 'C', 'R', 'O', 'L', 'L', ' '] + crate::text::decimal(pct) + seq!['%', ' ']
}

/// The marker shown while scrolled back (see `scroll_marker`).
pub fn scroll_indicator(pct: u64) -> (r: String)
    ensures
        r@ == scroll_marker(pct as nat),
{
    let mut r = String::new();
    let head: Vec<char> = vec![' ', 'S', 'C', 'R', 'O', 'L', 'L', ' '];
    push_chars(&mut r, head.as_slice());
    let d = crate::text::decimal_text(pct);
    push_str_chars(&mut r, d.as_str());
    r.push('%');
    r.push(' ');
    assert(r@ =~= scroll_marker(pct as nat));
    r
}

impl Renderer {
    /// The buffer line drawn at row `row` of the chat view on a terminal of
    /// `cols` by `rows` (see `buffer_line_at_row`).
    pub open spec fn line_at_view_row(&self, row: u16, cols: u16, rows: u16) -> Option<int> {
        let ls = self.lines_view();
        if ls.len() == 0 {
            None
        } else {
            line_at_row(
                ls,
                view_start(ls.len() as int, visible_rows(rows), self.scroll_offset as int),
                0,
                row as int,
                sat_sub(cols as int, 1),
            )
        }
    }

    /// A press of the mouse button on row `row` of the chat view: on a row
    /// that shows a buffer line, a selection of that line starts (returns
    /// `true`, to be drawn); elsewhere nothing changes.
    pub fn select_start_at(&mut self, row: u16, cols: u16, rows: u16) -> (changed: bool)
        ensures
            changed == ((row as int) < visible_rows(rows) && old(self).line_at_view_row(row, cols, rows) is Some),
            changed ==> *final(self) == (Renderer {
                selection_active: true,
                selection_start: Some(old(self).line_at_view_row(row, cols, rows)->0 as usize),
                selection_end: Some(old(self).line_at_view_row(row, cols, rows)->0 as usize),
                ..*old(self)
            }),
            !changed ==> *final(self) == *old(self),
    {
        if (row as usize) < self.visible_lines(rows) {
            match self.buffer_line_at_row(row, cols, rows) {
                Some(idx) => {
                    self.selection_active = true;
                    self.selection_start = Some(idx);
                    self.selection_end = Some(idx);
                    true
                },
                None => false,
            }
        } else {
            false
        }
    }

    /// A drag of the mouse to row `row` while selecting: the selection now
    /// ends at the line shown there (returns `true`, to be drawn).
    pub fn select_extend_to(&mut self, row: u16, cols: u16, rows: u16) -> (changed: bool)
        ensures
            changed == (old(self).selection_active && old(self).line_at_view_row(row, cols, rows) is Some),
            changed ==> *final(self) == (Renderer {
                selection_end: Some(old(self).line_at_view_row(row, cols, rows)->0 as usize),
                ..*old(self)
            }),
            !changed ==> *final(self) == *old(self),
    {
        if !self.selection_active {
            return false;
        }
        match self.buffer_line_at_row(row, cols, rows) {
            Some(idx) => {
                self.selection_end = Some(idx);
                true
            },
            None => false,
        }
    }

    /// A release of the mouse button on row `row` while selecting: the
    /// selection ends at the line shown there (when there is one), its text
    /// is returned for the clipboard, and the selection is cleared; the
    /// first result says whether anything changed.
    pub fn select_finish_at(&mut self, row: u16, cols: u16, rows: u16) -> (r: (bool, Option<String>))
        ensures
            r.0 == old(self).selection_active,
            !r.0 ==> *final(self) == *old(self) && r.1 is None,
            r.0 ==> ({
                let ended = match old(self).line_at_view_row(row, cols, rows) {
                    Some(i) => Renderer { selection_end: Some(i as usize), ..*old(self) },
                    None => *old(self),
                };
                let t = joined_lines(
                    ended.lines_view(),
                    min2(ended.selection_start->0 as int, ended.selection_end->0 as int),
                    (if ended.selection_start->0 <= ended.selection_end->0 {
                        ended.selection_end->0 as int
                    } else {
                        ended.selection_start->0 as int
                    }) + 1,
                );
                &&& *final(self) == (Renderer {
                    selection_active: false,
                    selection_start: None,
                    selection_end: None,
                    ..ended
                })
                &&& (ended.selection_start is Some && ended.selection_end is Some && t.len() > 0)
                    ==> (r.1 matches Some(x) && x@ == t)
                &&& !(ended.selection_start is Some && ended.selection_end is Some && t.len() > 0)
                    ==> r.1 is None
            }),
    {
        if !self.selection_active {
            return (false, None);
        }
        match self.buffer_line_at_row(row, cols, rows) {
            Some(idx) => {
                self.selection_end = Some(idx);
            },
            None => {},
        }
        let text = self.selected_text();
        self.clear_selection();
        (true, text)
    }
}

} // verus!
