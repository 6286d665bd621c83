//! Markdown turned into colored lines: the events of a markdown parse drive
//! a small machine that collects text and emits wrapped lines for
//! paragraphs, headings, code blocks, quotes, list items, rules, links and
//! tables.
use vstd::prelude::*;

use crate::color::Color;
use crate::edit::{first_index, first_index_of, lemma_first_index};
use crate::filter::views;
use crate::markdown::{word_wrap, wrapped};
use crate::table::{
    entries_view, flush_table, push_repeat, repeat_char, rows_view, table_lines, ColumnAlign,
    LineEntry,
};
use crate::text::{chars_of, decimal, decimal_text, push_chars, string_of, trim};
use pulldown_cmark::{
    Alignment as ParserAlign, Event as ParserEvent, Options as ParserOptions, Tag as ParserTag,
    TagEnd as ParserTagEnd,
};

verus! {

/// A markdown element that opens.
pub enum OpenTag {
    Paragraph,
    Heading,
    CodeBlock,
    BlockQuote,
    /// A list; numbered when it has a start number.
    List(Option<u64>),
    Item,
    FootnoteDefinition,
    /// A table with the alignment of each column.
    Table(Vec<ColumnAlign>),
    TableHead,
    TableRow,
    TableCell,
    /// A link to the destination URL.
    Link(String),
    Other,
}

/// A markdown element that closes.
pub enum CloseTag {
    Paragraph,
    Heading,
    CodeBlock,
    BlockQuote,
    Item,
    List,
    Link,
    Table,
    TableHead,
    TableRow,
    TableCell,
    FootnoteDefinition,
    Other,
}

/// An event of a markdown parse.
pub enum MdEvent {
    Start(OpenTag),
    End(CloseTag),
    Text(String),
    Code(String),
    SoftBreak,
    HardBreak,
    Rule,
    Html(String),
    InlineHtml(String),
    FootnoteReference(String),
    TaskListMarker(bool),
    Other,
}

/// The state of the rendering: the lines emitted so far, the text collected
/// for the current block, which blocks are open, the list numbering, the
/// table being collected and the destination of the open link.
pub struct MdState {
    pub result: Seq<(Seq<char>, Color)>,
    pub acc: Seq<char>,
    pub in_heading: bool,
    pub in_code_block: bool,
    pub in_blockquote: bool,
    pub ordered_list: bool,
    pub list_item_count: int,
    pub table_rows: Seq<Seq<Seq<char>>>,
    pub table_row: Seq<Seq<char>>,
    pub table_cell: Seq<char>,
    pub table_alignments: Seq<ColumnAlign>,
    pub link_url: Seq<char>,
    pub in_table_cell: bool,
}

/// The parts of `s` between newlines (as `str::split('\n')`).
pub open spec fn split_lines(s: Seq<char>) -> Seq<Seq<char>>
    decreases s.len(),
{
    let k = first_index(s, '\n');
    if k < 0 {
        seq![s]
    } else {
        proof {
            lemma_first_index(s, '\n');
        }
        seq![s.take(k)] + split_lines(s.skip(k + 1))
    }
}

/// `s` without the carriage returns at its end.
pub open spec fn strip_cr(s: Seq<char>) -> Seq<char>
    decreases s.len(),
{
    if s.len() > 0 && s.last() == '\r' {
        strip_cr(s.drop_last())
    } else {
        s
    }
}

/// Each text in `color`.
pub open spec fn colored(ls: Seq<Seq<char>>, color: Color) -> Seq<(Seq<char>, Color)> {
    ls.map_values(|l: Seq<char>| (l, color))
}

/// A blank white line.
pub open spec fn blank() -> Seq<(Seq<char>, Color)> {
    seq![(Seq::<char>::empty(), Color::White)]
}

/// The lines of collected text: each part between newlines wrapped, or a
/// blank line for an empty part.
pub open spec fn flush_lines(ls: Seq<Seq<char>>, color: Color, max: int) -> Seq<(Seq<char>, Color)>
    decreases ls.len(),
{
    if ls.len() == 0 {
        Seq::empty()
    } else {
        let t = strip_cr(ls[0]);
        (if t.len() == 0 {
            seq![(Seq::<char>::empty(), color)]
        } else {
            colored(wrapped(t, max), color)
        }) + flush_lines(ls.skip(1), color, max)
    }
}

/// The lines of collected text in `color`; nothing when none was collected.
pub open spec fn flushed(acc: Seq<char>, color: Color, max: int) -> Seq<(Seq<char>, Color)> {
    if acc.len() == 0 {
        Seq::empty()
    } else {
        flush_lines(split_lines(acc), color, max)
    }
}

/// The lines of a code block, unwrapped.
pub open spec fn code_lines(ls: Seq<Seq<char>>) -> Seq<(Seq<char>, Color)>
    decreases ls.len(),
{
    if ls.len() == 0 {
        Seq::empty()
    } else {
        seq![(strip_cr(ls[0]), Color::DarkYellow)] + code_lines(ls.skip(1))
    }
}

/// The lines of a block quote, each marked with `│` and wrapped.
pub open spec fn quote_lines(ls: Seq<Seq<char>>, max: int) -> Seq<(Seq<char>, Color)>
    decreases ls.len(),
{
    if ls.len() == 0 {
        Seq::empty()
    } else {
        let t = strip_cr(ls[0]);
        (if t.len() == 0 {
            seq![(Seq::<char>::empty(), Color::DarkGrey)]
        } else {
            colored(wrapped(seq!['\u{2502}', ' '] + t, max), Color::DarkGrey)
        }) + quote_lines(ls.skip(1), max)
    }
}

/// The lines of a list item: the first non-empty part after the bullet,
/// all parts wrapped.
pub open spec fn item_lines(
    ls: Seq<Seq<char>>,
    bullet: Seq<char>,
    color: Color,
    max: int,
    first: bool,
) -> Seq<(Seq<char>, Color)>
    decreases ls.len(),
{
    if ls.len() == 0 {
        Seq::empty()
    } else {
        let t = strip_cr(ls[0]);
        if t.len() == 0 {
            seq![(Seq::<char>::empty(), color)] + item_lines(ls.skip(1), bullet, color, max, first)
        } else if first {
            colored(wrapped(bullet + t, max), color) + item_lines(ls.skip(1), bullet, color, max, false)
        } else {
            colored(wrapped(t, max), color) + item_lines(ls.skip(1), bullet, color, max, first)
        }
    }
}

/// The bullet of a list item: its number in a numbered list, else a dot
/// (a dotted bar inside a quote).
pub open spec fn bullet_text(ordered: bool, count: int, color: Color) -> Seq<char> {
    if ordered {
        seq![' '] + decimal(count as nat) + seq!['.', ' ']
    } else if color == Color::DarkGrey {
        seq![' ', ' ', '\u{250a}', ' ']
    } else {
        seq![' ', ' ', '\u{2022}', ' ']
    }
}

/// Text goes into the open table cell, else into the collected text.
pub open spec fn add_text(st: MdState, t: Seq<char>) -> MdState {
    if st.in_table_cell {
        MdState { table_cell: st.table_cell + t, ..st }
    } else {
        MdState { acc: st.acc + t, ..st }
    }
}

/// The collected text is emitted in `color` and cleared.
pub open spec fn flush_state(st: MdState, color: Color, max: int) -> MdState {
    MdState { result: st.result + flushed(st.acc, color, max), acc: Seq::empty(), ..st }
}

/// The cells of a row without surrounding white space.
pub open spec fn trimmed_cells(row: Seq<Seq<char>>) -> Seq<Seq<char>> {
    row.map_values(|c: Seq<char>| trim(c))
}

/// The row of a table closes: its trimmed cells become a row unless all are
/// empty.
pub open spec fn close_row(st: MdState) -> MdState {
    let cells = trimmed_cells(st.table_row);
    MdState {
        table_rows: if exists|i: int| 0 <= i < cells.len() && cells[i].len() > 0 {
            st.table_rows.push(cells)
        } else {
            st.table_rows
        },
        table_row: Seq::empty(),
        ..st
    }
}

/// The color of text in the current block: dark grey inside a quote.
pub open spec fn body_color(st: MdState) -> Color {
    if st.in_blockquote {
        Color::DarkGrey
    } else {
        Color::White
    }
}

/// The rendering after one markdown event.
pub open spec fn md_step(st: MdState, e: MdEvent, max: int) -> MdState {
    match e {
        MdEvent::Start(tag) => match tag {
            OpenTag::Heading => MdState { in_heading: true, ..flush_state(st, Color::White, max) },
            OpenTag::CodeBlock => MdState {
                in_code_block: true,
                ..flush_state(st, Color::White, max)
            },
            OpenTag::BlockQuote => MdState {
                in_blockquote: true,
                ..flush_state(st, Color::White, max)
            },
            OpenTag::List(t) => MdState { ordered_list: t is Some, list_item_count: 0, ..st },
            OpenTag::Item => MdState {
                list_item_count: st.list_item_count + 1,
                ..flush_state(st, Color::White, max)
            },
            OpenTag::Table(al) => MdState {
                table_rows: Seq::empty(),
                table_row: Seq::empty(),
                table_cell: Seq::empty(),
                table_alignments: al@,
                ..flush_state(st, Color::White, max)
            },
            OpenTag::TableHead => MdState { table_rows: Seq::empty(), ..st },
            OpenTag::TableRow => MdState { table_row: Seq::empty(), ..st },
            OpenTag::TableCell => MdState { table_cell: Seq::empty(), in_table_cell: true, ..st },
            OpenTag::Link(url) => MdState { link_url: url@, ..st },
            _ => st,
        },
        MdEvent::End(tag) => match tag {
            CloseTag::Paragraph => flush_state(st, body_color(st), max),
            CloseTag::Heading => {
                let f = flush_state(st, Color::Cyan, max);
                MdState { result: f.result + blank(), in_heading: false, ..f }
            },
            CloseTag::CodeBlock => MdState {
                result: st.result + code_lines(split_lines(st.acc)) + blank(),
                acc: Seq::empty(),
                in_code_block: false,
                ..st
            },
            CloseTag::BlockQuote => MdState {
                result: st.result + quote_lines(split_lines(st.acc), max) + blank(),
                acc: Seq::empty(),
                in_blockquote: false,
                ..st
            },
            CloseTag::Item => {
                let color = body_color(st);
                let bullet = bullet_text(st.ordered_list, st.list_item_count, color);
                MdState {
                    result: st.result + item_lines(split_lines(st.acc), bullet, color, max, true),
                    acc: Seq::empty(),
                    ..st
                }
            },
            CloseTag::List => MdState {
                ordered_list: false,
                list_item_count: 0,
                result: st.result + blank(),
                ..st
            },
            CloseTag::Link => if st.link_url.len() > 0 && st.in_table_cell {
                MdState {
                    table_cell: st.table_cell + seq![' ', '('] + st.link_url + seq![')'],
                    link_url: Seq::empty(),
                    ..st
                }
            } else if st.link_url.len() > 0 && st.acc.len() > 0 {
                MdState {
                    result: st.result + flushed(st.acc, Color::DarkCyan, max) + colored(
                        wrapped(seq![' ', ' ', '\u{21aa}', ' '] + st.link_url, max),
                        Color::DarkGrey,
                    ),
                    acc: Seq::empty(),
                    link_url: Seq::empty(),
                    ..st
                }
            } else {
                MdState { link_url: Seq::empty(), ..st }
            },
            CloseTag::Table => MdState {
                result: st.result + table_lines(st.table_rows, st.table_alignments, max) + blank(),
                table_rows: Seq::empty(),
                table_alignments: Seq::empty(),
                ..st
            },
            CloseTag::TableHead => close_row(st),
            CloseTag::TableRow => close_row(st),
            CloseTag::TableCell => MdState {
                in_table_cell: false,
                table_row: st.table_row.push(st.table_cell),
                table_cell: Seq::empty(),
                ..st
            },
            _ => st,
        },
        MdEvent::Text(t) => add_text(st, t@),
        MdEvent::Code(t) => add_text(st, seq!['`'] + t@ + seq!['`']),
        MdEvent::SoftBreak => add_text(st, seq!['\n']),
        MdEvent::HardBreak => add_text(st, seq!['\n']),
        MdEvent::Rule => {
            let f = flush_state(st, Color::White, max);
            let n = if max < 40 {
                max
            } else {
                40
            };
            MdState {
                result: f.result + seq![(repeat_char('\u{2500}', n), Color::DarkGrey)] + blank(),
                ..f
            }
        },
        MdEvent::Html(t) => add_text(st, t@),
        MdEvent::InlineHtml(t) => add_text(st, t@),
        MdEvent::FootnoteReference(t) => MdState { acc: st.acc + t@, ..st },
        MdEvent::TaskListMarker(checked) => MdState {
            acc: st.acc + if checked {
                seq!['[', 'x', ']']
            } else {
                seq!['[', ' ', ']']
            },
            ..st
        },
        MdEvent::Other => st,
    }
}

/// The rendering after the events `es`, in order.
pub open spec fn md_fold(st: MdState, es: Seq<MdEvent>, max: int) -> MdState
    decreases es.len(),
{
    if es.len() == 0 {
        st
    } else {
        md_fold(md_step(st, es[0], max), es.skip(1), max)
    }
}

/// The rendering before any event.
pub open spec fn md_start() -> MdState {
    MdState {
        result: Seq::empty(),
        acc: Seq::empty(),
        in_heading: false,
        in_code_block: false,
        in_blockquote: false,
        ordered_list: false,
        list_item_count: 0,
        table_rows: Seq::empty(),
        table_row: Seq::empty(),
        table_cell: Seq::empty(),
        table_alignments: Seq::empty(),
        link_url: Seq::empty(),
        in_table_cell: false,
    }
}

/// The lines of the events `es` at width `max`: the emitted lines, then any
/// text still collected, in the color of the block it is in.
pub open spec fn rendered(es: Seq<MdEvent>, max: int) -> Seq<(Seq<char>, Color)> {
    let st = md_fold(md_start(), es, max);
    let color = if st.in_blockquote {
        Color::DarkGrey
    } else if st.in_code_block {
        Color::DarkYellow
    } else if st.in_heading {
        Color::Cyan
    } else {
        Color::White
    };
    st.result + flushed(st.acc, color, max)
}

/// The texts of a run of character vectors.
pub open spec fn char_views(v: Seq<Vec<char>>) -> Seq<Seq<char>> {
    v.map_values(|x: Vec<char>| x@)
}

/// The parts of `v` between newlines.
pub(crate) fn split_newlines(v: &[char]) -> (r: Vec<Vec<char>>)
    ensures
        char_views(r@) == split_lines(v@),
{
    let mut r: Vec<Vec<char>> = Vec::new();
    let mut i: usize = 0;
    assert(v@.skip(0) =~= v@);
    loop
        invariant
            i <= v@.len(),
            split_lines(v@) == char_views(r@) + split_lines(v@.skip(i as int)),
        decreases v@.len() - i,
    {
        let rest = crate::edit::slice_skip(v, i);
        let ghost before = r@;
        match first_index_of(rest.as_slice(), '\n') {
            Some(k) => {
                proof {
                    lemma_first_index(rest@, '\n');
                }
                assert(rest@.len() == v@.len() - i);
                assert((k as int) < rest@.len());
                assert(v@.len() == v.len());
                r.push(crate::edit::slice_take(rest.as_slice(), k));
                proof {
                    assert(rest@.skip(k + 1) =~= v@.skip(i + k + 1));
                    assert(char_views(r@) =~= char_views(before).push(rest@.take(k as int)));
                    assert(split_lines(rest@) == seq![rest@.take(k as int)] + split_lines(rest@.skip(k + 1)));
                    assert(char_views(before) + split_lines(rest@) =~= char_views(r@) + split_lines(v@.skip(i + k + 1)));
                }
                i = i + k + 1;
            },
            None => {
                r.push(rest);
                proof {
                    assert(char_views(r@) =~= char_views(before).push(rest@));
                    assert(char_views(before) + seq![rest@] =~= char_views(r@));
                }
                return r;
            },
        }
    }
}

/// `v` without the carriage returns at its end.
fn strip_cr_chars(v: &[char]) -> (r: Vec<char>)
    ensures
        r@ == strip_cr(v@),
{
    let mut n: usize = v.len();
    assert(v@.take(n as int) =~= v@);
    while n > 0 && v[n - 1] == '\r'
        invariant
            n <= v@.len(),
            strip_cr(v@) == strip_cr(v@.take(n as int)),
        decreases n,
    {
        assert(v@.take(n as int).last() == v@[n - 1]);
        assert(v@.take(n as int).drop_last() =~= v@.take(n - 1));
        n = n - 1;
    }
    proof {
        if n > 0 {
            assert(v@.take(n as int).last() == v@[n - 1]);
        }
    }
    crate::edit::slice_take(v, n)
}

/// Adds the lines of `text` wrapped at `max`, in `color`.
fn push_wrapped(out: &mut Vec<LineEntry>, text: &[char], color: Color, max: usize)
    ensures
        entries_view(final(out)@) == entries_view(old(out)@) + colored(wrapped(text@, max as int), color),
{
    let ts = string_of(text);
    let chunks = word_wrap(ts.as_str(), max);
    let ghost start = entries_view(out@);
    let mut i: usize = 0;
    while i < chunks.len()
        invariant
            i <= chunks@.len(),
            views(chunks@) == wrapped(text@, max as int),
            entries_view(out@) == start + colored(views(chunks@).take(i as int), color),
        decreases chunks@.len() - i,
    {
        let t = string_of(chars_of(chunks[i].as_str()).as_slice());
        let ghost before = out@;
        out.push(LineEntry { text: t, color });
        assert(entries_view(out@) =~= entries_view(before).push((chunks@[i as int]@, color)));
        assert(colored(views(chunks@).take(i + 1), color) =~= colored(views(chunks@).take(i as int), color).push(
            (chunks@[i as int]@, color),
        ));
        i = i + 1;
    }
    assert(views(chunks@).take(chunks@.len() as int) =~= views(chunks@));
}

/// Adds an empty line in `color`.
fn push_empty(out: &mut Vec<LineEntry>, color: Color)
    ensures
        entries_view(final(out)@) == entries_view(old(out)@) + seq![(Seq::<char>::empty(), color)],
{
    let ghost before = out@;
    out.push(LineEntry { text: String::new(), color });
    assert(entries_view(out@) =~= entries_view(before) + seq![(Seq::<char>::empty(), color)]);
}

/// Emits the collected text `acc` in `color`, wrapped at `max`.
fn flush_acc(acc: &[char], color: Color, max: usize, out: &mut Vec<LineEntry>)
    ensures
        entries_view(final(out)@) == entries_view(old(out)@) + flushed(acc@, color, max as int),
{
    if acc.len() == 0 {
        assert(entries_view(out@) + Seq::<(Seq<char>, Color)>::empty() =~= entries_view(out@));
        return;
    }
    let ls = split_newlines(acc);
    let ghost all = char_views(ls@);
    let ghost start = entries_view(out@);
    let mut i: usize = 0;
    assert(all.skip(0) =~= all);
    assert(start + Seq::<(Seq<char>, Color)>::empty() =~= start);
    while i < ls.len()
        invariant
            i <= ls@.len(),
            all == char_views(ls@),
            flush_lines(all, color, max as int) == entries_view(out@).skip(start.len() as int)
                + flush_lines(all.skip(i as int), color, max as int),
            entries_view(out@).len() >= start.len(),
            entries_view(out@).take(start.len() as int) == start,
        decreases ls@.len() - i,
    {
        let t = strip_cr_chars(ls[i].as_slice());
        let ghost before = entries_view(out@);
        if t.len() == 0 {
            push_empty(out, color);
        } else {
            push_wrapped(out, t.as_slice(), color, max);
        }
        proof {
            let rest = all.skip(i as int);
            assert(rest[0] == ls@[i as int]@);
            assert(rest.skip(1) =~= all.skip(i + 1));
            let piece = if t@.len() == 0 {
                seq![(Seq::<char>::empty(), color)]
            } else {
                colored(wrapped(t@, max as int), color)
            };
            assert(entries_view(out@) == before + piece);
            assert(entries_view(out@).skip(start.len() as int) =~= before.skip(start.len() as int) + piece);
            assert(entries_view(out@).take(start.len() as int) =~= before.take(start.len() as int));
        }
        i = i + 1;
    }
    assert(entries_view(out@) =~= start + entries_view(out@).skip(start.len() as int));
}

/// Emits the lines of a code block.
fn push_code_lines(acc: &[char], out: &mut Vec<LineEntry>)
    ensures
        entries_view(final(out)@) == entries_view(old(out)@) + code_lines(split_lines(acc@)),
{
    let ls = split_newlines(acc);
    let ghost all = char_views(ls@);
    let ghost start = entries_view(out@);
    let mut i: usize = 0;
    assert(all.skip(0) =~= all);
    while i < ls.len()
        invariant
            i <= ls@.len(),
            all == char_views(ls@),
            entries_view(out@).len() >= start.len(),
            entries_view(out@).take(start.len() as int) == start,
            code_lines(all) == entries_view(out@).skip(start.len() as int) + code_lines(all.skip(i as int)),
        decreases ls@.len() - i,
    {
        let t = strip_cr_chars(ls[i].as_slice());
        let ghost before = entries_view(out@);
        let ghost o = out@;
        out.push(LineEntry { text: string_of(t.as_slice()), color: Color::DarkYellow });
        proof {
            let rest = all.skip(i as int);
            assert(rest[0] == ls@[i as int]@);
            assert(rest.skip(1) =~= all.skip(i + 1));
            assert(entries_view(out@) =~= before.push((t@, Color::DarkYellow)));
            assert(entries_view(out@).skip(start.len() as int) =~= before.skip(start.len() as int).push((t@, Color::DarkYellow)));
            assert(entries_view(out@).take(start.len() as int) =~= before.take(start.len() as int));
            assert(code_lines(rest) == seq![(t@, Color::DarkYellow)] + code_lines(rest.skip(1)));
        }
        i = i + 1;
    }
    assert(entries_view(out@) =~= start + entries_view(out@).skip(start.len() as int));
}

/// Emits the lines of a block quote.
fn push_quote_lines(acc: &[char], max: usize, out: &mut Vec<LineEntry>)
    ensures
        entries_view(final(out)@) == entries_view(old(out)@) + quote_lines(split_lines(acc@), max as int),
{
    let ls = split_newlines(acc);
    let ghost all = char_views(ls@);
    let ghost start = entries_view(out@);
    let mut i: usize = 0;
    assert(all.skip(0) =~= all);
    while i < ls.len()
        invariant
            i <= ls@.len(),
            all == char_views(ls@),
            entries_view(out@).len() >= start.len(),
            entries_view(out@).take(start.len() as int) == start,
            quote_lines(all, max as int) == entries_view(out@).skip(start.len() as int)
                + quote_lines(all.skip(i as int), max as int),
        decreases ls@.len() - i,
    {
        let t = strip_cr_chars(ls[i].as_slice());
        let ghost before = entries_view(out@);
        if t.len() == 0 {
            push_empty(out, Color::DarkGrey);
        } else {
            let mut marked: Vec<char> = Vec::new();
            marked.push('\u{2502}');
            marked.push(' ');
            let mut j: usize = 0;
            while j < t.len()
                invariant
                    j <= t@.len(),
                    marked@ == seq!['\u{2502}', ' '] + t@.take(j as int),
                decreases t@.len() - j,
            {
                marked.push(t[j]);
                assert(t@.take(j + 1) =~= t@.take(j as int).push(t@[j as int]));
                j = j + 1;
            }
            assert(t@.take(t@.len() as int) =~= t@);
            push_wrapped(out, marked.as_slice(), Color::DarkGrey, max);
        }
        proof {
            let rest = all.skip(i as int);
            assert(rest[0] == ls@[i as int]@);
            assert(rest.skip(1) =~= all.skip(i + 1));
            let piece = if t@.len() == 0 {
                seq![(Seq::<char>::empty(), Color::DarkGrey)]
            } else {
                colored(wrapped(seq!['\u{2502}', ' '] + t@, max as int), Color::DarkGrey)
            };
            assert(entries_view(out@) == before + piece);
            assert(entries_view(out@).skip(start.len() as int) =~= before.skip(start.len() as int) + piece);
            assert(entries_view(out@).take(start.len() as int) =~= before.take(start.len() as int));
        }
        i = i + 1;
    }
    assert(entries_view(out@) =~= start + entries_view(out@).skip(start.len() as int));
}

/// Emits the lines of a list item with its bullet.
fn push_item_lines(acc: &[char], bullet: &[char], color: Color, max: usize, out: &mut Vec<LineEntry>)
    ensures
        entries_view(final(out)@) == entries_view(old(out)@) + item_lines(
            split_lines(acc@),
            bullet@,
            color,
            max as int,
            true,
        ),
{
    let ls = split_newlines(acc);
    let ghost all = char_views(ls@);
    let ghost start = entries_view(out@);
    let mut first = true;
    let mut i: usize = 0;
    assert(all.skip(0) =~= all);
    while i < ls.len()
        invariant
            i <= ls@.len(),
            all == char_views(ls@),
            entries_view(out@).len() >= start.len(),
            entries_view(out@).take(start.len() as int) == start,
            item_lines(all, bullet@, color, max as int, true) == entries_view(out@).skip(start.len() as int)
                + item_lines(all.skip(i as int), bullet@, color, max as int, first),
        decreases ls@.len() - i,
    {
        let t = strip_cr_chars(ls[i].as_slice());
        let ghost before = entries_view(out@);
        let ghost was_first = first;
        if t.len() == 0 {
            push_empty(out, color);
        } else if first {
            let mut prefixed: Vec<char> = Vec::new();
            push_vec_chars(&mut prefixed, bullet);
            push_vec_chars(&mut prefixed, t.as_slice());
            push_wrapped(out, prefixed.as_slice(), color, max);
            first = false;
        } else {
            push_wrapped(out, t.as_slice(), color, max);
        }
        proof {
            let rest = all.skip(i as int);
            assert(rest[0] == ls@[i as int]@);
            assert(rest.skip(1) =~= all.skip(i + 1));
            let piece = if t@.len() == 0 {
                seq![(Seq::<char>::empty(), color)]
            } else if was_first {
                colored(wrapped(bullet@ + t@, max as int), color)
            } else {
                colored(wrapped(t@, max as int), color)
            };
            assert(entries_view(out@) == before + piece);
            assert(entries_view(out@).skip(start.len() as int) =~= before.skip(start.len() as int) + piece);
            assert(entries_view(out@).take(start.len() as int) =~= before.take(start.len() as int));
            assert(item_lines(rest, bullet@, color, max as int, was_first) == piece + item_lines(
                rest.skip(1),
                bullet@,
                color,
                max as int,
                first,
            ));
        }
        i = i + 1;
    }
    assert(entries_view(out@) =~= start + entries_view(out@).skip(start.len() as int));
}

/// Appends the characters of `v`.
fn push_vec_chars(dst: &mut Vec<char>, v: &[char])
    ensures
        final(dst)@ == old(dst)@ + v@,
{
    let mut i: usize = 0;
    while i < v.len()
        invariant
            i <= v@.len(),
            dst@ == old(dst)@ + v@.take(i as int),
        decreases v@.len() - i,
    {
        dst.push(v[i]);
        assert(v@.take(i + 1) =~= v@.take(i as int).push(v@[i as int]));
        i = i + 1;
    }
    assert(v@.take(v@.len() as int) =~= v@);
}

/// The machine that renders markdown events (see `md_step`).
struct Styler {
    result: Vec<LineEntry>,
    acc: Vec<char>,
    in_heading: bool,
    in_code_block: bool,
    in_blockquote: bool,
    ordered_list: bool,
    list_item_count: u64,
    table_rows: Vec<Vec<String>>,
    table_row: Vec<String>,
    table_cell: Vec<char>,
    table_alignments: Vec<ColumnAlign>,
    link_url: Vec<char>,
    in_table_cell: bool,
}

impl Styler {
    /// The rendering state this machine is in.
    spec fn state(&self) -> MdState {
        MdState {
            result: entries_view(self.result@),
            acc: self.acc@,
            in_heading: self.in_heading,
            in_code_block: self.in_code_block,
            in_blockquote: self.in_blockquote,
            ordered_list: self.ordered_list,
            list_item_count: self.list_item_count as int,
            table_rows: rows_view(self.table_rows@),
            table_row: views(self.table_row@),
            table_cell: self.table_cell@,
            table_alignments: self.table_alignments@,
            link_url: self.link_url@,
            in_table_cell: self.in_table_cell,
        }
    }

    fn new() -> (r: Self)
        ensures
            r.state() == md_start(),
    {
        let r = Styler {
            result: Vec::new(),
            acc: Vec::new(),
            in_heading: false,
            in_code_block: false,
            in_blockquote: false,
            ordered_list: false,
            list_item_count: 0,
            table_rows: Vec::new(),
            table_row: Vec::new(),
            table_cell: Vec::new(),
            table_alignments: Vec::new(),
            link_url: Vec::new(),
            in_table_cell: false,
        };
        assert(entries_view(r.result@) =~= Seq::<(Seq<char>, Color)>::empty());
        assert(rows_view(r.table_rows@) =~= Seq::<Seq<Seq<char>>>::empty());
        assert(views(r.table_row@) =~= Seq::<Seq<char>>::empty());
        r
    }

    /// Emits the collected text in `color` and clears it.
    fn flush(&mut self, color: Color, max: usize)
        ensures
            final(self).state() == flush_state(old(self).state(), color, max as int),
            final(self).list_item_count == old(self).list_item_count,
    {
        flush_acc(self.acc.as_slice(), color, max, &mut self.result);
        self.acc = Vec::new();
    }

    /// Adds text to the open table cell, else to the collected text.
    fn add_text(&mut self, t: &[char])
        ensures
            final(self).state() == add_text(old(self).state(), t@),
            final(self).list_item_count == old(self).list_item_count,
    {
        if self.in_table_cell {
            push_vec_chars(&mut self.table_cell, t);
        } else {
            push_vec_chars(&mut self.acc, t);
        }
    }

    /// Closes a table row (see `close_row`).
    fn close_row(&mut self)
        ensures
            final(self).state() == close_row(old(self).state()),
            final(self).list_item_count == old(self).list_item_count,
    {
        let ghost st0 = self.state();
        let ghost cells_spec = trimmed_cells(views(self.table_row@));
        let mut cells: Vec<String> = Vec::new();
        let mut any = false;
        let mut i: usize = 0;
        while i < self.table_row.len()
            invariant
                i <= self.table_row@.len(),
                cells_spec == trimmed_cells(views(self.table_row@)),
                views(cells@) == cells_spec.take(i as int),
                any == exists|j: int| 0 <= j < i && cells_spec[j].len() > 0,
            decreases self.table_row@.len() - i,
        {
            let t = crate::text::trimmed_chars(self.table_row[i].as_str());
            if t.len() > 0 {
                any = true;
            }
            let ghost before = cells@;
            cells.push(string_of(t.as_slice()));
            proof {
                assert(cells_spec[i as int] == trim(self.table_row@[i as int]@));
                assert(views(cells@) =~= views(before).push(t@));
                assert(cells_spec.take(i + 1) =~= cells_spec.take(i as int).push(cells_spec[i as int]));
            }
            i = i + 1;
        }
        assert(cells_spec.take(cells_spec.len() as int) =~= cells_spec);
        assert(cells_spec == trimmed_cells(st0.table_row));
        assert(cells_spec.len() == self.table_row@.len());
        assert(any == exists|j: int| 0 <= j < cells_spec.len() && cells_spec[j].len() > 0);
        if any {
            let ghost before = self.table_rows@;
            self.table_rows.push(cells);
            assert(rows_view(self.table_rows@) =~= rows_view(before).push(cells_spec));
        }
        self.table_row = Vec::new();
        assert(views(self.table_row@) =~= Seq::<Seq<char>>::empty());
        let ghost rows2 = if exists|j: int| 0 <= j < cells_spec.len() && cells_spec[j].len() > 0 {
            st0.table_rows.push(cells_spec)
        } else {
            st0.table_rows
        };
        assert(rows_view(self.table_rows@) == rows2);
        assert(self.state() == MdState { table_rows: rows2, table_row: Seq::empty(), ..st0 });
    }

    /// Handles an element that opens.
    fn start(&mut self, tag: &OpenTag, max: usize)
        requires
            old(self).list_item_count < u64::MAX,
        ensures
            final(self).state() == md_step(old(self).state(), MdEvent::Start(*tag), max as int),
            final(self).list_item_count <= old(self).list_item_count + 1,
    {
        match tag {
            OpenTag::Heading => {
                self.flush(Color::White, max);
                self.in_heading = true;
            },
            OpenTag::CodeBlock => {
                self.flush(Color::White, max);
                self.in_code_block = true;
            },
            OpenTag::BlockQuote => {
                self.flush(Color::White, max);
                self.in_blockquote = true;
            },
            OpenTag::List(t) => {
                self.ordered_list = t.is_some();
                self.list_item_count = 0;
            },
            OpenTag::Item => {
                self.flush(Color::White, max);
                self.list_item_count = self.list_item_count + 1;
            },
            OpenTag::Table(al) => {
                self.flush(Color::White, max);
                self.table_rows = Vec::new();
                self.table_row = Vec::new();
                self.table_cell = Vec::new();
                let mut copy: Vec<ColumnAlign> = Vec::new();
                let mut i: usize = 0;
                while i < al.len()
                    invariant
                        i <= al@.len(),
                        copy@ == al@.take(i as int),
                    decreases al@.len() - i,
                {
                    copy.push(al[i]);
                    assert(al@.take(i + 1) =~= al@.take(i as int).push(al@[i as int]));
                    i = i + 1;
                }
                assert(al@.take(al@.len() as int) =~= al@);
                self.table_alignments = copy;
                assert(rows_view(self.table_rows@) =~= Seq::<Seq<Seq<char>>>::empty());
                assert(views(self.table_row@) =~= Seq::<Seq<char>>::empty());
            },
            OpenTag::TableHead => {
                self.table_rows = Vec::new();
                assert(rows_view(self.table_rows@) =~= Seq::<Seq<Seq<char>>>::empty());
            },
            OpenTag::TableRow => {
                self.table_row = Vec::new();
                assert(views(self.table_row@) =~= Seq::<Seq<char>>::empty());
            },
            OpenTag::TableCell => {
                self.table_cell = Vec::new();
                self.in_table_cell = true;
            },
            OpenTag::Link(url) => {
                self.link_url = chars_of(url.as_str());
            },
            _ => {},
        }
    }

    /// Handles an element that closes.
    fn end(&mut self, tag: &CloseTag, max: usize)
        ensures
            final(self).state() == md_step(old(self).state(), MdEvent::End(*tag), max as int),
            final(self).list_item_count <= old(self).list_item_count,
    {
        let ghost st0 = self.state();
        match tag {
            CloseTag::Paragraph => {
                let color = if self.in_blockquote {
                    Color::DarkGrey
                } else {
                    Color::White
                };
                self.flush(color, max);
                assert(self.state() == md_step(st0, MdEvent::End(*tag), max as int));
            },
            CloseTag::Heading => {
                self.flush(Color::Cyan, max);
                self.in_heading = false;
                push_empty(&mut self.result, Color::White);
                assert(self.state() == md_step(st0, MdEvent::End(*tag), max as int));
            },
            CloseTag::CodeBlock => {
                push_code_lines(self.acc.as_slice(), &mut self.result);
                self.acc = Vec::new();
                self.in_code_block = false;
                push_empty(&mut self.result, Color::White);
                assert(self.state() == md_step(st0, MdEvent::End(*tag), max as int));
            },
            CloseTag::BlockQuote => {
                push_quote_lines(self.acc.as_slice(), max, &mut self.result);
                self.acc = Vec::new();
                self.in_blockquote = false;
                push_empty(&mut self.result, Color::White);
                assert(self.state() == md_step(st0, MdEvent::End(*tag), max as int));
            },
            CloseTag::Item => {
                let color = if self.in_blockquote {
                    Color::DarkGrey
                } else {
                    Color::White
                };
                let bullet: Vec<char> = if self.ordered_list {
                    let mut b: Vec<char> = Vec::new();
                    b.push(' ');
                    let d = decimal_text(self.list_item_count);
                    push_vec_chars(&mut b, chars_of(d.as_str()).as_slice());
                    b.push('.');
                    b.push(' ');
                    assert(b@ =~= seq![' '] + decimal(self.list_item_count as nat) + seq!['.', ' ']);
                    b
                } else if color == Color::DarkGrey {
                    let b = vec![' ', ' ', '\u{250a}', ' '];
                    assert(b@ =~= seq![' ', ' ', '\u{250a}', ' ']);
                    b
                } else {
                    let b = vec![' ', ' ', '\u{2022}', ' '];
                    assert(b@ =~= seq![' ', ' ', '\u{2022}', ' ']);
                    b
                };
                push_item_lines(self.acc.as_slice(), bullet.as_slice(), color, max, &mut self.result);
                self.acc = Vec::new();
                assert(self.state() == md_step(st0, MdEvent::End(*tag), max as int));
            },
            CloseTag::List => {
                self.ordered_list = false;
                self.list_item_count = 0;
                push_empty(&mut self.result, Color::White);
                assert(self.state() == md_step(st0, MdEvent::End(*tag), max as int));
            },
            CloseTag::Link => {
                if self.link_url.len() > 0 && self.in_table_cell {
                    self.table_cell.push(' ');
                    self.table_cell.push('(');
                    push_vec_chars(&mut self.table_cell, self.link_url.as_slice());
                    self.table_cell.push(')');
                    assert(self.table_cell@ =~= st0.table_cell + seq![' ', '('] + st0.link_url + seq![')']);
                } else if self.link_url.len() > 0 && self.acc.len() > 0 {
                    flush_acc(self.acc.as_slice(), Color::DarkCyan, max, &mut self.result);
                    let mut note: Vec<char> = vec![' ', ' ', '\u{21aa}', ' '];
                    push_vec_chars(&mut note, self.link_url.as_slice());
                    assert(note@ =~= seq![' ', ' ', '\u{21aa}', ' '] + st0.link_url);
                    push_wrapped(&mut self.result, note.as_slice(), Color::DarkGrey, max);
                    self.acc = Vec::new();
                }
                self.link_url = Vec::new();
                assert(self.state() == md_step(st0, MdEvent::End(*tag), max as int));
            },
            CloseTag::Table => {
                flush_table(self.table_rows.as_slice(), self.table_alignments.as_slice(), max, &mut self.result);
                self.table_rows = Vec::new();
                self.table_alignments = Vec::new();
                push_empty(&mut self.result, Color::White);
                assert(rows_view(self.table_rows@) =~= Seq::<Seq<Seq<char>>>::empty());
                assert(self.state() == md_step(st0, MdEvent::End(*tag), max as int));
            },
            CloseTag::TableHead => {
                self.close_row();
                assert(self.state() == md_step(st0, MdEvent::End(*tag), max as int));
            },
            CloseTag::TableRow => {
                self.close_row();
                assert(self.state() == md_step(st0, MdEvent::End(*tag), max as int));
            },
            CloseTag::TableCell => {
                self.in_table_cell = false;
                let ghost before = self.table_row@;
                self.table_row.push(string_of(self.table_cell.as_slice()));
                assert(views(self.table_row@) =~= views(before).push(self.table_cell@));
                self.table_cell = Vec::new();
                assert(self.state() == md_step(st0, MdEvent::End(*tag), max as int));
            },
            _ => {},
        }
    }

    /// Handles one event (see `md_step`).
    fn step(&mut self, e: &MdEvent, max: usize)
        requires
            old(self).list_item_count < u64::MAX,
        ensures
            final(self).state() == md_step(old(self).state(), *e, max as int),
            final(self).list_item_count <= old(self).list_item_count + 1,
    {
        let ghost st0 = self.state();
        match e {
            MdEvent::Start(tag) => self.start(tag, max),
            MdEvent::End(tag) => self.end(tag, max),
            MdEvent::Text(t) => self.add_text(chars_of(t.as_str()).as_slice()),
            MdEvent::Code(t) => {
                let mut c: Vec<char> = Vec::new();
                c.push('`');
                push_vec_chars(&mut c, chars_of(t.as_str()).as_slice());
                c.push('`');
                assert(c@ =~= seq!['`'] + t@ + seq!['`']);
                self.add_text(c.as_slice());
                assert(self.state() == md_step(st0, *e, max as int));
            },
            MdEvent::SoftBreak => {
                let c = vec!['\n'];
                assert(c@ =~= seq!['\n']);
                self.add_text(c.as_slice());
                assert(self.state() == md_step(st0, *e, max as int));
            },
            MdEvent::HardBreak => {
                let c = vec!['\n'];
                assert(c@ =~= seq!['\n']);
                self.add_text(c.as_slice());
                assert(self.state() == md_step(st0, *e, max as int));
            },
            MdEvent::Rule => {
                self.flush(Color::White, max);
                let n: usize = if max < 40 {
                    max
                } else {
                    40
                };
                let mut rule = String::new();
                push_repeat(&mut rule, '\u{2500}', n);
                assert(rule@ =~= repeat_char('\u{2500}', n as int));
                let ghost before = self.result@;
                self.result.push(LineEntry { text: rule, color: Color::DarkGrey });
                assert(entries_view(self.result@) =~= entries_view(before).push((rule@, Color::DarkGrey)));
                push_empty(&mut self.result, Color::White);
                assert(entries_view(self.result@) =~= entries_view(before) + seq![(repeat_char('\u{2500}', n as int), Color::DarkGrey)] + blank());
                assert(self.state() == md_step(st0, *e, max as int));
            },
            MdEvent::Html(t) => self.add_text(chars_of(t.as_str()).as_slice()),
            MdEvent::InlineHtml(t) => self.add_text(chars_of(t.as_str()).as_slice()),
            MdEvent::FootnoteReference(t) => {
                push_vec_chars(&mut self.acc, chars_of(t.as_str()).as_slice());
                assert(self.state() == md_step(st0, *e, max as int));
            },
            MdEvent::TaskListMarker(checked) => {
                let m = if *checked {
                    vec!['[', 'x', ']']
                } else {
                    vec!['[', ' ', ']']
                };
                push_vec_chars(&mut self.acc, m.as_slice());
                assert(m@ =~= (if *checked {
                    seq!['[', 'x', ']']
                } else {
                    seq!['[', ' ', ']']
                }));
                assert(self.state() == md_step(st0, *e, max as int));
            },
            MdEvent::Other => {},
        }
    }
}

/// Renders markdown events as colored lines at most `max_width` columns
/// wide (see `rendered`).
pub fn render_events(events: &Vec<MdEvent>, max_width: usize) -> (r: Vec<LineEntry>)
    ensures
        entries_view(r@) == rendered(events@, max_width as int),
{
    let mut st = Styler::new();
    let mut i: usize = 0;
    assert(events@.skip(0) =~= events@);
    while i < events.len()
        invariant
            i <= events@.len(),
            st.list_item_count <= i,
            md_fold(md_start(), events@, max_width as int) == md_fold(
                st.state(),
                events@.skip(i as int),
                max_width as int,
            ),
        decreases events@.len() - i,
    {
        assert(events@.skip(i as int)[0] == events@[i as int]);
        assert(events@.skip(i as int).skip(1) =~= events@.skip(i + 1));
        st.step(&events[i], max_width);
        i = i + 1;
    }
    let color = if st.in_blockquote {
        Color::DarkGrey
    } else if st.in_code_block {
        Color::DarkYellow
    } else if st.in_heading {
        Color::Cyan
    } else {
        Color::White
    };
    st.flush(color, max_width);
    st.result
}

/// A markdown event as the `pulldown-cmark` parser gives it.
#[verifier::external_type_specification]
#[verifier::external_body]
pub struct ExParserEvent<'a>(pulldown_cmark::Event<'a>);

/// A markdown element that opens, as `pulldown-cmark` gives it.
#[verifier::external_type_specification]
#[verifier::external_body]
pub struct ExParserTag<'a>(pulldown_cmark::Tag<'a>);

/// A markdown element that closes, as `pulldown-cmark` gives it.
#[verifier::external_type_specification]
#[verifier::external_body]
pub struct ExParserTagEnd(pulldown_cmark::TagEnd);

/// A column alignment, as `pulldown-cmark` gives it.
#[verifier::external_type_specification]
#[verifier::external_body]
pub struct ExParserAlignment(pulldown_cmark::Alignment);

/// A parser event with its opening or closing element still in the
/// parser's own form (and the less common events not yet converted).
pub enum RawEvent<'a> {
    Start(pulldown_cmark::Tag<'a>),
    End(pulldown_cmark::TagEnd),
    Plain(MdEvent),
    Rest(pulldown_cmark::Event<'a>),
}

/// The events that `pulldown-cmark` finds in a text (with tables,
/// footnotes, strikethrough and task lists enabled), each converted by
/// `convert_event`.
pub uninterp spec fn markdown_events(text: Seq<char>) -> Seq<MdEvent>;

/// `pulldown_cmark::Parser::new_ext` with tables, footnotes, strikethrough
/// and task lists enabled, each event converted by `convert_event`: the
/// result is `markdown_events` of the text (the parser is a function of the
/// text alone).
#[verifier::external_body]
fn parse_markdown(text: &str) -> (r: Vec<MdEvent>)
    ensures
        r@ == markdown_events(text@),
{
    let opts = ParserOptions::ENABLE_TABLES | ParserOptions::ENABLE_FOOTNOTES
        | ParserOptions::ENABLE_STRIKETHROUGH | ParserOptions::ENABLE_TASKLISTS;
    pulldown_cmark::Parser::new_ext(text, opts).map(|e| convert_event(e)).collect()
}

/// Converts the common variants of a `pulldown_cmark::Event`, moving their
/// text into a `String`; the others are handed on unconverted. Nothing is
/// stated about the result.
#[verifier::external_body]
fn event_of<'a>(e: pulldown_cmark::Event<'a>) -> RawEvent<'a> {
    match e {
        ParserEvent::Start(t) => RawEvent::Start(t),
        ParserEvent::End(t) => RawEvent::End(t),
        ParserEvent::Text(s) => RawEvent::Plain(MdEvent::Text(s.to_string())),
        ParserEvent::Code(s) => RawEvent::Plain(MdEvent::Code(s.to_string())),
        ParserEvent::Html(s) => RawEvent::Plain(MdEvent::Html(s.to_string())),
        other => RawEvent::Rest(other),
    }
}

/// Converts the remaining variants of a `pulldown_cmark::Event`, variant by
/// variant; those the rendering ignores become `Other`. Nothing is stated
/// about the result.
#[verifier::external_body]
fn rest_event_of<'a>(e: pulldown_cmark::Event<'a>) -> MdEvent {
    match e {
        ParserEvent::InlineHtml(s) => MdEvent::InlineHtml(s.to_string()),
        ParserEvent::FootnoteReference(s) => MdEvent::FootnoteReference(s.to_string()),
        ParserEvent::SoftBreak => MdEvent::SoftBreak,
        ParserEvent::HardBreak => MdEvent::HardBreak,
        ParserEvent::Rule => MdEvent::Rule,
        ParserEvent::TaskListMarker(b) => MdEvent::TaskListMarker(b),
        _ => MdEvent::Other,
    }
}

/// Converts a `pulldown_cmark::Tag`, variant by variant; a table's
/// alignments are left out (see `tag_alignments`) and variants the
/// rendering ignores become `Other`. Nothing is stated about the result.
#[verifier::external_body]
fn tag_of<'a>(t: pulldown_cmark::Tag<'a>) -> OpenTag {
    match t {
        ParserTag::Paragraph => OpenTag::Paragraph,
        ParserTag::Heading { .. } => OpenTag::Heading,
        ParserTag::CodeBlock(_) => OpenTag::CodeBlock,
        ParserTag::BlockQuote(_) => OpenTag::BlockQuote,
        ParserTag::List(start) => OpenTag::List(start),
        ParserTag::Item => OpenTag::Item,
        ParserTag::FootnoteDefinition(_) => OpenTag::FootnoteDefinition,
        ParserTag::Table(_) => OpenTag::Table(Vec::new()),
        ParserTag::TableHead => OpenTag::TableHead,
        ParserTag::TableRow => OpenTag::TableRow,
        ParserTag::TableCell => OpenTag::TableCell,
        ParserTag::Link { dest_url, .. } => OpenTag::Link(dest_url.to_string()),
        _ => OpenTag::Other,
    }
}

/// The column alignments of a `pulldown_cmark::Tag::Table`, none for any
/// other tag. Nothing is stated about the result.
#[verifier::external_body]
fn tag_alignments<'a>(t: &pulldown_cmark::Tag<'a>) -> Vec<pulldown_cmark::Alignment> {
    match t {
        ParserTag::Table(al) => al.clone(),
        _ => Vec::new(),
    }
}

/// Converts a `pulldown_cmark::TagEnd`, variant by variant; variants the
/// rendering ignores become `Other`. Nothing is stated about the result.
#[verifier::external_body]
fn tag_end_of(t: pulldown_cmark::TagEnd) -> CloseTag {
    match t {
        ParserTagEnd::Paragraph => CloseTag::Paragraph,
        ParserTagEnd::Heading(_) => CloseTag::Heading,
        ParserTagEnd::CodeBlock => CloseTag::CodeBlock,
        ParserTagEnd::BlockQuote(_) => CloseTag::BlockQuote,
        ParserTagEnd::Item => CloseTag::Item,
        ParserTagEnd::List(_) => CloseTag::List,
        ParserTagEnd::Link => CloseTag::Link,
        ParserTagEnd::Table => CloseTag::Table,
        ParserTagEnd::TableHead => CloseTag::TableHead,
        ParserTagEnd::TableRow => CloseTag::TableRow,
        ParserTagEnd::TableCell => CloseTag::TableCell,
        ParserTagEnd::FootnoteDefinition => CloseTag::FootnoteDefinition,
        _ => CloseTag::Other,
    }
}

/// Converts a `pulldown_cmark::Alignment`, variant by variant. Nothing is
/// stated about the result.
#[verifier::external_body]
fn alignment_of(a: &pulldown_cmark::Alignment) -> ColumnAlign {
    match a {
        ParserAlign::None => ColumnAlign::Unspecified,
        ParserAlign::Left => ColumnAlign::Left,
        ParserAlign::Center => ColumnAlign::Center,
        ParserAlign::Right => ColumnAlign::Right,
    }
}

/// The event a parser event stands for.
fn convert_event<'a>(e: pulldown_cmark::Event<'a>) -> MdEvent {
    match event_of(e) {
        RawEvent::Start(t) => {
            let raw_al = tag_alignments(&t);
            match tag_of(t) {
                OpenTag::Table(_) => {
                    let mut al: Vec<ColumnAlign> = Vec::new();
                    let mut i: usize = 0;
                    while i < raw_al.len()
                        invariant
                            i <= raw_al@.len(),
                        decreases raw_al@.len() - i,
                    {
                        al.push(alignment_of(&raw_al[i]));
                        i = i + 1;
                    }
                    MdEvent::Start(OpenTag::Table(al))
                },
                other => MdEvent::Start(other),
            }
        },
        RawEvent::End(t) => MdEvent::End(tag_end_of(t)),
        RawEvent::Plain(ev) => ev,
        RawEvent::Rest(e) => rest_event_of(e),
    }
}

/// Renders markdown as colored lines at most `max_width` columns wide: the
/// events that `pulldown-cmark` finds in `text` (with tables, footnotes,
/// strikethrough and task lists) go through `render_events`. Empty text
/// gives no lines.
pub fn markdown_to_styled(text: &str, max_width: usize) -> (r: Vec<LineEntry>)
    ensures
        text@.len() == 0 ==> r@.len() == 0,
        text@.len() > 0 ==> entries_view(r@) == rendered(markdown_events(text@), max_width as int),
{
    if crate::text::byte_len(text) == 0 {
        proof {
            crate::text::lemma_utf8_len_bounds(text@);
        }
        return Vec::new();
    }
    let events = parse_markdown(text);
    render_events(&events, max_width)
}

/// Rendering two runs of events one after the other is rendering them
/// joined.
pub proof fn lemma_md_fold_append(st: MdState, a: Seq<MdEvent>, b: Seq<MdEvent>, max: int)
    ensures
        md_fold(st, a + b, max) == md_fold(md_fold(st, a, max), b, max),
    decreases a.len(),
{
    if a.len() > 0 {
        assert((a + b).skip(1) =~= a.skip(1) + b);
        assert((a + b)[0] == a[0]);
        lemma_md_fold_append(md_step(st, a[0], max), a.skip(1), b, max);
    }
}

/// The events of list items with the texts `ts`, in order.
pub open spec fn item_events(ts: Seq<String>) -> Seq<MdEvent>
    decreases ts.len(),
{
    if ts.len() == 0 {
        Seq::empty()
    } else {
        item_events(ts.drop_last()) + seq![
            MdEvent::Start(OpenTag::Item),
            MdEvent::Text(ts.last()),
            MdEvent::End(CloseTag::Item),
        ]
    }
}

/// What a list of items with the texts `ts` shows: in a numbered list the
/// `k`-th item (from 1) starts with ` k. `, otherwise each starts with the
/// dot bullet `  • `.
pub open spec fn list_lines(ts: Seq<String>, numbered: bool, max: int) -> Seq<(Seq<char>, Color)>
    decreases ts.len(),
{
    if ts.len() == 0 {
        Seq::empty()
    } else {
        let mark = if numbered {
            seq![' '] + decimal(ts.len()) + seq!['.', ' ']
        } else {
            seq![' ', ' ', '\u{2022}', ' ']
        };
        list_lines(ts.drop_last(), numbered, max) + item_lines(
            split_lines(ts.last()@),
            mark,
            Color::White,
            max,
            true,
        )
    }
}

/// One item (open, text, close) in a list renders its text after the
/// bullet for the next count.
proof fn lemma_item_round(s1: MdState, txt: String, max: int)
    requires
        !s1.in_blockquote,
        !s1.in_table_cell,
        s1.acc.len() == 0,
    ensures
        ({
            let tail = seq![
                MdEvent::Start(OpenTag::Item),
                MdEvent::Text(txt),
                MdEvent::End(CloseTag::Item),
            ];
            let c = md_fold(s1, tail, max);
            &&& c.result == s1.result + item_lines(
                split_lines(txt@),
                bullet_text(s1.ordered_list, s1.list_item_count + 1, Color::White),
                Color::White,
                max,
                true,
            )
            &&& c.acc.len() == 0
            &&& !c.in_blockquote
            &&& !c.in_table_cell
            &&& c.ordered_list == s1.ordered_list
            &&& c.list_item_count == s1.list_item_count + 1
        }),
{
    let tail = seq![MdEvent::Start(OpenTag::Item), MdEvent::Text(txt), MdEvent::End(CloseTag::Item)];
    let a = md_step(s1, tail[0], max);
    assert(flushed(s1.acc, Color::White, max) =~= Seq::<(Seq<char>, Color)>::empty());
    assert(a.result =~= s1.result);
    let b = md_step(a, tail[1], max);
    assert(b.acc =~= txt@);
    let c = md_step(b, tail[2], max);
    reveal_with_fuel(md_fold, 4);
    assert(tail.skip(1) =~= seq![MdEvent::Text(txt), MdEvent::End(CloseTag::Item)]);
    assert(tail.skip(1).skip(1) =~= seq![MdEvent::End(CloseTag::Item)]);
    assert(tail.skip(1).skip(1).skip(1) =~= Seq::<MdEvent>::empty());
    assert(md_fold(s1, tail, max) == c);
}

/// Opening a list sets whether it is numbered and restarts the count.
proof fn lemma_list_open(st: MdState, start: Option<u64>, max: int)
    ensures
        ({
            let s = md_fold(st, seq![MdEvent::Start(OpenTag::List(start))], max);
            &&& s.result == st.result
            &&& s.acc == st.acc
            &&& s.in_blockquote == st.in_blockquote
            &&& s.in_table_cell == st.in_table_cell
            &&& s.ordered_list == (start is Some)
            &&& s.list_item_count == 0
        }),
{
    reveal_with_fuel(md_fold, 2);
    assert(seq![MdEvent::Start(OpenTag::List(start))].skip(1) =~= Seq::<MdEvent>::empty());
}

/// The items of a list opened with `start` (outside quotes and tables,
/// with no text pending) render with their bullets, numbering as the list
/// goes.
proof fn lemma_list_items(st: MdState, start: Option<u64>, ts: Seq<String>, max: int)
    requires
        !st.in_blockquote,
        !st.in_table_cell,
        st.acc.len() == 0,
    ensures
        ({
            let s2 = md_fold(st, seq![MdEvent::Start(OpenTag::List(start))] + item_events(ts), max);
            &&& s2.result == st.result + list_lines(ts, start is Some, max)
            &&& s2.acc.len() == 0
            &&& !s2.in_blockquote
            &&& !s2.in_table_cell
            &&& s2.ordered_list == (start is Some)
            &&& s2.list_item_count == ts.len()
        }),
    decreases ts.len(),
{
    let open = seq![MdEvent::Start(OpenTag::List(start))];
    if ts.len() == 0 {
        assert(open + item_events(ts) =~= open);
        lemma_list_open(st, start, max);
        assert(st.result + list_lines(ts, start is Some, max) =~= st.result);
    } else {
        let prev = ts.drop_last();
        lemma_list_items(st, start, prev, max);
        let tail = seq![
            MdEvent::Start(OpenTag::Item),
            MdEvent::Text(ts.last()),
            MdEvent::End(CloseTag::Item),
        ];
        assert(item_events(ts) == item_events(prev) + tail);
        assert(open + item_events(ts) =~= (open + item_events(prev)) + tail);
        lemma_md_fold_append(st, open + item_events(prev), tail, max);
        let s1 = md_fold(st, open + item_events(prev), max);
        lemma_item_round(s1, ts.last(), max);
        assert(st.result + list_lines(ts, start is Some, max) =~= st.result + list_lines(
            prev,
            start is Some,
            max,
        ) + item_lines(
            split_lines(ts.last()@),
            bullet_text(start is Some, ts.len() as int, Color::White),
            Color::White,
            max,
            true,
        ));
    }
}

/// A list is numbered exactly when it was opened with a start number: the
/// `k`-th item of a numbered list renders after ` k. `, every item of a
/// list without a start number after the dot bullet `  • `.
pub proof fn law_list_bullets(st: MdState, start: Option<u64>, ts: Seq<String>, max: int)
    requires
        !st.in_blockquote,
        !st.in_table_cell,
        st.acc.len() == 0,
    ensures
        md_fold(st, seq![MdEvent::Start(OpenTag::List(start))] + item_events(ts), max).result
            == st.result + list_lines(ts, start is Some, max),
{
    lemma_list_items(st, start, ts, max);
}

/// A code block shows each of its lines as it is (without trailing
/// carriage returns, never wrapped) in dark yellow, then a blank line.
pub proof fn law_code_block_lines(st: MdState, code: String, max: int)
    requires
        !st.in_table_cell,
        st.acc.len() == 0,
    ensures
        ({
            let es = seq![
                MdEvent::Start(OpenTag::CodeBlock),
                MdEvent::Text(code),
                MdEvent::End(CloseTag::CodeBlock),
            ];
            let r = md_fold(st, es, max).result;
            let parts = split_lines(code@);
            &&& r.len() == st.result.len() + parts.len() + 1
            &&& r.take(st.result.len() as int) == st.result
            &&& forall|i: int|
                0 <= i < parts.len() ==> #[trigger] r[st.result.len() + i] == (strip_cr(parts[i]), Color::DarkYellow)
            &&& r.last() == (Seq::<char>::empty(), Color::White)
        }),
{
    let es = seq![MdEvent::Start(OpenTag::CodeBlock), MdEvent::Text(code), MdEvent::End(CloseTag::CodeBlock)];
    reveal_with_fuel(md_fold, 4);
    assert(es.skip(1) =~= seq![MdEvent::Text(code), MdEvent::End(CloseTag::CodeBlock)]);
    assert(es.skip(1).skip(1) =~= seq![MdEvent::End(CloseTag::CodeBlock)]);
    assert(es.skip(1).skip(1).skip(1) =~= Seq::<MdEvent>::empty());
    let a = md_step(st, es[0], max);
    assert(flushed(st.acc, Color::White, max) =~= Seq::<(Seq<char>, Color)>::empty());
    assert(a.result =~= st.result);
    let b = md_step(a, es[1], max);
    assert(b.acc =~= code@);
    let parts = split_lines(code@);
    lemma_code_lines(parts);
    let r = md_fold(st, es, max).result;
    assert(r == st.result + code_lines(parts) + blank());
    assert(r.take(st.result.len() as int) =~= st.result);
    assert forall|i: int| 0 <= i < parts.len() implies #[trigger] r[st.result.len() + i] == (
        strip_cr(parts[i]),
        Color::DarkYellow,
    ) by {
        assert(r[st.result.len() + i] == code_lines(parts)[i]);
    }
}

/// The code lines of parts: one per part, the part without trailing
/// carriage returns, in dark yellow.
proof fn lemma_code_lines(ls: Seq<Seq<char>>)
    ensures
        code_lines(ls).len() == ls.len(),
        forall|i: int| 0 <= i < ls.len() ==> #[trigger] code_lines(ls)[i] == (strip_cr(ls[i]), Color::DarkYellow),
    decreases ls.len(),
{
    if ls.len() > 0 {
        lemma_code_lines(ls.skip(1));
        assert forall|i: int| 0 <= i < ls.len() implies #[trigger] code_lines(ls)[i] == (
            strip_cr(ls[i]),
            Color::DarkYellow,
        ) by {
            if i > 0 {
                assert(code_lines(ls)[i] == code_lines(ls.skip(1))[i - 1]);
                assert(ls.skip(1)[i - 1] == ls[i]);
            }
        }
    }
}

/// A heading shows its text in cyan (wrapped as a paragraph is), then a
/// blank line.
pub proof fn law_heading_lines(st: MdState, text: String, max: int)
    requires
        !st.in_table_cell,
        st.acc.len() == 0,
        text@.len() > 0,
    ensures
        md_fold(
            st,
            seq![MdEvent::Start(OpenTag::Heading), MdEvent::Text(text), MdEvent::End(CloseTag::Heading)],
            max,
        ).result == st.result + flush_lines(split_lines(text@), Color::Cyan, max) + seq![
            (Seq::<char>::empty(), Color::White),
        ],
{
    let es = seq![MdEvent::Start(OpenTag::Heading), MdEvent::Text(text), MdEvent::End(CloseTag::Heading)];
    reveal_with_fuel(md_fold, 4);
    assert(es.skip(1) =~= seq![MdEvent::Text(text), MdEvent::End(CloseTag::Heading)]);
    assert(es.skip(1).skip(1) =~= seq![MdEvent::End(CloseTag::Heading)]);
    assert(es.skip(1).skip(1).skip(1) =~= Seq::<MdEvent>::empty());
    let a = md_step(st, es[0], max);
    assert(flushed(st.acc, Color::White, max) =~= Seq::<(Seq<char>, Color)>::empty());
    assert(a.result =~= st.result);
    let b = md_step(a, es[1], max);
    assert(b.acc =~= text@);
}

/// A paragraph inside a quote shows its text in dark grey (a paragraph
/// elsewhere in white).
pub proof fn law_quoted_paragraph(st: MdState, text: String, max: int)
    requires
        !st.in_table_cell,
        st.acc.len() == 0,
        text@.len() > 0,
    ensures
        md_fold(
            st,
            seq![
                MdEvent::Start(OpenTag::BlockQuote),
                MdEvent::Start(OpenTag::Paragraph),
                MdEvent::Text(text),
                MdEvent::End(CloseTag::Paragraph),
            ],
            max,
        ).result == st.result + flush_lines(split_lines(text@), Color::DarkGrey, max),
        !st.in_blockquote ==> md_fold(
            st,
            seq![
                MdEvent::Start(OpenTag::Paragraph),
                MdEvent::Text(text),
                MdEvent::End(CloseTag::Paragraph),
            ],
            max,
        ).result == st.result + flush_lines(split_lines(text@), Color::White, max),
{
    reveal_with_fuel(md_fold, 5);
    let q = seq![
        MdEvent::Start(OpenTag::BlockQuote),
        MdEvent::Start(OpenTag::Paragraph),
        MdEvent::Text(text),
        MdEvent::End(CloseTag::Paragraph),
    ];
    assert(q.skip(1) =~= seq![MdEvent::Start(OpenTag::Paragraph), MdEvent::Text(text), MdEvent::End(CloseTag::Paragraph)]);
    let p = q.skip(1);
    assert(p.skip(1) =~= seq![MdEvent::Text(text), MdEvent::End(CloseTag::Paragraph)]);
    assert(p.skip(1).skip(1) =~= seq![MdEvent::End(CloseTag::Paragraph)]);
    assert(p.skip(1).skip(1).skip(1) =~= Seq::<MdEvent>::empty());
    assert(flushed(st.acc, Color::White, max) =~= Seq::<(Seq<char>, Color)>::empty());
    let a = md_step(st, q[0], max);
    assert(a.result =~= st.result);
    let b = md_step(a, p[0], max);
    let c = md_step(b, p[1], max);
    assert(c.acc =~= text@);
    let b2 = md_step(st, p[0], max);
    let c2 = md_step(b2, p[1], max);
    assert(c2.acc =~= text@);
}

} // verus!
