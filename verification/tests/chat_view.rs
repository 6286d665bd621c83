use zerostack::color::Color;
use zerostack::output::DrawOp;
use zerostack::renderer::{chunk_end, display_rows, scroll_indicator, Renderer};
use zerostack::table::LineEntry;

fn renderer_with(n: usize) -> Renderer {
    let mut r = Renderer::new();
    for i in 0..n {
        r.buffer.push(LineEntry { text: format!("line {i}"), color: Color::White });
    }
    r
}

fn texts(r: &Renderer) -> Vec<String> {
    r.buffer.iter().map(|e| e.text.clone()).collect()
}

fn line(row: u16, text: &str, color: Color) -> DrawOp {
    DrawOp::Line { row, text: String::from(text), color }
}

fn piece(col: u16, row: u16, text: &str, color: Color) -> DrawOp {
    DrawOp::Piece { col, row, text: String::from(text), color }
}

#[test]
fn scroll_line_up_then_down_returns() {
    let mut r = renderer_with(30);
    r.scroll_line_up(12);
    assert_eq!(r.scroll_offset, 1);
    r.scroll_line_down();
    assert_eq!(r.scroll_offset, 0);
    r.scroll_line_down();
    assert_eq!(r.scroll_offset, 0);
}

#[test]
fn scroll_pages_stay_in_range() {
    let mut r = renderer_with(30);
    let mut seen = Vec::new();
    for _ in 0..3 {
        r.scroll_page_up(12);
        seen.push(r.scroll_offset);
    }
    for _ in 0..3 {
        r.scroll_page_down(12);
        seen.push(r.scroll_offset);
    }
    assert_eq!(seen, vec![8, 16, 20, 12, 4, 0]);
}

#[test]
fn scroll_to_top_and_viewport() {
    let mut r = renderer_with(30);
    assert_eq!(r.viewport_start(12), 20);
    r.scroll_to_top(12);
    assert_eq!(r.scroll_offset, 20);
    assert_eq!(r.viewport_start(12), 0);
    assert_eq!(r.scroll_percent(12), 0);
    r.scroll_offset = 5;
    assert_eq!(r.viewport_start(12), 15);
    assert_eq!(r.scroll_percent(12), 75);
    r.resize(30);
    assert_eq!(r.scroll_offset, 2);
}

#[test]
fn scroll_marker_and_status() {
    assert_eq!(scroll_indicator(75), " SCROLL 75% ");
    let mut r = renderer_with(3);
    assert_eq!(r.status_text("ready", 80), "ready");
    r.scroll_offset = 1;
    assert_eq!(r.status_text("ready", 80), "-- SCROLL -- ready");
    assert_eq!(r.status_text("ready", 5), "-- SC");
}

#[test]
fn selection_text_in_either_order() {
    let mut r = renderer_with(4);
    assert_eq!(r.selected_text(), None);
    r.selection_active = true;
    r.selection_start = Some(2);
    r.selection_end = Some(0);
    assert_eq!(r.selected_text(), Some(String::from("line 0\nline 1\nline 2")));
    assert!(r.line_selected(1));
    assert!(!r.line_selected(3));
    r.selection_end = Some(9);
    assert_eq!(r.selected_text(), Some(String::from("line 2\nline 3")));
    r.clear_selection();
    assert!(!r.line_selected(2));
}

#[test]
fn rows_map_to_buffer_lines() {
    let mut r = renderer_with(3);
    assert_eq!(r.buffer_line_at_row(0, 80, 12), Some(0));
    assert_eq!(r.buffer_line_at_row(2, 80, 12), Some(2));
    assert_eq!(r.buffer_line_at_row(3, 80, 12), None);
    r.buffer[0].text = String::from("aaaa bbbb cccc");
    // The first line wraps to two rows on an 11-column terminal.
    assert_eq!(r.buffer_line_at_row(1, 11, 12), Some(0));
    assert_eq!(r.buffer_line_at_row(2, 11, 12), Some(1));
}

#[test]
fn clear_all_empties_the_view() {
    let mut r = renderer_with(3);
    r.partial = String::from("x");
    r.scroll_offset = 1;
    r.lines = 3;
    r.clear_all();
    assert_eq!(r.buffer_len(), 0);
    assert!(r.partial.is_empty());
    assert_eq!((r.scroll_offset, r.lines, r.col), (0, 0, 0));
}

#[test]
fn chunk_end_breaks_after_spaces() {
    let v: Vec<char> = "aaaa bbbb cccc".chars().collect();
    assert_eq!(chunk_end(&v, 0, 10), 10);
    assert_eq!(chunk_end(&v, 0, 7), 5);
    assert_eq!(chunk_end(&v, 10, 10), 14);
    let w: Vec<char> = "abcdefghijkl".chars().collect();
    assert_eq!(chunk_end(&w, 0, 5), 5);
}

#[test]
fn display_rows_wrap_long_lines() {
    assert_eq!(display_rows("short", 10), vec![String::from("short")]);
    assert_eq!(display_rows("aaaa bbbb cccc", 10).len(), 2);
}

#[test]
fn input_layout_single_line() {
    let mut r = Renderer::new();
    let l = r.input_layout("hello", 5, false, 80, 24);
    assert_eq!(l.prompt, "> ");
    assert_eq!((l.first_visible, l.visible_line_count, l.top_row), (0, 1, 22));
    assert_eq!(l.shown, vec![String::from("hello")]);
    assert_eq!((l.cursor_x, l.cursor_row), (7, 22));
}

#[test]
fn input_layout_blinks_while_running() {
    let mut r = Renderer::new();
    let a = r.input_layout("x", 0, true, 80, 24).prompt;
    let b = r.input_layout("x", 0, true, 80, 24).prompt;
    assert_ne!(a, b);
    assert!(a == ". " || a == ": ");
}

#[test]
fn input_layout_scrolls_sideways() {
    let mut r = Renderer::new();
    let text = "abcdefghijklmnopqrstuvwxyz";
    let l = r.input_layout(text, 26, false, 12, 24);
    // Ten columns for the text; the cursor stands just after it.
    assert_eq!(l.shown, vec![String::from("qrstuvwxyz")]);
    assert_eq!(l.cursor_x, 12);
}

#[test]
fn write_line_shows_each_line() {
    let mut r = Renderer::new();
    let ops = r.write_line("hello", Color::White, 80, 24);
    assert_eq!(ops, vec![line(0, "hello", Color::White)]);
    let ops = r.write_line("a\nb", Color::Red, 80, 24);
    assert_eq!(ops, vec![line(1, "a", Color::Red), line(2, "b", Color::Red)]);
    assert_eq!(texts(&r), vec!["hello", "a", "b"]);
    assert_eq!((r.lines, r.col), (3, 0));
}

#[test]
fn write_line_makes_room_when_full() {
    let mut r = Renderer::new();
    r.lines = 22;
    let ops = r.write_line("x", Color::White, 80, 24);
    assert_eq!(ops, vec![DrawOp::MakeRoom { row: 22 }, line(21, "x", Color::White)]);
    assert_eq!(r.lines, 22);
}

#[test]
fn write_line_while_scrolled_only_buffers() {
    let mut r = renderer_with(30);
    r.scroll_offset = 3;
    let ops = r.write_line("new", Color::White, 80, 24);
    assert!(ops.is_empty());
    assert_eq!(r.buffer_len(), 31);
}

#[test]
fn write_streams_into_the_current_line() {
    let mut r = Renderer::new();
    let ops = r.write("hello", Color::Cyan, 80, 24);
    assert_eq!(ops, vec![piece(0, 0, "hello", Color::Cyan)]);
    assert_eq!(r.partial, "hello");
    assert_eq!(r.col, 5);
    let ops = r.write(" world\nnext", Color::Cyan, 80, 24);
    assert_eq!(
        ops,
        vec![
            DrawOp::Break { col: 5, row: 0, text: String::from(" world"), color: Color::Cyan },
            piece(0, 1, "next", Color::Cyan),
        ]
    );
    assert_eq!(texts(&r), vec!["hello", " world"]);
    assert_eq!(r.partial, "next");
}

#[test]
fn write_wraps_at_spaces() {
    let mut r = Renderer::new();
    let ops = r.write("aaaa bbbb cccc", Color::White, 11, 24);
    assert_eq!(ops, vec![piece(0, 0, "aaaa bbbb ", Color::White), piece(0, 1, "cccc", Color::White)]);
    assert_eq!(texts(&r), vec!["aaaa bbbb "]);
    assert_eq!(r.partial, "cccc");
}

#[test]
fn write_blank_line_adds_an_empty_entry() {
    let mut r = Renderer::new();
    let ops = r.write("\n", Color::White, 80, 24);
    assert_eq!(
        ops,
        vec![DrawOp::Break { col: 0, row: 0, text: String::new(), color: Color::White }]
    );
    assert_eq!(texts(&r), vec![""]);
}

#[test]
fn write_nothing_for_empty_text_or_narrow_terminal() {
    let mut r = Renderer::new();
    assert!(r.write("", Color::White, 80, 24).is_empty());
    assert!(r.write("abc", Color::White, 1, 24).is_empty());
    assert!(r.partial.is_empty());
}

#[test]
fn scroll_to_bottom_commits_the_partial_line() {
    let mut r = Renderer::new();
    r.write("tail", Color::White, 80, 24);
    r.scroll_offset = 2;
    r.scroll_to_bottom(80);
    assert_eq!(texts(&r), vec!["tail"]);
    assert_eq!((r.scroll_offset, r.lines, r.col), (0, 1, 0));
}

fn shown_text(ops: &[DrawOp]) -> String {
    let mut s = String::new();
    for op in ops {
        match op {
            DrawOp::Piece { text, .. } => s.push_str(text),
            DrawOp::Break { text, .. } | DrawOp::Line { text, .. } => {
                s.push_str(text);
                s.push('\n');
            }
            DrawOp::MakeRoom { .. } => {}
        }
    }
    s
}

#[test]
fn write_shows_exactly_the_text_written() {
    let mut r = Renderer::new();
    r.lines = 5;
    let samples = [
        "plain",
        "two\nlines",
        "\n\nblank lines\n",
        "a rather long line that has to be cut into pieces on a narrow terminal",
        "wordswithoutanyspacesthatarelongerthanarow and more",
    ];
    for text in samples {
        let ops = r.write(text, Color::White, 12, 8);
        assert_eq!(shown_text(&ops), text);
    }
    assert!(r.lines <= 6);
}

#[test]
fn write_line_shows_the_lines_it_adds() {
    let mut r = Renderer::new();
    r.write("partial", Color::White, 12, 8);
    let before = r.buffer_len() + 1;
    let ops = r.write_line("first line that wraps\nsecond", Color::Red, 12, 8);
    let added: Vec<String> = texts(&r)[before..].to_vec();
    let expected: String = added.iter().map(|t| format!("{t}\n")).collect();
    assert_eq!(shown_text(&ops), expected);
    assert_eq!(texts(&r)[before - 1], "partial");
}

#[test]
fn mouse_selection_copies_lines() {
    let mut r = renderer_with(5);
    assert!(!r.select_start_at(11, 80, 12));
    assert!(r.select_start_at(1, 80, 12));
    assert_eq!((r.selection_start, r.selection_end), (Some(1), Some(1)));
    assert!(r.select_extend_to(3, 80, 12));
    assert!(!r.select_extend_to(7, 80, 12));
    assert_eq!(r.selection_end, Some(3));
    let (changed, text) = r.select_finish_at(7, 80, 12);
    assert!(changed);
    assert_eq!(text, Some(String::from("line 1\nline 2\nline 3")));
    assert!(!r.selection_active);
    assert_eq!(r.select_finish_at(1, 80, 12), (false, None));
}
