use zerostack::cursor::{
    count_lines, cursor_to_line_col, line_col_to_cursor, line_end, line_start, next_char_boundary,
    prev_char_boundary,
};
use zerostack::editor::{InputEditor, KeyCode, KeyEvent, KeyModifiers};
use zerostack::filter::{filter_strings, insert_char_at, next_index, prev_index, remove_char_at};
use zerostack::fuzzy::fuzzy_score;
use zerostack::picker::{CommandPicker, FilePicker, ListPicker};

fn press(ed: &mut InputEditor, code: KeyCode) -> Option<String> {
    ed.handle_key(KeyEvent::new(code, KeyModifiers::none()))
}

fn ctrl_key(ed: &mut InputEditor, c: char) {
    ed.handle_key(KeyEvent::new(KeyCode::Char(c), KeyModifiers::control()));
}

fn typed(ed: &mut InputEditor, text: &str) {
    for ch in text.chars() {
        press(ed, KeyCode::Char(ch));
    }
}

#[test]
fn char_boundaries_skip_multibyte() {
    let s = "aéb";
    assert_eq!(next_char_boundary(s, 1), 3);
    assert_eq!(prev_char_boundary(s, 3), 1);
    assert_eq!(prev_char_boundary(s, 0), 0);
    assert_eq!(next_char_boundary(s, 4), 4);
}

#[test]
fn lines_and_columns() {
    let s = "ab\ncde\n";
    assert_eq!(cursor_to_line_col(s, 5), (1, 2));
    assert_eq!(line_col_to_cursor(s, 1, 2), 5);
    assert_eq!(line_col_to_cursor(s, 0, 9), 2);
    assert_eq!(line_col_to_cursor(s, 5, 0), 7);
    assert_eq!(count_lines(s), 3);
    assert_eq!(line_start(s, 5), 3);
    assert_eq!(line_end(s, 4), 6);
    assert_eq!(line_end("xyz", 1), 3);
}

#[test]
fn typing_then_backspace_restores_buffer() {
    let mut ed = InputEditor::new();
    typed(&mut ed, "héllo");
    let before = (ed.buffer.clone(), ed.cursor);
    press(&mut ed, KeyCode::Char('ü'));
    press(&mut ed, KeyCode::Backspace);
    assert_eq!((ed.buffer.clone(), ed.cursor), before);
}

#[test]
fn kill_to_end_then_yank_restores_buffer() {
    let mut ed = InputEditor::new();
    typed(&mut ed, "one two three");
    ctrl_key(&mut ed, 'a');
    for _ in 0..4 {
        ctrl_key(&mut ed, 'f');
    }
    ctrl_key(&mut ed, 'k');
    assert_eq!(ed.buffer, "one ");
    ctrl_key(&mut ed, 'y');
    assert_eq!(ed.buffer, "one two three");
    assert_eq!(ed.cursor, 13);
}

#[test]
fn kill_to_start_then_yank_restores_buffer() {
    let mut ed = InputEditor::new();
    typed(&mut ed, "one two");
    ctrl_key(&mut ed, 'b');
    ctrl_key(&mut ed, 'b');
    ctrl_key(&mut ed, 'u');
    assert_eq!(ed.buffer, "wo");
    ctrl_key(&mut ed, 'y');
    assert_eq!(ed.buffer, "one two");
}

#[test]
fn history_up_then_down_returns_to_draft() {
    let mut ed = InputEditor::new();
    typed(&mut ed, "sent");
    assert_eq!(press(&mut ed, KeyCode::Enter), Some(String::from("sent")));
    typed(&mut ed, "draft");
    press(&mut ed, KeyCode::Up);
    assert_eq!(ed.buffer, "sent");
    press(&mut ed, KeyCode::Down);
    assert_eq!(ed.buffer, "draft");
}

#[test]
fn blank_lines_are_not_recorded() {
    let mut ed = InputEditor::new();
    typed(&mut ed, "   ");
    assert_eq!(press(&mut ed, KeyCode::Enter), Some(String::from("   ")));
    assert!(ed.history.is_empty());
}

#[test]
fn paste_inserts_at_cursor() {
    let mut ed = InputEditor::new();
    typed(&mut ed, "ac");
    press(&mut ed, KeyCode::Left);
    ed.handle_paste(String::from("b\nb"));
    assert_eq!(ed.buffer, "ab\nbc");
    assert_eq!(ed.cursor, 4);
}

#[test]
fn editor_command_prefers_setting() {
    let mut ed = InputEditor::new();
    assert_eq!(ed.editor_command(None), "editor");
    assert_eq!(ed.editor_command(Some(String::from("vi"))), "vi");
    ed.set_editor(String::from("nano"));
    assert_eq!(ed.editor_command(Some(String::from("vi"))), "nano");
    ed.apply_editor_result(String::from("edited text\n\n"));
    assert_eq!(ed.buffer, "edited text");
    assert_eq!(ed.cursor, 11);
}

#[test]
fn slash_opens_command_picker() {
    let mut ed = InputEditor::new();
    press(&mut ed, KeyCode::Char('/'));
    assert!(ed.picker.is_some());
}

#[test]
fn command_picker_filters_and_wraps() {
    let mut p = CommandPicker::new();
    p.activate();
    let all = p.matches.len();
    assert!(all > 10);
    p.select_prev();
    assert_eq!(p.selected, all - 1);
    p.select_next();
    assert_eq!(p.selected, 0);
    for c in "wt".chars() {
        p.char_input(c);
    }
    assert_eq!(p.matches, vec!["/wt-merge", "/wt-exit"]);
    assert_eq!(p.selected_command(), Some("/wt-merge"));
    p.backspace();
    p.backspace();
    assert_eq!(p.matches.len(), all);
}

#[test]
fn list_picker_query_round_trip() {
    let mut p = ListPicker::new();
    p.set_items(vec![String::from("Alpha"), String::from("beta"), String::from("gamma")]);
    p.activate();
    p.char_input('A');
    assert_eq!(p.matches, vec!["Alpha", "beta", "gamma"]);
    p.char_input('L');
    assert_eq!(p.matches, vec!["Alpha"]);
    assert_eq!(p.selected_name(), Some("Alpha"));
    p.backspace();
    assert_eq!(p.query, "A");
    assert_eq!(p.matches.len(), 3);
}

#[test]
fn file_picker_waits_for_scan() {
    let mut p = FilePicker::new();
    p.activate(None);
    assert!(p.loading);
    assert!(!p.try_finish_loading());
    p.char_input('m');
    p.complete_scan(vec![String::from("src/main.rs"), String::from("README.md")]);
    assert!(p.try_finish_loading());
    assert_eq!(p.matches, vec!["src/main.rs", "README.md"]);
    assert_eq!(p.selected_path(), Some(&String::from("src/main.rs")));
}

#[test]
fn filter_helpers() {
    let items = vec![String::from("Foo"), String::from("bar"), String::from("food")];
    assert_eq!(filter_strings(&items, "FO"), vec!["Foo", "food"]);
    assert_eq!(filter_strings(&items, ""), items);
    assert_eq!(next_index(2, 3), 0);
    assert_eq!(prev_index(0, 3), 2);
    let q = String::from("ac");
    let r = insert_char_at(&q, 1, 'b');
    assert_eq!(r, "abc");
    assert_eq!(remove_char_at(&r, 1), "ac");
}

#[test]
fn fuzzy_prefers_word_starts() {
    let a = fuzzy_score("src/main.rs", "main").unwrap();
    let b = fuzzy_score("src/domain.rs", "main").unwrap();
    assert!(a > b);
}
