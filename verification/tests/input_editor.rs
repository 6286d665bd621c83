use zerostack::editor::{InputEditor, KeyCode, KeyEvent, KeyModifiers};

fn key(code: KeyCode) -> KeyEvent {
    KeyEvent::new(code, KeyModifiers::none())
}

fn ctrl(c: char) -> KeyEvent {
    KeyEvent::new(KeyCode::Char(c), KeyModifiers::control())
}

fn alt(c: char) -> KeyEvent {
    KeyEvent::new(KeyCode::Char(c), KeyModifiers::alt())
}

fn type_text(editor: &mut InputEditor, text: &str) {
    for ch in text.chars() {
        editor.handle_key(key(KeyCode::Char(ch)));
    }
}

#[test]
fn test_ctrl_a_moves_to_beginning() {
    let mut ed = InputEditor::new();
    type_text(&mut ed, "hello world");
    ed.handle_key(key(KeyCode::End));
    assert_eq!(ed.cursor, 11);

    ed.handle_key(ctrl('a'));
    assert_eq!(ed.cursor, 0);
}

#[test]
fn test_ctrl_e_moves_to_end() {
    let mut ed = InputEditor::new();
    type_text(&mut ed, "hello");
    ed.handle_key(ctrl('a'));
    ed.handle_key(ctrl('e'));
    assert_eq!(ed.cursor, 5);
}

#[test]
fn test_ctrl_b_moves_backward() {
    let mut ed = InputEditor::new();
    type_text(&mut ed, "abc");
    ed.handle_key(key(KeyCode::End));
    ed.handle_key(ctrl('b'));
    assert_eq!(ed.cursor, 2);
    ed.handle_key(ctrl('b'));
    assert_eq!(ed.cursor, 1);
    ed.handle_key(ctrl('b'));
    assert_eq!(ed.cursor, 0);
    ed.handle_key(ctrl('b'));
    assert_eq!(ed.cursor, 0);
}

#[test]
fn test_ctrl_f_moves_forward() {
    let mut ed = InputEditor::new();
    type_text(&mut ed, "abc");
    ed.handle_key(ctrl('a'));
    ed.handle_key(ctrl('f'));
    assert_eq!(ed.cursor, 1);
    ed.handle_key(ctrl('f'));
    assert_eq!(ed.cursor, 2);
    ed.handle_key(ctrl('f'));
    assert_eq!(ed.cursor, 3);
    ed.handle_key(ctrl('f'));
    assert_eq!(ed.cursor, 3);
}

#[test]
fn test_ctrl_p_navigates_history() {
    let mut ed = InputEditor::new();
    type_text(&mut ed, "first");
    assert_eq!(
        ed.handle_key(key(KeyCode::Enter)),
        Some(String::from("first"))
    );
    type_text(&mut ed, "second");
    assert_eq!(
        ed.handle_key(key(KeyCode::Enter)),
        Some(String::from("second"))
    );

    ed.handle_key(ctrl('p'));
    assert_eq!(ed.buffer.as_str(), "second");
    ed.handle_key(ctrl('p'));
    assert_eq!(ed.buffer.as_str(), "first");
    ed.handle_key(ctrl('p'));
    assert_eq!(ed.buffer.as_str(), "first");
}

#[test]
fn test_ctrl_n_navigates_history() {
    let mut ed = InputEditor::new();
    type_text(&mut ed, "first");
    ed.handle_key(key(KeyCode::Enter));
    type_text(&mut ed, "second");
    ed.handle_key(key(KeyCode::Enter));

    ed.handle_key(ctrl('p'));
    ed.handle_key(ctrl('p'));
    ed.handle_key(ctrl('n'));
    assert_eq!(ed.buffer.as_str(), "second");
    ed.handle_key(ctrl('n'));
    assert_eq!(ed.buffer.as_str(), "");
}

#[test]
fn test_history_preserves_draft() {
    let mut ed = InputEditor::new();
    type_text(&mut ed, "old entry");
    ed.handle_key(key(KeyCode::Enter));

    type_text(&mut ed, "draft text");
    assert_eq!(ed.buffer.as_str(), "draft text");

    ed.handle_key(ctrl('p'));
    assert_eq!(ed.buffer.as_str(), "old entry");

    ed.handle_key(ctrl('n'));
    assert_eq!(ed.buffer.as_str(), "draft text");
    assert_eq!(ed.cursor, 10);
}

#[test]
fn test_draft_discarded_on_edit_in_history() {
    let mut ed = InputEditor::new();
    type_text(&mut ed, "old entry");
    ed.handle_key(key(KeyCode::Enter));
    type_text(&mut ed, "my draft");

    ed.handle_key(ctrl('p'));
    assert_eq!(ed.buffer.as_str(), "old entry");
    assert_eq!(ed.cursor, 0);

    ed.handle_key(key(KeyCode::Char('X')));
    assert_eq!(ed.buffer.as_str(), "Xold entry");
    assert_eq!(ed.cursor, 1);

    ed.handle_key(ctrl('n'));
    assert_eq!(ed.buffer.as_str(), "Xold entry");
}

#[test]
fn test_ctrl_w_deletes_prev_word() {
    let mut ed = InputEditor::new();
    type_text(&mut ed, "hello world foo");
    ed.handle_key(key(KeyCode::End));
    ed.handle_key(ctrl('w'));
    assert_eq!(ed.buffer.as_str(), "hello world ");
    assert_eq!(ed.cursor, 12);

    ed.handle_key(ctrl('w'));
    assert_eq!(ed.buffer.as_str(), "hello ");
    assert_eq!(ed.cursor, 6);

    ed.handle_key(ctrl('w'));
    assert_eq!(ed.buffer.as_str(), "");
    assert_eq!(ed.cursor, 0);

    ed.handle_key(ctrl('w'));
    assert_eq!(ed.buffer.as_str(), "");
}

#[test]
fn test_ctrl_w_mid_buffer() {
    let mut ed = InputEditor::new();
    type_text(&mut ed, "hello world");
    ed.handle_key(ctrl('a'));
    ed.handle_key(ctrl('f'));
    ed.handle_key(ctrl('f'));
    ed.handle_key(ctrl('f'));
    ed.handle_key(ctrl('f'));
    ed.handle_key(ctrl('f'));
    assert_eq!(ed.cursor, 5);

    ed.handle_key(ctrl('w'));
    assert_eq!(ed.buffer.as_str(), " world");
    assert_eq!(ed.cursor, 0);
}

#[test]
fn test_alt_d_deletes_next_word() {
    let mut ed = InputEditor::new();
    type_text(&mut ed, "hello world foo");
    ed.handle_key(ctrl('a'));
    ed.handle_key(alt('d'));
    assert_eq!(ed.buffer.as_str(), " world foo");
    assert_eq!(ed.cursor, 0);

    ed.handle_key(alt('d'));
    assert_eq!(ed.buffer.as_str(), " foo");
    assert_eq!(ed.cursor, 0);

    ed.handle_key(alt('d'));
    assert_eq!(ed.buffer.as_str(), "");
}

#[test]
fn test_alt_d_at_end_does_nothing() {
    let mut ed = InputEditor::new();
    type_text(&mut ed, "hello");
    ed.handle_key(key(KeyCode::End));
    ed.handle_key(alt('d'));
    assert_eq!(ed.buffer.as_str(), "hello");
}

#[test]
fn test_ctrl_u_deletes_to_beginning() {
    let mut ed = InputEditor::new();
    type_text(&mut ed, "hello world");
    ed.handle_key(key(KeyCode::End));
    ed.handle_key(ctrl('u'));
    assert_eq!(ed.buffer.as_str(), "");
    assert_eq!(ed.cursor, 0);
}

#[test]
fn test_ctrl_u_deletes_from_mid() {
    let mut ed = InputEditor::new();
    type_text(&mut ed, "hello world");
    ed.handle_key(ctrl('b'));
    ed.handle_key(ctrl('b'));
    ed.handle_key(ctrl('b'));
    ed.handle_key(ctrl('b'));
    ed.handle_key(ctrl('b'));
    ed.handle_key(ctrl('b'));
    ed.handle_key(ctrl('b'));
    ed.handle_key(ctrl('b'));
    ed.handle_key(ctrl('u'));
    assert_eq!(ed.buffer.as_str(), "lo world");
    assert_eq!(ed.cursor, 0);
}

#[test]
fn test_ctrl_k_deletes_to_end() {
    let mut ed = InputEditor::new();
    type_text(&mut ed, "hello world");
    ed.handle_key(ctrl('a'));
    ed.handle_key(ctrl('k'));
    assert_eq!(ed.buffer.as_str(), "");
    assert_eq!(ed.cursor, 0);
}

#[test]
fn test_ctrl_k_from_mid() {
    let mut ed = InputEditor::new();
    type_text(&mut ed, "hello world");
    ed.handle_key(ctrl('a'));
    for _ in 0..5 {
        ed.handle_key(ctrl('f'));
    }
    assert_eq!(ed.cursor, 5);
    ed.handle_key(ctrl('k'));
    assert_eq!(ed.buffer.as_str(), "hello");
    assert_eq!(ed.cursor, 5);
}

#[test]
fn test_alt_b_moves_back_one_word() {
    let mut ed = InputEditor::new();
    type_text(&mut ed, "hello brave new world");
    ed.handle_key(key(KeyCode::End));
    ed.handle_key(alt('b'));
    assert_eq!(ed.cursor, 16);
    ed.handle_key(alt('b'));
    assert_eq!(ed.cursor, 12);
    ed.handle_key(alt('b'));
    assert_eq!(ed.cursor, 6);
    ed.handle_key(alt('b'));
    assert_eq!(ed.cursor, 0);
    ed.handle_key(alt('b'));
    assert_eq!(ed.cursor, 0);
}

#[test]
fn test_alt_f_moves_forward_one_word() {
    let mut ed = InputEditor::new();
    type_text(&mut ed, "hello brave world");
    assert_eq!(ed.cursor, 17);
    ed.handle_key(ctrl('a'));
    ed.handle_key(alt('f'));
    assert_eq!(ed.cursor, 5);
    ed.handle_key(alt('f'));
    assert_eq!(ed.cursor, 11);
    ed.handle_key(alt('f'));
    assert_eq!(ed.cursor, 17);
    ed.handle_key(alt('f'));
    assert_eq!(ed.cursor, 17);
}

#[test]
fn test_alt_b_with_leading_spaces() {
    let mut ed = InputEditor::new();
    type_text(&mut ed, "   hello");
    ed.handle_key(key(KeyCode::End));
    ed.handle_key(alt('b'));
    assert_eq!(ed.cursor, 3);
}

#[test]
fn test_ctrl_y_pastes_most_recent_kill() {
    let mut ed = InputEditor::new();
    type_text(&mut ed, "hello world");
    ed.handle_key(key(KeyCode::End));
    for _ in 0..5 {
        ed.handle_key(ctrl('b'));
    }
    assert_eq!(ed.cursor, 6);
    ed.handle_key(ctrl('k'));
    assert_eq!(ed.buffer.as_str(), "hello ");

    ed.handle_key(key(KeyCode::End));
    ed.handle_key(ctrl('y'));
    assert_eq!(ed.buffer.as_str(), "hello world");
}

#[test]
fn test_ctrl_y_empty_kill_ring_does_nothing() {
    let mut ed = InputEditor::new();
    type_text(&mut ed, "hello");
    ed.handle_key(ctrl('y'));
    assert_eq!(ed.buffer.as_str(), "hello");
}

#[test]
fn test_kill_ring_accumulates_kills() {
    let mut ed = InputEditor::new();
    type_text(&mut ed, "one two three");

    ed.handle_key(key(KeyCode::End));
    for _ in 0..5 {
        ed.handle_key(ctrl('b'));
    }
    assert_eq!(ed.cursor, 8);
    ed.handle_key(ctrl('k'));
    assert_eq!(ed.buffer.as_str(), "one two ");

    ed.handle_key(key(KeyCode::End));
    ed.handle_key(ctrl('y'));
    assert_eq!(ed.buffer.as_str(), "one two three");

    ed.handle_key(ctrl('y'));
    assert_eq!(ed.buffer.as_str(), "one two threethree");
}

#[test]
fn test_alt_y_rotates_kill_ring() {
    let mut ed = InputEditor::new();
    type_text(&mut ed, "aaa");
    ed.handle_key(ctrl('u'));
    type_text(&mut ed, "bbb");
    ed.handle_key(ctrl('u'));

    ed.handle_key(ctrl('y'));
    assert_eq!(ed.buffer.as_str(), "bbb");

    ed.handle_key(alt('y'));
    assert_eq!(ed.buffer.as_str(), "aaa");
}

#[test]
fn test_ctrl_y_after_alt_y_yanks_rotated_entry() {
    let mut ed = InputEditor::new();
    type_text(&mut ed, "aaa");
    ed.handle_key(ctrl('u'));
    type_text(&mut ed, "bbb");
    ed.handle_key(ctrl('u'));

    ed.handle_key(ctrl('y'));
    assert_eq!(ed.buffer.as_str(), "bbb");

    ed.handle_key(alt('y'));
    assert_eq!(ed.buffer.as_str(), "aaa");

    ed.handle_key(ctrl('y'));
    assert_eq!(ed.buffer.as_str(), "aaaaaa");
}

#[test]
fn test_home_moves_to_beginning() {
    let mut ed = InputEditor::new();
    type_text(&mut ed, "hello world");
    ed.handle_key(key(KeyCode::End));
    ed.handle_key(key(KeyCode::Home));
    assert_eq!(ed.cursor, 0);
}

#[test]
fn test_end_moves_to_end() {
    let mut ed = InputEditor::new();
    type_text(&mut ed, "hello");
    ed.handle_key(key(KeyCode::Home));
    ed.handle_key(key(KeyCode::End));
    assert_eq!(ed.cursor, 5);
}

#[test]
fn test_basic_input() {
    let mut ed = InputEditor::new();
    type_text(&mut ed, "test");
    assert_eq!(ed.buffer.as_str(), "test");
    assert_eq!(ed.cursor, 4);
}

#[test]
fn test_backspace() {
    let mut ed = InputEditor::new();
    type_text(&mut ed, "test");
    ed.handle_key(key(KeyCode::Backspace));
    assert_eq!(ed.buffer.as_str(), "tes");
    assert_eq!(ed.cursor, 3);
}

#[test]
fn test_delete() {
    let mut ed = InputEditor::new();
    type_text(&mut ed, "abcd");
    ed.handle_key(ctrl('a'));
    ed.handle_key(ctrl('f'));
    ed.handle_key(key(KeyCode::Delete));
    assert_eq!(ed.buffer.as_str(), "acd");
    assert_eq!(ed.cursor, 1);
}

#[test]
fn test_left_right() {
    let mut ed = InputEditor::new();
    type_text(&mut ed, "ab");
    ed.handle_key(key(KeyCode::Left));
    assert_eq!(ed.cursor, 1);
    ed.handle_key(key(KeyCode::Left));
    assert_eq!(ed.cursor, 0);
    ed.handle_key(key(KeyCode::Right));
    assert_eq!(ed.cursor, 1);
    ed.handle_key(key(KeyCode::Right));
    assert_eq!(ed.cursor, 2);
}

#[test]
fn test_enter_submits() {
    let mut ed = InputEditor::new();
    type_text(&mut ed, "hello");
    let result = ed.handle_key(key(KeyCode::Enter));
    assert_eq!(result, Some(String::from("hello")));
    assert!(ed.buffer.is_empty());
    assert_eq!(ed.cursor, 0);
}

#[test]
fn test_enter_empty_returns_none() {
    let mut ed = InputEditor::new();
    let result = ed.handle_key(key(KeyCode::Enter));
    assert_eq!(result, None);
}

#[test]
fn test_tab_inserts_two_spaces() {
    let mut ed = InputEditor::new();
    type_text(&mut ed, "x");
    ed.handle_key(key(KeyCode::Tab));
    assert_eq!(ed.buffer.as_str(), "x  ");
    assert_eq!(ed.cursor, 3);
}

#[test]
fn test_ctrl_d_deletes_char_at_cursor() {
    let mut ed = InputEditor::new();
    type_text(&mut ed, "abcd");
    ed.handle_key(ctrl('a'));
    ed.handle_key(ctrl('f'));
    ed.handle_key(ctrl('d'));
    assert_eq!(ed.buffer.as_str(), "acd");
    assert_eq!(ed.cursor, 1);
}

#[test]
fn test_ctrl_d_at_end_does_nothing() {
    let mut ed = InputEditor::new();
    type_text(&mut ed, "abcd");
    ed.handle_key(key(KeyCode::End));
    ed.handle_key(ctrl('d'));
    assert_eq!(ed.buffer.as_str(), "abcd");
    assert_eq!(ed.cursor, 4);
}

#[test]
fn test_ctrl_d_empty_buffer_does_nothing() {
    let mut ed = InputEditor::new();
    ed.handle_key(ctrl('d'));
    assert_eq!(ed.buffer.as_str(), "");
}
