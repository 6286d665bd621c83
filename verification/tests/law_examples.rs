use zerostack::cursor::{cursor_to_line_col, line_col_to_cursor};
use zerostack::picker::CommandPicker;
use zerostack::renderer::base64_encode;

#[test]
fn base64_padding_examples() {
    for (input, pads) in [(&b""[..], 0), (b"f", 2), (b"fo", 1), (b"foo", 0), (b"foob", 2), (b"fooba", 1)] {
        let out = base64_encode(input);
        let trailing = out.chars().rev().take_while(|c| *c == '=').count();
        assert_eq!(trailing, pads);
        assert_eq!(out.matches('=').count(), pads);
    }
    assert_eq!(base64_encode(b"f"), "Zg==");
    assert_eq!(base64_encode(b"fo"), "Zm8=");
}

#[test]
fn line_col_then_cursor_round_trip() {
    let text = "é\nab\n\nxyz";
    for (l, c) in [(0, 0), (0, 1), (1, 0), (1, 2), (2, 0), (3, 3)] {
        let cursor = line_col_to_cursor(text, l, c);
        assert_eq!(cursor_to_line_col(text, cursor), (l, c));
    }
    assert_eq!(cursor_to_line_col("é\nab", 4), (1, 1));
}

#[test]
fn picker_type_then_erase_and_selection_cycle() {
    let mut p = CommandPicker::new();
    p.activate();
    p.char_input('m');
    let (q0, k0, m0) = (p.query.clone(), p.cursor, p.matches.clone());
    p.char_input('o');
    p.backspace();
    assert_eq!(p.query, q0);
    assert_eq!(p.cursor, k0);
    assert_eq!(p.matches, m0);
    assert_eq!(p.selected, 0);
    let m = p.matches.len();
    assert!(m > 1);
    for _ in 0..m - 1 {
        p.select_next();
    }
    assert_eq!(p.selected, m - 1);
    p.select_next();
    assert_eq!(p.selected, 0);
    p.select_prev();
    assert_eq!(p.selected, m - 1);
    p.select_next();
    assert_eq!(p.selected, 0);
    let chosen = p.selected_command().expect("a command");
    assert!(chosen.to_lowercase().contains("m"));
}
