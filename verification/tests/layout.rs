use zerostack::list_view::{list_row_text, list_window};
use zerostack::walk::{add_walk_entry, walk_entry, MAX_WALK_FILES};

#[test]
fn list_window_short_list() {
    let w = list_window(5, 2, 24, 4);
    assert_eq!((w.start, w.end, w.top_row), (0, 5, 16));
}

#[test]
fn list_window_centres_selection() {
    let w = list_window(30, 15, 24, 4);
    assert_eq!((w.start, w.end, w.top_row), (10, 20, 11));
}

#[test]
fn list_window_stops_at_the_end() {
    let w = list_window(30, 28, 24, 4);
    assert_eq!((w.start, w.end, w.top_row), (20, 30, 11));
}

#[test]
fn list_window_small_terminal() {
    let w = list_window(3, 0, 5, 4);
    assert_eq!((w.start, w.end, w.top_row), (0, 1, 1));
    let w = list_window(3, 2, 4, 4);
    assert_eq!((w.start, w.end), (2, 2));
}

#[test]
fn list_window_keeps_selection_in_view() {
    for count in 1..40usize {
        for selected in 0..count {
            let w = list_window(count, selected, 24, 4);
            assert!(w.start <= selected && selected < w.end, "{count} {selected}");
            assert_eq!(w.end - w.start, count.min(10));
        }
    }
}

#[test]
fn list_row_texts() {
    assert_eq!(list_row_text("abcdef", true, 6), "\u{25b8} abc");
    assert_eq!(list_row_text("abcdef", false, 6), "  abc");
    assert_eq!(list_row_text("abcdef", false, 2), "  ");
    assert_eq!(list_row_text("ab", true, 80), "\u{25b8} ab");
}

#[test]
fn walk_entries_relative_to_root() {
    assert_eq!(walk_entry("./src/main.rs", "."), Some(String::from("src/main.rs")));
    assert_eq!(walk_entry(".", "."), Some(String::new()));
    assert_eq!(walk_entry("/abs/file", "/abs"), Some(String::from("file")));
    assert_eq!(walk_entry("other/x", "/abs"), Some(String::from("other/x")));
    assert_eq!(walk_entry("/x", "/nothere"), Some(String::from("x")));
}

#[test]
fn walk_entries_skip_hidden() {
    assert_eq!(walk_entry("./.git/config", "."), None);
    assert_eq!(walk_entry("./a/.hidden", "."), None);
    assert_eq!(walk_entry("./..x/y", "."), None);
    assert_eq!(walk_entry("../a", "."), Some(String::from("../a")));
}

#[test]
fn walk_stops_at_the_cap() {
    let mut files = Vec::new();
    for i in 0..MAX_WALK_FILES - 1 {
        assert!(!add_walk_entry(&mut files, &format!("./f{i}"), "."));
    }
    assert!(!add_walk_entry(&mut files, "./.skip", "."));
    assert_eq!(files.len(), MAX_WALK_FILES - 1);
    assert!(add_walk_entry(&mut files, "./last", "."));
    assert_eq!(files.last().map(|s| s.as_str()), Some("last"));
}
