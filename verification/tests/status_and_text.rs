use zerostack::color::Color;
use zerostack::commands::{
    allowed_while_running, build_default_review_message, build_question, classify_submission,
    is_session_empty, undo_last, MessageRole, SubmitAction,
};
use zerostack::events::sanitize_output;
use zerostack::markdown::word_wrap;
use zerostack::statusline::{
    build_line, default_spec, format_changes, format_status, icon_glyph, item_icon,
    powerline_glyph, GitStatus, IconSpec, StatusLineLine, StatusLineSegment, StatusLineSetup,
    StatusSpan,
};
use zerostack::styled::markdown_to_styled;
use zerostack::table::{format_table_row, format_table_rule, ColumnAlign};

fn git(staged: usize, modified: usize, deleted: usize, untracked: usize, ahead: usize, behind: usize) -> GitStatus {
    GitStatus { staged, modified, deleted, untracked, ahead, behind }
}

fn seg(item: &str) -> StatusLineSegment {
    StatusLineSegment {
        item: String::from(item),
        text: None,
        color: None,
        bg: None,
        icon: None,
        left: None,
        right: None,
        always: None,
    }
}

fn span_texts(spans: &[StatusSpan]) -> Vec<String> {
    spans
        .iter()
        .map(|s| match s {
            StatusSpan::Text { text, .. } => text.clone(),
            StatusSpan::Flex => String::from("<flex>"),
        })
        .collect()
}

#[test]
fn git_changes_text() {
    assert_eq!(format_changes(&git(0, 0, 0, 0, 3, 1)), None);
    assert_eq!(format_changes(&git(1, 2, 0, 4, 0, 0)), Some(String::from("+1 ~2 ?4")));
    assert_eq!(format_changes(&git(0, 0, 5, 0, 0, 0)), Some(String::from("-5")));
}

#[test]
fn git_status_text() {
    assert_eq!(format_status(&git(0, 0, 0, 0, 0, 0)), "\u{2713}");
    assert_eq!(format_status(&git(0, 1, 0, 0, 2, 3)), "\u{2191}2 \u{2193}3 *");
    assert_eq!(format_status(&git(0, 0, 0, 0, 0, 7)), "\u{2193}7");
}

#[test]
fn icons_and_glyphs() {
    assert_eq!(item_icon("git_branch"), Some("\u{e0a0}"));
    assert_eq!(item_icon("cwd_full"), Some("\u{f07b}"));
    assert_eq!(item_icon("nothing"), None);
    assert_eq!(icon_glyph("folder"), "\u{f07b}");
    assert_eq!(icon_glyph("*"), "*");
    assert_eq!(powerline_glyph("pl_right"), "\u{e0b0}");
    assert_eq!(powerline_glyph("round_left"), "\u{e0b6}");
    assert_eq!(powerline_glyph(">>"), ">>");
}

#[test]
fn default_status_layout() {
    let spec = default_spec();
    assert_eq!(spec.lines.len(), 1);
    let items: Vec<&str> = spec.lines[0].segments.iter().map(|s| s.item.as_str()).collect();
    assert_eq!(&items[..5], &["cwd", "separator", "git_branch", "separator", "git_changes"]);
}

#[test]
fn status_setup_counts_lines() {
    let mut setup = StatusLineSetup::new();
    setup.init(None);
    assert_eq!(setup.line_count(), 1);
    assert!(setup.needs_git_status());
    let line = StatusLineLine { segments: vec![seg("model")] };
    let mut other = StatusLineSetup::new();
    other.init(Some(zerostack::statusline::StatusLineConfig { lines: vec![line] }));
    assert_eq!(other.line_count(), 1);
    assert!(!other.needs_git_status());
}

#[test]
fn status_line_drops_stray_separators() {
    let mut sep = seg("separator");
    sep.text = Some(String::from(" | "));
    let line = StatusLineLine {
        segments: vec![sep, seg("model"), seg("separator"), seg("cost"), seg("sep"), seg("flex"), seg("provider"), seg("separator")],
    };
    let resolved = vec![None, Some(String::from("gpt")), None, None, None, None, Some(String::from("openai")), None];
    let live = vec![None; 8];
    let spans = build_line(&line, &resolved, &live);
    assert_eq!(span_texts(&spans), vec!["gpt", " ", "<flex>", "openai"]);
}

#[test]
fn status_line_icon_caps_and_live_color() {
    let mut s = seg("model");
    s.icon = Some(IconSpec::Auto(true));
    s.left = Some(String::from("pl_left"));
    s.color = Some(String::from("red"));
    let line = StatusLineLine { segments: vec![s] };
    let spans = build_line(&line, &vec![Some(String::from("gpt"))], &vec![Some(Color::Yellow)]);
    assert_eq!(span_texts(&spans), vec!["\u{e0b2}", "\u{f2db} gpt"]);
    match &spans[1] {
        StatusSpan::Text { fg, bg, .. } => {
            assert_eq!(*fg, Some(Color::Yellow));
            assert_eq!(*bg, None);
        }
        StatusSpan::Flex => panic!("expected text"),
    }
}

#[test]
fn submissions_while_running() {
    assert_eq!(classify_submission(false, "/clear"), SubmitAction::Run);
    assert_eq!(classify_submission(true, "  /queue later"), SubmitAction::Run);
    assert_eq!(classify_submission(true, "/btw"), SubmitAction::Run);
    assert_eq!(classify_submission(true, "/btwx"), SubmitAction::RejectWhileRunning);
    assert_eq!(classify_submission(true, "!ls"), SubmitAction::RejectWhileRunning);
    assert_eq!(classify_submission(true, "   "), SubmitAction::Ignore);
    assert_eq!(classify_submission(true, "more please"), SubmitAction::Queue);
    assert!(allowed_while_running("/queue x"));
    assert!(!allowed_while_running("/model"));
}

#[test]
fn undo_removes_last_exchange() {
    let (s, u, a) = (MessageRole::System, MessageRole::User, MessageRole::Assistant);
    let mut roles = vec![s, u, a, u, a];
    assert_eq!(undo_last(&mut roles), 2);
    assert_eq!(roles, vec![s, u, a]);
    let mut roles = vec![s, u];
    assert_eq!(undo_last(&mut roles), 1);
    assert_eq!(roles, vec![s]);
    let mut roles = vec![s];
    assert_eq!(undo_last(&mut roles), 0);
    assert!(is_session_empty(&roles));
    assert!(!is_session_empty(&vec![s, u]));
}

#[test]
fn review_and_init_texts() {
    assert_eq!(
        build_default_review_message(false, false),
        "Review the changes discussed in this session for correctness, design, testing, and security."
    );
    assert!(build_default_review_message(true, true).starts_with("Review the current worktree state."));
    assert_eq!(
        build_question("AGENTS.md", "project notes", true, "/p"),
        "AGENTS.md already exists (project notes). Overwrite? [y/N]"
    );
    assert_eq!(
        build_question("AGENTS.md", "project notes", false, "/p"),
        "No AGENTS.md found in /p (project notes). Create one? [y/N]"
    );
}

#[test]
fn sanitize_strips_escapes_and_controls() {
    assert_eq!(sanitize_output("a\x1b[31mred\x1b[0m b"), "ared b");
    assert_eq!(sanitize_output("x\x07y\tz\r\n"), "xy\tz\r\n");
    // An OSC sequence ends at its first letter, which is dropped with it.
    assert_eq!(sanitize_output("t\x1b]0;title\x07rest"), "titlerest");
    assert_eq!(sanitize_output("end\x1b"), "end");
    assert_eq!(sanitize_output("k\x1bZk"), "kk");
}

#[test]
fn sanitize_is_idempotent_on_samples() {
    for s in ["plain", "a\x1b[1mb", "\x1b\x1b[[x", "ctl\x01\x02", "é\x1b]8;;u\x07ok"] {
        let once = sanitize_output(s);
        assert_eq!(sanitize_output(&once), once);
    }
}

#[test]
fn word_wrap_breaks_at_words() {
    assert_eq!(word_wrap("short", 10), vec!["short"]);
    assert_eq!(word_wrap("", 10), vec![""]);
    assert_eq!(word_wrap("hello brave new world", 11), vec!["hello", "brave new", "world"]);
    assert_eq!(word_wrap("hello brave new world", 12), vec!["hello brave", "new world"]);
}

#[test]
fn table_rule_and_row() {
    assert_eq!(
        format_table_rule(&[1, 2], '\u{250c}', '\u{252c}', '\u{2510}'),
        "\u{250c}\u{2500}\u{2500}\u{2500}\u{252c}\u{2500}\u{2500}\u{2500}\u{2500}\u{2510}"
    );
    let cells = vec![String::from("a"), String::from("bb")];
    let rows = format_table_row(&cells, &[3, 4], &[ColumnAlign::Left, ColumnAlign::Right]);
    assert_eq!(rows, vec!["\u{2502} a   \u{2502}   bb \u{2502}"]);
    let rows = format_table_row(&cells, &[3, 4], &[ColumnAlign::Center, ColumnAlign::Center]);
    assert_eq!(rows, vec!["\u{2502}  a  \u{2502}  bb  \u{2502}"]);
}

#[test]
fn markdown_heading_and_paragraph() {
    let lines = markdown_to_styled("# Title\n\nhello world", 80);
    let got: Vec<(String, Color)> = lines.iter().map(|e| (e.text.clone(), e.color)).collect();
    assert_eq!(
        got,
        vec![
            (String::from("Title"), Color::Cyan),
            (String::new(), Color::White),
            (String::from("hello world"), Color::White),
        ]
    );
    assert!(markdown_to_styled("", 80).is_empty());
}

#[test]
fn markdown_code_block() {
    let lines = markdown_to_styled("```\nlet x = 1;\n```", 80);
    let got: Vec<(String, Color)> = lines.iter().map(|e| (e.text.clone(), e.color)).collect();
    assert_eq!(got[0], (String::from("let x = 1;"), Color::DarkYellow));
    assert_eq!(got.last(), Some(&(String::new(), Color::White)));
}

#[test]
fn word_wrap_counts_wide_characters_as_two_columns() {
    assert_eq!(
        word_wrap("\u{4f60}\u{597d}\u{4e16}\u{754c} \u{4f60}\u{597d}", 5),
        vec!["\u{4f60}\u{597d}", "\u{4e16}\u{754c}", "\u{4f60}\u{597d}"]
    );
}
