use zerostack::commands::{echo_lines, route_line, slash_words, LineRoute, MessageRole};
use zerostack::editor::{InputEditor, KeyCode, KeyEvent, KeyModifiers};
use zerostack::fuzzy::fuzzy_score;
use zerostack::models::quick_models_heading;
use zerostack::advisor::LineKind;
use zerostack::permission::{allow_always_lines, permission_key, permission_prompt, PermissionAnswer};
use zerostack::picker::ModelsPicker;
use zerostack::stream::{answer_lines, tool_result_lines, StreamColor, StreamState, TodoItem};
use zerostack::text::{lex_le_of, sort_texts};
use zerostack::transcript::{session_transcript, SessionMessage, TranscriptColor, TranscriptHead};

fn plain(c: char) -> KeyEvent {
    KeyEvent::new(KeyCode::Char(c), KeyModifiers::none())
}

fn stream() -> StreamState {
    StreamState { line_started: true, was_reasoning: true, response: String::new(), response_start: None }
}

#[test]
fn routes_of_lines() {
    assert!(matches!(route_line("  /queue ls"), LineRoute::Queue));
    assert!(matches!(route_line("/btw"), LineRoute::SideQuestionUsage));
    assert!(matches!(route_line("/btw   "), LineRoute::SideQuestionUsage));
    match route_line("/btw  why so slow? ") {
        LineRoute::SideQuestion(m) => assert_eq!(m, "why so slow?"),
        _ => panic!("expected a side question"),
    }
    assert!(matches!(route_line(".plan go"), LineRoute::Dot));
    match route_line("/advisor model a b") {
        LineRoute::Slash(w) => assert_eq!(w, vec!["/advisor", "model", "a b"]),
        _ => panic!("expected a slash command"),
    }
    match route_line("! ls -la ") {
        LineRoute::Shell(c) => assert_eq!(c, "ls -la"),
        _ => panic!("expected a shell command"),
    }
    assert!(matches!(route_line("!  "), LineRoute::ShellEmpty));
    assert!(matches!(route_line("hello /btw"), LineRoute::Message));
    assert!(matches!(route_line("/btwx"), LineRoute::Slash(_)));
}

#[test]
fn slash_words_split_at_two_spaces() {
    assert_eq!(slash_words("  /sessions  "), vec!["/sessions"]);
    assert_eq!(slash_words("/sessions delete a b"), vec!["/sessions", "delete", "a b"]);
    assert_eq!(slash_words("/a  b"), vec!["/a", "", "b"]);
    assert_eq!(slash_words("/models x"), vec!["/models", "x"]);
}

#[test]
fn echo_of_commands() {
    assert_eq!(echo_lines("/clear"), vec!["> /clear", ""]);
    assert_eq!(echo_lines("!a\r\nb\u{7}\n"), vec!["> !a", "> b", ""]);
}

#[test]
fn answers_are_marked() {
    let lines = answer_lines("hello **world**", 40);
    assert!(lines[0].text.starts_with("< "));
    assert!(lines[0].text.contains("hello"));
    assert!(answer_lines("", 40).is_empty());
}

#[test]
fn tool_results_by_name() {
    let tasks = vec![TodoItem { content: "a".to_string(), status: "completed".to_string(), priority: "low".to_string() }];
    let t = tool_result_lines("write_todo_list", "ignored", &tasks, None);
    assert_eq!(t[0], (StreamColor::ToolCall, "tasks  1 done / 1 total".to_string()));
    assert!(tool_result_lines("read", "x", &tasks, None).is_empty());
    assert_eq!(
        tool_result_lines("read", "x\ny", &tasks, Some(Some(1))),
        vec![(StreamColor::Secondary, "◈ result (3 chars, 2 lines, showing 1):\nx".to_string())]
    );
}

#[test]
fn permission_prompt_and_keys() {
    let mut st = stream();
    let lines = permission_prompt(&mut st, "bash", "ls -la");
    assert_eq!(
        lines,
        vec!["", "[permission] bash: ls -la", "  (y) allow once  (a) allow always  (n) deny  (ESC) abort"]
    );
    assert!(!st.line_started && !st.was_reasoning);
    assert!(matches!(permission_key("bash", "ls -la", "ls -la", plain('y')), Some(PermissionAnswer::AllowOnce)));
    match permission_key("bash", "ls -la", "ls -la", plain('a')) {
        Some(PermissionAnswer::AllowAlways(p)) => assert_eq!(p, "ls *"),
        _ => panic!("expected allow always"),
    }
    let esc = KeyEvent::new(KeyCode::Esc, KeyModifiers::none());
    assert!(matches!(permission_key("read", "a", "a", esc), Some(PermissionAnswer::Deny)));
    assert!(matches!(permission_key("read", "a", "a", plain('n')), Some(PermissionAnswer::Deny)));
    assert!(permission_key("read", "a", "a", plain('x')).is_none());
    let (a, b) = allow_always_lines("bash", "ls *");
    assert_eq!(a, "  -> will allow: ls *");
    assert_eq!(b, "  allowed bash ls * (saved to session)");
}

#[test]
fn transcript_of_a_session() {
    let head = TranscriptHead {
        provider: "openai".to_string(),
        model: "gpt".to_string(),
        version: "1.0".to_string(),
        agents_loaded: true,
        architecture_loaded: false,
        compactions: 2,
        last_savings: 900,
    };
    let messages = vec![
        SessionMessage { role: MessageRole::User, content: "hi\nthere".to_string() },
        SessionMessage { role: MessageRole::Assistant, content: "hello".to_string() },
        SessionMessage { role: MessageRole::System, content: "note".to_string() },
    ];
    let t = session_transcript(&head, &messages, 40);
    let texts: Vec<&str> = t.iter().map(|l| l.1.as_str()).collect();
    assert_eq!(texts[0], "zerostack openai  gpt  1.0");
    assert_eq!(texts[2], "loaded AGENTS.md");
    assert_eq!(texts[4], "compacted 2 times (saved ~900 tokens)");
    assert_eq!(texts[6], "> hi");
    assert_eq!(texts[7], "> there");
    assert_eq!(texts[8], "");
    assert!(texts[9].starts_with("< hello"));
    assert!(matches!(t[9].0, TranscriptColor::Styled(_)));
    assert_eq!(texts[texts.len() - 2], "# note");
    assert_eq!(t[0].0, TranscriptColor::Heading);
}

#[test]
fn texts_sort_like_strings() {
    let v: Vec<String> = ["smart", "Fast", "fast", "a", "", "é", "z"].iter().map(|s| s.to_string()).collect();
    let mut expected = v.clone();
    expected.sort();
    assert_eq!(sort_texts(&v), expected);
    let a: Vec<char> = "abc".chars().collect();
    let b: Vec<char> = "abd".chars().collect();
    assert!(lex_le_of(&a, &b));
    assert!(!lex_le_of(&b, &a));
    assert!(lex_le_of(&a[..2], &a));
}

#[test]
fn quick_heading_lines() {
    let h = quick_models_heading("openai", "gpt", 0);
    assert_eq!(h[0], (LineKind::Confirm, "quick models (current: openai | gpt):".to_string()));
    assert_eq!(h[1], (LineKind::Result, "  (none — add with /models-add)".to_string()));
    assert_eq!(quick_models_heading("p", "m", 2).len(), 1);
}

#[test]
fn editor_checks_before_keys() {
    let mut ed = InputEditor::new();
    assert!(ed.key_allowed(plain('a')));
    assert!(ed.can_paste("xyz"));
    assert!(ed.picker_key_allowed(plain('a')));
    ed.buffer = "é".to_string();
    ed.cursor = 1;
    assert!(!ed.key_allowed(plain('a')));
    assert!(!ed.can_paste("x"));
    ed.cursor = 2;
    assert!(ed.key_allowed(plain('a')));
    ed.history_pos = Some(3);
    assert!(!ed.key_allowed(plain('a')));
}

#[test]
fn fuzzy_matches_exactly_subsequences() {
    assert_eq!(fuzzy_score("model", "mod"), Some(1299));
    assert!(fuzzy_score("Models-Add", "mda").is_some());
    assert!(fuzzy_score("model", "dom").is_none());
    assert_eq!(fuzzy_score("anything", ""), Some(0));
    assert!(fuzzy_score("ÉCOLE", "éco").is_some());
}

#[test]
fn selection_cycles_through_every_match() {
    let mut p = ModelsPicker::new();
    p.set_items(vec!["a1".to_string(), "a2".to_string(), "a3".to_string(), "b".to_string()]);
    p.activate();
    p.char_input('a');
    let m = p.matches.len();
    assert_eq!(m, 3);
    p.select_next();
    let start = p.selected;
    let mut seen = vec![start];
    for _ in 0..m - 1 {
        p.select_next();
        seen.push(p.selected);
    }
    p.select_next();
    assert_eq!(p.selected, start);
    seen.sort();
    assert_eq!(seen, vec![0, 1, 2]);
}

#[test]
fn end_of_a_run() {
    use_run_end();
}

fn use_run_end() {
    let f = zerostack::stream::RunEndFacts {
        total_input: u64::MAX - 1,
        total_output: 10,
        input_tokens: 5,
        output_tokens: 7,
        loop_running: false,
        compact_enabled: true,
        needs_compaction: true,
        no_session: false,
        loop_should_stop: false,
        iteration: 3,
    };
    let e = zerostack::stream::run_end(&f, "answer");
    assert_eq!(e.total_input, u64::MAX);
    assert_eq!(e.total_output, 17);
    assert!(e.compact && e.save);
    assert!(matches!(e.next, zerostack::stream::LoopNext::Idle));
    let looping = zerostack::stream::RunEndFacts { loop_running: true, loop_should_stop: true, ..f };
    let e = zerostack::stream::run_end(&looping, "answer");
    assert!(!e.compact);
    match e.next {
        zerostack::stream::LoopNext::Stop(m) => assert_eq!(m, "[loop] max iterations (3) reached, stopping"),
        _ => panic!("expected the loop to stop"),
    }
    let going = zerostack::stream::RunEndFacts { loop_running: true, no_session: true, ..f };
    let long = "x".repeat(250);
    let e = zerostack::stream::run_end(&going, &long);
    assert!(!e.save);
    match e.next {
        zerostack::stream::LoopNext::Continue(t) => assert_eq!(t.len(), 200),
        _ => panic!("expected the loop to go on"),
    }
}

#[test]
fn ascii_motions_move_only_the_cursor() {
    let cases: Vec<(KeyEvent, usize)> = vec![
        (KeyEvent::new(KeyCode::Home, KeyModifiers::none()), 0),
        (KeyEvent::new(KeyCode::End, KeyModifiers::none()), 5),
        (KeyEvent::new(KeyCode::Left, KeyModifiers::none()), 1),
        (KeyEvent::new(KeyCode::Right, KeyModifiers::none()), 3),
        (KeyEvent::new(KeyCode::Char('b'), KeyModifiers::control()), 1),
        (KeyEvent::new(KeyCode::Char('f'), KeyModifiers::control()), 3),
    ];
    for (k, want) in cases {
        let mut ed = InputEditor::new();
        ed.buffer = "hello".to_string();
        ed.cursor = 2;
        assert_eq!(ed.handle_key(k), None);
        assert_eq!(ed.buffer, "hello");
        assert_eq!(ed.cursor, want);
    }
    let mut ed = InputEditor::new();
    ed.buffer = "   hello".to_string();
    ed.cursor = 8;
    ed.handle_key(KeyEvent::new(KeyCode::Char('b'), KeyModifiers::alt()));
    assert_eq!(ed.cursor, 3);
    let mut ed = InputEditor::new();
    ed.buffer = "ab".to_string();
    ed.cursor = 0;
    ed.handle_key(KeyEvent::new(KeyCode::Left, KeyModifiers::none()));
    assert_eq!(ed.cursor, 0);
    ed.cursor = 2;
    ed.handle_key(KeyEvent::new(KeyCode::Right, KeyModifiers::none()));
    assert_eq!(ed.cursor, 2);
}
