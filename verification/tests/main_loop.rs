use zerostack::commands::{submission_action, SubmitAction};
use zerostack::dispatch::{
    event_step, submit_step, unclaimed_key_step, MainAction, MainEvent, MainState, SubmitStep,
};
use zerostack::editor::{KeyCode, KeyEvent, KeyModifiers};
use zerostack::items::short_token_count;
use zerostack::stream::{
    stream_step, todo_lines, tool_result_summary, AgentEvent, StreamColor, StreamOp, StreamState,
    TodoItem,
};
use zerostack::sessions::{
    sessions_reply, sessions_request, SessionSummary, SessionsReply, SessionsRequest,
};

fn idle() -> MainState {
    MainState {
        is_running: false,
        side_questions: 0,
        loop_active: false,
        show_reasoning: false,
        selection_active: false,
        scrolling: false,
        picker_active: false,
        chain_prompt: false,
        chain_but_mode: false,
        chain_pending: false,
    }
}

fn key(code: KeyCode) -> MainEvent {
    MainEvent::Key(KeyEvent::new(code, KeyModifiers::none()))
}

fn ctrl(c: char) -> MainEvent {
    MainEvent::Key(KeyEvent::new(KeyCode::Char(c), KeyModifiers::control()))
}

fn words(ws: &[&str]) -> Vec<String> {
    ws.iter().map(|w| w.to_string()).collect()
}

fn summary(id: &str, count: usize, last: Option<&str>) -> SessionSummary {
    SessionSummary {
        id: id.to_string(),
        updated: "12:30".to_string(),
        message_count: count,
        model: "gpt-x".to_string(),
        last_message: last.map(|s| s.to_string()),
    }
}

#[test]
fn loop_blocks_plain_lines() {
    assert_eq!(submission_action(true, false, "hello"), SubmitAction::BlockedByLoop);
    assert_eq!(submission_action(true, true, " /loop stop"), SubmitAction::BlockedByLoop);
    assert_eq!(submission_action(true, false, "/loop stop"), SubmitAction::Run);
    assert_eq!(submission_action(true, true, "/model"), SubmitAction::RejectWhileRunning);
    assert_eq!(submission_action(false, false, "hello"), SubmitAction::Run);
    assert_eq!(submission_action(false, true, "hello"), SubmitAction::Queue);
    assert_eq!(submission_action(true, true, ""), SubmitAction::BlockedByLoop);
}

#[test]
fn submit_step_while_loop_active_changes_nothing() {
    let s = MainState { loop_active: true, scrolling: true, ..idle() };
    assert_eq!(submit_step(s, "go on"), (s, SubmitStep::Command(SubmitAction::BlockedByLoop)));
    let (s2, step) = submit_step(s, "/loop stop");
    assert_eq!(step, SubmitStep::Command(SubmitAction::Run));
    assert!(!s2.scrolling);
}

#[test]
fn submit_step_chain_instructions() {
    let s = MainState { chain_pending: true, chain_but_mode: true, ..idle() };
    let (s2, step) = submit_step(s, "   ");
    assert_eq!(step, SubmitStep::ChainButEmpty);
    assert!(s2.chain_prompt && s2.chain_pending && !s2.chain_but_mode);
    let (s3, step) = submit_step(s, "be brief");
    assert_eq!(step, SubmitStep::ChainButAccept);
    assert!(!s3.chain_pending && !s3.chain_but_mode && !s3.chain_prompt);
    let running = MainState { is_running: true, ..s };
    assert_eq!(submit_step(running, "more").1, SubmitStep::Command(SubmitAction::Queue));
}

#[test]
fn ctrl_c_cancels_side_questions_then_run_then_quits() {
    let s = MainState { is_running: true, side_questions: 2, loop_active: true, ..idle() };
    let (s1, a1) = event_step(s, ctrl('c'));
    assert_eq!(a1, MainAction::CancelSideQuestions);
    assert_eq!(s1.side_questions, 0);
    assert!(s1.is_running);
    let (s2, a2) = event_step(s1, ctrl('d'));
    assert_eq!(a2, MainAction::Interrupt);
    assert!(!s2.is_running && !s2.loop_active);
    let (s3, a3) = event_step(s2, ctrl('c'));
    assert_eq!(a3, MainAction::Quit);
    assert_eq!(s3, s2);
}

#[test]
fn ctrl_r_twice_restores_reasoning() {
    let s = idle();
    let (s1, a1) = event_step(s, ctrl('r'));
    assert_eq!(a1, MainAction::ShowReasoning(true));
    let (s2, a2) = event_step(s1, ctrl('r'));
    assert_eq!(a2, MainAction::ShowReasoning(false));
    assert_eq!(s2, s);
}

#[test]
fn selection_keys_and_mouse() {
    let s = idle();
    let (s1, a1) = event_step(s, MainEvent::MouseDown { input_pos: None, chat_line: Some(4) });
    assert_eq!(a1, MainAction::StartSelection(4));
    assert!(s1.selection_active);
    assert_eq!(event_step(s1, MainEvent::MouseDrag { chat_line: Some(6) }).1, MainAction::ExtendSelection(6));
    assert_eq!(event_step(s, MainEvent::MouseDrag { chat_line: Some(6) }).1, MainAction::Nothing);
    let (s2, a2) = event_step(s1, MainEvent::MouseUp { chat_line: None });
    assert_eq!(a2, MainAction::FinishSelection(None));
    assert!(!s2.selection_active);
    let (s3, a3) = event_step(s1, key(KeyCode::Char('y')));
    assert_eq!(a3, MainAction::CopySelection);
    assert!(!s3.selection_active);
    assert_eq!(event_step(s1, key(KeyCode::Esc)).1, MainAction::ClearSelection);
    assert_eq!(
        event_step(s, MainEvent::MouseDown { input_pos: Some(3), chat_line: Some(1) }).1,
        MainAction::MoveCursor(3)
    );
    assert_eq!(event_step(s, key(KeyCode::Char('y'))).1, MainAction::EditLine);
}

#[test]
fn scrolling_keys_and_wheel() {
    let s = MainState { scrolling: true, picker_active: true, ..idle() };
    assert_eq!(event_step(s, key(KeyCode::PageUp)).1, MainAction::PageUp);
    assert_eq!(event_step(s, key(KeyCode::PageDown)).1, MainAction::PageDown);
    assert_eq!(event_step(s, key(KeyCode::Home)).1, MainAction::ScrollToTop);
    let (s1, a1) = event_step(s, key(KeyCode::End));
    assert_eq!(a1, MainAction::ScrollToBottom);
    assert!(!s1.scrolling);
    assert_eq!(event_step(s, MainEvent::ScrollDown).1, MainAction::ScrollChatDown);
    assert_eq!(event_step(idle(), MainEvent::ScrollDown).1, MainAction::ScrollInputDown);
    assert_eq!(event_step(s, MainEvent::ScrollUp).1, MainAction::ScrollUp);
    assert_eq!(event_step(s, MainEvent::Resize).1, MainAction::Resize);
    assert_eq!(event_step(s, MainEvent::Paste).1, MainAction::Paste);
    assert_eq!(event_step(s, key(KeyCode::Char('a'))).1, MainAction::OfferToPicker);
}

#[test]
fn chain_prompt_keys() {
    let s = MainState { chain_prompt: true, chain_pending: true, ..idle() };
    let k = |c: char| KeyEvent::new(KeyCode::Char(c), KeyModifiers::none());
    let (s1, a1) = unclaimed_key_step(s, k('Y'));
    assert_eq!(a1, MainAction::ChainAccept);
    assert!(!s1.chain_prompt && !s1.chain_pending);
    assert_eq!(unclaimed_key_step(s, k('n')).1, MainAction::ChainDecline);
    let (s2, a2) = unclaimed_key_step(s, k('b'));
    assert_eq!(a2, MainAction::ChainBut);
    assert!(s2.chain_but_mode && !s2.chain_prompt && s2.chain_pending);
    assert_eq!(unclaimed_key_step(s, k('x')), (s, MainAction::Nothing));
    let esc = KeyEvent::new(KeyCode::Esc, KeyModifiers::none());
    let (s3, a3) = unclaimed_key_step(s2, esc);
    assert_eq!(a3, MainAction::ChainButCancel);
    assert!(s3.chain_prompt && !s3.chain_but_mode);
    let g = KeyEvent::new(KeyCode::Char('g'), KeyModifiers::control());
    assert_eq!(unclaimed_key_step(s, g).1, MainAction::OpenEditor);
    let h = KeyEvent::new(KeyCode::Char('h'), KeyModifiers::control());
    assert_eq!(unclaimed_key_step(idle(), h).1, MainAction::OpenLazygit);
    assert_eq!(unclaimed_key_step(idle(), k('x')).1, MainAction::EditLine);
}

#[test]
fn sessions_requests() {
    assert!(matches!(sessions_request(&words(&["/sessions"])), SessionsRequest::List));
    match sessions_request(&words(&["/sessions", "delete", " ab12 "])) {
        SessionsRequest::Delete(p) => assert_eq!(p, "ab12"),
        _ => panic!("expected delete"),
    }
    match sessions_request(&words(&["/sessions", "delete"])) {
        SessionsRequest::Load(p) => assert_eq!(p, "delete"),
        _ => panic!("expected load"),
    }
    match sessions_request(&words(&["/sessions", "ab12", "extra"])) {
        SessionsRequest::Load(p) => assert_eq!(p, "ab12"),
        _ => panic!("expected load"),
    }
}

#[test]
fn sessions_listing() {
    match sessions_reply(SessionsRequest::List, &vec![]) {
        SessionsReply::Notice(m) => assert_eq!(m, "no saved sessions"),
        _ => panic!("expected notice"),
    }
    let long = "abcdefghijklmnopqrstuvwxyz0123456789";
    let found = vec![
        summary("0123456789abcdef", 12, Some(long)),
        summary("fedcba9876543210", 1, None),
    ];
    match sessions_reply(SessionsRequest::List, &found) {
        SessionsReply::Listing(h, lines) => {
            assert_eq!(h, "recent sessions (2):");
            assert_eq!(
                lines,
                vec![
                    "  01234567  12:30  12msgs  gpt-x  ...abcdefghijklmnopqrstuvwxyz0123".to_string(),
                    "  fedcba98  12:30  1msgs  gpt-x  ".to_string(),
                ]
            );
        }
        _ => panic!("expected listing"),
    }
}

#[test]
fn sessions_delete_and_load() {
    let one = vec![summary("0123456789abcdef", 3, Some("the last message of this session, long enough to cut"))];
    match sessions_reply(SessionsRequest::Delete("0123".to_string()), &one) {
        SessionsReply::Delete { id, message } => {
            assert_eq!(id, "0123456789abcdef");
            assert_eq!(message, "deleted session 01234567 ...the last message of this session, long e");
        }
        _ => panic!("expected delete"),
    }
    match sessions_reply(SessionsRequest::Load("0123".to_string()), &one) {
        SessionsReply::Load { message } => assert_eq!(message, "loaded session (3 msgs)"),
        _ => panic!("expected load"),
    }
    match sessions_reply(SessionsRequest::Load("zz".to_string()), &vec![]) {
        SessionsReply::Notice(m) => assert_eq!(m, "no session matching 'zz'"),
        _ => panic!("expected notice"),
    }
    let two = vec![summary("01234567aaaa", 1, None), summary("01234567bbbb", 2, None)];
    match sessions_reply(SessionsRequest::Delete("0123".to_string()), &two) {
        SessionsReply::Listing(h, lines) => {
            assert_eq!(h, "multiple sessions match '0123', be more specific");
            assert_eq!(lines.len(), 2);
        }
        _ => panic!("expected listing"),
    }
    match sessions_reply(SessionsRequest::Load("0123".to_string()), &two) {
        SessionsReply::Listing(h, lines) => {
            assert_eq!(h, "multiple sessions match '0123':");
            assert_eq!(lines[1], "  01234567  12:30  2msgs  gpt-x  ");
        }
        _ => panic!("expected listing"),
    }
}

#[test]
fn token_counts_below_a_million() {
    assert_eq!(short_token_count(999), Some("999".to_string()));
    assert_eq!(short_token_count(1000), Some("1k".to_string()));
    assert_eq!(short_token_count(15_999), Some("15k".to_string()));
    assert_eq!(short_token_count(999_999), Some("999k".to_string()));
    assert_eq!(short_token_count(1_000_000), None);
}

fn fresh_stream() -> StreamState {
    StreamState {
        line_started: false,
        was_reasoning: false,
        response: String::new(),
        response_start: None,
    }
}

fn op_text(op: &StreamOp) -> String {
    match op {
        StreamOp::Write(t, _) => format!("write:{}", t),
        StreamOp::WriteLine(t, _) => format!("line:{}", t),
        StreamOp::Render(n, t) => format!("render:{}:{}", n, t),
        StreamOp::Stop => "stop".to_string(),
    }
}

#[test]
fn stream_reasoning_then_answer() {
    let mut st = fresh_stream();
    let ops = stream_step(&mut st, AgentEvent::Reasoning("think".to_string()), false, 7);
    assert!(ops.is_empty());
    let ops = stream_step(&mut st, AgentEvent::Reasoning("think".to_string()), true, 7);
    assert_eq!(ops.iter().map(op_text).collect::<Vec<_>>(), vec!["write:< ", "write:think"]);
    assert!(st.line_started && st.was_reasoning);
    let ops = stream_step(&mut st, AgentEvent::Token("Hel".to_string()), true, 9);
    assert_eq!(ops.iter().map(op_text).collect::<Vec<_>>(), vec!["line:", "render:9:Hel"]);
    let ops = stream_step(&mut st, AgentEvent::Token("lo\u{1b}[1m".to_string()), true, 12);
    assert_eq!(ops.iter().map(op_text).collect::<Vec<_>>(), vec!["render:9:Hello"]);
    assert_eq!(st.response, "Hello");
    let ops = stream_step(&mut st, AgentEvent::Done, true, 12);
    assert_eq!(
        ops.iter().map(op_text).collect::<Vec<_>>(),
        vec!["render:9:Hello", "line:", "line:", "stop"]
    );
    assert!(!st.line_started && st.response.is_empty() && st.response_start.is_none());
}

#[test]
fn stream_tool_calls_and_errors() {
    let mut st = fresh_stream();
    stream_step(&mut st, AgentEvent::Token("ok".to_string()), false, 0);
    let ops = stream_step(&mut st, AgentEvent::ToolCall("read \"a.rs\"".to_string()), false, 3);
    assert_eq!(ops.iter().map(op_text).collect::<Vec<_>>(), vec!["line:", "line:◈ read \"a.rs\""]);
    assert!(st.response.is_empty() && !st.line_started);
    let ops = stream_step(&mut st, AgentEvent::SubagentToolCall("bash ls".to_string()), false, 3);
    assert_eq!(ops.iter().map(op_text).collect::<Vec<_>>(), vec!["line:⌥ bash ls"]);
    let ops = stream_step(&mut st, AgentEvent::Done, false, 3);
    assert_eq!(ops.iter().map(op_text).collect::<Vec<_>>(), vec!["write:< ", "line:", "line:", "stop"]);
    let ops = stream_step(&mut st, AgentEvent::Error("bad\u{7}".to_string()), false, 3);
    assert_eq!(ops.iter().map(op_text).collect::<Vec<_>>(), vec!["line:error: bad", "stop"]);
}

#[test]
fn task_list_lines() {
    assert_eq!(todo_lines(&vec![]), vec![(StreamColor::Secondary, "tasks cleared".to_string())]);
    let item = |c: &str, s: &str, p: &str| TodoItem { content: c.to_string(), status: s.to_string(), priority: p.to_string() };
    let lines = todo_lines(&vec![
        item("write tests", "completed", "high"),
        item("fix bug", "in_progress", "medium"),
        item("docs", "pending", "low"),
        item("old idea", "cancelled", "low"),
    ]);
    assert_eq!(
        lines,
        vec![
            (StreamColor::ToolCall, "tasks  1 done / 4 total".to_string()),
            (StreamColor::Success, "  [x] !! write tests".to_string()),
            (StreamColor::ToolCall, "  [>] !  fix bug".to_string()),
            (StreamColor::Secondary, "  [ ]    docs".to_string()),
            (StreamColor::Secondary, "  [-]    old idea".to_string()),
        ]
    );
}

#[test]
fn tool_result_summaries() {
    let out = "a\nb\r\nc\n";
    assert_eq!(
        tool_result_summary(out, Some(2)),
        "◈ result (7 chars, 3 lines, showing 2):\na\nb"
    );
    assert_eq!(tool_result_summary(out, Some(3)), "◈ result (7 chars):\na\nb\r\nc\n");
    assert_eq!(tool_result_summary(out, None), "◈ result (7 chars):\na\nb\r\nc\n");
    assert_eq!(tool_result_summary("x\r\n\ny\r", Some(1)), "◈ result (6 chars, 3 lines, showing 1):\nx");
    assert_eq!(tool_result_summary("", Some(0)), "◈ result (0 chars):\n");
    assert_eq!(tool_result_summary("\u{1b}[31mred\u{1b}[0m\nz", Some(1)), "◈ result (5 chars, 2 lines, showing 1):\nred");
}
