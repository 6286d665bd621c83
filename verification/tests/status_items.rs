use zerostack::items::{resolve_item, SessionFacts, StatusContext, StatusLine};
use zerostack::statusline::{
    GitStatus, StatusLineConfig, StatusLineLine, StatusLineSegment, StatusLineSetup, StatusSpan,
};

fn facts() -> SessionFacts {
    SessionFacts {
        name: String::new(),
        id: String::from("0123456789abcdef"),
        working_dir: String::from("/home/u/proj"),
        home: Some(String::from("/home/u")),
        worktree: None,
        git_branch: Some(String::from("main")),
        git_status: Some(GitStatus { staged: 1, modified: 0, deleted: 0, untracked: 2, ahead: 1, behind: 0 }),
        model: String::from("openai/gpt-4o"),
        provider: String::from("openrouter"),
        message_count: 12,
        age_secs: Some(125),
        updated_secs: None,
        clock: String::from("09:41"),
        host: None,
        user: Some(String::new()),
        reasoning_enabled: true,
        total_input_tokens: 0,
        total_output_tokens: 1500,
        input_tokens_text: String::from("0"),
        output_tokens_text: String::from("1k"),
        effective_tokens: 9_500,
        effective_tokens_text: String::from("9k"),
        context_window: 10_000,
        context_window_text: String::from("10k"),
        ctx_is_estimated: true,
        compactions: 2,
        has_cost: false,
        show_cost_always: false,
        cost_text: String::from("$0.0000"),
    }
}

fn context() -> StatusContext {
    StatusContext {
        loop_label: Some(String::from("3/5")),
        prompt_name: Some(String::from("code")),
        perm_mode: Some(String::from("standard")),
        chain_label: None,
        btw_in: 10,
        btw_out: 0,
        btw_in_text: String::from("10"),
        btw_out_text: String::from("0"),
        btw_cost_text: Some(String::from("$0.0010")),
    }
}

fn item(name: &str, always: bool) -> Option<String> {
    resolve_item(name, &facts(), &context(), always)
}

#[test]
fn session_items() {
    assert_eq!(item("session_name", false), None);
    assert_eq!(item("session_id", false).as_deref(), Some("01234567"));
    assert_eq!(item("message_count", false).as_deref(), Some("12"));
    assert_eq!(item("session_age", false).as_deref(), Some("2m"));
    assert_eq!(item("session_updated", false), None);
    assert_eq!(item("reasoning", false).as_deref(), Some("reasoning"));
    assert_eq!(item("user", false), None);
    assert_eq!(item("unknown", false), None);
}

#[test]
fn place_and_model_items() {
    assert_eq!(item("cwd", false).as_deref(), Some("proj"));
    assert_eq!(item("cwd_full", false).as_deref(), Some("~/proj"));
    assert_eq!(item("git_branch", false).as_deref(), Some("main"));
    assert_eq!(item("git_changes", false).as_deref(), Some("+1 ?2"));
    assert_eq!(item("git_status", false).as_deref(), Some("\u{2191}1 *"));
    assert_eq!(item("model_short", false).as_deref(), Some("gpt-4o"));
    assert_eq!(item("clock", false).as_deref(), Some("09:41"));
}

#[test]
fn usage_items() {
    assert_eq!(item("tokens_input", false), None);
    assert_eq!(item("tokens_input", true).as_deref(), Some("0"));
    assert_eq!(item("tokens_output", false).as_deref(), Some("1k"));
    assert_eq!(item("context_used", false).as_deref(), Some("~9k"));
    assert_eq!(item("context_max", false).as_deref(), Some("10k"));
    assert_eq!(item("context_percentage", false).as_deref(), Some("95%"));
    assert_eq!(item("cost", false), None);
    assert_eq!(item("cost", true).as_deref(), Some("$0.0000"));
    assert_eq!(item("compaction", false).as_deref(), Some("cmp:2"));
    assert_eq!(item("btw", false).as_deref(), Some("btw:$0.0010 (10/0)"));
}

#[test]
fn run_state_items() {
    assert_eq!(item("prompt", false).as_deref(), Some("prompt:code"));
    assert_eq!(item("mode", false), None);
    assert_eq!(item("loop", false).as_deref(), Some("[3/5]"));
    assert_eq!(item("chain", false), None);
    let mut c = context();
    c.perm_mode = Some(String::from("yolo"));
    c.btw_cost_text = None;
    assert_eq!(resolve_item("mode", &facts(), &c, false).as_deref(), Some("mode:yolo"));
    assert_eq!(resolve_item("btw", &facts(), &c, false).as_deref(), Some("btw:10/0"));
}

#[test]
fn status_bar_text() {
    let (bar, chain) = StatusLine::render(&facts(), &context());
    assert_eq!(
        bar,
        "proj btw:$0.0010 (10/0) | openai/gpt-4o [3/5] | 95%/10k \u{21D1}0 \u{21D3}1k cmp:2 | prompt:code"
    );
    assert_eq!(chain, None);
    let mut f = facts();
    f.has_cost = true;
    f.cost_text = String::from("$1.2500");
    f.total_output_tokens = 0;
    f.compactions = 0;
    f.context_window = 0;
    let mut c = context();
    c.btw_in = 0;
    c.loop_label = None;
    c.prompt_name = None;
    c.perm_mode = Some(String::from("plan"));
    c.chain_label = Some(String::from("a -> b"));
    let (bar, chain) = StatusLine::render(&f, &c);
    assert_eq!(bar, "proj $1.2500 | openai/gpt-4o | 0%/10k |  | mode:plan");
    assert_eq!(chain.as_deref(), Some(" | a -> b"));
}

fn segment(item: &str) -> StatusLineSegment {
    StatusLineSegment {
        item: String::from(item),
        text: None,
        color: None,
        bg: None,
        icon: None,
        left: None,
        right: None,
        always: None,
    }
}

#[test]
fn status_lines_from_a_layout() {
    let mut sep = segment("separator");
    sep.text = Some(String::from(" | "));
    let line = StatusLineLine {
        segments: vec![
            segment("cwd"),
            sep,
            segment("model_short"),
            segment("sep"),
            segment("cost"),
            segment("flex"),
            segment("context_percentage"),
        ],
    };
    let mut setup = StatusLineSetup::new();
    setup.init(Some(StatusLineConfig { lines: vec![line] }));
    let lines = setup.build(&facts(), &context());
    assert_eq!(lines.len(), 1);
    let texts: Vec<String> = lines[0]
        .iter()
        .map(|s| match s {
            StatusSpan::Text { text, .. } => text.clone(),
            StatusSpan::Flex => String::from("<flex>"),
        })
        .collect();
    assert_eq!(texts, vec!["proj", " | ", "gpt-4o", " ", "<flex>", "95%"]);
    match &lines[0][5] {
        StatusSpan::Text { fg, .. } => assert_eq!(*fg, Some(zerostack::color::Color::Yellow)),
        StatusSpan::Flex => panic!("expected text"),
    }
}

#[test]
fn status_setup_decides_once() {
    let mut s = StatusLineSetup::new();
    assert!(!s.needs_git_status());
    assert_eq!(s.line_count(), 1);
    let two = StatusLineConfig {
        lines: vec![
            StatusLineLine { segments: vec![segment("git_status")] },
            StatusLineLine { segments: vec![segment("model")] },
        ],
    };
    s.init(Some(two));
    assert!(!s.needs_git_status());
    assert_eq!(s.line_count(), 1);
}
