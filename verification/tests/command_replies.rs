use zerostack::advisor::{advisor_command, AdvisorSettings, LineKind};
use zerostack::commands::{dot_command, queue_command, DotCommand};
use zerostack::models::{
    available_models_lines, models_failure_line, models_request, refreshed_line, ModelEntry,
    ModelsRequest,
};
use zerostack::text::parse_unsigned;

fn words(ws: &[&str]) -> Vec<String> {
    ws.iter().map(|w| w.to_string()).collect()
}

fn settings() -> AdvisorSettings {
    AdvisorSettings {
        enabled: false,
        human_handoff: false,
        model: "big-model".to_string(),
        max_uses: Some(3),
        kilobytes_limit: 64,
        has_handoff_channel: false,
    }
}

fn texts(lines: &[(LineKind, String)]) -> Vec<String> {
    lines.iter().map(|l| l.1.clone()).collect()
}

fn entry(id: &str, display: &str, ctx: Option<u64>) -> ModelEntry {
    ModelEntry { id: id.to_string(), display: display.to_string(), context_length: ctx }
}

#[test]
fn parse_unsigned_like_str_parse() {
    assert_eq!(parse_unsigned("42", u64::MAX), Some(42));
    assert_eq!(parse_unsigned("+7", u64::MAX), Some(7));
    assert_eq!(parse_unsigned("007", u64::MAX), Some(7));
    assert_eq!(parse_unsigned("", u64::MAX), None);
    assert_eq!(parse_unsigned("+", u64::MAX), None);
    assert_eq!(parse_unsigned("-1", u64::MAX), None);
    assert_eq!(parse_unsigned(" 1", u64::MAX), None);
    assert_eq!(parse_unsigned("12a", u64::MAX), None);
    assert_eq!(parse_unsigned("4294967295", u32::MAX as u64), Some(4294967295));
    assert_eq!(parse_unsigned("4294967296", u32::MAX as u64), None);
    assert_eq!(parse_unsigned("18446744073709551615", u64::MAX), Some(u64::MAX));
    assert_eq!(parse_unsigned("18446744073709551616", u64::MAX), None);
    for s in ["0", "19", "+3", "x", "99999999999999999999", "-0"] {
        assert_eq!(parse_unsigned(s, u64::MAX), s.parse::<u64>().ok());
    }
}

#[test]
fn advisor_overview() {
    let r = advisor_command(&words(&["/advisor"]), &settings());
    assert!(r.settings.is_none() && !r.rebuild);
    assert_eq!(
        texts(&r.lines),
        vec![
            "advisor:",
            "  enabled: no",
            "  mode: model",
            "  model: big-model",
            "  max uses: 3",
            "",
            "  context limit: 64 KB",
            "",
            "  /advisor on|off",
            "  /advisor handoff [on|off]",
            "  /advisor model <name>",
            "  /advisor max-uses <n>",
            "  /advisor context-limit <kilobytes>",
        ]
    );
    assert_eq!(r.lines[0].0, LineKind::Confirm);
    assert_eq!(r.lines[1].0, LineKind::Result);
}

#[test]
fn advisor_changes() {
    let r = advisor_command(&words(&["/advisor", "on"]), &settings());
    let s = r.settings.expect("new settings");
    assert!(s.enabled && r.rebuild);
    assert_eq!(texts(&r.lines), vec!["advisor: on"]);

    let r = advisor_command(&words(&["/advisor", "model", "small"]), &settings());
    assert_eq!(r.settings.expect("new settings").model, "small");
    assert_eq!(texts(&r.lines), vec!["advisor model: small"]);

    let r = advisor_command(&words(&["/advisor", "max-uses", "0"]), &settings());
    assert_eq!(r.settings.expect("new settings").max_uses, None);
    assert!(!r.rebuild);
    assert_eq!(texts(&r.lines), vec!["advisor max uses: unlimited"]);

    let r = advisor_command(&words(&["/advisor", "context-limit", "10"]), &settings());
    assert_eq!(r.settings.expect("new settings").kilobytes_limit, 10);
    assert_eq!(
        texts(&r.lines),
        vec!["advisor context limit: 10 KB (5120 chars head / 5120 chars tail)"]
    );
}

#[test]
fn advisor_refusals() {
    let r = advisor_command(&words(&["/advisor", "handoff"]), &settings());
    assert!(r.settings.is_none());
    assert_eq!(r.lines[0].0, LineKind::Error);
    assert_eq!(
        texts(&r.lines),
        vec!["Human handoff requires a TUI channel (start with --advisor-human-handoff)"]
    );
    let r = advisor_command(&words(&["/advisor", "handoff", "maybe"]), &settings());
    assert_eq!(texts(&r.lines), vec!["invalid: 'maybe', use on or off"]);
    let r = advisor_command(&words(&["/advisor", "handoff", "off"]), &settings());
    assert_eq!(r.settings.expect("new settings").human_handoff, false);
    assert_eq!(texts(&r.lines), vec!["advisor handoff: off"]);
    let with_channel = AdvisorSettings { has_handoff_channel: true, ..settings() };
    let r = advisor_command(&words(&["/advisor", "handoff", "on"]), &with_channel);
    assert!(r.settings.expect("new settings").human_handoff);
    let r = advisor_command(&words(&["/advisor", "model"]), &settings());
    assert_eq!(texts(&r.lines), vec!["usage: /advisor model <name>"]);
    let r = advisor_command(&words(&["/advisor", "max-uses", "many"]), &settings());
    assert_eq!(texts(&r.lines), vec!["usage: /advisor max-uses <number|0=unlimited>"]);
    let r = advisor_command(&words(&["/advisor", "context-limit", "4294967296"]), &settings());
    assert_eq!(texts(&r.lines), vec!["usage: /advisor context-limit <kilobytes>"]);
    let r = advisor_command(&words(&["/advisor", "loud"]), &settings());
    assert_eq!(
        texts(&r.lines),
        vec!["unknown: 'loud' (on|off|handoff|model|max-uses|context-limit)"]
    );
}

#[test]
fn models_requests() {
    let quick = words(&["fast", "smart"]);
    assert!(matches!(models_request(&words(&["/models"]), &quick), ModelsRequest::List));
    assert!(matches!(models_request(&words(&["/models", "refresh"]), &quick), ModelsRequest::Refresh));
    match models_request(&words(&["/models", "smart"]), &quick) {
        ModelsRequest::Quick(n) => assert_eq!(n, "smart"),
        _ => panic!("expected a quick model"),
    }
    match models_request(&words(&["/models", "gpt-4o"]), &quick) {
        ModelsRequest::Model(m) => assert_eq!(m, "gpt-4o"),
        _ => panic!("expected a model id"),
    }
}

#[test]
fn models_listing() {
    assert!(available_models_lines("openai", &vec![]).is_empty());
    let ms = vec![entry("a-1", "a-1", Some(128_000)), entry("b-2", "Model B", None)];
    let lines = available_models_lines("openai", &ms);
    assert_eq!(
        texts(&lines),
        vec!["available from openai (2):", "  a-1  [128k ctx]", "  Model B (b-2)"]
    );
    assert_eq!(lines[0].0, LineKind::Confirm);
    let many: Vec<ModelEntry> = (0..53).map(|i| entry(&format!("m{}", i), &format!("m{}", i), None)).collect();
    let lines = available_models_lines("p", &many);
    assert_eq!(lines.len(), 52);
    assert_eq!(lines[50].1, "  m49");
    assert_eq!(lines[51].1, "  … 3 more — type /models <filter> or use the picker");
}

#[test]
fn models_other_lines() {
    assert_eq!(
        refreshed_line(2, "openai", 40),
        "model list refreshed — quick models: 2, openai models: 40"
    );
    let l = models_failure_line(true, false, "timeout").expect("a line");
    assert_eq!((l.0, l.1.as_str()), (LineKind::Error, "model list refresh failed: timeout"));
    let l = models_failure_line(false, true, "timeout").expect("a line");
    assert_eq!(l.1, "  (live model list unavailable; type the model id directly)");
    assert!(models_failure_line(false, false, "timeout").is_none());
}

#[test]
fn dot_commands() {
    let prompts = words(&["plan", "review"]);
    assert!(matches!(dot_command(".", &prompts), DotCommand::OpenPicker));
    assert!(matches!(dot_command(".   ", &prompts), DotCommand::OpenPicker));
    match dot_command(". plan  do it now ", &prompts) {
        DotCommand::SwitchAndSend { name, message } => {
            assert_eq!(name, "plan");
            assert_eq!(message, "do it now");
        }
        _ => panic!("expected switch and send"),
    }
    match dot_command(".review", &prompts) {
        DotCommand::Switch(name) => assert_eq!(name, "review"),
        _ => panic!("expected switch"),
    }
    match dot_command(".nope x", &prompts) {
        DotCommand::Unknown(name) => assert_eq!(name, "nope"),
        _ => panic!("expected unknown"),
    }
    match dot_command(".nope", &prompts) {
        DotCommand::Unknown(name) => assert_eq!(name, "nope"),
        _ => panic!("expected unknown"),
    }
}

#[test]
fn queue_commands() {
    let mut q = words(&["first", "second\u{7}"]);
    let (lines, usage) = queue_command("/queue", &mut q);
    assert!(!usage);
    assert_eq!(lines, vec!["queued (2):", "  1. first", "  2. second"]);
    let (lines, _) = queue_command("  /queue ls", &mut q);
    assert_eq!(lines.len(), 3);
    let (lines, _) = queue_command("/queue pop", &mut q);
    assert_eq!(lines, vec!["unqueued: second"]);
    assert_eq!(q, vec!["first".to_string()]);
    let (lines, usage) = queue_command("/queue shuffle", &mut q);
    assert!(usage);
    assert_eq!(lines, vec!["usage: /queue [ls|clear|pop]"]);
    let (lines, _) = queue_command("/queue clear", &mut q);
    assert_eq!(lines, vec!["queue cleared (1 removed)"]);
    assert!(q.is_empty());
    let (lines, _) = queue_command("/queue pop", &mut q);
    assert_eq!(lines, vec!["queue is empty"]);
    let (lines, _) = queue_command("/queue list", &mut q);
    assert_eq!(lines, vec!["queue is empty"]);
}
