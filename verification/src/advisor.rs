//! `/advisor`: shows the advisor's settings or changes one of them (on or
//! off, human handoff, the advisor model, the number of uses, the context
//! limit), with the lines the command writes. Installing the new settings
//! and rebuilding the agent are left to the caller.
use vstd::prelude::*;

use crate::text::{
    chars_of, decimal, decimal_text, parse_unsigned, parsed_unsigned, push_str_chars, string_of,
};

verus! {

/// How a line of a command's answer is shown.
#[derive(Clone, Copy, Debug, PartialEq, Eq, Structural)]
pub enum LineKind {
    /// A confirmation or heading.
    Confirm,
    /// A detail.
    Result,
    /// A refusal or failure.
    Error,
}

/// The advisor's settings.
pub struct AdvisorSettings {
    pub enabled: bool,
    /// Questions go to a human instead of the advisor model.
    pub human_handoff: bool,
    pub model: String,
    /// At most this many uses per session; none for unlimited.
    pub max_uses: Option<usize>,
    /// How much context, in KB, goes to the advisor.
    pub kilobytes_limit: u32,
    /// The interface has a channel for human handoff.
    pub has_handoff_channel: bool,
}

/// What `/advisor` does.
pub struct AdvisorReply {
    /// The settings to install, when they change.
    pub settings: Option<AdvisorSettings>,
    /// Whether the agent is rebuilt with them.
    pub rebuild: bool,
    /// The lines to write.
    pub lines: Vec<(LineKind, String)>,
}

/// The advisor's settings as values.
pub struct AdvisorView {
    pub enabled: bool,
    pub human_handoff: bool,
    pub model: Seq<char>,
    pub max_uses: Option<usize>,
    pub kilobytes_limit: u32,
    pub has_handoff_channel: bool,
}

/// The settings as values.
pub open spec fn settings_view(s: AdvisorSettings) -> AdvisorView {
    AdvisorView {
        enabled: s.enabled,
        human_handoff: s.human_handoff,
        model: s.model@,
        max_uses: s.max_uses,
        kilobytes_limit: s.kilobytes_limit,
        has_handoff_channel: s.has_handoff_channel,
    }
}

/// The lines as values.
pub open spec fn lines_view(v: Seq<(LineKind, String)>) -> Seq<(LineKind, Seq<char>)> {
    v.map_values(|l: (LineKind, String)| (l.0, l.1@))
}

/// What the reply amounts to: new settings (if any), whether the agent is
/// rebuilt, and the lines.
pub open spec fn reply_view(r: AdvisorReply) -> (Option<AdvisorView>, bool, Seq<(LineKind, Seq<char>)>) {
    (
        match r.settings {
            Some(s) => Some(settings_view(s)),
            None => None,
        },
        r.rebuild,
        lines_view(r.lines@),
    )
}

/// `yes` or `no`.
pub open spec fn yes_no(b: bool) -> Seq<char> {
    if b {
        "yes"@
    } else {
        "no"@
    }
}

/// `on` or `off`.
pub open spec fn on_off(b: bool) -> Seq<char> {
    if b {
        "on"@
    } else {
        "off"@
    }
}

/// A limit on uses, or `unlimited`.
pub open spec fn uses_text(n: Option<usize>) -> Seq<char> {
    match n {
        Some(n) => decimal(n as nat),
        None => "unlimited"@,
    }
}

/// What `/advisor` alone shows.
pub open spec fn overview(c: AdvisorView) -> Seq<(LineKind, Seq<char>)> {
    seq![
        (LineKind::Confirm, "advisor:"@),
        (LineKind::Result, "  enabled: "@ + yes_no(c.enabled)),
        (LineKind::Result, "  mode: "@ + (if c.human_handoff {
            "human handoff"@
        } else {
            "model"@
        })),
        (LineKind::Result, "  model: "@ + c.model),
        (LineKind::Result, "  max uses: "@ + uses_text(c.max_uses)),
        (LineKind::Result, Seq::empty()),
        (LineKind::Result, "  context limit: "@ + decimal(c.kilobytes_limit as nat) + " KB"@),
        (LineKind::Result, Seq::empty()),
        (LineKind::Result, "  /advisor on|off"@),
        (LineKind::Result, "  /advisor handoff [on|off]"@),
        (LineKind::Result, "  /advisor model <name>"@),
        (LineKind::Result, "  /advisor max-uses <n>"@),
        (LineKind::Result, "  /advisor context-limit <kilobytes>"@),
    ]
}

/// Nothing changes; one line is written.
pub open spec fn only_line(kind: LineKind, text: Seq<char>) -> (
    Option<AdvisorView>,
    bool,
    Seq<(LineKind, Seq<char>)>,
) {
    (None, false, seq![(kind, text)])
}

/// What `/advisor` does, given the words of its line (the command itself
/// first) and the current settings.
pub open spec fn advisor_outcome(args: Seq<Seq<char>>, c: AdvisorView) -> (
    Option<AdvisorView>,
    bool,
    Seq<(LineKind, Seq<char>)>,
) {
    if args.len() < 2 {
        (None, false, overview(c))
    } else if args[1] == "on"@ {
        (Some(AdvisorView { enabled: true, ..c }), true, seq![(LineKind::Confirm, "advisor: on"@)])
    } else if args[1] == "off"@ {
        (Some(AdvisorView { enabled: false, ..c }), true, seq![(LineKind::Confirm, "advisor: off"@)])
    } else if args[1] == "handoff"@ {
        if args.len() > 2 && args[2] != "on"@ && args[2] != "off"@ {
            only_line(LineKind::Error, "invalid: '"@ + args[2] + "', use on or off"@)
        } else {
            let on = !(args.len() > 2 && args[2] == "off"@);
            if on && !c.has_handoff_channel {
                only_line(
                    LineKind::Error,
                    "Human handoff requires a TUI channel (start with --advisor-human-handoff)"@,
                )
            } else {
                (
                    Some(AdvisorView { human_handoff: on, ..c }),
                    true,
                    seq![(LineKind::Confirm, "advisor handoff: "@ + on_off(on))],
                )
            }
        }
    } else if args[1] == "model"@ {
        if args.len() > 2 {
            (
                Some(AdvisorView { model: args[2], ..c }),
                true,
                seq![(LineKind::Confirm, "advisor model: "@ + args[2])],
            )
        } else {
            only_line(LineKind::Error, "usage: /advisor model <name>"@)
        }
    } else if args[1] == "max-uses"@ {
        match (if args.len() > 2 {
            parsed_unsigned(args[2], usize::MAX as nat)
        } else {
            None
        }) {
            Some(n) => {
                let m: Option<usize> = if n == 0 {
                    None
                } else {
                    Some(n as usize)
                };
                (
                    Some(AdvisorView { max_uses: m, ..c }),
                    false,
                    seq![(LineKind::Confirm, "advisor max uses: "@ + uses_text(m))],
                )
            },
            None => only_line(LineKind::Error, "usage: /advisor max-uses <number|0=unlimited>"@),
        }
    } else if args[1] == "context-limit"@ {
        match (if args.len() > 2 {
            parsed_unsigned(args[2], u32::MAX as nat)
        } else {
            None
        }) {
            Some(n) => (
                Some(AdvisorView { kilobytes_limit: n as u32, ..c }),
                false,
                seq![
                    (LineKind::Confirm, "advisor context limit: "@ + decimal(n) + " KB ("@ + decimal(
                        n * 1024 / 2,
                    ) + " chars head / "@ + decimal(n * 1024 / 2) + " chars tail)"@),
                ],
            ),
            None => only_line(LineKind::Error, "usage: /advisor context-limit <kilobytes>"@),
        }
    } else {
        only_line(
            LineKind::Error,
            "unknown: '"@ + args[1] + "' (on|off|handoff|model|max-uses|context-limit)"@,
        )
    }
}

/// The words of the line as texts.
pub open spec fn words_view(args: Seq<String>) -> Seq<Seq<char>> {
    args.map_values(|a: String| a@)
}

/// A text of its own holding `t`.
fn text_of(t: &str) -> (r: String)
    ensures
        r@ == t@,
{
    string_of(chars_of(t).as_slice())
}

/// Whether `a` is the text `b`.
fn same_text(a: &String, b: &str) -> (r: bool)
    ensures
        r == (a@ == b@),
{
    let x = chars_of(a.as_str());
    let y = chars_of(b);
    crate::edit::chars_eq(x.as_slice(), y.as_slice())
}

/// The settings with the given changes.
fn changed(
    c: &AdvisorSettings,
    enabled: bool,
    human_handoff: bool,
    model: String,
    max_uses: Option<usize>,
    kilobytes_limit: u32,
) -> (r: AdvisorSettings)
    ensures
        settings_view(r) == (AdvisorView {
            enabled,
            human_handoff,
            model: model@,
            max_uses,
            kilobytes_limit,
            has_handoff_channel: c.has_handoff_channel,
        }),
{
    AdvisorSettings {
        enabled,
        human_handoff,
        model,
        max_uses,
        kilobytes_limit,
        has_handoff_channel: c.has_handoff_channel,
    }
}

/// One line of `kind`.
fn one_line(kind: LineKind, text: String) -> (r: Vec<(LineKind, String)>)
    ensures
        lines_view(r@) == seq![(kind, text@)],
{
    let mut v: Vec<(LineKind, String)> = Vec::new();
    v.push((kind, text));
    assert(lines_view(v@) =~= seq![(kind, text@)]);
    v
}

/// Nothing changes; one line is written.
fn no_change(kind: LineKind, text: String) -> (r: AdvisorReply)
    ensures
        reply_view(r) == only_line(kind, text@),
{
    AdvisorReply { settings: None, rebuild: false, lines: one_line(kind, text) }
}

/// `a`, `b` and `c` joined.
fn join3(a: &str, b: &str, c: &str) -> (r: String)
    ensures
        r@ == a@ + b@ + c@,
{
    let mut r = text_of(a);
    push_str_chars(&mut r, b);
    push_str_chars(&mut r, c);
    r
}

/// A limit on uses, or `unlimited`.
fn uses_text_of(n: Option<usize>) -> (r: String)
    ensures
        r@ == uses_text(n),
{
    match n {
        Some(n) => decimal_text(n as u64),
        None => text_of("unlimited"),
    }
}

/// What `/advisor` alone shows.
fn overview_lines(c: &AdvisorSettings) -> (r: Vec<(LineKind, String)>)
    ensures
        lines_view(r@) == overview(settings_view(*c)),
{
    let mut v: Vec<(LineKind, String)> = Vec::new();
    v.push((LineKind::Confirm, text_of("advisor:")));
    v.push((LineKind::Result, join3("  enabled: ", if c.enabled { "yes" } else { "no" }, "")));
    v.push(
        (
            LineKind::Result,
            join3("  mode: ", if c.human_handoff { "human handoff" } else { "model" }, ""),
        ),
    );
    v.push((LineKind::Result, join3("  model: ", c.model.as_str(), "")));
    let uses = uses_text_of(c.max_uses);
    v.push((LineKind::Result, join3("  max uses: ", uses.as_str(), "")));
    v.push((LineKind::Result, String::new()));
    let kb = decimal_text(c.kilobytes_limit as u64);
    v.push((LineKind::Result, join3("  context limit: ", kb.as_str(), " KB")));
    v.push((LineKind::Result, String::new()));
    v.push((LineKind::Result, text_of("  /advisor on|off")));
    v.push((LineKind::Result, text_of("  /advisor handoff [on|off]")));
    v.push((LineKind::Result, text_of("  /advisor model <name>")));
    v.push((LineKind::Result, text_of("  /advisor max-uses <n>")));
    v.push((LineKind::Result, text_of("  /advisor context-limit <kilobytes>")));
    proof {
        reveal_strlit("");
    }
    assert(lines_view(v@) =~= overview(settings_view(*c)));
    v
}

/// What `/advisor` does, given the words of its line (the command itself
/// first) and the current settings.
pub fn advisor_command(args: &Vec<String>, current: &AdvisorSettings) -> (r: AdvisorReply)
    ensures
        reply_view(r) == advisor_outcome(words_view(args@), settings_view(*current)),
{
    let ghost w = words_view(args@);
    let c = current;
    proof {
        reveal_strlit("");
    }
    if args.len() < 2 {
        return AdvisorReply { settings: None, rebuild: false, lines: overview_lines(c) };
    }
    assert(w[1] == args@[1]@);
    let a1 = &args[1];
    let has2 = args.len() > 2;
    if has2 {
        assert(w[2] == args@[2]@);
    }
    if same_text(a1, "on") || same_text(a1, "off") {
        let on = same_text(a1, "on");
        let s = changed(c, on, c.human_handoff, text_of(c.model.as_str()), c.max_uses, c.kilobytes_limit);
        let line = if on { text_of("advisor: on") } else { text_of("advisor: off") };
        AdvisorReply { settings: Some(s), rebuild: true, lines: one_line(LineKind::Confirm, line) }
    } else if same_text(a1, "handoff") {
        if has2 && !same_text(&args[2], "on") && !same_text(&args[2], "off") {
            return no_change(LineKind::Error, join3("invalid: '", args[2].as_str(), "', use on or off"));
        }
        let on = !(has2 && same_text(&args[2], "off"));
        if on && !c.has_handoff_channel {
            return no_change(
                LineKind::Error,
                text_of("Human handoff requires a TUI channel (start with --advisor-human-handoff)"),
            );
        }
        let s = changed(c, c.enabled, on, text_of(c.model.as_str()), c.max_uses, c.kilobytes_limit);
        let line = join3("advisor handoff: ", if on { "on" } else { "off" }, "");
        AdvisorReply { settings: Some(s), rebuild: true, lines: one_line(LineKind::Confirm, line) }
    } else if same_text(a1, "model") {
        if has2 {
            let m = text_of(args[2].as_str());
            let s = changed(c, c.enabled, c.human_handoff, m, c.max_uses, c.kilobytes_limit);
            let line = join3("advisor model: ", args[2].as_str(), "");
            AdvisorReply { settings: Some(s), rebuild: true, lines: one_line(LineKind::Confirm, line) }
        } else {
            no_change(LineKind::Error, text_of("usage: /advisor model <name>"))
        }
    } else if same_text(a1, "max-uses") {
        let n = if has2 {
            parse_unsigned(args[2].as_str(), usize::MAX as u64)
        } else {
            None
        };
        match n {
            Some(n) => {
                let m: Option<usize> = if n == 0 {
                    None
                } else {
                    Some(n as usize)
                };
                let s = changed(c, c.enabled, c.human_handoff, text_of(c.model.as_str()), m, c.kilobytes_limit);
                let label = uses_text_of(m);
                let line = join3("advisor max uses: ", label.as_str(), "");
                AdvisorReply { settings: Some(s), rebuild: false, lines: one_line(LineKind::Confirm, line) }
            },
            None => no_change(LineKind::Error, text_of("usage: /advisor max-uses <number|0=unlimited>")),
        }
    } else if same_text(a1, "context-limit") {
        let n = if has2 {
            parse_unsigned(args[2].as_str(), u32::MAX as u64)
        } else {
            None
        };
        match n {
            Some(n) => {
                let kb = n as u32;
                let s = changed(c, c.enabled, c.human_handoff, text_of(c.model.as_str()), c.max_uses, kb);
                let half = decimal_text(n * 1024 / 2);
                let mut line = join3("advisor context limit: ", decimal_text(n).as_str(), " KB (");
                push_str_chars(&mut line, half.as_str());
                push_str_chars(&mut line, " chars head / ");
                push_str_chars(&mut line, half.as_str());
                push_str_chars(&mut line, " chars tail)");
                AdvisorReply { settings: Some(s), rebuild: false, lines: one_line(LineKind::Confirm, line) }
            },
            None => no_change(LineKind::Error, text_of("usage: /advisor context-limit <kilobytes>")),
        }
    } else {
        no_change(
            LineKind::Error,
            join3("unknown: '", a1.as_str(), "' (on|off|handoff|model|max-uses|context-limit)"),
        )
    }
}

} // verus!
