use zerostack::color::{parse_color, Color, ColorsConfig, UiColors};

#[test]
fn parse_color_ansi_valid() {
    assert_eq!(parse_color("ansi:7"), Some(Color::AnsiValue(7)));
    assert_eq!(parse_color("ansi:0"), Some(Color::AnsiValue(0)));
    assert_eq!(parse_color("ansi:255"), Some(Color::AnsiValue(255)));
}

#[test]
fn parse_color_ansi_invalid() {
    assert_eq!(parse_color("ansi:256"), None);
    assert_eq!(parse_color("ansi:abc"), None);
    assert_eq!(parse_color("ansi:-1"), None);
    assert_eq!(parse_color("ansi:"), None);
}

#[test]
fn parse_color_ansi_whitespace_case() {
    assert_eq!(parse_color(" ANSI:42 "), Some(Color::AnsiValue(42)));
}

#[test]
fn from_config_empty() {
    let cfg = ColorsConfig::default();
    let colors = UiColors::from_config(&cfg);
    let defaults = UiColors::default_colors();
    assert_eq!(colors.agent_text, defaults.agent_text);
    assert_eq!(colors.error, defaults.error);
    assert_eq!(colors.tool_call, defaults.tool_call);
    assert_eq!(colors.permission, defaults.permission);
    assert_eq!(colors.by_the_way, defaults.by_the_way);
    assert_eq!(colors.chat_background, None);
    assert_eq!(colors.status_foreground, None);
}

#[test]
fn from_config_overrides() {
    let mut cfg = ColorsConfig::default();
    cfg.agent_text = Some(String::from("red"));
    cfg.error = Some(String::from("ansi:202"));
    cfg.chat_background = Some(String::from("#1a1a2e"));
    let colors = UiColors::from_config(&cfg);
    assert_eq!(colors.agent_text, Color::Red);
    assert_eq!(colors.error, Color::AnsiValue(202));
    assert_eq!(
        colors.chat_background,
        Some(Color::Rgb {
            r: 0x1a,
            g: 0x1a,
            b: 0x2e
        })
    );
}

#[test]
fn from_config_invalid_falls_back() {
    let mut cfg = ColorsConfig::default();
    cfg.agent_text = Some(String::from("notacolor"));
    cfg.tool_call = Some(String::from("ansi:999"));
    let colors = UiColors::from_config(&cfg);
    assert_eq!(colors.agent_text, Color::White);
    assert_eq!(colors.tool_call, Color::Yellow);
}

#[test]
fn parse_color_names_and_aliases() {
    assert_eq!(parse_color("reset"), Some(Color::Reset));
    assert_eq!(parse_color("Dark_Gray"), Some(Color::DarkGrey));
    assert_eq!(parse_color("darkgrey"), Some(Color::DarkGrey));
    assert_eq!(parse_color("  Magenta\t"), Some(Color::Magenta));
    assert_eq!(parse_color("purple"), None);
    assert_eq!(parse_color(""), None);
}

#[test]
fn parse_color_hex() {
    assert_eq!(parse_color("#FF8000"), Some(Color::Rgb { r: 255, g: 128, b: 0 }));
    assert_eq!(parse_color("#ff80"), None);
    assert_eq!(parse_color("#gg0000"), None);
}
