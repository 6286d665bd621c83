//! Terminal colors, their configuration names, and the theme colors that a
//! configuration resolves to.
use vstd::prelude::*;

use crate::edit::{chars_eq, slice_range, slice_skip};
use crate::text::{
    byte_len, chars_of, floor_index, floor_index_of, is_boundary, lowercase, starts_with,
    starts_with_seq, string_of, trim, trimmed_chars, utf8_len,
};

verus! {

/// A terminal color (the palette of the terminal backend).
#[derive(Clone, Copy, Debug, PartialEq, Eq, Structural)]
pub enum Color {
    Reset,
    Black,
    DarkGrey,
    Red,
    DarkRed,
    Green,
    DarkGreen,
    Yellow,
    DarkYellow,
    Blue,
    DarkBlue,
    Magenta,
    DarkMagenta,
    Cyan,
    DarkCyan,
    White,
    Grey,
    Rgb { r: u8, g: u8, b: u8 },
    AnsiValue(u8),
}

/// The color actually used: `Reset` in monochrome mode, else the color itself.
pub open spec fn resolved(color: Color, monochrome: bool) -> Color {
    if monochrome {
        Color::Reset
    } else {
        color
    }
}

/// Resolves a color based on monochrome mode.
pub fn resolve_color(color: Color, monochrome: bool) -> (r: Color)
    ensures
        r == resolved(color, monochrome),
{
    if monochrome {
        Color::Reset
    } else {
        color
    }
}

/// Value of `c` as a digit in base `radix` (`0-9`, then `a-z` or `A-Z`).
pub open spec fn digit_value(c: char, radix: int) -> Option<int> {
    let v = c as int;
    let d = if 48 <= v <= 57 {
        v - 48
    } else if 97 <= v <= 122 {
        v - 97 + 10
    } else if 65 <= v <= 90 {
        v - 65 + 10
    } else {
        radix
    };
    if d < radix {
        Some(d)
    } else {
        None
    }
}

/// Value of a run of digits in base `radix`, or `None` when one of them is
/// not a digit.
pub open spec fn digits_value(d: Seq<char>, radix: int) -> Option<int>
    decreases d.len(),
{
    if d.len() == 0 {
        Some(0)
    } else {
        match (digits_value(d.drop_last(), radix), digit_value(d.last(), radix)) {
            (Some(v), Some(x)) => Some(v * radix + x),
            _ => None,
        }
    }
}

/// A number in base `radix` that fits a `u8`, written as digits with an
/// optional leading `+` (as `u8::from_str_radix`).
pub open spec fn parse_u8_text(t: Seq<char>, radix: int) -> Option<u8> {
    let d = if t.len() > 0 && t[0] == '+' {
        t.skip(1)
    } else {
        t
    };
    if d.len() == 0 {
        None
    } else {
        match digits_value(d, radix) {
            Some(v) => if v <= 255 {
                Some(v as u8)
            } else {
                None
            },
            None => None,
        }
    }
}

/// The characters between byte offsets `a` and `b` of `s`.
pub open spec fn byte_slice(s: Seq<char>, a: int, b: int) -> Seq<char> {
    s.subrange(floor_index(s, a), floor_index(s, b))
}

/// The color a configuration name stands for; `t` is already trimmed and
/// lowercased. Names, `ansi:N` with `N` up to 255, and `#rrggbb`.
pub open spec fn color_of(t: Seq<char>) -> Option<Color> {
    if t == "reset"@ {
        Some(Color::Reset)
    } else if t == "black"@ {
        Some(Color::Black)
    } else if t == "dark_grey"@ || t == "darkgrey"@ || t == "dark_gray"@ || t == "darkgray"@ {
        Some(Color::DarkGrey)
    } else if t == "red"@ {
        Some(Color::Red)
    } else if t == "dark_red"@ || t == "darkred"@ {
        Some(Color::DarkRed)
    } else if t == "green"@ {
        Some(Color::Green)
    } else if t == "dark_green"@ || t == "darkgreen"@ {
        Some(Color::DarkGreen)
    } else if t == "yellow"@ {
        Some(Color::Yellow)
    } else if t == "dark_yellow"@ || t == "darkyellow"@ {
        Some(Color::DarkYellow)
    } else if t == "blue"@ {
        Some(Color::Blue)
    } else if t == "dark_blue"@ || t == "darkblue"@ {
        Some(Color::DarkBlue)
    } else if t == "magenta"@ {
        Some(Color::Magenta)
    } else if t == "dark_magenta"@ || t == "darkmagenta"@ {
        Some(Color::DarkMagenta)
    } else if t == "cyan"@ {
        Some(Color::Cyan)
    } else if t == "dark_cyan"@ || t == "darkcyan"@ {
        Some(Color::DarkCyan)
    } else if t == "white"@ {
        Some(Color::White)
    } else if t == "grey"@ || t == "gray"@ {
        Some(Color::Grey)
    } else if starts_with(t, "ansi:"@) {
        match parse_u8_text(t.skip("ansi:"@.len() as int), 10) {
            Some(n) => Some(Color::AnsiValue(n)),
            None => None,
        }
    } else if t.len() > 0 && t[0] == '#' && utf8_len(t.skip(1)) == 6 {
        let h = t.skip(1);
        match (
            parse_u8_text(byte_slice(h, 0, 2), 16),
            parse_u8_text(byte_slice(h, 2, 4), 16),
            parse_u8_text(byte_slice(h, 4, 6), 16),
        ) {
            (Some(r), Some(g), Some(b)) => Some(Color::Rgb { r, g, b }),
            _ => None,
        }
    } else {
        None
    }
}

/// The names a color can be written with in the settings: its name in
/// lower case, the dark ones with or without `_`, grey also as `gray`.
pub open spec fn color_names(c: Color) -> Seq<Seq<char>> {
    match c {
        Color::Reset => seq!["reset"@],
        Color::Black => seq!["black"@],
        Color::DarkGrey => seq!["dark_grey"@, "darkgrey"@, "dark_gray"@, "darkgray"@],
        Color::Red => seq!["red"@],
        Color::DarkRed => seq!["dark_red"@, "darkred"@],
        Color::Green => seq!["green"@],
        Color::DarkGreen => seq!["dark_green"@, "darkgreen"@],
        Color::Yellow => seq!["yellow"@],
        Color::DarkYellow => seq!["dark_yellow"@, "darkyellow"@],
        Color::Blue => seq!["blue"@],
        Color::DarkBlue => seq!["dark_blue"@, "darkblue"@],
        Color::Magenta => seq!["magenta"@],
        Color::DarkMagenta => seq!["dark_magenta"@, "darkmagenta"@],
        Color::Cyan => seq!["cyan"@],
        Color::DarkCyan => seq!["dark_cyan"@, "darkcyan"@],
        Color::White => seq!["white"@],
        Color::Grey => seq!["grey"@, "gray"@],
        _ => Seq::empty(),
    }
}

/// Every color name stands for the color of that name: `blue` for blue,
/// `dark_blue` and `darkblue` for dark blue, and so on for each color.
pub proof fn law_color_names(c: Color, i: int)
    requires
        0 <= i < color_names(c).len(),
    ensures
        color_of(color_names(c)[i]) == Some(c),
{
    reveal_strlit("black");
    reveal_strlit("blue");
    reveal_strlit("cyan");
    reveal_strlit("dark_blue");
    reveal_strlit("dark_cyan");
    reveal_strlit("dark_gray");
    reveal_strlit("dark_green");
    reveal_strlit("dark_grey");
    reveal_strlit("dark_magenta");
    reveal_strlit("dark_red");
    reveal_strlit("dark_yellow");
    reveal_strlit("darkblue");
    reveal_strlit("darkcyan");
    reveal_strlit("darkgray");
    reveal_strlit("darkgreen");
    reveal_strlit("darkgrey");
    reveal_strlit("darkmagenta");
    reveal_strlit("darkred");
    reveal_strlit("darkyellow");
    reveal_strlit("gray");
    reveal_strlit("green");
    reveal_strlit("grey");
    reveal_strlit("magenta");
    reveal_strlit("red");
    reveal_strlit("reset");
    reveal_strlit("white");
    reveal_strlit("yellow");
    reveal_strlit("ansi:");
}

/// The decimal text of a number reads back as that number, in base 10.
proof fn lemma_decimal_reads_back(m: nat)
    ensures
        digits_value(crate::text::decimal(m), 10) == Some(m as int),
        crate::text::decimal(m).len() > 0,
        crate::text::decimal(m)[0] != '+',
    decreases m,
{
    let d = crate::text::decimal(m);
    if m < 10 {
        assert(d.drop_last() =~= Seq::<char>::empty());
        assert(d.last() as int == 48 + m);
        assert(digits_value(d.drop_last(), 10) == Some(0int));
        assert(digit_value(d.last(), 10) == Some(m as int));
        assert(digits_value(d, 10) == Some(0 * 10 + m as int));
    } else {
        lemma_decimal_reads_back(m / 10);
        let p = crate::text::decimal(m / 10);
        assert(d.drop_last() =~= p);
        assert(d.last() as int == 48 + m % 10);
        assert(digit_value(d.last(), 10) == Some((m % 10) as int));
        assert(digits_value(d, 10) == Some((m / 10) as int * 10 + (m % 10) as int));
        assert((m / 10) as int * 10 + (m % 10) as int == m);
        assert(d[0] == p[0]);
    }
}

/// `ansi:` followed by the decimal text of a number up to 255 is the
/// terminal color of that number.
pub proof fn law_ansi_colors(n: u8)
    ensures
        color_of("ansi:"@ + crate::text::decimal(n as nat)) == Some(Color::AnsiValue(n)),
{
    reveal_strlit("ansi:");
    reveal_strlit("reset");
    reveal_strlit("black");
    reveal_strlit("dark_grey");
    reveal_strlit("darkgrey");
    reveal_strlit("dark_gray");
    reveal_strlit("darkgray");
    reveal_strlit("red");
    reveal_strlit("dark_red");
    reveal_strlit("darkred");
    reveal_strlit("green");
    reveal_strlit("dark_green");
    reveal_strlit("darkgreen");
    reveal_strlit("yellow");
    reveal_strlit("dark_yellow");
    reveal_strlit("darkyellow");
    reveal_strlit("blue");
    reveal_strlit("dark_blue");
    reveal_strlit("darkblue");
    reveal_strlit("magenta");
    reveal_strlit("dark_magenta");
    reveal_strlit("darkmagenta");
    reveal_strlit("cyan");
    reveal_strlit("dark_cyan");
    reveal_strlit("darkcyan");
    reveal_strlit("white");
    reveal_strlit("grey");
    reveal_strlit("gray");
    let t = "ansi:"@ + crate::text::decimal(n as nat);
    lemma_decimal_reads_back(n as nat);
    assert(t[0] == 'a');
    assert(t.take(5) =~= "ansi:"@);
    assert(t.skip(5) =~= crate::text::decimal(n as nat));
}

/// A `#` followed by six bytes is split into three pairs of bytes; the
/// splits fall between characters.
pub open spec fn hex_split_ok(t: Seq<char>) -> bool {
    t.len() > 0 && t[0] == '#' && utf8_len(t.skip(1)) == 6 ==> is_boundary(t.skip(1), 2)
        && is_boundary(t.skip(1), 4)
}

/// The digit value of `c` in base `radix`.
fn digit_value_of(c: char, radix: u32) -> (r: Option<u32>)
    requires
        radix <= 36,
    ensures
        match r {
            Some(d) => digit_value(c, radix as int) == Some(d as int),
            None => digit_value(c, radix as int) is None,
        },
{
    let v = c as u32;
    let d = if 48 <= v && v <= 57 {
        v - 48
    } else if 97 <= v && v <= 122 {
        v - 97 + 10
    } else if 65 <= v && v <= 90 {
        v - 65 + 10
    } else {
        radix
    };
    if d < radix {
        Some(d)
    } else {
        None
    }
}

/// Once the digits read so far are past 255 the whole number is, or it
/// holds a non-digit.
proof fn lemma_digits_grow(d: Seq<char>, k: int, radix: int, v: int)
    requires
        0 <= k <= d.len(),
        radix >= 1,
        digits_value(d.take(k), radix) == Some(v),
        v > 255,
    ensures
        match digits_value(d, radix) {
            Some(w) => w > 255,
            None => true,
        },
    decreases d.len() - k,
{
    if k < d.len() {
        assert(d.take(k + 1).drop_last() =~= d.take(k));
        assert(d.take(k + 1).last() == d[k]);
        match digit_value(d[k], radix) {
            Some(x) => {
                assert(v * radix + x >= v) by (nonlinear_arith)
                    requires
                        radix >= 1,
                        x >= 0,
                        v > 255,
                ;
                lemma_digits_grow(d, k + 1, radix, v * radix + x);
            },
            None => {
                lemma_digits_none(d, k + 1, radix);
            },
        }
    } else {
        assert(d.take(k) =~= d);
    }
}

/// A prefix with a non-digit makes the whole run fail.
proof fn lemma_digits_none(d: Seq<char>, k: int, radix: int)
    requires
        0 <= k <= d.len(),
        digits_value(d.take(k), radix) is None,
    ensures
        digits_value(d, radix) is None,
    decreases d.len() - k,
{
    if k < d.len() {
        assert(d.take(k + 1).drop_last() =~= d.take(k));
        lemma_digits_none(d, k + 1, radix);
    } else {
        assert(d.take(k) =~= d);
    }
}

/// Parses a number in base `radix` that fits a `u8` (as `u8::from_str_radix`).
fn parse_u8_chars(t: &[char], radix: u32) -> (r: Option<u8>)
    requires
        2 <= radix <= 36,
    ensures
        r == parse_u8_text(t@, radix as int),
{
    let d = if t.len() > 0 && t[0] == '+' {
        slice_skip(t, 1)
    } else {
        slice_skip(t, 0)
    };
    proof {
        assert(t@.skip(0) =~= t@);
    }
    assert(d@ == (if t@.len() > 0 && t@[0] == '+' {
        t@.skip(1)
    } else {
        t@
    }));
    if d.len() == 0 {
        return None;
    }
    let mut v: u32 = 0;
    let mut i: usize = 0;
    assert(d@.take(0) =~= Seq::<char>::empty());
    while i < d.len()
        invariant
            2 <= radix <= 36,
            d@.len() > 0,
            d@ == (if t@.len() > 0 && t@[0] == '+' {
                t@.skip(1)
            } else {
                t@
            }),
            i <= d@.len(),
            v <= 255,
            digits_value(d@.take(i as int), radix as int) == Some(v as int),
        decreases d@.len() - i,
    {
        assert(d@.take(i + 1).drop_last() =~= d@.take(i as int));
        assert(d@.take(i + 1).last() == d@[i as int]);
        match digit_value_of(d[i], radix) {
            Some(x) => {
                assert(v * radix + x <= 255 * 36 + 36) by (nonlinear_arith)
                    requires
                        v <= 255,
                        radix <= 36,
                        x < radix,
                ;
                let w = v * radix + x;
                if w > 255 {
                    proof {
                        lemma_digits_grow(d@, i + 1, radix as int, w as int);
                    }
                    return None;
                }
                v = w;
            },
            None => {
                proof {
                    lemma_digits_none(d@, i + 1, radix as int);
                }
                return None;
            },
        }
        i = i + 1;
    }
    assert(d@.take(d@.len() as int) =~= d@);
    Some(v as u8)
}

/// Whether the text equals the string literal `name`.
fn is_name(t: &[char], name: &str) -> (b: bool)
    ensures
        b == (t@ == name@),
{
    let n = chars_of(name);
    chars_eq(t, n.as_slice())
}

/// Parses a color name (`red`, `dark_grey`, ...), `ansi:N` or `#rrggbb`,
/// ignoring surrounding white space and case.
pub fn parse_color(s: &str) -> (r: Option<Color>)
    requires
        hex_split_ok(lowercase(trim(s@))),
    ensures
        r == color_of(lowercase(trim(s@))),
{
    let tv = trimmed_chars(s);
    let ts = string_of(tv.as_slice());
    let low = ts.as_str().to_lowercase();
    let t = chars_of(low.as_str());
    let ghost tt = lowercase(trim(s@));
    assert(t@ == tt);
    let t = t.as_slice();
    if is_name(t, "reset") {
        return Some(Color::Reset);
    }
    if is_name(t, "black") {
        return Some(Color::Black);
    }
    if is_name(t, "dark_grey") || is_name(t, "darkgrey") || is_name(t, "dark_gray") || is_name(
        t,
        "darkgray",
    ) {
        return Some(Color::DarkGrey);
    }
    if is_name(t, "red") {
        return Some(Color::Red);
    }
    if is_name(t, "dark_red") || is_name(t, "darkred") {
        return Some(Color::DarkRed);
    }
    if is_name(t, "green") {
        return Some(Color::Green);
    }
    if is_name(t, "dark_green") || is_name(t, "darkgreen") {
        return Some(Color::DarkGreen);
    }
    if is_name(t, "yellow") {
        return Some(Color::Yellow);
    }
    if is_name(t, "dark_yellow") || is_name(t, "darkyellow") {
        return Some(Color::DarkYellow);
    }
    if is_name(t, "blue") {
        return Some(Color::Blue);
    }
    if is_name(t, "dark_blue") || is_name(t, "darkblue") {
        return Some(Color::DarkBlue);
    }
    if is_name(t, "magenta") {
        return Some(Color::Magenta);
    }
    if is_name(t, "dark_magenta") || is_name(t, "darkmagenta") {
        return Some(Color::DarkMagenta);
    }
    if is_name(t, "cyan") {
        return Some(Color::Cyan);
    }
    if is_name(t, "dark_cyan") || is_name(t, "darkcyan") {
        return Some(Color::DarkCyan);
    }
    if is_name(t, "white") {
        return Some(Color::White);
    }
    if is_name(t, "grey") || is_name(t, "gray") {
        return Some(Color::Grey);
    }
    let ansi = chars_of("ansi:");
    if starts_with_seq(t, ansi.as_slice()) {
        let num = slice_skip(t, ansi.len());
        return match parse_u8_chars(num.as_slice(), 10) {
            Some(n) => Some(Color::AnsiValue(n)),
            None => None,
        };
    }
    if t.len() > 0 && t[0] == '#' {
        let hex = slice_skip(t, 1);
        let hs = string_of(hex.as_slice());
        if byte_len(hs.as_str()) == 6 {
            let (k2, _o2) = floor_index_of(hex.as_slice(), 2);
            let (k4, _o4) = floor_index_of(hex.as_slice(), 4);
            let (k6, _o6) = floor_index_of(hex.as_slice(), 6);
            proof {
                crate::edit::lemma_boundary_index(hex@, 2);
                crate::edit::lemma_boundary_index(hex@, 4);
                crate::text::lemma_floor_index(hex@, 0);
                crate::text::lemma_floor_index(hex@, 6);
                assert(hex@.take(0) =~= Seq::<char>::empty());
                crate::text::lemma_floor_index_unique(hex@, 0, 0);
            }
            assert(k2 <= k4) by {
                crate::text::lemma_floor_index(hex@, 2);
                crate::text::lemma_floor_index(hex@, 4);
                if k4 < k2 {
                    crate::text::lemma_byte_offset_mono(hex@, k4 + 1, k2 as int);
                }
            }
            assert(k4 <= k6) by {
                crate::text::lemma_floor_index(hex@, 4);
                crate::text::lemma_floor_index(hex@, 6);
                if k6 < k4 {
                    crate::text::lemma_byte_offset_mono(hex@, k6 + 1, k4 as int);
                }
            }
            let r = parse_u8_chars(slice_range(hex.as_slice(), 0, k2).as_slice(), 16);
            let g = parse_u8_chars(slice_range(hex.as_slice(), k2, k4).as_slice(), 16);
            let b = parse_u8_chars(slice_range(hex.as_slice(), k4, k6).as_slice(), 16);
            return match (r, g, b) {
                (Some(r), Some(g), Some(b)) => Some(Color::Rgb { r, g, b }),
                _ => None,
            };
        }
    }
    None
}

/// The color a configuration setting gives: none when it is absent or does
/// not name a color. A `#` with six bytes after it whose halves would split
/// a character names no color.
pub open spec fn setting_color(o: Option<String>) -> Option<Color> {
    match o {
        Some(s) => {
            let t = lowercase(trim(s@));
            if hex_split_ok(t) {
                color_of(t)
            } else {
                None
            }
        },
        None => None,
    }
}

/// The color of a setting, or `fallback` when it gives none.
pub open spec fn setting_or(o: Option<String>, fallback: Color) -> Color {
    match setting_color(o) {
        Some(c) => c,
        None => fallback,
    }
}

/// Whether `b` is a character boundary of `v`.
pub(crate) fn boundary_at(v: &[char], b: usize) -> (r: bool)
    ensures
        r == is_boundary(v@, b as int),
{
    let (k, off) = floor_index_of(v, b);
    proof {
        crate::text::lemma_floor_index(v@, b as int);
        if is_boundary(v@, b as int) {
            crate::edit::lemma_boundary_index(v@, b as int);
        }
    }
    off == b
}

/// The color of a configuration setting (see `setting_color`).
pub(crate) fn color_setting(o: &Option<String>) -> (r: Option<Color>)
    ensures
        r == setting_color(*o),
{
    match o {
        Some(s) => {
            let tv = trimmed_chars(s.as_str());
            let ts = string_of(tv.as_slice());
            let low = ts.as_str().to_lowercase();
            let t = chars_of(low.as_str());
            let ok = if t.len() > 0 && t[0] == '#' {
                let hex = slice_skip(t.as_slice(), 1);
                let hs = string_of(hex.as_slice());
                if byte_len(hs.as_str()) == 6 {
                    boundary_at(hex.as_slice(), 2) && boundary_at(hex.as_slice(), 4)
                } else {
                    true
                }
            } else {
                true
            };
            if ok {
                parse_color(s.as_str())
            } else {
                None
            }
        },
        None => None,
    }
}

/// The color settings of a configuration: each names a color (see
/// `parse_color`) or is absent.
pub struct ColorsConfig {
    pub chat_background: Option<String>,
    pub input_background: Option<String>,
    pub status_background: Option<String>,
    pub agent_text: Option<String>,
    pub error: Option<String>,
    pub tool_call: Option<String>,
    pub permission: Option<String>,
    pub by_the_way: Option<String>,
    pub reasoning: Option<String>,
    pub secondary: Option<String>,
    pub success: Option<String>,
    pub heading: Option<String>,
    pub code_block: Option<String>,
    pub link_text: Option<String>,
    pub prompt_marker: Option<String>,
    pub status_foreground: Option<String>,
    pub scroll_indicator: Option<String>,
    pub picker_secondary: Option<String>,
    pub picker_selected: Option<String>,
}

impl Default for ColorsConfig {
    /// No setting given.
    fn default() -> (r: Self)
        ensures
            r.chat_background is None,
            r.input_background is None,
            r.status_background is None,
            r.agent_text is None,
            r.error is None,
            r.tool_call is None,
            r.permission is None,
            r.by_the_way is None,
            r.reasoning is None,
            r.secondary is None,
            r.success is None,
            r.heading is None,
            r.code_block is None,
            r.link_text is None,
            r.prompt_marker is None,
            r.status_foreground is None,
            r.scroll_indicator is None,
            r.picker_secondary is None,
            r.picker_selected is None,
    {
        ColorsConfig {
            chat_background: None,
            input_background: None,
            status_background: None,
            agent_text: None,
            error: None,
            tool_call: None,
            permission: None,
            by_the_way: None,
            reasoning: None,
            secondary: None,
            success: None,
            heading: None,
            code_block: None,
            link_text: None,
            prompt_marker: None,
            status_foreground: None,
            scroll_indicator: None,
            picker_secondary: None,
            picker_selected: None,
        }
    }
}

/// Resolved theme colors used throughout the interface.
///
/// Each field is the color its configuration setting names, or the built-in
/// default when the setting is absent or names no color; the backgrounds and
/// the status foreground have no default.
#[derive(Clone, Copy, Debug, PartialEq, Eq, Structural)]
pub struct UiColors {
    pub chat_background: Option<Color>,
    pub input_background: Option<Color>,
    pub status_background: Option<Color>,
    pub agent_text: Color,
    pub error: Color,
    pub tool_call: Color,
    pub permission: Color,
    pub by_the_way: Color,
    pub reasoning: Color,
    pub secondary: Color,
    pub success: Color,
    pub heading: Color,
    pub code_block: Color,
    pub link_text: Color,
    pub prompt_marker: Color,
    pub status_foreground: Option<Color>,
    pub scroll_indicator: Color,
    pub picker_secondary: Color,
    pub picker_selected: Color,
}

impl UiColors {
    /// The built-in color scheme.
    pub open spec fn defaults() -> UiColors {
        UiColors {
            chat_background: None,
            input_background: None,
            status_background: None,
            agent_text: Color::White,
            error: Color::Red,
            tool_call: Color::Yellow,
            permission: Color::Magenta,
            by_the_way: Color::Cyan,
            reasoning: Color::DarkGrey,
            secondary: Color::DarkGrey,
            success: Color::Green,
            heading: Color::Cyan,
            code_block: Color::DarkYellow,
            link_text: Color::DarkCyan,
            prompt_marker: Color::Green,
            status_foreground: None,
            scroll_indicator: Color::DarkGrey,
            picker_secondary: Color::DarkGrey,
            picker_selected: Color::Green,
        }
    }

    /// The built-in color scheme.
    pub fn default_colors() -> (r: Self)
        ensures
            r == Self::defaults(),
    {
        UiColors {
            chat_background: None,
            input_background: None,
            status_background: None,
            agent_text: Color::White,
            error: Color::Red,
            tool_call: Color::Yellow,
            permission: Color::Magenta,
            by_the_way: Color::Cyan,
            reasoning: Color::DarkGrey,
            secondary: Color::DarkGrey,
            success: Color::Green,
            heading: Color::Cyan,
            code_block: Color::DarkYellow,
            link_text: Color::DarkCyan,
            prompt_marker: Color::Green,
            status_foreground: None,
            scroll_indicator: Color::DarkGrey,
            picker_secondary: Color::DarkGrey,
            picker_selected: Color::Green,
        }
    }

    /// The colors a configuration resolves to: each setting's color, or the
    /// built-in one.
    pub open spec fn configured(cfg: ColorsConfig) -> Self {
        UiColors {
            chat_background: setting_color(cfg.chat_background),
            input_background: setting_color(cfg.input_background),
            status_background: setting_color(cfg.status_background),
            agent_text: setting_or(cfg.agent_text, Self::defaults().agent_text),
            error: setting_or(cfg.error, Self::defaults().error),
            tool_call: setting_or(cfg.tool_call, Self::defaults().tool_call),
            permission: setting_or(cfg.permission, Self::defaults().permission),
            by_the_way: setting_or(cfg.by_the_way, Self::defaults().by_the_way),
            reasoning: setting_or(cfg.reasoning, Self::defaults().reasoning),
            secondary: setting_or(cfg.secondary, Self::defaults().secondary),
            success: setting_or(cfg.success, Self::defaults().success),
            heading: setting_or(cfg.heading, Self::defaults().heading),
            code_block: setting_or(cfg.code_block, Self::defaults().code_block),
            link_text: setting_or(cfg.link_text, Self::defaults().link_text),
            prompt_marker: setting_or(cfg.prompt_marker, Self::defaults().prompt_marker),
            status_foreground: setting_color(cfg.status_foreground),
            scroll_indicator: setting_or(cfg.scroll_indicator, Self::defaults().scroll_indicator),
            picker_secondary: setting_or(cfg.picker_secondary, Self::defaults().picker_secondary),
            picker_selected: setting_or(cfg.picker_selected, Self::defaults().picker_selected),
        }
    }

    /// Resolves every color from its setting, falling back to the built-in
    /// scheme.
    pub fn from_config(cfg: &ColorsConfig) -> (r: Self)
        ensures
            r == Self::configured(*cfg),
            r.chat_background == setting_color(cfg.chat_background),
            r.input_background == setting_color(cfg.input_background),
            r.status_background == setting_color(cfg.status_background),
            r.agent_text == setting_or(cfg.agent_text, Self::defaults().agent_text),
            r.error == setting_or(cfg.error, Self::defaults().error),
            r.tool_call == setting_or(cfg.tool_call, Self::defaults().tool_call),
            r.permission == setting_or(cfg.permission, Self::defaults().permission),
            r.by_the_way == setting_or(cfg.by_the_way, Self::defaults().by_the_way),
            r.reasoning == setting_or(cfg.reasoning, Self::defaults().reasoning),
            r.secondary == setting_or(cfg.secondary, Self::defaults().secondary),
            r.success == setting_or(cfg.success, Self::defaults().success),
            r.heading == setting_or(cfg.heading, Self::defaults().heading),
            r.code_block == setting_or(cfg.code_block, Self::defaults().code_block),
            r.link_text == setting_or(cfg.link_text, Self::defaults().link_text),
            r.prompt_marker == setting_or(cfg.prompt_marker, Self::defaults().prompt_marker),
            r.status_foreground == setting_color(cfg.status_foreground),
            r.scroll_indicator == setting_or(cfg.scroll_indicator, Self::defaults().scroll_indicator),
            r.picker_secondary == setting_or(cfg.picker_secondary, Self::defaults().picker_secondary),
            r.picker_selected == setting_or(cfg.picker_selected, Self::defaults().picker_selected),
    {
        let defaults = Self::default_colors();
        UiColors {
            chat_background: color_setting(&cfg.chat_background),
            input_background: color_setting(&cfg.input_background),
            status_background: color_setting(&cfg.status_background),
            agent_text: match color_setting(&cfg.agent_text) {
                Some(c) => c,
                None => defaults.agent_text,
            },
            error: match color_setting(&cfg.error) {
                Some(c) => c,
                None => defaults.error,
            },
            tool_call: match color_setting(&cfg.tool_call) {
                Some(c) => c,
                None => defaults.tool_call,
            },
            permission: match color_setting(&cfg.permission) {
                Some(c) => c,
                None => defaults.permission,
            },
            by_the_way: match color_setting(&cfg.by_the_way) {
                Some(c) => c,
                None => defaults.by_the_way,
            },
            reasoning: match color_setting(&cfg.reasoning) {
                Some(c) => c,
                None => defaults.reasoning,
            },
            secondary: match color_setting(&cfg.secondary) {
                Some(c) => c,
                None => defaults.secondary,
            },
            success: match color_setting(&cfg.success) {
                Some(c) => c,
                None => defaults.success,
            },
            heading: match color_setting(&cfg.heading) {
                Some(c) => c,
                None => defaults.heading,
            },
            code_block: match color_setting(&cfg.code_block) {
                Some(c) => c,
                None => defaults.code_block,
            },
            link_text: match color_setting(&cfg.link_text) {
                Some(c) => c,
                None => defaults.link_text,
            },
            prompt_marker: match color_setting(&cfg.prompt_marker) {
                Some(c) => c,
                None => defaults.prompt_marker,
            },
            status_foreground: color_setting(&cfg.status_foreground),
            scroll_indicator: match color_setting(&cfg.scroll_indicator) {
                Some(c) => c,
                None => defaults.scroll_indicator,
            },
            picker_secondary: match color_setting(&cfg.picker_secondary) {
                Some(c) => c,
                None => defaults.picker_secondary,
            },
            picker_selected: match color_setting(&cfg.picker_selected) {
                Some(c) => c,
                None => defaults.picker_selected,
            },
        }
    }
}

/// A configuration that sets nothing resolves to the built-in scheme.
pub proof fn law_unset_config_gives_defaults(cfg: ColorsConfig)
    requires
        cfg.chat_background is None,
        cfg.input_background is None,
        cfg.status_background is None,
        cfg.agent_text is None,
        cfg.error is None,
        cfg.tool_call is None,
        cfg.permission is None,
        cfg.by_the_way is None,
        cfg.reasoning is None,
        cfg.secondary is None,
        cfg.success is None,
        cfg.heading is None,
        cfg.code_block is None,
        cfg.link_text is None,
        cfg.prompt_marker is None,
        cfg.status_foreground is None,
        cfg.scroll_indicator is None,
        cfg.picker_secondary is None,
        cfg.picker_selected is None,
    ensures
        UiColors::configured(cfg) == UiColors::defaults(),
{
}

/// A setting that names no color leaves the built-in color in place, and
/// one that names a color overrides it.
pub proof fn law_setting_overrides_or_falls_back(o: Option<String>, fallback: Color)
    ensures
        setting_color(o) is None ==> setting_or(o, fallback) == fallback,
        setting_color(o) is Some ==> setting_or(o, fallback) == setting_color(o)->0,
{
}

} // verus!
