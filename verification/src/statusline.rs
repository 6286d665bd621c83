//! The configurable status line.
//!
//! The status line is up to three lines, each an ordered list of segments
//! from the `[statusline]` configuration; without one a built-in layout is
//! used. Items resolve to text and colors when drawn; `separator` is literal
//! text and `flex_separator` expands to fill the row. Separators next to
//! items that resolved to nothing are dropped so the layout stays tidy.
use vstd::prelude::*;

use crate::color::{setting_color, Color};
use crate::edit::chars_eq;
use crate::text::{chars_of, decimal, decimal_text, push_str_chars, string_of};

verus! {

/// Most lines the status line has.
pub const MAX_STATUS_LINES: usize = 3;

/// The `icon` setting of a segment: `true` for the item's own icon, or a
/// named (or literal) glyph.
pub enum IconSpec {
    Auto(bool),
    Custom(String),
}

/// One segment of a status line: the item it shows, the literal text of a
/// separator, its colors and icon, powerline caps on either side, and
/// whether zero-valued numbers still show.
pub struct StatusLineSegment {
    pub item: String,
    pub text: Option<String>,
    pub color: Option<String>,
    pub bg: Option<String>,
    pub icon: Option<IconSpec>,
    pub left: Option<String>,
    pub right: Option<String>,
    pub always: Option<bool>,
}

/// One line of the status line.
pub struct StatusLineLine {
    pub segments: Vec<StatusLineSegment>,
}

/// The layout of the status line.
pub struct StatusLineConfig {
    pub lines: Vec<StatusLineLine>,
}

/// A drawable piece of a status line after its item is resolved.
pub enum StatusSpan {
    Text { text: String, fg: Option<Color>, bg: Option<Color> },
    /// Expands to fill the remaining width (shared evenly by several).
    Flex,
}

/// The state of the working tree: counts of staged, modified, deleted and
/// untracked files, and commits ahead of and behind the upstream.
pub struct GitStatus {
    pub staged: usize,
    pub modified: usize,
    pub deleted: usize,
    pub untracked: usize,
    pub ahead: usize,
    pub behind: usize,
}

impl GitStatus {
    /// Some file is staged, modified, deleted or untracked.
    pub open spec fn dirty(&self) -> bool {
        self.staged > 0 || self.modified > 0 || self.deleted > 0 || self.untracked > 0
    }

    /// Whether some file is staged, modified, deleted or untracked.
    pub fn is_dirty(&self) -> (r: bool)
        ensures
            r == self.dirty(),
    {
        self.staged > 0 || self.modified > 0 || self.deleted > 0 || self.untracked > 0
    }
}

/// The texts of `parts` with `sep` between each two.
pub open spec fn joined(parts: Seq<Seq<char>>, sep: Seq<char>) -> Seq<char>
    decreases parts.len(),
{
    if parts.len() == 0 {
        Seq::empty()
    } else if parts.len() == 1 {
        parts[0]
    } else {
        joined(parts.drop_last(), sep) + sep + parts.last()
    }
}

/// `prefix` followed by the decimal text of `n` when `n` is not zero.
pub open spec fn count_part(prefix: Seq<char>, n: usize) -> Seq<Seq<char>> {
    if n > 0 {
        seq![prefix + decimal(n as nat)]
    } else {
        Seq::empty()
    }
}

/// The non-zero change counts: `+staged ~modified -deleted ?untracked`.
pub open spec fn change_parts(g: GitStatus) -> Seq<Seq<char>> {
    count_part(seq!['+'], g.staged) + count_part(seq!['~'], g.modified) + count_part(
        seq!['-'],
        g.deleted,
    ) + count_part(seq!['?'], g.untracked)
}

/// Upstream sync (`↑ahead ↓behind`) and `*` for a dirty tree.
pub open spec fn status_parts(g: GitStatus) -> Seq<Seq<char>> {
    count_part(seq!['\u{2191}'], g.ahead) + count_part(seq!['\u{2193}'], g.behind) + if g.dirty() {
        seq![seq!['*']]
    } else {
        Seq::empty()
    }
}

/// Joins the texts of `parts` with `sep` between each two.
pub(crate) fn join_texts(parts: &Vec<String>, sep: &str) -> (r: String)
    ensures
        r@ == joined(crate::filter::views(parts@), sep@),
{
    let mut out = String::new();
    let mut i: usize = 0;
    while i < parts.len()
        invariant
            i <= parts@.len(),
            out@ == joined(crate::filter::views(parts@.take(i as int)), sep@),
        decreases parts@.len() - i,
    {
        let ghost before = crate::filter::views(parts@.take(i as int));
        if i > 0 {
            push_str_chars(&mut out, sep);
        }
        push_str_chars(&mut out, parts[i].as_str());
        proof {
            let after = crate::filter::views(parts@.take(i + 1));
            assert(after.drop_last() =~= before);
            assert(after.last() == parts@[i as int]@);
            if i == 0 {
                assert(before.len() == 0);
                assert(out@ =~= after[0]);
            }
        }
        i = i + 1;
    }
    assert(parts@.take(parts@.len() as int) =~= parts@);
    out
}

/// Adds `prefix` and the decimal text of `n` to `parts` when `n` is not zero.
fn push_count(parts: &mut Vec<String>, prefix: char, n: usize)
    ensures
        crate::filter::views(final(parts)@) == crate::filter::views(old(parts)@) + count_part(
            seq![prefix],
            n,
        ),
{
    if n > 0 {
        let mut t = String::new();
        t.push(prefix);
        let d = decimal_text(n as u64);
        push_str_chars(&mut t, d.as_str());
        let ghost before = parts@;
        parts.push(t);
        assert(crate::filter::views(parts@) =~= crate::filter::views(before).push(t@));
    } else {
        assert(crate::filter::views(parts@) + Seq::<Seq<char>>::empty() =~= crate::filter::views(
            parts@,
        ));
    }
}

/// `+staged ~modified -deleted ?untracked`, only the non-zero parts; `None`
/// when the tree is clean.
pub fn format_changes(g: &GitStatus) -> (r: Option<String>)
    ensures
        match r {
            Some(t) => g.dirty() && t@ == joined(change_parts(*g), seq![' ']),
            None => !g.dirty(),
        },
{
    if !g.is_dirty() {
        return None;
    }
    let mut parts: Vec<String> = Vec::new();
    assert(crate::filter::views(parts@) =~= Seq::<Seq<char>>::empty());
    push_count(&mut parts, '+', g.staged);
    push_count(&mut parts, '~', g.modified);
    push_count(&mut parts, '-', g.deleted);
    push_count(&mut parts, '?', g.untracked);
    assert(crate::filter::views(parts@) =~= change_parts(*g));
    let sep = " ";
    proof {
        reveal_strlit(" ");
    }
    assert(sep@ =~= seq![' ']);
    Some(join_texts(&parts, sep))
}

/// Upstream sync plus a clean/dirty marker: `↑1 ↓2 *`, or `✓` when clean and
/// in sync.
pub fn format_status(g: &GitStatus) -> (r: String)
    ensures
        r@ == (if status_parts(*g).len() == 0 {
            seq!['\u{2713}']
        } else {
            joined(status_parts(*g), seq![' '])
        }),
{
    let mut parts: Vec<String> = Vec::new();
    assert(crate::filter::views(parts@) =~= Seq::<Seq<char>>::empty());
    push_count(&mut parts, '\u{2191}', g.ahead);
    push_count(&mut parts, '\u{2193}', g.behind);
    if g.is_dirty() {
        let mut star = String::new();
        star.push('*');
        let ghost before = parts@;
        parts.push(star);
        assert(crate::filter::views(parts@) =~= crate::filter::views(before).push(seq!['*']));
    }
    assert(crate::filter::views(parts@) =~= status_parts(*g));
    if parts.len() == 0 {
        let mut check = String::new();
        check.push('\u{2713}');
        return check;
    }
    let sep = " ";
    proof {
        reveal_strlit(" ");
    }
    assert(sep@ =~= seq![' ']);
    join_texts(&parts, sep)
}

/// Whether the characters of `t` spell `name`.
fn is_text(t: &[char], name: &str) -> (b: bool)
    ensures
        b == (t@ == name@),
{
    let n = chars_of(name);
    chars_eq(t, n.as_slice())
}

/// A one-character `String`.
fn glyph_text(c: char) -> (r: String)
    ensures
        r@ == seq![c],
{
    let mut r = String::new();
    r.push(c);
    r
}

/// The built-in icon of an item, when it has one.
pub open spec fn item_glyph(item: Seq<char>) -> Option<Seq<char>> {
    if item == "git_branch"@ {
        Some(seq!['\u{e0a0}'])
    } else if item == "git_changes"@ {
        Some(seq!['\u{f044}'])
    } else if item == "git_status"@ {
        Some(seq!['\u{f021}'])
    } else if item == "cwd"@ || item == "cwd_full"@ {
        Some(seq!['\u{f07b}'])
    } else if item == "worktree"@ {
        Some(seq!['\u{f126}'])
    } else if item == "model"@ || item == "model_short"@ {
        Some(seq!['\u{f2db}'])
    } else if item == "provider"@ {
        Some(seq!['\u{f0c2}'])
    } else if item == "cost"@ {
        Some(seq!['\u{f155}'])
    } else if item == "context_used"@ || item == "context_max"@ || item == "context_percentage"@ {
        Some(seq!['\u{f1c0}'])
    } else if item == "session_name"@ || item == "session_id"@ {
        Some(seq!['\u{f292}'])
    } else if item == "message_count"@ {
        Some(seq!['\u{f086}'])
    } else if item == "session_age"@ || item == "session_updated"@ || item == "clock"@ {
        Some(seq!['\u{f017}'])
    } else if item == "host"@ {
        Some(seq!['\u{f233}'])
    } else if item == "user"@ {
        Some(seq!['\u{f007}'])
    } else if item == "reasoning"@ {
        Some(seq!['\u{f0eb}'])
    } else if item == "prompt"@ {
        Some(seq!['\u{f120}'])
    } else if item == "mode"@ {
        Some(seq!['\u{f023}'])
    } else if item == "loop"@ {
        Some(seq!['\u{f01e}'])
    } else if item == "btw"@ {
        Some(seq!['\u{f075}'])
    } else if item == "compaction"@ {
        Some(seq!['\u{f066}'])
    } else {
        None
    }
}

/// The glyph of an icon name; any other text is its own glyph.
pub open spec fn named_glyph(name: Seq<char>) -> Seq<char> {
    if name == "branch"@ || name == "git"@ {
        seq!['\u{e0a0}']
    } else if name == "folder"@ || name == "dir"@ {
        seq!['\u{f07b}']
    } else if name == "chip"@ || name == "model"@ {
        seq!['\u{f2db}']
    } else if name == "dollar"@ || name == "money"@ {
        seq!['\u{f155}']
    } else if name == "database"@ || name == "context"@ {
        seq!['\u{f1c0}']
    } else if name == "hash"@ {
        seq!['\u{f292}']
    } else if name == "terminal"@ {
        seq!['\u{f120}']
    } else if name == "lock"@ {
        seq!['\u{f023}']
    } else if name == "pencil"@ || name == "edit"@ {
        seq!['\u{f044}']
    } else if name == "sync"@ || name == "refresh"@ {
        seq!['\u{f021}']
    } else {
        name
    }
}

/// The glyph of a powerline cap name; any other text is its own glyph.
pub open spec fn cap_glyph(name: Seq<char>) -> Seq<char> {
    if name == "pl_right"@ || name == "powerline_right"@ {
        seq!['\u{e0b0}']
    } else if name == "pl_left"@ || name == "powerline_left"@ {
        seq!['\u{e0b2}']
    } else if name == "pl_right_thin"@ {
        seq!['\u{e0b1}']
    } else if name == "pl_left_thin"@ {
        seq!['\u{e0b3}']
    } else if name == "pl_round_right"@ || name == "round_right"@ {
        seq!['\u{e0b4}']
    } else if name == "pl_round_left"@ || name == "round_left"@ {
        seq!['\u{e0b6}']
    } else if name == "pl_flame_right"@ {
        seq!['\u{e0c0}']
    } else if name == "pl_flame_left"@ {
        seq!['\u{e0c2}']
    } else {
        name
    }
}

/// Built-in Nerd Font icon for an item, when one fits.
pub fn item_icon(item: &str) -> (r: Option<&'static str>)
    ensures
        match r {
            Some(g) => item_glyph(item@) == Some(g@),
            None => item_glyph(item@) is None,
        },
{
    let t = chars_of(item);
    let t = t.as_slice();
    if is_text(t, "git_branch") {
        let g = "\u{e0a0}";
        proof {
            reveal_strlit("\u{e0a0}");
        }
        assert(g@ =~= seq!['\u{e0a0}']);
        return Some(g);
    }
    if is_text(t, "git_changes") {
        let g = "\u{f044}";
        proof {
            reveal_strlit("\u{f044}");
        }
        assert(g@ =~= seq!['\u{f044}']);
        return Some(g);
    }
    if is_text(t, "git_status") {
        let g = "\u{f021}";
        proof {
            reveal_strlit("\u{f021}");
        }
        assert(g@ =~= seq!['\u{f021}']);
        return Some(g);
    }
    if is_text(t, "cwd") || is_text(t, "cwd_full") {
        let g = "\u{f07b}";
        proof {
            reveal_strlit("\u{f07b}");
        }
        assert(g@ =~= seq!['\u{f07b}']);
        return Some(g);
    }
    if is_text(t, "worktree") {
        let g = "\u{f126}";
        proof {
            reveal_strlit("\u{f126}");
        }
        assert(g@ =~= seq!['\u{f126}']);
        return Some(g);
    }
    if is_text(t, "model") || is_text(t, "model_short") {
        let g = "\u{f2db}";
        proof {
            reveal_strlit("\u{f2db}");
        }
        assert(g@ =~= seq!['\u{f2db}']);
        return Some(g);
    }
    if is_text(t, "provider") {
        let g = "\u{f0c2}";
        proof {
            reveal_strlit("\u{f0c2}");
        }
        assert(g@ =~= seq!['\u{f0c2}']);
        return Some(g);
    }
    if is_text(t, "cost") {
        let g = "\u{f155}";
        proof {
            reveal_strlit("\u{f155}");
        }
        assert(g@ =~= seq!['\u{f155}']);
        return Some(g);
    }
    if is_text(t, "context_used") || is_text(t, "context_max") || is_text(t, "context_percentage") {
        let g = "\u{f1c0}";
        proof {
            reveal_strlit("\u{f1c0}");
        }
        assert(g@ =~= seq!['\u{f1c0}']);
        return Some(g);
    }
    if is_text(t, "session_name") || is_text(t, "session_id") {
        let g = "\u{f292}";
        proof {
            reveal_strlit("\u{f292}");
        }
        assert(g@ =~= seq!['\u{f292}']);
        return Some(g);
    }
    if is_text(t, "message_count") {
        let g = "\u{f086}";
        proof {
            reveal_strlit("\u{f086}");
        }
        assert(g@ =~= seq!['\u{f086}']);
        return Some(g);
    }
    if is_text(t, "session_age") || is_text(t, "session_updated") || is_text(t, "clock") {
        let g = "\u{f017}";
        proof {
            reveal_strlit("\u{f017}");
        }
        assert(g@ =~= seq!['\u{f017}']);
        return Some(g);
    }
    if is_text(t, "host") {
        let g = "\u{f233}";
        proof {
            reveal_strlit("\u{f233}");
        }
        assert(g@ =~= seq!['\u{f233}']);
        return Some(g);
    }
    if is_text(t, "user") {
        let g = "\u{f007}";
        proof {
            reveal_strlit("\u{f007}");
        }
        assert(g@ =~= seq!['\u{f007}']);
        return Some(g);
    }
    if is_text(t, "reasoning") {
        let g = "\u{f0eb}";
        proof {
            reveal_strlit("\u{f0eb}");
        }
        assert(g@ =~= seq!['\u{f0eb}']);
        return Some(g);
    }
    if is_text(t, "prompt") {
        let g = "\u{f120}";
        proof {
            reveal_strlit("\u{f120}");
        }
        assert(g@ =~= seq!['\u{f120}']);
        return Some(g);
    }
    if is_text(t, "mode") {
        let g = "\u{f023}";
        proof {
            reveal_strlit("\u{f023}");
        }
        assert(g@ =~= seq!['\u{f023}']);
        return Some(g);
    }
    if is_text(t, "loop") {
        let g = "\u{f01e}";
        proof {
            reveal_strlit("\u{f01e}");
        }
        assert(g@ =~= seq!['\u{f01e}']);
        return Some(g);
    }
    if is_text(t, "btw") {
        let g = "\u{f075}";
        proof {
            reveal_strlit("\u{f075}");
        }
        assert(g@ =~= seq!['\u{f075}']);
        return Some(g);
    }
    if is_text(t, "compaction") {
        let g = "\u{f066}";
        proof {
            reveal_strlit("\u{f066}");
        }
        assert(g@ =~= seq!['\u{f066}']);
        return Some(g);
    }
    None
}

/// Named icon lookup, with passthrough so any literal glyph also works.
pub fn icon_glyph(name: &str) -> (r: String)
    ensures
        r@ == named_glyph(name@),
{
    let t = chars_of(name);
    let t = t.as_slice();
    if is_text(t, "branch") || is_text(t, "git") {
        return glyph_text('\u{e0a0}');
    }
    if is_text(t, "folder") || is_text(t, "dir") {
        return glyph_text('\u{f07b}');
    }
    if is_text(t, "chip") || is_text(t, "model") {
        return glyph_text('\u{f2db}');
    }
    if is_text(t, "dollar") || is_text(t, "money") {
        return glyph_text('\u{f155}');
    }
    if is_text(t, "database") || is_text(t, "context") {
        return glyph_text('\u{f1c0}');
    }
    if is_text(t, "hash") {
        return glyph_text('\u{f292}');
    }
    if is_text(t, "terminal") {
        return glyph_text('\u{f120}');
    }
    if is_text(t, "lock") {
        return glyph_text('\u{f023}');
    }
    if is_text(t, "pencil") || is_text(t, "edit") {
        return glyph_text('\u{f044}');
    }
    if is_text(t, "sync") || is_text(t, "refresh") {
        return glyph_text('\u{f021}');
    }
    string_of(t)
}

/// The glyph of a powerline cap name (`pl_right`, `round_left`, ...), or the
/// name itself, so that any literal glyph also works.
pub fn powerline_glyph(name: &str) -> (r: String)
    ensures
        r@ == cap_glyph(name@),
{
    let t = chars_of(name);
    let t = t.as_slice();
    if is_text(t, "pl_right") || is_text(t, "powerline_right") {
        return glyph_text('\u{e0b0}');
    }
    if is_text(t, "pl_left") || is_text(t, "powerline_left") {
        return glyph_text('\u{e0b2}');
    }
    if is_text(t, "pl_right_thin") {
        return glyph_text('\u{e0b1}');
    }
    if is_text(t, "pl_left_thin") {
        return glyph_text('\u{e0b3}');
    }
    if is_text(t, "pl_round_right") || is_text(t, "round_right") {
        return glyph_text('\u{e0b4}');
    }
    if is_text(t, "pl_round_left") || is_text(t, "round_left") {
        return glyph_text('\u{e0b6}');
    }
    if is_text(t, "pl_flame_right") {
        return glyph_text('\u{e0c0}');
    }
    if is_text(t, "pl_flame_left") {
        return glyph_text('\u{e0c2}');
    }
    string_of(t)
}

/// The text of an optional setting.
pub open spec fn opt_view(o: Option<String>) -> Option<Seq<char>> {
    match o {
        Some(s) => Some(s@),
        None => None,
    }
}

/// What a segment of the built-in layout sets: its item, color and text;
/// nothing else is set.
pub open spec fn segment_view(seg: StatusLineSegment) -> (Seq<char>, Option<Seq<char>>, Option<Seq<char>>, bool) {
    (
        seg.item@,
        opt_view(seg.color),
        opt_view(seg.text),
        seg.bg is None && seg.icon is None && seg.left is None && seg.right is None && seg.always is None,
    )
}

/// The segments of the built-in layout: item, color and separator text.
pub open spec fn default_segments() -> Seq<(Seq<char>, Option<Seq<char>>, Option<Seq<char>>, bool)> {
    seq![
        ("cwd"@, Some("light_blue"@), None, true),
        ("separator"@, None, Some(" "@), true),
        ("git_branch"@, Some("magenta"@), None, true),
        ("separator"@, None, Some(" "@), true),
        ("git_changes"@, Some("yellow"@), None, true),
        ("separator"@, None, Some("  |  "@), true),
        ("model"@, Some("white"@), None, true),
        ("separator"@, None, Some("  |  "@), true),
        ("context_used"@, Some("green"@), None, true),
        ("separator"@, None, Some("/"@), true),
        ("context_max"@, Some("green"@), None, true),
        ("separator"@, None, Some(" "@), true),
        ("context_percentage"@, Some("green"@), None, true),
        ("separator"@, None, Some("  "@), true),
        ("tokens_input"@, Some("cyan"@), None, true),
        ("separator"@, None, Some("/"@), true),
        ("tokens_output"@, Some("cyan"@), None, true),
        ("flex_separator"@, None, None, true),
        ("loop"@, Some("dark_yellow"@), None, true),
        ("separator"@, None, Some(" "@), true),
        ("mode"@, Some("red"@), None, true),
        ("separator"@, None, Some(" "@), true),
        ("cost"@, Some("green"@), None, true),
        ("separator"@, None, Some(" "@), true),
        ("btw"@, Some("dark_cyan"@), None, true),
        ("separator"@, None, Some(" "@), true),
        ("prompt"@, Some("dark_grey"@), None, true),
    ]
}

/// `c` is the built-in single-line layout.
pub open spec fn is_default_spec(c: StatusLineConfig) -> bool {
    &&& c.lines@.len() == 1
    &&& c.lines@[0].segments@.map_values(|seg: StatusLineSegment| segment_view(seg))
        == default_segments()
}

/// An owned copy of a string slice.
fn owned(s: &str) -> (r: String)
    ensures
        r@ == s@,
{
    string_of(chars_of(s).as_slice())
}

/// A segment showing `item` in the color named `c`.
fn item_segment(item: &str, c: Option<&str>) -> (r: StatusLineSegment)
    ensures
        segment_view(r) == (item@, match c {
            Some(x) => Some(x@),
            None => None,
        }, None::<Seq<char>>, true),
{
    StatusLineSegment {
        item: owned(item),
        text: None,
        color: match c {
            Some(x) => Some(owned(x)),
            None => None,
        },
        bg: None,
        icon: None,
        left: None,
        right: None,
        always: None,
    }
}

/// A separator segment with the literal `text`.
fn separator_segment(text: &str) -> (r: StatusLineSegment)
    ensures
        segment_view(r) == ("separator"@, None::<Seq<char>>, Some(text@), true),
{
    StatusLineSegment {
        item: owned("separator"),
        text: Some(owned(text)),
        color: None,
        bg: None,
        icon: None,
        left: None,
        right: None,
        always: None,
    }
}

/// Built-in single-line layout used when `[statusline]` is not configured.
pub fn default_spec() -> (r: StatusLineConfig)
    ensures
        is_default_spec(r),
{
    let mut segments: Vec<StatusLineSegment> = Vec::new();
    segments.push(item_segment("cwd", Some("light_blue")));
    segments.push(separator_segment(" "));
    segments.push(item_segment("git_branch", Some("magenta")));
    segments.push(separator_segment(" "));
    segments.push(item_segment("git_changes", Some("yellow")));
    segments.push(separator_segment("  |  "));
    segments.push(item_segment("model", Some("white")));
    segments.push(separator_segment("  |  "));
    segments.push(item_segment("context_used", Some("green")));
    segments.push(separator_segment("/"));
    segments.push(item_segment("context_max", Some("green")));
    segments.push(separator_segment(" "));
    segments.push(item_segment("context_percentage", Some("green")));
    segments.push(separator_segment("  "));
    segments.push(item_segment("tokens_input", Some("cyan")));
    segments.push(separator_segment("/"));
    segments.push(item_segment("tokens_output", Some("cyan")));
    segments.push(item_segment("flex_separator", None));
    segments.push(item_segment("loop", Some("dark_yellow")));
    segments.push(separator_segment(" "));
    segments.push(item_segment("mode", Some("red")));
    segments.push(separator_segment(" "));
    segments.push(item_segment("cost", Some("green")));
    segments.push(separator_segment(" "));
    segments.push(item_segment("btw", Some("dark_cyan")));
    segments.push(separator_segment(" "));
    segments.push(item_segment("prompt", Some("dark_grey")));
    assert(segments@.map_values(|seg: StatusLineSegment| segment_view(seg)) =~= default_segments());
    let mut lines: Vec<StatusLineLine> = Vec::new();
    lines.push(StatusLineLine { segments });
    StatusLineConfig { lines }
}

/// The item shows the state of the working tree.
pub open spec fn is_git_item(item: Seq<char>) -> bool {
    item == "git_changes"@ || item == "git_status"@
}

/// Some segment of the first `n` lines of `c` shows the state of the working
/// tree.
pub open spec fn lines_need_git(lines: Seq<StatusLineLine>) -> bool {
    exists|i: int, j: int|
        0 <= i < lines.len() && 0 <= j < lines[i].segments@.len() && #[trigger] is_git_item(
            lines[i].segments@[j].item@,
        )
}

/// The layout taken from the configuration: the configured one cut to
/// `MAX_STATUS_LINES` lines, or the built-in one when none (or an empty one)
/// is configured.
pub open spec fn prepared_from(r: StatusLineConfig, configured: Option<StatusLineConfig>) -> bool {
    match configured {
        Some(c) => if c.lines@.len() > 0 {
            r.lines@ == c.lines@.take(crate::edit::min_int(c.lines@.len() as int, 3))
        } else {
            is_default_spec(r)
        },
        None => is_default_spec(r),
    }
}

/// Whether the layout taken from the configuration needs the state of the
/// working tree (the built-in one does).
pub open spec fn config_needs_git(configured: Option<StatusLineConfig>) -> bool {
    match configured {
        Some(c) => if c.lines@.len() > 0 {
            lines_need_git(c.lines@.take(crate::edit::min_int(c.lines@.len() as int, 3)))
        } else {
            true
        },
        None => true,
    }
}

/// Number of lines of a layout, between 1 and `MAX_STATUS_LINES`.
pub open spec fn clamped_lines(n: int) -> int {
    if n < 1 {
        1
    } else if n > 3 {
        3
    } else {
        n
    }
}

/// The layout of the status line, set once at startup, and whether it needs
/// the state of the working tree; both stay unset until `init`.
pub struct StatusLineSetup {
    pub spec: Option<StatusLineConfig>,
    pub needs_git: Option<bool>,
}

/// Whether some segment of `lines` shows the state of the working tree.
fn any_git_item(lines: &Vec<StatusLineLine>) -> (r: bool)
    ensures
        r == lines_need_git(lines@),
{
    let mut i: usize = 0;
    while i < lines.len()
        invariant
            i <= lines@.len(),
            forall|a: int, b: int|
                0 <= a < i && 0 <= b < lines@[a].segments@.len() ==> !#[trigger] is_git_item(
                    lines@[a].segments@[b].item@,
                ),
        decreases lines@.len() - i,
    {
        let segs = &lines[i].segments;
        let mut j: usize = 0;
        while j < segs.len()
            invariant
                i < lines@.len(),
                segs@ == lines@[i as int].segments@,
                j <= segs@.len(),
                forall|a: int, b: int|
                    0 <= a < i && 0 <= b < lines@[a].segments@.len() ==> !#[trigger] is_git_item(
                        lines@[a].segments@[b].item@,
                    ),
                forall|b: int| 0 <= b < j ==> !#[trigger] is_git_item(segs@[b].item@),
            decreases segs@.len() - j,
        {
            let t = chars_of(segs[j].item.as_str());
            if is_text(t.as_slice(), "git_changes") || is_text(t.as_slice(), "git_status") {
                assert(is_git_item(lines@[i as int].segments@[j as int].item@));
                return true;
            }
            j = j + 1;
        }
        i = i + 1;
    }
    false
}

impl StatusLineSetup {
    /// Nothing set yet.
    pub fn new() -> (r: Self)
        ensures
            r.spec is None,
            r.needs_git is None,
    {
        StatusLineSetup { spec: None, needs_git: None }
    }

    /// Takes the layout from the configuration once: the configured layout
    /// cut to three lines, or the built-in one. Later calls change nothing.
    pub fn init(&mut self, configured: Option<StatusLineConfig>)
        ensures
            old(self).spec is Some ==> final(self).spec == old(self).spec,
            old(self).spec is None ==> (final(self).spec matches Some(r) && prepared_from(
                r,
                configured,
            )),
            old(self).needs_git is Some ==> final(self).needs_git == old(self).needs_git,
            old(self).needs_git is None ==> final(self).needs_git == Some(
                config_needs_git(configured),
            ),
    {
        let ghost cfg = configured;
        let mut spec = match configured {
            Some(c) => c,
            None => default_spec(),
        };
        if spec.lines.len() == 0 {
            spec = default_spec();
        }
        let ghost pre = spec.lines@;
        proof {
            if !(cfg matches Some(c) && c.lines@.len() > 0) {
                assert(is_default_spec(spec));
                let segs = pre[0].segments@;
                let views = segs.map_values(|seg: StatusLineSegment| segment_view(seg));
                assert(default_segments().len() == 27);
                assert(views.len() == segs.len());
                assert(views[4] == default_segments()[4]);
                assert(views[4] == segment_view(segs[4]));
                assert(segs[4].item@ == "git_changes"@);
                assert(is_git_item(pre[0].segments@[4].item@));
                assert(lines_need_git(pre));
            }
        }
        spec.lines.truncate(MAX_STATUS_LINES);
        proof {
            match cfg {
                Some(c) => if c.lines@.len() > 0 {
                    assert(c.lines@.len() <= 3 ==> c.lines@.subrange(0, c.lines@.len() as int)
                        =~= c.lines@);
                },
                None => {},
            }
            if !(cfg matches Some(c) && c.lines@.len() > 0) {
                assert(spec.lines@ == pre);
            }
        }
        let needs_git = any_git_item(&spec.lines);
        if self.spec.is_none() {
            self.spec = Some(spec);
        }
        if self.needs_git.is_none() {
            self.needs_git = Some(needs_git);
        }
    }

    /// The layout, set to the built-in one when `init` has not set one
    /// (it stays set after that).
    pub fn spec(&mut self) -> (r: &StatusLineConfig)
        ensures
            old(self).spec is Some ==> final(self).spec == old(self).spec,
            old(self).spec is None ==> (final(self).spec matches Some(c) && is_default_spec(c)),
            final(self).spec == Some(*r),
            final(self).needs_git == old(self).needs_git,
    {
        if self.spec.is_none() {
            self.spec = Some(default_spec());
        }
        match &self.spec {
            Some(c) => c,
            None => vstd::pervasive::unreached(),
        }
    }

    /// Number of status lines (1 to 3), after setting the built-in layout
    /// when none is set (see `spec`).
    pub fn line_count(&mut self) -> (r: usize)
        ensures
            old(self).spec is Some ==> final(self).spec == old(self).spec,
            old(self).spec is None ==> (final(self).spec matches Some(c) && is_default_spec(c)),
            final(self).needs_git == old(self).needs_git,
            r == (match final(self).spec {
                Some(s) => clamped_lines(s.lines@.len() as int),
                None => 1,
            }),
    {
        let s = self.spec();
        let n = s.lines.len();
        if n < 1 {
            1
        } else if n > MAX_STATUS_LINES {
            MAX_STATUS_LINES
        } else {
            n
        }
    }

    /// Whether the layout needs the state of the working tree (a
    /// subprocess); when `init` has not decided it, it is decided false for
    /// good, so the caller can skip it.
    pub fn needs_git_status(&mut self) -> (r: bool)
        ensures
            final(self).needs_git == Some(r),
            old(self).needs_git is Some ==> final(self).needs_git == old(self).needs_git,
            old(self).needs_git is None ==> !r,
            final(self).spec == old(self).spec,
    {
        match self.needs_git {
            Some(b) => b,
            None => {
                self.needs_git = Some(false);
                false
            },
        }
    }
}

/// What a status-line piece shows: text with its colors, or the flexible
/// gap.
pub enum SpanView {
    Text(Seq<char>, Option<Color>, Option<Color>),
    Flex,
}

/// What the piece `s` shows.
pub open spec fn span_view(s: StatusSpan) -> SpanView {
    match s {
        StatusSpan::Text { text, fg, bg } => SpanView::Text(text@, fg, bg),
        StatusSpan::Flex => SpanView::Flex,
    }
}

/// A piece together with whether it is a separator.
pub open spec fn piece_view(p: (StatusSpan, bool)) -> (SpanView, bool) {
    (span_view(p.0), p.1)
}

/// The glyph a segment's icon setting gives for `item`: the item's own
/// icon for `true`, a named or literal glyph, or none.
pub open spec fn icon_text(icon: Option<IconSpec>, item: Seq<char>) -> Option<Seq<char>> {
    match icon {
        Some(IconSpec::Auto(b)) => if b {
            item_glyph(item)
        } else {
            None
        },
        Some(IconSpec::Custom(s)) => Some(named_glyph(s@)),
        None => None,
    }
}

/// The pieces of one segment, given the text its item resolved to (none to
/// leave it out) and the live color that overrides its configured one:
/// the flexible gap, a separator (a space unless it has text), or the item
/// text after its icon, between its powerline caps.
pub open spec fn segment_spans(
    seg: StatusLineSegment,
    resolved: Option<Seq<char>>,
    live: Option<Color>,
) -> Seq<(SpanView, bool)> {
    let item = seg.item@;
    if item == "flex_separator"@ || item == "flex"@ {
        seq![(SpanView::Flex, false)]
    } else if item == "separator"@ || item == "sep"@ {
        let text = match seg.text {
            Some(t) => t@,
            None => seq![' '],
        };
        seq![(SpanView::Text(text, setting_color(seg.color), setting_color(seg.bg)), true)]
    } else {
        match resolved {
            Some(t) => {
                let text = match icon_text(seg.icon, item) {
                    Some(g) => g + seq![' '] + t,
                    None => t,
                };
                let fg = match live {
                    Some(c) => Some(c),
                    None => setting_color(seg.color),
                };
                let bg = setting_color(seg.bg);
                let cap = match bg {
                    Some(b) => Some(b),
                    None => fg,
                };
                let left = match seg.left {
                    Some(l) => seq![(SpanView::Text(cap_glyph(l@), cap, None), false)],
                    None => Seq::empty(),
                };
                let right = match seg.right {
                    Some(r) => seq![(SpanView::Text(cap_glyph(r@), cap, None), false)],
                    None => Seq::empty(),
                };
                left + seq![(SpanView::Text(text, fg, bg), false)] + right
            },
            None => Seq::empty(),
        }
    }
}

/// The pieces of a line of segments, in order.
pub open spec fn raw_spans(
    segs: Seq<StatusLineSegment>,
    resolved: Seq<Option<Seq<char>>>,
    live: Seq<Option<Color>>,
) -> Seq<(SpanView, bool)>
    decreases segs.len(),
{
    if segs.len() == 0 {
        Seq::empty()
    } else {
        let n = segs.len() - 1;
        raw_spans(segs.drop_last(), resolved.take(n), live.take(n)) + segment_spans(
            segs.last(),
            resolved[n],
            live[n],
        )
    }
}

/// `c` after offering it the piece `x`: a separator right after nothing or
/// after another separator is dropped.
pub open spec fn step(c: Seq<(SpanView, bool)>, x: (SpanView, bool)) -> Seq<(SpanView, bool)> {
    if x.1 && (c.len() == 0 || c.last().1) {
        c
    } else {
        c.push(x)
    }
}

/// The pieces kept from `raw`: no leading separator and no separator after
/// another.
pub open spec fn kept(raw: Seq<(SpanView, bool)>) -> Seq<(SpanView, bool)>
    decreases raw.len(),
{
    if raw.len() == 0 {
        Seq::empty()
    } else {
        step(kept(raw.drop_last()), raw.last())
    }
}

/// `c` without the separators at its end.
pub open spec fn trimmed_end(c: Seq<(SpanView, bool)>) -> Seq<(SpanView, bool)>
    decreases c.len(),
{
    if c.len() > 0 && c.last().1 {
        trimmed_end(c.drop_last())
    } else {
        c
    }
}

/// The pieces of a line that are drawn.
pub open spec fn tidy(raw: Seq<(SpanView, bool)>) -> Seq<(SpanView, bool)> {
    trimmed_end(kept(raw))
}

/// The piece is not a separator.
pub open spec fn not_separator() -> spec_fn((SpanView, bool)) -> bool {
    |p: (SpanView, bool)| !p.1
}

/// No separator leads, and none follows another.
pub open spec fn seps_spaced(c: Seq<(SpanView, bool)>) -> bool {
    &&& c.len() > 0 ==> !c[0].1
    &&& forall|i: int| 0 <= i < c.len() - 1 ==> !(c[i].1 && #[trigger] c[i + 1].1)
}

proof fn lemma_kept(raw: Seq<(SpanView, bool)>)
    ensures
        seps_spaced(kept(raw)),
        kept(raw).filter(not_separator()) == raw.filter(not_separator()),
    decreases raw.len(),
{
    reveal(Seq::filter);
    if raw.len() > 0 {
        let c = kept(raw.drop_last());
        lemma_kept(raw.drop_last());
        let x = raw.last();
        if !(x.1 && (c.len() == 0 || c.last().1)) {
            let c2 = c.push(x);
            assert(c2.drop_last() =~= c);
            assert forall|i: int| 0 <= i < c2.len() - 1 implies !(c2[i].1 && #[trigger] c2[i
                + 1].1) by {
                if i < c.len() - 1 {
                    assert(c2[i] == c[i] && c2[i + 1] == c[i + 1]);
                }
            }
        }
    }
}

proof fn lemma_trimmed_end(c: Seq<(SpanView, bool)>)
    requires
        seps_spaced(c),
    ensures
        seps_spaced(trimmed_end(c)),
        trimmed_end(c).len() > 0 ==> !trimmed_end(c).last().1,
        trimmed_end(c).filter(not_separator()) == c.filter(not_separator()),
    decreases c.len(),
{
    reveal(Seq::filter);
    if c.len() > 0 && c.last().1 {
        let d = c.drop_last();
        assert forall|i: int| 0 <= i < d.len() - 1 implies !(d[i].1 && #[trigger] d[i + 1].1) by {
            assert(d[i] == c[i] && d[i + 1] == c[i + 1]);
        }
        if d.len() > 0 {
            assert(d[0] == c[0]);
        }
        lemma_trimmed_end(d);
    }
}

/// The pieces of a status line that are drawn start and end with no
/// separator, never hold two separators in a row, and keep every piece that
/// is not a separator, in order.
pub proof fn law_separators_tidy(raw: Seq<(SpanView, bool)>)
    ensures
        seps_spaced(tidy(raw)),
        tidy(raw).len() > 0 ==> !tidy(raw).last().1,
        tidy(raw).filter(not_separator()) == raw.filter(not_separator()),
{
    lemma_kept(raw);
    lemma_trimmed_end(kept(raw));
}

/// Offers the piece `x` to the kept pieces `c` (see `step`).
fn push_piece(c: &mut Vec<(StatusSpan, bool)>, x: (StatusSpan, bool))
    ensures
        final(c)@.map_values(|p: (StatusSpan, bool)| piece_view(p)) == step(
            old(c)@.map_values(|p: (StatusSpan, bool)| piece_view(p)),
            piece_view(x),
        ),
{
    let ghost before = c@.map_values(|p: (StatusSpan, bool)| piece_view(p));
    let drop = x.1 && (c.len() == 0 || c[c.len() - 1].1);
    if !drop {
        let ghost old_c = c@;
        c.push(x);
        assert(c@.map_values(|p: (StatusSpan, bool)| piece_view(p)) =~= before.push(piece_view(x)));
    }
}

/// Resolves an icon setting to its glyph for `item`.
fn resolve_icon(icon: &Option<IconSpec>, item: &str) -> (r: Option<String>)
    ensures
        match r {
            Some(g) => icon_text(*icon, item@) == Some(g@),
            None => icon_text(*icon, item@) is None,
        },
{
    match icon {
        Some(IconSpec::Auto(b)) => {
            if *b {
                match item_icon(item) {
                    Some(g) => Some(owned(g)),
                    None => None,
                }
            } else {
                None
            }
        },
        Some(IconSpec::Custom(s)) => Some(icon_glyph(s.as_str())),
        None => None,
    }
}

/// The color a setting names (see `crate::color::setting_color`).
fn setting(o: &Option<String>) -> (r: Option<Color>)
    ensures
        r == setting_color(*o),
{
    crate::color::color_setting(o)
}

/// Lays out one status line: each segment gives its pieces (see
/// `segment_spans`), with `resolved[i]` the text of the item of segment `i`
/// (none to leave it out) and `live[i]` a color that overrides the
/// configured one; separators that would lead, trail or follow another
/// separator are dropped.
#[verifier::rlimit(40)]
pub fn build_line(
    line: &StatusLineLine,
    resolved: &Vec<Option<String>>,
    live: &Vec<Option<Color>>,
) -> (r: Vec<StatusSpan>)
    requires
        resolved@.len() == line.segments@.len(),
        live@.len() == line.segments@.len(),
    ensures
        r@.map_values(|s: StatusSpan| span_view(s)) == tidy(
            raw_spans(line.segments@, resolved@.map_values(|o: Option<String>| opt_view(o)), live@),
        ).map_values(|p: (SpanView, bool)| p.0),
{
    let segs = &line.segments;
    let ghost rv = resolved@.map_values(|o: Option<String>| opt_view(o));
    let mut cleaned: Vec<(StatusSpan, bool)> = Vec::new();
    let mut i: usize = 0;
    assert(segs@.take(0) =~= Seq::<StatusLineSegment>::empty());
    while i < segs.len()
        invariant
            i <= segs@.len(),
            segs@ == line.segments@,
            resolved@.len() == segs@.len(),
            live@.len() == segs@.len(),
            rv == resolved@.map_values(|o: Option<String>| opt_view(o)),
            cleaned@.map_values(|p: (StatusSpan, bool)| piece_view(p)) == kept(
                raw_spans(segs@.take(i as int), rv.take(i as int), live@.take(i as int)),
            ),
        decreases segs@.len() - i,
    {
        let seg = &segs[i];
        let ghost raw_before = raw_spans(segs@.take(i as int), rv.take(i as int), live@.take(i as int));
        let ghost pieces = segment_spans(segs@[i as int], rv[i as int], live@[i as int]);
        proof {
            let t = segs@.take(i + 1);
            assert(t.drop_last() =~= segs@.take(i as int));
            assert(rv.take(i + 1).take(i as int) =~= rv.take(i as int));
            assert(live@.take(i + 1).take(i as int) =~= live@.take(i as int));
            assert(raw_spans(t, rv.take(i + 1), live@.take(i + 1)) == raw_before + pieces);
        }
        let t = chars_of(seg.item.as_str());
        let t = t.as_slice();
        if is_text(t, "flex_separator") || is_text(t, "flex") {
            push_piece(&mut cleaned, (StatusSpan::Flex, false));
            proof {
                assert(raw_before + pieces =~= raw_before.push(pieces[0]));
                assert((raw_before + pieces).drop_last() =~= raw_before);
            }
        } else if is_text(t, "separator") || is_text(t, "sep") {
            let text = match &seg.text {
                Some(x) => owned(x.as_str()),
                None => {
                    let mut sp = String::new();
                    sp.push(' ');
                    sp
                },
            };
            push_piece(
                &mut cleaned,
                (StatusSpan::Text { text, fg: setting(&seg.color), bg: setting(&seg.bg) }, true),
            );
            proof {
                assert((raw_before + pieces).drop_last() =~= raw_before);
            }
        } else {
            match &resolved[i] {
                Some(item_text) => {
                    let text = match resolve_icon(&seg.icon, seg.item.as_str()) {
                        Some(g) => {
                            let mut x = g;
                            let ghost g0 = x@;
                            x.push(' ');
                            push_str_chars(&mut x, item_text.as_str());
                            assert(x@ =~= g0 + seq![' '] + item_text@);
                            x
                        },
                        None => owned(item_text.as_str()),
                    };
                    let fg = match live[i] {
                        Some(c) => Some(c),
                        None => setting(&seg.color),
                    };
                    let bg = setting(&seg.bg);
                    let cap = match bg {
                        Some(b) => Some(b),
                        None => fg,
                    };
                    let ghost c0 = cleaned@.map_values(|p: (StatusSpan, bool)| piece_view(p));
                    match &seg.left {
                        Some(l) => {
                            push_piece(
                                &mut cleaned,
                                (StatusSpan::Text { text: powerline_glyph(l.as_str()), fg: cap, bg: None }, false),
                            );
                        },
                        None => {},
                    }
                    let ghost c1 = cleaned@.map_values(|p: (StatusSpan, bool)| piece_view(p));
                    push_piece(&mut cleaned, (StatusSpan::Text { text, fg, bg }, false));
                    let ghost c2 = cleaned@.map_values(|p: (StatusSpan, bool)| piece_view(p));
                    match &seg.right {
                        Some(r) => {
                            push_piece(
                                &mut cleaned,
                                (StatusSpan::Text { text: powerline_glyph(r.as_str()), fg: cap, bg: None }, false),
                            );
                        },
                        None => {},
                    }
                    proof {
                        let sg = segs@[i as int];
                        let lp = match sg.left {
                            Some(l) => seq![(SpanView::Text(cap_glyph(l@), cap, None), false)],
                            None => Seq::<(SpanView, bool)>::empty(),
                        };
                        let mp = seq![(SpanView::Text(text@, fg, bg), false)];
                        let rp = match sg.right {
                            Some(r) => seq![(SpanView::Text(cap_glyph(r@), cap, None), false)],
                            None => Seq::<(SpanView, bool)>::empty(),
                        };
                        assert(rv[i as int] == Some(item_text@));
                        assert(!(sg.item@ == "flex_separator"@ || sg.item@ == "flex"@));
                        assert(!(sg.item@ == "separator"@ || sg.item@ == "sep"@));
                        assert(pieces =~= lp + mp + rp);
                        assert(c1 == kept(raw_before + lp)) by {
                            if lp.len() > 0 {
                                assert((raw_before + lp).drop_last() =~= raw_before);
                            } else {
                                assert(raw_before + lp =~= raw_before);
                            }
                        }
                        assert(c2 == kept(raw_before + lp + mp)) by {
                            assert((raw_before + lp + mp).drop_last() =~= raw_before + lp);
                        }
                        if rp.len() > 0 {
                            assert((raw_before + lp + mp + rp).drop_last() =~= raw_before + lp + mp);
                        } else {
                            assert(raw_before + lp + mp + rp =~= raw_before + lp + mp);
                        }
                        assert(raw_before + pieces =~= raw_before + lp + mp + rp);
                    }
                },
                None => {
                    proof {
                        assert(raw_before + pieces =~= raw_before);
                    }
                },
            }
        }
        i = i + 1;
    }
    proof {
        assert(segs@.take(segs@.len() as int) =~= segs@);
        assert(rv.take(rv.len() as int) =~= rv);
        assert(live@.take(live@.len() as int) =~= live@);
    }
    let ghost all = raw_spans(line.segments@, rv, live@);
    while cleaned.len() > 0 && cleaned[cleaned.len() - 1].1
        invariant
            trimmed_end(cleaned@.map_values(|p: (StatusSpan, bool)| piece_view(p))) == tidy(all),
        decreases cleaned@.len(),
    {
        let ghost before = cleaned@.map_values(|p: (StatusSpan, bool)| piece_view(p));
        cleaned.pop();
        assert(cleaned@.map_values(|p: (StatusSpan, bool)| piece_view(p)) =~= before.drop_last());
    }
    let ghost fin = cleaned@.map_values(|p: (StatusSpan, bool)| piece_view(p));
    assert(trimmed_end(fin) == fin);
    let mut out: Vec<StatusSpan> = Vec::new();
    let n = cleaned.len();
    let mut rest = cleaned;
    let mut k: usize = 0;
    while k < n
        invariant
            k <= n,
            n == fin.len(),
            rest@.len() == n - k,
            forall|j: int| 0 <= j < rest@.len() ==> piece_view(#[trigger] rest@[j]) == fin[k + j],
            out@.map_values(|s: StatusSpan| span_view(s)) == fin.take(k as int).map_values(
                |p: (SpanView, bool)| p.0,
            ),
        decreases n - k,
    {
        let ghost r0 = rest@;
        let (span, _sep) = rest.remove(0);
        let ghost o0 = out@;
        out.push(span);
        proof {
            assert(piece_view(r0[0]) == fin[k as int]);
            assert forall|j: int| 0 <= j < rest@.len() implies piece_view(#[trigger] rest@[j])
                == fin[k + 1 + j] by {
                assert(rest@[j] == r0[j + 1]);
            }
            assert(fin.take(k + 1) =~= fin.take(k as int).push(fin[k as int]));
            assert(out@.map_values(|s: StatusSpan| span_view(s)) =~= o0.map_values(
                |s: StatusSpan| span_view(s),
            ).push(span_view(span)));
            assert(fin.take(k + 1).map_values(|p: (SpanView, bool)| p.0) =~= fin.take(
                k as int,
            ).map_values(|p: (SpanView, bool)| p.0).push(fin[k as int].0));
        }
        k = k + 1;
    }
    assert(fin.take(n as int) =~= fin);
    out
}

} // verus!
