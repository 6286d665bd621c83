//! The multi-line input editor: Emacs-style motions, word deletion with a
//! kill ring, history navigation that keeps a draft, and the pickers that
//! typing `/`, `@`, `/prompt `, `/models ` or `/theme ` opens.
//!
//! The cursor is a byte offset into the UTF-8 text of the buffer.
use vstd::prelude::*;

use crate::cursor::{
    chars_before, count_lines, cursor_to_line_col, lc_index, line_col, line_col_to_cursor,
    line_end, line_end_spec, line_start, line_start_spec, next_boundary, next_char_boundary,
    prev_boundary, prev_char_boundary,
};
use crate::edit::{
    insert_at, lemma_boundary_index, min_int, next_word_end_of, next_word_end_spec,
    prev_word_start_of, prev_word_start_spec, push_kill_spec, remove_at, slice_range,
    slice_skip, slice_take, string_insert, string_remove, MAX_KILL_RING,
};
use crate::filter::{filtered, str_views, views};
use crate::picker::{
    command_names, CommandPicker, FilePicker, ListState, ModelsPicker, Picker, PromptPicker,
    ThemePicker,
};
use crate::picker_keys::{
    arg_key_ok, arg_key_text, command_follow_up, command_key_ok, command_key_text,
    file_key_ok, file_key_state, file_key_text, follow_up_kind, handle_command_picker_key,
    handle_file_picker_key, handle_models_picker_key, handle_prompt_picker_key,
    handle_theme_picker_key, list_key_state, picker_handles, arg_key_allowed, command_key_allowed,
    facts_of, file_key_allowed, ListFacts,
};
use crate::text::{byte_len, chars_of, is_boundary, string_of, trim, utf8_len};

verus! {

/// The key of a key press.
#[derive(Clone, Copy, Debug, PartialEq, Eq, Structural)]
pub enum KeyCode {
    Backspace,
    Enter,
    Left,
    Right,
    Up,
    Down,
    Home,
    End,
    PageUp,
    PageDown,
    Tab,
    Delete,
    Esc,
    Char(char),
    Other,
}

/// The modifier keys held during a key press.
#[derive(Clone, Copy, Debug, PartialEq, Eq, Structural)]
pub struct KeyModifiers {
    pub shift: bool,
    pub control: bool,
    pub alt: bool,
}

impl KeyModifiers {
    /// No modifier.
    pub fn none() -> (r: Self)
        ensures
            !r.shift && !r.control && !r.alt,
    {
        KeyModifiers { shift: false, control: false, alt: false }
    }

    /// Control alone.
    pub fn control() -> (r: Self)
        ensures
            !r.shift && r.control && !r.alt,
    {
        KeyModifiers { shift: false, control: true, alt: false }
    }

    /// Alt alone.
    pub fn alt() -> (r: Self)
        ensures
            !r.shift && !r.control && r.alt,
    {
        KeyModifiers { shift: false, control: false, alt: true }
    }

    /// Shift alone.
    pub fn shift() -> (r: Self)
        ensures
            r.shift && !r.control && !r.alt,
    {
        KeyModifiers { shift: true, control: false, alt: false }
    }
}

/// A key press.
#[derive(Clone, Copy, Debug, PartialEq, Eq, Structural)]
pub struct KeyEvent {
    pub code: KeyCode,
    pub modifiers: KeyModifiers,
}

impl KeyEvent {
    /// A key press of `code` with `modifiers` held.
    pub fn new(code: KeyCode, modifiers: KeyModifiers) -> (r: Self)
        ensures
            r.code == code,
            r.modifiers == modifiers,
    {
        KeyEvent { code, modifiers }
    }
}

/// The input line with its history, kill ring and attached picker.
pub struct InputEditor {
    pub buffer: String,
    pub cursor: usize,
    pub history: Vec<String>,
    pub history_pos: Option<usize>,
    pub draft: Option<String>,
    pub picker: Option<Picker>,
    pub monochrome: bool,
    pub prompt_names: Vec<String>,
    pub theme_names: Vec<String>,
    pub quick_model_names: Vec<String>,
    pub editor: Option<String>,
    pub kill_ring: Vec<String>,
    pub yank_pos: Option<usize>,
    pub yank_len: usize,
}

/// The picker that typing `@` opens: active, empty, waiting for a scan.
pub open spec fn fresh_file_picker(p: Option<Picker>, mono: bool) -> bool {
    &&& p matches Some(Picker::File(fp))
    &&& fp.active
    &&& fp.query@.len() == 0
    &&& fp.cursor == 0
    &&& fp.matches@.len() == 0
    &&& fp.selected == 0
    &&& fp.file_cache@.len() == 0
    &&& fp.monochrome == mono
    &&& fp.loading
    &&& !fp.walk_done
}

/// The picker that typing `/` at the start opens: active, listing commands.
pub open spec fn fresh_command_picker(p: Option<Picker>, mono: bool) -> bool {
    &&& p matches Some(Picker::Command(cp))
    &&& cp.active
    &&& cp.query@.len() == 0
    &&& cp.cursor == 0
    &&& cp.selected == 0
    &&& cp.matches_view() == filtered(str_views(command_names()), Seq::<char>::empty())
    &&& cp.monochrome == mono
}

/// A prompt picker over `names` that received the character `ch`.
pub open spec fn typed_prompt_picker(
    p: Option<Picker>,
    names: Seq<Seq<char>>,
    ch: char,
    mono: bool,
) -> bool {
    &&& p matches Some(Picker::Prompt(pp))
    &&& pp.active
    &&& pp.query@ == seq![ch]
    &&& pp.cursor == 1
    &&& pp.selected == 0
    &&& pp.items_view() == names
    &&& pp.matches_view() == filtered(names, seq![ch])
    &&& pp.monochrome == mono
}

/// A models picker over `names` that received the character `ch`.
pub open spec fn typed_models_picker(
    p: Option<Picker>,
    names: Seq<Seq<char>>,
    ch: char,
    mono: bool,
) -> bool {
    &&& p matches Some(Picker::Models(pp))
    &&& pp.active
    &&& pp.query@ == seq![ch]
    &&& pp.cursor == 1
    &&& pp.selected == 0
    &&& pp.items_view() == names
    &&& pp.matches_view() == filtered(names, seq![ch])
    &&& pp.monochrome == mono
}

/// A theme picker over `names` that received the character `ch`.
pub open spec fn typed_theme_picker(
    p: Option<Picker>,
    names: Seq<Seq<char>>,
    ch: char,
    mono: bool,
) -> bool {
    &&& p matches Some(Picker::Theme(pp))
    &&& pp.active
    &&& pp.query@ == seq![ch]
    &&& pp.cursor == 1
    &&& pp.selected == 0
    &&& pp.items_view() == names
    &&& pp.matches_view() == filtered(names, seq![ch])
    &&& pp.monochrome == mono
}

/// No picker, or one that is hidden.
pub open spec fn picker_idle(p: Option<Picker>) -> bool {
    p is None || !p->0.is_active()
}

/// The text typed so far is `prefix` followed by a single one-byte character,
/// and the character just typed is not a space: typing it opens the picker
/// that belongs to `prefix`.
pub open spec fn prefix_fires(s: Seq<char>, prefix: Seq<char>, ch: char) -> bool {
    &&& crate::text::starts_with(s, prefix)
    &&& s.len() > prefix.len()
    &&& ch != ' '
    &&& utf8_len(s.skip(prefix.len() as int)) == 1
}

/// The byte before offset `c` of the UTF-8 text of `s` is a space.
pub open spec fn space_byte_before(s: Seq<char>, c: int) -> bool {
    let bytes = vstd::utf8::encode_utf8(s);
    0 <= c - 1 < bytes.len() && bytes[c - 1] == 0x20
}

/// The history and draft after moving up in the history.
pub open spec fn history_up_effect(e: InputEditor, e2: InputEditor) -> bool {
    let n = e.history@.len();
    if n == 0 || e.history_pos == Some(0usize) {
        e2 == e
    } else {
        let pos: usize = match e.history_pos {
            Some(p) => (p - 1) as usize,
            None => (n - 1) as usize,
        };
        e2 == InputEditor {
            buffer: e.history@[pos as int],
            cursor: 0,
            history_pos: Some(pos),
            draft: if e.history_pos is None {
                Some(e.buffer)
            } else {
                e.draft
            },
            ..e
        }
    }
}

/// The history and draft after moving down in the history: the next entry,
/// or past the newest entry back to the draft (or an empty line).
pub open spec fn history_down_effect(e: InputEditor, e2: InputEditor) -> bool {
    match e.history_pos {
        Some(pos) => if pos + 1 < e.history@.len() {
            &&& e2 == InputEditor {
                buffer: e.history@[pos + 1],
                cursor: e2.cursor,
                history_pos: Some((pos + 1) as usize),
                ..e
            }
            &&& e2.cursor == utf8_len(e2.buffer@)
        } else {
            &&& e2 == InputEditor {
                buffer: e2.buffer,
                cursor: e2.cursor,
                history_pos: None,
                draft: None,
                ..e
            }
            &&& match e.draft {
                Some(d) => e2.buffer@ == d@ && e2.cursor == utf8_len(d@),
                None => e2.buffer@.len() == 0 && e2.cursor == 0,
            }
        },
        None => e2 == e,
    }
}

/// The target column of a vertical move: past the end of the line means
/// "end of the target line".
pub open spec fn target_col(col: int, line_len: int) -> int {
    if col >= line_len {
        usize::MAX as int
    } else {
        col
    }
}

/// The effect of moving up a line, or into the history from the first line.
pub open spec fn cursor_up_effect(e: InputEditor, e2: InputEditor) -> bool {
    let s = e.buffer@;
    let c = e.cursor as int;
    let p = line_col(s.take(chars_before(s, c)));
    if p.0 > 0 {
        let len = line_end_spec(s, c) - line_start_spec(s, c);
        e2 == InputEditor {
            cursor: crate::text::byte_offset(
                s,
                lc_index(s, p.0 - 1, target_col(p.1 as int, len)),
            ) as usize,
            ..e
        }
    } else {
        history_up_effect(e, e2)
    }
}

/// The effect of moving down a line, or through the history from the last
/// line.
pub open spec fn cursor_down_effect(e: InputEditor, e2: InputEditor) -> bool {
    let s = e.buffer@;
    let c = e.cursor as int;
    let p = line_col(s.take(chars_before(s, c)));
    if p.0 + 1 < line_col(s).0 + 1 {
        let len = line_end_spec(s, c) - line_start_spec(s, c);
        e2 == InputEditor {
            cursor: crate::text::byte_offset(
                s,
                lc_index(s, (p.0 + 1) as int, target_col(p.1 as int, len)),
            ) as usize,
            ..e
        }
    } else {
        history_down_effect(e, e2)
    }
}

/// The state of `e` is one the editor can work on: history and kill-ring
/// positions point at entries and the kill ring is within its bound.
pub open spec fn positions_valid(e: InputEditor) -> bool {
    &&& (e.history_pos matches Some(p) ==> p < e.history@.len())
    &&& (e.yank_pos matches Some(p) ==> p < e.kill_ring@.len())
    &&& e.kill_ring@.len() <= MAX_KILL_RING
}

/// The control-key commands the editor handles itself.
pub open spec fn ctrl_command(c: char) -> bool {
    c == 'a' || c == 'e' || c == 'b' || c == 'f' || c == 'p' || c == 'n' || c == 'w' || c == 'u'
        || c == 'k' || c == 'd' || c == 'y'
}

/// The alt-key commands the editor handles itself.
pub open spec fn alt_command(c: char) -> bool {
    c == 'b' || c == 'f' || c == 'd' || c == 'y'
}

/// Where Ctrl-A moves: to the start of the line, or from there to the end
/// of the previous line.
pub open spec fn ctrl_a_target(s: Seq<char>, c: int) -> int {
    let cs = line_start_spec(s, c);
    let line = line_col(s.take(chars_before(s, c))).0;
    if c == cs {
        if line > 0 {
            line_end_spec(s, cs - 1)
        } else {
            c
        }
    } else {
        cs
    }
}

/// Where Ctrl-E moves: to the end of the line, or from there to the start of
/// the next line.
pub open spec fn ctrl_e_target(s: Seq<char>, c: int) -> int {
    let ce = line_end_spec(s, c);
    let line = line_col(s.take(chars_before(s, c))).0;
    if c == ce {
        if line + 1 < line_col(s).0 + 1 {
            line_start_spec(s, c + 1)
        } else {
            c
        }
    } else {
        ce
    }
}

/// The editor with only the cursor moved (to `c2`) and the yank sequence
/// ended.
pub open spec fn moved_to(e: InputEditor, e2: InputEditor, c2: int) -> bool {
    e2 == InputEditor { cursor: c2 as usize, yank_pos: None, ..e }
}

/// The editor after a kill that leaves text `b` with the cursor at `c2` and
/// puts `killed` into the kill ring; the yank sequence ends.
pub open spec fn killed(
    e: InputEditor,
    e2: InputEditor,
    b: Seq<char>,
    c2: int,
    killed: Seq<char>,
) -> bool {
    &&& e2.buffer@ == b
    &&& e2.ring_view() == push_kill_spec(e.ring_view(), killed)
    &&& e2 == InputEditor {
        buffer: e2.buffer,
        cursor: c2 as usize,
        kill_ring: e2.kill_ring,
        yank_pos: None,
        ..e
    }
}

/// The editor after inserting `t` at the cursor, which moves past it.
pub open spec fn inserted(e: InputEditor, e2: InputEditor, t: Seq<char>) -> bool {
    &&& e2.buffer@ == insert_at(e.buffer@, e.cursor as int, t)
    &&& e2 == InputEditor {
        buffer: e2.buffer,
        cursor: (e.cursor + utf8_len(t)) as usize,
        ..e
    }
}

/// Effect of a control-key command.
pub open spec fn ctrl_effect(e: InputEditor, ch: char, e2: InputEditor) -> bool {
    let s = e.buffer@;
    let c = e.cursor as int;
    let n = s.len() as int;
    let l = utf8_len(s) as int;
    if ch == 'a' {
        moved_to(e, e2, ctrl_a_target(s, c))
    } else if ch == 'e' {
        moved_to(e, e2, ctrl_e_target(s, c))
    } else if ch == 'b' {
        moved_to(e, e2, if c > 0 { prev_boundary(s, c) } else { c })
    } else if ch == 'f' {
        moved_to(e, e2, if c < l { next_boundary(s, c) } else { c })
    } else if ch == 'p' {
        cursor_up_effect(e, e2)
    } else if ch == 'n' {
        cursor_down_effect(e, e2)
    } else if ch == 'w' {
        if c == 0 || n == 0 {
            moved_to(e, e2, c)
        } else {
            let st = prev_word_start_spec(s, c);
            killed(e, e2, s.take(st) + s.skip(c), st, s.subrange(st, c))
        }
    } else if ch == 'u' {
        if c > 0 {
            let k = min_int(c, n);
            killed(e, e2, s.skip(k), 0, s.take(k))
        } else {
            moved_to(e, e2, c)
        }
    } else if ch == 'k' {
        if c < l {
            let k = min_int(c, n);
            killed(e, e2, s.take(k), c, s.skip(k))
        } else {
            moved_to(e, e2, c)
        }
    } else if ch == 'd' {
        if c < l {
            &&& e2.buffer@ == remove_at(s, c)
            &&& e2 == InputEditor { buffer: e2.buffer, yank_pos: None, ..e }
        } else {
            moved_to(e, e2, c)
        }
    } else {
        // Ctrl-Y: yank the selected kill-ring entry (the newest one when no
        // yank is in progress).
        if e.kill_ring@.len() == 0 {
            e2 == e
        } else {
            let pos: usize = match e.yank_pos {
                Some(p) => p,
                None => 0,
            };
            let t = e.ring_view()[pos as int];
            &&& e2.buffer@ == insert_at(s, c, t)
            &&& e2 == InputEditor {
                buffer: e2.buffer,
                cursor: (c + utf8_len(t)) as usize,
                yank_pos: Some(pos),
                yank_len: utf8_len(t) as usize,
                ..e
            }
        }
    }
}

/// The text that Alt-Y leaves before inserting the next kill-ring entry: the
/// characters up to `start` and from the cursor on.
pub open spec fn alt_y_base(s: Seq<char>, start: int, c: int) -> Seq<char> {
    s.take(min_int(start, s.len() as int)) + s.skip(min_int(c, s.len() as int))
}

/// Start of the text yanked last (the cursor minus its length, at least 0).
pub open spec fn yank_start(e: InputEditor) -> int {
    if e.cursor >= e.yank_len {
        e.cursor - e.yank_len
    } else {
        0
    }
}

/// Effect of an alt-key command.
pub open spec fn alt_effect(e: InputEditor, ch: char, e2: InputEditor) -> bool {
    let s = e.buffer@;
    let c = e.cursor as int;
    let n = s.len() as int;
    if ch == 'b' {
        moved_to(e, e2, prev_word_start_spec(s, c))
    } else if ch == 'f' {
        moved_to(e, e2, next_word_end_spec(s, c))
    } else if ch == 'd' {
        if c >= n {
            moved_to(e, e2, c)
        } else {
            let en = next_word_end_spec(s, c);
            killed(e, e2, s.take(c) + s.skip(en), c, s.subrange(c, en))
        }
    } else {
        // Alt-Y: replace the text just yanked by the previous kill-ring entry.
        match e.yank_pos {
            Some(pos) => if e.kill_ring@.len() > 1 {
                let start = yank_start(e);
                let np = crate::filter::prev_pos(pos as int, e.kill_ring@.len() as int);
                let t = e.ring_view()[np];
                &&& e2.buffer@ == insert_at(alt_y_base(s, start, c), start, t)
                &&& e2 == InputEditor {
                    buffer: e2.buffer,
                    cursor: (start + utf8_len(t)) as usize,
                    yank_pos: Some(np as usize),
                    yank_len: utf8_len(t) as usize,
                    ..e
                }
            } else {
                e2 == e
            },
            None => e2 == e,
        }
    }
}

/// Effect of deleting the character before the cursor; `end_yank` tells
/// whether the yank sequence ends.
pub open spec fn backspace_effect(e: InputEditor, e2: InputEditor, end_yank: bool) -> bool {
    let s = e.buffer@;
    let c = e.cursor as int;
    let yp = if end_yank {
        None
    } else {
        e.yank_pos
    };
    if c > 0 {
        let p = prev_boundary(s, c);
        &&& e2.buffer@ == remove_at(s, p)
        &&& e2 == InputEditor { buffer: e2.buffer, cursor: p as usize, yank_pos: yp, ..e }
    } else {
        e2 == InputEditor { yank_pos: yp, ..e }
    }
}

/// The picker attached after typing `ch` into `e` (the buffer then being
/// `s2`).
pub open spec fn typed_picker(e: InputEditor, ch: char, s2: Seq<char>, p: Option<Picker>) -> bool {
    let s = e.buffer@;
    let c = e.cursor as int;
    let at_word_start = c == 0 || space_byte_before(s, c);
    if ch == '/' && c == 0 {
        fresh_command_picker(p, e.monochrome)
    } else if ch == '@' && at_word_start {
        fresh_file_picker(p, e.monochrome)
    } else if picker_idle(e.picker) && prefix_fires(s2, "/prompt "@, ch) {
        typed_prompt_picker(p, views(e.prompt_names@), ch, e.monochrome)
    } else if picker_idle(e.picker) && prefix_fires(s2, "/models "@, ch) {
        typed_models_picker(p, views(e.quick_model_names@), ch, e.monochrome)
    } else if picker_idle(e.picker) && prefix_fires(s2, "/theme "@, ch) {
        typed_theme_picker(p, views(e.theme_names@), ch, e.monochrome)
    } else {
        p == e.picker
    }
}

/// Effect of typing the character `ch`.
pub open spec fn typed_effect(e: InputEditor, ch: char, e2: InputEditor) -> bool {
    let s2 = insert_at(e.buffer@, e.cursor as int, seq![ch]);
    &&& e2.buffer@ == s2
    &&& typed_picker(e, ch, s2, e2.picker)
    &&& e2 == InputEditor {
        buffer: e2.buffer,
        cursor: (e.cursor + crate::text::utf8_width(ch)) as usize,
        history_pos: None,
        draft: None,
        yank_pos: None,
        picker: e2.picker,
        ..e
    }
}

/// The attached picker is shown.
pub open spec fn picker_shown(e: InputEditor) -> bool {
    e.picker is Some && e.picker->0.is_active()
}

/// Effect of a key that is not a control- or alt-key command; `r` is what
/// the key submits.
pub open spec fn plain_effect(e: InputEditor, key: KeyEvent, e2: InputEditor, r: Option<String>) -> bool {
    let s = e.buffer@;
    let c = e.cursor as int;
    let l = utf8_len(s) as int;
    match key.code {
        KeyCode::Enter => if key.modifiers.shift || key.modifiers.alt {
            &&& r is None
            &&& if picker_shown(e) {
                e2 == e
            } else {
                inserted(e, e2, seq!['\n'])
            }
        } else if picker_shown(e) {
            r is None && e2 == e
        } else {
            &&& e2.history@ == (if trim(s).len() > 0 {
                e.history@.push(e.buffer)
            } else {
                e.history@
            })
            &&& e2.buffer@.len() == 0
            &&& e2 == InputEditor {
                buffer: e2.buffer,
                cursor: 0,
                history: e2.history,
                history_pos: None,
                draft: None,
                yank_pos: None,
                ..e
            }
            &&& if s.len() == 0 {
                r is None
            } else {
                r matches Some(t) && t@ == s
            }
        },
        KeyCode::Char(ch) => r is None && if ch == '\x08' || (ch == 'h' && key.modifiers.control) {
            backspace_effect(e, e2, false)
        } else {
            typed_effect(e, ch, e2)
        },
        KeyCode::Backspace => r is None && backspace_effect(e, e2, true),
        KeyCode::Delete => r is None && if c < l {
            &&& e2.buffer@ == remove_at(s, c)
            &&& e2 == InputEditor { buffer: e2.buffer, yank_pos: None, ..e }
        } else {
            moved_to(e, e2, c)
        },
        KeyCode::Left => r is None && moved_to(e, e2, if c > 0 { prev_boundary(s, c) } else { c }),
        KeyCode::Right => r is None && moved_to(e, e2, if c < l { next_boundary(s, c) } else { c }),
        KeyCode::Up => r is None && cursor_up_effect(InputEditor { yank_pos: None, ..e }, e2),
        KeyCode::Down => r is None && cursor_down_effect(InputEditor { yank_pos: None, ..e }, e2),
        KeyCode::Home => r is None && moved_to(e, e2, 0),
        KeyCode::End => r is None && moved_to(e, e2, l),
        KeyCode::Tab => r is None && inserted(InputEditor { yank_pos: None, ..e }, e2, seq![' ', ' ']),
        _ => r is None && e2 == e,
    }
}

/// The effect of a key press on the editor and what it submits.
pub open spec fn key_effect(e: InputEditor, key: KeyEvent, e2: InputEditor, r: Option<String>) -> bool {
    match key.code {
        KeyCode::Char(ch) => if key.modifiers.control && ctrl_command(ch) {
            r is None && ctrl_effect(e, ch, e2)
        } else if key.modifiers.alt && alt_command(ch) {
            r is None && alt_effect(e, ch, e2)
        } else {
            plain_effect(e, key, e2, r)
        },
        _ => plain_effect(e, key, e2, r),
    }
}

/// Inserting `t` at the cursor is defined and leaves room for the new cursor.
pub open spec fn can_insert(e: InputEditor, t: Seq<char>) -> bool {
    is_boundary(e.buffer@, e.cursor as int) && e.cursor + utf8_len(t) <= usize::MAX
}

/// Deleting the character before the cursor is defined.
pub open spec fn can_backspace(e: InputEditor) -> bool {
    e.cursor > 0 ==> prev_boundary(e.buffer@, e.cursor as int) < utf8_len(e.buffer@)
}

/// A control-key command `ch` is defined on `e`.
pub open spec fn ctrl_ok(e: InputEditor, ch: char) -> bool {
    let s = e.buffer@;
    let c = e.cursor as int;
    let l = utf8_len(s) as int;
    if ch == 'w' {
        c != 0 && s.len() != 0 ==> c <= s.len()
    } else if ch == 'd' {
        c < l ==> is_boundary(s, c)
    } else if ch == 'y' {
        e.kill_ring@.len() > 0 ==> can_insert(
            e,
            e.ring_view()[match e.yank_pos {
                Some(p) => p as int,
                None => 0,
            }],
        )
    } else {
        true
    }
}

/// An alt-key command `ch` is defined on `e`.
pub open spec fn alt_ok(e: InputEditor, ch: char) -> bool {
    ch == 'y' ==> match e.yank_pos {
        Some(pos) => e.kill_ring@.len() > 1 ==> {
            let start = yank_start(e);
            let np = crate::filter::prev_pos(pos as int, e.kill_ring@.len() as int);
            &&& is_boundary(alt_y_base(e.buffer@, start, e.cursor as int), start)
            &&& start + utf8_len(e.ring_view()[np]) <= usize::MAX
        },
        None => true,
    }
}

/// A key that is not a control- or alt-key command is defined on `e`.
pub open spec fn plain_ok(e: InputEditor, key: KeyEvent) -> bool {
    let s = e.buffer@;
    let c = e.cursor as int;
    let l = utf8_len(s) as int;
    match key.code {
        KeyCode::Char(ch) => if ch == '\x08' || (ch == 'h' && key.modifiers.control) {
            can_backspace(e)
        } else {
            can_insert(e, seq![ch])
        },
        KeyCode::Enter => (key.modifiers.shift || key.modifiers.alt) && !picker_shown(e)
            ==> can_insert(e, seq!['\n']),
        KeyCode::Backspace => can_backspace(e),
        KeyCode::Delete => c < l ==> is_boundary(s, c),
        KeyCode::Tab => can_insert(e, seq![' ', ' ']),
        _ => true,
    }
}

/// The key press is one the editor handles without failing: string
/// positions it edits at are character boundaries, slices and indices are in
/// range, and counters do not overflow.
pub open spec fn key_ok(e: InputEditor, key: KeyEvent) -> bool {
    &&& positions_valid(e)
    &&& utf8_len(e.buffer@) < usize::MAX
    &&& match key.code {
        KeyCode::Char(ch) => if key.modifiers.control && ctrl_command(ch) {
            ctrl_ok(e, ch)
        } else if key.modifiers.alt && alt_command(ch) {
            alt_ok(e, ch)
        } else {
            plain_ok(e, key)
        },
        _ => plain_ok(e, key),
    }
}

/// A key is handled by the attached picker without failing.
pub open spec fn picker_key_ok(e: InputEditor, key: KeyEvent) -> bool {
    let s = e.buffer@;
    let c = e.cursor as int;
    match e.picker {
        Some(Picker::File(p)) => file_key_ok(s, c, p.state(), key),
        Some(Picker::Command(p)) => command_key_ok(s, c, p.state(), key),
        Some(Picker::Models(p)) => arg_key_ok(s, c, p.state(), 8, key),
        Some(Picker::Theme(p)) => arg_key_ok(s, c, p.state(), 7, key),
        Some(Picker::Prompt(p)) => arg_key_ok(s, c, p.state(), 8, key),
        None => true,
    }
}

/// Effect of a key on the editor when it is offered to the attached picker;
/// `h` tells whether the picker took it. A taken key ends a yank sequence;
/// only the text, the cursor and the picker change otherwise.
pub open spec fn picker_key_effect(e: InputEditor, key: KeyEvent, e2: InputEditor, h: bool) -> bool {
    let s = e.buffer@;
    let c = e.cursor as int;
    let text = (e2.buffer@, e2.cursor as int);
    &&& e2 == InputEditor {
        buffer: e2.buffer,
        cursor: e2.cursor,
        picker: e2.picker,
        yank_pos: if h {
            None
        } else {
            e.yank_pos
        },
        ..e
    }
    &&& match e.picker {
        Some(Picker::File(p)) => {
            &&& h == picker_handles(key)
            &&& text == file_key_text(s, c, p.state(), key)
            &&& e2.picker matches Some(Picker::File(p2))
            &&& p2.same_setup(&p)
            &&& p2.state() == file_key_state(p.state(), p.cache_view(), p.loading, key)
        },
        Some(Picker::Command(p)) => {
            let prompts = views(e.prompt_names@);
            let themes = views(e.theme_names@);
            let models = views(e.quick_model_names@);
            &&& h == picker_handles(key)
            &&& text == command_key_text(s, c, p.state(), key)
            &&& if follow_up_kind(p.state(), key, prompts, themes, models) != 0 {
                command_follow_up(e2.picker, p.state(), key, prompts, themes, models)
            } else {
                &&& e2.picker matches Some(Picker::Command(p2))
                &&& p2.same_setup(&p)
                &&& p2.state() == list_key_state(p.state(), p.items_view(), key)
            }
        },
        Some(Picker::Models(p)) => {
            &&& h == picker_handles(key)
            &&& text == arg_key_text(s, c, p.state(), 8, key)
            &&& e2.picker matches Some(Picker::Models(p2))
            &&& p2.same_setup(&p)
            &&& p2.state() == list_key_state(p.state(), p.items_view(), key)
        },
        Some(Picker::Theme(p)) => {
            &&& h == picker_handles(key)
            &&& text == arg_key_text(s, c, p.state(), 7, key)
            &&& e2.picker matches Some(Picker::Theme(p2))
            &&& p2.same_setup(&p)
            &&& p2.state() == list_key_state(p.state(), p.items_view(), key)
        },
        Some(Picker::Prompt(p)) => {
            &&& h == picker_handles(key)
            &&& text == arg_key_text(s, c, p.state(), 8, key)
            &&& e2.picker matches Some(Picker::Prompt(p2))
            &&& p2.same_setup(&p)
            &&& p2.state() == list_key_state(p.state(), p.items_view(), key)
        },
        None => !h && e2 == e,
    }
}

/// A cursor on a line after the first has a line start after the first byte.
pub proof fn lemma_line_start_positive(s: Seq<char>, c: int)
    requires
        line_col(s.take(chars_before(s, c))).0 > 0,
    ensures
        line_start_spec(s, c) >= 1,
{
    lemma_chars_before_bounds(s, c);
    let line = line_col(s.take(chars_before(s, c))).0;
    crate::cursor::lemma_lc_index(s, line as int, 0);
    let k = lc_index(s, line as int, 0);
    assert(s.take(0) =~= Seq::<char>::empty());
    if s.len() == 0 {
        assert(s.take(chars_before(s, c)) =~= Seq::<char>::empty());
        assert(false);
    }
    if k == 0 {
        assert(crate::cursor::lc_stop(s, line as int, 0, 0));
        assert(false);
    }
    crate::text::lemma_byte_offset_strict(s, 0, k);
}

/// Whether `ch` is a control-key command of the editor.
fn is_ctrl_command(ch: char) -> (b: bool)
    ensures
        b == ctrl_command(ch),
{
    ch == 'a' || ch == 'e' || ch == 'b' || ch == 'f' || ch == 'p' || ch == 'n' || ch == 'w' || ch
        == 'u' || ch == 'k' || ch == 'd' || ch == 'y'
}

/// Whether `ch` is an alt-key command of the editor.
fn is_alt_command(ch: char) -> (b: bool)
    ensures
        b == alt_command(ch),
{
    ch == 'b' || ch == 'f' || ch == 'd' || ch == 'y'
}

/// Whether typing `ch` into a buffer that became `buf` opens the picker of
/// `prefix`.
fn prefix_fires_exec(buf: &String, prefix: &str, ch: char) -> (b: bool)
    ensures
        b == prefix_fires(buf@, prefix@, ch),
{
    let v = chars_of(buf.as_str());
    let p = chars_of(prefix);
    if !crate::text::starts_with_seq(v.as_slice(), p.as_slice()) {
        return false;
    }
    let rest = slice_skip(v.as_slice(), p.len());
    if rest.len() == 0 || ch == ' ' {
        return false;
    }
    let rs = string_of(rest.as_slice());
    byte_len(rs.as_str()) == 1
}

/// Inserting a character into an empty query gives that character alone.
proof fn insert_char_seq_single(ch: char) -> (b: bool)
    ensures
        b,
        crate::filter::insert_char(Seq::<char>::empty(), 0, ch) == seq![ch],
{
    assert(crate::filter::insert_char(Seq::<char>::empty(), 0, ch) =~= seq![ch]);
    true
}

/// A text trims to nothing exactly when all of it is white space.
proof fn lemma_trim_empty(s: Seq<char>)
    ensures
        (trim(s).len() == 0) == (crate::text::leading_ws(s) == s.len()),
{
    crate::text::lemma_leading_ws_bounds(s);
    let t = crate::text::trim_start(s);
    crate::text::lemma_trailing_ws_bounds(t);
    if crate::text::leading_ws(s) < s.len() {
        assert(t[0] == s[crate::text::leading_ws(s)]);
        if crate::text::trailing_ws(t) == t.len() {
            assert(crate::text::is_white_space(t[0]));
        }
    }
}

/// `chars_before` counts characters of the text.
pub proof fn lemma_chars_before_bounds(s: Seq<char>, c: int)
    ensures
        0 <= chars_before(s, c) <= s.len(),
{
    if c > 0 {
        crate::text::lemma_floor_index(s, c - 1);
    }
}

/// The start of a line is not after its end, and both lie within the text.
pub proof fn lemma_line_start_le_end(s: Seq<char>, c: int)
    ensures
        0 <= line_start_spec(s, c) <= line_end_spec(s, c) <= utf8_len(s),
{
    let p = line_col(s.take(chars_before(s, c)));
    crate::cursor::lemma_lc_index(s, p.0 as int, 0);
    let k = lc_index(s, p.0 as int, 0);
    crate::cursor::lemma_next_nl(s, k);
    crate::text::lemma_byte_offset_mono(s, k, crate::cursor::next_nl(s, k));
    crate::text::lemma_byte_offset_mono(s, crate::cursor::next_nl(s, k), s.len() as int);
    crate::text::lemma_byte_offset_end(s);
}

impl InputEditor {
    /// The texts of the kill ring, most recent first.
    pub open spec fn ring_view(&self) -> Seq<Seq<char>> {
        views(self.kill_ring@)
    }

    /// An empty editor with no history, no picker and an empty kill ring.
    pub fn new() -> (r: Self)
        ensures
            r.buffer@.len() == 0,
            r.cursor == 0,
            r.history@.len() == 0,
            r.history_pos is None,
            r.draft is None,
            r.picker is None,
            !r.monochrome,
            r.prompt_names@.len() == 0,
            r.theme_names@.len() == 0,
            r.quick_model_names@.len() == 0,
            r.editor is None,
            r.kill_ring@.len() == 0,
            r.yank_pos is None,
            r.yank_len == 0,
            positions_valid(r),
    {
        InputEditor {
            buffer: String::new(),
            cursor: 0,
            history: Vec::new(),
            history_pos: None,
            draft: None,
            picker: None,
            monochrome: false,
            prompt_names: Vec::new(),
            theme_names: Vec::new(),
            quick_model_names: Vec::new(),
            editor: None,
            kill_ring: Vec::new(),
            yank_pos: None,
            yank_len: 0,
        }
    }

    /// Sets the names the models picker offers.
    pub fn set_quick_model_names(&mut self, names: Vec<String>)
        ensures
            *final(self) == (InputEditor { quick_model_names: names, ..*old(self) }),
    {
        self.quick_model_names = names;
    }

    /// Sets the command that opens the external editor.
    pub fn set_editor(&mut self, editor: String)
        ensures
            *final(self) == (InputEditor { editor: Some(editor), ..*old(self) }),
    {
        self.editor = Some(editor);
    }

    /// Turns monochrome drawing on or off, for the attached picker too.
    pub fn set_monochrome(&mut self, monochrome: bool)
        ensures
            final(self).monochrome == monochrome,
            *final(self) == (InputEditor {
                monochrome: final(self).monochrome,
                picker: final(self).picker,
                ..*old(self)
            }),
            old(self).picker is None ==> final(self).picker is None,
            old(self).picker is Some ==> (final(self).picker is Some
                && final(self).picker->0.is_active() == old(self).picker->0.is_active()),
    {
        self.monochrome = monochrome;
        match self.picker {
            Some(ref mut picker) => picker.set_monochrome(monochrome),
            None => {},
        }
    }

    /// Sets the names the prompt picker offers.
    pub fn set_prompt_names(&mut self, names: Vec<String>)
        ensures
            *final(self) == (InputEditor { prompt_names: names, ..*old(self) }),
    {
        self.prompt_names = names;
    }

    /// Sets the names the theme picker offers.
    pub fn set_theme_names(&mut self, names: Vec<String>)
        ensures
            *final(self) == (InputEditor { theme_names: names, ..*old(self) }),
    {
        self.theme_names = names;
    }

    /// Replaces the history with `entries` (oldest first) and leaves history
    /// navigation.
    pub fn load_global_history(&mut self, entries: Vec<String>)
        ensures
            *final(self) == (InputEditor { history: entries, history_pos: None, ..*old(self) }),
    {
        self.history = entries;
        self.history_pos = None;
    }

    /// Attaches a file picker that waits for a scan of the working tree.
    pub fn start_file_picker(&mut self)
        ensures
            fresh_file_picker(final(self).picker, old(self).monochrome),
            *final(self) == (InputEditor { picker: final(self).picker, ..*old(self) }),
    {
        let mut picker = FilePicker::new();
        picker.set_monochrome(self.monochrome);
        picker.activate(None);
        self.picker = Some(Picker::File(picker));
    }

    /// Attaches an active command picker.
    pub fn start_command_picker(&mut self)
        ensures
            fresh_command_picker(final(self).picker, old(self).monochrome),
            *final(self) == (InputEditor { picker: final(self).picker, ..*old(self) }),
    {
        let mut picker = CommandPicker::new();
        picker.set_monochrome(self.monochrome);
        picker.activate();
        assert(picker.query@ =~= Seq::<char>::empty());
        self.picker = Some(Picker::Command(picker));
    }

    /// Attaches an active models picker over the quick model names.
    pub fn start_models_picker(&mut self)
        ensures
            final(self).picker matches Some(Picker::Models(p)) && p.active && p.query@.len()
                == 0 && p.cursor == 0 && p.selected == 0 && p.items_view() == views(
                old(self).quick_model_names@,
            ) && p.matches_view() == filtered(p.items_view(), Seq::<char>::empty())
                && p.monochrome == old(self).monochrome,
            *final(self) == (InputEditor { picker: final(self).picker, ..*old(self) }),
    {
        let mut picker = ModelsPicker::new();
        picker.set_monochrome(self.monochrome);
        if self.quick_model_names.len() > 0 {
            picker.set_items(self.quick_model_names.clone());
        }
        proof {
            assert(views(self.quick_model_names@) =~= picker.items_view());
        }
        picker.activate();
        assert(picker.query@ =~= Seq::<char>::empty());
        self.picker = Some(Picker::Models(picker));
    }

    /// Attaches an active prompt picker over the prompt names.
    pub fn start_prompt_picker(&mut self)
        ensures
            final(self).picker matches Some(Picker::Prompt(p)) && p.active && p.query@.len()
                == 0 && p.cursor == 0 && p.selected == 0 && p.items_view() == views(
                old(self).prompt_names@,
            ) && p.matches_view() == filtered(p.items_view(), Seq::<char>::empty())
                && p.monochrome == old(self).monochrome,
            *final(self) == (InputEditor { picker: final(self).picker, ..*old(self) }),
    {
        let mut picker = PromptPicker::new();
        picker.set_monochrome(self.monochrome);
        if self.prompt_names.len() > 0 {
            picker.set_items(self.prompt_names.clone());
        }
        proof {
            assert(views(self.prompt_names@) =~= picker.items_view());
        }
        picker.activate();
        assert(picker.query@ =~= Seq::<char>::empty());
        self.picker = Some(Picker::Prompt(picker));
    }

    /// Attaches an active theme picker over the theme names.
    pub fn start_theme_picker(&mut self)
        ensures
            final(self).picker matches Some(Picker::Theme(p)) && p.active && p.query@.len()
                == 0 && p.cursor == 0 && p.selected == 0 && p.items_view() == views(
                old(self).theme_names@,
            ) && p.matches_view() == filtered(p.items_view(), Seq::<char>::empty())
                && p.monochrome == old(self).monochrome,
            *final(self) == (InputEditor { picker: final(self).picker, ..*old(self) }),
    {
        let mut picker = ThemePicker::new();
        picker.set_monochrome(self.monochrome);
        if self.theme_names.len() > 0 {
            picker.set_items(self.theme_names.clone());
        }
        proof {
            assert(views(self.theme_names@) =~= picker.items_view());
        }
        picker.activate();
        assert(picker.query@ =~= Seq::<char>::empty());
        self.picker = Some(Picker::Theme(picker));
    }

    /// The command that opens the external editor: the configured one, else
    /// `env_editor` (the `EDITOR` variable), else `editor`.
    pub fn editor_command(&self, env_editor: Option<String>) -> (r: String)
        ensures
            r@ == match self.editor {
                Some(ed) => ed@,
                None => match env_editor {
                    Some(ed) => ed@,
                    None => "editor"@,
                },
            },
    {
        match &self.editor {
            Some(ed) => ed.clone(),
            None => match env_editor {
                Some(ed) => ed,
                None => string_of(chars_of("editor").as_slice()),
            },
        }
    }

    /// Takes the text the external editor saved: the buffer becomes that text
    /// without trailing white space and the cursor goes to its end.
    pub fn apply_editor_result(&mut self, content: String)
        ensures
            final(self).buffer@ == crate::text::trim_end(content@),
            final(self).cursor == utf8_len(final(self).buffer@),
            *final(self) == (InputEditor {
                buffer: final(self).buffer,
                cursor: final(self).cursor,
                ..*old(self)
            }),
    {
        let v = chars_of(content.as_str());
        let t = crate::text::trailing_ws_count(v.as_slice());
        proof {
            crate::text::lemma_trailing_ws_bounds(v@);
        }
        let kept = slice_take(v.as_slice(), v.len() - t);
        self.buffer = string_of(kept.as_slice());
        self.cursor = byte_len(self.buffer.as_str());
    }

    /// Inserts pasted text at the cursor and moves the cursor past it; leaves
    /// history navigation and ends a yank sequence.
    pub fn handle_paste(&mut self, data: String)
        requires
            is_boundary(old(self).buffer@, old(self).cursor as int),
            old(self).cursor + utf8_len(data@) <= usize::MAX,
        ensures
            final(self).buffer@ == insert_at(old(self).buffer@, old(self).cursor as int, data@),
            final(self).cursor == old(self).cursor + utf8_len(data@),
            *final(self) == (InputEditor {
                buffer: final(self).buffer,
                cursor: final(self).cursor,
                history_pos: None,
                draft: None,
                yank_pos: None,
                ..*old(self)
            }),
    {
        let d = chars_of(data.as_str());
        self.buffer = string_insert(&self.buffer, self.cursor, d.as_slice());
        let n = byte_len(data.as_str());
        self.cursor = self.cursor + n;
        self.history_pos = None;
        self.draft = None;
        self.yank_pos = None;
    }

    /// Start of the word before the cursor, as a character index.
    fn prev_word_start(&self) -> (r: usize)
        ensures
            r == prev_word_start_spec(self.buffer@, self.cursor as int),
            r <= self.cursor,
            r <= self.buffer@.len(),
    {
        let v = chars_of(self.buffer.as_str());
        prev_word_start_of(v.as_slice(), self.cursor)
    }

    /// End of the word after the cursor, as a character index.
    fn next_word_end(&self) -> (r: usize)
        ensures
            r == next_word_end_spec(self.buffer@, self.cursor as int),
            r <= self.buffer@.len(),
            self.cursor < self.buffer@.len() ==> self.cursor <= r,
    {
        let v = chars_of(self.buffer.as_str());
        next_word_end_of(v.as_slice(), self.cursor)
    }

    /// Deletes from the start of the previous word to the cursor and returns
    /// the deleted text.
    fn delete_prev_word(&mut self) -> (r: String)
        requires
            old(self).cursor != 0 && old(self).buffer@.len() != 0 ==> old(self).cursor <= old(
                self,
            ).buffer@.len(),
        ensures
            ({
                let s = old(self).buffer@;
                let c = old(self).cursor as int;
                if c == 0 || s.len() == 0 {
                    r@.len() == 0 && *final(self) == *old(self)
                } else {
                    let st = prev_word_start_spec(s, c);
                    &&& r@ == s.subrange(st, c)
                    &&& final(self).buffer@ == s.take(st) + s.skip(c)
                    &&& *final(self) == (InputEditor {
                        buffer: final(self).buffer,
                        cursor: st as usize,
                        ..*old(self)
                    })
                }
            }),
    {
        let v = chars_of(self.buffer.as_str());
        if self.cursor == 0 || v.len() == 0 {
            return String::new();
        }
        let start = self.prev_word_start();
        let deleted = slice_range(v.as_slice(), start, self.cursor);
        let mut nb = string_of(slice_take(v.as_slice(), start).as_slice());
        crate::text::push_chars(&mut nb, slice_skip(v.as_slice(), self.cursor).as_slice());
        self.buffer = nb;
        self.cursor = start;
        string_of(deleted.as_slice())
    }

    /// Deletes from the cursor to the end of the next word and returns the
    /// deleted text; the cursor stays.
    fn delete_next_word(&mut self) -> (r: String)
        ensures
            ({
                let s = old(self).buffer@;
                let c = old(self).cursor as int;
                if c >= s.len() {
                    r@.len() == 0 && *final(self) == *old(self)
                } else {
                    let en = next_word_end_spec(s, c);
                    &&& r@ == s.subrange(c, en)
                    &&& final(self).buffer@ == s.take(c) + s.skip(en)
                    &&& *final(self) == (InputEditor { buffer: final(self).buffer, ..*old(self) })
                }
            }),
    {
        let v = chars_of(self.buffer.as_str());
        if self.cursor >= v.len() {
            return String::new();
        }
        let end = self.next_word_end();
        let deleted = slice_range(v.as_slice(), self.cursor, end);
        let mut nb = string_of(slice_take(v.as_slice(), self.cursor).as_slice());
        crate::text::push_chars(&mut nb, slice_skip(v.as_slice(), end).as_slice());
        self.buffer = nb;
        string_of(deleted.as_slice())
    }

    /// Records killed text in the kill ring.
    fn push_kill(&mut self, text: String)
        requires
            positions_valid(*old(self)),
        ensures
            final(self).ring_view() == push_kill_spec(old(self).ring_view(), text@),
            *final(self) == (InputEditor { kill_ring: final(self).kill_ring, ..*old(self) }),
            positions_valid(*final(self)),
    {
        if text.as_str().is_empty() {
            return;
        }
        if self.kill_ring.len() > 0 && self.kill_ring[0] == text {
            return;
        }
        let ghost before = self.kill_ring@;
        self.kill_ring.insert(0, text);
        assert(views(self.kill_ring@) =~= seq![text@] + views(before));
        if self.kill_ring.len() > MAX_KILL_RING {
            let ghost mid = self.kill_ring@;
            let _ = self.kill_ring.pop();
            assert(views(self.kill_ring@) =~= views(mid).drop_last());
        }
    }

    /// Moves up in the history, keeping the edited line as a draft when
    /// leaving it.
    fn history_up(&mut self) -> (r: Option<String>)
        requires
            positions_valid(*old(self)),
        ensures
            r is None,
            history_up_effect(*old(self), *final(self)),
            positions_valid(*final(self)),
    {
        let hist_len = self.history.len();
        if hist_len == 0 {
            return None;
        }
        match self.history_pos {
            Some(p) => {
                if p == 0 {
                    return None;
                }
            },
            None => {},
        }
        if self.history_pos.is_none() {
            self.draft = Some(self.buffer.clone());
        }
        let pos = match self.history_pos {
            Some(p) => p - 1,
            None => hist_len - 1,
        };
        self.history_pos = Some(pos);
        self.buffer = self.history[pos].clone();
        self.cursor = 0;
        None
    }

    /// Moves down in the history; past the newest entry the draft (or an
    /// empty line) comes back.
    fn history_down(&mut self) -> (r: Option<String>)
        requires
            positions_valid(*old(self)),
        ensures
            r is None,
            history_down_effect(*old(self), *final(self)),
            positions_valid(*final(self)),
    {
        match self.history_pos {
            Some(pos) => {
                let hl = self.history.len();
                assert(pos < hl);
                if pos + 1 < hl {
                    let new_pos = pos + 1;
                    self.history_pos = Some(new_pos);
                    self.buffer = self.history[new_pos].clone();
                    self.cursor = byte_len(self.buffer.as_str());
                } else {
                    self.history_pos = None;
                    let d = self.draft.take();
                    match d {
                        Some(draft) => {
                            self.buffer = draft.clone();
                            self.cursor = byte_len(self.buffer.as_str());
                        },
                        None => {
                            self.buffer = String::new();
                            self.cursor = 0;
                        },
                    }
                }
            },
            None => {},
        }
        None
    }

    /// Moves the cursor one line up at the same column (or the end of the
    /// shorter line); from the first line, moves up in the history.
    fn cursor_up(&mut self) -> (r: Option<String>)
        requires
            positions_valid(*old(self)),
        ensures
            r is None,
            cursor_up_effect(*old(self), *final(self)),
            positions_valid(*final(self)),
    {
        let (line, col) = cursor_to_line_col(self.buffer.as_str(), self.cursor);
        if line > 0 {
            let le = line_end(self.buffer.as_str(), self.cursor);
            let ls = line_start(self.buffer.as_str(), self.cursor);
            proof {
                lemma_line_start_le_end(self.buffer@, self.cursor as int);
            }
            let line_len = le - ls;
            let target = line_col_to_cursor(
                self.buffer.as_str(),
                line - 1,
                if col >= line_len {
                    usize::MAX
                } else {
                    col
                },
            );
            self.cursor = target;
            None
        } else {
            self.history_up()
        }
    }

    /// Moves the cursor one line down at the same column (or the end of the
    /// shorter line); from the last line, moves down in the history.
    fn cursor_down(&mut self) -> (r: Option<String>)
        requires
            positions_valid(*old(self)),
            old(self).buffer@.len() < usize::MAX,
        ensures
            r is None,
            cursor_down_effect(*old(self), *final(self)),
            positions_valid(*final(self)),
    {
        let (line, col) = cursor_to_line_col(self.buffer.as_str(), self.cursor);
        let total = count_lines(self.buffer.as_str());
        proof {
            lemma_chars_before_bounds(self.buffer@, self.cursor as int);
            crate::cursor::lemma_line_col_bound(self.buffer@.take(
                chars_before(self.buffer@, self.cursor as int),
            ));
        }
        if line + 1 < total {
            let le = line_end(self.buffer.as_str(), self.cursor);
            let ls = line_start(self.buffer.as_str(), self.cursor);
            proof {
                lemma_line_start_le_end(self.buffer@, self.cursor as int);
            }
            let line_len = le - ls;
            let target = line_col_to_cursor(
                self.buffer.as_str(),
                line + 1,
                if col >= line_len {
                    usize::MAX
                } else {
                    col
                },
            );
            self.cursor = target;
            None
        } else {
            self.history_down()
        }
    }

    /// Handles a control-key command.
    fn handle_ctrl(&mut self, ch: char)
        requires
            ctrl_command(ch),
            positions_valid(*old(self)),
            utf8_len(old(self).buffer@) < usize::MAX,
            ctrl_ok(*old(self), ch),
        ensures
            ctrl_effect(*old(self), ch, *final(self)),
            positions_valid(*final(self)),
    {
        proof {
            crate::text::lemma_utf8_len_bounds(self.buffer@);
        }
        if ch == 'a' {
            let current = line_start(self.buffer.as_str(), self.cursor);
            if self.cursor == current {
                let (line, _col) = cursor_to_line_col(self.buffer.as_str(), self.cursor);
                if line > 0 {
                    proof {
                        lemma_line_start_positive(self.buffer@, self.cursor as int);
                    }
                    self.cursor = line_end(self.buffer.as_str(), current - 1);
                }
            } else {
                self.cursor = current;
            }
            self.yank_pos = None;
        } else if ch == 'e' {
            let current = line_end(self.buffer.as_str(), self.cursor);
            proof {
                lemma_line_start_le_end(self.buffer@, self.cursor as int);
            }
            if self.cursor == current {
                let (line, _col) = cursor_to_line_col(self.buffer.as_str(), self.cursor);
                let total = count_lines(self.buffer.as_str());
                proof {
                    lemma_chars_before_bounds(self.buffer@, self.cursor as int);
                    crate::cursor::lemma_line_col_bound(
                        self.buffer@.take(chars_before(self.buffer@, self.cursor as int)),
                    );
                }
                if line + 1 < total {
                    self.cursor = line_start(self.buffer.as_str(), self.cursor + 1);
                }
            } else {
                self.cursor = current;
            }
            self.yank_pos = None;
        } else if ch == 'b' {
            if self.cursor > 0 {
                self.cursor = prev_char_boundary(self.buffer.as_str(), self.cursor);
            }
            self.yank_pos = None;
        } else if ch == 'f' {
            if self.cursor < byte_len(self.buffer.as_str()) {
                self.cursor = next_char_boundary(self.buffer.as_str(), self.cursor);
            }
            self.yank_pos = None;
        } else if ch == 'p' {
            let _ = self.cursor_up();
        } else if ch == 'n' {
            let _ = self.cursor_down();
        } else if ch == 'w' {
            let deleted = self.delete_prev_word();
            if !deleted.as_str().is_empty() {
                self.push_kill(deleted);
            }
            self.yank_pos = None;
        } else if ch == 'u' {
            if self.cursor > 0 {
                let v = chars_of(self.buffer.as_str());
                let deleted = string_of(slice_take(v.as_slice(), self.cursor).as_slice());
                let remaining = string_of(slice_skip(v.as_slice(), self.cursor).as_slice());
                self.buffer = remaining;
                self.cursor = 0;
                if !deleted.as_str().is_empty() {
                    self.push_kill(deleted);
                }
            }
            self.yank_pos = None;
        } else if ch == 'k' {
            if self.cursor < byte_len(self.buffer.as_str()) {
                let v = chars_of(self.buffer.as_str());
                let deleted = string_of(slice_skip(v.as_slice(), self.cursor).as_slice());
                let before = string_of(slice_take(v.as_slice(), self.cursor).as_slice());
                self.buffer = before;
                if !deleted.as_str().is_empty() {
                    self.push_kill(deleted);
                }
            }
            self.yank_pos = None;
        } else if ch == 'd' {
            if self.cursor < byte_len(self.buffer.as_str()) {
                self.buffer = string_remove(&self.buffer, self.cursor);
            }
            self.yank_pos = None;
        } else {
            if self.kill_ring.len() == 0 {
                return;
            }
            let pos = match self.yank_pos {
                Some(p) => p,
                None => 0,
            };
            let text = chars_of(self.kill_ring[pos].as_str());
            let tlen = byte_len(self.kill_ring[pos].as_str());
            self.buffer = string_insert(&self.buffer, self.cursor, text.as_slice());
            self.yank_len = tlen;
            self.cursor = self.cursor + tlen;
            self.yank_pos = Some(pos);
        }
    }

    /// Handles an alt-key command.
    fn handle_alt(&mut self, ch: char)
        requires
            alt_command(ch),
            positions_valid(*old(self)),
            alt_ok(*old(self), ch),
        ensures
            alt_effect(*old(self), ch, *final(self)),
            positions_valid(*final(self)),
    {
        if ch == 'b' {
            self.cursor = self.prev_word_start();
            self.yank_pos = None;
        } else if ch == 'f' {
            self.cursor = self.next_word_end();
            self.yank_pos = None;
        } else if ch == 'd' {
            let deleted = self.delete_next_word();
            if !deleted.as_str().is_empty() {
                self.push_kill(deleted);
            }
            self.yank_pos = None;
        } else {
            match self.yank_pos {
                Some(pos) => {
                    if self.kill_ring.len() > 1 {
                        let start = if self.cursor >= self.yank_len {
                            self.cursor - self.yank_len
                        } else {
                            0
                        };
                        if start <= self.cursor {
                            let v = chars_of(self.buffer.as_str());
                            let mut nb = string_of(slice_take(v.as_slice(), start).as_slice());
                            crate::text::push_chars(
                                &mut nb,
                                slice_skip(v.as_slice(), self.cursor).as_slice(),
                            );
                            self.buffer = nb;
                            self.cursor = start;
                        }
                        let new_pos = if pos == 0 {
                            self.kill_ring.len() - 1
                        } else {
                            pos - 1
                        };
                        self.yank_pos = Some(new_pos);
                        let text = chars_of(self.kill_ring[new_pos].as_str());
                        let tlen = byte_len(self.kill_ring[new_pos].as_str());
                        self.buffer = string_insert(&self.buffer, self.cursor, text.as_slice());
                        self.yank_len = tlen;
                        self.cursor = self.cursor + tlen;
                    }
                },
                None => {},
            }
        }
    }

    /// Whether the attached picker is absent or hidden.
    fn picker_is_idle(&self) -> (b: bool)
        ensures
            b == picker_idle(self.picker),
    {
        match &self.picker {
            None => true,
            Some(p) => !p.active(),
        }
    }

    /// Handles typing the character `ch`.
    fn handle_typed(&mut self, ch: char)
        requires
            positions_valid(*old(self)),
            can_insert(*old(self), seq![ch]),
        ensures
            typed_effect(*old(self), ch, *final(self)),
            positions_valid(*final(self)),
    {
        let ghost e = *self;
        let ghost s2 = insert_at(e.buffer@, e.cursor as int, seq![ch]);
        if ch == '@' {
            let at_word_start = if self.cursor == 0 {
                true
            } else {
                let bytes = self.buffer.as_str().as_bytes();
                self.cursor - 1 < bytes.len() && bytes[self.cursor - 1] == 0x20u8
            };
            assert(at_word_start == (e.cursor == 0 || space_byte_before(e.buffer@, e.cursor as int)));
            if at_word_start {
                self.start_file_picker();
            }
        }
        if ch == '/' && self.cursor == 0 {
            self.start_command_picker();
        }
        let ghost p1 = self.picker;
        assert(ch == '/' && e.cursor == 0 ==> fresh_command_picker(p1, e.monochrome));
        assert(!(ch == '/' && e.cursor == 0) && ch == '@' && (e.cursor == 0 || space_byte_before(e.buffer@, e.cursor as int)) ==> fresh_file_picker(p1, e.monochrome));
        assert(!(ch == '/' && e.cursor == 0) && !(ch == '@' && (e.cursor == 0 || space_byte_before(e.buffer@, e.cursor as int))) ==> p1 == e.picker);
        let one = vec![ch];
        proof {
            assert(one@ =~= seq![ch]);
        }
        self.buffer = string_insert(&self.buffer, self.cursor, one.as_slice());
        self.cursor = self.cursor + crate::text::char_utf8_len(ch);
        self.history_pos = None;
        self.draft = None;
        self.yank_pos = None;
        proof {
            let _ = insert_char_seq_single(ch);
        }
        assert(self.buffer@ == s2);
        let ghost mid = *self;
        assert(mid == InputEditor {
            buffer: mid.buffer,
            cursor: (e.cursor + crate::text::utf8_width(ch)) as usize,
            history_pos: None,
            draft: None,
            yank_pos: None,
            picker: p1,
            ..e
        });
        if self.picker_is_idle() && prefix_fires_exec(&self.buffer, "/prompt ", ch) {
            self.start_prompt_picker();
            match self.picker {
                Some(Picker::Prompt(ref mut pp)) => {
                    assert(pp.query@ =~= Seq::<char>::empty());
                    pp.char_input(ch);
                },
                _ => {},
            }
            assert(typed_prompt_picker(self.picker, views(e.prompt_names@), ch, e.monochrome));
        }
        let ghost p2 = self.picker;
        assert(*self == InputEditor { picker: p2, ..mid });
        if self.picker_is_idle() && prefix_fires_exec(&self.buffer, "/models ", ch) {
            self.start_models_picker();
            match self.picker {
                Some(Picker::Models(ref mut pp)) => {
                    assert(pp.query@ =~= Seq::<char>::empty());
                    pp.char_input(ch);
                },
                _ => {},
            }
            assert(typed_models_picker(self.picker, views(e.quick_model_names@), ch, e.monochrome));
        }
        let ghost p3 = self.picker;
        assert(*self == InputEditor { picker: p3, ..mid });
        if self.picker_is_idle() && prefix_fires_exec(&self.buffer, "/theme ", ch) {
            self.start_theme_picker();
            match self.picker {
                Some(Picker::Theme(ref mut pp)) => {
                    assert(pp.query@ =~= Seq::<char>::empty());
                    pp.char_input(ch);
                },
                _ => {},
            }
            assert(typed_theme_picker(self.picker, views(e.theme_names@), ch, e.monochrome));
        }
        assert(typed_picker(e, ch, s2, self.picker));
    }

    /// Deletes the character before the cursor; `end_yank` ends a yank
    /// sequence.
    fn backspace(&mut self, end_yank: bool)
        requires
            positions_valid(*old(self)),
            can_backspace(*old(self)),
        ensures
            backspace_effect(*old(self), *final(self), end_yank),
            positions_valid(*final(self)),
    {
        if self.cursor > 0 {
            let p = prev_char_boundary(self.buffer.as_str(), self.cursor);
            self.cursor = p;
            self.buffer = string_remove(&self.buffer, p);
        }
        if end_yank {
            self.yank_pos = None;
        }
    }

    /// Handles a key that is not a control- or alt-key command.
    fn handle_plain(&mut self, key: KeyEvent) -> (r: Option<String>)
        requires
            positions_valid(*old(self)),
            utf8_len(old(self).buffer@) < usize::MAX,
            plain_ok(*old(self), key),
        ensures
            plain_effect(*old(self), key, *final(self), r),
            positions_valid(*final(self)),
    {
        proof {
            crate::text::lemma_utf8_len_bounds(self.buffer@);
        }
        match key.code {
            KeyCode::Enter => {
                if key.modifiers.shift || key.modifiers.alt {
                    let shown = match &self.picker {
                        Some(p) => p.active(),
                        None => false,
                    };
                    if shown {
                        return None;
                    }
                    let nl = vec!['\n'];
                    proof {
                        assert(nl@ =~= seq!['\n']);
                        assert(utf8_len(seq!['\n']) == crate::text::utf8_width('\n')) by {
                            assert(seq!['\n'].drop_last() =~= Seq::<char>::empty());
                            assert(seq!['\n'].last() == '\n');
                            assert(utf8_len(Seq::<char>::empty()) == 0);
                        }
                    }
                    self.buffer = string_insert(&self.buffer, self.cursor, nl.as_slice());
                    self.cursor = self.cursor + crate::text::char_utf8_len('\n');
                    None
                } else {
                    let shown = match &self.picker {
                        Some(p) => p.active(),
                        None => false,
                    };
                    if shown {
                        return None;
                    }
                    let text = self.buffer.clone();
                    let v = chars_of(text.as_str());
                    let lead = crate::text::leading_ws_count(v.as_slice());
                    let is_blank = lead == v.len();
                    proof {
                        lemma_trim_empty(text@);
                    }
                    if !is_blank {
                        self.history.push(text.clone());
                    }
                    self.history_pos = None;
                    self.draft = None;
                    self.buffer = String::new();
                    self.cursor = 0;
                    self.yank_pos = None;
                    if text.as_str().is_empty() {
                        None
                    } else {
                        Some(text)
                    }
                }
            },
            KeyCode::Char(ch) => {
                if ch == '\x08' || (ch == 'h' && key.modifiers.control) {
                    self.backspace(false);
                } else {
                    self.handle_typed(ch);
                }
                None
            },
            KeyCode::Backspace => {
                self.backspace(true);
                None
            },
            KeyCode::Delete => {
                if self.cursor < byte_len(self.buffer.as_str()) {
                    self.buffer = string_remove(&self.buffer, self.cursor);
                }
                self.yank_pos = None;
                None
            },
            KeyCode::Left => {
                if self.cursor > 0 {
                    self.cursor = prev_char_boundary(self.buffer.as_str(), self.cursor);
                }
                self.yank_pos = None;
                None
            },
            KeyCode::Right => {
                if self.cursor < byte_len(self.buffer.as_str()) {
                    self.cursor = next_char_boundary(self.buffer.as_str(), self.cursor);
                }
                self.yank_pos = None;
                None
            },
            KeyCode::Up => {
                self.yank_pos = None;
                self.cursor_up()
            },
            KeyCode::Down => {
                self.yank_pos = None;
                self.cursor_down()
            },
            KeyCode::Home => {
                self.cursor = 0;
                self.yank_pos = None;
                None
            },
            KeyCode::End => {
                self.cursor = byte_len(self.buffer.as_str());
                self.yank_pos = None;
                None
            },
            KeyCode::Tab => {
                self.yank_pos = None;
                let two = vec![' ', ' '];
                proof {
                    assert(two@ =~= seq![' ', ' ']);
                    assert(utf8_len(seq![' ', ' ']) == 2) by {
                        let t = seq![' ', ' '];
                        assert(t.drop_last() =~= seq![' ']);
                        assert(seq![' '].drop_last() =~= Seq::<char>::empty());
                        assert(t.last() == ' ');
                        assert(seq![' '].last() == ' ');
                        assert(utf8_len(Seq::<char>::empty()) == 0);
                        assert(utf8_len(seq![' ']) == 1);
                    }
                }
                self.buffer = string_insert(&self.buffer, self.cursor, two.as_slice());
                self.cursor = self.cursor + 2;
                None
            },
            _ => None,
        }
    }

    /// Offers `key` to the attached picker; returns whether it took it.
    pub fn handle_picker_key(&mut self, key: KeyEvent) -> (handled: bool)
        requires
            picker_key_ok(*old(self), key),
        ensures
            picker_key_effect(*old(self), key, *final(self), handled),
    {
        let handled = match self.picker {
            Some(Picker::File(ref mut p)) => {
                handle_file_picker_key(&mut self.buffer, &mut self.cursor, p, key)
            },
            Some(Picker::Command(ref mut p)) => {
                let (handled, replacement) = handle_command_picker_key(
                    &mut self.buffer,
                    &mut self.cursor,
                    &self.prompt_names,
                    &self.theme_names,
                    &self.quick_model_names,
                    p,
                    key,
                );
                match replacement {
                    Some(new_picker) => {
                        self.picker = Some(new_picker);
                    },
                    None => {},
                }
                handled
            },
            Some(Picker::Prompt(ref mut p)) => {
                handle_prompt_picker_key(&mut self.buffer, &mut self.cursor, p, key)
            },
            Some(Picker::Models(ref mut p)) => {
                handle_models_picker_key(&mut self.buffer, &mut self.cursor, p, key)
            },
            Some(Picker::Theme(ref mut p)) => {
                handle_theme_picker_key(&mut self.buffer, &mut self.cursor, p, key)
            },
            None => false,
        };
        if handled {
            self.yank_pos = None;
        }
        handled
    }

    /// Applies a key press: motions, edits, kills and yanks, history
    /// navigation, typing (which may open a picker), and Enter, which submits
    /// the line (returned when it is not empty) and records non-blank lines in
    /// the history.
    ///
    /// Ctrl-U and Ctrl-K split the line after `cursor` characters although
    /// `cursor` is a byte offset: on ASCII text that is the cursor, but on a
    /// line with multi-byte characters before the cursor the cut lands past
    /// it. The contract (`key_effect`, through `ctrl_effect`) states this
    /// behaviour as it is.
    pub fn handle_key(&mut self, key: KeyEvent) -> (r: Option<String>)
        requires
            key_ok(*old(self), key),
        ensures
            key_effect(*old(self), key, *final(self), r),
            positions_valid(*final(self)),
    {
        let ctrl = key.modifiers.control;
        let alt = key.modifiers.alt;
        match key.code {
            KeyCode::Char(ch) => {
                if ctrl && is_ctrl_command(ch) {
                    self.handle_ctrl(ch);
                    return None;
                }
                if alt && is_alt_command(ch) {
                    self.handle_alt(ch);
                    return None;
                }
            },
            _ => {},
        }
        self.handle_plain(key)
    }
}

/// A key press with no modifier held.
pub open spec fn plain_key(code: KeyCode) -> KeyEvent {
    KeyEvent { code, modifiers: KeyModifiers { shift: false, control: false, alt: false } }
}

/// The character key `ch` with Control held.
pub open spec fn ctrl_key(ch: char) -> KeyEvent {
    KeyEvent {
        code: KeyCode::Char(ch),
        modifiers: KeyModifiers { shift: false, control: true, alt: false },
    }
}

/// A text without a newline is all on the first line.
pub proof fn lemma_single_line(s: Seq<char>)
    requires
        !s.contains('\n'),
    ensures
        line_col(s).0 == 0,
    decreases s.len(),
{
    if s.len() > 0 {
        assert(s.last() == s[s.len() - 1]);
        assert(!s.drop_last().contains('\n')) by {
            if s.drop_last().contains('\n') {
                let j = choose|j: int| 0 <= j < s.drop_last().len() && s.drop_last()[j] == '\n';
                assert(s[j] == '\n');
            }
        }
        lemma_single_line(s.drop_last());
    }
}

/// Typing a character and then pressing Backspace gives back the text and
/// the cursor.
pub proof fn law_type_then_backspace(
    e: InputEditor,
    ch: char,
    e1: InputEditor,
    r1: Option<String>,
    e2: InputEditor,
    r2: Option<String>,
)
    requires
        can_insert(e, seq![ch]),
        ch != '\x08',
        key_effect(e, plain_key(KeyCode::Char(ch)), e1, r1),
        key_effect(e1, plain_key(KeyCode::Backspace), e2, r2),
    ensures
        e2.buffer@ == e.buffer@,
        e2.cursor == e.cursor,
{
    crate::edit::lemma_insert_char_then_remove(e.buffer@, e.cursor as int, ch);
    crate::text::lemma_utf8_len_bounds(seq![ch]);
}

/// Killing to the start of the line with Ctrl-U and yanking it back with
/// Ctrl-Y gives back the text; the cursor ends after the yanked text, which
/// is where it started when the text before it is single-byte characters.
pub proof fn law_kill_to_start_then_yank(
    e: InputEditor,
    e1: InputEditor,
    r1: Option<String>,
    e2: InputEditor,
    r2: Option<String>,
)
    requires
        e.cursor > 0,
        e.buffer@.len() > 0,
        utf8_len(e.buffer@) <= usize::MAX,
        key_effect(e, ctrl_key('u'), e1, r1),
        key_effect(e1, ctrl_key('y'), e2, r2),
    ensures
        e2.buffer@ == e.buffer@,
        e2.cursor == crate::text::byte_offset(
            e.buffer@,
            min_int(e.cursor as int, e.buffer@.len() as int),
        ),
        e.cursor <= e.buffer@.len() && crate::text::byte_offset(e.buffer@, e.cursor as int)
            == e.cursor ==> e2.cursor == e.cursor,
{
    let s = e.buffer@;
    let k = min_int(e.cursor as int, s.len() as int);
    crate::edit::lemma_insert_prefix_at_start(s, k);
    crate::text::lemma_byte_offset_mono(s, k, s.len() as int);
    crate::text::lemma_byte_offset_end(s);
    assert(ctrl_effect(e, 'u', e1));
    assert(killed(e, e1, s.skip(k), 0, s.take(k)));
    assert(e1.buffer@ == s.skip(k));
    assert(e1.cursor == 0);
    assert(e1.yank_pos is None);
    assert(s.take(k).len() > 0);
    assert(e1.ring_view()[0] == s.take(k));
    assert(e1.ring_view().len() == e1.kill_ring@.len());
    assert(e1.kill_ring@.len() > 0);
    assert(ctrl_effect(e1, 'y', e2));
    assert(e2.buffer@ == insert_at(s.skip(k), 0, s.take(k)));
}

/// Killing to the end of the line with Ctrl-K and yanking it back with
/// Ctrl-Y gives back the text when the text before the cursor is
/// single-byte characters; the cursor ends at the end of the text.
pub proof fn law_kill_to_end_then_yank(
    e: InputEditor,
    e1: InputEditor,
    r1: Option<String>,
    e2: InputEditor,
    r2: Option<String>,
)
    requires
        e.cursor < utf8_len(e.buffer@),
        e.cursor <= e.buffer@.len(),
        crate::text::byte_offset(e.buffer@, e.cursor as int) == e.cursor,
        utf8_len(e.buffer@) <= usize::MAX,
        key_effect(e, ctrl_key('k'), e1, r1),
        key_effect(e1, ctrl_key('y'), e2, r2),
    ensures
        e2.buffer@ == e.buffer@,
        e2.cursor == utf8_len(e.buffer@),
{
    let s = e.buffer@;
    let c = e.cursor as int;
    crate::text::lemma_byte_offset_end(s);
    if c == s.len() {
        assert(false);
    }
    assert(s.skip(c).len() > 0);
    assert(ctrl_effect(e, 'k', e1));
    assert(killed(e, e1, s.take(c), c, s.skip(c)));
    assert(e1.ring_view()[0] == s.skip(c));
    assert(e1.ring_view().len() == e1.kill_ring@.len());
    assert(e1.yank_pos is None);
    assert(e1.cursor == c);
    assert(ctrl_effect(e1, 'y', e2));
    crate::edit::lemma_insert_at_single_byte_end(s, c, s.skip(c));
    assert(s.take(c) + s.skip(c) =~= s);
    crate::text::lemma_utf8_len_concat(s.take(c), s.skip(c));
}

/// Moving up into the history from a draft and back down again gives back
/// the draft, with the cursor at its end, when the newest entry is a single
/// line and the cursor starts on the first line.
pub proof fn law_history_round_trip(
    e: InputEditor,
    e1: InputEditor,
    r1: Option<String>,
    e2: InputEditor,
    r2: Option<String>,
)
    requires
        e.history_pos is None,
        e.history@.len() > 0,
        !e.history@.last()@.contains('\n'),
        line_col(e.buffer@.take(chars_before(e.buffer@, e.cursor as int))).0 == 0,
        key_effect(e, ctrl_key('p'), e1, r1),
        key_effect(e1, ctrl_key('n'), e2, r2),
    ensures
        e2.buffer@ == e.buffer@,
        e2.cursor == utf8_len(e.buffer@),
        e2.history_pos is None,
        e2.draft is None,
        e2.history == e.history,
{
    let n = e.history@.len();
    let s1 = e.history@[n - 1]@;
    assert(ctrl_effect(e, 'p', e1));
    assert(cursor_up_effect(e, e1));
    assert(history_up_effect(e, e1));
    assert(e.history.len() == n);
    assert(e1.buffer@ == s1);
    lemma_single_line(s1);
    assert(s1.take(0) =~= Seq::<char>::empty());
}

/// Killing to the end of the line with Ctrl-K, moving to the end with End
/// and yanking with Ctrl-Y gives back the text when the text before the
/// cursor is single-byte characters; the cursor ends at the end of the text.
pub proof fn law_kill_end_move_end_then_yank(
    e: InputEditor,
    e1: InputEditor,
    r1: Option<String>,
    e2: InputEditor,
    r2: Option<String>,
    e3: InputEditor,
    r3: Option<String>,
)
    requires
        e.cursor < utf8_len(e.buffer@),
        e.cursor <= e.buffer@.len(),
        crate::text::byte_offset(e.buffer@, e.cursor as int) == e.cursor,
        utf8_len(e.buffer@) <= usize::MAX,
        key_effect(e, ctrl_key('k'), e1, r1),
        key_effect(e1, plain_key(KeyCode::End), e2, r2),
        key_effect(e2, ctrl_key('y'), e3, r3),
    ensures
        e3.buffer@ == e.buffer@,
        e3.cursor == utf8_len(e.buffer@),
{
    let s = e.buffer@;
    let c = e.cursor as int;
    assert(ctrl_effect(e, 'k', e1));
    assert(e1.buffer@ == s.take(c));
    assert(e1.cursor == c);
    assert(e1.yank_pos is None);
    assert(moved_to(e1, e2, utf8_len(e1.buffer@) as int));
    assert(e2 == e1);
    law_kill_to_end_then_yank(e, e1, r1, e3, r3);
}

/// Every character is ASCII (one byte in UTF-8).
pub open spec fn all_ascii(s: Seq<char>) -> bool {
    forall|i: int| 0 <= i < s.len() ==> (#[trigger] s[i] as u32) < 0x80
}

/// In ASCII text a character index is its byte offset.
proof fn lemma_ascii_offsets(s: Seq<char>, k: int)
    requires
        all_ascii(s),
        0 <= k <= s.len(),
    ensures
        crate::text::byte_offset(s, k) == k,
    decreases k,
{
    if k > 0 {
        lemma_ascii_offsets(s, k - 1);
        assert(s.take(k).drop_last() =~= s.take(k - 1));
        assert(s.take(k).last() == s[k - 1]);
    }
}

/// In ASCII text every byte offset up to the end is a boundary, and the
/// boundaries before and after a cursor are one byte away.
proof fn lemma_ascii_boundaries(s: Seq<char>, c: int)
    requires
        all_ascii(s),
        0 <= c <= s.len(),
    ensures
        utf8_len(s) == s.len(),
        c > 0 ==> prev_boundary(s, c) == c - 1,
        c < s.len() ==> next_boundary(s, c) == c + 1,
{
    lemma_ascii_offsets(s, s.len() as int);
    assert(s.take(s.len() as int) =~= s);
    if c > 0 {
        lemma_ascii_offsets(s, c - 1);
        lemma_ascii_offsets(s, c);
        crate::text::lemma_floor_index_unique(s, c - 1, c - 1);
    }
    if c < s.len() {
        lemma_ascii_offsets(s, c + 1);
        if c + 1 < s.len() {
            lemma_ascii_offsets(s, c + 2);
        }
        crate::text::lemma_floor_index_unique(s, c + 1, c + 1);
    }
}

/// The character key `ch` with Alt held.
pub open spec fn alt_key(ch: char) -> KeyEvent {
    KeyEvent {
        code: KeyCode::Char(ch),
        modifiers: KeyModifiers { shift: false, control: false, alt: true },
    }
}

/// The keys that move the cursor.
pub open spec fn motion_key(key: KeyEvent) -> bool {
    ||| key == plain_key(KeyCode::Home)
    ||| key == plain_key(KeyCode::End)
    ||| key == plain_key(KeyCode::Left)
    ||| key == plain_key(KeyCode::Right)
    ||| key == ctrl_key('b')
    ||| key == ctrl_key('f')
    ||| key == ctrl_key('a')
    ||| key == ctrl_key('e')
    ||| key == alt_key('b')
    ||| key == alt_key('f')
}

/// One character back, staying at the start.
pub open spec fn one_back(c: int) -> int {
    if c > 0 {
        c - 1
    } else {
        0
    }
}

/// One character forward, staying at the end `l`.
pub open spec fn one_forward(c: int, l: int) -> int {
    if c < l {
        c + 1
    } else {
        l
    }
}

/// On ASCII text the motion keys move only the cursor and submit nothing:
/// Home to the start, End to the end, Left and Ctrl-B one character back
/// (staying at the start), Right and Ctrl-F one forward (staying at the
/// end); Ctrl-A, Ctrl-E, Alt-B and Alt-F also change nothing but the
/// cursor.
pub proof fn law_ascii_motions(e: InputEditor, key: KeyEvent, e2: InputEditor, r: Option<String>)
    requires
        all_ascii(e.buffer@),
        e.cursor <= e.buffer@.len(),
        e.buffer@.len() <= usize::MAX,
        motion_key(key),
        key_effect(e, key, e2, r),
    ensures
        r is None,
        e2 == (InputEditor { cursor: e2.cursor, yank_pos: None, ..e }),
        key == plain_key(KeyCode::Home) ==> e2.cursor == 0,
        key == plain_key(KeyCode::End) ==> e2.cursor == e.buffer@.len(),
        key == plain_key(KeyCode::Left) || key == ctrl_key('b') ==> e2.cursor == one_back(
            e.cursor as int,
        ),
        key == plain_key(KeyCode::Right) || key == ctrl_key('f') ==> e2.cursor == one_forward(
            e.cursor as int,
            e.buffer@.len() as int,
        ),
{
    lemma_ascii_boundaries(e.buffer@, e.cursor as int);
}

/// Whether `t` can be inserted at cursor `c` of the text `v` whose UTF-8
/// length is `l` (see `can_insert`).
fn insert_allowed(v: &[char], c: usize, tlen: usize) -> (b: bool)
    ensures
        b == (is_boundary(v@, c as int) && c + tlen <= usize::MAX),
{
    crate::color::boundary_at(v, c) && tlen <= usize::MAX - c
}

impl InputEditor {
    /// Whether pasting `data` is defined: the cursor is on a character
    /// boundary and the new cursor fits.
    pub fn can_paste(&self, data: &str) -> (b: bool)
        ensures
            b == (is_boundary(self.buffer@, self.cursor as int) && self.cursor + utf8_len(data@)
                <= usize::MAX),
    {
        let v = chars_of(self.buffer.as_str());
        insert_allowed(v.as_slice(), self.cursor, byte_len(data))
    }

    /// Whether the picker is attached and shown.
    fn picker_is_shown(&self) -> (b: bool)
        ensures
            b == picker_shown(*self),
    {
        match &self.picker {
            Some(p) => p.active(),
            None => false,
        }
    }

    /// Whether deleting the character before the cursor is defined.
    fn backspace_allowed(&self, l: usize) -> (b: bool)
        requires
            l == utf8_len(self.buffer@),
        ensures
            b == can_backspace(*self),
    {
        if self.cursor > 0 {
            crate::cursor::prev_char_boundary(self.buffer.as_str(), self.cursor) < l
        } else {
            true
        }
    }

    /// Whether the editor can take `key` without failing (see `key_ok`).
    pub fn key_allowed(&self, key: KeyEvent) -> (b: bool)
        ensures
            b == key_ok(*self, key),
    {
        let hp_ok = match self.history_pos {
            Some(p) => p < self.history.len(),
            None => true,
        };
        let yp_ok = match self.yank_pos {
            Some(p) => p < self.kill_ring.len(),
            None => true,
        };
        if !(hp_ok && yp_ok && self.kill_ring.len() <= MAX_KILL_RING) {
            return false;
        }
        let l = byte_len(self.buffer.as_str());
        if l == usize::MAX {
            return false;
        }
        let v = chars_of(self.buffer.as_str());
        let c = self.cursor;
        let ctrl = key.modifiers.control;
        let alt = key.modifiers.alt;
        match key.code {
            KeyCode::Char(ch) => {
                if ctrl && is_ctrl_command(ch) {
                    if ch == 'w' {
                        return !(c != 0 && v.len() != 0) || c <= v.len();
                    } else if ch == 'd' {
                        return !(c < l) || crate::color::boundary_at(v.as_slice(), c);
                    } else if ch == 'y' {
                        if self.kill_ring.len() == 0 {
                            return true;
                        }
                        let pos = match self.yank_pos {
                            Some(p) => p,
                            None => 0,
                        };
                        let t = &self.kill_ring[pos];
                        return insert_allowed(v.as_slice(), c, byte_len(t.as_str()));
                    } else {
                        return true;
                    }
                }
                if alt && is_alt_command(ch) {
                    if ch != 'y' {
                        return true;
                    }
                    match self.yank_pos {
                        None => return true,
                        Some(pos) => {
                            if self.kill_ring.len() <= 1 {
                                return true;
                            }
                            let start = if c >= self.yank_len {
                                c - self.yank_len
                            } else {
                                0
                            };
                            let np = crate::filter::prev_index(pos, self.kill_ring.len());
                            let mut base = crate::edit::slice_take(v.as_slice(), start);
                            let tail = crate::edit::slice_skip(v.as_slice(), c);
                            let mut i: usize = 0;
                            let ghost b0 = base@;
                            while i < tail.len()
                                invariant
                                    i <= tail@.len(),
                                    base@ == b0 + tail@.take(i as int),
                                decreases tail@.len() - i,
                            {
                                base.push(tail[i]);
                                assert(tail@.take(i + 1) =~= tail@.take(i as int).push(tail@[i as int]));
                                i = i + 1;
                            }
                            assert(tail@.take(tail@.len() as int) =~= tail@);
                            assert(base@ =~= alt_y_base(self.buffer@, yank_start(*self), c as int));
                            let tl = byte_len(self.kill_ring[np].as_str());
                            return crate::color::boundary_at(base.as_slice(), start) && tl
                                <= usize::MAX - start;
                        },
                    }
                }
                if ch == '\x08' || (ch == 'h' && ctrl) {
                    self.backspace_allowed(l)
                } else {
                    proof {
                        reveal_with_fuel(utf8_len, 2);
                        assert(seq![ch].drop_last() =~= Seq::<char>::empty());
                        assert(seq![ch].last() == ch);
                        assert(utf8_len(seq![ch]) == crate::text::utf8_width(ch));
                    }
                    let w = crate::text::char_utf8_len(ch);
                    let r = insert_allowed(v.as_slice(), c, w);
                    assert(r == can_insert(*self, seq![ch]));
                    assert(r == plain_ok(*self, key));
                    r
                }
            },
            KeyCode::Enter => {
                if (key.modifiers.shift || alt) && !self.picker_is_shown() {
                    proof {
                        reveal_with_fuel(utf8_len, 2);
                        assert(seq!['\n'].drop_last() =~= Seq::<char>::empty());
                    }
                    insert_allowed(v.as_slice(), c, 1)
                } else {
                    true
                }
            },
            KeyCode::Backspace => self.backspace_allowed(l),
            KeyCode::Delete => !(c < l) || crate::color::boundary_at(v.as_slice(), c),
            KeyCode::Tab => {
                proof {
                    reveal_with_fuel(utf8_len, 3);
                    assert(seq![' ', ' '].drop_last() =~= seq![' ']);
                    assert(seq![' '].drop_last() =~= Seq::<char>::empty());
                }
                insert_allowed(v.as_slice(), c, 2)
            },
            _ => true,
        }
    }
}

/// The facts the key checks read of a picker whose matches are `Strings`.
fn facts_of_strings(query: &String, cursor: usize, matches: &Vec<String>, selected: usize, Ghost(st): Ghost<ListState>) -> (f: ListFacts)
    requires
        st.query == query@,
        st.cursor == cursor,
        st.matches == crate::filter::views(matches@),
        st.selected == selected,
    ensures
        facts_of(st, f),
{
    let qlen = chars_of(query.as_str()).len();
    let sel_bytes = if selected < matches.len() {
        byte_len(matches[selected].as_str())
    } else {
        0
    };
    ListFacts { qlen, cursor, nmatch: matches.len(), selected, sel_bytes }
}

impl InputEditor {
    /// Whether the attached picker can take `key` without failing (see
    /// `picker_key_ok`).
    pub fn picker_key_allowed(&self, key: KeyEvent) -> (b: bool)
        ensures
            b == picker_key_ok(*self, key),
    {
        let s = self.buffer.as_str();
        let c = self.cursor;
        match &self.picker {
            Some(Picker::File(p)) => {
                let f = facts_of_strings(&p.query, p.cursor, &p.matches, p.selected, Ghost(p.state()));
                file_key_allowed(s, c, &f, Ghost(p.state()), key)
            },
            Some(Picker::Command(p)) => {
                let qlen = chars_of(p.query.as_str()).len();
                let sel_bytes = if p.selected < p.matches.len() {
                    byte_len(p.matches[p.selected])
                } else {
                    0
                };
                let f = ListFacts {
                    qlen,
                    cursor: p.cursor,
                    nmatch: p.matches.len(),
                    selected: p.selected,
                    sel_bytes,
                };
                command_key_allowed(s, c, &f, Ghost(p.state()), key)
            },
            Some(Picker::Models(p)) => {
                let f = facts_of_strings(&p.query, p.cursor, &p.matches, p.selected, Ghost(p.state()));
                arg_key_allowed(s, c, &f, Ghost(p.state()), 8, key)
            },
            Some(Picker::Theme(p)) => {
                let f = facts_of_strings(&p.query, p.cursor, &p.matches, p.selected, Ghost(p.state()));
                arg_key_allowed(s, c, &f, Ghost(p.state()), 7, key)
            },
            Some(Picker::Prompt(p)) => {
                let f = facts_of_strings(&p.query, p.cursor, &p.matches, p.selected, Ghost(p.state()));
                arg_key_allowed(s, c, &f, Ghost(p.state()), 8, key)
            },
            None => true,
        }
    }
}

} // verus!
