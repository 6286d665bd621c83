//! Keys pressed while a picker is shown: they edit the picker's query and
//! the part of the input line that mirrors it, move the selection, and on
//! Enter put the selected item into the input line.
//!
//! The input line and its cursor are edited as the pickers always did: some
//! positions are byte offsets and some are character counts, which agree on
//! ASCII text.
use vstd::prelude::*;

use crate::cursor::{prev_boundary, prev_char_boundary};
use crate::edit::{
    chars_eq, first_index, first_index_of, insert_at, last_index, last_index_of,
    lemma_first_index, lemma_last_index, min_int, remove_at, skip_chars, splice_chars,
    string_insert, string_remove, take_chars,
};
use crate::editor::{KeyCode, KeyEvent};
use crate::filter::{filtered, views};
use crate::picker::{
    command_names, file_erased_state, file_typed_state, erased_state, hidden_state, next_state,
    prev_state, typed_state, CommandPicker, FilePicker, ListState, ModelsPicker, Picker,
    PromptPicker, ThemePicker,
};
use crate::text::{
    byte_len, byte_offset, char_utf8_len, chars_of, is_boundary, string_of, utf8_len, utf8_width,
};

verus! {

/// The key deletes like Backspace: Ctrl-H or the backspace control character.
pub open spec fn is_erase_char(key: KeyEvent) -> bool {
    key.code matches KeyCode::Char(ch) && (ch == '\x08' || (ch == 'h' && key.modifiers.control))
}

/// The keys a shown picker takes: characters, Backspace, Tab, Up, Down,
/// Enter and Esc.
pub open spec fn picker_handles(key: KeyEvent) -> bool {
    match key.code {
        KeyCode::Char(_) => true,
        KeyCode::Backspace => true,
        KeyCode::Tab => true,
        KeyCode::Up => true,
        KeyCode::Down => true,
        KeyCode::Enter => true,
        KeyCode::Esc => true,
        _ => false,
    }
}

/// What a key does to a list picker over `items` (the command, prompt,
/// models and theme pickers): characters edit the query, Tab, Up and Down
/// move the selection, and Backspace on an empty query, Enter and Esc hide
/// the picker.
pub open spec fn list_key_state(st: ListState, items: Seq<Seq<char>>, key: KeyEvent) -> ListState {
    match key.code {
        KeyCode::Char(ch) => if is_erase_char(key) {
            if st.cursor > 0 {
                erased_state(st, items)
            } else {
                hidden_state(st)
            }
        } else {
            typed_state(st, items, ch)
        },
        KeyCode::Backspace => if st.cursor > 0 {
            erased_state(st, items)
        } else {
            hidden_state(st)
        },
        KeyCode::Tab => if key.modifiers.shift {
            prev_state(st)
        } else {
            next_state(st)
        },
        KeyCode::Up => prev_state(st),
        KeyCode::Down => next_state(st),
        KeyCode::Enter => hidden_state(st),
        KeyCode::Esc => hidden_state(st),
        _ => st,
    }
}

/// What a key does to the file picker, whose matches are recomputed only
/// when no scan is loading.
pub open spec fn file_key_state(
    st: ListState,
    cache: Seq<Seq<char>>,
    loading: bool,
    key: KeyEvent,
) -> ListState {
    match key.code {
        KeyCode::Char(ch) => if is_erase_char(key) {
            if st.cursor > 0 {
                file_erased_state(st, cache, loading)
            } else {
                hidden_state(st)
            }
        } else {
            file_typed_state(st, cache, loading, ch)
        },
        KeyCode::Backspace => if st.cursor > 0 {
            file_erased_state(st, cache, loading)
        } else {
            hidden_state(st)
        },
        KeyCode::Tab => if key.modifiers.shift {
            prev_state(st)
        } else {
            next_state(st)
        },
        KeyCode::Up => prev_state(st),
        KeyCode::Down => next_state(st),
        KeyCode::Enter => hidden_state(st),
        KeyCode::Esc => hidden_state(st),
        _ => st,
    }
}

/// Text and cursor after deleting the character before the cursor.
pub open spec fn erase_before(s: Seq<char>, c: int) -> (Seq<char>, int) {
    let p = prev_boundary(s, c);
    (remove_at(s, p), p)
}

/// Text and cursor after removing the last `@` together with the `n`
/// characters after it; the cursor goes to the byte offset of the `@`.
/// Without an `@` nothing changes.
pub open spec fn drop_mention(s: Seq<char>, c: int, n: int) -> (Seq<char>, int) {
    let k = last_index(s, '@');
    if k >= 0 {
        let at = byte_offset(s, k) as int;
        (take_chars(s, at) + skip_chars(s, at + 1 + n), at)
    } else {
        (s, c)
    }
}

/// Text and cursor after replacing the last `@` and the `n` characters
/// after it by `path`; the cursor goes after the path. Without an `@`
/// nothing changes.
pub open spec fn fill_mention(s: Seq<char>, c: int, n: int, path: Seq<char>) -> (Seq<char>, int) {
    let k = last_index(s, '@');
    if k >= 0 {
        let at = byte_offset(s, k) as int;
        let before = take_chars(s, at);
        (before + path + skip_chars(s, at + 1 + n), (utf8_len(before) + utf8_len(path)) as int)
    } else {
        (s, c)
    }
}

/// What a key does to the input text and cursor while the file picker `st`
/// is shown. Characters are inserted at the cursor; deleting past the start
/// of the query removes the `@`; Enter puts the selected path in place of
/// the `@` and the query; Esc removes both.
pub open spec fn file_key_text(s: Seq<char>, c: int, st: ListState, key: KeyEvent) -> (
    Seq<char>,
    int,
) {
    let qlen = utf8_len(st.query) as int;
    match key.code {
        KeyCode::Char(ch) => if is_erase_char(key) {
            if st.cursor > 0 {
                erase_before(s, c)
            } else {
                drop_mention(s, c, 0)
            }
        } else {
            (insert_at(s, c, seq![ch]), c + utf8_width(ch))
        },
        KeyCode::Backspace => if st.cursor > 0 {
            erase_before(s, c)
        } else {
            drop_mention(s, c, 0)
        },
        KeyCode::Enter => if st.selected < st.matches.len() {
            fill_mention(s, c, qlen, st.matches[st.selected])
        } else {
            (s, c)
        },
        KeyCode::Esc => drop_mention(s, c, qlen),
        _ => (s, c),
    }
}

/// The query cursor after deleting the query character before it.
pub open spec fn erased_cursor(st: ListState) -> int {
    if st.query.len() > 0 {
        st.cursor - 1
    } else {
        st.cursor
    }
}

/// Text and cursor after deleting the character at byte offset `p`, if it
/// lies within the text; the cursor moves to the boundary before it in the
/// new text.
pub open spec fn erase_in_query(s: Seq<char>, c: int, p: int) -> (Seq<char>, int) {
    let s2 = if p < utf8_len(s) {
        remove_at(s, p)
    } else {
        s
    };
    (s2, prev_boundary(s2, c))
}

/// Text and cursor after removing the `qlen` characters that follow the
/// first `plen` characters; the cursor goes to `plen`. Nothing changes when
/// the text has fewer than `plen + qlen` bytes.
pub open spec fn cut_argument(s: Seq<char>, c: int, plen: int, qlen: int) -> (Seq<char>, int) {
    if utf8_len(s) >= plen + qlen {
        (take_chars(s, plen) + skip_chars(s, plen + qlen), plen)
    } else {
        (s, c)
    }
}

/// What a key does to the input text and cursor while a picker over the
/// argument of a command is shown, the command with its space taking `plen`
/// bytes. Characters go into the argument; deleting past its start removes
/// it; Enter puts the selected name in its place; Esc removes it.
pub open spec fn arg_key_text(s: Seq<char>, c: int, st: ListState, plen: int, key: KeyEvent) -> (
    Seq<char>,
    int,
) {
    let qlen = utf8_len(st.query) as int;
    match key.code {
        KeyCode::Char(ch) => if is_erase_char(key) {
            if st.cursor > 0 {
                erase_before(s, c)
            } else {
                cut_argument(s, c, plen, qlen)
            }
        } else {
            (insert_at(s, plen + st.cursor, seq![ch]), c + utf8_width(ch))
        },
        KeyCode::Backspace => if st.cursor > 0 {
            erase_in_query(s, c, plen + erased_cursor(st))
        } else {
            cut_argument(s, c, plen, qlen)
        },
        KeyCode::Enter => if st.selected < st.matches.len() {
            let name = st.matches[st.selected];
            (take_chars(s, plen) + name + skip_chars(s, plen + qlen), plen + utf8_len(name))
        } else {
            (s, c)
        },
        KeyCode::Esc => cut_argument(s, c, plen, qlen),
        _ => (s, c),
    }
}

/// A picker over the argument of a command of `plen` bytes handles `key`
/// without failing.
pub open spec fn arg_key_ok(s: Seq<char>, c: int, st: ListState, plen: int, key: KeyEvent) -> bool {
    match key.code {
        KeyCode::Char(ch) => if is_erase_char(key) {
            erase_ok(s, c, st)
        } else {
            &&& is_boundary(s, plen + st.cursor)
            &&& c + utf8_width(ch) <= usize::MAX
            &&& st.cursor < usize::MAX
        },
        KeyCode::Backspace => st.cursor > 0 ==> {
            &&& st.query.len() > 0 ==> st.cursor - 1 < st.query.len()
            &&& plen + erased_cursor(st) < utf8_len(s) ==> is_boundary(s, plen + erased_cursor(st))
        },
        KeyCode::Tab => key.modifiers.shift || select_ok(st),
        KeyCode::Down => select_ok(st),
        KeyCode::Enter => st.selected < st.matches.len() ==> plen + utf8_len(st.matches[st.selected])
            <= usize::MAX,
        _ => true,
    }
}

/// Byte offset of the first `/` of the text, or 0.
pub open spec fn slash_pos(s: Seq<char>) -> int {
    let k = first_index(s, '/');
    if k >= 0 {
        byte_offset(s, k) as int
    } else {
        0
    }
}

/// Text and cursor after removing the query that follows a leading `/`;
/// the cursor goes after the `/`. Without a leading `/` nothing changes.
pub open spec fn reopen_slash(s: Seq<char>, c: int, qlen: int) -> (Seq<char>, int) {
    if s.len() > 0 && s[0] == '/' {
        (seq!['/'] + skip_chars(s, 1 + qlen), 1)
    } else {
        (s, c)
    }
}

/// The text and cursor after choosing the command `sel`: it replaces the
/// `/` and the query; a space follows it unless the rest of the line goes
/// on without one, and the cursor goes one past the command.
pub open spec fn chosen_command(s: Seq<char>, qlen: int, sel: Seq<char>) -> (Seq<char>, int) {
    let sp = slash_pos(s);
    let before = take_chars(s, sp);
    let after = skip_chars(s, sp + 1 + qlen);
    let ins = if after.len() == 0 || after[0] == ' ' {
        sel.push(' ')
    } else {
        sel + after
    };
    (before + ins, (utf8_len(before) + utf8_len(sel) + 1) as int)
}

/// What a key does to the input text and cursor while the command picker
/// is shown. Characters go into the command after the `/`; deleting past
/// the start of the query leaves the `/` alone; Enter puts the selected
/// command in place of the `/` and the query; Esc keeps only the `/`.
pub open spec fn command_key_text(s: Seq<char>, c: int, st: ListState, key: KeyEvent) -> (
    Seq<char>,
    int,
) {
    let qlen = utf8_len(st.query) as int;
    match key.code {
        KeyCode::Char(ch) => if is_erase_char(key) {
            if st.cursor > 0 {
                erase_before(s, c)
            } else {
                reopen_slash(s, c, qlen)
            }
        } else {
            (insert_at(s, 1 + st.cursor, seq![ch]), c + utf8_width(ch))
        },
        KeyCode::Backspace => if st.cursor > 0 {
            erase_in_query(s, c, 1 + erased_cursor(st))
        } else {
            reopen_slash(s, c, qlen)
        },
        KeyCode::Enter => if st.selected < st.matches.len() {
            chosen_command(s, qlen, st.matches[st.selected])
        } else {
            (s, c)
        },
        KeyCode::Esc => {
            let sp = slash_pos(s);
            (take_chars(s, sp) + seq!['/'] + skip_chars(s, sp + 1 + qlen), sp + 1)
        },
        _ => (s, c),
    }
}

/// The command picker handles `key` without failing.
pub open spec fn command_key_ok(s: Seq<char>, c: int, st: ListState, key: KeyEvent) -> bool {
    match key.code {
        KeyCode::Char(ch) => if is_erase_char(key) {
            erase_ok(s, c, st)
        } else {
            &&& is_boundary(s, 1 + st.cursor)
            &&& c + utf8_width(ch) <= usize::MAX
            &&& st.cursor < usize::MAX
        },
        KeyCode::Backspace => st.cursor > 0 ==> {
            &&& st.query.len() > 0 ==> st.cursor - 1 < st.query.len()
            &&& 1 + erased_cursor(st) <= utf8_len(s) ==> 1 + erased_cursor(st) < utf8_len(s)
                && is_boundary(s, 1 + erased_cursor(st))
        },
        KeyCode::Tab => key.modifiers.shift || select_ok(st),
        KeyCode::Down => select_ok(st),
        KeyCode::Enter => st.selected < st.matches.len() ==> utf8_len(take_chars(s, slash_pos(s)))
            + utf8_len(st.matches[st.selected]) + 1 <= usize::MAX,
        _ => true,
    }
}

/// `p` is a freshly shown prompt picker over `names`.
pub open spec fn opened_prompt_picker(p: Option<Picker>, names: Seq<Seq<char>>) -> bool {
    &&& p matches Some(Picker::Prompt(pp))
    &&& pp.state() == ListState {
        active: true,
        query: Seq::empty(),
        cursor: 0,
        matches: filtered(names, Seq::empty()),
        selected: 0,
    }
    &&& pp.items_view() == names
    &&& !pp.monochrome
}

/// `p` is a freshly shown models picker over `names`.
pub open spec fn opened_models_picker(p: Option<Picker>, names: Seq<Seq<char>>) -> bool {
    &&& p matches Some(Picker::Models(pp))
    &&& pp.state() == ListState {
        active: true,
        query: Seq::empty(),
        cursor: 0,
        matches: filtered(names, Seq::empty()),
        selected: 0,
    }
    &&& pp.items_view() == names
    &&& !pp.monochrome
}

/// `p` is a freshly shown theme picker over `names`.
pub open spec fn opened_theme_picker(p: Option<Picker>, names: Seq<Seq<char>>) -> bool {
    &&& p matches Some(Picker::Theme(pp))
    &&& pp.state() == ListState {
        active: true,
        query: Seq::empty(),
        cursor: 0,
        matches: filtered(names, Seq::empty()),
        selected: 0,
    }
    &&& pp.items_view() == names
    &&& !pp.monochrome
}

/// Which picker replaces the command picker after `key`: choosing
/// `/prompt`, `/models` or `/theme` with Enter opens the picker over the
/// prompt names (1), quick model names (2) or theme names (3), when there
/// are any; otherwise none (0).
pub open spec fn follow_up_kind(
    st: ListState,
    key: KeyEvent,
    prompts: Seq<Seq<char>>,
    themes: Seq<Seq<char>>,
    models: Seq<Seq<char>>,
) -> int {
    if key.code == KeyCode::Enter && st.selected < st.matches.len() {
        let sel = st.matches[st.selected];
        if sel == "/prompt"@ && prompts.len() > 0 {
            1
        } else if sel == "/models"@ && models.len() > 0 {
            2
        } else if sel == "/theme"@ && themes.len() > 0 {
            3
        } else {
            0
        }
    } else {
        0
    }
}

/// `p` is the picker that replaces the command picker after `key` (see
/// `follow_up_kind`), or none.
pub open spec fn command_follow_up(
    p: Option<Picker>,
    st: ListState,
    key: KeyEvent,
    prompts: Seq<Seq<char>>,
    themes: Seq<Seq<char>>,
    models: Seq<Seq<char>>,
) -> bool {
    let kind = follow_up_kind(st, key, prompts, themes, models);
    if kind == 1 {
        opened_prompt_picker(p, prompts)
    } else if kind == 2 {
        opened_models_picker(p, models)
    } else if kind == 3 {
        opened_theme_picker(p, themes)
    } else {
        p is None
    }
}

/// Deleting a query character of the picker `st` and the character before
/// the cursor is defined.
pub open spec fn erase_ok(s: Seq<char>, c: int, st: ListState) -> bool {
    st.cursor > 0 ==> {
        &&& st.query.len() > 0 ==> st.cursor - 1 < st.query.len()
        &&& prev_boundary(s, c) < utf8_len(s)
    }
}

/// Moving the selection forward is defined.
pub open spec fn select_ok(st: ListState) -> bool {
    st.matches.len() > 0 ==> st.selected < usize::MAX
}

/// The file picker handles `key` without failing: the positions it edits at
/// are character boundaries and nothing overflows.
pub open spec fn file_key_ok(s: Seq<char>, c: int, st: ListState, key: KeyEvent) -> bool {
    match key.code {
        KeyCode::Char(ch) => if is_erase_char(key) {
            erase_ok(s, c, st)
        } else {
            &&& is_boundary(s, c)
            &&& c + utf8_width(ch) <= usize::MAX
            &&& st.cursor < usize::MAX
        },
        KeyCode::Backspace => erase_ok(s, c, st),
        KeyCode::Tab => key.modifiers.shift || select_ok(st),
        KeyCode::Down => select_ok(st),
        KeyCode::Enter => st.selected < st.matches.len() && last_index(s, '@') >= 0 ==> utf8_len(
            take_chars(s, byte_offset(s, last_index(s, '@')) as int),
        ) + utf8_len(st.matches[st.selected]) <= usize::MAX,
        _ => true,
    }
}

/// `skip_chars` past the end is the same however far past.
proof fn lemma_skip_saturated(s: Seq<char>, a: int, b: int)
    requires
        a == b || (a >= s.len() && b >= s.len()),
    ensures
        skip_chars(s, a) == skip_chars(s, b),
{
}

/// Deletes the character before the cursor and moves the cursor to where it
/// started.
fn erase_before_exec(buffer: &mut String, cursor: &mut usize)
    requires
        prev_boundary(old(buffer)@, *old(cursor) as int) < utf8_len(old(buffer)@),
    ensures
        (final(buffer)@, *final(cursor) as int) == erase_before(old(buffer)@, *old(cursor) as int),
{
    let p = prev_char_boundary(buffer.as_str(), *cursor);
    let s2 = string_remove(&*buffer, p);
    *buffer = s2;
    *cursor = p;
}

/// Inserts `ch` at byte offset `pos` and moves the cursor forward by its
/// width.
fn insert_typed(buffer: &mut String, cursor: &mut usize, pos: usize, ch: char)
    requires
        is_boundary(old(buffer)@, pos as int),
        *old(cursor) + utf8_width(ch) <= usize::MAX,
    ensures
        final(buffer)@ == insert_at(old(buffer)@, pos as int, seq![ch]),
        *final(cursor) == *old(cursor) + utf8_width(ch),
{
    let one = vec![ch];
    proof {
        assert(one@ =~= seq![ch]);
    }
    let s2 = string_insert(&*buffer, pos, one.as_slice());
    *buffer = s2;
    *cursor = *cursor + char_utf8_len(ch);
}

/// Removes the last `@` and the `n` characters after it.
fn drop_mention_exec(buffer: &mut String, cursor: &mut usize, n: usize)
    ensures
        (final(buffer)@, *final(cursor) as int) == drop_mention(
            old(buffer)@,
            *old(cursor) as int,
            n as int,
        ),
{
    let v = chars_of(buffer.as_str());
    let _len = byte_len(buffer.as_str());
    match last_index_of(v.as_slice(), '@') {
        Some(k) => {
            proof {
                lemma_last_index(v@, '@');
            }
            let at = crate::cursor::offset_of(v.as_slice(), k);
            let rest = at.saturating_add(1).saturating_add(n);
            let empty: Vec<char> = Vec::new();
            let s2 = splice_chars(v.as_slice(), at, empty.as_slice(), rest);
            proof {
                assert(v@.len() == v.len());
                lemma_skip_saturated(v@, rest as int, at + 1 + n);
                assert(take_chars(v@, at as int) + empty@ =~= take_chars(v@, at as int));
            }
            *buffer = s2;
            *cursor = at;
        },
        None => {},
    }
}

/// Replaces the last `@` and the `n` characters after it by `path`.
fn fill_mention_exec(buffer: &mut String, cursor: &mut usize, n: usize, path: &[char])
    requires
        last_index(old(buffer)@, '@') >= 0 ==> utf8_len(
            take_chars(old(buffer)@, byte_offset(old(buffer)@, last_index(old(buffer)@, '@')) as int),
        ) + utf8_len(path@) <= usize::MAX,
    ensures
        (final(buffer)@, *final(cursor) as int) == fill_mention(
            old(buffer)@,
            *old(cursor) as int,
            n as int,
            path@,
        ),
{
    let v = chars_of(buffer.as_str());
    let _len = byte_len(buffer.as_str());
    match last_index_of(v.as_slice(), '@') {
        Some(k) => {
            proof {
                lemma_last_index(v@, '@');
            }
            let at = crate::cursor::offset_of(v.as_slice(), k);
            let rest = at.saturating_add(1).saturating_add(n);
            let before = crate::text::string_of(crate::edit::slice_take(v.as_slice(), at).as_slice());
            let before_len = byte_len(before.as_str());
            let path_s = crate::text::string_of(path);
            let path_len = byte_len(path_s.as_str());
            let s2 = splice_chars(v.as_slice(), at, path, rest);
            proof {
                assert(v@.len() == v.len());
                lemma_skip_saturated(v@, rest as int, at + 1 + n);
            }
            *buffer = s2;
            *cursor = before_len + path_len;
        },
        None => {},
    }
}

/// Deletes the character at byte offset `p` if it lies within the text and
/// moves the cursor to the boundary before it in the new text.
fn erase_in_query_exec(buffer: &mut String, cursor: &mut usize, p: usize)
    requires
        p < utf8_len(old(buffer)@) ==> is_boundary(old(buffer)@, p as int),
    ensures
        (final(buffer)@, *final(cursor) as int) == erase_in_query(
            old(buffer)@,
            *old(cursor) as int,
            p as int,
        ),
{
    let len = byte_len(buffer.as_str());
    if p < len {
        let s2 = string_remove(&*buffer, p);
        *buffer = s2;
    }
    *cursor = prev_char_boundary(buffer.as_str(), *cursor);
}

/// Removes the `qlen` bytes of argument after the first `plen` characters,
/// when the text is long enough.
fn cut_argument_exec(buffer: &mut String, cursor: &mut usize, plen: usize, qlen: usize)
    ensures
        (final(buffer)@, *final(cursor) as int) == cut_argument(
            old(buffer)@,
            *old(cursor) as int,
            plen as int,
            qlen as int,
        ),
{
    let v = chars_of(buffer.as_str());
    let len = byte_len(buffer.as_str());
    if qlen <= len && plen <= len - qlen {
        let empty: Vec<char> = Vec::new();
        let s2 = splice_chars(v.as_slice(), plen, empty.as_slice(), plen + qlen);
        proof {
            assert(take_chars(v@, plen as int) + empty@ =~= take_chars(v@, plen as int));
        }
        *buffer = s2;
        *cursor = plen;
    }
}

/// Puts `name` in place of the `qlen` characters after the first `plen`.
fn fill_argument_exec(buffer: &mut String, cursor: &mut usize, plen: usize, qlen: usize, name: &[char])
    requires
        plen + utf8_len(name@) <= usize::MAX,
    ensures
        final(buffer)@ == take_chars(old(buffer)@, plen as int) + name@ + skip_chars(
            old(buffer)@,
            plen + qlen,
        ),
        *final(cursor) == plen + utf8_len(name@),
{
    let v = chars_of(buffer.as_str());
    let rest = plen.saturating_add(qlen);
    let s2 = splice_chars(v.as_slice(), plen, name, rest);
    proof {
        assert(v@.len() == v.len());
        lemma_skip_saturated(v@, rest as int, plen + qlen);
    }
    let ns = crate::text::string_of(name);
    *buffer = s2;
    *cursor = plen + byte_len(ns.as_str());
}

/// Keeps a leading `/` and drops the `qlen` characters after it.
fn reopen_slash_exec(buffer: &mut String, cursor: &mut usize, qlen: usize)
    ensures
        (final(buffer)@, *final(cursor) as int) == reopen_slash(
            old(buffer)@,
            *old(cursor) as int,
            qlen as int,
        ),
{
    let v = chars_of(buffer.as_str());
    if v.len() > 0 && v[0] == '/' {
        let slash = vec!['/'];
        let rest = qlen.saturating_add(1);
        let s2 = splice_chars(v.as_slice(), 0, slash.as_slice(), rest);
        proof {
            assert(v@.len() == v.len());
            lemma_skip_saturated(v@, rest as int, 1 + qlen);
            assert(take_chars(v@, 0) + slash@ =~= seq!['/']);
        }
        *buffer = s2;
        *cursor = 1;
    }
}

/// Byte offset of the first `/` of `v`, or 0.
fn slash_pos_of(v: &[char]) -> (r: usize)
    requires
        utf8_len(v@) <= usize::MAX,
    ensures
        r == slash_pos(v@),
        r < utf8_len(v@) || r == 0,
{
    match first_index_of(v, '/') {
        Some(k) => {
            proof {
                lemma_first_index(v@, '/');
                crate::text::lemma_byte_offset_strict(v@, k as int, v@.len() as int);
                crate::text::lemma_byte_offset_end(v@);
            }
            crate::cursor::offset_of(v, k)
        },
        None => 0,
    }
}

/// Puts the command `sel` in place of the `/` and the `qlen` characters
/// after it.
fn choose_command_exec(buffer: &mut String, cursor: &mut usize, qlen: usize, sel: &[char])
    requires
        utf8_len(take_chars(old(buffer)@, slash_pos(old(buffer)@))) + utf8_len(sel@) + 1
            <= usize::MAX,
    ensures
        (final(buffer)@, *final(cursor) as int) == chosen_command(old(buffer)@, qlen as int, sel@),
{
    let v = chars_of(buffer.as_str());
    let _len = byte_len(buffer.as_str());
    let sp = slash_pos_of(v.as_slice());
    let before = crate::edit::slice_take(v.as_slice(), sp);
    let rest = sp.saturating_add(1).saturating_add(qlen);
    let after = crate::edit::slice_skip(v.as_slice(), rest);
    proof {
        assert(v@.len() == v.len());
        lemma_skip_saturated(v@, rest as int, sp + 1 + qlen);
    }
    let mut out = crate::text::string_of(before.as_slice());
    let before_len = byte_len(out.as_str());
    crate::text::push_chars(&mut out, sel);
    if after.len() == 0 || after[0] == ' ' {
        out.push(' ');
    } else {
        crate::text::push_chars(&mut out, after.as_slice());
    }
    let ns = crate::text::string_of(sel);
    let sel_len = byte_len(ns.as_str());
    proof {
        assert(before@ + sel@ + after@ =~= before@ + (sel@ + after@));
        assert((before@ + sel@).push(' ') =~= before@ + sel@.push(' '));
    }
    *buffer = out;
    *cursor = before_len + sel_len + 1;
}

/// Keeps the text before the first `/` and after the `/` and the `qlen`
/// characters of query, with a `/` between them.
fn close_command_exec(buffer: &mut String, cursor: &mut usize, qlen: usize)
    ensures
        final(buffer)@ == take_chars(old(buffer)@, slash_pos(old(buffer)@)) + seq!['/']
            + skip_chars(old(buffer)@, slash_pos(old(buffer)@) + 1 + qlen),
        *final(cursor) == slash_pos(old(buffer)@) + 1,
{
    let v = chars_of(buffer.as_str());
    let _len = byte_len(buffer.as_str());
    let sp = slash_pos_of(v.as_slice());
    let rest = sp.saturating_add(1).saturating_add(qlen);
    let slash = vec!['/'];
    let s2 = splice_chars(v.as_slice(), sp, slash.as_slice(), rest);
    proof {
        assert(v@.len() == v.len());
        lemma_skip_saturated(v@, rest as int, sp + 1 + qlen);
        assert(slash@ =~= seq!['/']);
    }
    *buffer = s2;
    *cursor = sp + 1;
}

/// Handles `key` while the file picker is shown; returns whether the key
/// was taken.
pub(crate) fn handle_file_picker_key(
    buffer: &mut String,
    cursor: &mut usize,
    picker: &mut FilePicker,
    key: KeyEvent,
) -> (handled: bool)
    requires
        file_key_ok(old(buffer)@, *old(cursor) as int, old(picker).state(), key),
    ensures
        handled == picker_handles(key),
        final(picker).same_setup(old(picker)),
        final(picker).state() == file_key_state(
            old(picker).state(),
            old(picker).cache_view(),
            old(picker).loading,
            key,
        ),
        (final(buffer)@, *final(cursor) as int) == file_key_text(
            old(buffer)@,
            *old(cursor) as int,
            old(picker).state(),
            key,
        ),
{
    match key.code {
        KeyCode::Char(c) => {
            if c == '\x08' || (c == 'h' && key.modifiers.control) {
                if picker.cursor > 0 {
                    picker.backspace();
                    erase_before_exec(buffer, cursor);
                } else {
                    drop_mention_exec(buffer, cursor, 0);
                    picker.deactivate();
                }
            } else {
                picker.char_input(c);
                let pos = *cursor;
                insert_typed(buffer, cursor, pos, c);
            }
            true
        },
        KeyCode::Backspace => {
            if picker.cursor > 0 {
                picker.backspace();
                erase_before_exec(buffer, cursor);
            } else {
                drop_mention_exec(buffer, cursor, 0);
                picker.deactivate();
            }
            true
        },
        KeyCode::Tab => {
            if key.modifiers.shift {
                picker.select_prev();
            } else {
                picker.select_next();
            }
            true
        },
        KeyCode::Up => {
            picker.select_prev();
            true
        },
        KeyCode::Down => {
            picker.select_next();
            true
        },
        KeyCode::Enter => {
            let qlen = byte_len(picker.query.as_str());
            match picker.selected_path() {
                Some(path) => {
                    let path_chars = chars_of(path.as_str());
                    fill_mention_exec(buffer, cursor, qlen, path_chars.as_slice());
                },
                None => {},
            }
            picker.deactivate();
            true
        },
        KeyCode::Esc => {
            let qlen = byte_len(picker.query.as_str());
            drop_mention_exec(buffer, cursor, qlen);
            picker.deactivate();
            true
        },
        _ => false,
    }
}

/// Handles `key` while the models picker is shown (after `/models `, 8
/// bytes); returns whether the key was taken.
pub(crate) fn handle_models_picker_key(
    buffer: &mut String,
    cursor: &mut usize,
    picker: &mut ModelsPicker,
    key: KeyEvent,
) -> (handled: bool)
    requires
        arg_key_ok(old(buffer)@, *old(cursor) as int, old(picker).state(), 8, key),
    ensures
        handled == picker_handles(key),
        final(picker).same_setup(old(picker)),
        final(picker).state() == list_key_state(old(picker).state(), old(picker).items_view(), key),
        (final(buffer)@, *final(cursor) as int) == arg_key_text(
            old(buffer)@,
            *old(cursor) as int,
            old(picker).state(),
            8,
            key,
        ),
{
    let prefix_len: usize = 8;
    let _len = byte_len(buffer.as_str());
    match key.code {
        KeyCode::Char(c) => {
            if c == '\x08' || (c == 'h' && key.modifiers.control) {
                if picker.cursor > 0 {
                    picker.backspace();
                    erase_before_exec(buffer, cursor);
                } else {
                    let qlen = byte_len(picker.query.as_str());
                    cut_argument_exec(buffer, cursor, prefix_len, qlen);
                    picker.deactivate();
                }
            } else {
                proof {
                    crate::edit::lemma_boundary_index(buffer@, prefix_len + picker.cursor);
                }
                picker.char_input(c);
                let insert_pos = prefix_len + (picker.cursor - 1);
                insert_typed(buffer, cursor, insert_pos, c);
            }
            true
        },
        KeyCode::Backspace => {
            if picker.cursor > 0 {
                picker.backspace();
                let remove_pos = prefix_len.saturating_add(picker.cursor);
                erase_in_query_exec(buffer, cursor, remove_pos);
            } else {
                let qlen = byte_len(picker.query.as_str());
                cut_argument_exec(buffer, cursor, prefix_len, qlen);
                picker.deactivate();
            }
            true
        },
        KeyCode::Tab => {
            if key.modifiers.shift {
                picker.select_prev();
            } else {
                picker.select_next();
            }
            true
        },
        KeyCode::Up => {
            picker.select_prev();
            true
        },
        KeyCode::Down => {
            picker.select_next();
            true
        },
        KeyCode::Enter => {
            let qlen = byte_len(picker.query.as_str());
            match picker.selected_name() {
                Some(name) => {
                    let name_chars = chars_of(name);
                    fill_argument_exec(buffer, cursor, prefix_len, qlen, name_chars.as_slice());
                },
                None => {},
            }
            picker.deactivate();
            true
        },
        KeyCode::Esc => {
            let qlen = byte_len(picker.query.as_str());
            cut_argument_exec(buffer, cursor, prefix_len, qlen);
            picker.deactivate();
            true
        },
        _ => false,
    }
}

/// Handles `key` while the theme picker is shown (after `/theme `, 7
/// bytes); returns whether the key was taken.
pub(crate) fn handle_theme_picker_key(
    buffer: &mut String,
    cursor: &mut usize,
    picker: &mut ThemePicker,
    key: KeyEvent,
) -> (handled: bool)
    requires
        arg_key_ok(old(buffer)@, *old(cursor) as int, old(picker).state(), 7, key),
    ensures
        handled == picker_handles(key),
        final(picker).same_setup(old(picker)),
        final(picker).state() == list_key_state(old(picker).state(), old(picker).items_view(), key),
        (final(buffer)@, *final(cursor) as int) == arg_key_text(
            old(buffer)@,
            *old(cursor) as int,
            old(picker).state(),
            7,
            key,
        ),
{
    let prefix_len: usize = 7;
    let _len = byte_len(buffer.as_str());
    match key.code {
        KeyCode::Char(c) => {
            if c == '\x08' || (c == 'h' && key.modifiers.control) {
                if picker.cursor > 0 {
                    picker.backspace();
                    erase_before_exec(buffer, cursor);
                } else {
                    let qlen = byte_len(picker.query.as_str());
                    cut_argument_exec(buffer, cursor, prefix_len, qlen);
                    picker.deactivate();
                }
            } else {
                proof {
                    crate::edit::lemma_boundary_index(buffer@, prefix_len + picker.cursor);
                }
                picker.char_input(c);
                let insert_pos = prefix_len + (picker.cursor - 1);
                insert_typed(buffer, cursor, insert_pos, c);
            }
            true
        },
        KeyCode::Backspace => {
            if picker.cursor > 0 {
                picker.backspace();
                let remove_pos = prefix_len.saturating_add(picker.cursor);
                erase_in_query_exec(buffer, cursor, remove_pos);
            } else {
                let qlen = byte_len(picker.query.as_str());
                cut_argument_exec(buffer, cursor, prefix_len, qlen);
                picker.deactivate();
            }
            true
        },
        KeyCode::Tab => {
            if key.modifiers.shift {
                picker.select_prev();
            } else {
                picker.select_next();
            }
            true
        },
        KeyCode::Up => {
            picker.select_prev();
            true
        },
        KeyCode::Down => {
            picker.select_next();
            true
        },
        KeyCode::Enter => {
            let qlen = byte_len(picker.query.as_str());
            match picker.selected_name() {
                Some(name) => {
                    let name_chars = chars_of(name);
                    fill_argument_exec(buffer, cursor, prefix_len, qlen, name_chars.as_slice());
                },
                None => {},
            }
            picker.deactivate();
            true
        },
        KeyCode::Esc => {
            let qlen = byte_len(picker.query.as_str());
            cut_argument_exec(buffer, cursor, prefix_len, qlen);
            picker.deactivate();
            true
        },
        _ => false,
    }
}

/// Handles `key` while the prompt picker is shown (after `/prompt `, 8
/// bytes); returns whether the key was taken.
pub(crate) fn handle_prompt_picker_key(
    buffer: &mut String,
    cursor: &mut usize,
    picker: &mut PromptPicker,
    key: KeyEvent,
) -> (handled: bool)
    requires
        arg_key_ok(old(buffer)@, *old(cursor) as int, old(picker).state(), 8, key),
    ensures
        handled == picker_handles(key),
        final(picker).same_setup(old(picker)),
        final(picker).state() == list_key_state(old(picker).state(), old(picker).items_view(), key),
        (final(buffer)@, *final(cursor) as int) == arg_key_text(
            old(buffer)@,
            *old(cursor) as int,
            old(picker).state(),
            8,
            key,
        ),
{
    let prefix_len: usize = 8;
    let _len = byte_len(buffer.as_str());
    match key.code {
        KeyCode::Char(c) => {
            if c == '\x08' || (c == 'h' && key.modifiers.control) {
                if picker.cursor > 0 {
                    picker.backspace();
                    erase_before_exec(buffer, cursor);
                } else {
                    let qlen = byte_len(picker.query.as_str());
                    cut_argument_exec(buffer, cursor, prefix_len, qlen);
                    picker.deactivate();
                }
            } else {
                proof {
                    crate::edit::lemma_boundary_index(buffer@, prefix_len + picker.cursor);
                }
                picker.char_input(c);
                let insert_pos = prefix_len + (picker.cursor - 1);
                insert_typed(buffer, cursor, insert_pos, c);
            }
            true
        },
        KeyCode::Backspace => {
            if picker.cursor > 0 {
                picker.backspace();
                let remove_pos = prefix_len.saturating_add(picker.cursor);
                erase_in_query_exec(buffer, cursor, remove_pos);
            } else {
                let qlen = byte_len(picker.query.as_str());
                cut_argument_exec(buffer, cursor, prefix_len, qlen);
                picker.deactivate();
            }
            true
        },
        KeyCode::Tab => {
            if key.modifiers.shift {
                picker.select_prev();
            } else {
                picker.select_next();
            }
            true
        },
        KeyCode::Up => {
            picker.select_prev();
            true
        },
        KeyCode::Down => {
            picker.select_next();
            true
        },
        KeyCode::Enter => {
            let qlen = byte_len(picker.query.as_str());
            match picker.selected_name() {
                Some(name) => {
                    let name_chars = chars_of(name);
                    fill_argument_exec(buffer, cursor, prefix_len, qlen, name_chars.as_slice());
                },
                None => {},
            }
            picker.deactivate();
            true
        },
        KeyCode::Esc => {
            let qlen = byte_len(picker.query.as_str());
            cut_argument_exec(buffer, cursor, prefix_len, qlen);
            picker.deactivate();
            true
        },
        _ => false,
    }
}

/// Handles `key` while the command picker is shown; returns whether the key
/// was taken and the picker that replaces the command picker, if any.
pub(crate) fn handle_command_picker_key(
    buffer: &mut String,
    cursor: &mut usize,
    prompt_names: &Vec<String>,
    theme_names: &Vec<String>,
    quick_model_names: &Vec<String>,
    picker: &mut CommandPicker,
    key: KeyEvent,
) -> (r: (bool, Option<Picker>))
    requires
        command_key_ok(old(buffer)@, *old(cursor) as int, old(picker).state(), key),
    ensures
        r.0 == picker_handles(key),
        final(picker).same_setup(old(picker)),
        final(picker).state() == list_key_state(old(picker).state(), old(picker).items_view(), key),
        (final(buffer)@, *final(cursor) as int) == command_key_text(
            old(buffer)@,
            *old(cursor) as int,
            old(picker).state(),
            key,
        ),
        command_follow_up(
            r.1,
            old(picker).state(),
            key,
            views(prompt_names@),
            views(theme_names@),
            views(quick_model_names@),
        ),
{
    let _len = byte_len(buffer.as_str());
    match key.code {
        KeyCode::Char(c) => {
            if c == '\x08' || (c == 'h' && key.modifiers.control) {
                if picker.cursor > 0 {
                    picker.backspace();
                    erase_before_exec(buffer, cursor);
                } else {
                    let qlen = byte_len(picker.query.as_str());
                    reopen_slash_exec(buffer, cursor, qlen);
                    picker.deactivate();
                }
            } else {
                picker.char_input(c);
                let pos = 1 + (picker.cursor - 1);
                insert_typed(buffer, cursor, pos, c);
            }
            (true, None)
        },
        KeyCode::Backspace => {
            if picker.cursor > 0 {
                picker.backspace();
                let remove_pos = picker.cursor.saturating_add(1);
                erase_in_query_exec(buffer, cursor, remove_pos);
            } else {
                let qlen = byte_len(picker.query.as_str());
                reopen_slash_exec(buffer, cursor, qlen);
                picker.deactivate();
            }
            (true, None)
        },
        KeyCode::Tab => {
            if key.modifiers.shift {
                picker.select_prev();
            } else {
                picker.select_next();
            }
            (true, None)
        },
        KeyCode::Up => {
            picker.select_prev();
            (true, None)
        },
        KeyCode::Down => {
            picker.select_next();
            (true, None)
        },
        KeyCode::Enter => {
            let qlen = byte_len(picker.query.as_str());
            match picker.selected_command() {
                Some(cmd) => {
                    let selected = chars_of(cmd);
                    choose_command_exec(buffer, cursor, qlen, selected.as_slice());
                    picker.deactivate();
                    if chars_eq(selected.as_slice(), chars_of("/prompt").as_slice())
                        && prompt_names.len() > 0 {
                        let mut pp = PromptPicker::new();
                        pp.set_items(prompt_names.clone());
                        pp.activate();
                        proof {
                            assert(pp.query@ =~= Seq::<char>::empty());
                        }
                        return (true, Some(Picker::Prompt(pp)));
                    }
                    if chars_eq(selected.as_slice(), chars_of("/models").as_slice())
                        && quick_model_names.len() > 0 {
                        let mut mp = ModelsPicker::new();
                        mp.set_items(quick_model_names.clone());
                        mp.activate();
                        proof {
                            assert(mp.query@ =~= Seq::<char>::empty());
                        }
                        return (true, Some(Picker::Models(mp)));
                    }
                    if chars_eq(selected.as_slice(), chars_of("/theme").as_slice())
                        && theme_names.len() > 0 {
                        let mut tp = ThemePicker::new();
                        tp.set_items(theme_names.clone());
                        tp.activate();
                        proof {
                            assert(tp.query@ =~= Seq::<char>::empty());
                        }
                        return (true, Some(Picker::Theme(tp)));
                    }
                },
                None => {},
            }
            picker.deactivate();
            (true, None)
        },
        KeyCode::Esc => {
            let qlen = byte_len(picker.query.as_str());
            close_command_exec(buffer, cursor, qlen);
            picker.deactivate();
            (true, None)
        },
        _ => (false, None),
    }
}

/// A key press with no modifier held.
pub open spec fn bare_key(code: KeyCode) -> KeyEvent {
    KeyEvent {
        code,
        modifiers: crate::editor::KeyModifiers { shift: false, control: false, alt: false },
    }
}

/// Down and then Up in a shown list picker selects the match that was
/// selected, and Up then Down does too.
pub proof fn law_select_round_trip(st: ListState, items: Seq<Seq<char>>)
    requires
        0 <= st.selected < st.matches.len(),
    ensures
        list_key_state(list_key_state(st, items, bare_key(KeyCode::Down)), items, bare_key(KeyCode::Up))
            == st,
        list_key_state(list_key_state(st, items, bare_key(KeyCode::Up)), items, bare_key(KeyCode::Down))
            == st,
{
    crate::filter::law_next_prev_inverse(st.selected, st.matches.len() as int);
}

/// Typing a character into the query of a list picker and deleting it with
/// Backspace gives back the query and its cursor, with the matches of that
/// query.
pub proof fn law_query_type_then_erase(st: ListState, items: Seq<Seq<char>>, ch: char)
    requires
        0 <= st.cursor <= st.query.len(),
        ch != '\x08',
    ensures
        ({
            let st2 = list_key_state(
                list_key_state(st, items, bare_key(KeyCode::Char(ch))),
                items,
                bare_key(KeyCode::Backspace),
            );
            &&& st2.query == st.query
            &&& st2.cursor == st.cursor
            &&& st2.matches == filtered(items, st.query)
            &&& st2.selected == 0
            &&& st2.active == st.active
        }),
{
    crate::filter::law_insert_then_remove(st.query, st.cursor, ch);
}

/// Typing a character into the argument of a command while its picker is
/// shown and deleting it with Backspace gives back the input line.
pub proof fn law_argument_type_then_erase(
    s: Seq<char>,
    c: int,
    st: ListState,
    items: Seq<Seq<char>>,
    plen: int,
    ch: char,
)
    requires
        0 <= st.cursor <= st.query.len(),
        is_boundary(s, plen + st.cursor),
        ch != '\x08',
    ensures
        ({
            let k1 = bare_key(KeyCode::Char(ch));
            let t1 = arg_key_text(s, c, st, plen, k1);
            let st1 = list_key_state(st, items, k1);
            arg_key_text(t1.0, t1.1, st1, plen, bare_key(KeyCode::Backspace)).0 == s
        }),
{
    crate::filter::law_insert_then_remove(st.query, st.cursor, ch);
    crate::edit::lemma_insert_at(s, plen + st.cursor, seq![ch]);
    crate::edit::lemma_insert_char_then_remove(s, plen + st.cursor, ch);
    crate::edit::lemma_boundary_index(s, plen + st.cursor);
    crate::text::lemma_utf8_len_bounds(seq![ch]);
}

/// Typing a character while the file picker is shown and deleting it with
/// Backspace gives back the input line and the cursor.
pub proof fn law_mention_type_then_erase(
    s: Seq<char>,
    c: int,
    st: ListState,
    cache: Seq<Seq<char>>,
    loading: bool,
    ch: char,
)
    requires
        0 <= st.cursor <= st.query.len(),
        is_boundary(s, c),
        ch != '\x08',
    ensures
        ({
            let k1 = bare_key(KeyCode::Char(ch));
            let t1 = file_key_text(s, c, st, k1);
            let st1 = file_key_state(st, cache, loading, k1);
            file_key_text(t1.0, t1.1, st1, bare_key(KeyCode::Backspace)) == (s, c)
        }),
{
    crate::filter::law_insert_then_remove(st.query, st.cursor, ch);
    crate::edit::lemma_insert_char_then_remove(s, c, ch);
}

/// What the key checks read of a picker's state: the query's length, the
/// cursor, the number of matches, the selection and the UTF-8 length of
/// the selected match (0 when none is selected).
pub struct ListFacts {
    pub qlen: usize,
    pub cursor: usize,
    pub nmatch: usize,
    pub selected: usize,
    pub sel_bytes: usize,
}

/// `f` describes `st`.
pub open spec fn facts_of(st: ListState, f: ListFacts) -> bool {
    &&& f.qlen == st.query.len()
    &&& f.cursor == st.cursor
    &&& f.nmatch == st.matches.len()
    &&& f.selected == st.selected
    &&& st.selected < st.matches.len() ==> f.sel_bytes == utf8_len(st.matches[st.selected])
}

/// Whether `a + b` is a boundary of `v`, also when the sum is past
/// `usize::MAX`.
fn boundary_plus(v: &[char], a: usize, b: usize) -> (r: bool)
    requires
        utf8_len(v@) <= usize::MAX,
    ensures
        r == is_boundary(v@, a + b),
{
    if b > usize::MAX - a {
        proof {
            if is_boundary(v@, a + b) {
                let k = choose|k: int| 0 <= k <= v@.len() && #[trigger] byte_offset(v@, k) == a + b;
                crate::text::lemma_byte_offset_mono(v@, k, v@.len() as int);
                crate::text::lemma_byte_offset_end(v@);
            }
        }
        false
    } else {
        crate::color::boundary_at(v, a + b)
    }
}

/// Whether deleting a query character is defined (see `erase_ok`).
fn erase_allowed(s: &str, v: &[char], c: usize, f: &ListFacts, Ghost(st): Ghost<ListState>) -> (r: bool)
    requires
        facts_of(st, *f),
        v@ == s@,
    ensures
        r == erase_ok(s@, c as int, st),
{
    if f.cursor > 0 {
        let q_ok = !(f.qlen > 0) || f.cursor - 1 < f.qlen;
        q_ok && prev_char_boundary(s, c) < byte_len(s)
    } else {
        true
    }
}

/// Whether moving the selection forward is defined (see `select_ok`).
fn select_allowed(f: &ListFacts, Ghost(st): Ghost<ListState>) -> (r: bool)
    requires
        facts_of(st, *f),
    ensures
        r == select_ok(st),
{
    !(f.nmatch > 0) || f.selected < usize::MAX
}

/// Whether the file picker can take `key` (see `file_key_ok`).
pub(crate) fn file_key_allowed(s: &str, c: usize, f: &ListFacts, Ghost(st): Ghost<ListState>, key: KeyEvent) -> (r: bool)
    requires
        facts_of(st, *f),
    ensures
        r == file_key_ok(s@, c as int, st, key),
{
    let v = chars_of(s);
    match key.code {
        KeyCode::Char(ch) => {
            if ch == '\x08' || (ch == 'h' && key.modifiers.control) {
                erase_allowed(s, v.as_slice(), c, f, Ghost(st))
            } else {
                crate::color::boundary_at(v.as_slice(), c) && char_utf8_len(ch) <= usize::MAX - c
                    && f.cursor < usize::MAX
            }
        },
        KeyCode::Backspace => erase_allowed(s, v.as_slice(), c, f, Ghost(st)),
        KeyCode::Tab => key.modifiers.shift || select_allowed(f, Ghost(st)),
        KeyCode::Down => select_allowed(f, Ghost(st)),
        KeyCode::Enter => {
            if f.selected < f.nmatch {
                proof {
                    lemma_last_index(v@, '@');
                }
                match last_index_of(v.as_slice(), '@') {
                    Some(k) => {
                        let before = crate::edit::slice_take(v.as_slice(), k);
                        let off = byte_len(string_of(before.as_slice()).as_str());
                        assert(off == byte_offset(v@, k as int));
                        let kept = crate::edit::slice_take(v.as_slice(), off);
                        let a = byte_len(string_of(kept.as_slice()).as_str());
                        assert(a == utf8_len(take_chars(v@, off as int)));
                        a <= usize::MAX - f.sel_bytes
                    },
                    None => true,
                }
            } else {
                true
            }
        },
        _ => true,
    }
}

/// Whether an argument picker whose prefix is `plen` bytes long can take
/// `key` (see `arg_key_ok`).
pub(crate) fn arg_key_allowed(s: &str, c: usize, f: &ListFacts, Ghost(st): Ghost<ListState>, plen: usize, key: KeyEvent) -> (r: bool)
    requires
        facts_of(st, *f),
    ensures
        r == arg_key_ok(s@, c as int, st, plen as int, key),
{
    let v = chars_of(s);
    let l = byte_len(s);
    match key.code {
        KeyCode::Char(ch) => {
            if ch == '\x08' || (ch == 'h' && key.modifiers.control) {
                erase_allowed(s, v.as_slice(), c, f, Ghost(st))
            } else {
                boundary_plus(v.as_slice(), plen, f.cursor) && char_utf8_len(ch) <= usize::MAX - c
                    && f.cursor < usize::MAX
            }
        },
        KeyCode::Backspace => {
            if f.cursor > 0 {
                let q_ok = !(f.qlen > 0) || f.cursor - 1 < f.qlen;
                let ec = if f.qlen > 0 {
                    f.cursor - 1
                } else {
                    f.cursor
                };
                let within = ec < usize::MAX - plen && plen + ec < l;
                assert(within == (plen + ec < l));
                q_ok && (!within || boundary_plus(v.as_slice(), plen, ec))
            } else {
                true
            }
        },
        KeyCode::Tab => key.modifiers.shift || select_allowed(f, Ghost(st)),
        KeyCode::Down => select_allowed(f, Ghost(st)),
        KeyCode::Enter => !(f.selected < f.nmatch) || f.sel_bytes <= usize::MAX - plen,
        _ => true,
    }
}

/// Whether the command picker can take `key` (see `command_key_ok`).
pub(crate) fn command_key_allowed(s: &str, c: usize, f: &ListFacts, Ghost(st): Ghost<ListState>, key: KeyEvent) -> (r: bool)
    requires
        facts_of(st, *f),
    ensures
        r == command_key_ok(s@, c as int, st, key),
{
    let v = chars_of(s);
    let l = byte_len(s);
    match key.code {
        KeyCode::Char(ch) => {
            if ch == '\x08' || (ch == 'h' && key.modifiers.control) {
                erase_allowed(s, v.as_slice(), c, f, Ghost(st))
            } else {
                boundary_plus(v.as_slice(), 1, f.cursor) && char_utf8_len(ch) <= usize::MAX - c
                    && f.cursor < usize::MAX
            }
        },
        KeyCode::Backspace => {
            if f.cursor > 0 {
                let q_ok = !(f.qlen > 0) || f.cursor - 1 < f.qlen;
                let ec = if f.qlen > 0 {
                    f.cursor - 1
                } else {
                    f.cursor
                };
                let within = ec < usize::MAX && 1 + ec <= l;
                assert(within == (1 + ec <= l));
                q_ok && (!within || (1 + ec < l && boundary_plus(v.as_slice(), 1, ec)))
            } else {
                true
            }
        },
        KeyCode::Tab => key.modifiers.shift || select_allowed(f, Ghost(st)),
        KeyCode::Down => select_allowed(f, Ghost(st)),
        KeyCode::Enter => {
            if f.selected < f.nmatch {
                let p = slash_pos_of(v.as_slice());
                let kept = crate::edit::slice_take(v.as_slice(), p);
                let a = byte_len(string_of(kept.as_slice()).as_str());
                assert(a == utf8_len(take_chars(v@, slash_pos(v@))));
                f.sel_bytes < usize::MAX - a && a + f.sel_bytes + 1 <= usize::MAX
            } else {
                true
            }
        },
        _ => true,
    }
}

} // verus!
