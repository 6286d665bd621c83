//! The permission prompt shown when a tool asks to run: its lines, which
//! key answers it how, and the lines that confirm an "allow always".
use vstd::prelude::*;

use crate::editor::{KeyCode, KeyEvent};
use crate::patterns::{suggest_pattern, suggested};
use crate::stream::StreamState;
use crate::text::{chars_of, push_str_chars, string_of};

verus! {

/// How the user answered a permission prompt.
pub enum PermissionAnswer {
    AllowOnce,
    /// Allow from now on whatever matches this pattern.
    AllowAlways(String),
    Deny,
}

/// The answer as a kind (0 once, 1 always, 2 deny) and its pattern.
pub open spec fn answer_view(a: PermissionAnswer) -> (int, Seq<char>) {
    match a {
        PermissionAnswer::AllowOnce => (0, Seq::empty()),
        PermissionAnswer::AllowAlways(p) => (1, p@),
        PermissionAnswer::Deny => (2, Seq::empty()),
    }
}

/// The answer a key gives: `y` once, `a` always (with the suggested
/// pattern), `n` or Esc deny; any other key is no answer yet.
pub open spec fn key_answer(tool: Seq<char>, input: Seq<char>, expanded: Seq<char>, key: KeyEvent) -> Option<(int, Seq<char>)> {
    if key.code == KeyCode::Char('y') {
        Some((0, Seq::empty()))
    } else if key.code == KeyCode::Char('a') {
        Some((1, suggested(tool, input, expanded)))
    } else if key.code == KeyCode::Char('n') || key.code == KeyCode::Esc {
        Some((2, Seq::empty()))
    } else {
        None
    }
}

/// The answer a key gives to the prompt for `tool` with `input`;
/// `expanded` is the input with `~` expanded.
pub fn permission_key(tool: &str, input: &str, expanded: &str, key: KeyEvent) -> (r: Option<PermissionAnswer>)
    ensures
        match r {
            Some(a) => key_answer(tool@, input@, expanded@, key) == Some(answer_view(a)),
            None => key_answer(tool@, input@, expanded@, key) is None,
        },
{
    if key.code == KeyCode::Char('y') {
        Some(PermissionAnswer::AllowOnce)
    } else if key.code == KeyCode::Char('a') {
        Some(PermissionAnswer::AllowAlways(suggest_pattern(tool, input, expanded)))
    } else if key.code == KeyCode::Char('n') || key.code == KeyCode::Esc {
        Some(PermissionAnswer::Deny)
    } else {
        None
    }
}

/// The lines of the prompt: an empty line first when the agent's output
/// left a line started, then the tool with its input and the keys.
pub open spec fn prompt_view(line_started: bool, tool: Seq<char>, input: Seq<char>) -> Seq<Seq<char>> {
    (if line_started {
        seq![Seq::empty()]
    } else {
        Seq::empty()
    }) + seq![
        "[permission] "@ + tool + ": "@ + input,
        "  (y) allow once  (a) allow always  (n) deny  (ESC) abort"@,
    ]
}

/// The lines of the prompt; the stream's line and reasoning are ended.
pub fn permission_prompt(s: &mut StreamState, tool: &str, input: &str) -> (r: Vec<String>)
    ensures
        crate::filter::views(r@) == prompt_view(old(s).line_started, tool@, input@),
        !final(s).line_started,
        !final(s).was_reasoning,
        final(s).response@ == old(s).response@,
        final(s).response_start == old(s).response_start,
{
    let mut r: Vec<String> = Vec::new();
    if s.line_started {
        r.push(String::new());
    }
    s.line_started = false;
    s.was_reasoning = false;
    let mut head = string_of(chars_of("[permission] ").as_slice());
    push_str_chars(&mut head, tool);
    push_str_chars(&mut head, ": ");
    push_str_chars(&mut head, input);
    r.push(head);
    r.push(string_of(chars_of("  (y) allow once  (a) allow always  (n) deny  (ESC) abort").as_slice()));
    proof {
        reveal_strlit("");
    }
    assert(crate::filter::views(r@) =~= prompt_view(old(s).line_started, tool@, input@));
    r
}

/// The lines that confirm an "allow always": the pattern when the key is
/// pressed, then the saved rule.
pub fn allow_always_lines(tool: &str, pattern: &str) -> (r: (String, String))
    ensures
        r.0@ == "  -> will allow: "@ + pattern@,
        r.1@ == "  allowed "@ + tool@ + " "@ + pattern@ + " (saved to session)"@,
{
    let mut a = string_of(chars_of("  -> will allow: ").as_slice());
    push_str_chars(&mut a, pattern);
    let mut b = string_of(chars_of("  allowed ").as_slice());
    push_str_chars(&mut b, tool);
    push_str_chars(&mut b, " ");
    push_str_chars(&mut b, pattern);
    push_str_chars(&mut b, " (saved to session)");
    (a, b)
}

} // verus!
