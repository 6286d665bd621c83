//! The decisions of the interactive main loop: for each terminal event, what
//! to do and how the loop's state changes. The caller runs the loop, performs
//! the action (drawing, scrolling, starting or stopping runs, talking to the
//! clipboard or to child programs) and hands the next event back.
//!
//! A key press goes through three stages: `event_step` (interrupts, the
//! selection, reasoning visibility, scrolling keys, and the offer to an open
//! picker), `unclaimed_key_step` (when the picker did not take the key: the
//! external editor, lazygit, the chain prompt, then the input line), and
//! `submit_step` for a line the input editor submitted.
use vstd::prelude::*;

use crate::commands::{submission, submission_action, SubmitAction};
use crate::editor::{KeyCode, KeyEvent};
use crate::text::{starts_with, trim, trimmed_chars};

verus! {

/// What the main loop's decisions read and change.
#[derive(Clone, Copy, Debug, PartialEq, Eq, Structural)]
pub struct MainState {
    /// A main run of the agent is active.
    pub is_running: bool,
    /// Side questions (`/btw`) still waiting for an answer.
    pub side_questions: usize,
    /// A `/loop` is active.
    pub loop_active: bool,
    /// Reasoning text is shown.
    pub show_reasoning: bool,
    /// A text selection of the chat view is active.
    pub selection_active: bool,
    /// The chat view is scrolled back from its end.
    pub scrolling: bool,
    /// The input line's picker is open.
    pub picker_active: bool,
    /// The chain prompt (go on to the next prompt? y/n/b) is shown.
    pub chain_prompt: bool,
    /// The chain prompt was answered with `b`: the next line is extra
    /// instructions for the next prompt.
    pub chain_but_mode: bool,
    /// A next prompt of the chain is waiting.
    pub chain_pending: bool,
}

/// A terminal event, with what the chat view says about the position of a
/// mouse event.
#[derive(Clone, Copy, Debug, PartialEq, Eq, Structural)]
pub enum MainEvent {
    Resize,
    ScrollUp,
    ScrollDown,
    /// A click: the cursor position it means in the input area, if it is
    /// there, and the chat line under it, if it is in the chat view.
    MouseDown { input_pos: Option<usize>, chat_line: Option<usize> },
    /// A drag over the chat line given, if any.
    MouseDrag { chat_line: Option<usize> },
    /// A release over the chat line given, if any.
    MouseUp { chat_line: Option<usize> },
    /// Pasted text (which the caller holds).
    Paste,
    Key(KeyEvent),
}

/// What the main loop does for an event.
#[derive(Clone, Copy, Debug, PartialEq, Eq, Structural)]
pub enum MainAction {
    /// Nothing but a redraw.
    Nothing,
    /// Lay the view out for the new terminal size.
    Resize,
    /// Scroll the input area up, or the chat view when the input is at its
    /// top.
    ScrollUp,
    /// Scroll the chat view one line down.
    ScrollChatDown,
    /// Scroll the input area down.
    ScrollInputDown,
    /// Put the input cursor at this byte offset.
    MoveCursor(usize),
    /// Start a selection at this chat line.
    StartSelection(usize),
    /// Extend the selection to this chat line.
    ExtendSelection(usize),
    /// End the selection (at this chat line, if any), copy it and clear it.
    FinishSelection(Option<usize>),
    /// Insert the pasted text into the input line.
    Paste,
    /// Cancel the side questions (`btw cancelled`).
    CancelSideQuestions,
    /// Stop the main run (`interrupted ...`), the loop and queued input.
    Interrupt,
    /// Leave the interface.
    Quit,
    /// Copy the selection (`copied selection`) and clear it.
    CopySelection,
    /// Clear the selection.
    ClearSelection,
    /// Reasoning visibility is now on (`true`) or off.
    ShowReasoning(bool),
    PageUp,
    PageDown,
    ScrollToTop,
    ScrollToBottom,
    /// Offer the key to the open picker; if it does not take it, go on with
    /// `unclaimed_key_step`.
    OfferToPicker,
    /// Edit the input line in the external editor.
    OpenEditor,
    /// Run lazygit.
    OpenLazygit,
    /// Go on to the next prompt of the chain.
    ChainAccept,
    /// Decline the chain for this session.
    ChainDecline,
    /// Ask for extra instructions for the next prompt (the input is
    /// cleared).
    ChainBut,
    /// Leave the extra instructions and ask again (the input is cleared).
    ChainButCancel,
    /// Hand the key to the input line (`submit_step` follows when it
    /// submits a line).
    EditLine,
}

/// What the main loop does with a submitted line.
#[derive(Clone, Copy, Debug, PartialEq, Eq, Structural)]
pub enum SubmitStep {
    /// Blank extra instructions: ask the chain question again.
    ChainButEmpty,
    /// Go on to the next prompt of the chain with the line as extra
    /// instructions.
    ChainButAccept,
    /// As the submission rules decide (including a refusal while a loop is
    /// active).
    Command(SubmitAction),
}

/// The character key `c` with Control held.
pub open spec fn is_ctrl(key: KeyEvent, c: char) -> bool {
    key.code == KeyCode::Char(c) && key.modifiers.control
}

/// The effect of a key press before an open picker is asked.
pub open spec fn key_outcome(s: MainState, key: KeyEvent) -> (MainState, MainAction) {
    if is_ctrl(key, 'c') || is_ctrl(key, 'd') {
        if s.side_questions > 0 {
            (MainState { side_questions: 0, ..s }, MainAction::CancelSideQuestions)
        } else if s.is_running {
            (MainState { is_running: false, loop_active: false, ..s }, MainAction::Interrupt)
        } else {
            (s, MainAction::Quit)
        }
    } else if s.selection_active && key.code == KeyCode::Char('y') {
        (MainState { selection_active: false, ..s }, MainAction::CopySelection)
    } else if s.selection_active && key.code == KeyCode::Esc {
        (MainState { selection_active: false, ..s }, MainAction::ClearSelection)
    } else if is_ctrl(key, 'r') {
        (
            MainState { show_reasoning: !s.show_reasoning, ..s },
            MainAction::ShowReasoning(!s.show_reasoning),
        )
    } else if key.code == KeyCode::PageUp {
        (s, MainAction::PageUp)
    } else if key.code == KeyCode::PageDown {
        (s, MainAction::PageDown)
    } else if key.code == KeyCode::Home {
        (s, MainAction::ScrollToTop)
    } else if key.code == KeyCode::End {
        (MainState { scrolling: false, ..s }, MainAction::ScrollToBottom)
    } else if s.picker_active {
        (s, MainAction::OfferToPicker)
    } else {
        unclaimed_outcome(s, key)
    }
}

/// The effect of a key press that no picker took.
pub open spec fn unclaimed_outcome(s: MainState, key: KeyEvent) -> (MainState, MainAction) {
    if is_ctrl(key, 'g') {
        (s, MainAction::OpenEditor)
    } else if is_ctrl(key, 'h') {
        (s, MainAction::OpenLazygit)
    } else if s.chain_prompt && !s.chain_but_mode {
        if key.code == KeyCode::Char('y') || key.code == KeyCode::Char('Y') {
            (MainState { chain_prompt: false, chain_pending: false, ..s }, MainAction::ChainAccept)
        } else if key.code == KeyCode::Char('n') || key.code == KeyCode::Char('N') {
            (MainState { chain_prompt: false, chain_pending: false, ..s }, MainAction::ChainDecline)
        } else if key.code == KeyCode::Char('b') || key.code == KeyCode::Char('B') {
            (MainState { chain_prompt: false, chain_but_mode: true, ..s }, MainAction::ChainBut)
        } else {
            (s, MainAction::Nothing)
        }
    } else if s.chain_but_mode && key.code == KeyCode::Esc {
        (
            MainState { chain_but_mode: false, chain_prompt: s.chain_pending, ..s },
            MainAction::ChainButCancel,
        )
    } else {
        (s, MainAction::EditLine)
    }
}

/// The effect of an event.
pub open spec fn event_outcome(s: MainState, ev: MainEvent) -> (MainState, MainAction) {
    match ev {
        MainEvent::Resize => (s, MainAction::Resize),
        MainEvent::ScrollUp => (s, MainAction::ScrollUp),
        MainEvent::ScrollDown => if s.scrolling {
            (s, MainAction::ScrollChatDown)
        } else {
            (s, MainAction::ScrollInputDown)
        },
        MainEvent::MouseDown { input_pos, chat_line } => match input_pos {
            Some(p) => (s, MainAction::MoveCursor(p)),
            None => match chat_line {
                Some(l) => (MainState { selection_active: true, ..s }, MainAction::StartSelection(l)),
                None => (s, MainAction::Nothing),
            },
        },
        MainEvent::MouseDrag { chat_line } => match chat_line {
            Some(l) => if s.selection_active {
                (s, MainAction::ExtendSelection(l))
            } else {
                (s, MainAction::Nothing)
            },
            None => (s, MainAction::Nothing),
        },
        MainEvent::MouseUp { chat_line } => if s.selection_active {
            (MainState { selection_active: false, ..s }, MainAction::FinishSelection(chat_line))
        } else {
            (s, MainAction::Nothing)
        },
        MainEvent::Paste => (s, MainAction::Paste),
        MainEvent::Key(key) => key_outcome(s, key),
    }
}

/// The effect of a submitted line: a loop refuses lines that are not
/// commands; otherwise the chat view goes back to its end, extra chain
/// instructions are taken when the chain waits and no run is active, and
/// the submission rules decide the rest.
pub open spec fn submit_outcome(s: MainState, text: Seq<char>) -> (MainState, SubmitStep) {
    if s.loop_active && !starts_with(text, seq!['/']) {
        (s, SubmitStep::Command(SubmitAction::BlockedByLoop))
    } else if !s.is_running && s.chain_pending {
        if trim(text).len() == 0 {
            (
                MainState { scrolling: false, chain_but_mode: false, chain_prompt: true, ..s },
                SubmitStep::ChainButEmpty,
            )
        } else {
            (
                MainState { scrolling: false, chain_but_mode: false, chain_pending: false, ..s },
                SubmitStep::ChainButAccept,
            )
        }
    } else {
        (MainState { scrolling: false, ..s }, SubmitStep::Command(submission(s.is_running, text)))
    }
}

/// The character key `c` with Control held.
fn ctrl_pressed(key: KeyEvent, c: char) -> (b: bool)
    ensures
        b == is_ctrl(key, c),
{
    key.modifiers.control && key.code == KeyCode::Char(c)
}

/// What the main loop does with a key that no picker took.
pub fn unclaimed_key_step(s: MainState, key: KeyEvent) -> (r: (MainState, MainAction))
    ensures
        r == unclaimed_outcome(s, key),
{
    if ctrl_pressed(key, 'g') {
        (s, MainAction::OpenEditor)
    } else if ctrl_pressed(key, 'h') {
        (s, MainAction::OpenLazygit)
    } else if s.chain_prompt && !s.chain_but_mode {
        if key.code == KeyCode::Char('y') || key.code == KeyCode::Char('Y') {
            (MainState { chain_prompt: false, chain_pending: false, ..s }, MainAction::ChainAccept)
        } else if key.code == KeyCode::Char('n') || key.code == KeyCode::Char('N') {
            (MainState { chain_prompt: false, chain_pending: false, ..s }, MainAction::ChainDecline)
        } else if key.code == KeyCode::Char('b') || key.code == KeyCode::Char('B') {
            (MainState { chain_prompt: false, chain_but_mode: true, ..s }, MainAction::ChainBut)
        } else {
            (s, MainAction::Nothing)
        }
    } else if s.chain_but_mode && key.code == KeyCode::Esc {
        (
            MainState { chain_but_mode: false, chain_prompt: s.chain_pending, ..s },
            MainAction::ChainButCancel,
        )
    } else {
        (s, MainAction::EditLine)
    }
}

/// What the main loop does with a key press.
fn key_step(s: MainState, key: KeyEvent) -> (r: (MainState, MainAction))
    ensures
        r == key_outcome(s, key),
{
    if ctrl_pressed(key, 'c') || ctrl_pressed(key, 'd') {
        if s.side_questions > 0 {
            (MainState { side_questions: 0, ..s }, MainAction::CancelSideQuestions)
        } else if s.is_running {
            (MainState { is_running: false, loop_active: false, ..s }, MainAction::Interrupt)
        } else {
            (s, MainAction::Quit)
        }
    } else if s.selection_active && key.code == KeyCode::Char('y') {
        (MainState { selection_active: false, ..s }, MainAction::CopySelection)
    } else if s.selection_active && key.code == KeyCode::Esc {
        (MainState { selection_active: false, ..s }, MainAction::ClearSelection)
    } else if ctrl_pressed(key, 'r') {
        (
            MainState { show_reasoning: !s.show_reasoning, ..s },
            MainAction::ShowReasoning(!s.show_reasoning),
        )
    } else if key.code == KeyCode::PageUp {
        (s, MainAction::PageUp)
    } else if key.code == KeyCode::PageDown {
        (s, MainAction::PageDown)
    } else if key.code == KeyCode::Home {
        (s, MainAction::ScrollToTop)
    } else if key.code == KeyCode::End {
        (MainState { scrolling: false, ..s }, MainAction::ScrollToBottom)
    } else if s.picker_active {
        (s, MainAction::OfferToPicker)
    } else {
        unclaimed_key_step(s, key)
    }
}

/// What the main loop does for an event, and its state afterwards.
pub fn event_step(s: MainState, ev: MainEvent) -> (r: (MainState, MainAction))
    ensures
        r == event_outcome(s, ev),
{
    match ev {
        MainEvent::Resize => (s, MainAction::Resize),
        MainEvent::ScrollUp => (s, MainAction::ScrollUp),
        MainEvent::ScrollDown => if s.scrolling {
            (s, MainAction::ScrollChatDown)
        } else {
            (s, MainAction::ScrollInputDown)
        },
        MainEvent::MouseDown { input_pos, chat_line } => match input_pos {
            Some(p) => (s, MainAction::MoveCursor(p)),
            None => match chat_line {
                Some(l) => (MainState { selection_active: true, ..s }, MainAction::StartSelection(l)),
                None => (s, MainAction::Nothing),
            },
        },
        MainEvent::MouseDrag { chat_line } => match chat_line {
            Some(l) => if s.selection_active {
                (s, MainAction::ExtendSelection(l))
            } else {
                (s, MainAction::Nothing)
            },
            None => (s, MainAction::Nothing),
        },
        MainEvent::MouseUp { chat_line } => if s.selection_active {
            (MainState { selection_active: false, ..s }, MainAction::FinishSelection(chat_line))
        } else {
            (s, MainAction::Nothing)
        },
        MainEvent::Paste => (s, MainAction::Paste),
        MainEvent::Key(key) => key_step(s, key),
    }
}

/// What the main loop does with a line the input editor submitted, and its
/// state afterwards.
pub fn submit_step(s: MainState, text: &str) -> (r: (MainState, SubmitStep))
    ensures
        r == submit_outcome(s, text@),
{
    let a = submission_action(s.loop_active, s.is_running, text);
    if a == SubmitAction::BlockedByLoop {
        return (s, SubmitStep::Command(SubmitAction::BlockedByLoop));
    }
    if !s.is_running && s.chain_pending {
        let t = trimmed_chars(text);
        if t.len() == 0 {
            (
                MainState { scrolling: false, chain_but_mode: false, chain_prompt: true, ..s },
                SubmitStep::ChainButEmpty,
            )
        } else {
            (
                MainState { scrolling: false, chain_but_mode: false, chain_pending: false, ..s },
                SubmitStep::ChainButAccept,
            )
        }
    } else {
        (MainState { scrolling: false, ..s }, SubmitStep::Command(a))
    }
}

/// While a loop is active, a submitted line that does not start with `/` is
/// refused and changes nothing; a line that starts with `/` is never
/// refused on that account.
pub proof fn law_loop_blocks_plain_lines(s: MainState, text: Seq<char>)
    ensures
        s.loop_active && !starts_with(text, seq!['/']) ==> submit_outcome(s, text) == (
            s,
            SubmitStep::Command(SubmitAction::BlockedByLoop),
        ),
        starts_with(text, seq!['/']) || !s.loop_active ==> submit_outcome(s, text).1
            != SubmitStep::Command(SubmitAction::BlockedByLoop),
{
}

/// Ctrl-C leaves the interface only when neither a side question nor a
/// main run is active; otherwise it cancels the side questions first, then
/// the run, and afterwards nothing of that kind is active any more.
pub proof fn law_ctrl_c_cancels_before_quitting(s: MainState, key: KeyEvent)
    requires
        is_ctrl(key, 'c'),
    ensures
        (key_outcome(s, key).1 == MainAction::Quit) == (s.side_questions == 0 && !s.is_running),
        s.side_questions > 0 ==> key_outcome(s, key).0.side_questions == 0
            && key_outcome(s, key).0.is_running == s.is_running,
        s.side_questions == 0 && s.is_running ==> !key_outcome(s, key).0.is_running
            && !key_outcome(s, key).0.loop_active,
{
}

/// Ctrl-R twice in a row leaves the state as it was.
pub proof fn law_reasoning_toggle_twice(s: MainState, key: KeyEvent)
    requires
        is_ctrl(key, 'r'),
    ensures
        key_outcome(key_outcome(s, key).0, key).0 == s,
        key_outcome(s, key).1 == MainAction::ShowReasoning(!s.show_reasoning),
{
}

} // verus!
