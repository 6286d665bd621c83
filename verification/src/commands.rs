//! Decisions about submitted lines and slash commands: what a submission
//! does while a run is active, what `/undo` removes, and the texts that
//! `/review` and `/init` show.
use vstd::prelude::*;

use crate::edit::chars_eq;
use crate::events::{sanitize_output, sanitized};
use crate::text::{
    chars_of, decimal, decimal_text, is_white_space, is_whitespace, leading_ws, leading_ws_count,
    push_str_chars,
    starts_with, starts_with_seq, string_of, trim, trim_start,
};

verus! {

/// What to do with a submitted line, given whether a main run is active.
#[derive(Clone, Copy, Debug, PartialEq, Eq, Structural)]
pub enum SubmitAction {
    /// Idle: start a run now.
    Run,
    /// Running, plain text: queue it and replay it after the current run.
    Queue,
    /// Running, a command (`/`, `.`, `!`): it cannot be queued; the user has
    /// to wait or interrupt.
    RejectWhileRunning,
    /// Empty submission: ignore it.
    Ignore,
    /// A loop is active and the line is not a command: it is refused until
    /// the loop is stopped (`/loop stop`).
    BlockedByLoop,
}

/// `text` without its leading white space.
pub open spec fn trimmed_start(text: Seq<char>) -> Seq<char> {
    text.skip(leading_ws(text))
}

/// The commands that may run while a main run is active: `/queue` and
/// `/btw`, alone or with arguments.
pub open spec fn runs_alongside(text: Seq<char>) -> bool {
    let t = trimmed_start(text);
    t == "/queue"@ || starts_with(t, "/queue "@) || t == "/btw"@ || starts_with(t, "/btw "@)
}

/// What a submission does: it runs when idle or when it may run alongside;
/// otherwise an empty one is ignored, a command is refused and plain text is
/// queued.
pub open spec fn submission(is_running: bool, text: Seq<char>) -> SubmitAction {
    let t = trimmed_start(text);
    if !is_running || runs_alongside(text) {
        SubmitAction::Run
    } else if t.len() == 0 {
        SubmitAction::Ignore
    } else if t[0] == '/' || t[0] == '.' || t[0] == '!' {
        SubmitAction::RejectWhileRunning
    } else {
        SubmitAction::Queue
    }
}

/// The characters of `text` after its leading white space.
fn trim_start_chars(text: &str) -> (r: Vec<char>)
    ensures
        r@ == trimmed_start(text@),
{
    let v = chars_of(text);
    let n = leading_ws_count(v.as_slice());
    proof {
        crate::text::lemma_leading_ws_bounds(v@);
    }
    let r = crate::edit::slice_skip(v.as_slice(), n);
    r
}

/// Whether the characters of `t` spell `name`.
fn spells(t: &[char], name: &str) -> (b: bool)
    ensures
        b == (t@ == name@),
{
    let n = chars_of(name);
    chars_eq(t, n.as_slice())
}

/// Whether the characters of `t` start with `prefix`.
fn begins(t: &[char], prefix: &str) -> (b: bool)
    ensures
        b == starts_with(t@, prefix@),
{
    let p = chars_of(prefix);
    starts_with_seq(t, p.as_slice())
}

/// Commands that are safe to run even while a main run is active because
/// they neither start nor change it: `/queue` and `/btw`.
pub fn allowed_while_running(text: &str) -> (r: bool)
    ensures
        r == runs_alongside(text@),
{
    let t = trim_start_chars(text);
    let t = t.as_slice();
    spells(t, "/queue") || begins(t, "/queue ") || spells(t, "/btw") || begins(t, "/btw ")
}

/// What to do with a submitted line.
pub fn classify_submission(is_running: bool, text: &str) -> (r: SubmitAction)
    ensures
        r == submission(is_running, text@),
{
    if !is_running || allowed_while_running(text) {
        return SubmitAction::Run;
    }
    let t = trim_start_chars(text);
    if t.len() == 0 {
        SubmitAction::Ignore
    } else if t[0] == '/' || t[0] == '.' || t[0] == '!' {
        SubmitAction::RejectWhileRunning
    } else {
        SubmitAction::Queue
    }
}

/// What a submission does when a loop may be active: while it is, only
/// lines that start with `/` go through; otherwise as `submission`.
pub open spec fn loop_submission(loop_active: bool, is_running: bool, text: Seq<char>) -> SubmitAction {
    if loop_active && !starts_with(text, seq!['/']) {
        SubmitAction::BlockedByLoop
    } else {
        submission(is_running, text)
    }
}

/// What to do with a submitted line, given whether a loop is active and
/// whether a main run is active.
pub fn submission_action(loop_active: bool, is_running: bool, text: &str) -> (r: SubmitAction)
    ensures
        r == loop_submission(loop_active, is_running, text@),
{
    if loop_active {
        let t = chars_of(text);
        let slash = t.len() > 0 && t[0] == '/';
        assert(slash == starts_with(text@, seq!['/'])) by {
            if t@.len() > 0 {
                assert(text@.take(1) =~= seq![text@[0]]);
                assert(seq![text@[0]] =~= seq!['/'] <==> text@[0] == '/') by {
                    if seq![text@[0]] =~= seq!['/'] {
                        assert(seq![text@[0]][0] == seq!['/'][0]);
                    }
                }
            }
        }
        if !slash {
            return SubmitAction::BlockedByLoop;
        }
    }
    classify_submission(is_running, text)
}

/// While a run is active, a line that is not `/queue` or `/btw` and whose
/// first non-blank character is `/`, `.` or `!` is refused and never
/// queued; a line that starts with any other character is queued; a blank
/// line is ignored. When no run is active every line runs.
pub proof fn law_commands_refused_while_running(text: Seq<char>)
    ensures
        submission(false, text) == SubmitAction::Run,
        ({
            let t = trimmed_start(text);
            !runs_alongside(text) && t.len() > 0 ==> {
                &&& (submission(true, text) == SubmitAction::RejectWhileRunning) == (t[0] == '/' || t[0]
                    == '.' || t[0] == '!')
                &&& (submission(true, text) == SubmitAction::Queue) == !(t[0] == '/' || t[0] == '.'
                    || t[0] == '!')
            }
        }),
        !runs_alongside(text) && trimmed_start(text).len() == 0 ==> submission(true, text)
            == SubmitAction::Ignore,
{
}

/// Who wrote a message of the conversation.
#[derive(Clone, Copy, Debug, PartialEq, Eq, Structural)]
pub enum MessageRole {
    System,
    User,
    Assistant,
}

/// How many messages `/undo` removes from the end of a conversation with
/// these roles: an answer together with the question before it, a lone
/// answer, or a lone question; nothing when the last message is neither.
pub open spec fn undo_count(roles: Seq<MessageRole>) -> int {
    let n = roles.len() as int;
    if n == 0 {
        0
    } else if roles[n - 1] == MessageRole::Assistant {
        if n >= 2 && roles[n - 2] == MessageRole::User {
            2
        } else {
            1
        }
    } else if roles[n - 1] == MessageRole::User {
        1
    } else {
        0
    }
}

/// Removes the last exchange from a conversation, given by the roles of its
/// messages; returns how many messages went.
pub fn undo_last(roles: &mut Vec<MessageRole>) -> (removed: usize)
    ensures
        removed == undo_count(old(roles)@),
        final(roles)@ == old(roles)@.take(old(roles)@.len() - removed),
{
    let len = roles.len();
    if len == 0 {
        assert(roles@.take(0) =~= roles@);
        return 0;
    }
    let removed: usize = if roles[len - 1] == MessageRole::Assistant {
        if len >= 2 && roles[len - 2] == MessageRole::User {
            2
        } else {
            1
        }
    } else if roles[len - 1] == MessageRole::User {
        1
    } else {
        0
    };
    if removed > 0 {
        roles.truncate(len - removed);
    } else {
        assert(roles@.take(len as int) =~= roles@);
    }
    removed
}

/// `/undo` removes a whole exchange: when the conversation ends with a
/// question and its answer, exactly those two messages go, whatever came
/// before them (also when nothing did); a lone answer or a lone question
/// goes alone; otherwise nothing goes. What stays is always the start of
/// the conversation.
pub proof fn law_undo_removes_last_exchange(roles: Seq<MessageRole>)
    ensures
        roles.len() >= 2 && roles[roles.len() - 2] == MessageRole::User && roles.last()
            == MessageRole::Assistant ==> undo_count(roles) == 2,
        roles.len() >= 1 && roles.last() == MessageRole::User ==> undo_count(roles) == 1,
        roles.len() >= 1 && roles.last() == MessageRole::Assistant && (roles.len() < 2
            || roles[roles.len() - 2] != MessageRole::User) ==> undo_count(roles) == 1,
        roles.len() == 0 || roles.last() == MessageRole::System ==> undo_count(roles) == 0,
        0 <= undo_count(roles) <= roles.len(),
{
}

/// Nothing has been asked yet: no message of the conversation is the
/// user's.
pub fn is_session_empty(roles: &Vec<MessageRole>) -> (r: bool)
    ensures
        r == !(exists|i: int| 0 <= i < roles@.len() && roles@[i] == MessageRole::User),
{
    let mut i: usize = 0;
    while i < roles.len()
        invariant
            i <= roles@.len(),
            forall|j: int| 0 <= j < i ==> roles@[j] != MessageRole::User,
        decreases roles@.len() - i,
    {
        if roles[i] == MessageRole::User {
            return false;
        }
        i = i + 1;
    }
    true
}

/// The request `/review` sends when it is given no instructions.
pub open spec fn review_message(session_empty: bool, in_worktree: bool) -> Seq<char> {
    if session_empty && in_worktree {
        "Review the current worktree state. Check the diff from the base branch for correctness, design, testing, and security."@
    } else if session_empty {
        "Review the current codebase for correctness, design, testing, and security."@
    } else if in_worktree {
        "Review the changes in this worktree session. Consider the diff from main since the branch was created. Check for correctness, design, testing, and security."@
    } else {
        "Review the changes discussed in this session for correctness, design, testing, and security."@
    }
}

/// The request `/review` sends when it is given no instructions: the
/// codebase or worktree when nothing was discussed yet, else the changes of
/// the session.
pub fn build_default_review_message(session_empty: bool, in_worktree: bool) -> (r: String)
    ensures
        r@ == review_message(session_empty, in_worktree),
{
    let text = if session_empty && in_worktree {
        "Review the current worktree state. Check the diff from the base branch for correctness, design, testing, and security."
    } else if session_empty {
        "Review the current codebase for correctness, design, testing, and security."
    } else if in_worktree {
        "Review the changes in this worktree session. Consider the diff from main since the branch was created. Check for correctness, design, testing, and security."
    } else {
        "Review the changes discussed in this session for correctness, design, testing, and security."
    };
    string_of(chars_of(text).as_slice())
}

/// The question `/init` asks before writing a file: overwrite it when it
/// exists, else create it in `cwd`.
pub open spec fn init_question(label: Seq<char>, desc: Seq<char>, exists: bool, cwd: Seq<char>) -> Seq<char> {
    if exists {
        label + " already exists ("@ + desc + "). Overwrite? [y/N]"@
    } else {
        "No "@ + label + " found in "@ + cwd + " ("@ + desc + "). Create one? [y/N]"@
    }
}

/// The question `/init` asks before writing the file `label` (described by
/// `desc`) in the directory `cwd`.
pub fn build_question(label: &str, desc: &str, exists: bool, cwd: &str) -> (r: String)
    ensures
        r@ == init_question(label@, desc@, exists, cwd@),
{
    let mut out = String::new();
    if exists {
        push_str_chars(&mut out, label);
        push_str_chars(&mut out, " already exists (");
        push_str_chars(&mut out, desc);
        push_str_chars(&mut out, "). Overwrite? [y/N]");
    } else {
        push_str_chars(&mut out, "No ");
        push_str_chars(&mut out, label);
        push_str_chars(&mut out, " found in ");
        push_str_chars(&mut out, cwd);
        push_str_chars(&mut out, " (");
        push_str_chars(&mut out, desc);
        push_str_chars(&mut out, "). Create one? [y/N]");
    }
    assert(out@ =~= init_question(label@, desc@, exists, cwd@));
    out
}

/// Number of leading characters of `s` that are not white space.
pub open spec fn word_len(s: Seq<char>) -> int
    decreases s.len(),
{
    if s.len() > 0 && !is_white_space(s[0]) {
        1 + word_len(s.drop_first())
    } else {
        0
    }
}

proof fn lemma_word_len_bounds(s: Seq<char>)
    ensures
        0 <= word_len(s) <= s.len(),
        word_len(s) < s.len() ==> is_white_space(s[word_len(s)]),
        forall|i: int| 0 <= i < word_len(s) ==> !is_white_space(#[trigger] s[i]),
    decreases s.len(),
{
    if s.len() > 0 && !is_white_space(s[0]) {
        lemma_word_len_bounds(s.drop_first());
        assert forall|i: int| 0 <= i < word_len(s) implies !is_white_space(#[trigger] s[i]) by {
            if i > 0 {
                assert(s[i] == s.drop_first()[i - 1]);
            }
        }
    }
}

/// Index of the first white-space character, or the length.
fn word_len_of(v: &[char]) -> (n: usize)
    ensures
        n == word_len(v@),
{
    proof {
        lemma_word_len_bounds(v@);
    }
    let mut i: usize = 0;
    while i < v.len() && !is_whitespace(v[i])
        invariant
            i <= v@.len(),
            i <= word_len(v@),
            0 <= word_len(v@) <= v@.len(),
            word_len(v@) < v@.len() ==> is_white_space(v@[word_len(v@)]),
        decreases v@.len() - i,
    {
        i = i + 1;
    }
    proof {
        lemma_word_len_bounds(v@);
        if i < word_len(v@) {
            assert(!is_white_space(v@[i as int]));
        }
    }
    i
}

/// What a line that starts with `.` asks for.
pub enum DotCommand {
    /// `.` alone: open the prompt picker.
    OpenPicker,
    /// `.name message`: switch to the prompt and send the message.
    SwitchAndSend { name: String, message: String },
    /// `.name`: switch to the prompt.
    Switch(String),
    /// A name that is not a prompt.
    Unknown(String),
}

/// The kind (0 picker, 1 switch and send, 2 switch, 3 unknown), the prompt
/// name and the message of a `.` line, given the names of the prompts. The
/// name ends at the first white space; the rest, trimmed, is the message.
pub open spec fn dot_outcome(text: Seq<char>, prompts: Seq<Seq<char>>) -> (int, Seq<char>, Seq<char>) {
    let after = trim_start(crate::edit::skip_chars(text, 1));
    let w = word_len(after);
    if after.len() == 0 {
        (0, Seq::empty(), Seq::empty())
    } else if w < after.len() {
        let name = trim(after.take(w));
        if name.len() > 0 && prompts.contains(name) {
            (1, name, trim(after.skip(w + 1)))
        } else {
            (3, name, Seq::empty())
        }
    } else {
        let name = trim(after);
        if prompts.contains(name) {
            (2, name, Seq::empty())
        } else {
            (3, name, Seq::empty())
        }
    }
}

/// The request as `dot_outcome` numbers it.
pub open spec fn dot_view(d: DotCommand) -> (int, Seq<char>, Seq<char>) {
    match d {
        DotCommand::OpenPicker => (0, Seq::empty(), Seq::empty()),
        DotCommand::SwitchAndSend { name, message } => (1, name@, message@),
        DotCommand::Switch(name) => (2, name@, Seq::empty()),
        DotCommand::Unknown(name) => (3, name@, Seq::empty()),
    }
}

/// Whether `name` is one of `names`.
fn listed(names: &Vec<String>, name: &[char]) -> (r: bool)
    ensures
        r == crate::filter::views(names@).contains(name@),
{
    let ghost w = crate::filter::views(names@);
    let mut i: usize = 0;
    while i < names.len()
        invariant
            i <= names@.len(),
            w == crate::filter::views(names@),
            forall|j: int| 0 <= j < i ==> w[j] != name@,
        decreases names@.len() - i,
    {
        let n = chars_of(names[i].as_str());
        if chars_eq(n.as_slice(), name) {
            assert(w[i as int] == name@);
            return true;
        }
        i = i + 1;
    }
    false
}

/// Reads a line that starts with `.` (its first character is taken for the
/// dot), given the names of the prompts.
pub fn dot_command(text: &str, prompt_names: &Vec<String>) -> (r: DotCommand)
    ensures
        dot_view(r) == dot_outcome(text@, crate::filter::views(prompt_names@)),
{
    let v = chars_of(text);
    let rest = crate::edit::slice_skip(v.as_slice(), 1);
    let lead = leading_ws_count(rest.as_slice());
    proof {
        crate::text::lemma_leading_ws_bounds(rest@);
    }
    let after = crate::edit::slice_skip(rest.as_slice(), lead);
    assert(after@ == trim_start(crate::edit::skip_chars(text@, 1)));
    if after.len() == 0 {
        return DotCommand::OpenPicker;
    }
    let w = word_len_of(after.as_slice());
    if w < after.len() {
        let word = crate::edit::slice_take(after.as_slice(), w);
        let name = crate::text::trimmed_chars(string_of(word.as_slice()).as_str());
        if name.len() > 0 && listed(prompt_names, name.as_slice()) {
            let tail = crate::edit::slice_skip(after.as_slice(), w + 1);
            let message = crate::text::trimmed_chars(string_of(tail.as_slice()).as_str());
            DotCommand::SwitchAndSend { name: string_of(name.as_slice()), message: string_of(message.as_slice()) }
        } else {
            DotCommand::Unknown(string_of(name.as_slice()))
        }
    } else {
        let name = crate::text::trimmed_chars(string_of(after.as_slice()).as_str());
        if listed(prompt_names, name.as_slice()) {
            DotCommand::Switch(string_of(name.as_slice()))
        } else {
            DotCommand::Unknown(string_of(name.as_slice()))
        }
    }
}

/// The argument of a `/queue` line: what follows the command, trimmed.
pub open spec fn queue_arg(text: Seq<char>) -> Seq<char> {
    trim(trimmed_start(text).skip(6))
}

/// What `/queue` does to the queued lines, the lines it writes, and whether
/// it answers with its usage: `clear` empties the queue, `pop` takes back
/// the last line queued, `ls`, `list` or nothing lists the queue.
pub open spec fn queue_outcome(arg: Seq<char>, q: Seq<Seq<char>>) -> (Seq<Seq<char>>, Seq<Seq<char>>, bool) {
    let n = q.len();
    if arg == "clear"@ {
        (Seq::empty(), seq!["queue cleared ("@ + decimal(n) + " removed)"@], false)
    } else if arg == "pop"@ {
        if n == 0 {
            (q, seq!["queue is empty"@], false)
        } else {
            (q.drop_last(), seq!["unqueued: "@ + sanitized(q.last())], false)
        }
    } else if arg.len() == 0 || arg == "ls"@ || arg == "list"@ {
        if n == 0 {
            (q, seq!["queue is empty"@], false)
        } else {
            (
                q,
                seq!["queued ("@ + decimal(n) + "):"@] + Seq::new(
                    n,
                    |i: int| "  "@ + decimal((i + 1) as nat) + ". "@ + sanitized(q[i]),
                ),
                false,
            )
        }
    } else {
        (q, seq!["usage: /queue [ls|clear|pop]"@], true)
    }
}

/// The texts of a run of strings.
pub open spec fn texts(v: Seq<String>) -> Seq<Seq<char>> {
    crate::filter::views(v)
}

/// Runs `/queue` on the lines queued for after the current run; returns the
/// lines to write and whether they are the usage (an error).
pub fn queue_command(text: &str, queue: &mut Vec<String>) -> (r: (Vec<String>, bool))
    requires
        starts_with(trimmed_start(text@), "/queue"@),
    ensures
        (texts(final(queue)@), texts(r.0@), r.1) == queue_outcome(queue_arg(text@), texts(old(queue)@)),
{
    let ghost q0 = texts(queue@);
    let t = trim_start_chars(text);
    proof {
        reveal_strlit("/queue");
    }
    let after = crate::edit::slice_skip(t.as_slice(), 6);
    let arg = crate::text::trimmed_chars(string_of(after.as_slice()).as_str());
    assert(arg@ == queue_arg(text@));
    let n = queue.len();
    let mut lines: Vec<String> = Vec::new();
    if spells(arg.as_slice(), "clear") {
        queue.clear();
        let mut l = string_of(chars_of("queue cleared (").as_slice());
        push_str_chars(&mut l, decimal_text(n as u64).as_str());
        push_str_chars(&mut l, " removed)");
        lines.push(l);
        assert(texts(queue@) =~= Seq::<Seq<char>>::empty());
        assert(texts(lines@) =~= queue_outcome(queue_arg(text@), q0).1);
        return (lines, false);
    }
    if spells(arg.as_slice(), "pop") {
        match queue.pop() {
            Some(x) => {
                let mut l = string_of(chars_of("unqueued: ").as_slice());
                push_str_chars(&mut l, sanitize_output(x.as_str()).as_str());
                lines.push(l);
                assert(texts(queue@) =~= q0.drop_last());
            },
            None => {
                lines.push(string_of(chars_of("queue is empty").as_slice()));
            },
        }
        assert(texts(lines@) =~= queue_outcome(queue_arg(text@), q0).1);
        return (lines, false);
    }
    if arg.len() == 0 || spells(arg.as_slice(), "ls") || spells(arg.as_slice(), "list") {
        if n == 0 {
            lines.push(string_of(chars_of("queue is empty").as_slice()));
            assert(texts(lines@) =~= queue_outcome(queue_arg(text@), q0).1);
            return (lines, false);
        }
        let mut head = string_of(chars_of("queued (").as_slice());
        push_str_chars(&mut head, decimal_text(n as u64).as_str());
        push_str_chars(&mut head, "):");
        lines.push(head);
        let ghost f = |i: int| "  "@ + decimal((i + 1) as nat) + ". "@ + sanitized(q0[i]);
        let ghost first = seq!["queued ("@ + decimal(n as nat) + "):"@];
        assert(texts(lines@) =~= first);
        let mut i: usize = 0;
        while i < n
            invariant
                i <= n,
                n == queue@.len(),
                q0 == texts(queue@),
                forall|j: int| #[trigger] f(j) == "  "@ + decimal((j + 1) as nat) + ". "@ + sanitized(q0[j]),
                texts(lines@) == first + Seq::new(i as nat, f),
            decreases n - i,
        {
            let mut l = string_of(chars_of("  ").as_slice());
            push_str_chars(&mut l, decimal_text((i + 1) as u64).as_str());
            push_str_chars(&mut l, ". ");
            push_str_chars(&mut l, sanitize_output(queue[i].as_str()).as_str());
            assert(q0[i as int] == queue@[i as int]@);
            assert(l@ == f(i as int));
            let ghost before = lines@;
            lines.push(l);
            assert(texts(lines@) =~= texts(before).push(f(i as int)));
            assert(Seq::new((i + 1) as nat, f) =~= Seq::new(i as nat, f).push(f(i as int)));
            i = i + 1;
        }
        assert(texts(lines@) =~= queue_outcome(queue_arg(text@), q0).1);
        return (lines, false);
    }
    lines.push(string_of(chars_of("usage: /queue [ls|clear|pop]").as_slice()));
    assert(texts(lines@) =~= queue_outcome(queue_arg(text@), q0).1);
    (lines, true)
}

/// The words of a slash command as the command handlers read them: the
/// line trimmed, then split at its first two spaces (the third word keeps
/// any further spaces).
pub open spec fn slash_words_of(text: Seq<char>) -> Seq<Seq<char>> {
    let t = trim(text);
    let i = crate::edit::first_index(t, ' ');
    if i < 0 {
        seq![t]
    } else {
        let rest = t.skip(i + 1);
        let j = crate::edit::first_index(rest, ' ');
        if j < 0 {
            seq![t.take(i), rest]
        } else {
            seq![t.take(i), rest.take(j), rest.skip(j + 1)]
        }
    }
}

/// Splits a slash command into its words (see `slash_words_of`).
pub fn slash_words(text: &str) -> (r: Vec<String>)
    ensures
        crate::filter::views(r@) == slash_words_of(text@),
{
    let t = crate::text::trimmed_chars(text);
    let mut r: Vec<String> = Vec::new();
    proof {
        crate::edit::lemma_first_index(t@, ' ');
    }
    match crate::edit::first_index_of(t.as_slice(), ' ') {
        None => {
            r.push(string_of(t.as_slice()));
        },
        Some(i) => {
            assert(i < t.len());
            r.push(string_of(crate::edit::slice_take(t.as_slice(), i).as_slice()));
            let rest = crate::edit::slice_skip(t.as_slice(), i + 1);
            proof {
                crate::edit::lemma_first_index(rest@, ' ');
            }
            match crate::edit::first_index_of(rest.as_slice(), ' ') {
                None => {
                    r.push(string_of(rest.as_slice()));
                },
                Some(j) => {
                    assert(j < rest.len());
                    r.push(string_of(crate::edit::slice_take(rest.as_slice(), j).as_slice()));
                    r.push(string_of(crate::edit::slice_skip(rest.as_slice(), j + 1).as_slice()));
                },
            }
        },
    }
    assert(crate::filter::views(r@) =~= slash_words_of(text@));
    r
}

/// Where a line that runs goes.
pub enum LineRoute {
    /// `/queue`: see `queue_command`.
    Queue,
    /// `/btw <message>`: a side question with this message.
    SideQuestion(String),
    /// `/btw` without a message: show its usage.
    SideQuestionUsage,
    /// A `.` line: see `dot_command`.
    Dot,
    /// A slash command with its words (see `slash_words`).
    Slash(Vec<String>),
    /// `!<command>`: run the command (trimmed) in a shell.
    Shell(String),
    /// `!` without a command: refused.
    ShellEmpty,
    /// A message for the agent.
    Message,
}

/// The route as a kind (0 queue, 1 side question, 2 its usage, 3 dot,
/// 4 slash, 5 shell, 6 empty shell, 7 message) and its words.
pub open spec fn route_view(r: LineRoute) -> (int, Seq<Seq<char>>) {
    match r {
        LineRoute::Queue => (0, Seq::empty()),
        LineRoute::SideQuestion(m) => (1, seq![m@]),
        LineRoute::SideQuestionUsage => (2, Seq::empty()),
        LineRoute::Dot => (3, Seq::empty()),
        LineRoute::Slash(w) => (4, crate::filter::views(w@)),
        LineRoute::Shell(c) => (5, seq![c@]),
        LineRoute::ShellEmpty => (6, Seq::empty()),
        LineRoute::Message => (7, Seq::empty()),
    }
}

/// Where a line that runs goes: `/queue` and `/btw` first (after leading
/// white space), then by its first character: `.`, `/`, `!`, or a message.
pub open spec fn route_of(text: Seq<char>) -> (int, Seq<Seq<char>>) {
    let t = trimmed_start(text);
    if t == "/queue"@ || starts_with(t, "/queue "@) {
        (0, Seq::empty())
    } else if t == "/btw"@ || starts_with(t, "/btw "@) {
        let m = trim(t.skip(4));
        if m.len() == 0 {
            (2, Seq::empty())
        } else {
            (1, seq![m])
        }
    } else if starts_with(text, seq!['.']) {
        (3, Seq::empty())
    } else if starts_with(text, seq!['/']) {
        (4, slash_words_of(text))
    } else if starts_with(text, seq!['!']) {
        let c = trim(text.skip(1));
        if c.len() == 0 {
            (6, Seq::empty())
        } else {
            (5, seq![c])
        }
    } else {
        (7, Seq::empty())
    }
}

/// Whether `text` starts with the character `c`.
fn first_is(text: &str, c: char) -> (b: bool)
    ensures
        b == starts_with(text@, seq![c]),
{
    let v = chars_of(text);
    let r = v.len() > 0 && v[0] == c;
    assert(r == starts_with(text@, seq![c])) by {
        if v@.len() > 0 {
            assert(text@.take(1) =~= seq![text@[0]]);
            if text@.take(1) =~= seq![c] {
                assert(text@.take(1)[0] == c);
            }
        }
    }
    r
}

/// Where a line that runs goes.
pub fn route_line(text: &str) -> (r: LineRoute)
    ensures
        route_view(r) == route_of(text@),
{
    let t = trim_start_chars(text);
    let ts = t.as_slice();
    if spells(ts, "/queue") || begins(ts, "/queue ") {
        return LineRoute::Queue;
    }
    if spells(ts, "/btw") || begins(ts, "/btw ") {
        proof {
            reveal_strlit("/btw");
            reveal_strlit("/btw ");
        }
        let after = crate::edit::slice_skip(ts, 4);
        let m = crate::text::trimmed_chars(string_of(after.as_slice()).as_str());
        if m.len() == 0 {
            return LineRoute::SideQuestionUsage;
        }
        let r = LineRoute::SideQuestion(string_of(m.as_slice()));
        assert(route_view(r).1 =~= route_of(text@).1);
        return r;
    }
    if first_is(text, '.') {
        return LineRoute::Dot;
    }
    if first_is(text, '/') {
        return LineRoute::Slash(slash_words(text));
    }
    if first_is(text, '!') {
        let v = chars_of(text);
        let after = crate::edit::slice_skip(v.as_slice(), 1);
        let c = crate::text::trimmed_chars(string_of(after.as_slice()).as_str());
        if c.len() == 0 {
            return LineRoute::ShellEmpty;
        }
        let r = LineRoute::Shell(string_of(c.as_slice()));
        assert(route_view(r).1 =~= route_of(text@).1);
        return r;
    }
    LineRoute::Message
}

/// The lines that echo a command into the chat view: each line of it
/// (as `str::lines` splits), cleaned and marked `> `, then an empty line.
pub open spec fn echo_of(text: Seq<char>) -> Seq<Seq<char>> {
    let ls = crate::stream::text_lines(text);
    Seq::new(ls.len(), |i: int| "> "@ + sanitized(ls[i])).push(Seq::empty())
}

/// The lines that echo a command into the chat view.
pub fn echo_lines(text: &str) -> (r: Vec<String>)
    ensures
        crate::filter::views(r@) == echo_of(text@),
{
    let v = chars_of(text);
    let ls = crate::stream::lines_of(v.as_slice());
    let ghost lv = crate::filter::views(ls@);
    let ghost f = |i: int| "> "@ + sanitized(lv[i]);
    let mut r: Vec<String> = Vec::new();
    let mut i: usize = 0;
    while i < ls.len()
        invariant
            i <= ls@.len(),
            lv == crate::filter::views(ls@),
            forall|j: int| #[trigger] f(j) == "> "@ + sanitized(lv[j]),
            crate::filter::views(r@) == Seq::new(i as nat, f),
        decreases ls@.len() - i,
    {
        let mut l = string_of(chars_of("> ").as_slice());
        push_str_chars(&mut l, sanitize_output(ls[i].as_str()).as_str());
        assert(lv[i as int] == ls@[i as int]@);
        assert(l@ == f(i as int));
        let ghost before = r@;
        r.push(l);
        assert(crate::filter::views(r@) =~= crate::filter::views(before).push(f(i as int)));
        assert(Seq::new((i + 1) as nat, f) =~= Seq::new(i as nat, f).push(f(i as int)));
        i = i + 1;
    }
    r.push(String::new());
    assert(crate::filter::views(r@) =~= echo_of(text@));
    r
}

} // verus!
