//! Showing a run of the agent as it streams: reasoning, the answer (drawn
//! again as markdown while it grows), tool calls, errors and the end of the
//! run, as a step from the stream's state and an event to the next state
//! and the writes to make. Also the lines of the task list that the agent
//! keeps.
use vstd::prelude::*;

use crate::events::{sanitize_output, sanitized};
use crate::edit::{first_index, first_index_of, lemma_first_index, slice_skip, slice_take};
use crate::color::Color;
use crate::filter::views;
use crate::styled::{markdown_events, markdown_to_styled, rendered};
use crate::table::{entries_view, LineEntry};
use crate::statusline::{join_texts, joined};
use crate::text::{chars_of, decimal, decimal_text, push_str_chars, string_of};

verus! {

/// The colors of the chat view's lines that a run writes.
#[derive(Clone, Copy, Debug, PartialEq, Eq, Structural)]
pub enum StreamColor {
    Reasoning,
    AgentText,
    ToolCall,
    Secondary,
    Success,
    Error,
}

/// What the chat view remembers of the run being shown.
pub struct StreamState {
    /// The current line of the chat view holds the agent's output.
    pub line_started: bool,
    /// The last output was reasoning.
    pub was_reasoning: bool,
    /// The answer received so far (cleaned of control characters).
    pub response: String,
    /// The chat line where the answer's drawing starts, once drawn.
    pub response_start: Option<usize>,
}

/// What the agent sends while it runs. Tool calls come with their summary
/// already formatted.
pub enum AgentEvent {
    Reasoning(String),
    Token(String),
    ToolCall(String),
    SubagentToolCall(String),
    Done,
    Error(String),
}

/// A write into the chat view.
pub enum StreamOp {
    /// Streamed text.
    Write(String, StreamColor),
    /// Whole lines.
    WriteLine(String, StreamColor),
    /// Draw the answer (the text given) as markdown, its first line
    /// prefixed with `< `, from this chat line on.
    Render(usize, String),
    /// The run has ended: stop listening to it.
    Stop,
}

/// The state as values.
pub struct StreamView {
    pub line_started: bool,
    pub was_reasoning: bool,
    pub response: Seq<char>,
    pub response_start: Option<usize>,
}

/// A write as values.
pub enum OpView {
    Write(Seq<char>, StreamColor),
    WriteLine(Seq<char>, StreamColor),
    Render(usize, Seq<char>),
    Stop,
}

pub open spec fn state_view(s: StreamState) -> StreamView {
    StreamView {
        line_started: s.line_started,
        was_reasoning: s.was_reasoning,
        response: s.response@,
        response_start: s.response_start,
    }
}

pub open spec fn op_view(o: StreamOp) -> OpView {
    match o {
        StreamOp::Write(t, c) => OpView::Write(t@, c),
        StreamOp::WriteLine(t, c) => OpView::WriteLine(t@, c),
        StreamOp::Render(n, t) => OpView::Render(n, t@),
        StreamOp::Stop => OpView::Stop,
    }
}

pub open spec fn ops_view(v: Seq<StreamOp>) -> Seq<OpView> {
    v.map_values(|o: StreamOp| op_view(o))
}

/// No line started, no reasoning, no answer.
pub open spec fn cleared(s: StreamView) -> StreamView {
    StreamView { line_started: false, was_reasoning: false, response: Seq::empty(), response_start: None }
}

/// The effect of an event: the next state and the writes. `show_reasoning`
/// tells whether reasoning is shown; `buffer_len` is the number of lines of
/// the chat view, where a new answer starts.
pub open spec fn stream_outcome(s: StreamView, ev: AgentEvent, show_reasoning: bool, buffer_len: usize) -> (StreamView, Seq<OpView>) {
    match ev {
        AgentEvent::Reasoning(t) => if !show_reasoning {
            (s, Seq::empty())
        } else {
            (
                StreamView { line_started: true, was_reasoning: true, ..s },
                (if s.line_started {
                    Seq::empty()
                } else {
                    seq![OpView::Write("< "@, StreamColor::Reasoning)]
                }) + seq![OpView::Write(sanitized(t@), StreamColor::Reasoning)],
            )
        },
        AgentEvent::Token(t) => {
            let s1 = if s.was_reasoning {
                cleared(s)
            } else {
                s
            };
            let pre = if s.was_reasoning {
                seq![OpView::WriteLine(Seq::empty(), StreamColor::AgentText)]
            } else {
                Seq::empty()
            };
            let r = s1.response + sanitized(t@);
            if r.len() == 0 {
                (StreamView { response: r, ..s1 }, pre)
            } else {
                let start = match s1.response_start {
                    Some(n) => n,
                    None => buffer_len,
                };
                (
                    StreamView { line_started: true, response: r, response_start: Some(start), ..s1 },
                    pre + seq![OpView::Render(start, r)],
                )
            }
        },
        AgentEvent::ToolCall(summary) => (
            cleared(s),
            (if s.line_started {
                seq![OpView::WriteLine(Seq::empty(), StreamColor::AgentText)]
            } else {
                Seq::empty()
            }) + seq![OpView::WriteLine(sanitized("◈ "@ + summary@), StreamColor::ToolCall)],
        ),
        AgentEvent::SubagentToolCall(summary) => (
            s,
            seq![OpView::WriteLine(sanitized("⌥ "@ + summary@), StreamColor::ToolCall)],
        ),
        AgentEvent::Done => (
            cleared(s),
            (if s.response.len() > 0 {
                match s.response_start {
                    Some(n) => seq![OpView::Render(n, s.response)],
                    None => Seq::empty(),
                }
            } else if !s.line_started {
                seq![OpView::Write("< "@, StreamColor::AgentText)]
            } else {
                Seq::empty()
            }) + seq![
                OpView::WriteLine(Seq::empty(), StreamColor::AgentText),
                OpView::WriteLine(Seq::empty(), StreamColor::AgentText),
                OpView::Stop,
            ],
        ),
        AgentEvent::Error(e) => (
            cleared(s),
            seq![
                OpView::WriteLine("error: "@ + sanitized(e@), StreamColor::Error),
                OpView::Stop,
            ],
        ),
    }
}

/// A text of its own holding `t`.
fn text_of(t: &str) -> (r: String)
    ensures
        r@ == t@,
{
    string_of(chars_of(t).as_slice())
}

/// `prefix` followed by `t`, cleaned of control characters.
fn clean_line(prefix: &str, t: &String) -> (r: String)
    ensures
        r@ == sanitized(prefix@ + t@),
{
    let mut joined = text_of(prefix);
    push_str_chars(&mut joined, t.as_str());
    sanitize_output(joined.as_str())
}

/// Applies an event to the stream's state and returns the writes to make,
/// in order.
pub fn stream_step(s: &mut StreamState, ev: AgentEvent, show_reasoning: bool, buffer_len: usize) -> (ops: Vec<StreamOp>)
    ensures
        (state_view(*final(s)), ops_view(ops@)) == stream_outcome(state_view(*old(s)), ev, show_reasoning, buffer_len),
{
    let ghost s0 = state_view(*s);
    let mut ops: Vec<StreamOp> = Vec::new();
    proof {
        reveal_strlit("");
    }
    match ev {
        AgentEvent::Reasoning(t) => {
            if show_reasoning {
                if !s.line_started {
                    ops.push(StreamOp::Write(text_of("< "), StreamColor::Reasoning));
                    s.line_started = true;
                }
                ops.push(StreamOp::Write(sanitize_output(t.as_str()), StreamColor::Reasoning));
                s.was_reasoning = true;
            }
        },
        AgentEvent::Token(t) => {
            if s.was_reasoning {
                ops.push(StreamOp::WriteLine(String::new(), StreamColor::AgentText));
                s.line_started = false;
                s.was_reasoning = false;
                s.response = String::new();
                s.response_start = None;
            }
            let clean = sanitize_output(t.as_str());
            push_str_chars(&mut s.response, clean.as_str());
            if chars_of(s.response.as_str()).len() > 0 {
                let start = match s.response_start {
                    Some(n) => n,
                    None => buffer_len,
                };
                s.response_start = Some(start);
                ops.push(StreamOp::Render(start, text_of(s.response.as_str())));
                s.line_started = true;
            }
        },
        AgentEvent::ToolCall(summary) => {
            if s.line_started {
                ops.push(StreamOp::WriteLine(String::new(), StreamColor::AgentText));
            }
            ops.push(StreamOp::WriteLine(clean_line("◈ ", &summary), StreamColor::ToolCall));
            s.line_started = false;
            s.was_reasoning = false;
            s.response = String::new();
            s.response_start = None;
        },
        AgentEvent::SubagentToolCall(summary) => {
            ops.push(StreamOp::WriteLine(clean_line("⌥ ", &summary), StreamColor::ToolCall));
        },
        AgentEvent::Done => {
            if chars_of(s.response.as_str()).len() > 0 {
                match s.response_start {
                    Some(n) => ops.push(StreamOp::Render(n, text_of(s.response.as_str()))),
                    None => {},
                }
            } else if !s.line_started {
                ops.push(StreamOp::Write(text_of("< "), StreamColor::AgentText));
            }
            ops.push(StreamOp::WriteLine(String::new(), StreamColor::AgentText));
            ops.push(StreamOp::WriteLine(String::new(), StreamColor::AgentText));
            ops.push(StreamOp::Stop);
            s.line_started = false;
            s.was_reasoning = false;
            s.response = String::new();
            s.response_start = None;
        },
        AgentEvent::Error(e) => {
            let mut line = text_of("error: ");
            let clean = sanitize_output(e.as_str());
            push_str_chars(&mut line, clean.as_str());
            ops.push(StreamOp::WriteLine(line, StreamColor::Error));
            ops.push(StreamOp::Stop);
            s.line_started = false;
            s.was_reasoning = false;
            s.response = String::new();
            s.response_start = None;
        },
    }
    assert(ops_view(ops@) =~= stream_outcome(s0, ev, show_reasoning, buffer_len).1);
    ops
}

/// The end of a run and an error both stop it, as the last write, and
/// leave nothing of the answer or of a started line; hidden reasoning
/// changes nothing.
pub proof fn law_run_end_clears(s: StreamView, ev: AgentEvent, show_reasoning: bool, buffer_len: usize)
    ensures
        (ev is Done || ev is Error) ==> {
            let (s2, ops) = stream_outcome(s, ev, show_reasoning, buffer_len);
            &&& s2 == cleared(s)
            &&& ops.len() > 0
            &&& ops.last() == OpView::Stop
        },
        (ev is Reasoning && !show_reasoning) ==> stream_outcome(s, ev, show_reasoning, buffer_len) == (s, Seq::<OpView>::empty()),
{
}

/// An entry of the agent's task list.
pub struct TodoItem {
    pub content: String,
    /// `completed`, `in_progress`, `cancelled`, or anything else for open.
    pub status: String,
    /// `high`, `medium`, or anything else for low.
    pub priority: String,
}

/// The mark of a task's status.
pub open spec fn status_icon(status: Seq<char>) -> Seq<char> {
    if status == "completed"@ {
        "[x]"@
    } else if status == "in_progress"@ {
        "[>]"@
    } else if status == "cancelled"@ {
        "[-]"@
    } else {
        "[ ]"@
    }
}

/// The color of a task's line.
pub open spec fn status_color(status: Seq<char>) -> StreamColor {
    if status == "completed"@ {
        StreamColor::Success
    } else if status == "in_progress"@ {
        StreamColor::ToolCall
    } else {
        StreamColor::Secondary
    }
}

/// The mark of a task's priority.
pub open spec fn priority_mark(priority: Seq<char>) -> Seq<char> {
    if priority == "high"@ {
        "!!"@
    } else if priority == "medium"@ {
        "! "@
    } else {
        "  "@
    }
}

/// How many tasks are completed.
pub open spec fn completed_count(items: Seq<TodoItem>) -> nat
    decreases items.len(),
{
    if items.len() == 0 {
        0
    } else {
        completed_count(items.drop_last()) + if items.last().status@ == "completed"@ {
            1nat
        } else {
            0nat
        }
    }
}

/// The lines that show the task list after the agent wrote it: `tasks
/// cleared` for an empty list, else a count of done tasks and one line per
/// task with its status and priority marks.
pub open spec fn todo_lines_of(items: Seq<TodoItem>) -> Seq<(StreamColor, Seq<char>)> {
    if items.len() == 0 {
        seq![(StreamColor::Secondary, "tasks cleared"@)]
    } else {
        seq![
            (StreamColor::ToolCall, "tasks  "@ + decimal(completed_count(items)) + " done / "@
                + decimal(items.len()) + " total"@),
        ] + Seq::new(
            items.len(),
            |i: int|
                (
                    status_color(items[i].status@),
                    "  "@ + status_icon(items[i].status@) + " "@ + priority_mark(
                        items[i].priority@,
                    ) + " "@ + items[i].content@,
                ),
        )
    }
}

pub open spec fn colored_lines_view(v: Seq<(StreamColor, String)>) -> Seq<(StreamColor, Seq<char>)> {
    v.map_values(|l: (StreamColor, String)| (l.0, l.1@))
}

/// Whether `a` is the text `b`.
fn same_text(a: &String, b: &str) -> (r: bool)
    ensures
        r == (a@ == b@),
{
    let x = chars_of(a.as_str());
    let y = chars_of(b);
    crate::edit::chars_eq(x.as_slice(), y.as_slice())
}

/// The line of one task.
fn todo_line(item: &TodoItem) -> (r: (StreamColor, String))
    ensures
        r.0 == status_color(item.status@),
        r.1@ == "  "@ + status_icon(item.status@) + " "@ + priority_mark(item.priority@) + " "@
            + item.content@,
{
    let done = same_text(&item.status, "completed");
    let going = same_text(&item.status, "in_progress");
    let dropped = same_text(&item.status, "cancelled");
    let icon = if done {
        "[x]"
    } else if going {
        "[>]"
    } else if dropped {
        "[-]"
    } else {
        "[ ]"
    };
    let color = if done {
        StreamColor::Success
    } else if going {
        StreamColor::ToolCall
    } else {
        StreamColor::Secondary
    };
    let mark = if same_text(&item.priority, "high") {
        "!!"
    } else if same_text(&item.priority, "medium") {
        "! "
    } else {
        "  "
    };
    let mut line = text_of("  ");
    push_str_chars(&mut line, icon);
    push_str_chars(&mut line, " ");
    push_str_chars(&mut line, mark);
    push_str_chars(&mut line, " ");
    push_str_chars(&mut line, item.content.as_str());
    (color, line)
}

/// The lines that show the task list.
pub fn todo_lines(items: &Vec<TodoItem>) -> (r: Vec<(StreamColor, String)>)
    ensures
        colored_lines_view(r@) == todo_lines_of(items@),
{
    let mut v: Vec<(StreamColor, String)> = Vec::new();
    if items.len() == 0 {
        v.push((StreamColor::Secondary, text_of("tasks cleared")));
        assert(colored_lines_view(v@) =~= todo_lines_of(items@));
        return v;
    }
    let mut done: usize = 0;
    let mut i: usize = 0;
    while i < items.len()
        invariant
            i <= items@.len(),
            done <= i,
            done == completed_count(items@.take(i as int)),
        decreases items@.len() - i,
    {
        assert(items@.take(i + 1).drop_last() =~= items@.take(i as int));
        if same_text(&items[i].status, "completed") {
            done = done + 1;
        }
        i = i + 1;
    }
    assert(items@.take(items@.len() as int) =~= items@);
    let mut head = text_of("tasks  ");
    let d = decimal_text(done as u64);
    push_str_chars(&mut head, d.as_str());
    push_str_chars(&mut head, " done / ");
    let t = decimal_text(items.len() as u64);
    push_str_chars(&mut head, t.as_str());
    push_str_chars(&mut head, " total");
    v.push((StreamColor::ToolCall, head));
    let ghost first = seq![
        (StreamColor::ToolCall, "tasks  "@ + decimal(completed_count(items@)) + " done / "@ + decimal(
            items@.len(),
        ) + " total"@),
    ];
    assert(colored_lines_view(v@) =~= first);
    let mut k: usize = 0;
    while k < items.len()
        invariant
            k <= items@.len(),
            colored_lines_view(v@) == first + Seq::new(
                k as nat,
                |j: int|
                    (
                        status_color(items@[j].status@),
                        "  "@ + status_icon(items@[j].status@) + " "@ + priority_mark(
                            items@[j].priority@,
                        ) + " "@ + items@[j].content@,
                    ),
            ),
        decreases items@.len() - k,
    {
        let l = todo_line(&items[k]);
        let ghost before = v@;
        v.push(l);
        assert(colored_lines_view(v@) =~= colored_lines_view(before).push((l.0, l.1@)));
        let ghost f = |j: int|
            (
                status_color(items@[j].status@),
                "  "@ + status_icon(items@[j].status@) + " "@ + priority_mark(items@[j].priority@)
                    + " "@ + items@[j].content@,
            );
        assert(Seq::new((k + 1) as nat, f) =~= Seq::new(k as nat, f).push(f(k as int)));
        k = k + 1;
    }
    assert(colored_lines_view(v@) =~= todo_lines_of(items@));
    v
}

/// A line without the carriage return that ends it.
pub open spec fn strip_cr(l: Seq<char>) -> Seq<char> {
    if l.len() > 0 && l.last() == '\r' {
        l.drop_last()
    } else {
        l
    }
}

/// The lines of a text as `str::lines` gives them: split at each newline
/// (a carriage return before it goes with it); a final newline ends the
/// last line instead of starting an empty one.
pub open spec fn text_lines(s: Seq<char>) -> Seq<Seq<char>>
    decreases s.len(),
{
    if s.len() == 0 {
        Seq::empty()
    } else {
        let i = first_index(s, '\n');
        if i < 0 {
            seq![s]
        } else {
            proof {
                lemma_first_index(s, '\n');
            }
            seq![strip_cr(s.take(i))] + text_lines(s.skip(i + 1))
        }
    }
}

/// How a tool's output is shown: its length in characters, then the output;
/// with a limit on lines, a longer output shows only its first lines and
/// says how many there are.
pub open spec fn result_summary(output: Seq<char>, limit: Option<usize>) -> Seq<char> {
    let t = sanitized(output);
    let ls = text_lines(t);
    let cut = match limit {
        Some(m) => ls.len() > m,
        None => false,
    };
    if cut {
        let m = limit->0;
        "◈ result ("@ + decimal(t.len()) + " chars, "@ + decimal(ls.len()) + " lines, showing "@
            + decimal(m as nat) + "):\n"@ + joined(ls.take(m as int), seq!['\n'])
    } else {
        "◈ result ("@ + decimal(t.len()) + " chars):\n"@ + t
    }
}

/// The lines of a text as `str::lines` gives them.
pub fn lines_of(v: &[char]) -> (r: Vec<String>)
    ensures
        views(r@) == text_lines(v@),
    decreases v@.len(),
{
    let mut out: Vec<String> = Vec::new();
    let mut rest: Vec<char> = slice_skip(v, 0);
    assert(rest@ =~= v@);
    while rest.len() > 0
        invariant
            views(out@) + text_lines(rest@) == text_lines(v@),
        decreases rest@.len(),
    {
        let ghost before = rest@;
        match first_index_of(rest.as_slice(), '\n') {
            None => {
                out.push(string_of(rest.as_slice()));
                assert(views(out@) =~= views(out@.drop_last()).push(before));
                assert(out@.drop_last() == out@.take(out@.len() - 1));
                rest = Vec::new();
                assert(views(out@) + text_lines(rest@) =~= text_lines(v@)) by {
                    assert(text_lines(before) =~= seq![before]);
                    assert(views(out@.take(out@.len() - 1)) + text_lines(before) == text_lines(v@));
                }
            },
            Some(i) => {
                proof {
                    lemma_first_index(rest@, '\n');
                }
                let line = slice_take(rest.as_slice(), i);
                let n = line.len();
                let line_text = if n > 0 && line[n - 1] == '\r' {
                    string_of(slice_take(line.as_slice(), n - 1).as_slice())
                } else {
                    string_of(line.as_slice())
                };
                assert(line_text@ == strip_cr(before.take(i as int))) by {
                    if n > 0 {
                        assert(line@.take(n - 1) =~= line@.drop_last());
                    }
                }
                let ghost old_out = views(out@);
                out.push(line_text);
                assert(views(out@) =~= old_out.push(strip_cr(before.take(i as int))));
                rest = slice_skip(rest.as_slice(), i + 1);
                assert(text_lines(before) =~= seq![strip_cr(before.take(i as int))] + text_lines(rest@));
                assert(views(out@) + text_lines(rest@) =~= old_out + text_lines(before));
            },
        }
    }
    assert(text_lines(rest@) =~= Seq::<Seq<char>>::empty());
    assert(views(out@) =~= views(out@) + text_lines(rest@));
    out
}

/// How a tool's output is shown, with at most `limit` lines when a limit is
/// given.
pub fn tool_result_summary(output: &str, limit: Option<usize>) -> (r: String)
    ensures
        r@ == result_summary(output@, limit),
{
    let t = sanitize_output(output);
    let v = chars_of(t.as_str());
    let ls = lines_of(v.as_slice());
    let cut = match limit {
        Some(m) => ls.len() > m,
        None => false,
    };
    let mut r = text_of("◈ result (");
    let count = decimal_text(v.len() as u64);
    push_str_chars(&mut r, count.as_str());
    if cut {
        let m = match limit {
            Some(m) => m,
            None => 0,
        };
        push_str_chars(&mut r, " chars, ");
        let total = decimal_text(ls.len() as u64);
        push_str_chars(&mut r, total.as_str());
        push_str_chars(&mut r, " lines, showing ");
        let shown = decimal_text(m as u64);
        push_str_chars(&mut r, shown.as_str());
        push_str_chars(&mut r, "):\n");
        let mut first: Vec<String> = Vec::new();
        let mut i: usize = 0;
        while i < m
            invariant
                i <= m,
                m < ls@.len(),
                views(first@) == views(ls@).take(i as int),
            decreases m - i,
        {
            let ghost prev = first@;
            first.push(text_of(ls[i].as_str()));
            assert(views(first@) =~= views(prev).push(ls@[i as int]@));
            assert(views(ls@)[i as int] == ls@[i as int]@);
            assert(views(ls@).take(i + 1) =~= views(ls@).take(i as int).push(views(ls@)[i as int]));
            i = i + 1;
        }
        let body = join_texts(&first, "\n");
        proof {
            reveal_strlit("\n");
            assert("\n"@ =~= seq!['\n']);
            assert(views(first@) == text_lines(t@).take(m as int));
            assert(limit->0 == m);
        }
        push_str_chars(&mut r, body.as_str());
    } else {
        push_str_chars(&mut r, " chars):\n");
        push_str_chars(&mut r, t.as_str());
    }
    r
}

/// Lines with `marker` and a space put before the text of the first.
pub open spec fn marked(ls: Seq<(Seq<char>, Color)>, marker: Seq<char>) -> Seq<(Seq<char>, Color)> {
    if ls.len() == 0 {
        ls
    } else {
        ls.update(0, (marker + seq![' '] + ls[0].0, ls[0].1))
    }
}

/// The lines an answer is drawn with: its markdown rendered at `max_width`
/// columns, the first line marked `< `; none for an empty answer.
pub open spec fn answer_view(text: Seq<char>, max_width: usize) -> Seq<(Seq<char>, Color)> {
    if text.len() == 0 {
        Seq::empty()
    } else {
        marked(rendered(markdown_events(text), max_width as int), seq!['<'])
    }
}

/// Puts `marker` and a space before the text of the first line.
pub fn mark_first(lines: &mut Vec<LineEntry>, marker: &str)
    ensures
        entries_view(final(lines)@) == marked(entries_view(old(lines)@), marker@),
{
    if lines.len() > 0 {
        let mut t = string_of(chars_of(marker).as_slice());
        t.push(' ');
        push_str_chars(&mut t, lines[0].text.as_str());
        let color = lines[0].color;
        assert(t@ =~= marker@ + seq![' '] + lines@[0].text@);
        let ghost before = entries_view(lines@);
        lines.set(0, LineEntry { text: t, color });
        assert(entries_view(lines@) =~= marked(before, marker@));
    } else {
        assert(entries_view(lines@) =~= marked(entries_view(lines@), marker@));
    }
}

/// The lines an answer is drawn with.
pub fn answer_lines(text: &str, max_width: usize) -> (r: Vec<LineEntry>)
    ensures
        entries_view(r@) == answer_view(text@, max_width),
{
    let mut lines = markdown_to_styled(text, max_width);
    proof {
        reveal_strlit("<");
        assert("<"@ =~= seq!['<']);
    }
    mark_first(&mut lines, "<");
    if chars_of(text).len() == 0 {
        assert(entries_view(lines@) =~= Seq::<(Seq<char>, Color)>::empty());
    }
    lines
}

/// What a tool's result shows: the task list after `write_todo_list`;
/// otherwise nothing when details are off (`None`), else the summary with
/// the line limit given.
pub open spec fn tool_result_view(
    name: Seq<char>,
    output: Seq<char>,
    tasks: Seq<TodoItem>,
    details: Option<Option<usize>>,
) -> Seq<(StreamColor, Seq<char>)> {
    if name == "write_todo_list"@ {
        todo_lines_of(tasks)
    } else {
        match details {
            None => Seq::empty(),
            Some(limit) => seq![(StreamColor::Secondary, result_summary(output, limit))],
        }
    }
}

/// What a tool's result shows.
pub fn tool_result_lines(
    name: &str,
    output: &str,
    tasks: &Vec<TodoItem>,
    details: Option<Option<usize>>,
) -> (r: Vec<(StreamColor, String)>)
    ensures
        colored_lines_view(r@) == tool_result_view(name@, output@, tasks@, details),
{
    let n = chars_of(name);
    let todo = chars_of("write_todo_list");
    if crate::edit::chars_eq(n.as_slice(), todo.as_slice()) {
        return todo_lines(tasks);
    }
    let mut v: Vec<(StreamColor, String)> = Vec::new();
    match details {
        None => {},
        Some(limit) => {
            v.push((StreamColor::Secondary, tool_result_summary(output, limit)));
        },
    }
    assert(colored_lines_view(v@) =~= tool_result_view(name@, output@, tasks@, details));
    v
}

/// What the end of a run knows: the session's token totals and the run's
/// tokens, and the answers of the session, configuration and loop.
pub struct RunEndFacts {
    pub total_input: u64,
    pub total_output: u64,
    pub input_tokens: u64,
    pub output_tokens: u64,
    /// A `/loop` is active.
    pub loop_running: bool,
    /// Automatic compaction is configured on.
    pub compact_enabled: bool,
    /// The session is over its context budget.
    pub needs_compaction: bool,
    /// Sessions are not saved.
    pub no_session: bool,
    /// The active loop has reached its last iteration.
    pub loop_should_stop: bool,
    /// The loop's current iteration.
    pub iteration: u64,
}

/// What the loop does after a run.
pub enum LoopNext {
    /// No loop is active.
    Idle,
    /// The loop stops, with this line.
    Stop(String),
    /// The loop goes on; the next round is told this summary of the answer.
    Continue(String),
}

/// What happens at the end of a run.
pub struct RunEnd {
    pub total_input: u64,
    pub total_output: u64,
    /// Compact the session (`auto-compacting...`).
    pub compact: bool,
    /// Save the session.
    pub save: bool,
    pub next: LoopNext,
}

/// The end of a run: the token totals grow (saturating), the session is
/// compacted when no loop runs, compaction is on, the session needs it and
/// sessions are saved; it is saved unless sessions are off; an active loop
/// stops at its last iteration or goes on with the first 200 characters of
/// the answer.
pub open spec fn run_end_ok(f: RunEndFacts, response: Seq<char>, r: RunEnd) -> bool {
    &&& r.total_input == (if f.total_input + f.input_tokens > u64::MAX {
        u64::MAX as int
    } else {
        f.total_input + f.input_tokens
    })
    &&& r.total_output == (if f.total_output + f.output_tokens > u64::MAX {
        u64::MAX as int
    } else {
        f.total_output + f.output_tokens
    })
    &&& r.compact == (!f.loop_running && f.compact_enabled && f.needs_compaction && !f.no_session)
    &&& r.save == !f.no_session
    &&& if !f.loop_running {
        r.next is Idle
    } else if f.loop_should_stop {
        r.next matches LoopNext::Stop(m) && m@ == "[loop] max iterations ("@ + decimal(
            f.iteration as nat,
        ) + ") reached, stopping"@
    } else {
        r.next matches LoopNext::Continue(t) && t@ == crate::edit::take_chars(response, 200)
    }
}

/// What happens at the end of a run.
pub fn run_end(f: &RunEndFacts, response: &str) -> (r: RunEnd)
    ensures
        run_end_ok(*f, response@, r),
{
    let next = if !f.loop_running {
        LoopNext::Idle
    } else if f.loop_should_stop {
        let mut m = text_of("[loop] max iterations (");
        push_str_chars(&mut m, decimal_text(f.iteration).as_str());
        push_str_chars(&mut m, ") reached, stopping");
        LoopNext::Stop(m)
    } else {
        let v = chars_of(response);
        LoopNext::Continue(string_of(slice_take(v.as_slice(), 200).as_slice()))
    };
    RunEnd {
        total_input: f.total_input.saturating_add(f.input_tokens),
        total_output: f.total_output.saturating_add(f.output_tokens),
        compact: !f.loop_running && f.compact_enabled && f.needs_compaction && !f.no_session,
        save: !f.no_session,
        next,
    }
}

} // verus!
