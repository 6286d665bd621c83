//! The transcript of a loaded session: a heading with the provider, model
//! and version, notices of the context files and compactions, then every
//! message (answers rendered as markdown, other messages line by line with
//! their role's mark).
use vstd::prelude::*;

use crate::color::Color;
use crate::commands::MessageRole;
use crate::stream::{answer_lines, answer_view, lines_of, text_lines};
use crate::table::{entries_view, LineEntry};
use crate::text::{chars_of, decimal, decimal_text, push_str_chars, string_of};

verus! {

/// How a transcript line is colored.
#[derive(Clone, Copy, Debug, PartialEq, Eq, Structural)]
pub enum TranscriptColor {
    Heading,
    AgentText,
    Secondary,
    PromptMarker,
    /// The color the markdown rendering chose.
    Styled(Color),
}

/// A message of a saved session.
pub struct SessionMessage {
    pub role: MessageRole,
    pub content: String,
}

/// What the heading of a transcript shows besides the messages.
pub struct TranscriptHead {
    pub provider: String,
    pub model: String,
    pub version: String,
    /// `AGENTS.md` was loaded.
    pub agents_loaded: bool,
    /// `ARCHITECTURE.md` was loaded.
    pub architecture_loaded: bool,
    /// How many times the session was compacted.
    pub compactions: usize,
    /// The tokens the last compaction saved.
    pub last_savings: u64,
}

pub open spec fn colored_view(v: Seq<(TranscriptColor, String)>) -> Seq<(TranscriptColor, Seq<char>)> {
    v.map_values(|l: (TranscriptColor, String)| (l.0, l.1@))
}

/// A notice and the empty line after it.
pub open spec fn notice(t: Seq<char>) -> Seq<(TranscriptColor, Seq<char>)> {
    seq![(TranscriptColor::Secondary, t), (TranscriptColor::AgentText, Seq::empty())]
}

/// The heading lines.
pub open spec fn head_view(h: TranscriptHead) -> Seq<(TranscriptColor, Seq<char>)> {
    seq![
        (TranscriptColor::Heading, "zerostack "@ + h.provider@ + "  "@ + h.model@ + "  "@ + h.version@),
        (TranscriptColor::AgentText, Seq::empty()),
    ] + (if h.agents_loaded {
        notice("loaded AGENTS.md"@)
    } else {
        Seq::empty()
    }) + (if h.architecture_loaded {
        notice("loaded ARCHITECTURE.md"@)
    } else {
        Seq::empty()
    }) + (if h.compactions > 0 {
        notice(
            "compacted "@ + decimal(h.compactions as nat) + " times (saved ~"@ + decimal(
                h.last_savings as nat,
            ) + " tokens)"@,
        )
    } else {
        Seq::empty()
    })
}

/// The lines of one message, then an empty line: an answer as markdown
/// with its first line marked `<`; a user's message line by line marked
/// `>`; a system message marked `#`.
pub open spec fn message_view(m: SessionMessage, max_width: usize) -> Seq<(TranscriptColor, Seq<char>)> {
    let body = match m.role {
        MessageRole::Assistant => {
            let ls = answer_view(m.content@, max_width);
            Seq::new(ls.len(), |i: int| (TranscriptColor::Styled(ls[i].1), ls[i].0))
        },
        MessageRole::User => {
            let ls = text_lines(m.content@);
            Seq::new(ls.len(), |i: int| (TranscriptColor::PromptMarker, "> "@ + ls[i]))
        },
        MessageRole::System => {
            let ls = text_lines(m.content@);
            Seq::new(ls.len(), |i: int| (TranscriptColor::Secondary, "# "@ + ls[i]))
        },
    };
    body.push((TranscriptColor::AgentText, Seq::empty()))
}

/// The lines of the messages, in order.
pub open spec fn messages_view(ms: Seq<SessionMessage>, max_width: usize) -> Seq<(TranscriptColor, Seq<char>)>
    decreases ms.len(),
{
    if ms.len() == 0 {
        Seq::empty()
    } else {
        messages_view(ms.drop_last(), max_width) + message_view(ms.last(), max_width)
    }
}

/// Appends `t` in color `c`.
fn put(v: &mut Vec<(TranscriptColor, String)>, c: TranscriptColor, t: String)
    ensures
        colored_view(final(v)@) == colored_view(old(v)@).push((c, t@)),
{
    v.push((c, t));
    assert(colored_view(v@) =~= colored_view(old(v)@).push((c, t@)));
}

/// A text of its own holding `t`.
fn text_of(t: &str) -> (r: String)
    ensures
        r@ == t@,
{
    string_of(chars_of(t).as_slice())
}

/// Appends the lines of one message.
fn put_message(v: &mut Vec<(TranscriptColor, String)>, m: &SessionMessage, max_width: usize)
    ensures
        colored_view(final(v)@) == colored_view(old(v)@) + message_view(*m, max_width),
{
    let ghost start = colored_view(v@);
    let ghost body: Seq<(TranscriptColor, Seq<char>)> = message_view(*m, max_width).drop_last();
    match m.role {
        MessageRole::Assistant => {
            let ls = answer_lines(m.content.as_str(), max_width);
            let ghost lv = entries_view(ls@);
            let mut i: usize = 0;
            while i < ls.len()
                invariant
                    i <= ls@.len(),
                    lv == entries_view(ls@),
                    lv == answer_view(m.content@, max_width),
                    colored_view(v@) == start + Seq::new(i as nat, |j: int| (TranscriptColor::Styled(lv[j].1), lv[j].0)),
                decreases ls@.len() - i,
            {
                let c = ls[i].color;
                let t = string_of(chars_of(ls[i].text.as_str()).as_slice());
                let ghost before = colored_view(v@);
                put(v, TranscriptColor::Styled(c), t);
                assert(lv[i as int] == (ls@[i as int].text@, ls@[i as int].color));
                assert(Seq::new((i + 1) as nat, |j: int| (TranscriptColor::Styled(lv[j].1), lv[j].0))
                    =~= Seq::new(i as nat, |j: int| (TranscriptColor::Styled(lv[j].1), lv[j].0)).push(
                    (TranscriptColor::Styled(lv[i as int].1), lv[i as int].0),
                ));
                i = i + 1;
            }
        },
        _ => {
            let user = m.role == MessageRole::User;
            let mark = if user {
                "> "
            } else {
                "# "
            };
            let color = if user {
                TranscriptColor::PromptMarker
            } else {
                TranscriptColor::Secondary
            };
            let ls = lines_of(chars_of(m.content.as_str()).as_slice());
            let ghost lv = crate::filter::views(ls@);
            let mut i: usize = 0;
            while i < ls.len()
                invariant
                    i <= ls@.len(),
                    lv == crate::filter::views(ls@),
                    lv == text_lines(m.content@),
                    colored_view(v@) == start + Seq::new(i as nat, |j: int| (color, mark@ + lv[j])),
                decreases ls@.len() - i,
            {
                let mut t = text_of(mark);
                push_str_chars(&mut t, ls[i].as_str());
                assert(lv[i as int] == ls@[i as int]@);
                put(v, color, t);
                assert(Seq::new((i + 1) as nat, |j: int| (color, mark@ + lv[j])) =~= Seq::new(
                    i as nat,
                    |j: int| (color, mark@ + lv[j]),
                ).push((color, mark@ + lv[i as int])));
                i = i + 1;
            }
            proof {
                reveal_strlit("> ");
                reveal_strlit("# ");
            }
        },
    }
    assert(colored_view(v@) =~= start + body);
    put(v, TranscriptColor::AgentText, String::new());
    assert(message_view(*m, max_width) =~= body.push((TranscriptColor::AgentText, Seq::empty())));
    assert(colored_view(v@) =~= start + message_view(*m, max_width));
}

/// Appends a notice and an empty line.
fn put_notice(v: &mut Vec<(TranscriptColor, String)>, t: String)
    ensures
        colored_view(final(v)@) == colored_view(old(v)@) + notice(t@),
{
    let ghost t0 = t@;
    put(v, TranscriptColor::Secondary, t);
    put(v, TranscriptColor::AgentText, String::new());
    assert(colored_view(v@) =~= colored_view(old(v)@) + notice(t0));
}

/// The transcript of a session: the heading lines, then every message.
pub fn session_transcript(head: &TranscriptHead, messages: &Vec<SessionMessage>, max_width: usize) -> (r: Vec<(TranscriptColor, String)>)
    ensures
        colored_view(r@) == head_view(*head) + messages_view(messages@, max_width),
{
    let mut v: Vec<(TranscriptColor, String)> = Vec::new();
    let mut title = text_of("zerostack ");
    push_str_chars(&mut title, head.provider.as_str());
    push_str_chars(&mut title, "  ");
    push_str_chars(&mut title, head.model.as_str());
    push_str_chars(&mut title, "  ");
    push_str_chars(&mut title, head.version.as_str());
    put(&mut v, TranscriptColor::Heading, title);
    put(&mut v, TranscriptColor::AgentText, String::new());
    if head.agents_loaded {
        put_notice(&mut v, text_of("loaded AGENTS.md"));
    }
    if head.architecture_loaded {
        put_notice(&mut v, text_of("loaded ARCHITECTURE.md"));
    }
    if head.compactions > 0 {
        let mut t = text_of("compacted ");
        push_str_chars(&mut t, decimal_text(head.compactions as u64).as_str());
        push_str_chars(&mut t, " times (saved ~");
        push_str_chars(&mut t, decimal_text(head.last_savings).as_str());
        push_str_chars(&mut t, " tokens)");
        put_notice(&mut v, t);
    }
    assert(colored_view(v@) =~= head_view(*head));
    let mut i: usize = 0;
    assert(messages@.take(0) =~= Seq::<SessionMessage>::empty());
    while i < messages.len()
        invariant
            i <= messages@.len(),
            colored_view(v@) == head_view(*head) + messages_view(messages@.take(i as int), max_width),
        decreases messages@.len() - i,
    {
        put_message(&mut v, &messages[i], max_width);
        assert(messages@.take(i + 1).drop_last() =~= messages@.take(i as int));
        assert(messages@.take(i + 1).last() == messages@[i as int]);
        i = i + 1;
    }
    assert(messages@.take(messages@.len() as int) =~= messages@);
    v
}

} // verus!
