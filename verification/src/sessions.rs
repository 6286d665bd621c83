//! `/sessions`: which saved sessions a request names (all recent ones, or
//! those whose id starts with a prefix, to load or to delete), and what the
//! command answers for the sessions that were found. Reading, deleting and
//! loading the stored sessions is left to the caller.
use vstd::prelude::*;

use crate::edit::{chars_eq, slice_take, take_chars};
use crate::text::{
    chars_of, decimal, decimal_text, floor_index, floor_index_of, is_boundary, lemma_floor_index,
    push_chars, push_str_chars, string_of, trim, trimmed_chars,
};

verus! {

/// What `/sessions` was asked for.
pub enum SessionsRequest {
    /// `/sessions`: list the recent sessions.
    List,
    /// `/sessions delete <prefix>`: delete the session whose id starts with
    /// the prefix.
    Delete(String),
    /// `/sessions <prefix>`: load the session whose id starts with the
    /// prefix.
    Load(String),
}

/// What the command shows of a saved session.
pub struct SessionSummary {
    /// The session's id (ids are UUIDs; the first eight bytes are shown).
    pub id: String,
    /// When it was last saved, as the caller formats the time stamp.
    pub updated: String,
    /// How many messages it holds.
    pub message_count: usize,
    /// The model it talks to.
    pub model: String,
    /// The content of its last message, if it has one.
    pub last_message: Option<String>,
}

/// What `/sessions` answers.
pub enum SessionsReply {
    /// A single line.
    Notice(String),
    /// A heading followed by one line per session.
    Listing(String, Vec<String>),
    /// Delete the session with this id, then show the message.
    Delete { id: String, message: String },
    /// Load the one session that was found, then show the message.
    Load { message: String },
}

/// The request that the words of a `/sessions` line make (the command
/// itself is the first word).
pub open spec fn request_kind(args: Seq<Seq<char>>) -> (int, Seq<char>) {
    if args.len() < 2 {
        (0, Seq::empty())
    } else if args[1] == "delete"@ && args.len() >= 3 {
        (1, trim(args[2]))
    } else {
        (2, trim(args[1]))
    }
}

/// The kind of a request with its prefix, as `request_kind` numbers them.
pub open spec fn request_view(r: SessionsRequest) -> (int, Seq<char>) {
    match r {
        SessionsRequest::List => (0, Seq::empty()),
        SessionsRequest::Delete(p) => (1, p@),
        SessionsRequest::Load(p) => (2, p@),
    }
}

/// The words of the line as texts.
pub open spec fn words_view(args: Seq<String>) -> Seq<Seq<char>> {
    args.map_values(|a: String| a@)
}

/// Reads the request from the words of a `/sessions` line.
pub fn sessions_request(args: &Vec<String>) -> (r: SessionsRequest)
    ensures
        request_view(r) == request_kind(words_view(args@)),
{
    let ghost w = words_view(args@);
    if args.len() < 2 {
        return SessionsRequest::List;
    }
    assert(w[1] == args@[1]@);
    let first = chars_of(args[1].as_str());
    let del = chars_of("delete");
    let is_delete = chars_eq(first.as_slice(), del.as_slice());
    if is_delete && args.len() >= 3 {
        assert(w[2] == args@[2]@);
        let p = trimmed_chars(args[2].as_str());
        SessionsRequest::Delete(string_of(p.as_slice()))
    } else {
        let p = trimmed_chars(args[1].as_str());
        SessionsRequest::Load(string_of(p.as_slice()))
    }
}

/// The first eight bytes of an id, as characters.
pub open spec fn short_id(id: Seq<char>) -> Seq<char> {
    id.take(floor_index(id, 8))
}

/// The id can be cut after its eighth byte.
pub open spec fn id_cut_ok(id: Seq<char>) -> bool {
    is_boundary(id, 8)
}

/// `...` and the first `n` characters of the last message, or nothing.
pub open spec fn preview(last: Option<String>, n: int) -> Seq<char> {
    match last {
        Some(c) => "..."@ + take_chars(c@, n),
        None => Seq::empty(),
    }
}

/// The line that lists a session: short id, time, message count, model and
/// the start of the last message.
pub open spec fn listing_line(s: SessionSummary) -> Seq<char> {
    "  "@ + short_id(s.id@) + "  "@ + s.updated@ + "  "@ + decimal(s.message_count as nat)
        + "msgs  "@ + s.model@ + "  "@ + preview(s.last_message, 30)
}

/// `lines` lists `found`, one line per session, in order.
pub open spec fn lists(lines: Seq<String>, found: Seq<SessionSummary>) -> bool {
    &&& lines.len() == found.len()
    &&& forall|i: int| 0 <= i < found.len() ==> #[trigger] lines[i]@ == listing_line(found[i])
}

/// The sessions whose lines are shown can have their ids cut.
pub open spec fn replies_ok(req: SessionsRequest, found: Seq<SessionSummary>) -> bool {
    !(req is Load && found.len() == 1) ==> forall|i: int|
        0 <= i < found.len() ==> id_cut_ok(#[trigger] found[i].id@)
}

/// What `/sessions` answers for a request and the sessions it found.
pub open spec fn reply_ok(req: SessionsRequest, found: Seq<SessionSummary>, r: SessionsReply) -> bool {
    let n = found.len();
    match req {
        SessionsRequest::List => if n == 0 {
            r matches SessionsReply::Notice(m) && m@ == "no saved sessions"@
        } else {
            r matches SessionsReply::Listing(h, ls) && h@ == "recent sessions ("@ + decimal(n)
                + "):"@ && lists(ls@, found)
        },
        SessionsRequest::Delete(p) => if n == 0 {
            r matches SessionsReply::Notice(m) && m@ == "no session matching '"@ + p@ + "'"@
        } else if n == 1 {
            r matches SessionsReply::Delete { id, message } && id@ == found[0].id@ && message@
                == "deleted session "@ + short_id(found[0].id@) + " "@ + preview(
                found[0].last_message,
                40,
            )
        } else {
            r matches SessionsReply::Listing(h, ls) && h@ == "multiple sessions match '"@ + p@
                + "', be more specific"@ && lists(ls@, found)
        },
        SessionsRequest::Load(p) => if n == 0 {
            r matches SessionsReply::Notice(m) && m@ == "no session matching '"@ + p@ + "'"@
        } else if n == 1 {
            r matches SessionsReply::Load { message } && message@ == "loaded session ("@
                + decimal(found[0].message_count as nat) + " msgs)"@
        } else {
            r matches SessionsReply::Listing(h, ls) && h@ == "multiple sessions match '"@ + p@
                + "':"@ && lists(ls@, found)
        },
    }
}

/// A text of its own holding `t`.
fn text_of(t: &str) -> (r: String)
    ensures
        r@ == t@,
{
    string_of(chars_of(t).as_slice())
}

/// The first eight bytes of `id`.
fn short_id_of(id: &String) -> (r: String)
    ensures
        r@ == short_id(id@),
{
    let v = chars_of(id.as_str());
    let (k, _) = floor_index_of(v.as_slice(), 8);
    proof {
        lemma_floor_index(v@, 8);
    }
    let t = slice_take(v.as_slice(), k);
    string_of(t.as_slice())
}

/// `...` and the first `n` characters of the last message, or nothing.
fn preview_of(last: &Option<String>, n: usize) -> (r: String)
    ensures
        r@ == preview(*last, n as int),
{
    match last {
        Some(c) => {
            let mut r = text_of("...");
            let v = chars_of(c.as_str());
            let t = slice_take(v.as_slice(), n);
            push_chars(&mut r, t.as_slice());
            r
        },
        None => String::new(),
    }
}

/// The line that lists a session.
fn listing_line_of(s: &SessionSummary) -> (r: String)
    ensures
        r@ == listing_line(*s),
{
    let mut r = text_of("  ");
    let id = short_id_of(&s.id);
    push_str_chars(&mut r, id.as_str());
    push_str_chars(&mut r, "  ");
    push_str_chars(&mut r, s.updated.as_str());
    push_str_chars(&mut r, "  ");
    let count = decimal_text(s.message_count as u64);
    push_str_chars(&mut r, count.as_str());
    push_str_chars(&mut r, "msgs  ");
    push_str_chars(&mut r, s.model.as_str());
    push_str_chars(&mut r, "  ");
    let p = preview_of(&s.last_message, 30);
    push_str_chars(&mut r, p.as_str());
    r
}

/// One listing line per session, in order.
fn listing_of(found: &Vec<SessionSummary>) -> (r: Vec<String>)
    ensures
        lists(r@, found@),
{
    let mut r: Vec<String> = Vec::new();
    let mut i: usize = 0;
    while i < found.len()
        invariant
            i <= found@.len(),
            r@.len() == i,
            forall|j: int| 0 <= j < i ==> #[trigger] r@[j]@ == listing_line(found@[j]),
        decreases found@.len() - i,
    {
        let line = listing_line_of(&found[i]);
        r.push(line);
        i = i + 1;
    }
    r
}

/// `before`, the prefix, then `after`.
fn quoted(before: &str, p: &String, after: &str) -> (r: String)
    ensures
        r@ == before@ + p@ + after@,
{
    let mut r = text_of(before);
    push_str_chars(&mut r, p.as_str());
    push_str_chars(&mut r, after);
    r
}

/// What `/sessions` answers for a request and the sessions it found.
pub fn sessions_reply(req: SessionsRequest, found: &Vec<SessionSummary>) -> (r: SessionsReply)
    requires
        replies_ok(req, found@),
    ensures
        reply_ok(req, found@, r),
{
    let n = found.len();
    match req {
        SessionsRequest::List => {
            if n == 0 {
                SessionsReply::Notice(text_of("no saved sessions"))
            } else {
                let count = decimal_text(n as u64);
                let h = quoted("recent sessions (", &count, "):");
                SessionsReply::Listing(h, listing_of(found))
            }
        },
        SessionsRequest::Delete(p) => {
            if n == 0 {
                SessionsReply::Notice(quoted("no session matching '", &p, "'"))
            } else if n == 1 {
                let s = &found[0];
                let mut message = text_of("deleted session ");
                let id8 = short_id_of(&s.id);
                push_str_chars(&mut message, id8.as_str());
                push_str_chars(&mut message, " ");
                let tail = preview_of(&s.last_message, 40);
                push_str_chars(&mut message, tail.as_str());
                SessionsReply::Delete { id: text_of(s.id.as_str()), message }
            } else {
                let h = quoted("multiple sessions match '", &p, "', be more specific");
                SessionsReply::Listing(h, listing_of(found))
            }
        },
        SessionsRequest::Load(p) => {
            if n == 0 {
                SessionsReply::Notice(quoted("no session matching '", &p, "'"))
            } else if n == 1 {
                let count = decimal_text(found[0].message_count as u64);
                SessionsReply::Load { message: quoted("loaded session (", &count, " msgs)") }
            } else {
                let h = quoted("multiple sessions match '", &p, "':");
                SessionsReply::Listing(h, listing_of(found))
            }
        },
    }
}

} // verus!
