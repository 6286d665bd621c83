//! `/models`: what a request asks for (switch to a quick model, use a model
//! id, list the models, refresh the list) and the lines that list the
//! provider's models or report a failed listing. Fetching the list, the
//! quick models' prices and switching the model are left to the caller.
use vstd::prelude::*;

use crate::advisor::{lines_view, LineKind};
use crate::edit::chars_eq;
use crate::text::{chars_of, decimal, decimal_text, push_str_chars, string_of, trim, trimmed_chars};

verus! {

/// At most this many of the provider's models are listed.
pub const MODEL_LIST_CAP: usize = 50;

/// What `/models` was asked for.
pub enum ModelsRequest {
    /// `/models <name>` naming a quick model: switch to it.
    Quick(String),
    /// `/models <id>`: use this model id with the current provider.
    Model(String),
    /// `/models`: list the quick models and the provider's models.
    List,
    /// `/models refresh`: fetch the provider's list again.
    Refresh,
}

/// A model the provider offers.
pub struct ModelEntry {
    pub id: String,
    /// The name it is shown under.
    pub display: String,
    /// Its context window in tokens, when known.
    pub context_length: Option<u64>,
}

/// The words of the line as texts.
pub open spec fn words_view(args: Seq<String>) -> Seq<Seq<char>> {
    args.map_values(|a: String| a@)
}

/// The request as a kind (0 quick, 1 model id, 2 list, 3 refresh) and its
/// argument.
pub open spec fn request_view(r: ModelsRequest) -> (int, Seq<char>) {
    match r {
        ModelsRequest::Quick(n) => (0, n@),
        ModelsRequest::Model(m) => (1, m@),
        ModelsRequest::List => (2, Seq::empty()),
        ModelsRequest::Refresh => (3, Seq::empty()),
    }
}

/// The request that the words of a `/models` line make, given the names
/// of the quick models.
pub open spec fn models_request_of(args: Seq<Seq<char>>, quick: Seq<Seq<char>>) -> (int, Seq<char>) {
    let refresh = args.len() >= 2 && trim(args[1]) == "refresh"@;
    if args.len() >= 2 && !refresh {
        let arg = trim(args[1]);
        if quick.contains(arg) {
            (0, arg)
        } else {
            (1, arg)
        }
    } else if refresh {
        (3, Seq::empty())
    } else {
        (2, Seq::empty())
    }
}

/// Reads the request from the words of a `/models` line.
pub fn models_request(args: &Vec<String>, quick_names: &Vec<String>) -> (r: ModelsRequest)
    ensures
        request_view(r) == models_request_of(words_view(args@), words_view(quick_names@)),
{
    let ghost w = words_view(args@);
    let ghost q = words_view(quick_names@);
    if args.len() < 2 {
        return ModelsRequest::List;
    }
    assert(w[1] == args@[1]@);
    let arg = trimmed_chars(args[1].as_str());
    let refresh_word = chars_of("refresh");
    if chars_eq(arg.as_slice(), refresh_word.as_slice()) {
        return ModelsRequest::Refresh;
    }
    let mut i: usize = 0;
    while i < quick_names.len()
        invariant
            i <= quick_names@.len(),
            q == words_view(quick_names@),
            w == words_view(args@),
            args@.len() >= 2,
            arg@ == trim(w[1]),
            trim(w[1]) != "refresh"@,
            forall|j: int| 0 <= j < i ==> q[j] != arg@,
        decreases quick_names@.len() - i,
    {
        let name = chars_of(quick_names[i].as_str());
        if chars_eq(name.as_slice(), arg.as_slice()) {
            assert(q[i as int] == arg@);
            return ModelsRequest::Quick(string_of(arg.as_slice()));
        }
        i = i + 1;
    }
    assert(!q.contains(arg@));
    ModelsRequest::Model(string_of(arg.as_slice()))
}

/// How a model is listed: its id, or its name with the id, then its context
/// window in thousands of tokens when known.
pub open spec fn model_line(m: ModelEntry) -> Seq<char> {
    let label = if m.display@ == m.id@ {
        m.id@
    } else {
        m.display@ + " ("@ + m.id@ + ")"@
    };
    let window = match m.context_length {
        Some(c) => "  ["@ + decimal((c / 1000) as nat) + "k ctx]"@,
        None => Seq::empty(),
    };
    "  "@ + label + window
}

/// The listing of the provider's models: a heading with their number, the
/// first `MODEL_LIST_CAP` of them, and how many more there are; nothing
/// when there are none.
pub open spec fn available_lines(provider: Seq<char>, ms: Seq<ModelEntry>) -> Seq<(LineKind, Seq<char>)> {
    let n = ms.len();
    let shown: int = if n <= MODEL_LIST_CAP {
        n as int
    } else {
        MODEL_LIST_CAP as int
    };
    if n == 0 {
        Seq::empty()
    } else {
        seq![(LineKind::Confirm, "available from "@ + provider + " ("@ + decimal(n) + "):"@)]
            + Seq::new(shown as nat, |i: int| (LineKind::Result, model_line(ms[i]))) + if n
            > MODEL_LIST_CAP {
            seq![
                (LineKind::Result, "  … "@ + decimal((n - MODEL_LIST_CAP) as nat)
                    + " more — type /models <filter> or use the picker"@),
            ]
        } else {
            Seq::empty()
        }
    }
}

/// How a model is listed.
fn model_line_of(m: &ModelEntry) -> (r: String)
    ensures
        r@ == model_line(*m),
{
    let mut r = string_of(chars_of("  ").as_slice());
    let id = chars_of(m.id.as_str());
    let display = chars_of(m.display.as_str());
    if chars_eq(display.as_slice(), id.as_slice()) {
        push_str_chars(&mut r, m.id.as_str());
    } else {
        push_str_chars(&mut r, m.display.as_str());
        push_str_chars(&mut r, " (");
        push_str_chars(&mut r, m.id.as_str());
        push_str_chars(&mut r, ")");
    }
    match m.context_length {
        Some(c) => {
            push_str_chars(&mut r, "  [");
            let k = decimal_text(c / 1000);
            push_str_chars(&mut r, k.as_str());
            push_str_chars(&mut r, "k ctx]");
        },
        None => {},
    }
    r
}

/// The listing of the provider's models.
pub fn available_models_lines(provider: &str, models: &Vec<ModelEntry>) -> (r: Vec<(LineKind, String)>)
    ensures
        lines_view(r@) == available_lines(provider@, models@),
{
    let mut v: Vec<(LineKind, String)> = Vec::new();
    let n = models.len();
    if n == 0 {
        assert(lines_view(v@) =~= available_lines(provider@, models@));
        return v;
    }
    let mut head = string_of(chars_of("available from ").as_slice());
    push_str_chars(&mut head, provider);
    push_str_chars(&mut head, " (");
    let count = decimal_text(n as u64);
    push_str_chars(&mut head, count.as_str());
    push_str_chars(&mut head, "):");
    v.push((LineKind::Confirm, head));
    let shown = if n <= MODEL_LIST_CAP {
        n
    } else {
        MODEL_LIST_CAP
    };
    let ghost first = seq![(LineKind::Confirm, "available from "@ + provider@ + " ("@ + decimal(n as nat) + "):"@)];
    assert(lines_view(v@) =~= first);
    let mut i: usize = 0;
    while i < shown
        invariant
            i <= shown,
            shown <= models@.len(),
            lines_view(v@) == first + Seq::new(i as nat, |j: int| (LineKind::Result, model_line(models@[j]))),
        decreases shown - i,
    {
        let line = model_line_of(&models[i]);
        let ghost before = v@;
        v.push((LineKind::Result, line));
        assert(lines_view(v@) =~= lines_view(before).push((LineKind::Result, model_line(models@[i as int]))));
        assert(first + Seq::new((i + 1) as nat, |j: int| (LineKind::Result, model_line(models@[j])))
            =~= first + Seq::new(i as nat, |j: int| (LineKind::Result, model_line(models@[j]))).push(
            (LineKind::Result, model_line(models@[i as int])),
        ));
        i = i + 1;
    }
    let ghost listed = lines_view(v@);
    if n > MODEL_LIST_CAP {
        let mut more = string_of(chars_of("  … ").as_slice());
        let rest = decimal_text((n - MODEL_LIST_CAP) as u64);
        push_str_chars(&mut more, rest.as_str());
        push_str_chars(&mut more, " more — type /models <filter> or use the picker");
        v.push((LineKind::Result, more));
        assert(lines_view(v@) =~= listed.push(
            (LineKind::Result, "  … "@ + decimal((n - MODEL_LIST_CAP) as nat)
                + " more — type /models <filter> or use the picker"@),
        ));
    }
    assert(lines_view(v@) =~= available_lines(provider@, models@));
    v
}

/// The line that confirms a refreshed list: how many quick models there are
/// and how many models the provider offers.
pub fn refreshed_line(quick_count: usize, provider: &str, model_count: usize) -> (r: String)
    ensures
        r@ == "model list refreshed — quick models: "@ + decimal(quick_count as nat) + ", "@
            + provider@ + " models: "@ + decimal(model_count as nat),
{
    let mut r = string_of(chars_of("model list refreshed — quick models: ").as_slice());
    let q = decimal_text(quick_count as u64);
    push_str_chars(&mut r, q.as_str());
    push_str_chars(&mut r, ", ");
    push_str_chars(&mut r, provider);
    push_str_chars(&mut r, " models: ");
    let m = decimal_text(model_count as u64);
    push_str_chars(&mut r, m.as_str());
    r
}

/// What a failed listing shows: the error after a refresh, a hint for a
/// custom provider, nothing otherwise.
pub open spec fn failure_line(refresh: bool, is_custom: bool, error: Seq<char>) -> Option<(LineKind, Seq<char>)> {
    if refresh {
        Some((LineKind::Error, "model list refresh failed: "@ + error))
    } else if is_custom {
        Some((LineKind::Result, "  (live model list unavailable; type the model id directly)"@))
    } else {
        None
    }
}

/// What a failed listing shows.
pub fn models_failure_line(refresh: bool, is_custom: bool, error: &str) -> (r: Option<(LineKind, String)>)
    ensures
        match r {
            Some(l) => failure_line(refresh, is_custom, error@) == Some((l.0, l.1@)),
            None => failure_line(refresh, is_custom, error@) is None,
        },
{
    if refresh {
        let mut t = string_of(chars_of("model list refresh failed: ").as_slice());
        push_str_chars(&mut t, error);
        Some((LineKind::Error, t))
    } else if is_custom {
        Some((LineKind::Result, string_of(chars_of("  (live model list unavailable; type the model id directly)").as_slice())))
    } else {
        None
    }
}

/// The heading of the quick models in a listing, with the current
/// provider and model, and a hint when there are none.
pub open spec fn quick_heading(provider: Seq<char>, model: Seq<char>, count: nat) -> Seq<(LineKind, Seq<char>)> {
    seq![(LineKind::Confirm, "quick models (current: "@ + provider + " | "@ + model + "):"@)] + if count
        == 0 {
        seq![(LineKind::Result, "  (none — add with /models-add)"@)]
    } else {
        Seq::empty()
    }
}

/// The heading of the quick models in a listing.
pub fn quick_models_heading(provider: &str, model: &str, count: usize) -> (r: Vec<(LineKind, String)>)
    ensures
        lines_view(r@) == quick_heading(provider@, model@, count as nat),
{
    let mut v: Vec<(LineKind, String)> = Vec::new();
    let mut head = string_of(chars_of("quick models (current: ").as_slice());
    push_str_chars(&mut head, provider);
    push_str_chars(&mut head, " | ");
    push_str_chars(&mut head, model);
    push_str_chars(&mut head, "):");
    v.push((LineKind::Confirm, head));
    if count == 0 {
        v.push((LineKind::Result, string_of(chars_of("  (none — add with /models-add)").as_slice())));
    }
    assert(lines_view(v@) =~= quick_heading(provider@, model@, count as nat));
    v
}

} // verus!
