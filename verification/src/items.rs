//! Text and colors of the status line's session items, computed from plain
//! facts about the session (the caller reads the clock, the environment and
//! the session itself).
use vstd::prelude::*;

use crate::color::Color;
use crate::edit::{last_index, last_index_of, slice_range, slice_take, take_chars};
use crate::statusline::{
    build_line, change_parts, format_changes, format_status, joined, opt_view, raw_spans,
    span_view, status_parts, tidy, GitStatus, SpanView, StatusLineConfig, StatusLineLine,
    StatusLineSegment, StatusLineSetup, StatusSpan,
};
use crate::text::{chars_of, decimal, decimal_text, push_str_chars, starts_with, string_of};

verus! {

/// Context fill as a percentage of the window, not clamped (a value past
/// 100 means over budget); none when the window is unknown (zero).
pub open spec fn context_pct(effective_tokens: u64, window: u64) -> Option<u64> {
    if window == 0 {
        None
    } else {
        Some(((effective_tokens * 100) / (window as int)) as u64)
    }
}

/// Context fill as a percentage of the window (see `context_pct`).
pub fn context_percentage(effective_tokens: u64, window: u64) -> (r: Option<u64>)
    requires
        effective_tokens * 100 <= u64::MAX,
    ensures
        r == context_pct(effective_tokens, window),
{
    (effective_tokens * 100).checked_div(window)
}

/// The live color of an item: only `context_percentage` has one, red past
/// 100% and yellow from 90%; none keeps the configured color.
pub open spec fn live_color(item: Seq<char>, pct: Option<u64>) -> Option<Color> {
    if item != seq!['c', 'o', 'n', 't', 'e', 'x', 't', '_', 'p', 'e', 'r', 'c', 'e', 'n', 't', 'a', 'g', 'e'] {
        None
    } else {
        match pct {
            Some(p) => if p > 100 {
                Some(Color::Red)
            } else if p >= 90 {
                Some(Color::Yellow)
            } else {
                None
            },
            None => None,
        }
    }
}

/// The color that overrides the configured one for `item`, given the
/// context percentage (see `live_color`).
pub fn dynamic_item_color(item: &str, pct: Option<u64>) -> (r: Option<Color>)
    ensures
        r == live_color(item@, pct),
{
    let v = chars_of(item);
    let ghost name = seq!['c', 'o', 'n', 't', 'e', 'x', 't', '_', 'p', 'e', 'r', 'c', 'e', 'n', 't', 'a', 'g', 'e'];
    let t = chars_of("context_percentage");
    proof {
        reveal_strlit("context_percentage");
        assert(t@ =~= name);
    }
    if !crate::edit::chars_eq(v.as_slice(), t.as_slice()) {
        return None;
    }
    match pct {
        Some(p) => if p > 100 {
            Some(Color::Red)
        } else if p >= 90 {
            Some(Color::Yellow)
        } else {
            None
        },
        None => None,
    }
}

/// The last component of a `/`-separated path: the text after the last
/// `/`, unless that is empty or `.`, in which case the component before
/// that `/`; none when there is no such component.
pub open spec fn last_component(s: Seq<char>) -> Option<Seq<char>>
    decreases s.len(),
{
    let j = last_index(s, '/');
    let tail = s.skip(j + 1);
    if tail.len() > 0 && tail != seq!['.'] {
        Some(tail)
    } else if j < 0 {
        None
    } else {
        proof {
            crate::edit::lemma_last_index(s, '/');
        }
        last_component(s.take(j))
    }
}

/// The final name of a directory path, or the whole path when it has none
/// (it is a root, empty, or ends in `..`).
pub open spec fn basename_of(dir: Seq<char>) -> Seq<char> {
    match last_component(dir) {
        Some(t) => if t == seq!['.', '.'] {
            dir
        } else {
            t
        },
        None => dir,
    }
}

/// Finds the last component of `v` (see `last_component`).
fn last_component_of(v: &[char]) -> (r: Option<Vec<char>>)
    ensures
        match r {
            Some(t) => last_component(v@) == Some(t@),
            None => last_component(v@) is None,
        },
{
    let mut end: usize = v.len();
    assert(v@.take(v@.len() as int) =~= v@);
    loop
        invariant
            end <= v@.len(),
            last_component(v@) == last_component(v@.take(end as int)),
        decreases end,
    {
        let ghost s = v@.take(end as int);
        let head = slice_range(v, 0, end);
        assert(head@ =~= s);
        let j = last_index_of(head.as_slice(), '/');
        proof {
            crate::edit::lemma_last_index(s, '/');
        }
        let start = match j {
            Some(k) => k + 1,
            None => 0,
        };
        assert(start == last_index(s, '/') + 1);
        let tail = slice_range(v, start, end);
        assert(tail@ =~= s.skip(start as int));
        let is_dot = tail.len() == 1 && tail[0] == '.';
        assert(is_dot == (tail@ == seq!['.'])) by {
            if tail@.len() == 1 && tail@[0] == '.' {
                assert(tail@ =~= seq!['.']);
            }
        }
        if tail.len() > 0 && !is_dot {
            return Some(tail);
        }
        match j {
            None => {
                return None;
            },
            Some(k) => {
                assert(s.take(k as int) =~= v@.take(k as int));
                end = k;
            },
        }
    }
}

/// The final name of a directory path (see `basename_of`).
pub fn basename(dir: &str) -> (r: String)
    ensures
        r@ == basename_of(dir@),
{
    let v = chars_of(dir);
    match last_component_of(v.as_slice()) {
        Some(t) => {
            let dd = t.len() == 2 && t[0] == '.' && t[1] == '.';
            assert(dd == (t@ == seq!['.', '.'])) by {
                if t@.len() == 2 && t@[0] == '.' && t@[1] == '.' {
                    assert(t@ =~= seq!['.', '.']);
                }
            }
            if dd {
                string_of(v.as_slice())
            } else {
                string_of(t.as_slice())
            }
        },
        None => string_of(v.as_slice()),
    }
}

/// A directory path with the home directory written `~`: the home itself
/// becomes `~`, a path under it `~/` and the rest.
pub open spec fn contracted(dir: Seq<char>, home: Option<Seq<char>>) -> Seq<char> {
    match home {
        Some(h) => if dir == h {
            seq!['~']
        } else if starts_with(dir, h.push('/')) {
            seq!['~', '/'] + dir.skip(h.len() as int + 1)
        } else {
            dir
        },
        None => dir,
    }
}

/// Writes the home directory `home` (when known) as `~` in `dir` (see
/// `contracted`).
pub fn contract_home(dir: &str, home: Option<&str>) -> (r: String)
    ensures
        r@ == contracted(dir@, match home {
            Some(h) => Some(h@),
            None => None,
        }),
{
    let v = chars_of(dir);
    match home {
        Some(h) => {
            let hv = chars_of(h);
            if crate::edit::chars_eq(v.as_slice(), hv.as_slice()) {
                let mut r = String::new();
                r.push('~');
                assert(r@ =~= seq!['~']);
                return r;
            }
            let mut prefix = hv.clone();
            prefix.push('/');
            assert(prefix@ =~= h@.push('/'));
            if crate::text::starts_with_seq(v.as_slice(), prefix.as_slice()) {
                let mut r = String::new();
                r.push('~');
                r.push('/');
                let rest = slice_range(v.as_slice(), prefix.len(), v.len());
                let ghost r0 = r@;
                crate::text::push_chars(&mut r, rest.as_slice());
                assert(r0 =~= seq!['~', '/']);
                assert(rest@ =~= dir@.skip(h@.len() as int + 1));
                return r;
            }
            string_of(v.as_slice())
        },
        None => string_of(v.as_slice()),
    }
}

/// A short elapsed time: seconds under a minute (`42s`), minutes under an
/// hour (`5m`), hours and minutes under a day (`2h10m`), else days and
/// hours (`3d4h`); a negative time counts as zero.
pub open spec fn elapsed_of(secs: int) -> Seq<char> {
    let s = if secs < 0 {
        0
    } else {
        secs
    };
    if s < 60 {
        decimal(s as nat).push('s')
    } else if s < 3600 {
        decimal((s / 60) as nat).push('m')
    } else if s < 86_400 {
        decimal((s / 3600) as nat).push('h') + decimal(((s % 3600) / 60) as nat).push('m')
    } else {
        decimal((s / 86_400) as nat).push('d') + decimal(((s % 86_400) / 3600) as nat).push('h')
    }
}

/// A number followed by a unit letter.
fn with_unit(n: u64, unit: char) -> (r: String)
    ensures
        r@ == decimal(n as nat).push(unit),
{
    let mut r = decimal_text(n);
    r.push(unit);
    r
}

/// Formats an elapsed time in seconds (see `elapsed_of`).
pub fn elapsed_text(secs: i64) -> (r: String)
    ensures
        r@ == elapsed_of(secs as int),
{
    let s: u64 = if secs < 0 {
        0
    } else {
        secs as u64
    };
    if s < 60 {
        with_unit(s, 's')
    } else if s < 3600 {
        with_unit(s / 60, 'm')
    } else if s < 86_400 {
        let mut r = with_unit(s / 3600, 'h');
        let m = with_unit((s % 3600) / 60, 'm');
        push_str_chars(&mut r, m.as_str());
        r
    } else {
        let mut r = with_unit(s / 86_400, 'd');
        let h = with_unit((s % 86_400) / 3600, 'h');
        push_str_chars(&mut r, h.as_str());
        r
    }
}

/// The model name without its provider path: the text after the last `/`.
pub open spec fn model_short_of(model: Seq<char>) -> Seq<char> {
    model.skip(last_index(model, '/') + 1)
}

/// Shortens a model name (see `model_short_of`).
pub fn model_short(model: &str) -> (r: String)
    ensures
        r@ == model_short_of(model@),
{
    let v = chars_of(model);
    proof {
        crate::edit::lemma_last_index(v@, '/');
    }
    let start = match last_index_of(v.as_slice(), '/') {
        Some(k) => k + 1,
        None => 0,
    };
    let t = slice_range(v.as_slice(), start, v.len());
    assert(t@ =~= model@.skip(start as int));
    string_of(t.as_slice())
}

/// What the status line shows of a session, read by the caller: texts as
/// they are shown, times as seconds elapsed, and the floating-point
/// figures already formatted (`cost_text` is `$` and the total cost to four
/// decimals, `has_cost` whether that cost is above zero; the `*_text`
/// token counts are formatted for display).
pub struct SessionFacts {
    pub name: String,
    pub id: String,
    pub working_dir: String,
    pub home: Option<String>,
    pub worktree: Option<String>,
    pub git_branch: Option<String>,
    pub git_status: Option<GitStatus>,
    pub model: String,
    pub provider: String,
    pub message_count: usize,
    pub age_secs: Option<i64>,
    pub updated_secs: Option<i64>,
    pub clock: String,
    pub host: Option<String>,
    pub user: Option<String>,
    pub reasoning_enabled: bool,
    pub total_input_tokens: u64,
    pub total_output_tokens: u64,
    pub input_tokens_text: String,
    pub output_tokens_text: String,
    pub effective_tokens: u64,
    pub effective_tokens_text: String,
    pub context_window: u64,
    pub context_window_text: String,
    pub ctx_is_estimated: bool,
    pub compactions: usize,
    pub has_cost: bool,
    pub show_cost_always: bool,
    pub cost_text: String,
}

/// Run-time values the status line shows besides the session: the loop,
/// prompt, permission mode and chain labels, and the side-question usage
/// (`btw_cost_text`, `$` and the cost to four decimals, only when the cost
/// is above zero).
pub struct StatusContext {
    pub loop_label: Option<String>,
    pub prompt_name: Option<String>,
    pub perm_mode: Option<String>,
    pub chain_label: Option<String>,
    pub btw_in: u64,
    pub btw_out: u64,
    pub btw_in_text: String,
    pub btw_out_text: String,
    pub btw_cost_text: Option<String>,
}

/// The text `format_changes` gives for a working tree.
pub open spec fn changes_of(g: GitStatus) -> Option<Seq<char>> {
    if g.dirty() {
        Some(joined(change_parts(g), seq![' ']))
    } else {
        None
    }
}

/// The text `format_status` gives for a working tree.
pub open spec fn status_of(g: GitStatus) -> Seq<char> {
    if status_parts(g).len() == 0 {
        seq!['\u{2713}']
    } else {
        joined(status_parts(g), seq![' '])
    }
}

/// `Some(t)` when `t` is not empty.
pub open spec fn non_empty(t: Seq<char>) -> Option<Seq<char>> {
    if t.len() > 0 {
        Some(t)
    } else {
        None
    }
}

/// The text of a status line item, or none to leave it out; `always`
/// shows the token and cost items even at zero.
pub open spec fn item_text(item: Seq<char>, f: SessionFacts, c: StatusContext, always: bool) -> Option<Seq<char>> {
    if item == "session_name"@ {
        non_empty(f.name@)
    } else if item == "session_id"@ {
        Some(take_chars(f.id@, 8))
    } else if item == "git_branch"@ {
        opt_view(f.git_branch)
    } else if item == "git_changes"@ {
        match f.git_status {
            Some(g) => changes_of(g),
            None => None,
        }
    } else if item == "git_status"@ {
        match f.git_status {
            Some(g) => Some(status_of(g)),
            None => None,
        }
    } else if item == "cwd"@ {
        Some(basename_of(f.working_dir@))
    } else if item == "cwd_full"@ {
        Some(contracted(f.working_dir@, opt_view(f.home)))
    } else if item == "worktree"@ {
        opt_view(f.worktree)
    } else if item == "model"@ {
        Some(f.model@)
    } else if item == "model_short"@ {
        Some(model_short_of(f.model@))
    } else if item == "provider"@ {
        Some(f.provider@)
    } else if item == "message_count"@ {
        Some(decimal(f.message_count as nat))
    } else if item == "session_age"@ {
        match f.age_secs {
            Some(t) => Some(elapsed_of(t as int)),
            None => None,
        }
    } else if item == "session_updated"@ {
        match f.updated_secs {
            Some(t) => Some(elapsed_of(t as int)),
            None => None,
        }
    } else if item == "clock"@ {
        Some(f.clock@)
    } else if item == "host"@ {
        opt_view(f.host)
    } else if item == "user"@ {
        match f.user {
            Some(u) => non_empty(u@),
            None => None,
        }
    } else if item == "reasoning"@ {
        if f.reasoning_enabled {
            Some("reasoning"@)
        } else {
            None
        }
    } else if item == "tokens_input"@ {
        if f.total_input_tokens > 0 || always {
            Some(f.input_tokens_text@)
        } else {
            None
        }
    } else if item == "tokens_output"@ {
        if f.total_output_tokens > 0 || always {
            Some(f.output_tokens_text@)
        } else {
            None
        }
    } else if item == "context_used"@ {
        Some((if f.ctx_is_estimated {
            "~"@
        } else {
            Seq::empty()
        }) + f.effective_tokens_text@)
    } else if item == "context_max"@ {
        Some(f.context_window_text@)
    } else if item == "context_percentage"@ {
        Some(
            decimal(
                match context_pct(f.effective_tokens, f.context_window) {
                    Some(p) => p as nat,
                    None => 0,
                },
            ).push('%'),
        )
    } else if item == "cost"@ {
        if f.has_cost || f.show_cost_always || always {
            Some(f.cost_text@)
        } else {
            None
        }
    } else if item == "prompt"@ {
        match c.prompt_name {
            Some(s) => Some("prompt:"@ + s@),
            None => None,
        }
    } else if item == "mode"@ {
        match c.perm_mode {
            Some(m) => if m@ != "standard"@ {
                Some("mode:"@ + m@)
            } else {
                None
            },
            None => None,
        }
    } else if item == "loop"@ {
        match c.loop_label {
            Some(s) => Some(seq!['['] + s@ + seq![']']),
            None => None,
        }
    } else if item == "chain"@ {
        opt_view(c.chain_label)
    } else if item == "compaction"@ {
        if f.compactions > 0 {
            Some("cmp:"@ + decimal(f.compactions as nat))
        } else {
            None
        }
    } else if item == "btw"@ {
        if c.btw_in == 0 && c.btw_out == 0 {
            None
        } else {
            match c.btw_cost_text {
                Some(t) => Some(
                    "btw:"@ + t@ + " ("@ + c.btw_in_text@ + "/"@ + c.btw_out_text@ + ")"@,
                ),
                None => Some("btw:"@ + c.btw_in_text@ + "/"@ + c.btw_out_text@),
            }
        }
    } else {
        None
    }
}

/// Whether the characters of `v` spell `name`.
fn spells(v: &[char], name: &str) -> (b: bool)
    ensures
        b == (v@ == name@),
{
    let n = chars_of(name);
    crate::edit::chars_eq(v, n.as_slice())
}

/// A copy of an optional text.
fn copy_opt(o: &Option<String>) -> (r: Option<String>)
    ensures
        opt_view(r) == opt_view(*o),
{
    match o {
        Some(s) => Some(string_of(chars_of(s.as_str()).as_slice())),
        None => None,
    }
}

/// A copy of a text.
fn copy_text(s: &String) -> (r: String)
    ensures
        r@ == s@,
{
    string_of(chars_of(s.as_str()).as_slice())
}

/// Appends the text `t` to `r`.
fn append(r: &mut String, t: &str)
    ensures
        final(r)@ == old(r)@ + t@,
{
    push_str_chars(r, t);
}

/// A token count as the status line shows it below a million: thousands
/// (rounded down) followed by `k`, or the number itself. From a million on
/// the count is shown in millions with one decimal, which is left to the
/// caller (none here).
pub open spec fn short_tokens(n: nat) -> Option<Seq<char>> {
    if n >= 1_000_000 {
        None
    } else if n >= 1000 {
        Some(decimal(n / 1000) + "k"@)
    } else {
        Some(decimal(n))
    }
}

/// A token count below a million as the status line shows it; none from a
/// million on.
pub fn short_token_count(n: u64) -> (r: Option<String>)
    ensures
        opt_view(r) == short_tokens(n as nat),
{
    if n >= 1_000_000 {
        None
    } else if n >= 1000 {
        let mut t = decimal_text(n / 1000);
        append(&mut t, "k");
        Some(t)
    } else {
        Some(decimal_text(n))
    }
}

/// A text of its own holding `t`.
fn text_of(t: &str) -> (r: String)
    ensures
        r@ == t@,
{
    string_of(chars_of(t).as_slice())
}

/// Whether a text is empty.
fn is_empty_text(t: &String) -> (b: bool)
    ensures
        b == (t@.len() == 0),
{
    chars_of(t.as_str()).len() == 0
}

/// The text of a status line item (see `item_text`).
pub fn resolve_item(item: &str, f: &SessionFacts, c: &StatusContext, always: bool) -> (r: Option<String>)
    requires
        item@ == "context_percentage"@ ==> f.effective_tokens * 100 <= u64::MAX,
    ensures
        opt_view(r) == item_text(item@, *f, *c, always),
{
    let v = chars_of(item);
    let t = v.as_slice();
    if spells(t, "session_name") {
        let n = copy_text(&f.name);
        if is_empty_text(&n) {
            None
        } else {
            Some(n)
        }
    } else if spells(t, "session_id") {
        let id = chars_of(f.id.as_str());
        Some(string_of(slice_take(id.as_slice(), 8).as_slice()))
    } else if spells(t, "git_branch") {
        copy_opt(&f.git_branch)
    } else if spells(t, "git_changes") {
        match &f.git_status {
            Some(g) => format_changes(g),
            None => None,
        }
    } else if spells(t, "git_status") {
        match &f.git_status {
            Some(g) => Some(format_status(g)),
            None => None,
        }
    } else if spells(t, "cwd") {
        Some(basename(f.working_dir.as_str()))
    } else if spells(t, "cwd_full") {
        let home = match &f.home {
            Some(h) => Some(h.as_str()),
            None => None,
        };
        Some(contract_home(f.working_dir.as_str(), home))
    } else if spells(t, "worktree") {
        copy_opt(&f.worktree)
    } else if spells(t, "model") {
        Some(copy_text(&f.model))
    } else if spells(t, "model_short") {
        Some(model_short(f.model.as_str()))
    } else if spells(t, "provider") {
        Some(copy_text(&f.provider))
    } else if spells(t, "message_count") {
        Some(decimal_text(f.message_count as u64))
    } else if spells(t, "session_age") {
        match f.age_secs {
            Some(s) => Some(elapsed_text(s)),
            None => None,
        }
    } else if spells(t, "session_updated") {
        match f.updated_secs {
            Some(s) => Some(elapsed_text(s)),
            None => None,
        }
    } else if spells(t, "clock") {
        Some(copy_text(&f.clock))
    } else if spells(t, "host") {
        copy_opt(&f.host)
    } else if spells(t, "user") {
        match &f.user {
            Some(u) => {
                let x = copy_text(u);
                if is_empty_text(&x) {
                    None
                } else {
                    Some(x)
                }
            },
            None => None,
        }
    } else if spells(t, "reasoning") {
        if f.reasoning_enabled {
            Some(text_of("reasoning"))
        } else {
            None
        }
    } else if spells(t, "tokens_input") {
        if f.total_input_tokens > 0 || always {
            Some(copy_text(&f.input_tokens_text))
        } else {
            None
        }
    } else if spells(t, "tokens_output") {
        if f.total_output_tokens > 0 || always {
            Some(copy_text(&f.output_tokens_text))
        } else {
            None
        }
    } else if spells(t, "context_used") {
        let mut x = String::new();
        if f.ctx_is_estimated {
            append(&mut x, "~");
        }
        let ghost x0 = x@;
        append(&mut x, f.effective_tokens_text.as_str());
        assert(x0 + f.effective_tokens_text@ == (if f.ctx_is_estimated {
            "~"@
        } else {
            Seq::<char>::empty()
        }) + f.effective_tokens_text@) by {
            if !f.ctx_is_estimated {
                assert(x0 =~= Seq::<char>::empty());
            } else {
                assert(x0 =~= "~"@);
            }
        }
        Some(x)
    } else if spells(t, "context_max") {
        Some(copy_text(&f.context_window_text))
    } else if spells(t, "context_percentage") {
        let pct = match context_percentage(f.effective_tokens, f.context_window) {
            Some(p) => p,
            None => 0,
        };
        let mut x = decimal_text(pct);
        x.push('%');
        Some(x)
    } else if spells(t, "cost") {
        if f.has_cost || f.show_cost_always || always {
            Some(copy_text(&f.cost_text))
        } else {
            None
        }
    } else if spells(t, "prompt") {
        match &c.prompt_name {
            Some(s) => {
                let mut x = text_of("prompt:");
                append(&mut x, s.as_str());
                Some(x)
            },
            None => None,
        }
    } else if spells(t, "mode") {
        match &c.perm_mode {
            Some(m) => {
                let mv = chars_of(m.as_str());
                if spells(mv.as_slice(), "standard") {
                    None
                } else {
                    let mut x = text_of("mode:");
                    append(&mut x, m.as_str());
                    Some(x)
                }
            },
            None => None,
        }
    } else if spells(t, "loop") {
        match &c.loop_label {
            Some(s) => {
                let mut x = String::new();
                x.push('[');
                append(&mut x, s.as_str());
                x.push(']');
                assert(x@ =~= seq!['['] + s@ + seq![']']);
                Some(x)
            },
            None => None,
        }
    } else if spells(t, "chain") {
        copy_opt(&c.chain_label)
    } else if spells(t, "compaction") {
        if f.compactions > 0 {
            let d = decimal_text(f.compactions as u64);
            let mut x = text_of("cmp:");
            append(&mut x, d.as_str());
            Some(x)
        } else {
            None
        }
    } else if spells(t, "btw") {
        if c.btw_in == 0 && c.btw_out == 0 {
            None
        } else {
            match &c.btw_cost_text {
                Some(ct) => {
                    let mut x = text_of("btw:");
                    append(&mut x, ct.as_str());
                    append(&mut x, " (");
                    append(&mut x, c.btw_in_text.as_str());
                    append(&mut x, "/");
                    append(&mut x, c.btw_out_text.as_str());
                    append(&mut x, ")");
                    Some(x)
                },
                None => {
                    let mut x = text_of("btw:");
                    append(&mut x, c.btw_in_text.as_str());
                    append(&mut x, "/");
                    append(&mut x, c.btw_out_text.as_str());
                    Some(x)
                },
            }
        }
    } else {
        None
    }
}

/// The single-line status bar.
pub struct StatusLine;

/// An optional text, or nothing.
pub open spec fn or_empty(o: Option<Seq<char>>) -> Seq<char> {
    match o {
        Some(t) => t,
        None => Seq::empty(),
    }
}

/// The cost shown in the status bar: ` $cost` when above zero.
pub open spec fn bar_cost(f: SessionFacts) -> Seq<char> {
    if f.has_cost {
        seq![' '] + f.cost_text@
    } else {
        Seq::empty()
    }
}

/// The side-question usage shown in the status bar once there is some.
pub open spec fn bar_btw(f: SessionFacts, c: StatusContext) -> Seq<char> {
    if c.btw_in > 0 || c.btw_out > 0 {
        seq![' '] + or_empty(item_text("btw"@, f, c, false))
    } else {
        Seq::empty()
    }
}

/// The loop label shown in the status bar: ` [label]`.
pub open spec fn bar_loop(c: StatusContext) -> Seq<char> {
    match c.loop_label {
        Some(l) => seq![' ', '['] + l@ + seq![']'],
        None => Seq::empty(),
    }
}

/// The context fill: `pct%/window`, the percentage 0 for an unknown window.
pub open spec fn bar_context(f: SessionFacts) -> Seq<char> {
    let pct: nat = match context_pct(f.effective_tokens, f.context_window) {
        Some(p) => p as nat,
        None => 0,
    };
    decimal(pct).push('%').push('/') + f.context_window_text@
}

/// The token totals shown in the status bar once there are some:
/// ` ⇑in ⇓out`.
pub open spec fn bar_tokens(f: SessionFacts) -> Seq<char> {
    if f.total_input_tokens > 0 || f.total_output_tokens > 0 {
        seq![' ', '\u{21D1}'] + f.input_tokens_text@ + seq![' ', '\u{21D3}'] + f.output_tokens_text@
    } else {
        Seq::empty()
    }
}

/// The compaction count shown in the status bar once there are some.
pub open spec fn bar_compact(f: SessionFacts) -> Seq<char> {
    if f.compactions > 0 {
        seq![' '] + "cmp:"@ + decimal(f.compactions as nat)
    } else {
        Seq::empty()
    }
}

/// The active prompt and the permission mode (unless `standard`).
pub open spec fn bar_state(c: StatusContext) -> Seq<char> {
    (match c.prompt_name {
        Some(n) => "prompt:"@ + n@,
        None => Seq::empty(),
    }) + match c.perm_mode {
        Some(m) => if m@ != "standard"@ {
            " | mode:"@ + m@
        } else {
            Seq::empty()
        },
        None => Seq::empty(),
    }
}

/// The single-line status bar and the chain label shown after it:
/// `dir[ cost][ btw] | model[ [loop]] | pct%/window[ ⇑in ⇓out][ cmp:n] |
/// [prompt:name][ | mode:m]`.
pub open spec fn status_bar(f: SessionFacts, c: StatusContext) -> (Seq<char>, Option<Seq<char>>) {
    (
        basename_of(f.working_dir@) + bar_cost(f) + bar_btw(f, c) + " | "@ + f.model@ + bar_loop(c)
            + " | "@ + bar_context(f) + bar_tokens(f) + bar_compact(f) + " | "@ + bar_state(c),
        match c.chain_label {
            Some(l) => Some(" | "@ + l@),
            None => None,
        },
    )
}

/// See `bar_cost`.
fn cost_piece(f: &SessionFacts) -> (r: String)
    ensures
        r@ == bar_cost(*f),
{
    let mut x = String::new();
    if f.has_cost {
        x.push(' ');
        append(&mut x, f.cost_text.as_str());
        assert(x@ =~= seq![' '] + f.cost_text@);
    }
    x
}

/// See `bar_btw`.
fn btw_piece(f: &SessionFacts, c: &StatusContext) -> (r: String)
    ensures
        r@ == bar_btw(*f, *c),
{
    let mut x = String::new();
    if c.btw_in > 0 || c.btw_out > 0 {
        x.push(' ');
        let ghost x0 = x@;
        proof {
            reveal_strlit("btw");
            reveal_strlit("context_percentage");
            assert("btw"@ != "context_percentage"@) by {
                assert("btw"@.len() != "context_percentage"@.len());
            }
        }
        match resolve_item("btw", f, c, false) {
            Some(t) => append(&mut x, t.as_str()),
            None => {},
        }
        assert(x@ =~= x0 + or_empty(item_text("btw"@, *f, *c, false)));
    }
    x
}

/// See `bar_loop`.
fn loop_piece(c: &StatusContext) -> (r: String)
    ensures
        r@ == bar_loop(*c),
{
    let mut x = String::new();
    match &c.loop_label {
        Some(l) => {
            x.push(' ');
            x.push('[');
            append(&mut x, l.as_str());
            x.push(']');
            assert(x@ =~= seq![' ', '['] + l@ + seq![']']);
        },
        None => {},
    }
    x
}

/// See `bar_context`.
fn context_piece(f: &SessionFacts) -> (r: String)
    requires
        f.effective_tokens * 100 <= u64::MAX,
    ensures
        r@ == bar_context(*f),
{
    let pct = match context_percentage(f.effective_tokens, f.context_window) {
        Some(p) => p,
        None => 0,
    };
    let mut x = decimal_text(pct);
    x.push('%');
    x.push('/');
    append(&mut x, f.context_window_text.as_str());
    x
}

/// See `bar_tokens`.
fn tokens_piece(f: &SessionFacts) -> (r: String)
    ensures
        r@ == bar_tokens(*f),
{
    let mut x = String::new();
    if f.total_input_tokens > 0 || f.total_output_tokens > 0 {
        x.push(' ');
        x.push('\u{21D1}');
        append(&mut x, f.input_tokens_text.as_str());
        x.push(' ');
        x.push('\u{21D3}');
        append(&mut x, f.output_tokens_text.as_str());
        assert(x@ =~= seq![' ', '\u{21D1}'] + f.input_tokens_text@ + seq![' ', '\u{21D3}']
            + f.output_tokens_text@);
    }
    x
}

/// See `bar_compact`.
fn compact_piece(f: &SessionFacts) -> (r: String)
    ensures
        r@ == bar_compact(*f),
{
    let mut x = String::new();
    if f.compactions > 0 {
        x.push(' ');
        append(&mut x, "cmp:");
        let n = decimal_text(f.compactions as u64);
        append(&mut x, n.as_str());
        assert(x@ =~= seq![' '] + "cmp:"@ + decimal(f.compactions as nat));
    }
    x
}

/// See `bar_state`.
fn state_piece(c: &StatusContext) -> (r: String)
    ensures
        r@ == bar_state(*c),
{
    let mut x = String::new();
    match &c.prompt_name {
        Some(n) => {
            append(&mut x, "prompt:");
            append(&mut x, n.as_str());
        },
        None => {},
    }
    let ghost x0 = x@;
    match &c.perm_mode {
        Some(m) => {
            let mv = chars_of(m.as_str());
            if !spells(mv.as_slice(), "standard") {
                append(&mut x, " | mode:");
                append(&mut x, m.as_str());
            }
        },
        None => {},
    }
    proof {
        assert(x0 =~= match c.prompt_name {
            Some(n) => "prompt:"@ + n@,
            None => Seq::<char>::empty(),
        });
    }
    x
}

impl StatusLine {
    /// The status bar and chain label (see `status_bar`).
    pub fn render(f: &SessionFacts, c: &StatusContext) -> (r: (String, Option<String>))
        requires
            f.effective_tokens * 100 <= u64::MAX,
        ensures
            r.0@ == status_bar(*f, *c).0,
            opt_view(r.1) == status_bar(*f, *c).1,
    {
        let mut x = basename(f.working_dir.as_str());
        append(&mut x, cost_piece(f).as_str());
        append(&mut x, btw_piece(f, c).as_str());
        append(&mut x, " | ");
        append(&mut x, f.model.as_str());
        append(&mut x, loop_piece(c).as_str());
        append(&mut x, " | ");
        append(&mut x, context_piece(f).as_str());
        append(&mut x, tokens_piece(f).as_str());
        append(&mut x, compact_piece(f).as_str());
        append(&mut x, " | ");
        append(&mut x, state_piece(c).as_str());
        let chain = match &c.chain_label {
            Some(l) => {
                let mut y = text_of(" | ");
                append(&mut y, l.as_str());
                Some(y)
            },
            None => None,
        };
        (x, chain)
    }
}

/// The text each segment's item resolves to (see `item_text`).
pub open spec fn segment_texts(segs: Seq<StatusLineSegment>, f: SessionFacts, c: StatusContext) -> Seq<
    Option<Seq<char>>,
> {
    Seq::new(segs.len(), |i: int| item_text(segs[i].item@, f, c, segs[i].always == Some(true)))
}

/// The live color of each segment's item (see `live_color`).
pub open spec fn segment_live(segs: Seq<StatusLineSegment>, f: SessionFacts) -> Seq<Option<Color>> {
    Seq::new(segs.len(), |i: int| live_color(segs[i].item@, context_pct(f.effective_tokens, f.context_window)))
}

/// What a run of status line pieces shows.
pub open spec fn spans_view(v: Seq<StatusSpan>) -> Seq<SpanView> {
    v.map_values(|s: StatusSpan| span_view(s))
}

/// The pieces of one status line for a session (see `build_line`).
pub open spec fn line_spans(line: StatusLineLine, f: SessionFacts, c: StatusContext) -> Seq<SpanView> {
    tidy(raw_spans(line.segments@, segment_texts(line.segments@, f, c), segment_live(line.segments@, f)))
        .map_values(|p: (SpanView, bool)| p.0)
}

/// Some segment shows the context percentage.
pub open spec fn shows_context_pct(segs: Seq<StatusLineSegment>) -> bool {
    exists|i: int| 0 <= i < segs.len() && #[trigger] segs[i].item@ == "context_percentage"@
}

/// The context percentage can be computed (its product fits in 64 bits)
/// wherever a line shows it.
pub open spec fn pct_computable(lines: Seq<StatusLineLine>, f: SessionFacts) -> bool {
    forall|k: int|
        0 <= k < lines.len() && #[trigger] shows_context_pct(lines[k].segments@) ==> f.effective_tokens
            * 100 <= u64::MAX
}

/// Lays out one status line for a session: each item resolved (see
/// `item_text`) with its live color (see `live_color`), then the pieces as
/// `build_line` makes them.
pub fn status_line_spans(line: &StatusLineLine, f: &SessionFacts, c: &StatusContext) -> (r: Vec<StatusSpan>)
    requires
        shows_context_pct(line.segments@) ==> f.effective_tokens * 100 <= u64::MAX,
    ensures
        spans_view(r@) == line_spans(*line, *f, *c),
{
    let segs = &line.segments;
    let ghost texts = segment_texts(segs@, *f, *c);
    let ghost live_all = segment_live(segs@, *f);
    let mut resolved: Vec<Option<String>> = Vec::new();
    let mut live: Vec<Option<Color>> = Vec::new();
    let mut i: usize = 0;
    while i < segs.len()
        invariant
            i <= segs@.len(),
            segs@ == line.segments@,
            texts == segment_texts(segs@, *f, *c),
            live_all == segment_live(segs@, *f),
            shows_context_pct(segs@) ==> f.effective_tokens * 100 <= u64::MAX,
            resolved@.len() == i,
            live@.len() == i,
            forall|k: int| 0 <= k < i ==> #[trigger] opt_view(resolved@[k]) == texts[k],
            forall|k: int| 0 <= k < i ==> #[trigger] live@[k] == live_all[k],
        decreases segs@.len() - i,
    {
        let seg = &segs[i];
        let always = match seg.always {
            Some(a) => a,
            None => false,
        };
        let iv = chars_of(seg.item.as_str());
        let is_pct = spells(iv.as_slice(), "context_percentage");
        proof {
            if is_pct {
                assert(shows_context_pct(segs@));
            }
        }
        let text = resolve_item(seg.item.as_str(), f, c, always);
        let color = if is_pct {
            dynamic_item_color(seg.item.as_str(), context_percentage(f.effective_tokens, f.context_window))
        } else {
            None
        };
        proof {
            reveal_strlit("context_percentage");
            assert("context_percentage"@ =~= seq![
                'c', 'o', 'n', 't', 'e', 'x', 't', '_', 'p', 'e', 'r', 'c', 'e', 'n', 't', 'a', 'g', 'e',
            ]);
            if !is_pct {
                assert(live_color(seg.item@, context_pct(f.effective_tokens, f.context_window)) is None);
            }
        }
        resolved.push(text);
        live.push(color);
        i = i + 1;
    }
    assert(resolved@.map_values(|o: Option<String>| opt_view(o)) =~= texts);
    assert(live@ =~= live_all);
    build_line(line, &resolved, &live)
}

/// Lays out every line of a status line layout for a session (see
/// `status_line_spans`).
pub fn build_lines(spec: &StatusLineConfig, f: &SessionFacts, c: &StatusContext) -> (r: Vec<Vec<StatusSpan>>)
    requires
        pct_computable(spec.lines@, *f),
    ensures
        r@.len() == spec.lines@.len(),
        forall|k: int|
            0 <= k < r@.len() ==> #[trigger] spans_view(r@[k]@) == line_spans(
                spec.lines@[k],
                *f,
                *c,
            ),
{
    let mut r: Vec<Vec<StatusSpan>> = Vec::new();
    let mut k: usize = 0;
    while k < spec.lines.len()
        invariant
            k <= spec.lines@.len(),
            pct_computable(spec.lines@, *f),
            r@.len() == k,
            forall|j: int|
                0 <= j < k ==> #[trigger] spans_view(r@[j]@) == line_spans(
                    spec.lines@[j],
                    *f,
                    *c,
                ),
        decreases spec.lines@.len() - k,
    {
        proof {
            if shows_context_pct(spec.lines@[k as int].segments@) {
                assert(f.effective_tokens * 100 <= u64::MAX);
            }
        }
        let spans = status_line_spans(&spec.lines[k], f, c);
        r.push(spans);
        k = k + 1;
    }
    r
}

impl StatusLineSetup {
    /// Lays out the status line for a session with the layout set (the
    /// built-in one when none is; see `spec`).
    pub fn build(&mut self, f: &SessionFacts, c: &StatusContext) -> (r: Vec<Vec<StatusSpan>>)
        requires
            f.effective_tokens * 100 <= u64::MAX,
        ensures
            old(self).spec is Some ==> final(self).spec == old(self).spec,
            old(self).spec is None ==> (final(self).spec matches Some(s) && crate::statusline::is_default_spec(s)),
            final(self).needs_git == old(self).needs_git,
            match final(self).spec {
                Some(s) => r@.len() == s.lines@.len() && forall|k: int|
                    0 <= k < r@.len() ==> #[trigger] spans_view(r@[k]@)
                        == line_spans(s.lines@[k], *f, *c),
                None => false,
            },
    {
        let spec = self.spec();
        build_lines(spec, f, c)
    }
}

} // verus!
