//! The filtering pickers shown above the input line.
//!
//! Every picker keeps a query with a character cursor, the items that match
//! the query (case-insensitively, at most `MAX_MATCHES`, in item order) and a
//! selected position that wraps around at both ends.
use vstd::prelude::*;

use crate::color::{resolve_color, resolved, Color};
use crate::filter::{
    filter_strings, filter_strs, filtered, hits, insert_char, item_matches, insert_char_at, next_index, next_pos,
    prev_index, prev_pos, remove_char_at, str_views, views,
};

verus! {

/// What a picker shows: whether it is shown, its query and the query cursor
/// (a character index), the texts of its matches and the selected position.
pub struct ListState {
    pub active: bool,
    pub query: Seq<char>,
    pub cursor: int,
    pub matches: Seq<Seq<char>>,
    pub selected: int,
}

/// `st` after typing `c` into the query of a picker over `items`.
pub open spec fn typed_state(st: ListState, items: Seq<Seq<char>>, c: char) -> ListState {
    let q = insert_char(st.query, st.cursor, c);
    ListState { query: q, cursor: st.cursor + 1, matches: filtered(items, q), selected: 0, ..st }
}

/// `st` after deleting the query character before the cursor of a picker
/// over `items`; unchanged at the start of the query or on an empty query.
pub open spec fn erased_state(st: ListState, items: Seq<Seq<char>>) -> ListState {
    if st.cursor > 0 && st.query.len() > 0 {
        let q = st.query.remove(st.cursor - 1);
        ListState { query: q, cursor: st.cursor - 1, matches: filtered(items, q), selected: 0, ..st }
    } else {
        st
    }
}

/// `st` with the next match selected.
pub open spec fn next_state(st: ListState) -> ListState {
    if st.matches.len() > 0 {
        ListState { selected: next_pos(st.selected, st.matches.len() as int), ..st }
    } else {
        st
    }
}

/// `st` with the previous match selected.
pub open spec fn prev_state(st: ListState) -> ListState {
    if st.matches.len() > 0 {
        ListState { selected: prev_pos(st.selected, st.matches.len() as int), ..st }
    } else {
        st
    }
}

/// `st` hidden.
pub open spec fn hidden_state(st: ListState) -> ListState {
    ListState { active: false, ..st }
}

/// The commands offered by the command picker.
pub open spec fn command_names() -> Seq<&'static str> {
    seq![
        "/model",
        "/models",
        "/models-add",
        "/provider",
        "/sessions",
        "/reasoning",
        "/thinking",
        "/mode",
        "/mcp",
        "/toggle",
        "/compress",
        "/compact",
        "/loop",
        "/prompt",
        "/theme",
        "/history",
        "/regen-prompts",
        "/regen-themes",
        "/quit",
        "/clear",
        "/undo",
        "/retry",
        "/help",
        "/worktree",
        "/wt-merge",
        "/wt-exit",
    ]
}

/// The commands offered by a picker made with `ListPicker::with_static_commands`.
pub open spec fn static_command_names() -> Seq<&'static str> {
    seq![
        "/add",
        "/drop",
        "/drop-all",
        "/init",
        "/memory",
        "/model",
        "/models",
        "/models-add",
        "/provider",
        "/sessions",
        "/reasoning",
        "/thinking",
        "/mode",
        "/mcp",
        "/toggle",
        "/compress",
        "/compact",
        "/loop",
        "/prompt",
        "/theme",
        "/history",
        "/regen-prompts",
        "/regen-themes",
        "/editsys",
        "/quit",
        "/exit",
        "/clear",
        "/new",
        "/undo",
        "/retry",
        "/help",
        "/welcome",
        "/tutorial",
        "/review",
        "/worktree",
        "/wt-merge",
        "/wt-exit",
        "/btw",
        "/queue",
    ]
}

/// The commands offered by the command picker.
pub fn command_list() -> (v: Vec<&'static str>)
    ensures
        v@ == command_names(),
{
    let mut v: Vec<&'static str> = Vec::new();
    v.push("/model");
    v.push("/models");
    v.push("/models-add");
    v.push("/provider");
    v.push("/sessions");
    v.push("/reasoning");
    v.push("/thinking");
    v.push("/mode");
    v.push("/mcp");
    v.push("/toggle");
    v.push("/compress");
    v.push("/compact");
    v.push("/loop");
    v.push("/prompt");
    v.push("/theme");
    v.push("/history");
    v.push("/regen-prompts");
    v.push("/regen-themes");
    v.push("/quit");
    v.push("/clear");
    v.push("/undo");
    v.push("/retry");
    v.push("/help");
    v.push("/worktree");
    v.push("/wt-merge");
    v.push("/wt-exit");
    assert(v@ =~= command_names());
    v
}

/// The commands offered by a picker made with `ListPicker::with_static_commands`.
pub fn static_command_list() -> (v: Vec<&'static str>)
    ensures
        v@ == static_command_names(),
{
    let mut v: Vec<&'static str> = Vec::new();
    v.push("/add");
    v.push("/drop");
    v.push("/drop-all");
    v.push("/init");
    v.push("/memory");
    v.push("/model");
    v.push("/models");
    v.push("/models-add");
    v.push("/provider");
    v.push("/sessions");
    v.push("/reasoning");
    v.push("/thinking");
    v.push("/mode");
    v.push("/mcp");
    v.push("/toggle");
    v.push("/compress");
    v.push("/compact");
    v.push("/loop");
    v.push("/prompt");
    v.push("/theme");
    v.push("/history");
    v.push("/regen-prompts");
    v.push("/regen-themes");
    v.push("/editsys");
    v.push("/quit");
    v.push("/exit");
    v.push("/clear");
    v.push("/new");
    v.push("/undo");
    v.push("/retry");
    v.push("/help");
    v.push("/welcome");
    v.push("/tutorial");
    v.push("/review");
    v.push("/worktree");
    v.push("/wt-merge");
    v.push("/wt-exit");
    v.push("/btw");
    v.push("/queue");
    assert(v@ =~= static_command_names());
    v
}

/// Copies a run of string slices into owned strings.
pub fn to_strings(v: &Vec<&'static str>) -> (r: Vec<String>)
    ensures
        views(r@) == str_views(v@),
{
    let mut r: Vec<String> = Vec::new();
    let mut i: usize = 0;
    while i < v.len()
        invariant
            i <= v@.len(),
            views(r@) == str_views(v@.take(i as int)),
        decreases v@.len() - i,
    {
        let s = crate::text::string_of(crate::text::chars_of(v[i]).as_slice());
        let ghost before = r@;
        r.push(s);
        assert(views(r@) =~= views(before).push(v@[i as int]@));
        assert(str_views(v@.take(i + 1)) =~= str_views(v@.take(i as int)).push(v@[i as int]@));
        i = i + 1;
    }
    assert(v@.take(v@.len() as int) =~= v@);
    r
}


/// Picker over the slash commands, opened by typing `/` at the start of the input.
pub struct CommandPicker {
    pub active: bool,
    pub query: String,
    pub cursor: usize,
    pub matches: Vec<&'static str>,
    pub selected: usize,
    pub monochrome: bool,
}

impl CommandPicker {
    /// The texts of the current matches.
    pub open spec fn matches_view(&self) -> Seq<Seq<char>> {
        str_views(self.matches@)
    }

    /// What the picker shows.
    pub open spec fn state(&self) -> ListState {
        ListState {
            active: self.active,
            query: self.query@,
            cursor: self.cursor as int,
            matches: self.matches_view(),
            selected: self.selected as int,
        }
    }

    /// The texts of the items the picker filters.
    pub open spec fn items_view(&self) -> Seq<Seq<char>> {
        str_views(command_names())
    }

    /// `self` and `other` filter the same items.
    pub open spec fn same_items(&self, other: &Self) -> bool {
        true
    }

    /// Whether the picker draws without colors.
    pub open spec fn is_monochrome(&self) -> bool {
        self.monochrome
    }

    /// `self` and `other` filter the same items in the same color mode.
    pub open spec fn same_setup(&self, other: &Self) -> bool {
        self.monochrome == other.monochrome 
    }

    /// An inactive picker with an empty query.
    pub fn new() -> (r: Self)
        ensures
            !r.active,
            r.query@.len() == 0,
            r.cursor == 0,
            r.matches@.len() == 0,
            r.selected == 0,
            !r.is_monochrome(),

    {
        CommandPicker {
            active: false,
            query: String::new(),
            cursor: 0,
            matches: Vec::new(),
            selected: 0,
            monochrome: false,
        }
    }

    /// Turns monochrome drawing on or off.
    pub fn set_monochrome(&mut self, monochrome: bool)
        ensures
            final(self).is_monochrome() == monochrome,
            final(self).same_items(old(self)),
            final(self).active == old(self).active,
            final(self).query == old(self).query,
            final(self).cursor == old(self).cursor,
            final(self).matches == old(self).matches,
            final(self).selected == old(self).selected,
    {
        self.monochrome = monochrome;
    }

    /// The color to draw with: `Reset` in monochrome mode.
    pub fn color(&self, color: Color) -> (r: Color)
        ensures
            r == resolved(color, self.is_monochrome()),
    {
        resolve_color(color, self.monochrome)
    }

    /// Shows the picker with an empty query and every item listed (up to
    /// `MAX_MATCHES`).
    pub fn activate(&mut self)
        ensures
            final(self).active,
            final(self).query@.len() == 0,
            final(self).cursor == 0,
            final(self).selected == 0,
            final(self).matches_view() == filtered(final(self).items_view(), final(self).query@),
            final(self).same_setup(old(self)),
    {
        self.active = true;
        self.query = String::new();
        self.cursor = 0;
        self.matches = Vec::new();
        self.selected = 0;
        self.filter();
    }

    /// Hides the picker.
    pub fn deactivate(&mut self)
        ensures
            !final(self).active,
            final(self).query == old(self).query,
            final(self).cursor == old(self).cursor,
            final(self).matches == old(self).matches,
            final(self).selected == old(self).selected,
            final(self).same_setup(old(self)),
    {
        self.active = false;
    }

    /// Inserts `c` into the query before character `cursor`, moves the cursor
    /// past it and filters again.
    pub fn char_input(&mut self, c: char)
        requires
            old(self).cursor < usize::MAX,
        ensures
            final(self).query@ == insert_char(old(self).query@, old(self).cursor as int, c),
            final(self).cursor == old(self).cursor + 1,
            final(self).matches_view() == filtered(final(self).items_view(), final(self).query@),
            final(self).selected == 0,
            final(self).active == old(self).active,
            final(self).same_setup(old(self)),
    {
        self.query = insert_char_at(&self.query, self.cursor, c);
        self.cursor = self.cursor + 1;
        self.filter();
    }

    /// Deletes the query character before the cursor and filters again; does
    /// nothing at the start of the query or on an empty query.
    pub fn backspace(&mut self)
        requires
            old(self).cursor > 0 && old(self).query@.len() > 0 ==> old(self).cursor - 1 < old(
                self,
            ).query@.len(),
        ensures
            old(self).cursor > 0 && old(self).query@.len() > 0 ==> {
                &&& final(self).query@ == old(self).query@.remove(old(self).cursor - 1)
                &&& final(self).cursor == old(self).cursor - 1
                &&& final(self).matches_view() == filtered(
                    final(self).items_view(),
                    final(self).query@,
                )
                &&& final(self).selected == 0
                &&& final(self).active == old(self).active
                &&& final(self).same_setup(old(self))
            },
            !(old(self).cursor > 0 && old(self).query@.len() > 0) ==> *final(self) == *old(self),
    {
        if self.cursor > 0 && !self.query.as_str().is_empty() {
            self.cursor = self.cursor - 1;
            self.query = remove_char_at(&self.query, self.cursor);
            self.filter();
        }
    }

    fn filter(&mut self)
        ensures
            final(self).matches_view() == filtered(final(self).items_view(), final(self).query@),
            final(self).selected == 0,
            final(self).active == old(self).active,
            final(self).query == old(self).query,
            final(self).cursor == old(self).cursor,
            final(self).same_setup(old(self)),
    {
        let cmds = command_list();
        self.matches = filter_strs(&cmds, self.query.as_str());
        self.selected = 0;
    }

    /// Selects the next match, wrapping to the first after the last.
    pub fn select_next(&mut self)
        requires
            old(self).matches@.len() > 0 ==> old(self).selected < usize::MAX,
        ensures
            final(self).selected == (if old(self).matches@.len() > 0 {
                next_pos(old(self).selected as int, old(self).matches@.len() as int)
            } else {
                old(self).selected as int
            }),
            final(self).matches == old(self).matches,
            final(self).query == old(self).query,
            final(self).cursor == old(self).cursor,
            final(self).active == old(self).active,
            final(self).same_setup(old(self)),
    {
        if self.matches.len() > 0 {
            self.selected = next_index(self.selected, self.matches.len());
        }
    }

    /// Selects the previous match, wrapping to the last before the first.
    pub fn select_prev(&mut self)
        ensures
            final(self).selected == (if old(self).matches@.len() > 0 {
                prev_pos(old(self).selected as int, old(self).matches@.len() as int)
            } else {
                old(self).selected as int
            }),
            final(self).matches == old(self).matches,
            final(self).query == old(self).query,
            final(self).cursor == old(self).cursor,
            final(self).active == old(self).active,
            final(self).same_setup(old(self)),
    {
        if self.matches.len() > 0 {
            self.selected = prev_index(self.selected, self.matches.len());
        }
    }

    /// The selected command, if the selection is on a match.
    pub fn selected_command(&self) -> (r: Option<&'static str>)
        ensures
            r is Some <==> self.selected < self.matches@.len(),
            r is Some ==> r->0 == self.matches@[self.selected as int],
    {
        if self.selected < self.matches.len() {
            Some(self.matches[self.selected])
        } else {
            None
        }
    }

    /// Replaces the matches directly and selects the first.
    pub fn test_set_matches(&mut self, items: Vec<&'static str>)
        ensures
            final(self).matches == items,
            final(self).selected == 0,
            final(self).active == old(self).active,
            final(self).query == old(self).query,
            final(self).cursor == old(self).cursor,
            final(self).same_setup(old(self)),
    {
        self.matches = items;
        self.selected = 0;
    }
}

/// Picker over the prompt names, opened after `/prompt `.
pub struct PromptPicker {
    pub active: bool,
    pub query: String,
    pub cursor: usize,
    pub matches: Vec<String>,
    pub selected: usize,
    pub items: Vec<String>,
    pub monochrome: bool,
}

impl PromptPicker {
    /// The texts of the current matches.
    pub open spec fn matches_view(&self) -> Seq<Seq<char>> {
        views(self.matches@)
    }

    /// What the picker shows.
    pub open spec fn state(&self) -> ListState {
        ListState {
            active: self.active,
            query: self.query@,
            cursor: self.cursor as int,
            matches: self.matches_view(),
            selected: self.selected as int,
        }
    }

    /// The texts of the items the picker filters.
    pub open spec fn items_view(&self) -> Seq<Seq<char>> {
        views(self.items@)
    }

    /// `self` and `other` filter the same items.
    pub open spec fn same_items(&self, other: &Self) -> bool {
        self.items == other.items
    }

    /// Whether the picker draws without colors.
    pub open spec fn is_monochrome(&self) -> bool {
        self.monochrome
    }

    /// `self` and `other` filter the same items in the same color mode.
    pub open spec fn same_setup(&self, other: &Self) -> bool {
        self.monochrome == other.monochrome && self.items == other.items 
    }

    /// An inactive picker with an empty query and no items.
    pub fn new() -> (r: Self)
        ensures
            !r.active,
            r.query@.len() == 0,
            r.cursor == 0,
            r.matches@.len() == 0,
            r.selected == 0,
            !r.is_monochrome(),
            r.items_view().len() == 0,
    {
        PromptPicker {
            active: false,
            query: String::new(),
            cursor: 0,
            matches: Vec::new(),
            selected: 0,
            items: Vec::new(),
            monochrome: false,
        }
    }

    /// Turns monochrome drawing on or off.
    pub fn set_monochrome(&mut self, monochrome: bool)
        ensures
            final(self).is_monochrome() == monochrome,
            final(self).same_items(old(self)),
            final(self).active == old(self).active,
            final(self).query == old(self).query,
            final(self).cursor == old(self).cursor,
            final(self).matches == old(self).matches,
            final(self).selected == old(self).selected,
    {
        self.monochrome = monochrome;
    }

    /// The color to draw with: `Reset` in monochrome mode.
    pub fn color(&self, color: Color) -> (r: Color)
        ensures
            r == resolved(color, self.is_monochrome()),
    {
        resolve_color(color, self.monochrome)
    }

    /// Replaces the items the picker filters.
    pub fn set_items(&mut self, items: Vec<String>)
        ensures
            final(self).items_view() == views(items@),
            final(self).is_monochrome() == old(self).is_monochrome(),
            final(self).active == old(self).active,
            final(self).query == old(self).query,
            final(self).cursor == old(self).cursor,
            final(self).matches == old(self).matches,
            final(self).selected == old(self).selected,
    {
        self.items = items;
    }

    /// Shows the picker with an empty query and every item listed (up to
    /// `MAX_MATCHES`).
    pub fn activate(&mut self)
        ensures
            final(self).active,
            final(self).query@.len() == 0,
            final(self).cursor == 0,
            final(self).selected == 0,
            final(self).matches_view() == filtered(final(self).items_view(), final(self).query@),
            final(self).same_setup(old(self)),
    {
        self.active = true;
        self.query = String::new();
        self.cursor = 0;
        self.matches = Vec::new();
        self.selected = 0;
        self.filter();
    }

    /// Hides the picker.
    pub fn deactivate(&mut self)
        ensures
            !final(self).active,
            final(self).query == old(self).query,
            final(self).cursor == old(self).cursor,
            final(self).matches == old(self).matches,
            final(self).selected == old(self).selected,
            final(self).same_setup(old(self)),
    {
        self.active = false;
    }

    /// Inserts `c` into the query before character `cursor`, moves the cursor
    /// past it and filters again.
    pub fn char_input(&mut self, c: char)
        requires
            old(self).cursor < usize::MAX,
        ensures
            final(self).query@ == insert_char(old(self).query@, old(self).cursor as int, c),
            final(self).cursor == old(self).cursor + 1,
            final(self).matches_view() == filtered(final(self).items_view(), final(self).query@),
            final(self).selected == 0,
            final(self).active == old(self).active,
            final(self).same_setup(old(self)),
    {
        self.query = insert_char_at(&self.query, self.cursor, c);
        self.cursor = self.cursor + 1;
        self.filter();
    }

    /// Deletes the query character before the cursor and filters again; does
    /// nothing at the start of the query or on an empty query.
    pub fn backspace(&mut self)
        requires
            old(self).cursor > 0 && old(self).query@.len() > 0 ==> old(self).cursor - 1 < old(
                self,
            ).query@.len(),
        ensures
            old(self).cursor > 0 && old(self).query@.len() > 0 ==> {
                &&& final(self).query@ == old(self).query@.remove(old(self).cursor - 1)
                &&& final(self).cursor == old(self).cursor - 1
                &&& final(self).matches_view() == filtered(
                    final(self).items_view(),
                    final(self).query@,
                )
                &&& final(self).selected == 0
                &&& final(self).active == old(self).active
                &&& final(self).same_setup(old(self))
            },
            !(old(self).cursor > 0 && old(self).query@.len() > 0) ==> *final(self) == *old(self),
    {
        if self.cursor > 0 && !self.query.as_str().is_empty() {
            self.cursor = self.cursor - 1;
            self.query = remove_char_at(&self.query, self.cursor);
            self.filter();
        }
    }

    fn filter(&mut self)
        ensures
            final(self).matches_view() == filtered(final(self).items_view(), final(self).query@),
            final(self).selected == 0,
            final(self).active == old(self).active,
            final(self).query == old(self).query,
            final(self).cursor == old(self).cursor,
            final(self).same_setup(old(self)),
    {
        self.matches = filter_strings(&self.items, self.query.as_str());
        self.selected = 0;
    }

    /// Selects the next match, wrapping to the first after the last.
    pub fn select_next(&mut self)
        requires
            old(self).matches@.len() > 0 ==> old(self).selected < usize::MAX,
        ensures
            final(self).selected == (if old(self).matches@.len() > 0 {
                next_pos(old(self).selected as int, old(self).matches@.len() as int)
            } else {
                old(self).selected as int
            }),
            final(self).matches == old(self).matches,
            final(self).query == old(self).query,
            final(self).cursor == old(self).cursor,
            final(self).active == old(self).active,
            final(self).same_setup(old(self)),
    {
        if self.matches.len() > 0 {
            self.selected = next_index(self.selected, self.matches.len());
        }
    }

    /// Selects the previous match, wrapping to the last before the first.
    pub fn select_prev(&mut self)
        ensures
            final(self).selected == (if old(self).matches@.len() > 0 {
                prev_pos(old(self).selected as int, old(self).matches@.len() as int)
            } else {
                old(self).selected as int
            }),
            final(self).matches == old(self).matches,
            final(self).query == old(self).query,
            final(self).cursor == old(self).cursor,
            final(self).active == old(self).active,
            final(self).same_setup(old(self)),
    {
        if self.matches.len() > 0 {
            self.selected = prev_index(self.selected, self.matches.len());
        }
    }

    /// The selected name, if the selection is on a match.
    pub fn selected_name(&self) -> (r: Option<&str>)
        ensures
            r is Some <==> self.selected < self.matches@.len(),
            r is Some ==> r->0@ == self.matches@[self.selected as int]@,
    {
        if self.selected < self.matches.len() {
            Some(self.matches[self.selected].as_str())
        } else {
            None
        }
    }

    /// Replaces the items the picker filters.
    pub fn test_set_items(&mut self, items: Vec<String>)
        ensures
            final(self).items_view() == views(items@),
            final(self).is_monochrome() == old(self).is_monochrome(),
            final(self).active == old(self).active,
            final(self).query == old(self).query,
            final(self).cursor == old(self).cursor,
            final(self).matches == old(self).matches,
            final(self).selected == old(self).selected,
    {
        self.items = items;
    }
}

/// Picker over the quick model names, opened after `/models `.
pub struct ModelsPicker {
    pub active: bool,
    pub query: String,
    pub cursor: usize,
    pub matches: Vec<String>,
    pub selected: usize,
    pub items: Vec<String>,
    pub monochrome: bool,
}

impl ModelsPicker {
    /// The texts of the current matches.
    pub open spec fn matches_view(&self) -> Seq<Seq<char>> {
        views(self.matches@)
    }

    /// What the picker shows.
    pub open spec fn state(&self) -> ListState {
        ListState {
            active: self.active,
            query: self.query@,
            cursor: self.cursor as int,
            matches: self.matches_view(),
            selected: self.selected as int,
        }
    }

    /// The texts of the items the picker filters.
    pub open spec fn items_view(&self) -> Seq<Seq<char>> {
        views(self.items@)
    }

    /// `self` and `other` filter the same items.
    pub open spec fn same_items(&self, other: &Self) -> bool {
        self.items == other.items
    }

    /// Whether the picker draws without colors.
    pub open spec fn is_monochrome(&self) -> bool {
        self.monochrome
    }

    /// `self` and `other` filter the same items in the same color mode.
    pub open spec fn same_setup(&self, other: &Self) -> bool {
        self.monochrome == other.monochrome && self.items == other.items 
    }

    /// An inactive picker with an empty query and no items.
    pub fn new() -> (r: Self)
        ensures
            !r.active,
            r.query@.len() == 0,
            r.cursor == 0,
            r.matches@.len() == 0,
            r.selected == 0,
            !r.is_monochrome(),
            r.items_view().len() == 0,
    {
        ModelsPicker {
            active: false,
            query: String::new(),
            cursor: 0,
            matches: Vec::new(),
            selected: 0,
            items: Vec::new(),
            monochrome: false,
        }
    }

    /// Turns monochrome drawing on or off.
    pub fn set_monochrome(&mut self, monochrome: bool)
        ensures
            final(self).is_monochrome() == monochrome,
            final(self).same_items(old(self)),
            final(self).active == old(self).active,
            final(self).query == old(self).query,
            final(self).cursor == old(self).cursor,
            final(self).matches == old(self).matches,
            final(self).selected == old(self).selected,
    {
        self.monochrome = monochrome;
    }

    /// The color to draw with: `Reset` in monochrome mode.
    pub fn color(&self, color: Color) -> (r: Color)
        ensures
            r == resolved(color, self.is_monochrome()),
    {
        resolve_color(color, self.monochrome)
    }

    /// Replaces the items the picker filters.
    pub fn set_items(&mut self, items: Vec<String>)
        ensures
            final(self).items_view() == views(items@),
            final(self).is_monochrome() == old(self).is_monochrome(),
            final(self).active == old(self).active,
            final(self).query == old(self).query,
            final(self).cursor == old(self).cursor,
            final(self).matches == old(self).matches,
            final(self).selected == old(self).selected,
    {
        self.items = items;
    }

    /// Shows the picker with an empty query and every item listed (up to
    /// `MAX_MATCHES`).
    pub fn activate(&mut self)
        ensures
            final(self).active,
            final(self).query@.len() == 0,
            final(self).cursor == 0,
            final(self).selected == 0,
            final(self).matches_view() == filtered(final(self).items_view(), final(self).query@),
            final(self).same_setup(old(self)),
    {
        self.active = true;
        self.query = String::new();
        self.cursor = 0;
        self.matches = Vec::new();
        self.selected = 0;
        self.filter();
    }

    /// Hides the picker.
    pub fn deactivate(&mut self)
        ensures
            !final(self).active,
            final(self).query == old(self).query,
            final(self).cursor == old(self).cursor,
            final(self).matches == old(self).matches,
            final(self).selected == old(self).selected,
            final(self).same_setup(old(self)),
    {
        self.active = false;
    }

    /// Inserts `c` into the query before character `cursor`, moves the cursor
    /// past it and filters again.
    pub fn char_input(&mut self, c: char)
        requires
            old(self).cursor < usize::MAX,
        ensures
            final(self).query@ == insert_char(old(self).query@, old(self).cursor as int, c),
            final(self).cursor == old(self).cursor + 1,
            final(self).matches_view() == filtered(final(self).items_view(), final(self).query@),
            final(self).selected == 0,
            final(self).active == old(self).active,
            final(self).same_setup(old(self)),
    {
        self.query = insert_char_at(&self.query, self.cursor, c);
        self.cursor = self.cursor + 1;
        self.filter();
    }

    /// Deletes the query character before the cursor and filters again; does
    /// nothing at the start of the query or on an empty query.
    pub fn backspace(&mut self)
        requires
            old(self).cursor > 0 && old(self).query@.len() > 0 ==> old(self).cursor - 1 < old(
                self,
            ).query@.len(),
        ensures
            old(self).cursor > 0 && old(self).query@.len() > 0 ==> {
                &&& final(self).query@ == old(self).query@.remove(old(self).cursor - 1)
                &&& final(self).cursor == old(self).cursor - 1
                &&& final(self).matches_view() == filtered(
                    final(self).items_view(),
                    final(self).query@,
                )
                &&& final(self).selected == 0
                &&& final(self).active == old(self).active
                &&& final(self).same_setup(old(self))
            },
            !(old(self).cursor > 0 && old(self).query@.len() > 0) ==> *final(self) == *old(self),
    {
        if self.cursor > 0 && !self.query.as_str().is_empty() {
            self.cursor = self.cursor - 1;
            self.query = remove_char_at(&self.query, self.cursor);
            self.filter();
        }
    }

    fn filter(&mut self)
        ensures
            final(self).matches_view() == filtered(final(self).items_view(), final(self).query@),
            final(self).selected == 0,
            final(self).active == old(self).active,
            final(self).query == old(self).query,
            final(self).cursor == old(self).cursor,
            final(self).same_setup(old(self)),
    {
        self.matches = filter_strings(&self.items, self.query.as_str());
        self.selected = 0;
    }

    /// Selects the next match, wrapping to the first after the last.
    pub fn select_next(&mut self)
        requires
            old(self).matches@.len() > 0 ==> old(self).selected < usize::MAX,
        ensures
            final(self).selected == (if old(self).matches@.len() > 0 {
                next_pos(old(self).selected as int, old(self).matches@.len() as int)
            } else {
                old(self).selected as int
            }),
            final(self).matches == old(self).matches,
            final(self).query == old(self).query,
            final(self).cursor == old(self).cursor,
            final(self).active == old(self).active,
            final(self).same_setup(old(self)),
    {
        if self.matches.len() > 0 {
            self.selected = next_index(self.selected, self.matches.len());
        }
    }

    /// Selects the previous match, wrapping to the last before the first.
    pub fn select_prev(&mut self)
        ensures
            final(self).selected == (if old(self).matches@.len() > 0 {
                prev_pos(old(self).selected as int, old(self).matches@.len() as int)
            } else {
                old(self).selected as int
            }),
            final(self).matches == old(self).matches,
            final(self).query == old(self).query,
            final(self).cursor == old(self).cursor,
            final(self).active == old(self).active,
            final(self).same_setup(old(self)),
    {
        if self.matches.len() > 0 {
            self.selected = prev_index(self.selected, self.matches.len());
        }
    }

    /// The selected name, if the selection is on a match.
    pub fn selected_name(&self) -> (r: Option<&str>)
        ensures
            r is Some <==> self.selected < self.matches@.len(),
            r is Some ==> r->0@ == self.matches@[self.selected as int]@,
    {
        if self.selected < self.matches.len() {
            Some(self.matches[self.selected].as_str())
        } else {
            None
        }
    }
}

/// Picker over the theme names, opened after `/theme `.
pub struct ThemePicker {
    pub active: bool,
    pub query: String,
    pub cursor: usize,
    pub matches: Vec<String>,
    pub selected: usize,
    pub items: Vec<String>,
    pub monochrome: bool,
}

impl ThemePicker {
    /// The texts of the current matches.
    pub open spec fn matches_view(&self) -> Seq<Seq<char>> {
        views(self.matches@)
    }

    /// What the picker shows.
    pub open spec fn state(&self) -> ListState {
        ListState {
            active: self.active,
            query: self.query@,
            cursor: self.cursor as int,
            matches: self.matches_view(),
            selected: self.selected as int,
        }
    }

    /// The texts of the items the picker filters.
    pub open spec fn items_view(&self) -> Seq<Seq<char>> {
        views(self.items@)
    }

    /// `self` and `other` filter the same items.
    pub open spec fn same_items(&self, other: &Self) -> bool {
        self.items == other.items
    }

    /// Whether the picker draws without colors.
    pub open spec fn is_monochrome(&self) -> bool {
        self.monochrome
    }

    /// `self` and `other` filter the same items in the same color mode.
    pub open spec fn same_setup(&self, other: &Self) -> bool {
        self.monochrome == other.monochrome && self.items == other.items 
    }

    /// An inactive picker with an empty query and no items.
    pub fn new() -> (r: Self)
        ensures
            !r.active,
            r.query@.len() == 0,
            r.cursor == 0,
            r.matches@.len() == 0,
            r.selected == 0,
            !r.is_monochrome(),
            r.items_view().len() == 0,
    {
        ThemePicker {
            active: false,
            query: String::new(),
            cursor: 0,
            matches: Vec::new(),
            selected: 0,
            items: Vec::new(),
            monochrome: false,
        }
    }

    /// Turns monochrome drawing on or off.
    pub fn set_monochrome(&mut self, monochrome: bool)
        ensures
            final(self).is_monochrome() == monochrome,
            final(self).same_items(old(self)),
            final(self).active == old(self).active,
            final(self).query == old(self).query,
            final(self).cursor == old(self).cursor,
            final(self).matches == old(self).matches,
            final(self).selected == old(self).selected,
    {
        self.monochrome = monochrome;
    }

    /// The color to draw with: `Reset` in monochrome mode.
    pub fn color(&self, color: Color) -> (r: Color)
        ensures
            r == resolved(color, self.is_monochrome()),
    {
        resolve_color(color, self.monochrome)
    }

    /// Replaces the items the picker filters.
    pub fn set_items(&mut self, items: Vec<String>)
        ensures
            final(self).items_view() == views(items@),
            final(self).is_monochrome() == old(self).is_monochrome(),
            final(self).active == old(self).active,
            final(self).query == old(self).query,
            final(self).cursor == old(self).cursor,
            final(self).matches == old(self).matches,
            final(self).selected == old(self).selected,
    {
        self.items = items;
    }

    /// Shows the picker with an empty query and every item listed (up to
    /// `MAX_MATCHES`).
    pub fn activate(&mut self)
        ensures
            final(self).active,
            final(self).query@.len() == 0,
            final(self).cursor == 0,
            final(self).selected == 0,
            final(self).matches_view() == filtered(final(self).items_view(), final(self).query@),
            final(self).same_setup(old(self)),
    {
        self.active = true;
        self.query = String::new();
        self.cursor = 0;
        self.matches = Vec::new();
        self.selected = 0;
        self.filter();
    }

    /// Hides the picker.
    pub fn deactivate(&mut self)
        ensures
            !final(self).active,
            final(self).query == old(self).query,
            final(self).cursor == old(self).cursor,
            final(self).matches == old(self).matches,
            final(self).selected == old(self).selected,
            final(self).same_setup(old(self)),
    {
        self.active = false;
    }

    /// Inserts `c` into the query before character `cursor`, moves the cursor
    /// past it and filters again.
    pub fn char_input(&mut self, c: char)
        requires
            old(self).cursor < usize::MAX,
        ensures
            final(self).query@ == insert_char(old(self).query@, old(self).cursor as int, c),
            final(self).cursor == old(self).cursor + 1,
            final(self).matches_view() == filtered(final(self).items_view(), final(self).query@),
            final(self).selected == 0,
            final(self).active == old(self).active,
            final(self).same_setup(old(self)),
    {
        self.query = insert_char_at(&self.query, self.cursor, c);
        self.cursor = self.cursor + 1;
        self.filter();
    }

    /// Deletes the query character before the cursor and filters again; does
    /// nothing at the start of the query or on an empty query.
    pub fn backspace(&mut self)
        requires
            old(self).cursor > 0 && old(self).query@.len() > 0 ==> old(self).cursor - 1 < old(
                self,
            ).query@.len(),
        ensures
            old(self).cursor > 0 && old(self).query@.len() > 0 ==> {
                &&& final(self).query@ == old(self).query@.remove(old(self).cursor - 1)
                &&& final(self).cursor == old(self).cursor - 1
                &&& final(self).matches_view() == filtered(
                    final(self).items_view(),
                    final(self).query@,
                )
                &&& final(self).selected == 0
                &&& final(self).active == old(self).active
                &&& final(self).same_setup(old(self))
            },
            !(old(self).cursor > 0 && old(self).query@.len() > 0) ==> *final(self) == *old(self),
    {
        if self.cursor > 0 && !self.query.as_str().is_empty() {
            self.cursor = self.cursor - 1;
            self.query = remove_char_at(&self.query, self.cursor);
            self.filter();
        }
    }

    fn filter(&mut self)
        ensures
            final(self).matches_view() == filtered(final(self).items_view(), final(self).query@),
            final(self).selected == 0,
            final(self).active == old(self).active,
            final(self).query == old(self).query,
            final(self).cursor == old(self).cursor,
            final(self).same_setup(old(self)),
    {
        self.matches = filter_strings(&self.items, self.query.as_str());
        self.selected = 0;
    }

    /// Selects the next match, wrapping to the first after the last.
    pub fn select_next(&mut self)
        requires
            old(self).matches@.len() > 0 ==> old(self).selected < usize::MAX,
        ensures
            final(self).selected == (if old(self).matches@.len() > 0 {
                next_pos(old(self).selected as int, old(self).matches@.len() as int)
            } else {
                old(self).selected as int
            }),
            final(self).matches == old(self).matches,
            final(self).query == old(self).query,
            final(self).cursor == old(self).cursor,
            final(self).active == old(self).active,
            final(self).same_setup(old(self)),
    {
        if self.matches.len() > 0 {
            self.selected = next_index(self.selected, self.matches.len());
        }
    }

    /// Selects the previous match, wrapping to the last before the first.
    pub fn select_prev(&mut self)
        ensures
            final(self).selected == (if old(self).matches@.len() > 0 {
                prev_pos(old(self).selected as int, old(self).matches@.len() as int)
            } else {
                old(self).selected as int
            }),
            final(self).matches == old(self).matches,
            final(self).query == old(self).query,
            final(self).cursor == old(self).cursor,
            final(self).active == old(self).active,
            final(self).same_setup(old(self)),
    {
        if self.matches.len() > 0 {
            self.selected = prev_index(self.selected, self.matches.len());
        }
    }

    /// The selected name, if the selection is on a match.
    pub fn selected_name(&self) -> (r: Option<&str>)
        ensures
            r is Some <==> self.selected < self.matches@.len(),
            r is Some ==> r->0@ == self.matches@[self.selected as int]@,
    {
        if self.selected < self.matches.len() {
            Some(self.matches[self.selected].as_str())
        } else {
            None
        }
    }
}

/// A general picker over a list of names.
pub struct ListPicker {
    pub active: bool,
    pub query: String,
    pub cursor: usize,
    pub matches: Vec<String>,
    pub selected: usize,
    pub items: Vec<String>,
    pub monochrome: bool,
}

impl ListPicker {
    /// The texts of the current matches.
    pub open spec fn matches_view(&self) -> Seq<Seq<char>> {
        views(self.matches@)
    }

    /// What the picker shows.
    pub open spec fn state(&self) -> ListState {
        ListState {
            active: self.active,
            query: self.query@,
            cursor: self.cursor as int,
            matches: self.matches_view(),
            selected: self.selected as int,
        }
    }

    /// The texts of the items the picker filters.
    pub open spec fn items_view(&self) -> Seq<Seq<char>> {
        views(self.items@)
    }

    /// `self` and `other` filter the same items.
    pub open spec fn same_items(&self, other: &Self) -> bool {
        self.items == other.items
    }

    /// Whether the picker draws without colors.
    pub open spec fn is_monochrome(&self) -> bool {
        self.monochrome
    }

    /// `self` and `other` filter the same items in the same color mode.
    pub open spec fn same_setup(&self, other: &Self) -> bool {
        self.monochrome == other.monochrome && self.items == other.items 
    }

    /// An inactive picker with an empty query and no items.
    pub fn new() -> (r: Self)
        ensures
            !r.active,
            r.query@.len() == 0,
            r.cursor == 0,
            r.matches@.len() == 0,
            r.selected == 0,
            !r.is_monochrome(),
            r.items_view().len() == 0,
    {
        ListPicker {
            active: false,
            query: String::new(),
            cursor: 0,
            matches: Vec::new(),
            selected: 0,
            items: Vec::new(),
            monochrome: false,
        }
    }

    /// Turns monochrome drawing on or off.
    pub fn set_monochrome(&mut self, monochrome: bool)
        ensures
            final(self).is_monochrome() == monochrome,
            final(self).same_items(old(self)),
            final(self).active == old(self).active,
            final(self).query == old(self).query,
            final(self).cursor == old(self).cursor,
            final(self).matches == old(self).matches,
            final(self).selected == old(self).selected,
    {
        self.monochrome = monochrome;
    }

    /// The color to draw with: `Reset` in monochrome mode.
    pub fn color(&self, color: Color) -> (r: Color)
        ensures
            r == resolved(color, self.is_monochrome()),
    {
        resolve_color(color, self.monochrome)
    }

    /// Replaces the items the picker filters.
    pub fn set_items(&mut self, items: Vec<String>)
        ensures
            final(self).items_view() == views(items@),
            final(self).is_monochrome() == old(self).is_monochrome(),
            final(self).active == old(self).active,
            final(self).query == old(self).query,
            final(self).cursor == old(self).cursor,
            final(self).matches == old(self).matches,
            final(self).selected == old(self).selected,
    {
        self.items = items;
    }

    /// Shows the picker with an empty query and every item listed (up to
    /// `MAX_MATCHES`).
    pub fn activate(&mut self)
        ensures
            final(self).active,
            final(self).query@.len() == 0,
            final(self).cursor == 0,
            final(self).selected == 0,
            final(self).matches_view() == filtered(final(self).items_view(), final(self).query@),
            final(self).same_setup(old(self)),
    {
        self.active = true;
        self.query = String::new();
        self.cursor = 0;
        self.matches = Vec::new();
        self.selected = 0;
        self.filter();
    }

    /// Hides the picker.
    pub fn deactivate(&mut self)
        ensures
            !final(self).active,
            final(self).query == old(self).query,
            final(self).cursor == old(self).cursor,
            final(self).matches == old(self).matches,
            final(self).selected == old(self).selected,
            final(self).same_setup(old(self)),
    {
        self.active = false;
    }

    /// Inserts `c` into the query before character `cursor`, moves the cursor
    /// past it and filters again.
    pub fn char_input(&mut self, c: char)
        requires
            old(self).cursor < usize::MAX,
        ensures
            final(self).query@ == insert_char(old(self).query@, old(self).cursor as int, c),
            final(self).cursor == old(self).cursor + 1,
            final(self).matches_view() == filtered(final(self).items_view(), final(self).query@),
            final(self).selected == 0,
            final(self).active == old(self).active,
            final(self).same_setup(old(self)),
    {
        self.query = insert_char_at(&self.query, self.cursor, c);
        self.cursor = self.cursor + 1;
        self.filter();
    }

    /// Deletes the query character before the cursor and filters again; does
    /// nothing at the start of the query or on an empty query.
    pub fn backspace(&mut self)
        requires
            old(self).cursor > 0 && old(self).query@.len() > 0 ==> old(self).cursor - 1 < old(
                self,
            ).query@.len(),
        ensures
            old(self).cursor > 0 && old(self).query@.len() > 0 ==> {
                &&& final(self).query@ == old(self).query@.remove(old(self).cursor - 1)
                &&& final(self).cursor == old(self).cursor - 1
                &&& final(self).matches_view() == filtered(
                    final(self).items_view(),
                    final(self).query@,
                )
                &&& final(self).selected == 0
                &&& final(self).active == old(self).active
                &&& final(self).same_setup(old(self))
            },
            !(old(self).cursor > 0 && old(self).query@.len() > 0) ==> *final(self) == *old(self),
    {
        if self.cursor > 0 && !self.query.as_str().is_empty() {
            self.cursor = self.cursor - 1;
            self.query = remove_char_at(&self.query, self.cursor);
            self.filter();
        }
    }

    fn filter(&mut self)
        ensures
            final(self).matches_view() == filtered(final(self).items_view(), final(self).query@),
            final(self).selected == 0,
            final(self).active == old(self).active,
            final(self).query == old(self).query,
            final(self).cursor == old(self).cursor,
            final(self).same_setup(old(self)),
    {
        self.matches = filter_strings(&self.items, self.query.as_str());
        self.selected = 0;
    }

    /// Selects the next match, wrapping to the first after the last.
    pub fn select_next(&mut self)
        requires
            old(self).matches@.len() > 0 ==> old(self).selected < usize::MAX,
        ensures
            final(self).selected == (if old(self).matches@.len() > 0 {
                next_pos(old(self).selected as int, old(self).matches@.len() as int)
            } else {
                old(self).selected as int
            }),
            final(self).matches == old(self).matches,
            final(self).query == old(self).query,
            final(self).cursor == old(self).cursor,
            final(self).active == old(self).active,
            final(self).same_setup(old(self)),
    {
        if self.matches.len() > 0 {
            self.selected = next_index(self.selected, self.matches.len());
        }
    }

    /// Selects the previous match, wrapping to the last before the first.
    pub fn select_prev(&mut self)
        ensures
            final(self).selected == (if old(self).matches@.len() > 0 {
                prev_pos(old(self).selected as int, old(self).matches@.len() as int)
            } else {
                old(self).selected as int
            }),
            final(self).matches == old(self).matches,
            final(self).query == old(self).query,
            final(self).cursor == old(self).cursor,
            final(self).active == old(self).active,
            final(self).same_setup(old(self)),
    {
        if self.matches.len() > 0 {
            self.selected = prev_index(self.selected, self.matches.len());
        }
    }

    /// The selected name, if the selection is on a match.
    pub fn selected_name(&self) -> (r: Option<&str>)
        ensures
            r is Some <==> self.selected < self.matches@.len(),
            r is Some ==> r->0@ == self.matches@[self.selected as int]@,
    {
        if self.selected < self.matches.len() {
            Some(self.matches[self.selected].as_str())
        } else {
            None
        }
    }

    /// A picker over the built-in slash commands.
    pub fn with_static_commands() -> (r: Self)
        ensures
            !r.active,
            r.query@.len() == 0,
            r.cursor == 0,
            r.matches@.len() == 0,
            r.selected == 0,
            !r.is_monochrome(),
            r.items_view() == str_views(static_command_names()),
    {
        let mut picker = ListPicker::new();
        let cmds = static_command_list();
        picker.items = to_strings(&cmds);
        picker
    }
}

/// The texts shown after filtering the file cache: nothing while the cache is
/// empty.
pub open spec fn file_filter(cache: Seq<Seq<char>>, query: Seq<char>) -> Seq<Seq<char>> {
    if cache.len() == 0 {
        Seq::<Seq<char>>::empty()
    } else {
        filtered(cache, query)
    }
}

/// `st` after its query became `q` with cursor `k`, in a file picker over
/// `cache` that is `loading` or not: the matches are recomputed unless the
/// picker is loading.
pub open spec fn file_requeried(
    st: ListState,
    cache: Seq<Seq<char>>,
    loading: bool,
    q: Seq<char>,
    k: int,
) -> ListState {
    if loading {
        ListState { query: q, cursor: k, ..st }
    } else {
        ListState {
            query: q,
            cursor: k,
            matches: file_filter(cache, q),
            selected: if cache.len() == 0 {
                st.selected
            } else {
                0
            },
            ..st
        }
    }
}

/// `st` after typing `c` into the query of a file picker.
pub open spec fn file_typed_state(
    st: ListState,
    cache: Seq<Seq<char>>,
    loading: bool,
    c: char,
) -> ListState {
    file_requeried(st, cache, loading, insert_char(st.query, st.cursor, c), st.cursor + 1)
}

/// `st` after deleting the query character before the cursor of a file
/// picker; unchanged at the start of the query or on an empty query.
pub open spec fn file_erased_state(st: ListState, cache: Seq<Seq<char>>, loading: bool) -> ListState {
    if st.cursor > 0 && st.query.len() > 0 {
        file_requeried(st, cache, loading, st.query.remove(st.cursor - 1), st.cursor - 1)
    } else {
        st
    }
}

/// Picker over the paths of the working tree, opened by typing `@`.
///
/// The paths come from a scan of the working tree, which either arrives with
/// `activate` or is delivered later by `complete_scan` while the picker shows
/// that it is loading.
pub struct FilePicker {
    pub active: bool,
    pub query: String,
    pub cursor: usize,
    pub matches: Vec<String>,
    pub selected: usize,
    pub file_cache: Vec<String>,
    pub monochrome: bool,
    pub loading: bool,
    pub walk_done: bool,
}

impl FilePicker {
    /// What the picker shows.
    pub open spec fn state(&self) -> ListState {
        ListState {
            active: self.active,
            query: self.query@,
            cursor: self.cursor as int,
            matches: self.matches_view(),
            selected: self.selected as int,
        }
    }

    /// The texts of the current matches.
    pub open spec fn matches_view(&self) -> Seq<Seq<char>> {
        views(self.matches@)
    }

    /// The texts of the scanned paths.
    pub open spec fn cache_view(&self) -> Seq<Seq<char>> {
        views(self.file_cache@)
    }

    /// Whether the picker draws without colors.
    pub open spec fn is_monochrome(&self) -> bool {
        self.monochrome
    }

    /// `self` and `other` have the same paths, color mode and scan state.
    pub open spec fn same_setup(&self, other: &Self) -> bool {
        &&& self.monochrome == other.monochrome
        &&& self.file_cache == other.file_cache
        &&& self.loading == other.loading
        &&& self.walk_done == other.walk_done
    }

    /// An inactive picker with no paths.
    pub fn new() -> (r: Self)
        ensures
            !r.active,
            r.query@.len() == 0,
            r.cursor == 0,
            r.matches@.len() == 0,
            r.selected == 0,
            r.file_cache@.len() == 0,
            !r.monochrome,
            !r.loading,
            !r.walk_done,
    {
        FilePicker {
            active: false,
            query: String::new(),
            cursor: 0,
            matches: Vec::new(),
            selected: 0,
            file_cache: Vec::new(),
            monochrome: false,
            loading: false,
            walk_done: false,
        }
    }

    /// Turns monochrome drawing on or off.
    pub fn set_monochrome(&mut self, monochrome: bool)
        ensures
            final(self).monochrome == monochrome,
            final(self).file_cache == old(self).file_cache,
            final(self).loading == old(self).loading,
            final(self).walk_done == old(self).walk_done,
            final(self).active == old(self).active,
            final(self).query == old(self).query,
            final(self).cursor == old(self).cursor,
            final(self).matches == old(self).matches,
            final(self).selected == old(self).selected,
    {
        self.monochrome = monochrome;
    }

    /// The color to draw with: `Reset` in monochrome mode.
    pub fn color(&self, color: Color) -> (r: Color)
        ensures
            r == resolved(color, self.monochrome),
    {
        resolve_color(color, self.monochrome)
    }

    /// Shows the picker with an empty query. With `scanned` the paths are
    /// taken at once and filtered; without, the picker waits for a scan that
    /// runs in the background (`loading`, and the scan not done yet).
    pub fn activate(&mut self, scanned: Option<Vec<String>>)
        ensures
            final(self).active,
            final(self).query@.len() == 0,
            final(self).cursor == 0,
            final(self).monochrome == old(self).monochrome,
            match scanned {
                Some(files) => {
                    &&& final(self).file_cache == files
                    &&& final(self).matches_view() == file_filter(views(files@), Seq::empty())
                    &&& final(self).selected == 0
                    &&& final(self).loading == old(self).loading
                    &&& final(self).walk_done == old(self).walk_done
                },
                None => {
                    &&& final(self).loading
                    &&& !final(self).walk_done
                    &&& final(self).file_cache == old(self).file_cache
                    &&& final(self).matches@.len() == 0
                    &&& final(self).selected == 0
                },
            },
    {
        self.active = true;
        self.query = String::new();
        self.cursor = 0;
        self.matches = Vec::new();
        self.selected = 0;
        match scanned {
            Some(files) => self.load_files_sync(files),
            None => {
                self.loading = true;
                self.walk_done = false;
            },
        }
    }

    fn load_files_sync(&mut self, files: Vec<String>)
        ensures
            final(self).file_cache == files,
            final(self).matches_view() == file_filter(views(files@), old(self).query@),
            final(self).selected == (if files@.len() == 0 {
                old(self).selected as int
            } else {
                0
            }),
            final(self).active == old(self).active,
            final(self).query == old(self).query,
            final(self).cursor == old(self).cursor,
            final(self).monochrome == old(self).monochrome,
            final(self).loading == old(self).loading,
            final(self).walk_done == old(self).walk_done,
    {
        self.file_cache = files;
        self.filter();
    }

    /// Delivers the result of a background scan: the paths are stored and the
    /// scan is marked done.
    pub fn complete_scan(&mut self, files: Vec<String>)
        ensures
            final(self).file_cache == files,
            final(self).walk_done,
            final(self).loading == old(self).loading,
            final(self).monochrome == old(self).monochrome,
            final(self).active == old(self).active,
            final(self).query == old(self).query,
            final(self).cursor == old(self).cursor,
            final(self).matches == old(self).matches,
            final(self).selected == old(self).selected,
    {
        self.file_cache = files;
        self.walk_done = true;
    }

    /// Hides the picker.
    pub fn deactivate(&mut self)
        ensures
            !final(self).active,
            final(self).query == old(self).query,
            final(self).cursor == old(self).cursor,
            final(self).matches == old(self).matches,
            final(self).selected == old(self).selected,
            final(self).same_setup(old(self)),
    {
        self.active = false;
    }

    /// When a background scan has finished, stops loading, filters and
    /// returns `true`; otherwise changes nothing and returns `false`.
    pub fn try_finish_loading(&mut self) -> (r: bool)
        ensures
            r == (old(self).loading && old(self).walk_done),
            r ==> {
                &&& !final(self).loading
                &&& final(self).matches_view() == file_filter(
                    old(self).cache_view(),
                    old(self).query@,
                )
                &&& final(self).selected == (if old(self).file_cache@.len() == 0 {
                    old(self).selected as int
                } else {
                    0
                })
                &&& final(self).file_cache == old(self).file_cache
                &&& final(self).walk_done == old(self).walk_done
                &&& final(self).monochrome == old(self).monochrome
                &&& final(self).active == old(self).active
                &&& final(self).query == old(self).query
                &&& final(self).cursor == old(self).cursor
            },
            !r ==> *final(self) == *old(self),
    {
        if self.loading && self.walk_done {
            self.loading = false;
            self.filter();
            true
        } else {
            false
        }
    }

    /// Inserts `c` into the query before character `cursor` and moves the
    /// cursor past it; filters again unless a scan is still loading.
    pub fn char_input(&mut self, c: char)
        requires
            old(self).cursor < usize::MAX,
        ensures
            final(self).query@ == insert_char(old(self).query@, old(self).cursor as int, c),
            final(self).cursor == old(self).cursor + 1,
            old(self).loading ==> final(self).matches == old(self).matches && final(self).selected
                == old(self).selected,
            !old(self).loading ==> final(self).matches_view() == file_filter(
                old(self).cache_view(),
                final(self).query@,
            ) && final(self).selected == (if old(self).file_cache@.len() == 0 {
                old(self).selected as int
            } else {
                0
            }),
            final(self).active == old(self).active,
            final(self).same_setup(old(self)),
    {
        self.query = insert_char_at(&self.query, self.cursor, c);
        self.cursor = self.cursor + 1;
        if !self.loading {
            self.filter();
        }
    }

    /// Deletes the query character before the cursor and filters again unless
    /// a scan is still loading; does nothing at the start of the query or on
    /// an empty query.
    pub fn backspace(&mut self)
        requires
            old(self).cursor > 0 && old(self).query@.len() > 0 ==> old(self).cursor - 1 < old(
                self,
            ).query@.len(),
        ensures
            old(self).cursor > 0 && old(self).query@.len() > 0 ==> {
                &&& final(self).query@ == old(self).query@.remove(old(self).cursor - 1)
                &&& final(self).cursor == old(self).cursor - 1
                &&& old(self).loading ==> final(self).matches == old(self).matches
                    && final(self).selected == old(self).selected
                &&& !old(self).loading ==> final(self).matches_view() == file_filter(
                    old(self).cache_view(),
                    final(self).query@,
                ) && final(self).selected == (if old(self).file_cache@.len() == 0 {
                    old(self).selected as int
                } else {
                    0
                })
                &&& final(self).active == old(self).active
                &&& final(self).same_setup(old(self))
            },
            !(old(self).cursor > 0 && old(self).query@.len() > 0) ==> *final(self) == *old(self),
    {
        if self.cursor > 0 && !self.query.as_str().is_empty() {
            self.cursor = self.cursor - 1;
            self.query = remove_char_at(&self.query, self.cursor);
            if !self.loading {
                self.filter();
            }
        }
    }

    fn filter(&mut self)
        ensures
            final(self).matches_view() == file_filter(old(self).cache_view(), old(self).query@),
            final(self).selected == (if old(self).file_cache@.len() == 0 {
                old(self).selected as int
            } else {
                0
            }),
            final(self).active == old(self).active,
            final(self).query == old(self).query,
            final(self).cursor == old(self).cursor,
            final(self).same_setup(old(self)),
    {
        if self.file_cache.len() == 0 {
            self.matches = Vec::new();
            assert(views(self.matches@) =~= Seq::<Seq<char>>::empty());
            return;
        }
        self.matches = filter_strings(&self.file_cache, self.query.as_str());
        self.selected = 0;
    }

    /// Selects the next match, wrapping to the first after the last.
    pub fn select_next(&mut self)
        requires
            old(self).matches@.len() > 0 ==> old(self).selected < usize::MAX,
        ensures
            final(self).selected == (if old(self).matches@.len() > 0 {
                next_pos(old(self).selected as int, old(self).matches@.len() as int)
            } else {
                old(self).selected as int
            }),
            final(self).matches == old(self).matches,
            final(self).query == old(self).query,
            final(self).cursor == old(self).cursor,
            final(self).active == old(self).active,
            final(self).same_setup(old(self)),
    {
        if self.matches.len() > 0 {
            self.selected = next_index(self.selected, self.matches.len());
        }
    }

    /// Selects the previous match, wrapping to the last before the first.
    pub fn select_prev(&mut self)
        ensures
            final(self).selected == (if old(self).matches@.len() > 0 {
                prev_pos(old(self).selected as int, old(self).matches@.len() as int)
            } else {
                old(self).selected as int
            }),
            final(self).matches == old(self).matches,
            final(self).query == old(self).query,
            final(self).cursor == old(self).cursor,
            final(self).active == old(self).active,
            final(self).same_setup(old(self)),
    {
        if self.matches.len() > 0 {
            self.selected = prev_index(self.selected, self.matches.len());
        }
    }

    /// The selected path, if the selection is on a match.
    pub fn selected_path(&self) -> (r: Option<&String>)
        ensures
            r is Some <==> self.selected < self.matches@.len(),
            r is Some ==> r->0 == self.matches@[self.selected as int],
    {
        if self.selected < self.matches.len() {
            Some(&self.matches[self.selected])
        } else {
            None
        }
    }

    /// Replaces the scanned paths directly and stops loading.
    pub fn test_set_cache(&mut self, files: Vec<String>)
        ensures
            final(self).file_cache == files,
            !final(self).loading,
            final(self).walk_done == old(self).walk_done,
            final(self).monochrome == old(self).monochrome,
            final(self).active == old(self).active,
            final(self).query == old(self).query,
            final(self).cursor == old(self).cursor,
            final(self).matches == old(self).matches,
            final(self).selected == old(self).selected,
    {
        self.file_cache = files;
        self.loading = false;
    }
}

/// The picker currently attached to the input line.
pub enum Picker {
    File(FilePicker),
    Command(CommandPicker),
    Prompt(PromptPicker),
    Models(ModelsPicker),
    Theme(ThemePicker),
}

impl Picker {
    /// Whether the attached picker is shown.
    pub open spec fn is_active(&self) -> bool {
        match self {
            Picker::File(p) => p.active,
            Picker::Command(p) => p.active,
            Picker::Prompt(p) => p.active,
            Picker::Models(p) => p.active,
            Picker::Theme(p) => p.active,
        }
    }

    /// Whether the attached picker is shown.
    pub fn active(&self) -> (r: bool)
        ensures
            r == self.is_active(),
    {
        match self {
            Picker::File(p) => p.active,
            Picker::Command(p) => p.active,
            Picker::Prompt(p) => p.active,
            Picker::Models(p) => p.active,
            Picker::Theme(p) => p.active,
        }
    }

    /// Turns monochrome drawing of the attached picker on or off, leaving its
    /// kind and its other state as they were.
    pub fn set_monochrome(&mut self, monochrome: bool)
        ensures
            match (*old(self), *final(self)) {
                (Picker::File(a), Picker::File(b)) => b == FilePicker { monochrome, ..a },
                (Picker::Command(a), Picker::Command(b)) => b == CommandPicker { monochrome, ..a },
                (Picker::Prompt(a), Picker::Prompt(b)) => b == PromptPicker { monochrome, ..a },
                (Picker::Models(a), Picker::Models(b)) => b == ModelsPicker { monochrome, ..a },
                (Picker::Theme(a), Picker::Theme(b)) => b == ThemePicker { monochrome, ..a },
                _ => false,
            },
    {
        match self {
            Picker::File(p) => p.set_monochrome(monochrome),
            Picker::Command(p) => p.set_monochrome(monochrome),
            Picker::Prompt(p) => p.set_monochrome(monochrome),
            Picker::Models(p) => p.set_monochrome(monochrome),
            Picker::Theme(p) => p.set_monochrome(monochrome),
        }
    }
}

/// Typing a character into a picker's query and deleting it again with
/// Backspace gives back the query and its cursor, with the matches of that
/// query and the first one selected.
pub proof fn law_type_then_erase(st: ListState, items: Seq<Seq<char>>, c: char)
    requires
        0 <= st.cursor <= st.query.len(),
    ensures
        erased_state(typed_state(st, items, c), items) == (ListState {
            matches: filtered(items, st.query),
            selected: 0,
            ..st
        }),
{
    let q = insert_char(st.query, st.cursor, c);
    assert(q.remove(st.cursor) =~= st.query);
}

/// Selecting the next match and then the previous one gives back the
/// selection, also across the wrap from the last match to the first.
pub proof fn law_next_then_prev(st: ListState)
    requires
        st.matches.len() == 0 || 0 <= st.selected < st.matches.len(),
    ensures
        prev_state(next_state(st)) == st,
        st.matches.len() > 0 && st.selected == st.matches.len() - 1 ==> next_state(st).selected == 0,
{
    let m = st.matches.len() as int;
    if m > 0 {
        if st.selected + 1 < m {
            vstd::arithmetic::div_mod::lemma_small_mod((st.selected + 1) as nat, m as nat);
        } else {
            vstd::arithmetic::div_mod::lemma_mod_self_0(m);
        }
    }
}

/// A picker's matches are those of its query over `items`, the selection is
/// on one of them when there is any, and the query cursor is inside the
/// query.
pub open spec fn list_consistent(st: ListState, items: Seq<Seq<char>>) -> bool {
    &&& st.matches == filtered(items, st.query)
    &&& st.matches.len() > 0 ==> 0 <= st.selected < st.matches.len()
    &&& 0 <= st.cursor <= st.query.len()
}

/// Every hit is an item that matches the query.
proof fn lemma_hits_sound(items: Seq<Seq<char>>, query: Seq<char>)
    ensures
        forall|i: int|
            0 <= i < hits(items, query).len() ==> items.contains(#[trigger] hits(items, query)[i])
                && item_matches(hits(items, query)[i], query),
    decreases items.len(),
{
    if items.len() > 0 {
        let rest = items.drop_last();
        lemma_hits_sound(rest, query);
        assert forall|i: int| 0 <= i < hits(items, query).len() implies items.contains(
            #[trigger] hits(items, query)[i],
        ) && item_matches(hits(items, query)[i], query) by {
            if i < hits(rest, query).len() {
                assert(hits(items, query)[i] == hits(rest, query)[i]);
                let j = choose|j: int| 0 <= j < rest.len() && rest[j] == hits(rest, query)[i];
                assert(items[j] == rest[j]);
            } else {
                assert(hits(items, query)[i] == items.last());
                assert(items[items.len() - 1] == items.last());
            }
        }
    }
}

/// Typing, deleting, moving the selection and hiding keep a picker
/// consistent.
pub proof fn law_picker_steps_keep_consistency(st: ListState, items: Seq<Seq<char>>, c: char)
    requires
        list_consistent(st, items),
    ensures
        list_consistent(typed_state(st, items, c), items),
        list_consistent(erased_state(st, items), items),
        list_consistent(next_state(st), items),
        list_consistent(prev_state(st), items),
        list_consistent(hidden_state(st), items),
{
    let m = st.matches.len() as int;
    if m > 0 {
        if st.selected + 1 < m {
            vstd::arithmetic::div_mod::lemma_small_mod((st.selected + 1) as nat, m as nat);
        } else {
            vstd::arithmetic::div_mod::lemma_mod_self_0(m);
        }
    }
}

/// In a consistent picker with matches, the selected match is one of the
/// items and matches the query.
pub proof fn law_selected_is_a_match(st: ListState, items: Seq<Seq<char>>)
    requires
        list_consistent(st, items),
        st.matches.len() > 0,
    ensures
        items.contains(st.matches[st.selected]),
        item_matches(st.matches[st.selected], st.query),
{
    lemma_hits_sound(items, st.query);
    let h = hits(items, st.query);
    assert(st.matches[st.selected] == h[st.selected]);
}

} // verus!
