//! The state of the full-screen browser and how it answers keys. Loading and
//! deleting profiles are effects that the caller performs and reports back.

use vstd::prelude::*;
use crate::config::AppConfig;
use crate::format::{decimal, decimal_count};
use crate::models::{Connection, ConnectionView};
use crate::scorer::{any_tag_contains, any_tag_has};
use crate::text::{chars_of, contains_chars, has_sub, lower_of, lowercase, push_char, string_of};

verus! {

/// Actions that require confirmation; each names a position in the filtered list.
#[derive(Debug, Clone, Copy, PartialEq, Eq)]
pub enum ConfirmAction {
    Delete(usize),
    Connect(usize),
}

/// What the browser is showing.
#[derive(Debug, Clone, Copy, PartialEq, Eq)]
pub enum AppMode {
    /// Browsing the list.
    Normal,
    /// Typing a filter.
    Search,
    /// The help overlay.
    Help,
    /// A confirmation dialog.
    Confirm(ConfirmAction),
}

/// What to do with the chosen profile once the browser closes.
#[derive(Debug, Clone, Copy, PartialEq, Eq)]
pub enum PendingAction {
    Connect,
    ShowDetails,
}

/// A key, as the browser reads it.
#[derive(Debug, Clone, Copy, PartialEq, Eq, Structural)]
pub enum KeyCode {
    Char(char),
    Esc,
    Enter,
    Backspace,
    Up,
    Down,
    PageUp,
    PageDown,
    Home,
    End,
    Delete,
    Other,
}

/// A key press, with whether Control was held.
#[derive(Debug, Clone, Copy, PartialEq, Eq)]
pub struct KeyInput {
    pub code: KeyCode,
    pub control: bool,
}

/// Work that a key asks of the caller.
#[derive(Debug, Clone, PartialEq, Eq)]
pub enum Effect {
    Nothing,
    /// Reload the profiles, then call `finish_refresh`.
    Refresh,
    /// Remove the profile of this name, then call `finish_delete` if it was removed.
    Delete(String),
}

/// The value of an [`Effect`].
pub ghost enum EffectView {
    Nothing,
    Refresh,
    Delete(Seq<char>),
}

impl View for Effect {
    type V = EffectView;

    open spec fn view(&self) -> EffectView {
        match self {
            Effect::Nothing => EffectView::Nothing,
            Effect::Refresh => EffectView::Refresh,
            Effect::Delete(name) => EffectView::Delete(name@),
        }
    }
}

/// The browser state, with texts as character sequences.
pub ghost struct AppView {
    pub connections: Seq<ConnectionView>,
    pub filtered: Seq<ConnectionView>,
    pub query: Seq<char>,
    pub selected: usize,
    pub mode: AppMode,
    pub scroll_offset: usize,
    pub should_quit: bool,
    pub chosen: Option<ConnectionView>,
    pub pending_action: Option<PendingAction>,
    pub status: Option<Seq<char>>,
}

/// Whether a profile passes the filter `q` (already lowercase): its name,
/// host, user or some tag contains it, ignoring case.
pub open spec fn filter_hit(c: ConnectionView, q: Seq<char>) -> bool {
    has_sub(lower_of(c.name), q) || has_sub(lower_of(c.host), q) || has_sub(lower_of(c.user), q)
        || any_tag_has(c.tags, q)
}

/// The profiles of `s` that pass the filter `q`, in order.
pub open spec fn keep_matching(s: Seq<ConnectionView>, q: Seq<char>) -> Seq<ConnectionView>
    decreases s.len(),
{
    if s.len() == 0 {
        s
    } else if filter_hit(s.last(), q) {
        keep_matching(s.drop_last(), q).push(s.last())
    } else {
        keep_matching(s.drop_last(), q)
    }
}

/// The last position of a list of `n`, or 0 for an empty one.
pub open spec fn last_pos(n: nat) -> usize {
    if n == 0 {
        0
    } else {
        (n - 1) as usize
    }
}

/// The state with the filter applied again and the selection kept in range.
pub open spec fn refiltered(a: AppView) -> AppView {
    let f = if a.query.len() == 0 {
        a.connections
    } else {
        keep_matching(a.connections, lower_of(a.query))
    };
    AppView {
        filtered: f,
        selected: if a.selected >= f.len() {
            last_pos(f.len())
        } else {
            a.selected
        },
        ..a
    }
}

/// The selection `n` places up, stopping at the first.
pub open spec fn moved_up(sel: usize, n: usize) -> usize {
    if sel >= n {
        (sel - n) as usize
    } else {
        0
    }
}

/// The selection `n` places down, stopping at the last.
pub open spec fn moved_down(sel: usize, n: usize, len: nat) -> usize {
    let last = last_pos(len);
    if sel < last {
        if sel + n <= last {
            (sel + n) as usize
        } else {
            last
        }
    } else {
        sel
    }
}

pub open spec fn is_char(k: KeyInput, c: char) -> bool {
    k.code == KeyCode::Char(c)
}

/// How the browser answers a key in normal mode.
pub open spec fn normal_key(a: AppView, k: KeyInput) -> (AppView, EffectView) {
    let n = a.filtered.len();
    if is_char(k, 'q') || k.code == KeyCode::Esc || (is_char(k, 'c') && k.control) {
        (AppView { should_quit: true, ..a }, EffectView::Nothing)
    } else if k.code == KeyCode::Up || is_char(k, 'k') {
        (AppView { selected: moved_up(a.selected, 1), ..a }, EffectView::Nothing)
    } else if k.code == KeyCode::Down || is_char(k, 'j') {
        (AppView { selected: moved_down(a.selected, 1, n), ..a }, EffectView::Nothing)
    } else if k.code == KeyCode::PageUp {
        (AppView { selected: moved_up(a.selected, 10), ..a }, EffectView::Nothing)
    } else if k.code == KeyCode::PageDown {
        (AppView { selected: moved_down(a.selected, 10, n), ..a }, EffectView::Nothing)
    } else if k.code == KeyCode::Home || is_char(k, 'g') {
        (AppView { selected: 0, scroll_offset: 0, ..a }, EffectView::Nothing)
    } else if k.code == KeyCode::End || is_char(k, 'G') {
        (AppView { selected: last_pos(n), ..a }, EffectView::Nothing)
    } else if k.code == KeyCode::Enter {
        (if n > 0 {
            AppView { mode: AppMode::Confirm(ConfirmAction::Connect(a.selected)), ..a }
        } else {
            a
        }, EffectView::Nothing)
    } else if is_char(k, 'd') || k.code == KeyCode::Delete {
        (if n > 0 {
            AppView { mode: AppMode::Confirm(ConfirmAction::Delete(a.selected)), ..a }
        } else {
            a
        }, EffectView::Nothing)
    } else if is_char(k, 's') {
        (if n > 0 {
            AppView {
                chosen: Some(a.filtered[a.selected as int]),
                pending_action: Some(PendingAction::ShowDetails),
                should_quit: true,
                ..a
            }
        } else {
            a
        }, EffectView::Nothing)
    } else if is_char(k, '/') {
        (AppView {
            mode: AppMode::Search,
            status: Some("Type to search, Enter to confirm, Esc to cancel"@),
            ..a
        }, EffectView::Nothing)
    } else if is_char(k, '?') {
        (AppView { mode: AppMode::Help, ..a }, EffectView::Nothing)
    } else if is_char(k, 'r') {
        (a, EffectView::Refresh)
    } else if is_char(k, 't') {
        (AppView {
            mode: AppMode::Search,
            query: "tag:"@,
            status: Some("Type tag name to filter"@),
            ..a
        }, EffectView::Nothing)
    } else {
        (a, EffectView::Nothing)
    }
}

/// How the browser answers a key while a filter is typed.
pub open spec fn search_key(a: AppView, k: KeyInput) -> AppView {
    match k.code {
        KeyCode::Esc => refiltered(
            AppView {
                mode: AppMode::Normal,
                query: Seq::empty(),
                status: Some("Search cancelled"@),
                ..a
            },
        ),
        KeyCode::Enter => AppView {
            mode: AppMode::Normal,
            status: Some("Found "@ + decimal(a.filtered.len() as int) + " connections"@),
            ..a
        },
        KeyCode::Backspace => refiltered(
            AppView {
                query: if a.query.len() > 0 {
                    a.query.drop_last()
                } else {
                    a.query
                },
                ..a
            },
        ),
        KeyCode::Char(c) => refiltered(AppView { query: a.query.push(c), ..a }),
        _ => a,
    }
}

/// How the browser answers a key on the help overlay.
pub open spec fn help_key(a: AppView, k: KeyInput) -> AppView {
    if k.code == KeyCode::Esc || is_char(k, 'q') || is_char(k, '?') || k.code == KeyCode::Enter {
        AppView { mode: AppMode::Normal, ..a }
    } else {
        a
    }
}

/// How the browser answers a key in a confirmation dialog.
pub open spec fn confirm_key(a: AppView, k: KeyInput, action: ConfirmAction) -> (AppView, EffectView) {
    if is_char(k, 'y') || k.code == KeyCode::Enter {
        match action {
            ConfirmAction::Connect(i) => (if i < a.filtered.len() {
                AppView {
                    mode: AppMode::Normal,
                    chosen: Some(a.filtered[i as int]),
                    pending_action: Some(PendingAction::Connect),
                    should_quit: true,
                    ..a
                }
            } else {
                AppView { mode: AppMode::Normal, ..a }
            }, EffectView::Nothing),
            ConfirmAction::Delete(i) => (AppView { mode: AppMode::Normal, ..a }, if i
                < a.filtered.len() {
                EffectView::Delete(a.filtered[i as int].name)
            } else {
                EffectView::Nothing
            }),
        }
    } else if is_char(k, 'n') || k.code == KeyCode::Esc {
        (AppView { mode: AppMode::Normal, status: Some("Action cancelled"@), ..a }, EffectView::Nothing)
    } else {
        (a, EffectView::Nothing)
    }
}

/// How the browser answers a key.
pub open spec fn key_step(a: AppView, k: KeyInput) -> (AppView, EffectView) {
    match a.mode {
        AppMode::Normal => normal_key(a, k),
        AppMode::Search => (search_key(a, k), EffectView::Nothing),
        AppMode::Help => (help_key(a, k), EffectView::Nothing),
        AppMode::Confirm(action) => confirm_key(a, k, action),
    }
}

/// The selection is a position of the filtered list, or 0 when it is empty.
pub open spec fn selection_in_range(a: AppView) -> bool {
    if a.filtered.len() == 0 {
        a.selected == 0
    } else {
        a.selected < a.filtered.len()
    }
}

pub open spec fn opt_view(o: Option<Connection>) -> Option<ConnectionView> {
    match o {
        Some(c) => Some(c@),
        None => None,
    }
}

/// Main state of the browser.
pub struct App {
    /// All profiles.
    pub connections: Vec<Connection>,
    /// The profiles that pass the filter.
    pub filtered_connections: Vec<Connection>,
    pub search_query: String,
    pub selected_index: usize,
    pub mode: AppMode,
    pub scroll_offset: usize,
    pub should_quit: bool,
    /// The profile chosen for an action after the browser closes.
    pub selected_connection: Option<Connection>,
    pub pending_action: Option<PendingAction>,
    pub status_message: Option<String>,
    pub config: AppConfig,
}

impl View for App {
    type V = AppView;

    open spec fn view(&self) -> AppView {
        AppView {
            connections: self.connections.deep_view(),
            filtered: self.filtered_connections.deep_view(),
            query: self.search_query@,
            selected: self.selected_index,
            mode: self.mode,
            scroll_offset: self.scroll_offset,
            should_quit: self.should_quit,
            chosen: opt_view(self.selected_connection),
            pending_action: self.pending_action,
            status: crate::models::opt_text(self.status_message),
        }
    }
}

/// A copy of each profile.
pub fn copy_all(v: &Vec<Connection>) -> (r: Vec<Connection>)
    ensures
        r.deep_view() == v.deep_view(),
{
    let mut r: Vec<Connection> = Vec::new();
    let mut i: usize = 0;
    while i < v.len()
        invariant
            i <= v.len(),
            r.deep_view() == v.deep_view().subrange(0, i as int),
        decreases v.len() - i,
    {
        let ghost before = r;
        let d = v[i].duplicate();
        r.push(d);
        assert(r.deep_view() =~= before.deep_view().push(v@[i as int]@));
        i += 1;
        assert(r.deep_view() =~= v.deep_view().subrange(0, i as int));
    }
    assert(v.deep_view().subrange(0, v.len() as int) =~= v.deep_view());
    r
}

/// Whether a profile passes the filter `q` (already lowercase).
fn passes_filter(c: &Connection, q: &Vec<char>) -> (r: bool)
    ensures
        r == filter_hit(c@, q@),
{
    let name = lowercase(c.name.as_str());
    if contains_chars(&chars_of(name.as_str()), q) {
        return true;
    }
    let host = lowercase(c.host.as_str());
    if contains_chars(&chars_of(host.as_str()), q) {
        return true;
    }
    let user = lowercase(c.user.as_str());
    if contains_chars(&chars_of(user.as_str()), q) {
        return true;
    }
    any_tag_contains(&c.tags, q)
}

impl App {
    /// The browser over the given profiles, showing all of them.
    pub fn new(config: AppConfig, connections: Vec<Connection>) -> (r: App)
        ensures
            r@.connections == connections.deep_view(),
            r@.filtered == connections.deep_view(),
            r@.query.len() == 0,
            r@.selected == 0,
            r@.mode == AppMode::Normal,
            !r@.should_quit,
            r@.chosen is None,
            r@.pending_action is None,
            r@.status == Some("Press ? for help, / to search, Enter to connect"@),
            r.config == config,
            selection_in_range(r@),
    {
        let filtered = copy_all(&connections);
        App {
            connections,
            filtered_connections: filtered,
            search_query: String::new(),
            selected_index: 0,
            mode: AppMode::Normal,
            scroll_offset: 0,
            should_quit: false,
            selected_connection: None,
            pending_action: None,
            status_message: Some(String::from_str("Press ? for help, / to search, Enter to connect")),
            config,
        }
    }

    /// Applies the current filter again and keeps the selection in range.
    pub fn apply_filter(&mut self)
        ensures
            final(self)@ == refiltered(old(self)@),
            final(self).config == old(self).config,
            selection_in_range(final(self)@),
    {
        if self.search_query.as_str().is_empty() {
            self.filtered_connections = copy_all(&self.connections);
        } else {
            let lowered = lowercase(self.search_query.as_str());
            let q = chars_of(lowered.as_str());
            let mut out: Vec<Connection> = Vec::new();
            let mut i: usize = 0;
            let ghost cs = self.connections.deep_view();
            while i < self.connections.len()
                invariant
                    i <= self.connections.len(),
                    cs == self.connections.deep_view(),
                    q@ == lower_of(self.search_query@),
                    out.deep_view() == keep_matching(cs.subrange(0, i as int), q@),
                decreases self.connections.len() - i,
            {
                let c = &self.connections[i];
                assert(cs[i as int] == c@);
                assert(cs.subrange(0, i + 1).drop_last() =~= cs.subrange(0, i as int));
                if passes_filter(c, &q) {
                    let ghost before = out;
                    let d = c.duplicate();
                    out.push(d);
                    assert(out.deep_view() =~= before.deep_view().push(c@));
                }
                i += 1;
            }
            assert(cs.subrange(0, cs.len() as int) =~= cs);
            self.filtered_connections = out;
        }
        if self.selected_index >= self.filtered_connections.len() {
            self.selected_index = if self.filtered_connections.len() == 0 {
                0
            } else {
                self.filtered_connections.len() - 1
            };
        }
    }

    /// Answers a key.
    pub fn handle_key_event(&mut self, key: KeyInput) -> (r: Effect)
        requires
            selection_in_range(old(self)@),
        ensures
            (final(self)@, r@) == key_step(old(self)@, key),
            final(self).config == old(self).config,
            selection_in_range(final(self)@),
    {
        match self.mode {
            AppMode::Normal => self.handle_normal_mode(key),
            AppMode::Search => {
                self.handle_search_mode(key);
                Effect::Nothing
            },
            AppMode::Help => {
                self.handle_help_mode(key);
                Effect::Nothing
            },
            AppMode::Confirm(action) => self.handle_confirm_mode(key, action),
        }
    }

    fn handle_normal_mode(&mut self, key: KeyInput) -> (r: Effect)
        requires
            selection_in_range(old(self)@),
            old(self)@.mode == AppMode::Normal,
        ensures
            (final(self)@, r@) == normal_key(old(self)@, key),
            final(self).config == old(self).config,
            selection_in_range(final(self)@),
    {
        let n = self.filtered_connections.len();
        let code = key.code;
        if code == KeyCode::Char('q') || code == KeyCode::Esc || (code == KeyCode::Char('c')
            && key.control) {
            self.should_quit = true;
        } else if code == KeyCode::Up || code == KeyCode::Char('k') {
            self.move_selection_up(1);
        } else if code == KeyCode::Down || code == KeyCode::Char('j') {
            self.move_selection_down(1);
        } else if code == KeyCode::PageUp {
            self.move_selection_up(10);
        } else if code == KeyCode::PageDown {
            self.move_selection_down(10);
        } else if code == KeyCode::Home || code == KeyCode::Char('g') {
            self.selected_index = 0;
            self.scroll_offset = 0;
        } else if code == KeyCode::End || code == KeyCode::Char('G') {
            self.selected_index = if n == 0 {
                0
            } else {
                n - 1
            };
        } else if code == KeyCode::Enter {
            if n > 0 {
                self.mode = AppMode::Confirm(ConfirmAction::Connect(self.selected_index));
            }
        } else if code == KeyCode::Char('d') || code == KeyCode::Delete {
            if n > 0 {
                self.mode = AppMode::Confirm(ConfirmAction::Delete(self.selected_index));
            }
        } else if code == KeyCode::Char('s') {
            if n > 0 {
                let c = self.filtered_connections[self.selected_index].duplicate();
                assert(self@.filtered[self.selected_index as int] == c@);
                self.selected_connection = Some(c);
                self.pending_action = Some(PendingAction::ShowDetails);
                self.should_quit = true;
            }
        } else if code == KeyCode::Char('/') {
            self.mode = AppMode::Search;
            self.status_message = Some(
                String::from_str("Type to search, Enter to confirm, Esc to cancel"),
            );
        } else if code == KeyCode::Char('?') {
            self.mode = AppMode::Help;
        } else if code == KeyCode::Char('r') {
            return Effect::Refresh;
        } else if code == KeyCode::Char('t') {
            self.mode = AppMode::Search;
            self.search_query = String::from_str("tag:");
            self.status_message = Some(String::from_str("Type tag name to filter"));
        }
        Effect::Nothing
    }

    fn handle_search_mode(&mut self, key: KeyInput)
        requires
            selection_in_range(old(self)@),
            old(self)@.mode == AppMode::Search,
        ensures
            final(self)@ == search_key(old(self)@, key),
            final(self).config == old(self).config,
            selection_in_range(final(self)@),
    {
        match key.code {
            KeyCode::Esc => {
                self.mode = AppMode::Normal;
                self.search_query = String::new();
                self.status_message = Some(String::from_str("Search cancelled"));
                assert(self@ == (AppView {
                    mode: AppMode::Normal,
                    query: Seq::empty(),
                    status: Some("Search cancelled"@),
                    ..old(self)@
                }));
                self.apply_filter();
            },
            KeyCode::Enter => {
                self.mode = AppMode::Normal;
                let mut msg = String::from_str("Found ");
                let count = decimal_count(self.filtered_connections.len());
                msg.append(count.as_str());
                msg.append(" connections");
                self.status_message = Some(msg);
            },
            KeyCode::Backspace => {
                let mut cs = chars_of(self.search_query.as_str());
                if cs.len() > 0 {
                    cs.pop();
                }
                self.search_query = string_of(&cs);
                self.apply_filter();
            },
            KeyCode::Char(c) => {
                push_char(&mut self.search_query, c);
                self.apply_filter();
            },
            _ => {},
        }
    }

    fn handle_help_mode(&mut self, key: KeyInput)
        requires
            old(self)@.mode == AppMode::Help,
        ensures
            final(self)@ == help_key(old(self)@, key),
            final(self).config == old(self).config,
    {
        let code = key.code;
        if code == KeyCode::Esc || code == KeyCode::Char('q') || code == KeyCode::Char('?') || code
            == KeyCode::Enter {
            self.mode = AppMode::Normal;
        }
    }

    fn handle_confirm_mode(&mut self, key: KeyInput, action: ConfirmAction) -> (r: Effect)
        requires
            selection_in_range(old(self)@),
            old(self)@.mode == AppMode::Confirm(action),
        ensures
            (final(self)@, r@) == confirm_key(old(self)@, key, action),
            final(self).config == old(self).config,
            selection_in_range(final(self)@),
    {
        let code = key.code;
        if code == KeyCode::Char('y') || code == KeyCode::Enter {
            self.mode = AppMode::Normal;
            match action {
                ConfirmAction::Connect(idx) => {
                    if idx < self.filtered_connections.len() {
                        let c = self.filtered_connections[idx].duplicate();
                        assert(self@.filtered[idx as int] == c@);
                        self.selected_connection = Some(c);
                        self.pending_action = Some(PendingAction::Connect);
                        self.should_quit = true;
                    }
                    Effect::Nothing
                },
                ConfirmAction::Delete(idx) => {
                    if idx < self.filtered_connections.len() {
                        assert(self@.filtered[idx as int] == self.filtered_connections@[idx as int]@);
                        Effect::Delete(self.filtered_connections[idx].name.clone())
                    } else {
                        Effect::Nothing
                    }
                },
            }
        } else if code == KeyCode::Char('n') || code == KeyCode::Esc {
            self.mode = AppMode::Normal;
            self.status_message = Some(String::from_str("Action cancelled"));
            Effect::Nothing
        } else {
            Effect::Nothing
        }
    }

    /// Moves the selection `n` places up, stopping at the first.
    pub fn move_selection_up(&mut self, n: usize)
        ensures
            final(self)@ == (AppView { selected: moved_up(old(self)@.selected, n), ..old(self)@ }),
            final(self).config == old(self).config,
    {
        self.selected_index = if self.selected_index >= n {
            self.selected_index - n
        } else {
            0
        };
    }

    /// Moves the selection `n` places down, stopping at the last.
    pub fn move_selection_down(&mut self, n: usize)
        ensures
            final(self)@ == (AppView {
                selected: moved_down(old(self)@.selected, n, old(self)@.filtered.len()),
                ..old(self)@
            }),
            final(self).config == old(self).config,
    {
        let len = self.filtered_connections.len();
        let last = if len == 0 {
            0
        } else {
            len - 1
        };
        if self.selected_index < last {
            self.selected_index = if n <= last - self.selected_index {
                self.selected_index + n
            } else {
                last
            };
        }
    }

    /// Takes the reloaded profiles and filters them again.
    pub fn refresh_connections(&mut self, connections: Vec<Connection>)
        ensures
            final(self)@ == refiltered(AppView { connections: connections.deep_view(), ..old(self)@ }),
            final(self).config == old(self).config,
            selection_in_range(final(self)@),
    {
        self.connections = connections;
        self.apply_filter();
    }

    /// Takes the reloaded profiles, filters them again and says so.
    pub fn finish_refresh(&mut self, connections: Vec<Connection>)
        ensures
            final(self)@ == refiltered(
                AppView {
                    connections: connections.deep_view(),
                    status: Some("Connections refreshed"@),
                    ..old(self)@
                },
            ),
            final(self).config == old(self).config,
            selection_in_range(final(self)@),
    {
        self.status_message = Some(String::from_str("Connections refreshed"));
        self.refresh_connections(connections);
    }

    /// Takes the profiles reloaded after removing the profile `name`.
    pub fn finish_delete(&mut self, name: &str, connections: Vec<Connection>)
        ensures
            final(self)@ == refiltered(
                AppView {
                    connections: connections.deep_view(),
                    status: Some("Deleted connection: "@ + name@),
                    ..old(self)@
                },
            ),
            final(self).config == old(self).config,
            selection_in_range(final(self)@),
    {
        let mut msg = String::from_str("Deleted connection: ");
        msg.append(name);
        self.status_message = Some(msg);
        self.refresh_connections(connections);
    }

    /// The profile under the selection, if any.
    pub fn get_selected_connection(&self) -> (r: Option<&Connection>)
        ensures
            self.selected_index < self.filtered_connections.len() ==> (r matches Some(c) && c@
                == self@.filtered[self.selected_index as int]),
            self.selected_index >= self.filtered_connections.len() ==> r is None,
    {
        if self.selected_index < self.filtered_connections.len() {
            Some(&self.filtered_connections[self.selected_index])
        } else {
            None
        }
    }
}

} // verus!
