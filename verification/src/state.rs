//! Session tabs, their terminals and the session view's side panel.
use vstd::prelude::*;
use crate::models::ServerData;
use crate::seqs::{first_match, lemma_first_match_at, lemma_first_match_none, lemma_match_kept, none_before};
use crate::text::{opt_view, owned};

verus! {

/// Connection state of a session tab.
#[derive(Clone, Debug)]
pub enum SessionStatus {
    Connecting,
    Connected,
    Error(String),
    Disconnected,
    /// Reconnecting, at attempt `attempt` of `max_attempts`.
    Reconnecting { attempt: u32, max_attempts: u32 },
}

/// A terminal of a session tab.
#[derive(Debug)]
pub struct TerminalInstance {
    pub id: String,
    /// Number shown in the terminal's label ("Terminal 1").
    pub index: u32,
    pub pty_initialized: bool,
    /// Size `(columns, rows)` last sent to the remote pseudo-terminal.
    pub last_sent_pty_size: Option<(u32, u32)>,
    pub pty_error: Option<String>,
}

impl Clone for TerminalInstance {
    fn clone(&self) -> (res: Self)
        ensures
            res == *self,
    {
        TerminalInstance {
            id: self.id.clone(),
            index: self.index,
            pty_initialized: self.pty_initialized,
            last_sent_pty_size: self.last_sent_pty_size,
            pty_error: crate::models::clone_opt(&self.pty_error),
        }
    }
}

/// A session tab.
#[derive(Debug)]
pub struct SessionTab {
    pub id: String,
    pub server_id: String,
    pub server_label: String,
    pub status: SessionStatus,
    pub terminals: Vec<TerminalInstance>,
    pub active_terminal_id: Option<String>,
    /// Terminals created so far; numbers new terminals.
    pub terminal_counter: u32,
    /// The server the tab connects to, when known (used to reconnect).
    pub server_data: Option<ServerData>,
}

/// Panels of the session side bar.
#[derive(Clone, Copy, Debug, PartialEq, Eq, Structural)]
pub enum SidebarPanel {
    Snippets,
    Transfer,
}

impl Default for SidebarPanel {
    fn default() -> (res: Self)
        ensures
            res == SidebarPanel::Snippets,
    {
        SidebarPanel::Snippets
    }
}

/// The open session tabs and the state of the session view.
#[derive(Debug)]
pub struct SessionState {
    pub tabs: Vec<SessionTab>,
    pub active_tab_id: Option<String>,
    /// Show the home view even though sessions are open.
    pub show_home: bool,
    pub sidebar_collapsed: bool,
    pub active_sidebar_panel: SidebarPanel,
    /// Ids of the expanded snippet groups.
    pub snippets_expanded: Vec<String>,
}

impl Default for SessionState {
    fn default() -> (res: Self)
        ensures
            res.tabs@.len() == 0,
            res.active_tab_id is None,
            res.show_home,
            !res.sidebar_collapsed,
            res.active_sidebar_panel == SidebarPanel::Snippets,
            res.snippets_expanded@.len() == 0,
    {
        SessionState {
            tabs: Vec::new(),
            active_tab_id: None,
            show_home: true,
            sidebar_collapsed: false,
            active_sidebar_panel: SidebarPanel::Snippets,
            snippets_expanded: Vec::new(),
        }
    }
}

/// A fresh identifier (`uuid::Uuid::new_v4`, hyphenated).
///
/// The value is random, so nothing is stated about it.
#[verifier::external_body]
fn new_id() -> String {
    uuid::Uuid::new_v4().to_string()
}

/// The tab has id `id`.
pub open spec fn tab_id_is(id: Seq<char>) -> spec_fn(SessionTab) -> bool {
    |t: SessionTab| t.id@ == id
}

/// The terminal has id `id`.
pub open spec fn terminal_id_is(id: Seq<char>) -> spec_fn(TerminalInstance) -> bool {
    |t: TerminalInstance| t.id@ == id
}

/// Some tab has id `id`.
pub open spec fn has_tab(tabs: Seq<SessionTab>, id: Seq<char>) -> bool {
    exists|i: int| 0 <= i < tabs.len() && (#[trigger] tabs[i]).id@ == id
}

/// Some terminal has id `id`.
pub open spec fn has_terminal(terms: Seq<TerminalInstance>, id: Seq<char>) -> bool {
    exists|i: int| 0 <= i < terms.len() && (#[trigger] terms[i]).id@ == id
}

/// A tab is consistent: it has a terminal, and its active terminal is one of them.
pub open spec fn tab_wf(t: SessionTab) -> bool {
    &&& t.terminals@.len() > 0
    &&& t.active_terminal_id matches Some(a) && has_terminal(t.terminals@, a@)
}

/// The session view is consistent: a tab is active exactly when tabs are open, the active tab
/// is one of them, and every tab is consistent.
pub open spec fn session_wf(s: SessionState) -> bool {
    &&& (s.active_tab_id is None <==> s.tabs@.len() == 0)
    &&& (s.active_tab_id matches Some(a) ==> has_tab(s.tabs@, a@))
    &&& forall|i: int| 0 <= i < s.tabs@.len() ==> tab_wf(#[trigger] s.tabs@[i])
}

/// The new tab made for `server_id` with ids `tab_id` and `terminal_id`.
pub open spec fn new_tab_spec(
    t: SessionTab,
    tab_id: Seq<char>,
    terminal_id: Seq<char>,
    server_id: Seq<char>,
    server_label: Seq<char>,
) -> bool {
    &&& t.id@ == tab_id
    &&& t.server_id@ == server_id
    &&& t.server_label@ == server_label
    &&& t.status is Connecting
    &&& t.terminals@.len() == 1
    &&& t.terminals@[0].id@ == terminal_id
    &&& t.terminals@[0].index == 1
    &&& !t.terminals@[0].pty_initialized
    &&& t.terminals@[0].last_sent_pty_size is None
    &&& t.terminals@[0].pty_error is None
    &&& opt_view(t.active_terminal_id) == Some(terminal_id)
    &&& t.terminal_counter == 1
    &&& t.server_data is None
}

/// Everything but the tab list and the active tab is unchanged.
pub open spec fn view_flags_unchanged(a: SessionState, b: SessionState) -> bool {
    &&& a.show_home == b.show_home
    &&& a.sidebar_collapsed == b.sidebar_collapsed
    &&& a.active_sidebar_panel == b.active_sidebar_panel
    &&& a.snippets_expanded == b.snippets_expanded
}

fn position_of_tab(tabs: &Vec<SessionTab>, id: &str) -> (res: Option<usize>)
    ensures
        match res {
            Some(i) => i < tabs@.len() && tabs@[i as int].id@ == id@ && first_match(tabs@, tab_id_is(id@)) == Some(i as int),
            None => first_match(tabs@, tab_id_is(id@)) is None && !has_tab(tabs@, id@),
        },
{
    let key = owned(id);
    let mut i: usize = 0;
    while i < tabs.len()
        invariant
            i <= tabs@.len(),
            key@ == id@,
            none_before(tabs@, tab_id_is(id@), i as int),
        decreases tabs@.len() - i,
    {
        if tabs[i].id == key {
            proof {
                lemma_first_match_at(tabs@, tab_id_is(id@), i as int);
            }
            return Some(i);
        }
        i = i + 1;
    }
    proof {
        lemma_first_match_none(tabs@, tab_id_is(id@));
        assert forall|k: int| 0 <= k < tabs@.len() implies (#[trigger] tabs@[k]).id@ != id@ by {
            assert(!tab_id_is(id@)(tabs@[k]));
        }
    }
    None
}

fn position_of_terminal(terms: &Vec<TerminalInstance>, id: &str) -> (res: Option<usize>)
    ensures
        match res {
            Some(i) => i < terms@.len() && terms@[i as int].id@ == id@ && first_match(terms@, terminal_id_is(id@)) == Some(i as int),
            None => first_match(terms@, terminal_id_is(id@)) is None && !has_terminal(terms@, id@),
        },
{
    let key = owned(id);
    let mut i: usize = 0;
    while i < terms.len()
        invariant
            i <= terms@.len(),
            key@ == id@,
            none_before(terms@, terminal_id_is(id@), i as int),
        decreases terms@.len() - i,
    {
        if terms[i].id == key {
            proof {
                lemma_first_match_at(terms@, terminal_id_is(id@), i as int);
            }
            return Some(i);
        }
        i = i + 1;
    }
    proof {
        lemma_first_match_none(terms@, terminal_id_is(id@));
        assert forall|k: int| 0 <= k < terms@.len() implies (#[trigger] terms@[k]).id@ != id@ by {
            assert(!terminal_id_is(id@)(terms@[k]));
        }
    }
    None
}

/// A tab in the list is found by its id.
proof fn lemma_has_tab_at(tabs: Seq<SessionTab>, i: int)
    requires
        0 <= i < tabs.len(),
    ensures
        has_tab(tabs, tabs[i].id@),
{
}

/// Removing a tab keeps every remaining tab well formed.
proof fn lemma_remove_keeps_tabs_wf(tabs: Seq<SessionTab>, pos: int)
    requires
        0 <= pos < tabs.len(),
        forall|i: int| 0 <= i < tabs.len() ==> tab_wf(#[trigger] tabs[i]),
    ensures
        forall|i: int| 0 <= i < tabs.remove(pos).len() ==> tab_wf(#[trigger] tabs.remove(pos)[i]),
{
    assert forall|i: int| 0 <= i < tabs.remove(pos).len() implies tab_wf(#[trigger] tabs.remove(pos)[i]) by {
        if i < pos {
            assert(tabs.remove(pos)[i] == tabs[i]);
        } else {
            assert(tabs.remove(pos)[i] == tabs[i + 1]);
        }
    }
}

proof fn lemma_remove_keeps_other_tab(tabs: Seq<SessionTab>, pos: int, a: Seq<char>)
    requires
        0 <= pos < tabs.len(),
        has_tab(tabs, a),
        tabs[pos].id@ != a,
    ensures
        has_tab(tabs.remove(pos), a),
{
    let k = choose|k: int| 0 <= k < tabs.len() && (#[trigger] tabs[k]).id@ == a;
    assert(k != pos);
    if k < pos {
        assert(tabs.remove(pos)[k] == tabs[k]);
    } else {
        assert(tabs.remove(pos)[k - 1] == tabs[k]);
    }
}

impl SessionState {
    /// Opens a tab for `server_id` with the given ids, in front of the others, makes it active
    /// and switches to the session view.
    pub fn add_tab_with_ids(
        &mut self,
        tab_id: String,
        terminal_id: String,
        server_id: String,
        server_label: String,
    )
        ensures
            final(self).tabs@.len() == old(self).tabs@.len() + 1,
            new_tab_spec(final(self).tabs@[0], tab_id@, terminal_id@, server_id@, server_label@),
            final(self).tabs@.drop_first() == old(self).tabs@,
            opt_view(final(self).active_tab_id) == Some(tab_id@),
            !final(self).show_home,
            final(self).sidebar_collapsed == old(self).sidebar_collapsed,
            final(self).active_sidebar_panel == old(self).active_sidebar_panel,
            final(self).snippets_expanded == old(self).snippets_expanded,
            session_wf(*old(self)) ==> session_wf(*final(self)),
    {
        let first = TerminalInstance {
            id: terminal_id.clone(),
            index: 1,
            pty_initialized: false,
            last_sent_pty_size: None,
            pty_error: None,
        };
        let mut terminals = Vec::new();
        terminals.push(first);
        let tab = SessionTab {
            id: tab_id.clone(),
            server_id,
            server_label,
            status: SessionStatus::Connecting,
            terminals,
            active_terminal_id: Some(terminal_id),
            terminal_counter: 1,
            server_data: None,
        };
        self.tabs.insert(0, tab);
        self.active_tab_id = Some(tab_id);
        self.show_home = false;
        proof {
            assert(self.tabs@.drop_first() =~= old(self).tabs@);
            assert(has_terminal(self.tabs@[0].terminals@, self.tabs@[0].terminals@[0].id@));
            assert(has_tab(self.tabs@, self.tabs@[0].id@));
            if session_wf(*old(self)) {
                assert forall|i: int| 0 <= i < self.tabs@.len() implies tab_wf(#[trigger] self.tabs@[i]) by {
                    if i > 0 {
                        assert(self.tabs@[i] == old(self).tabs@[i - 1]);
                    }
                }
            }
        }
    }

    /// Opens a tab for `server_id` with fresh ids; returns the tab's id.
    pub fn add_tab(&mut self, server_id: String, server_label: String) -> (res: String)
        ensures
            final(self).tabs@.len() == old(self).tabs@.len() + 1,
            final(self).tabs@[0].id@ == res@,
            exists|t: Seq<char>| new_tab_spec(final(self).tabs@[0], res@, t, server_id@, server_label@),
            final(self).tabs@.drop_first() == old(self).tabs@,
            opt_view(final(self).active_tab_id) == Some(res@),
            !final(self).show_home,
            session_wf(*old(self)) ==> session_wf(*final(self)),
    {
        let tab_id = new_id();
        let terminal_id = new_id();
        let ghost tid = terminal_id@;
        self.add_tab_with_ids(tab_id.clone(), terminal_id, server_id, server_label);
        assert(new_tab_spec(self.tabs@[0], tab_id@, tid, server_id@, server_label@));
        tab_id
    }

    /// Closes the first tab with id `tab_id`; when it was active, the next tab (the one that
    /// followed it, or the new last tab when it was the last) becomes active. Returns whether a
    /// tab was closed.
    pub fn close_tab(&mut self, tab_id: &str) -> (closed: bool)
        ensures
            view_flags_unchanged(*old(self), *final(self)),
            match first_match(old(self).tabs@, tab_id_is(tab_id@)) {
                Some(i) => closed && final(self).tabs@ == old(self).tabs@.remove(i) && if opt_view(
                    old(self).active_tab_id,
                ) == Some(tab_id@) {
                    if final(self).tabs@.len() == 0 {
                        final(self).active_tab_id is None
                    } else {
                        opt_view(final(self).active_tab_id) == Some(
                            final(self).tabs@[if i < final(self).tabs@.len() {
                                i
                            } else {
                                final(self).tabs@.len() - 1
                            }].id@,
                        )
                    }
                } else {
                    final(self).active_tab_id == old(self).active_tab_id
                },
                None => !closed && final(self).tabs@ == old(self).tabs@ && final(self).active_tab_id
                    == old(self).active_tab_id,
            },
            session_wf(*old(self)) ==> session_wf(*final(self)),
    {
        match position_of_tab(&self.tabs, tab_id) {
            Some(pos) => {
                let _ = self.tabs.remove(pos);
                let was_active = match &self.active_tab_id {
                    Some(a) => crate::text::str_eq(a.as_str(), tab_id),
                    None => false,
                };
                if was_active {
                    if self.tabs.len() > 0 {
                        let next = if pos < self.tabs.len() {
                            pos
                        } else {
                            self.tabs.len() - 1
                        };
                        self.active_tab_id = Some(self.tabs[next].id.clone());
                    } else {
                        self.active_tab_id = None;
                    }
                }
                proof {
                    if session_wf(*old(self)) {
                        lemma_remove_keeps_tabs_wf(old(self).tabs@, pos as int);
                        if self.tabs@.len() > 0 {
                            let next: int = if pos < self.tabs@.len() {
                                pos as int
                            } else {
                                self.tabs@.len() - 1
                            };
                            lemma_has_tab_at(self.tabs@, next);
                        }
                        if !was_active {
                            lemma_remove_keeps_other_tab(old(self).tabs@, pos as int, old(self).active_tab_id->0@);
                        }
                    }
                }
                true
            },
            None => false,
        }
    }

    /// Makes the tab `tab_id` active, when it exists.
    pub fn activate_tab(&mut self, tab_id: &str)
        ensures
            final(self).tabs == old(self).tabs,
            view_flags_unchanged(*old(self), *final(self)),
            has_tab(old(self).tabs@, tab_id@) ==> opt_view(final(self).active_tab_id) == Some(tab_id@),
            !has_tab(old(self).tabs@, tab_id@) ==> final(self).active_tab_id == old(self).active_tab_id,
            session_wf(*old(self)) ==> session_wf(*final(self)),
    {
        match position_of_tab(&self.tabs, tab_id) {
            Some(pos) => {
                proof {
                    lemma_has_tab_at(self.tabs@, pos as int);
                }
                self.active_tab_id = Some(owned(tab_id));
            },
            None => {},
        }
    }

    /// Sets the status of the first tab with id `tab_id`.
    pub fn update_tab_status(&mut self, tab_id: &str, status: SessionStatus)
        ensures
            final(self).active_tab_id == old(self).active_tab_id,
            view_flags_unchanged(*old(self), *final(self)),
            match first_match(old(self).tabs@, tab_id_is(tab_id@)) {
                Some(i) => final(self).tabs@ == old(self).tabs@.update(
                    i,
                    SessionTab { status, ..old(self).tabs@[i] },
                ),
                None => final(self).tabs@ == old(self).tabs@,
            },
            session_wf(*old(self)) ==> session_wf(*final(self)),
    {
        match position_of_tab(&self.tabs, tab_id) {
            Some(pos) => {
                let mut tabs = Vec::new();
                std::mem::swap(&mut tabs, &mut self.tabs);
                let mut tab = tabs.remove(pos);
                tab.status = status;
                tabs.insert(pos, tab);
                self.tabs = tabs;
                proof {
                    assert(self.tabs@ =~= old(self).tabs@.update(
                        pos as int,
                        SessionTab { status, ..old(self).tabs@[pos as int] },
                    ));
                    if session_wf(*old(self)) {
                        assert forall|i: int| 0 <= i < self.tabs@.len() implies tab_wf(#[trigger] self.tabs@[i]) by {
                            assert(tab_wf(old(self).tabs@[i]));
                        }
                        if let Some(a) = &self.active_tab_id {
                            let k = choose|k: int| 0 <= k < old(self).tabs@.len() && (#[trigger] old(self).tabs@[k]).id@ == a@;
                            assert(self.tabs@[k].id@ == a@);
                        }
                    }
                }
            },
            None => {},
        }
    }

    /// The active tab.
    pub fn active_tab(&self) -> (res: Option<&SessionTab>)
        ensures
            match self.active_tab_id {
                Some(a) => match first_match(self.tabs@, tab_id_is(a@)) {
                    Some(i) => res == Some(&self.tabs@[i]),
                    None => res is None,
                },
                None => res is None,
            },
    {
        match &self.active_tab_id {
            Some(a) => match position_of_tab(&self.tabs, a.as_str()) {
                Some(i) => Some(&self.tabs[i]),
                None => None,
            },
            None => None,
        }
    }

    /// Whether any tab is open.
    pub fn has_sessions(&self) -> (res: bool)
        ensures
            res == (self.tabs@.len() > 0),
    {
        self.tabs.len() > 0
    }

    /// Collapses or expands the side bar.
    pub fn toggle_sidebar(&mut self)
        ensures
            final(self).sidebar_collapsed == !old(self).sidebar_collapsed,
            final(self).tabs == old(self).tabs,
            final(self).active_tab_id == old(self).active_tab_id,
            final(self).show_home == old(self).show_home,
            final(self).active_sidebar_panel == old(self).active_sidebar_panel,
            final(self).snippets_expanded == old(self).snippets_expanded,
    {
        self.sidebar_collapsed = !self.sidebar_collapsed;
    }

    /// Shows `panel` in the side bar, expanding the side bar.
    pub fn set_sidebar_panel(&mut self, panel: SidebarPanel)
        ensures
            final(self).active_sidebar_panel == panel,
            !final(self).sidebar_collapsed,
            final(self).tabs == old(self).tabs,
            final(self).active_tab_id == old(self).active_tab_id,
            final(self).show_home == old(self).show_home,
            final(self).snippets_expanded == old(self).snippets_expanded,
    {
        self.active_sidebar_panel = panel;
        if self.sidebar_collapsed {
            self.sidebar_collapsed = false;
        }
    }

    /// Expands the snippet group `group_id` when it is collapsed, and collapses it when it is
    /// expanded.
    pub fn toggle_snippets_group(&mut self, group_id: &str)
        ensures
            final(self).tabs == old(self).tabs,
            final(self).active_tab_id == old(self).active_tab_id,
            final(self).show_home == old(self).show_home,
            final(self).sidebar_collapsed == old(self).sidebar_collapsed,
            final(self).active_sidebar_panel == old(self).active_sidebar_panel,
            forall|x: Seq<char>|
                #[trigger] expanded_contains(final(self).snippets_expanded@, x) == if x == group_id@ {
                    !expanded_contains(old(self).snippets_expanded@, x)
                } else {
                    expanded_contains(old(self).snippets_expanded@, x)
                },
            no_dup_texts(old(self).snippets_expanded@) ==> no_dup_texts(final(self).snippets_expanded@),
    {
        let key = owned(group_id);
        let mut found = false;
        let mut kept: Vec<String> = Vec::new();
        let mut i: usize = 0;
        while i < self.snippets_expanded.len()
            invariant
                i <= self.snippets_expanded@.len(),
                key@ == group_id@,
                self.snippets_expanded == old(self).snippets_expanded,
                found == exists|k: int| 0 <= k < i && (#[trigger] self.snippets_expanded@[k])@ == key@,
                forall|x: Seq<char>|
                    #[trigger] expanded_contains(kept@, x) == (x != key@ && exists|k: int|
                        0 <= k < i && (#[trigger] self.snippets_expanded@[k])@ == x),
                kept@ == self.snippets_expanded@.take(i as int).filter(not_text(key@)),
            decreases self.snippets_expanded@.len() - i,
        {
            proof {
                crate::seqs::lemma_filter_take_step(self.snippets_expanded@, not_text(key@), i as int);
            }
            let ghost before = kept@;
            if self.snippets_expanded[i] == key {
                found = true;
            } else {
                kept.push(self.snippets_expanded[i].clone());
            }
            proof {
                assert forall|x: Seq<char>|
                    #[trigger] expanded_contains(kept@, x) == (x != key@ && exists|k: int|
                        0 <= k < i + 1 && (#[trigger] self.snippets_expanded@[k])@ == x) by {
                    if expanded_contains(kept@, x) {
                        let a = choose|a: int| 0 <= a < kept@.len() && (#[trigger] kept@[a])@ == x;
                        if a < before.len() {
                            assert(kept@[a] == before[a]);
                            assert(expanded_contains(before, x));
                        }
                    }
                    if x != key@ && exists|k: int| 0 <= k < i + 1 && (#[trigger] self.snippets_expanded@[k])@ == x {
                        let k = choose|k: int| 0 <= k < i + 1 && (#[trigger] self.snippets_expanded@[k])@ == x;
                        if k < i {
                            assert(expanded_contains(before, x));
                            let a = choose|a: int| 0 <= a < before.len() && (#[trigger] before[a])@ == x;
                            assert(kept@[a] == before[a]);
                        } else {
                            assert(kept@[before.len() as int]@ == x);
                        }
                    }
                }
            }
            i = i + 1;
        }
        proof {
            assert(self.snippets_expanded@.take(i as int) =~= self.snippets_expanded@);
        }
        if !found {
            let ghost before = kept@;
            kept.push(key);
            proof {
                assert forall|x: Seq<char>| #[trigger] expanded_contains(kept@, x) == (expanded_contains(before, x) || x == group_id@) by {
                    if expanded_contains(kept@, x) {
                        let a = choose|a: int| 0 <= a < kept@.len() && (#[trigger] kept@[a])@ == x;
                        if a < before.len() {
                            assert(kept@[a] == before[a]);
                        }
                    }
                    if expanded_contains(before, x) {
                        let a = choose|a: int| 0 <= a < before.len() && (#[trigger] before[a])@ == x;
                        assert(kept@[a] == before[a]);
                    }
                    if x == group_id@ {
                        assert(kept@[before.len() as int]@ == x);
                    }
                }
                if no_dup_texts(old(self).snippets_expanded@) {
                    lemma_no_dup_filter(old(self).snippets_expanded@, not_text(group_id@));
                    assert forall|a: int, b: int| 0 <= a < b < kept@.len() implies (#[trigger] kept@[a])@ != (#[trigger] kept@[b])@ by {
                        if b == before.len() {
                            assert(kept@[a] == before[a]);
                            assert(expanded_contains(before, before[a]@));
                        } else {
                            assert(kept@[a] == before[a]);
                            assert(kept@[b] == before[b]);
                        }
                    }
                }
            }
        } else {
            proof {
                if no_dup_texts(old(self).snippets_expanded@) {
                    lemma_no_dup_filter(old(self).snippets_expanded@, not_text(group_id@));
                }
            }
        }
        self.snippets_expanded = kept;
    }

    /// The server of the tab `tab_id`, when known.
    pub fn server_data_for_tab(&self, tab_id: &str) -> (res: Option<ServerData>)
        ensures
            match first_match(self.tabs@, tab_id_is(tab_id@)) {
                Some(i) => res == self.tabs@[i].server_data,
                None => res is None,
            },
    {
        match position_of_tab(&self.tabs, tab_id) {
            Some(i) => match &self.tabs[i].server_data {
                Some(s) => Some(s.clone()),
                None => None,
            },
            None => None,
        }
    }
}

/// `t` after terminal `terminal_id` was added as its newest, active terminal.
pub open spec fn tab_with_new_terminal(old_tab: SessionTab, terminal_id: Seq<char>, t: SessionTab) -> bool {
    &&& t.id == old_tab.id
    &&& t.server_id == old_tab.server_id
    &&& t.server_label == old_tab.server_label
    &&& t.status == old_tab.status
    &&& t.server_data == old_tab.server_data
    &&& t.terminal_counter == old_tab.terminal_counter + 1
    &&& t.terminals@.len() == old_tab.terminals@.len() + 1
    &&& t.terminals@.drop_last() == old_tab.terminals@
    &&& t.terminals@.last().id@ == terminal_id
    &&& t.terminals@.last().index == old_tab.terminal_counter + 1
    &&& !t.terminals@.last().pty_initialized
    &&& t.terminals@.last().last_sent_pty_size is None
    &&& t.terminals@.last().pty_error is None
    &&& opt_view(t.active_terminal_id) == Some(terminal_id)
}

/// `new_tabs` is `old_tabs` where only tab `i` may differ, and it keeps its id.
pub open spec fn only_tab_changed(old_tabs: Seq<SessionTab>, i: int, new_tabs: Seq<SessionTab>) -> bool {
    &&& new_tabs.len() == old_tabs.len()
    &&& forall|k: int| 0 <= k < old_tabs.len() && k != i ==> new_tabs[k] == old_tabs[k]
    &&& new_tabs[i].id == old_tabs[i].id
}

/// The tab `tab_id` can number one more terminal.
pub open spec fn can_add_terminal(tabs: Seq<SessionTab>, tab_id: Seq<char>) -> bool {
    match first_match(tabs, tab_id_is(tab_id)) {
        Some(i) => tabs[i].terminal_counter < u32::MAX,
        None => true,
    }
}

proof fn lemma_replace_tab_keeps_wf(s: SessionState, i: int, t: SessionTab, n: SessionState)
    requires
        session_wf(s),
        0 <= i < s.tabs@.len(),
        t.id == s.tabs@[i].id,
        tab_wf(t),
        n.tabs@ == s.tabs@.update(i, t),
        n.active_tab_id == s.active_tab_id,
    ensures
        session_wf(n),
{
    assert forall|k: int| 0 <= k < n.tabs@.len() implies tab_wf(#[trigger] n.tabs@[k]) by {
        if k != i {
            assert(n.tabs@[k] == s.tabs@[k]);
        }
    }
    if let Some(a) = n.active_tab_id {
        let k = choose|k: int| 0 <= k < s.tabs@.len() && (#[trigger] s.tabs@[k]).id@ == a@;
        assert(n.tabs@[k].id@ == a@);
    }
}

impl SessionState {
    fn take_tab(&mut self, pos: usize) -> (res: SessionTab)
        requires
            pos < old(self).tabs@.len(),
        ensures
            res == old(self).tabs@[pos as int],
            final(self).tabs@ == old(self).tabs@.remove(pos as int),
            final(self).active_tab_id == old(self).active_tab_id,
            view_flags_unchanged(*old(self), *final(self)),
    {
        self.tabs.remove(pos)
    }

    fn put_tab(&mut self, pos: usize, tab: SessionTab)
        requires
            pos <= old(self).tabs@.len(),
        ensures
            final(self).tabs@ == old(self).tabs@.insert(pos as int, tab),
            final(self).active_tab_id == old(self).active_tab_id,
            view_flags_unchanged(*old(self), *final(self)),
    {
        self.tabs.insert(pos, tab);
    }

    /// Adds terminal `terminal_id` to the first tab with id `tab_id` and makes it active;
    /// returns its id, or `None` when there is no such tab.
    pub fn add_terminal_with_id(&mut self, tab_id: &str, terminal_id: String) -> (res: Option<String>)
        requires
            can_add_terminal(old(self).tabs@, tab_id@),
        ensures
            final(self).active_tab_id == old(self).active_tab_id,
            view_flags_unchanged(*old(self), *final(self)),
            match first_match(old(self).tabs@, tab_id_is(tab_id@)) {
                Some(i) => (res matches Some(r) && r@ == terminal_id@) && only_tab_changed(
                    old(self).tabs@,
                    i,
                    final(self).tabs@,
                ) && tab_with_new_terminal(old(self).tabs@[i], terminal_id@, final(self).tabs@[i]),
                None => res is None && final(self).tabs@ == old(self).tabs@,
            },
            session_wf(*old(self)) ==> session_wf(*final(self)),
    {
        match position_of_tab(&self.tabs, tab_id) {
            Some(pos) => {
                let ghost before = *self;
                let mut tab = self.take_tab(pos);
                add_terminal_to(&mut tab, terminal_id.clone());
                self.put_tab(pos, tab);
                proof {
                    lemma_put_back(before, pos as int, tab, *self);
                }
                Some(terminal_id)
            },
            None => None,
        }
    }

    /// Adds a terminal with a fresh id to the first tab with id `tab_id` and makes it active;
    /// returns its id, or `None` when there is no such tab.
    pub fn add_terminal_instance(&mut self, tab_id: &str) -> (res: Option<String>)
        requires
            can_add_terminal(old(self).tabs@, tab_id@),
        ensures
            final(self).active_tab_id == old(self).active_tab_id,
            view_flags_unchanged(*old(self), *final(self)),
            match first_match(old(self).tabs@, tab_id_is(tab_id@)) {
                Some(i) => (res matches Some(r) && only_tab_changed(old(self).tabs@, i, final(self).tabs@)
                    && tab_with_new_terminal(old(self).tabs@[i], r@, final(self).tabs@[i])),
                None => res is None && final(self).tabs@ == old(self).tabs@,
            },
            session_wf(*old(self)) ==> session_wf(*final(self)),
    {
        let id = new_id();
        self.add_terminal_with_id(tab_id, id)
    }

    /// Closes terminal `terminal_id` of tab `tab_id`, unless it is the tab's only terminal; when
    /// it was active, the tab's first terminal becomes active.
    pub fn close_terminal_instance(&mut self, tab_id: &str, terminal_id: &str)
        ensures
            final(self).active_tab_id == old(self).active_tab_id,
            view_flags_unchanged(*old(self), *final(self)),
            match first_match(old(self).tabs@, tab_id_is(tab_id@)) {
                Some(i) => match first_match(old(self).tabs@[i].terminals@, terminal_id_is(terminal_id@)) {
                    Some(j) => if old(self).tabs@[i].terminals@.len() > 1 {
                        only_tab_changed(old(self).tabs@, i, final(self).tabs@) && terminal_closed(
                            old(self).tabs@[i],
                            j,
                            terminal_id@,
                            final(self).tabs@[i],
                        )
                    } else {
                        final(self).tabs@ == old(self).tabs@
                    },
                    None => final(self).tabs@ == old(self).tabs@,
                },
                None => final(self).tabs@ == old(self).tabs@,
            },
            session_wf(*old(self)) ==> session_wf(*final(self)),
    {
        match position_of_tab(&self.tabs, tab_id) {
            Some(pos) => {
                match position_of_terminal(&self.tabs[pos].terminals, terminal_id) {
                    Some(tpos) => {
                        if self.tabs[pos].terminals.len() <= 1 {
                            return;
                        }
                        let ghost before = *self;
                        let mut tab = self.take_tab(pos);
                        close_terminal_at(&mut tab, tpos, terminal_id);
                        self.put_tab(pos, tab);
                        proof {
                            lemma_put_back(before, pos as int, tab, *self);
                        }
                    },
                    None => {},
                }
            },
            None => {},
        }
    }

    /// Makes terminal `terminal_id` of tab `tab_id` active, when both exist.
    pub fn activate_terminal_instance(&mut self, tab_id: &str, terminal_id: &str)
        ensures
            final(self).active_tab_id == old(self).active_tab_id,
            view_flags_unchanged(*old(self), *final(self)),
            match first_match(old(self).tabs@, tab_id_is(tab_id@)) {
                Some(i) => if has_terminal(old(self).tabs@[i].terminals@, terminal_id@) {
                    only_tab_changed(old(self).tabs@, i, final(self).tabs@) && terminal_activated(
                        old(self).tabs@[i],
                        terminal_id@,
                        final(self).tabs@[i],
                    )
                } else {
                    final(self).tabs@ == old(self).tabs@
                },
                None => final(self).tabs@ == old(self).tabs@,
            },
            session_wf(*old(self)) ==> session_wf(*final(self)),
    {
        match position_of_tab(&self.tabs, tab_id) {
            Some(pos) => {
                match position_of_terminal(&self.tabs[pos].terminals, terminal_id) {
                    Some(tpos) => {
                        let ghost before = *self;
                        let mut tab = self.take_tab(pos);
                        activate_terminal_at(&mut tab, tpos, terminal_id);
                        self.put_tab(pos, tab);
                        proof {
                            lemma_put_back(before, pos as int, tab, *self);
                        }
                    },
                    None => {},
                }
            },
            None => {},
        }
    }

    /// The active terminal of tab `tab_id`.
    pub fn active_terminal_instance(&self, tab_id: &str) -> (res: Option<&TerminalInstance>)
        ensures
            match first_match(self.tabs@, tab_id_is(tab_id@)) {
                Some(i) => match self.tabs@[i].active_terminal_id {
                    Some(a) => match first_match(self.tabs@[i].terminals@, terminal_id_is(a@)) {
                        Some(j) => res == Some(&self.tabs@[i].terminals@[j]),
                        None => res is None,
                    },
                    None => res is None,
                },
                None => res is None,
            },
    {
        match position_of_tab(&self.tabs, tab_id) {
            Some(pos) => match &self.tabs[pos].active_terminal_id {
                Some(a) => match position_of_terminal(&self.tabs[pos].terminals, a.as_str()) {
                    Some(j) => Some(&self.tabs[pos].terminals[j]),
                    None => None,
                },
                None => None,
            },
            None => None,
        }
    }

    /// The terminals of tab `tab_id`, in order (none when there is no such tab).
    pub fn get_terminal_instances(&self, tab_id: &str) -> (res: Vec<&TerminalInstance>)
        ensures
            match first_match(self.tabs@, tab_id_is(tab_id@)) {
                Some(i) => res@.len() == self.tabs@[i].terminals@.len() && forall|k: int|
                    0 <= k < res@.len() ==> *res@[k] == self.tabs@[i].terminals@[k],
                None => res@.len() == 0,
            },
    {
        let mut res: Vec<&TerminalInstance> = Vec::new();
        match position_of_tab(&self.tabs, tab_id) {
            Some(pos) => {
                let terms = &self.tabs[pos].terminals;
                let mut k: usize = 0;
                while k < terms.len()
                    invariant
                        k <= terms@.len(),
                        res@.len() == k,
                        forall|m: int| 0 <= m < k ==> *res@[m] == terms@[m],
                    decreases terms@.len() - k,
                {
                    res.push(&terms[k]);
                    k = k + 1;
                }
            },
            None => {},
        }
        res
    }

    /// The id of the active terminal of tab `tab_id`.
    pub fn active_terminal_id(&self, tab_id: &str) -> (res: Option<String>)
        ensures
            match first_match(self.tabs@, tab_id_is(tab_id@)) {
                Some(i) => res == self.tabs@[i].active_terminal_id,
                None => res is None,
            },
    {
        match position_of_tab(&self.tabs, tab_id) {
            Some(pos) => crate::models::clone_opt(&self.tabs[pos].active_terminal_id),
            None => None,
        }
    }

    /// After a reconnection: the terminal `terminal_id` of tab `tab_id` must set up its
    /// pseudo-terminal again.
    pub fn reset_terminal_pty(&mut self, tab_id: &str, terminal_id: &str)
        ensures
            final(self).active_tab_id == old(self).active_tab_id,
            view_flags_unchanged(*old(self), *final(self)),
            match first_match(old(self).tabs@, tab_id_is(tab_id@)) {
                Some(i) => match first_match(old(self).tabs@[i].terminals@, terminal_id_is(terminal_id@)) {
                    Some(j) => only_tab_changed(old(self).tabs@, i, final(self).tabs@) && pty_reset(
                        old(self).tabs@[i],
                        j,
                        final(self).tabs@[i],
                    ),
                    None => final(self).tabs@ == old(self).tabs@,
                },
                None => final(self).tabs@ == old(self).tabs@,
            },
            session_wf(*old(self)) ==> session_wf(*final(self)),
    {
        match position_of_tab(&self.tabs, tab_id) {
            Some(pos) => {
                match position_of_terminal(&self.tabs[pos].terminals, terminal_id) {
                    Some(tpos) => {
                        let ghost before = *self;
                        let mut tab = self.take_tab(pos);
                        reset_pty_at(&mut tab, tpos);
                        self.put_tab(pos, tab);
                        proof {
                            lemma_put_back(before, pos as int, tab, *self);
                        }
                    },
                    None => {},
                }
            },
            None => {},
        }
    }
}

/// `n` is tab `t` after its terminal `j`, with id `terminal_id`, was closed: when that terminal
/// was active, the first remaining terminal becomes active.
pub open spec fn terminal_closed(t: SessionTab, j: int, terminal_id: Seq<char>, n: SessionTab) -> bool {
    &&& n == (SessionTab { terminals: n.terminals, active_terminal_id: n.active_terminal_id, ..t })
    &&& n.terminals@ == t.terminals@.remove(j)
    &&& if opt_view(t.active_terminal_id) == Some(terminal_id) {
        opt_view(n.active_terminal_id) == Some(n.terminals@[0].id@)
    } else {
        n.active_terminal_id == t.active_terminal_id
    }
}

/// `n` is tab `t` with terminal `terminal_id` active.
pub open spec fn terminal_activated(t: SessionTab, terminal_id: Seq<char>, n: SessionTab) -> bool {
    &&& n == (SessionTab { active_terminal_id: n.active_terminal_id, ..t })
    &&& opt_view(n.active_terminal_id) == Some(terminal_id)
}

/// `n` is tab `t` where terminal `j` must set up its pseudo-terminal again.
pub open spec fn pty_reset(t: SessionTab, j: int, n: SessionTab) -> bool {
    &&& n == (SessionTab { terminals: n.terminals, ..t })
    &&& n.terminals@ == t.terminals@.update(
        j,
        TerminalInstance { pty_initialized: false, pty_error: None, ..t.terminals@[j] },
    )
}

fn add_terminal_to(tab: &mut SessionTab, terminal_id: String)
    requires
        old(tab).terminal_counter < u32::MAX,
    ensures
        tab_with_new_terminal(*old(tab), terminal_id@, *final(tab)),
        tab_wf(*final(tab)),
{
    tab.terminal_counter = tab.terminal_counter + 1;
    let inst = TerminalInstance {
        id: terminal_id.clone(),
        index: tab.terminal_counter,
        pty_initialized: false,
        last_sent_pty_size: None,
        pty_error: None,
    };
    tab.terminals.push(inst);
    tab.active_terminal_id = Some(terminal_id);
    proof {
        assert(tab.terminals@.drop_last() =~= old(tab).terminals@);
        assert(has_terminal(tab.terminals@, tab.terminals@.last().id@));
    }
}

fn close_terminal_at(tab: &mut SessionTab, j: usize, terminal_id: &str)
    requires
        j < old(tab).terminals@.len(),
        old(tab).terminals@.len() > 1,
        old(tab).terminals@[j as int].id@ == terminal_id@,
    ensures
        terminal_closed(*old(tab), j as int, terminal_id@, *final(tab)),
        tab_wf(*old(tab)) ==> tab_wf(*final(tab)),
{
    let _ = tab.terminals.remove(j);
    let was_active = match &tab.active_terminal_id {
        Some(a) => crate::text::str_eq(a.as_str(), terminal_id),
        None => false,
    };
    if was_active {
        tab.active_terminal_id = Some(tab.terminals[0].id.clone());
    }
    proof {
        if tab_wf(*old(tab)) {
            if was_active {
                assert(has_terminal(tab.terminals@, tab.terminals@[0].id@));
            } else {
                let a = old(tab).active_terminal_id->0@;
                let k = choose|k: int| 0 <= k < old(tab).terminals@.len() && (#[trigger] old(tab).terminals@[k]).id@ == a;
                assert(k != j);
                if k < j {
                    assert(tab.terminals@[k] == old(tab).terminals@[k]);
                } else {
                    assert(tab.terminals@[k - 1] == old(tab).terminals@[k]);
                }
            }
        }
    }
}

fn activate_terminal_at(tab: &mut SessionTab, j: usize, terminal_id: &str)
    requires
        j < old(tab).terminals@.len(),
        old(tab).terminals@[j as int].id@ == terminal_id@,
    ensures
        terminal_activated(*old(tab), terminal_id@, *final(tab)),
        tab_wf(*final(tab)),
{
    tab.active_terminal_id = Some(owned(terminal_id));
    proof {
        assert(has_terminal(tab.terminals@, tab.terminals@[j as int].id@));
    }
}

fn reset_pty_at(tab: &mut SessionTab, j: usize)
    requires
        j < old(tab).terminals@.len(),
    ensures
        pty_reset(*old(tab), j as int, *final(tab)),
        tab_wf(*old(tab)) ==> tab_wf(*final(tab)),
{
    let mut t = tab.terminals.remove(j);
    t.pty_initialized = false;
    t.pty_error = None;
    tab.terminals.insert(j, t);
    proof {
        assert(tab.terminals@ =~= old(tab).terminals@.update(j as int, t));
        if tab_wf(*old(tab)) {
            let a = old(tab).active_terminal_id->0@;
            let k = choose|k: int| 0 <= k < old(tab).terminals@.len() && (#[trigger] old(tab).terminals@[k]).id@ == a;
            assert(tab.terminals@[k].id@ == a);
        }
    }
}

/// Putting back at `pos` a tab taken from there changes that tab alone.
proof fn lemma_put_back(s: SessionState, pos: int, t: SessionTab, n: SessionState)
    requires
        0 <= pos < s.tabs@.len(),
        n.tabs@ == s.tabs@.remove(pos).insert(pos, t),
        n.active_tab_id == s.active_tab_id,
        t.id == s.tabs@[pos].id,
        tab_wf(s.tabs@[pos]) ==> tab_wf(t),
    ensures
        n.tabs@ == s.tabs@.update(pos, t),
        only_tab_changed(s.tabs@, pos, n.tabs@),
        n.tabs@[pos] == t,
        session_wf(s) ==> session_wf(n),
{
    assert(n.tabs@ =~= s.tabs@.update(pos, t));
    if session_wf(s) {
        assert(tab_wf(s.tabs@[pos]));
        lemma_replace_tab_keeps_wf(s, pos, t, n);
    }
}


/// `n` is tab `t` with terminal `j` replaced by `x`.
pub open spec fn terminal_replaced(t: SessionTab, j: int, x: TerminalInstance, n: SessionTab) -> bool {
    &&& n == (SessionTab { terminals: n.terminals, ..t })
    &&& n.terminals@ == t.terminals@.update(j, x)
}

/// The position `(tab, terminal)` of terminal `terminal_id` of tab `tab_id`, if both exist.
pub open spec fn find_terminal(tabs: Seq<SessionTab>, tab_id: Seq<char>, terminal_id: Seq<char>) -> Option<(int, int)> {
    match first_match(tabs, tab_id_is(tab_id)) {
        Some(i) => match first_match(tabs[i].terminals@, terminal_id_is(terminal_id)) {
            Some(j) => Some((i, j)),
            None => None,
        },
        None => None,
    }
}

/// The active terminal of tab `t`, when the tab is connected: its id and position.
pub open spec fn connected_active_terminal(t: SessionTab) -> Option<(Seq<char>, int)> {
    if t.status is Connected {
        match t.active_terminal_id {
            Some(a) => match first_match(t.terminals@, terminal_id_is(a@)) {
                Some(j) => Some((a@, j)),
                None => None,
            },
            None => None,
        }
    } else {
        None
    }
}

/// The terminal whose pseudo-terminal must be set up in tab `t`: the active one of a connected
/// tab, when it has none yet.
pub open spec fn needs_pty_spec(t: SessionTab) -> Option<Seq<char>> {
    match connected_active_terminal(t) {
        Some((a, j)) => if !t.terminals@[j].pty_initialized {
            Some(a)
        } else {
            None
        },
        None => None,
    }
}

/// The terminal whose size follows the view in tab `t`: the active one of a connected tab,
/// once its pseudo-terminal is set up.
pub open spec fn resize_target_spec(t: SessionTab) -> Option<Seq<char>> {
    match connected_active_terminal(t) {
        Some((a, j)) => if t.terminals@[j].pty_initialized {
            Some(a)
        } else {
            None
        },
        None => None,
    }
}

/// Terminal numbering is consistent: every terminal's number lies between 1 and the tab's
/// counter, and no two terminals share a number.
pub open spec fn indices_wf(t: SessionTab) -> bool {
    &&& forall|k: int| 0 <= k < t.terminals@.len() ==> 1 <= (#[trigger] t.terminals@[k]).index <= t.terminal_counter
    &&& forall|a: int, b: int|
        0 <= a < b < t.terminals@.len() ==> (#[trigger] t.terminals@[a]).index != (#[trigger] t.terminals@[b]).index
}

/// Every operation on a tab's terminals keeps their numbering consistent: a new tab starts
/// consistent, a new terminal takes the next number, and closing one, activating one, resetting
/// or recording a pseudo-terminal leave the numbers alone.
pub proof fn lemma_terminal_numbering(t: SessionTab, n: SessionTab, j: int, x: TerminalInstance, id: Seq<char>)
    ensures
        (exists|a: Seq<char>, b: Seq<char>, c: Seq<char>, d: Seq<char>| new_tab_spec(n, a, b, c, d)) ==> indices_wf(n),
        indices_wf(t) && tab_with_new_terminal(t, id, n) ==> indices_wf(n),
        indices_wf(t) && terminal_closed(t, j, id, n) && 0 <= j < t.terminals@.len() ==> indices_wf(n),
        indices_wf(t) && terminal_activated(t, id, n) ==> indices_wf(n),
        indices_wf(t) && terminal_replaced(t, j, x, n) && 0 <= j < t.terminals@.len() && x.index
            == t.terminals@[j].index ==> indices_wf(n),
        indices_wf(t) && pty_reset(t, j, n) && 0 <= j < t.terminals@.len() ==> indices_wf(n),
{
    if indices_wf(t) && pty_reset(t, j, n) && 0 <= j < t.terminals@.len() {
        assert forall|a: int, b: int|
            0 <= a < b < n.terminals@.len() implies (#[trigger] n.terminals@[a]).index != (#[trigger] n.terminals@[b]).index by {
            assert(n.terminals@[a].index == t.terminals@[a].index);
            assert(n.terminals@[b].index == t.terminals@[b].index);
        }
    }
    if indices_wf(t) && tab_with_new_terminal(t, id, n) {
        assert forall|k: int| 0 <= k < n.terminals@.len() - 1 implies #[trigger] n.terminals@[k] == t.terminals@[k] by {
            assert(n.terminals@.drop_last()[k] == n.terminals@[k]);
        }
    }
    if indices_wf(t) && terminal_closed(t, j, id, n) && 0 <= j < t.terminals@.len() {
        assert forall|k: int| 0 <= k < n.terminals@.len() implies #[trigger] n.terminals@[k] == t.terminals@[if k < j {
            k
        } else {
            k + 1
        }] by {}
        assert forall|a: int, b: int|
            0 <= a < b < n.terminals@.len() implies (#[trigger] n.terminals@[a]).index != (#[trigger] n.terminals@[b]).index by {
            let a2 = if a < j { a } else { a + 1 };
            let b2 = if b < j { b } else { b + 1 };
            assert(n.terminals@[a] == t.terminals@[a2]);
            assert(n.terminals@[b] == t.terminals@[b2]);
        }
    }
    if indices_wf(t) && terminal_replaced(t, j, x, n) && 0 <= j < t.terminals@.len() && x.index == t.terminals@[j].index {
        assert forall|a: int, b: int|
            0 <= a < b < n.terminals@.len() implies (#[trigger] n.terminals@[a]).index != (#[trigger] n.terminals@[b]).index by {
            assert(n.terminals@[a].index == t.terminals@[a].index);
            assert(n.terminals@[b].index == t.terminals@[b].index);
        }
    }
}

/// Replacing a terminal by one with the same id, in one tab, keeps where that terminal is found.
proof fn lemma_terminal_still_found(
    old_tabs: Seq<SessionTab>,
    new_tabs: Seq<SessionTab>,
    tab_id: Seq<char>,
    terminal_id: Seq<char>,
    x: TerminalInstance,
)
    requires
        find_terminal(old_tabs, tab_id, terminal_id) matches Some((i, j)) && only_tab_changed(old_tabs, i, new_tabs)
            && terminal_replaced(old_tabs[i], j, x, new_tabs[i]) && x.id == old_tabs[i].terminals@[j].id,
    ensures
        find_terminal(new_tabs, tab_id, terminal_id) == find_terminal(old_tabs, tab_id, terminal_id),
        find_terminal(new_tabs, tab_id, terminal_id) matches Some((i, j)) && new_tabs[i].terminals@[j] == x,
{
    let (i, j) = find_terminal(old_tabs, tab_id, terminal_id)->0;
    crate::seqs::lemma_first_match_props(old_tabs, tab_id_is(tab_id));
    lemma_match_kept(old_tabs, new_tabs, tab_id_is(tab_id), i);
    crate::seqs::lemma_first_match_props(old_tabs[i].terminals@, terminal_id_is(terminal_id));
    lemma_match_kept(old_tabs[i].terminals@, new_tabs[i].terminals@, terminal_id_is(terminal_id), j);
}

/// The same size is sent to a pseudo-terminal once: after a size is recorded for a terminal
/// (by `mark_pty_ready` or `note_pty_size`), the terminal is found at the same place holding
/// that size, so a second `note_pty_size` with the same size sends nothing.
pub proof fn lemma_pty_size_sent_once(
    old_tabs: Seq<SessionTab>,
    new_tabs: Seq<SessionTab>,
    tab_id: Seq<char>,
    terminal_id: Seq<char>,
    x: TerminalInstance,
    cols: u32,
    rows: u32,
)
    requires
        find_terminal(old_tabs, tab_id, terminal_id) matches Some((i, j)) && only_tab_changed(old_tabs, i, new_tabs)
            && terminal_replaced(old_tabs[i], j, x, new_tabs[i]) && x.id == old_tabs[i].terminals@[j].id,
        x.last_sent_pty_size == Some((cols, rows)),
    ensures
        find_terminal(new_tabs, tab_id, terminal_id) matches Some((i, j))
            && new_tabs[i].terminals@[j].last_sent_pty_size == Some((cols, rows)),
{
    lemma_terminal_still_found(old_tabs, new_tabs, tab_id, terminal_id, x);
}

/// A pseudo-terminal is set up once: after `mark_pty_ready` for the terminal the tab asked to
/// set up, the tab asks for no terminal any more.
pub proof fn lemma_pty_set_up_once(t: SessionTab, j: int, x: TerminalInstance, n: SessionTab)
    requires
        connected_active_terminal(t) matches Some((_, k)) && k == j,
        terminal_replaced(t, j, x, n),
        x.id == t.terminals@[j].id,
        x.pty_initialized,
    ensures
        needs_pty_spec(n) is None,
{
    let a = t.active_terminal_id->0@;
    crate::seqs::lemma_first_match_props(t.terminals@, terminal_id_is(a));
    lemma_match_kept(t.terminals@, n.terminals@, terminal_id_is(a), j);
}

fn set_terminal_at(tab: &mut SessionTab, j: usize, x: TerminalInstance)
    requires
        j < old(tab).terminals@.len(),
        x.id == old(tab).terminals@[j as int].id,
    ensures
        terminal_replaced(*old(tab), j as int, x, *final(tab)),
        tab_wf(*old(tab)) ==> tab_wf(*final(tab)),
{
    let _ = tab.terminals.remove(j);
    tab.terminals.insert(j, x);
    proof {
        assert(tab.terminals@ =~= old(tab).terminals@.update(j as int, x));
        if tab_wf(*old(tab)) {
            let a = old(tab).active_terminal_id->0@;
            let k = choose|k: int| 0 <= k < old(tab).terminals@.len() && (#[trigger] old(tab).terminals@[k]).id@ == a;
            assert(tab.terminals@[k].id@ == a);
        }
    }
}

fn active_connected_position(tab: &SessionTab) -> (res: Option<usize>)
    ensures
        match connected_active_terminal(*tab) {
            Some((_, j)) => res matches Some(r) && r as int == j && j < tab.terminals@.len(),
            None => res is None,
        },
        res matches Some(j) ==> j < tab.terminals@.len() && tab.active_terminal_id is Some
            && tab.terminals@[j as int].id@ == tab.active_terminal_id->0@,
{
    match tab.status {
        SessionStatus::Connected => {},
        _ => {
            return None;
        },
    }
    match &tab.active_terminal_id {
        Some(a) => position_of_terminal(&tab.terminals, a.as_str()),
        None => None,
    }
}

fn tab_terminal_with_pty(tab: &SessionTab, initialized: bool) -> (res: Option<String>)
    ensures
        opt_view(res) == if initialized {
            resize_target_spec(*tab)
        } else {
            needs_pty_spec(*tab)
        },
{
    match active_connected_position(tab) {
        Some(j) => {
            if tab.terminals[j].pty_initialized == initialized {
                Some(tab.terminals[j].id.clone())
            } else {
                None
            }
        },
        None => None,
    }
}

impl SessionState {
    fn replace_terminal(&mut self, pos: usize, j: usize, x: TerminalInstance)
        requires
            pos < old(self).tabs@.len(),
            j < old(self).tabs@[pos as int].terminals@.len(),
            x.id == old(self).tabs@[pos as int].terminals@[j as int].id,
        ensures
            final(self).active_tab_id == old(self).active_tab_id,
            view_flags_unchanged(*old(self), *final(self)),
            only_tab_changed(old(self).tabs@, pos as int, final(self).tabs@),
            terminal_replaced(old(self).tabs@[pos as int], j as int, x, final(self).tabs@[pos as int]),
            session_wf(*old(self)) ==> session_wf(*final(self)),
    {
        let ghost before = *self;
        let mut tab = self.take_tab(pos);
        set_terminal_at(&mut tab, j, x);
        self.put_tab(pos, tab);
        proof {
            lemma_put_back(before, pos as int, tab, *self);
        }
    }

    /// The terminal of tab `tab_id` whose pseudo-terminal must be set up, if any.
    pub fn terminal_needing_pty(&self, tab_id: &str) -> (res: Option<String>)
        ensures
            match first_match(self.tabs@, tab_id_is(tab_id@)) {
                Some(i) => opt_view(res) == needs_pty_spec(self.tabs@[i]),
                None => res is None,
            },
    {
        match position_of_tab(&self.tabs, tab_id) {
            Some(pos) => tab_terminal_with_pty(&self.tabs[pos], false),
            None => None,
        }
    }

    /// The terminal of tab `tab_id` whose size follows the view, if any.
    pub fn resize_target(&self, tab_id: &str) -> (res: Option<String>)
        ensures
            match first_match(self.tabs@, tab_id_is(tab_id@)) {
                Some(i) => opt_view(res) == resize_target_spec(self.tabs@[i]),
                None => res is None,
            },
    {
        match position_of_tab(&self.tabs, tab_id) {
            Some(pos) => tab_terminal_with_pty(&self.tabs[pos], true),
            None => None,
        }
    }

    /// Records that terminal `terminal_id` of tab `tab_id` has its pseudo-terminal, set up at
    /// `cols` columns and `rows` rows.
    pub fn mark_pty_ready(&mut self, tab_id: &str, terminal_id: &str, cols: u32, rows: u32)
        ensures
            final(self).active_tab_id == old(self).active_tab_id,
            view_flags_unchanged(*old(self), *final(self)),
            match find_terminal(old(self).tabs@, tab_id@, terminal_id@) {
                Some((i, j)) => only_tab_changed(old(self).tabs@, i, final(self).tabs@) && terminal_replaced(
                    old(self).tabs@[i],
                    j,
                    TerminalInstance {
                        pty_initialized: true,
                        last_sent_pty_size: Some((cols, rows)),
                        ..old(self).tabs@[i].terminals@[j]
                    },
                    final(self).tabs@[i],
                ),
                None => final(self).tabs@ == old(self).tabs@,
            },
            session_wf(*old(self)) ==> session_wf(*final(self)),
    {
        match position_of_tab(&self.tabs, tab_id) {
            Some(pos) => match position_of_terminal(&self.tabs[pos].terminals, terminal_id) {
                Some(j) => {
                    let mut x = self.tabs[pos].terminals[j].clone();
                    x.pty_initialized = true;
                    x.last_sent_pty_size = Some((cols, rows));
                    self.replace_terminal(pos, j, x);
                },
                None => {},
            },
            None => {},
        }
    }

    /// Records why the pseudo-terminal of terminal `terminal_id` of tab `tab_id` could not be
    /// opened.
    pub fn set_pty_error(&mut self, tab_id: &str, terminal_id: &str, error: String)
        ensures
            final(self).active_tab_id == old(self).active_tab_id,
            view_flags_unchanged(*old(self), *final(self)),
            match find_terminal(old(self).tabs@, tab_id@, terminal_id@) {
                Some((i, j)) => only_tab_changed(old(self).tabs@, i, final(self).tabs@) && terminal_replaced(
                    old(self).tabs@[i],
                    j,
                    TerminalInstance { pty_error: Some(error), ..old(self).tabs@[i].terminals@[j] },
                    final(self).tabs@[i],
                ),
                None => final(self).tabs@ == old(self).tabs@,
            },
            session_wf(*old(self)) ==> session_wf(*final(self)),
    {
        match position_of_tab(&self.tabs, tab_id) {
            Some(pos) => match position_of_terminal(&self.tabs[pos].terminals, terminal_id) {
                Some(j) => {
                    let mut x = self.tabs[pos].terminals[j].clone();
                    x.pty_error = Some(error);
                    self.replace_terminal(pos, j, x);
                },
                None => {},
            },
            None => {},
        }
    }

    /// The view gave terminal `terminal_id` of tab `tab_id` a size of `cols` by `rows`: returns
    /// whether the remote pseudo-terminal must be resized, which is when that size differs from
    /// the one last sent; the new size is then recorded as sent.
    pub fn note_pty_size(&mut self, tab_id: &str, terminal_id: &str, cols: u32, rows: u32) -> (send: bool)
        ensures
            final(self).active_tab_id == old(self).active_tab_id,
            view_flags_unchanged(*old(self), *final(self)),
            match find_terminal(old(self).tabs@, tab_id@, terminal_id@) {
                Some((i, j)) => if old(self).tabs@[i].terminals@[j].last_sent_pty_size == Some((cols, rows)) {
                    !send && final(self).tabs@ == old(self).tabs@
                } else {
                    send && only_tab_changed(old(self).tabs@, i, final(self).tabs@) && terminal_replaced(
                        old(self).tabs@[i],
                        j,
                        TerminalInstance {
                            last_sent_pty_size: Some((cols, rows)),
                            ..old(self).tabs@[i].terminals@[j]
                        },
                        final(self).tabs@[i],
                    )
                },
                None => !send && final(self).tabs@ == old(self).tabs@,
            },
            session_wf(*old(self)) ==> session_wf(*final(self)),
    {
        match position_of_tab(&self.tabs, tab_id) {
            Some(pos) => match position_of_terminal(&self.tabs[pos].terminals, terminal_id) {
                Some(j) => {
                    let same = match self.tabs[pos].terminals[j].last_sent_pty_size {
                        Some((c, r)) => c == cols && r == rows,
                        None => false,
                    };
                    if same {
                        return false;
                    }
                    let mut x = self.tabs[pos].terminals[j].clone();
                    x.last_sent_pty_size = Some((cols, rows));
                    self.replace_terminal(pos, j, x);
                    true
                },
                None => false,
            },
            None => false,
        }
    }
}

/// Some string of `v` has text `x`.
pub open spec fn expanded_contains(v: Seq<String>, x: Seq<char>) -> bool {
    exists|a: int| 0 <= a < v.len() && (#[trigger] v[a])@ == x
}

/// No two strings of `v` have the same text.
pub open spec fn no_dup_texts(v: Seq<String>) -> bool {
    forall|a: int, b: int| 0 <= a < b < v.len() ==> (#[trigger] v[a])@ != (#[trigger] v[b])@
}

/// The string's text is not `x`.
pub open spec fn not_text(x: Seq<char>) -> spec_fn(String) -> bool {
    |s: String| s@ != x
}

proof fn lemma_no_dup_filter(v: Seq<String>, p: spec_fn(String) -> bool)
    requires
        no_dup_texts(v),
    ensures
        no_dup_texts(v.filter(p)),
    decreases v.len(),
{
    reveal_with_fuel(Seq::filter, 1);
    if v.len() > 0 {
        let init = v.drop_last();
        assert forall|a: int, b: int| 0 <= a < b < init.len() implies (#[trigger] init[a])@ != (#[trigger] init[b])@ by {
            assert(init[a] == v[a]);
            assert(init[b] == v[b]);
        }
        lemma_no_dup_filter(init, p);
        let f = init.filter(p);
        if p(v.last()) {
            assert forall|a: int, b: int| 0 <= a < b < f.push(v.last()).len() implies (#[trigger] f.push(v.last())[a])@ != (#[trigger] f.push(v.last())[b])@ by {
                if b == f.len() {
                    init.lemma_filter_pred(p, a);
                    assert(f.contains(f[a]));
                    init.lemma_filter_contains_rev(p, f[a]);
                    let k = choose|k: int| 0 <= k < init.len() && init[k] == f[a];
                    assert(v[k] == f[a]);
                    assert(v[k]@ != v[v.len() - 1]@);
                }
            }
        }
    }
}

} // verus!
