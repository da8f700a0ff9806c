//! The tabs of the terminal interface.
use vstd::prelude::*;

use crate::tui::keys::{KeyCode, KeyEvent};
use crate::tui::overview::{sort_key_column, overview_step, OverviewTab, OverviewView};

verus! {

/// Active tab in the terminal interface.
#[derive(Debug, Clone, Copy, PartialEq, Eq, Structural)]
pub enum Tab {
    /// F1: process table with sparklines.
    Overview,
    /// F2: 3D process graph viewport.
    World3D,
    /// F3: network connection list.
    Network,
    /// F4: AI action approval panel.
    Arbiter,
    /// F5: loaded rules.
    Rules,
}

/// The label of a tab in the tab bar.
pub open spec fn tab_label(t: Tab) -> Seq<char> {
    match t {
        Tab::Overview => "Overview [F1]"@,
        Tab::World3D => "World 3D [F2]"@,
        Tab::Network => "Network [F3]"@,
        Tab::Arbiter => "Arbiter [F4]"@,
        Tab::Rules => "Rules [F5]"@,
    }
}

impl Default for Tab {
    fn default() -> (t: Self)
        ensures
            t == Tab::Overview,
    {
        Tab::Overview
    }
}

impl Tab {
    /// All tabs in display order.
    pub const ALL: [Tab; 5] = [Tab::Overview, Tab::World3D, Tab::Network, Tab::Arbiter, Tab::Rules];

    /// Human-readable label for the tab bar.
    pub fn label(self) -> (s: &'static str)
        ensures
            s@ == tab_label(self),
    {
        match self {
            Tab::Overview => "Overview [F1]",
            Tab::World3D => "World 3D [F2]",
            Tab::Network => "Network [F3]",
            Tab::Arbiter => "Arbiter [F4]",
            Tab::Rules => "Rules [F5]",
        }
    }
}

/// No tab label is empty.
pub proof fn lemma_labels_not_empty(t: Tab)
    ensures
        tab_label(t).len() > 0,
{
    reveal_strlit("Overview [F1]");
    reveal_strlit("World 3D [F2]");
    reveal_strlit("Network [F3]");
    reveal_strlit("Arbiter [F4]");
    reveal_strlit("Rules [F5]");
}

/// View of the application's key-handling state.
pub struct AppView {
    pub current_tab: Tab,
    pub should_quit: bool,
    pub sort_pending: bool,
    pub overview: OverviewView,
}

/// The tab that function key `n` opens from the application loop.
pub open spec fn app_tab_key(n: u8) -> Option<Tab> {
    if n == 1 {
        Some(Tab::Overview)
    } else if n == 2 {
        Some(Tab::World3D)
    } else if n == 3 {
        Some(Tab::Network)
    } else if n == 4 {
        Some(Tab::Arbiter)
    } else if n == 5 {
        Some(Tab::Rules)
    } else {
        None
    }
}

/// What a key does once a pending sort selection has been dealt with.
pub open spec fn app_dispatch(st: AppView, key: KeyEvent, count: nat, pids: Seq<u32>) -> AppView {
    match key.code {
        KeyCode::Char(c) => if c == 'q' || (c == 'c' && key.control) {
            AppView { should_quit: true, ..st }
        } else if c == 's' && st.current_tab == Tab::Overview {
            AppView { sort_pending: true, ..st }
        } else if st.current_tab == Tab::Overview {
            AppView { overview: overview_step(st.overview, key.code, count, pids), ..st }
        } else {
            st
        },
        KeyCode::F(n) => match app_tab_key(n) {
            Some(t) => AppView { current_tab: t, ..st },
            None => if st.current_tab == Tab::Overview {
                AppView { overview: overview_step(st.overview, key.code, count, pids), ..st }
            } else {
                st
            },
        },
        _ => if st.current_tab == Tab::Overview {
            AppView { overview: overview_step(st.overview, key.code, count, pids), ..st }
        } else {
            st
        },
    }
}

/// The state after `key`, given the process count and each row's PID in
/// the Overview's sort order. A key pressed while a sort selection is
/// pending goes first to the Overview's sort handling.
pub open spec fn app_step(st: AppView, key: KeyEvent, count: nat, pids: Seq<u32>) -> AppView {
    if st.sort_pending {
        let st1 = AppView { sort_pending: false, ..st };
        if st.current_tab == Tab::Overview && sort_key_column(key.code) is Some {
            let col = sort_key_column(key.code)->0;
            AppView {
                overview: if col == st.overview.sort_column {
                    OverviewView { sort_ascending: !st.overview.sort_ascending, ..st.overview }
                } else {
                    OverviewView { sort_column: col, sort_ascending: false, ..st.overview }
                },
                ..st1
            }
        } else {
            app_dispatch(st1, key, count, pids)
        }
    } else {
        app_dispatch(st, key, count, pids)
    }
}

/// The application's key-handling state: active tab, quit flag, pending
/// sort selection and the Overview table.
pub struct AppState {
    current_tab: Tab,
    should_quit: bool,
    sort_pending: bool,
    overview: OverviewTab,
}

impl View for AppState {
    type V = AppView;

    closed spec fn view(&self) -> AppView {
        AppView {
            current_tab: self.current_tab,
            should_quit: self.should_quit,
            sort_pending: self.sort_pending,
            overview: self.overview@,
        }
    }
}

impl AppState {
    /// Starts on the Overview tab, not quitting, with the default table.
    pub fn new() -> (a: Self)
        ensures
            a@.current_tab == Tab::Overview,
            !a@.should_quit,
            !a@.sort_pending,
            a@.overview == OverviewTab::default_view(),
    {
        AppState {
            current_tab: Tab::Overview,
            should_quit: false,
            sort_pending: false,
            overview: OverviewTab::default(),
        }
    }

    /// The active tab.
    pub fn current_tab(&self) -> (t: Tab)
        ensures
            t == self@.current_tab,
    {
        self.current_tab
    }

    /// Whether the application should exit.
    pub fn should_quit(&self) -> (b: bool)
        ensures
            b == self@.should_quit,
    {
        self.should_quit
    }

    /// Whether the next key chooses a sort column.
    pub fn sort_pending(&self) -> (b: bool)
        ensures
            b == self@.sort_pending,
    {
        self.sort_pending
    }

    /// The Overview table's state.
    pub fn overview(&self) -> (o: &OverviewTab)
        ensures
            o@ == self@.overview,
    {
        &self.overview
    }

    /// Dispatches a key press: q or Ctrl-C quit, F1 to F5 switch tabs, s
    /// on the Overview starts a sort selection, and other keys on the
    /// Overview go to its table, over `process_count` processes whose PIDs
    /// in sort order are `sorted_pids`.
    pub fn handle_key(&mut self, key: KeyEvent, process_count: usize, sorted_pids: &[u32])
        ensures
            final(self)@ == app_step(old(self)@, key, process_count as nat, sorted_pids@),
            key.code == KeyCode::F(5) ==> final(self)@.current_tab == Tab::Rules,
    {
        if self.sort_pending {
            self.sort_pending = false;
            if self.current_tab == Tab::Overview {
                if self.overview.handle_sort_key(key.code) {
                    return;
                }
            }
        }
        let on_overview = self.current_tab == Tab::Overview;
        match key.code {
            KeyCode::Char(c) => {
                if c == 'q' || (c == 'c' && key.control) {
                    self.should_quit = true;
                } else if c == 's' && on_overview {
                    self.sort_pending = true;
                } else if on_overview {
                    self.overview.handle_key(key.code, process_count, sorted_pids);
                }
            },
            KeyCode::F(1) => self.current_tab = Tab::Overview,
            KeyCode::F(2) => self.current_tab = Tab::World3D,
            KeyCode::F(3) => self.current_tab = Tab::Network,
            KeyCode::F(4) => self.current_tab = Tab::Arbiter,
            KeyCode::F(5) => self.current_tab = Tab::Rules,
            _ => {
                if on_overview {
                    self.overview.handle_key(key.code, process_count, sorted_pids);
                }
            },
        }
    }
}

} // verus!
