//! Overview tab (F1): the sortable process table's selection, sort order
//! and detail panel, and the text of its cells.
use vstd::prelude::*;

use crate::model::{DiagSeverity, ProcessState};
use crate::script::strings::{chars_of, push_decimal, push_str, spec_decimal};
use crate::tui::ordering::{is_stable_order, is_stable_text_order, key_texts, stable_order, stable_text_order};
use crate::web::api::{lowercase, to_lowercase};
use crate::tui::diagnostics::DiagTarget;
use crate::tui::findings::{findings_view, Finding, SpecFinding, SpecTarget};
use crate::tui::keys::KeyCode;
use crate::tui::selection::{next_row, previous_row, scroll_to, select_down, select_up};
use crate::tui::units::{format_size, size_text};

verus! {

/// Column by which the process table is sorted.
#[derive(Debug, Clone, Copy, PartialEq, Eq, Structural)]
pub enum SortColumn {
    /// Process ID.
    Pid,
    /// Process name.
    Name,
    /// CPU usage percentage.
    Cpu,
    /// Memory in bytes.
    Mem,
    /// OS process state.
    State,
    /// Health points.
    Hp,
}

impl Default for SortColumn {
    fn default() -> (c: Self)
        ensures
            c == SortColumn::Cpu,
    {
        SortColumn::Cpu
    }
}

/// View of the Overview tab's state.
pub struct OverviewView {
    pub selected_row: Option<usize>,
    pub sort_column: SortColumn,
    pub sort_ascending: bool,
    pub scroll_offset: usize,
    pub detail_pid: Option<u32>,
}

/// The sort column chosen by a key in sort mode, if any.
pub open spec fn sort_key_column(code: KeyCode) -> Option<SortColumn> {
    match code {
        KeyCode::Char(c) => if c == 'p' {
            Some(SortColumn::Pid)
        } else if c == 'n' {
            Some(SortColumn::Name)
        } else if c == 'c' {
            Some(SortColumn::Cpu)
        } else if c == 'm' {
            Some(SortColumn::Mem)
        } else if c == 't' {
            Some(SortColumn::State)
        } else if c == 'h' {
            Some(SortColumn::Hp)
        } else {
            None
        },
        _ => None,
    }
}

/// The state after moving the selection down over `count` rows.
pub open spec fn overview_down(st: OverviewView, count: nat) -> OverviewView {
    if count == 0 {
        st
    } else {
        match select_down(st.selected_row, count) {
            Some(r) => OverviewView { selected_row: Some(r), scroll_offset: scroll_to(r, st.scroll_offset), ..st },
            None => st,
        }
    }
}

/// The state after moving the selection up.
pub open spec fn overview_up(st: OverviewView) -> OverviewView {
    match select_up(st.selected_row) {
        Some(r) => OverviewView { selected_row: Some(r), scroll_offset: scroll_to(r, st.scroll_offset), ..st },
        None => st,
    }
}

/// The state after a navigation key, given the process count and the PID
/// of each row in the current sort order.
pub open spec fn overview_step(st: OverviewView, code: KeyCode, count: nat, pids: Seq<u32>) -> OverviewView {
    if code == KeyCode::Char('j') || code == KeyCode::Down {
        overview_down(st, count)
    } else if code == KeyCode::Char('k') || code == KeyCode::Up {
        overview_up(st)
    } else if code == KeyCode::Enter {
        match st.selected_row {
            Some(i) => if i < pids.len() { OverviewView { detail_pid: Some(pids[i as int]), ..st } } else { st },
            None => st,
        }
    } else if code == KeyCode::Esc {
        OverviewView { detail_pid: None, ..st }
    } else {
        st
    }
}

/// State of the Overview (F1) process table.
#[derive(Debug)]
pub struct OverviewTab {
    selected_row: Option<usize>,
    sort_column: SortColumn,
    sort_ascending: bool,
    scroll_offset: usize,
    detail_pid: Option<u32>,
}

impl View for OverviewTab {
    type V = OverviewView;

    closed spec fn view(&self) -> OverviewView {
        OverviewView {
            selected_row: self.selected_row,
            sort_column: self.sort_column,
            sort_ascending: self.sort_ascending,
            scroll_offset: self.scroll_offset,
            detail_pid: self.detail_pid,
        }
    }
}

impl Default for OverviewTab {
    fn default() -> (t: Self)
        ensures
            t@ == (OverviewView {
                selected_row: None,
                sort_column: SortColumn::Cpu,
                sort_ascending: false,
                scroll_offset: 0,
                detail_pid: None,
            }),
    {
        OverviewTab {
            selected_row: None,
            sort_column: SortColumn::Cpu,
            sort_ascending: false,
            scroll_offset: 0,
            detail_pid: None,
        }
    }
}

impl OverviewTab {
    /// The state of a new table: no selection, sorted by CPU descending.
    pub open spec fn default_view() -> OverviewView {
        OverviewView {
            selected_row: None,
            sort_column: SortColumn::Cpu,
            sort_ascending: false,
            scroll_offset: 0,
            detail_pid: None,
        }
    }

    /// Current sort column.
    pub fn sort_column(&self) -> (c: SortColumn)
        ensures
            c == self@.sort_column,
    {
        self.sort_column
    }

    /// Current sort direction: `true` for ascending.
    pub fn sort_ascending(&self) -> (b: bool)
        ensures
            b == self@.sort_ascending,
    {
        self.sort_ascending
    }

    /// The selected row, if any.
    pub fn selected_row(&self) -> (r: Option<usize>)
        ensures
            r == self@.selected_row,
    {
        self.selected_row
    }

    /// The PID whose detail panel is open, if any.
    pub fn detail_pid(&self) -> (p: Option<u32>)
        ensures
            p == self@.detail_pid,
    {
        self.detail_pid
    }

    /// Rows scrolled past the top of the visible area.
    pub fn scroll_offset(&self) -> (n: usize)
        ensures
            n == self@.scroll_offset,
    {
        self.scroll_offset
    }

    /// Selects `row`, or nothing.
    pub fn select_row(&mut self, row: Option<usize>)
        ensures
            final(self)@ == (OverviewView { selected_row: row, ..old(self)@ }),
    {
        self.selected_row = row;
    }

    /// Opens the detail panel for `pid`.
    pub fn set_detail_pid(&mut self, pid: u32)
        ensures
            final(self)@ == (OverviewView { detail_pid: Some(pid), ..old(self)@ }),
    {
        self.detail_pid = Some(pid);
    }

    /// Handles a navigation key. `sorted_pids` gives the PID of each row in
    /// the current sort order; Enter opens the selected row's detail panel
    /// and Esc closes it.
    pub fn handle_key(&mut self, code: KeyCode, process_count: usize, sorted_pids: &[u32])
        ensures
            final(self)@ == overview_step(old(self)@, code, process_count as nat, sorted_pids@),
    {
        match code {
            KeyCode::Char('j') | KeyCode::Down => self.move_selection_down(process_count),
            KeyCode::Char('k') | KeyCode::Up => self.move_selection_up(),
            KeyCode::Enter => {
                if let Some(idx) = self.selected_row {
                    if idx < sorted_pids.len() {
                        self.detail_pid = Some(sorted_pids[idx]);
                    }
                }
            },
            KeyCode::Esc => {
                self.detail_pid = None;
            },
            _ => {},
        }
    }

    /// Handles a key in sort mode. A column key sorts by that column,
    /// descending, or reverses the direction if it is already the sort
    /// column. Returns whether the key chose a column.
    pub fn handle_sort_key(&mut self, code: KeyCode) -> (used: bool)
        ensures
            used == sort_key_column(code) is Some,
            match sort_key_column(code) {
                Some(col) => if col == old(self)@.sort_column {
                    final(self)@ == (OverviewView { sort_ascending: !old(self)@.sort_ascending, ..old(self)@ })
                } else {
                    final(self)@ == (OverviewView { sort_column: col, sort_ascending: false, ..old(self)@ })
                },
                None => final(self)@ == old(self)@,
            },
    {
        let col = match code {
            KeyCode::Char('p') => SortColumn::Pid,
            KeyCode::Char('n') => SortColumn::Name,
            KeyCode::Char('c') => SortColumn::Cpu,
            KeyCode::Char('m') => SortColumn::Mem,
            KeyCode::Char('t') => SortColumn::State,
            KeyCode::Char('h') => SortColumn::Hp,
            _ => return false,
        };
        if self.sort_column == col {
            self.sort_ascending = !self.sort_ascending;
        } else {
            self.sort_column = col;
            self.sort_ascending = false;
        }
        true
    }

    /// Moves the selection down over `process_count` rows, wrapping to the first.
    pub fn move_selection_down(&mut self, process_count: usize)
        ensures
            final(self)@ == overview_down(old(self)@, process_count as nat),
    {
        if process_count == 0 {
            return;
        }
        let next = next_row(self.selected_row, process_count);
        self.selected_row = Some(next);
        self.ensure_visible(next);
    }

    /// Moves the selection up, stopping at the first row.
    pub fn move_selection_up(&mut self)
        ensures
            final(self)@ == overview_up(old(self)@),
    {
        let next = previous_row(self.selected_row);
        self.selected_row = Some(next);
        self.ensure_visible(next);
    }

    /// Scrolls up so that `row` is not above the visible window.
    pub fn ensure_visible(&mut self, row: usize)
        ensures
            final(self)@ == (OverviewView { scroll_offset: scroll_to(row, old(self)@.scroll_offset), ..old(self)@ }),
    {
        if row < self.scroll_offset {
            self.scroll_offset = row;
        }
    }
}

/// A memory size, as in `500 B` or `2.0 KB`.
pub open spec fn mem_text(bytes: u64) -> Seq<char> {
    size_text(bytes as nat, Seq::empty())
}

/// Formats a byte count with the largest unit it reaches.
pub fn format_mem(bytes: u64) -> (s: String)
    ensures
        s@ == mem_text(bytes),
{
    let s = format_size(bytes, "");
    proof {
        reveal_strlit("");
    }
    s
}

/// Short label of a process state.
pub open spec fn state_label(state: ProcessState) -> Seq<char> {
    match state {
        ProcessState::Running => "Run"@,
        ProcessState::Sleeping => "Sleep"@,
        ProcessState::Zombie => "Zombie"@,
        ProcessState::Stopped => "Stop"@,
    }
}

/// Short label of a process state.
pub fn format_state(state: ProcessState) -> (s: String)
    ensures
        s@ == state_label(state),
{
    match state {
        ProcessState::Running => "Run".to_owned(),
        ProcessState::Sleeping => "Sleep".to_owned(),
        ProcessState::Zombie => "Zombie".to_owned(),
        ProcessState::Stopped => "Stop".to_owned(),
    }
}

/// Rank of a severity: Info below Warning below Critical.
pub open spec fn severity_rank(s: DiagSeverity) -> int {
    match s {
        DiagSeverity::Info => 0,
        DiagSeverity::Warning => 1,
        DiagSeverity::Critical => 2,
    }
}

fn rank_of(s: DiagSeverity) -> (r: u8)
    ensures
        r == severity_rank(s),
{
    match s {
        DiagSeverity::Info => 0,
        DiagSeverity::Warning => 1,
        DiagSeverity::Critical => 2,
    }
}

/// Whether a finding is about process `pid`.
pub open spec fn about_pid(f: SpecFinding, pid: u32) -> bool {
    f.target matches SpecTarget::Process { pid: p, .. } && p == pid
}

/// Index of the most severe finding about process `pid`; among equally
/// severe ones, the last.
pub open spec fn most_severe_for(s: Seq<SpecFinding>, pid: u32) -> Option<int>
    decreases s.len(),
{
    if s.len() == 0 {
        None
    } else {
        let prev = most_severe_for(s.drop_last(), pid);
        if about_pid(s.last(), pid) && match prev {
            None => true,
            Some(i) => severity_rank(s[i].severity) <= severity_rank(s.last().severity),
        } {
            Some(s.len() - 1)
        } else {
            prev
        }
    }
}

/// Icon of the Diag column for a severity.
pub open spec fn diag_icon(s: DiagSeverity) -> char {
    match s {
        DiagSeverity::Critical => '\u{25a0}',
        DiagSeverity::Warning => '\u{25a0}',
        DiagSeverity::Info => '\u{25cf}',
    }
}

/// A summary cut to 15 characters and an ellipsis when longer.
pub open spec fn short_summary(summary: Seq<char>) -> Seq<char> {
    if summary.len() > 15 {
        summary.take(15).push('\u{2026}')
    } else {
        summary
    }
}

/// Text of the Diag column for process `pid`: the icon and short summary of
/// its most severe finding, or nothing.
pub open spec fn diag_cell_text(s: Seq<SpecFinding>, pid: u32) -> Seq<char> {
    match most_severe_for(s, pid) {
        None => Seq::empty(),
        Some(i) => seq![diag_icon(s[i].severity), ' '] + short_summary(s[i].summary),
    }
}

proof fn lemma_most_severe_in_range(s: Seq<SpecFinding>, pid: u32)
    ensures
        most_severe_for(s, pid) matches Some(i) ==> 0 <= i < s.len() && about_pid(s[i], pid),
    decreases s.len(),
{
    if s.len() > 0 {
        lemma_most_severe_in_range(s.drop_last(), pid);
    }
}

/// The Diag column of process `pid`: its text, and the severity that picks
/// its color (`None` when no finding is about `pid`).
pub fn format_diag_cell(pid: u32, findings: &[Finding]) -> (r: (String, Option<DiagSeverity>))
    ensures
        r.0@ == diag_cell_text(findings_view(findings@), pid),
        r.1 == match most_severe_for(findings_view(findings@), pid) {
            Some(i) => Some(findings@[i].severity),
            None => None::<DiagSeverity>,
        },
{
    let ghost s = findings_view(findings@);
    let mut best: Option<usize> = None;
    let mut i: usize = 0;
    while i < findings.len()
        invariant
            i <= findings.len(),
            s == findings_view(findings@),
            match most_severe_for(s.take(i as int), pid) {
                Some(k) => best matches Some(b) && b == k,
                None => best is None,
            },
        decreases findings.len() - i,
    {
        proof {
            assert(s.take(i as int + 1).drop_last() =~= s.take(i as int));
            lemma_most_severe_in_range(s.take(i as int), pid);
        }
        let matches_pid = match &findings[i].target {
            DiagTarget::Process { pid: p, .. } => *p == pid,
            _ => false,
        };
        if matches_pid {
            let better = match best {
                None => true,
                Some(b) => rank_of(findings[b].severity) <= rank_of(findings[i].severity),
            };
            if better {
                best = Some(i);
            }
        }
        i = i + 1;
    }
    proof {
        assert(s.take(findings.len() as int) =~= s);
        lemma_most_severe_in_range(s, pid);
    }
    match best {
        None => {
            let t = String::new();
            (t, None)
        },
        Some(b) => {
            let f = &findings[b];
            let mut text = String::new();
            text.push(match f.severity {
                DiagSeverity::Critical => '\u{25a0}',
                DiagSeverity::Warning => '\u{25a0}',
                DiagSeverity::Info => '\u{25cf}',
            });
            text.push(' ');
            let chars = chars_of(f.summary.as_str());
            let n = if chars.len() > 15 { 15 } else { chars.len() };
            let mut k: usize = 0;
            while k < n
                invariant
                    n <= chars.len(),
                    k <= n,
                    text@ == seq![diag_icon(f.severity), ' '] + chars@.take(k as int),
                decreases n - k,
            {
                text.push(chars[k]);
                proof {
                    assert(chars@.take(k as int + 1) =~= chars@.take(k as int).push(chars@[k as int]));
                }
                k = k + 1;
            }
            if chars.len() > 15 {
                text.push('\u{2026}');
            } else {
                assert(chars@.take(n as int) =~= chars@);
            }
            (text, Some(f.severity))
        },
    }
}

// ── The text of the process table ──────────────────────────────────

/// One process row as the table lists it. The CPU share and health are
/// floating-point values, printed by the caller (`{:.1}%` and `{:.0}`).
#[derive(Debug)]
pub struct ProcessRow {
    pub pid: u32,
    pub name: String,
    pub cpu_text: String,
    pub mem_bytes: u64,
    pub state: ProcessState,
    pub hp_text: String,
}

/// The views of a list of strings.
pub open spec fn texts_of(v: Seq<String>) -> Seq<Seq<char>> {
    v.map_values(|x: String| x@)
}

/// The marker after a column's heading: an arrow on the sorted column
/// (up when ascending), nothing on the others.
pub open spec fn sort_marker(col: SortColumn, sorted: SortColumn, asc: bool) -> Seq<char> {
    if col == sorted {
        if asc {
            " \u{25b2}"@
        } else {
            " \u{25bc}"@
        }
    } else {
        Seq::empty()
    }
}

/// The headings of the process table.
pub open spec fn header_text(sorted: SortColumn, asc: bool) -> Seq<Seq<char>> {
    seq![
        "PID"@ + sort_marker(SortColumn::Pid, sorted, asc),
        "Name"@ + sort_marker(SortColumn::Name, sorted, asc),
        "CPU%"@ + sort_marker(SortColumn::Cpu, sorted, asc),
        "MEM"@ + sort_marker(SortColumn::Mem, sorted, asc),
        "State"@ + sort_marker(SortColumn::State, sorted, asc),
        "HP"@ + sort_marker(SortColumn::Hp, sorted, asc),
        "Diag"@,
        "Pred"@,
    ]
}

/// The title of the process table.
pub open spec fn overview_title_text(total: nat) -> Seq<char> {
    "Overview [F1] \u{2014} "@ + spec_decimal(total) + " processes"@
}

/// The cells of a process row: PID, name, CPU, memory, state, health, the
/// Diag column and the prediction mark.
pub open spec fn row_text(r: ProcessRow, findings: Seq<SpecFinding>, predicted: bool) -> Seq<Seq<char>> {
    seq![
        spec_decimal(r.pid as nat),
        r.name@,
        r.cpu_text@,
        mem_text(r.mem_bytes),
        state_label(r.state),
        r.hp_text@,
        diag_cell_text(findings, r.pid),
        if predicted {
            "\u{26a0}"@
        } else {
            Seq::empty()
        },
    ]
}

/// The first row shown: the scroll offset, kept on the last row.
pub open spec fn first_shown(scroll: nat, total: nat) -> nat {
    if total == 0 {
        0
    } else if scroll < total - 1 {
        scroll
    } else {
        (total - 1) as nat
    }
}

/// The text of the process table: title, headings, and the rows from the
/// first one shown on.
pub struct TableText {
    pub title: String,
    pub header: Vec<String>,
    pub rows: Vec<Vec<String>>,
}

fn text_of(s: &str) -> (r: String)
    ensures
        r@ == s@,
{
    let mut r = String::new();
    push_str(&mut r, s);
    r
}

fn heading(label: &str, col: SortColumn, sorted: SortColumn, asc: bool) -> (s: String)
    ensures
        s@ == label@ + sort_marker(col, sorted, asc),
{
    let mut s = text_of(label);
    if col == sorted {
        if asc {
            push_str(&mut s, " \u{25b2}");
        } else {
            push_str(&mut s, " \u{25bc}");
        }
    }
    proof {
        reveal_strlit("");
    }
    assert(s@ =~= label@ + sort_marker(col, sorted, asc));
    s
}

/// The headings of the process table, the sorted one marked.
pub fn overview_header(sorted: SortColumn, asc: bool) -> (v: Vec<String>)
    ensures
        texts_of(v@) == header_text(sorted, asc),
{
    let v = vec![
        heading("PID", SortColumn::Pid, sorted, asc),
        heading("Name", SortColumn::Name, sorted, asc),
        heading("CPU%", SortColumn::Cpu, sorted, asc),
        heading("MEM", SortColumn::Mem, sorted, asc),
        heading("State", SortColumn::State, sorted, asc),
        heading("HP", SortColumn::Hp, sorted, asc),
        text_of("Diag"),
        text_of("Pred"),
    ];
    assert(texts_of(v@) =~= header_text(sorted, asc));
    v
}

/// The title of the process table.
pub fn overview_title(total: usize) -> (s: String)
    ensures
        s@ == overview_title_text(total as nat),
{
    let mut s = text_of("Overview [F1] \u{2014} ");
    push_decimal(&mut s, total as u64);
    push_str(&mut s, " processes");
    s
}

/// The cells of a process row.
pub fn row_cells(r: &ProcessRow, findings: &[Finding], predicted: bool) -> (v: Vec<String>)
    ensures
        texts_of(v@) == row_text(*r, findings_view(findings@), predicted),
{
    let mut pid = String::new();
    push_decimal(&mut pid, r.pid as u64);
    let (diag, _) = format_diag_cell(r.pid, findings);
    let pred = if predicted { text_of("\u{26a0}") } else { String::new() };
    let v = vec![
        pid,
        text_of(r.name.as_str()),
        text_of(r.cpu_text.as_str()),
        format_mem(r.mem_bytes),
        format_state(r.state),
        text_of(r.hp_text.as_str()),
        diag,
        pred,
    ];
    proof {
        reveal_strlit("");
    }
    assert(texts_of(v@) =~= row_text(*r, findings_view(findings@), predicted));
    v
}

/// Whether `pid` is among `pids`.
fn listed(pids: &[u32], pid: u32) -> (b: bool)
    ensures
        b == pids@.contains(pid),
{
    let mut i: usize = 0;
    while i < pids.len()
        invariant
            i <= pids@.len(),
            forall|k: int| 0 <= k < i ==> pids@[k] != pid,
        decreases pids@.len() - i,
    {
        if pids[i] == pid {
            assert(pids@[i as int] == pid);
            return true;
        }
        i = i + 1;
    }
    false
}

/// The text of the process table for `rows` in their sorted order,
/// sorted by `sorted` (ascending when `asc`), scrolled to `scroll`, with
/// the findings for the Diag column and the PIDs that carry a prediction.
pub fn overview_rows(
    rows: &[ProcessRow],
    sorted: SortColumn,
    asc: bool,
    scroll: usize,
    findings: &[Finding],
    predicted: &[u32],
) -> (t: TableText)
    ensures
        t.title@ == overview_title_text(rows@.len()),
        texts_of(t.header@) == header_text(sorted, asc),
        t.rows@.len() == rows@.len() - first_shown(scroll as nat, rows@.len()),
        forall|k: int|
            0 <= k < t.rows@.len() ==> texts_of(#[trigger] t.rows@[k]@) == row_text(
                rows@[first_shown(scroll as nat, rows@.len()) + k],
                findings_view(findings@),
                predicted@.contains(rows@[first_shown(scroll as nat, rows@.len()) + k].pid),
            ),
{
    let total = rows.len();
    let first = if total == 0 {
        0
    } else if scroll < total - 1 {
        scroll
    } else {
        total - 1
    };
    let mut out: Vec<Vec<String>> = Vec::new();
    let mut i: usize = first;
    while i < total
        invariant
            total == rows@.len(),
            first == first_shown(scroll as nat, rows@.len()),
            first <= i <= total || (total == 0 && i == 0),
            out@.len() == i - first,
            forall|k: int|
                0 <= k < out@.len() ==> texts_of(#[trigger] out@[k]@) == row_text(
                    rows@[first + k],
                    findings_view(findings@),
                    predicted@.contains(rows@[first + k].pid),
                ),
        decreases total - i,
    {
        let p = listed(predicted, rows[i].pid);
        out.push(row_cells(&rows[i], findings, p));
        i = i + 1;
    }
    TableText { title: overview_title(total), header: overview_header(sorted, asc), rows: out }
}

// ── The order of the process table ─────────────────────────────────

/// PIDs of the rows, as sort keys.
pub open spec fn pid_keys(rows: Seq<ProcessRow>) -> Seq<u64> {
    rows.map_values(|r: ProcessRow| r.pid as u64)
}

/// Lower-cased names of the rows, as sort keys.
pub open spec fn name_keys(rows: Seq<ProcessRow>) -> Seq<Seq<char>> {
    rows.map_values(|r: ProcessRow| lowercase(r.name@))
}

/// State labels of the rows, as sort keys.
pub open spec fn state_keys(rows: Seq<ProcessRow>) -> Seq<Seq<char>> {
    rows.map_values(|r: ProcessRow| state_label(r.state))
}

/// `order` is the order of the process table sorted by column `col`
/// (ascending when `asc`), rows that compare equal in their given order:
/// by PID, by lower-cased name, by state label as text, or, for CPU,
/// memory and health, by `value_keys` (integers ordered as the rows' shown
/// values are).
pub open spec fn is_table_order(rows: Seq<ProcessRow>, col: SortColumn, asc: bool, value_keys: Seq<u64>, order: Seq<usize>) -> bool {
    match col {
        SortColumn::Pid => is_stable_order(pid_keys(rows), asc, order),
        SortColumn::Name => is_stable_text_order(name_keys(rows), asc, order),
        SortColumn::State => is_stable_text_order(state_keys(rows), asc, order),
        _ => is_stable_order(value_keys, asc, order),
    }
}

/// The order of the process table's rows. `value_keys` orders the rows by
/// the sorted column's shown value when that is CPU, memory or health,
/// values that are parsed from floating-point text by the caller.
pub fn process_order(rows: &[ProcessRow], col: SortColumn, asc: bool, value_keys: &[u64]) -> (order: Vec<usize>)
    requires
        value_keys@.len() == rows@.len(),
    ensures
        is_table_order(rows@, col, asc, value_keys@, order@),
{
    match col {
        SortColumn::Pid => {
            let mut keys: Vec<u64> = Vec::new();
            let mut i: usize = 0;
            while i < rows.len()
                invariant
                    i <= rows@.len(),
                    keys@ == pid_keys(rows@).take(i as int),
                decreases rows@.len() - i,
            {
                keys.push(rows[i].pid as u64);
                assert(keys@ =~= pid_keys(rows@).take(i as int + 1));
                i = i + 1;
            }
            assert(pid_keys(rows@).take(rows@.len() as int) =~= pid_keys(rows@));
            stable_order(keys.as_slice(), asc)
        },
        SortColumn::Name => {
            let mut keys: Vec<String> = Vec::new();
            let mut i: usize = 0;
            while i < rows.len()
                invariant
                    i <= rows@.len(),
                    key_texts(keys@) == name_keys(rows@).take(i as int),
                decreases rows@.len() - i,
            {
                let ghost before = key_texts(keys@);
                keys.push(to_lowercase(rows[i].name.as_str()));
                assert(key_texts(keys@) =~= before.push(lowercase(rows@[i as int].name@)));
                assert(key_texts(keys@) =~= name_keys(rows@).take(i as int + 1));
                i = i + 1;
            }
            assert(name_keys(rows@).take(rows@.len() as int) =~= name_keys(rows@));
            stable_text_order(keys.as_slice(), asc)
        },
        SortColumn::State => {
            let mut keys: Vec<String> = Vec::new();
            let mut i: usize = 0;
            while i < rows.len()
                invariant
                    i <= rows@.len(),
                    key_texts(keys@) == state_keys(rows@).take(i as int),
                decreases rows@.len() - i,
            {
                let ghost before = key_texts(keys@);
                keys.push(format_state(rows[i].state));
                assert(key_texts(keys@) =~= before.push(state_label(rows@[i as int].state)));
                assert(key_texts(keys@) =~= state_keys(rows@).take(i as int + 1));
                i = i + 1;
            }
            assert(state_keys(rows@).take(rows@.len() as int) =~= state_keys(rows@));
            stable_text_order(keys.as_slice(), asc)
        },
        _ => stable_order(value_keys, asc),
    }
}

} // verus!
