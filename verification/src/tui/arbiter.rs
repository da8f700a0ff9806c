//! Arbiter tab: the queue of agent actions awaiting the operator's approval,
//! and its resolved history.
use vstd::prelude::*;

use crate::model::{AgentAction, SpecAgentAction};
use crate::script::strings::{copy_string, push_decimal, push_str, spec_decimal};
use crate::tui::keys::KeyCode;

verus! {

/// Most resolved entries kept in the history.
pub const HISTORY_CAPACITY: usize = 100;

/// Status of an entry in the queue.
#[derive(Debug, Clone, Copy, PartialEq, Eq, Structural)]
pub enum ActionStatus {
    /// Waiting for a decision.
    Pending,
    /// Approved by the operator.
    Approved,
    /// Denied by the operator.
    Denied,
}

/// Result of a key press in the Arbiter tab.
#[derive(Debug, Clone, Copy, PartialEq, Eq, Structural)]
pub enum ArbiterKeyResult {
    /// The tab used the key.
    Consumed,
    /// The tab did not use the key.
    NotConsumed,
    /// Open the process detail view for this PID.
    InspectPid(u32),
}

/// One action in the queue. Times are milliseconds of a monotonic clock.
#[derive(Debug)]
pub struct ArbiterEntry {
    pub source: String,
    pub action: AgentAction,
    pub pid: u32,
    pub name: String,
    pub created_at: u64,
    pub status: ActionStatus,
    pub resolved_at: Option<u64>,
}

/// View of an [`ArbiterEntry`].
pub struct SpecEntry {
    pub source: Seq<char>,
    pub action: SpecAgentAction,
    pub pid: u32,
    pub name: Seq<char>,
    pub created_at: u64,
    pub status: ActionStatus,
    pub resolved_at: Option<u64>,
}

impl View for ArbiterEntry {
    type V = SpecEntry;

    open spec fn view(&self) -> SpecEntry {
        SpecEntry {
            source: self.source@,
            action: self.action@,
            pid: self.pid,
            name: self.name@,
            created_at: self.created_at,
            status: self.status,
            resolved_at: self.resolved_at,
        }
    }
}

/// The views of a list of strings.
pub open spec fn strings_seq(v: Seq<String>) -> Seq<Seq<char>> {
    v.map_values(|x: String| x@)
}

/// The views of a list of entries.
pub open spec fn entries_view(v: Seq<ArbiterEntry>) -> Seq<SpecEntry> {
    v.map_values(|e: ArbiterEntry| e@)
}

/// The PID and name shown for an action: its PID (0 if none) and its
/// service name or command (empty if none).
pub open spec fn action_target(a: SpecAgentAction) -> (u32, Seq<char>) {
    match a {
        SpecAgentAction::KillProcess { pid } => (pid, Seq::empty()),
        SpecAgentAction::RestartService { name } => (0, name),
        SpecAgentAction::Inspect { pid } => (pid, Seq::empty()),
        SpecAgentAction::CustomScript { command } => (0, command),
    }
}

/// Number of entries of `s` with status `st`.
pub open spec fn count_status(s: Seq<SpecEntry>, st: ActionStatus) -> nat
    decreases s.len(),
{
    if s.len() == 0 {
        0
    } else {
        count_status(s.drop_last(), st) + if s.last().status == st { 1nat } else { 0nat }
    }
}

/// Number of resolved (approved or denied) entries of `s`.
pub open spec fn resolved_count(s: Seq<SpecEntry>) -> nat {
    count_status(s, ActionStatus::Approved) + count_status(s, ActionStatus::Denied)
}

/// Index in `s`, from `i` on, of pending entry number `k` counted from `i`.
pub open spec fn find_pending(s: Seq<SpecEntry>, i: int, k: nat) -> Option<int>
    decreases s.len() - i,
{
    if i < 0 || i >= s.len() {
        None
    } else if s[i].status == ActionStatus::Pending {
        if k == 0 {
            Some(i)
        } else {
            find_pending(s, i + 1, (k - 1) as nat)
        }
    } else {
        find_pending(s, i + 1, k)
    }
}

/// Index in `s` of pending entry number `k` (from 0), if there is one.
pub open spec fn nth_pending(s: Seq<SpecEntry>, k: nat) -> Option<int> {
    find_pending(s, 0, k)
}

/// `s` from index `i` on, without its first `k` resolved entries.
pub open spec fn drop_resolved(s: Seq<SpecEntry>, i: int, k: nat) -> Seq<SpecEntry>
    decreases s.len() - i,
{
    if i < 0 || i >= s.len() {
        Seq::empty()
    } else if s[i].status != ActionStatus::Pending && k > 0 {
        drop_resolved(s, i + 1, (k - 1) as nat)
    } else {
        seq![s[i]] + drop_resolved(s, i + 1, k)
    }
}

/// `s` with its oldest resolved entries removed until at most
/// [`HISTORY_CAPACITY`] remain.
pub open spec fn trim_history(s: Seq<SpecEntry>) -> Seq<SpecEntry> {
    if resolved_count(s) > HISTORY_CAPACITY {
        drop_resolved(s, 0, (resolved_count(s) - HISTORY_CAPACITY) as nat)
    } else {
        s
    }
}

/// `s` with pending entry number `k` given status `st` at time `now`, then
/// trimmed; when there is no such entry, only trimmed.
pub open spec fn resolve(s: Seq<SpecEntry>, k: nat, st: ActionStatus, now: u64) -> Seq<SpecEntry> {
    match nth_pending(s, k) {
        Some(i) => trim_history(s.update(i, SpecEntry { status: st, resolved_at: Some(now), ..s[i] })),
        None => trim_history(s),
    }
}

/// The queue of agent actions, oldest first.
pub struct ArbiterQueue {
    entries: Vec<ArbiterEntry>,
}

impl View for ArbiterQueue {
    type V = Seq<SpecEntry>;

    closed spec fn view(&self) -> Seq<SpecEntry> {
        entries_view(self.entries@)
    }
}

impl Default for ArbiterQueue {
    fn default() -> (q: Self)
        ensures
            q@ == Seq::<SpecEntry>::empty(),
    {
        let q = ArbiterQueue { entries: Vec::new() };
        assert(q@ =~= Seq::<SpecEntry>::empty());
        q
    }
}

/// Counting over a prefix one entry longer.
proof fn lemma_count_step(s: Seq<SpecEntry>, i: int, st: ActionStatus)
    requires
        0 <= i < s.len(),
    ensures
        count_status(s.take(i + 1), st) == count_status(s.take(i), st) + if s[i].status == st {
            1nat
        } else {
            0nat
        },
{
    assert(s.take(i + 1).drop_last() =~= s.take(i));
}

/// Pending entries and resolved entries make up the whole queue.
pub proof fn lemma_counts_partition(s: Seq<SpecEntry>)
    ensures
        count_status(s, ActionStatus::Pending) + resolved_count(s) == s.len(),
    decreases s.len(),
{
    if s.len() > 0 {
        lemma_counts_partition(s.drop_last());
    }
}

/// Dropping resolved entries keeps every pending entry and removes exactly
/// as many resolved ones as asked, or all of them.
proof fn lemma_drop_resolved_counts(s: Seq<SpecEntry>, i: int, k: nat)
    requires
        0 <= i <= s.len(),
    ensures
        count_status(drop_resolved(s, i, k), ActionStatus::Pending) == count_status(
            s.skip(i),
            ActionStatus::Pending,
        ),
        resolved_count(drop_resolved(s, i, k)) == if resolved_count(s.skip(i)) >= k {
            resolved_count(s.skip(i)) - k
        } else {
            0
        },
    decreases s.len() - i,
{
    if i < s.len() {
        lemma_drop_resolved_counts(s, i + 1, k);
        if s[i].status != ActionStatus::Pending && k > 0 {
            lemma_drop_resolved_counts(s, i + 1, (k - 1) as nat);
        }
        assert(s.skip(i).drop_first() =~= s.skip(i + 1));
        lemma_count_front(s.skip(i), ActionStatus::Pending);
        lemma_count_front(s.skip(i), ActionStatus::Approved);
        lemma_count_front(s.skip(i), ActionStatus::Denied);
        if !(s[i].status != ActionStatus::Pending && k > 0) {
            let t = seq![s[i]] + drop_resolved(s, i + 1, k);
            assert(t.drop_first() =~= drop_resolved(s, i + 1, k));
            lemma_count_front(t, ActionStatus::Pending);
            lemma_count_front(t, ActionStatus::Approved);
            lemma_count_front(t, ActionStatus::Denied);
        }
    } else {
        assert(s.skip(i) =~= Seq::<SpecEntry>::empty());
    }
}

/// Counting from the front.
proof fn lemma_count_front(s: Seq<SpecEntry>, st: ActionStatus)
    requires
        s.len() > 0,
    ensures
        count_status(s, st) == count_status(s.drop_first(), st) + if s[0].status == st {
            1nat
        } else {
            0nat
        },
    decreases s.len(),
{
    if s.len() > 1 {
        lemma_count_front(s.drop_last(), st);
        assert(s.drop_last().drop_first() =~= s.drop_first().drop_last());
        assert(s.drop_first().last() == s.last());
    } else {
        assert(s.drop_first() =~= Seq::<SpecEntry>::empty());
        assert(s.drop_last() =~= Seq::<SpecEntry>::empty());
    }
}

/// Where a pending entry is found, it is a pending entry of the queue.
proof fn lemma_find_pending(s: Seq<SpecEntry>, i: int, k: nat)
    requires
        0 <= i,
    ensures
        find_pending(s, i, k) matches Some(j) ==> i <= j < s.len() && s[j].status == ActionStatus::Pending,
    decreases s.len() - i,
{
    if i < s.len() {
        if s[i].status == ActionStatus::Pending {
            if k > 0 {
                lemma_find_pending(s, i + 1, (k - 1) as nat);
            }
        } else {
            lemma_find_pending(s, i + 1, k);
        }
    }
}

/// After trimming, at most [`HISTORY_CAPACITY`] resolved entries remain,
/// and every pending entry is kept.
pub proof fn lemma_trim_bounds_history(s: Seq<SpecEntry>)
    ensures
        resolved_count(trim_history(s)) <= HISTORY_CAPACITY,
        count_status(trim_history(s), ActionStatus::Pending) == count_status(s, ActionStatus::Pending),
{
    if resolved_count(s) > HISTORY_CAPACITY {
        lemma_drop_resolved_counts(s, 0, (resolved_count(s) - HISTORY_CAPACITY) as nat);
        assert(s.skip(0) =~= s);
    }
}

/// Giving entry `i` a new status changes the counts only by that entry.
proof fn lemma_count_update(s: Seq<SpecEntry>, i: int, e: SpecEntry, st: ActionStatus)
    requires
        0 <= i < s.len(),
    ensures
        count_status(s.update(i, e), st) + (if s[i].status == st { 1nat } else { 0nat })
            == count_status(s, st) + (if e.status == st { 1nat } else { 0nat }),
    decreases s.len(),
{
    let t = s.update(i, e);
    if i == s.len() - 1 {
        assert(t.drop_last() =~= s.drop_last());
    } else {
        assert(t.drop_last() =~= s.drop_last().update(i, e));
        lemma_count_update(s.drop_last(), i, e, st);
    }
}

/// Approving or denying pending entry number `k` takes exactly one entry
/// out of the pending ones (none when there is no such entry), and leaves
/// at most [`HISTORY_CAPACITY`] resolved entries.
pub proof fn lemma_resolve_takes_one_pending(s: Seq<SpecEntry>, k: nat, st: ActionStatus, now: u64)
    requires
        st != ActionStatus::Pending,
    ensures
        count_status(resolve(s, k, st, now), ActionStatus::Pending) == if nth_pending(s, k) is Some {
            (count_status(s, ActionStatus::Pending) - 1) as nat
        } else {
            count_status(s, ActionStatus::Pending)
        },
        resolved_count(resolve(s, k, st, now)) <= HISTORY_CAPACITY,
{
    lemma_find_pending(s, 0, k);
    match nth_pending(s, k) {
        Some(i) => {
            let e = SpecEntry { status: st, resolved_at: Some(now), ..s[i] };
            let u = s.update(i, e);
            lemma_count_update(s, i, e, ActionStatus::Pending);
            lemma_trim_bounds_history(u);
        },
        None => {
            lemma_trim_bounds_history(s);
        },
    }
}

impl ArbiterQueue {
    /// Adds `action` from `source` as a pending entry created at `now`.
    pub fn submit(&mut self, source: String, action: AgentAction, now: u64)
        ensures
            final(self)@ == old(self)@.push(
                SpecEntry {
                    source: source@,
                    action: action@,
                    pid: action_target(action@).0,
                    name: action_target(action@).1,
                    created_at: now,
                    status: ActionStatus::Pending,
                    resolved_at: None,
                },
            ),
    {
        let (pid, name) = match &action {
            AgentAction::KillProcess { pid } => (*pid, String::new()),
            AgentAction::RestartService { name } => (0, copy_string(name)),
            AgentAction::Inspect { pid } => (*pid, String::new()),
            AgentAction::CustomScript { command } => (0, copy_string(command)),
        };
        let ghost old_entries = self.entries@;
        self.entries.push(
            ArbiterEntry {
                source,
                action,
                pid,
                name,
                created_at: now,
                status: ActionStatus::Pending,
                resolved_at: None,
            },
        );
        assert(entries_view(self.entries@) =~= entries_view(old_entries).push(self.entries@.last()@));
    }

    /// The entries, oldest first.
    pub fn entries(&self) -> (e: &[ArbiterEntry])
        ensures
            entries_view(e@) == self@,
    {
        self.entries.as_slice()
    }

    /// Number of entries with status `st`.
    fn count(&self, st: ActionStatus) -> (n: usize)
        ensures
            n == count_status(self@, st),
    {
        let ghost s = self@;
        let mut n: usize = 0;
        let mut i: usize = 0;
        while i < self.entries.len()
            invariant
                s == entries_view(self.entries@),
                i <= self.entries.len(),
                n == count_status(s.take(i as int), st),
                n <= i,
            decreases self.entries.len() - i,
        {
            proof {
                lemma_count_step(s, i as int, st);
            }
            if self.entries[i].status == st {
                n = n + 1;
            }
            i = i + 1;
        }
        assert(s.take(self.entries.len() as int) =~= s);
        n
    }

    /// Number of pending entries.
    pub fn pending_count(&self) -> (n: usize)
        ensures
            n == count_status(self@, ActionStatus::Pending),
    {
        self.count(ActionStatus::Pending)
    }

    /// Number of approved entries.
    pub fn approved_count(&self) -> (n: usize)
        ensures
            n == count_status(self@, ActionStatus::Approved),
    {
        self.count(ActionStatus::Approved)
    }

    /// Number of denied entries.
    pub fn denied_count(&self) -> (n: usize)
        ensures
            n == count_status(self@, ActionStatus::Denied),
    {
        self.count(ActionStatus::Denied)
    }

    /// Index of pending entry number `k`, if there is one.
    fn pending_index(&self, k: usize) -> (r: Option<usize>)
        ensures
            match nth_pending(self@, k as nat) {
                Some(i) => r matches Some(x) && x == i,
                None => r is None,
            },
    {
        let ghost s = self@;
        let mut i: usize = 0;
        let mut left: usize = k;
        while i < self.entries.len()
            invariant
                s == entries_view(self.entries@),
                i <= self.entries.len(),
                nth_pending(s, k as nat) == find_pending(s, i as int, left as nat),
            decreases self.entries.len() - i,
        {
            if self.entries[i].status == ActionStatus::Pending {
                if left == 0 {
                    return Some(i);
                }
                left = left - 1;
            }
            i = i + 1;
        }
        None
    }

    /// PID of pending entry number `k`, if there is one.
    pub fn pending_pid(&self, k: usize) -> (r: Option<u32>)
        ensures
            match nth_pending(self@, k as nat) {
                Some(i) => r == Some(self@[i].pid),
                None => r is None,
            },
    {
        proof {
            lemma_find_pending(self@, 0, k as nat);
        }
        match self.pending_index(k) {
            Some(i) => {
                assert(self@[i as int] == self.entries@[i as int]@);
                Some(self.entries[i].pid)
            },
            None => None,
        }
    }

    /// Removes the oldest resolved entries until at most
    /// [`HISTORY_CAPACITY`] remain.
    fn trim_history(&mut self)
        ensures
            final(self)@ == trim_history(old(self)@),
    {
        let ghost s = self@;
        let total = self.entries.len();
        proof {
            lemma_counts_partition(s);
            assert(s.len() == total);
        }
        let resolved = self.approved_count() + self.denied_count();
        if resolved > HISTORY_CAPACITY {
            let excess = resolved - HISTORY_CAPACITY;
            let mut removed: usize = 0;
            let mut kept: Vec<ArbiterEntry> = Vec::new();
            let mut rest: Vec<ArbiterEntry> = Vec::new();
            std::mem::swap(&mut rest, &mut self.entries);
            let n = rest.len();
            let mut i: usize = 0;
            assert(entries_view(rest@) =~= s.skip(0));
            while i < n
                invariant
                    n == s.len(),
                    i <= n,
                    removed <= excess,
                    entries_view(rest@) == s.skip(i as int),
                    drop_resolved(s, 0, excess as nat) == entries_view(kept@) + drop_resolved(
                        s,
                        i as int,
                        (excess - removed) as nat,
                    ),
                decreases n - i,
            {
                let ghost before_rest = rest@;
                assert(rest@.len() == entries_view(rest@).len());
                let e = rest.remove(0);
                proof {
                    assert(entries_view(before_rest)[0] == s[i as int]);
                    assert(rest@ =~= before_rest.subrange(1, before_rest.len() as int));
                    assert(entries_view(rest@) =~= entries_view(before_rest).subrange(1, before_rest.len() as int));
                    assert(entries_view(rest@) =~= s.skip(i as int + 1));
                }
                if e.status != ActionStatus::Pending && removed < excess {
                    removed = removed + 1;
                } else {
                    let ghost before = kept@;
                    kept.push(e);
                    proof {
                        assert(entries_view(kept@) =~= entries_view(before).push(s[i as int]));
                        assert(entries_view(kept@) + drop_resolved(s, i as int + 1, (excess - removed) as nat)
                            =~= entries_view(before) + (seq![s[i as int]] + drop_resolved(
                            s,
                            i as int + 1,
                            (excess - removed) as nat,
                        )));
                    }
                }
                i = i + 1;
            }
            proof {
                assert(entries_view(kept@) + Seq::<SpecEntry>::empty() =~= entries_view(kept@));
            }
            self.entries = kept;
        }
    }

    /// Gives pending entry number `k` status `st` at time `now`, then trims
    /// the history.
    fn resolve(&mut self, k: usize, st: ActionStatus, now: u64)
        ensures
            final(self)@ == resolve(old(self)@, k as nat, st, now),
    {
        proof {
            lemma_find_pending(self@, 0, k as nat);
        }
        match self.pending_index(k) {
            Some(i) => {
                let ghost before = self.entries@;
                let mut e = self.entries.remove(i);
                e.status = st;
                e.resolved_at = Some(now);
                self.entries.insert(i, e);
                proof {
                    let e = entries_view(before)[i as int];
                    assert(entries_view(self.entries@) =~= entries_view(before).update(
                        i as int,
                        SpecEntry { status: st, resolved_at: Some(now), ..e },
                    ));
                }
            },
            None => {},
        }
        self.trim_history();
    }

    /// Approves pending entry number `k` at time `now`, if there is one.
    pub fn approve(&mut self, k: usize, now: u64)
        ensures
            final(self)@ == resolve(old(self)@, k as nat, ActionStatus::Approved, now),
    {
        self.resolve(k, ActionStatus::Approved, now);
    }

    /// Denies pending entry number `k` at time `now`, if there is one.
    pub fn deny(&mut self, k: usize, now: u64)
        ensures
            final(self)@ == resolve(old(self)@, k as nat, ActionStatus::Denied, now),
    {
        self.resolve(k, ActionStatus::Denied, now);
    }
}

/// The selection after a change of the queue that leaves `pending` pending
/// entries: none if there are none, else cut to the last one.
pub open spec fn clamp_selection(sel: Option<usize>, pending: nat) -> Option<usize> {
    if pending == 0 {
        None
    } else {
        match sel {
            Some(i) => if i >= pending { Some((pending - 1) as usize) } else { sel },
            None => None,
        }
    }
}

/// A character key that is one of two given characters.
pub open spec fn is_char_key(code: KeyCode, a: char, b: char) -> bool {
    code matches KeyCode::Char(c) && (c == a || c == b)
}

/// The selection, queue and result after `code` is pressed at time `now`
/// with selection `sel` over queue `q`.
pub open spec fn arbiter_step(sel: Option<usize>, q: Seq<SpecEntry>, code: KeyCode, now: u64) -> (
    Option<usize>,
    Seq<SpecEntry>,
    ArbiterKeyResult,
) {
    let pending = count_status(q, ActionStatus::Pending);
    if is_char_key(code, 'j', 'j') || code == KeyCode::Down {
        let next: usize = match sel {
            Some(i) => if i + 1 < pending { (i + 1) as usize } else { 0 },
            None => 0,
        };
        (if pending > 0 { Some(next) } else { sel }, q, ArbiterKeyResult::Consumed)
    } else if is_char_key(code, 'k', 'k') || code == KeyCode::Up {
        let next: usize = match sel {
            Some(i) => if i == 0 { (pending - 1) as usize } else { (i - 1) as usize },
            None => (pending - 1) as usize,
        };
        (if pending > 0 { Some(next) } else { sel }, q, ArbiterKeyResult::Consumed)
    } else if is_char_key(code, 'y', 'Y') || is_char_key(code, 'n', 'N') {
        let st = if is_char_key(code, 'y', 'Y') { ActionStatus::Approved } else { ActionStatus::Denied };
        match sel {
            Some(idx) => {
                let q2 = resolve(q, idx as nat, st, now);
                (clamp_selection(sel, count_status(q2, ActionStatus::Pending)), q2, ArbiterKeyResult::Consumed)
            },
            None => (sel, q, ArbiterKeyResult::Consumed),
        }
    } else if is_char_key(code, 'i', 'I') {
        let r = match sel {
            Some(idx) => match nth_pending(q, idx as nat) {
                Some(j) => if q[j].pid > 0 { ArbiterKeyResult::InspectPid(q[j].pid) } else { ArbiterKeyResult::Consumed },
                None => ArbiterKeyResult::Consumed,
            },
            None => ArbiterKeyResult::Consumed,
        };
        (sel, q, r)
    } else {
        (sel, q, ArbiterKeyResult::NotConsumed)
    }
}


/// Whole seconds from `created` to `now` (milliseconds), zero if `now`
/// comes first.
pub open spec fn age_secs(created: u64, now: u64) -> u64 {
    if now >= created {
        ((now - created) / 1000) as u64
    } else {
        0
    }
}

/// The line of pending entry number `k` (from 0) of the Pending Actions
/// panel: `[k+1] source: kind PID pid (name) — age [Y/N/I]`, without the
/// PID part when the entry has no process.
pub open spec fn pending_line(k: nat, e: SpecEntry, now: u64) -> Seq<char> {
    "["@ + spec_decimal(k + 1) + "] "@ + e.source + ": "@ + action_kind(e.action) + (if e.pid > 0 {
        " PID "@ + spec_decimal(e.pid as nat)
    } else {
        Seq::empty()
    }) + " ("@ + e.name + ") \u{2014} "@ + duration_text(age_secs(e.created_at, now)) + " [Y/N/I]"@
}

/// The lines of the pending entries of `s`, oldest first.
pub open spec fn pending_rows(s: Seq<SpecEntry>, now: u64) -> Seq<Seq<char>>
    decreases s.len(),
{
    if s.len() == 0 {
        Seq::empty()
    } else if s.last().status == ActionStatus::Pending {
        pending_rows(s.drop_last(), now).push(pending_line(count_status(s.drop_last(), ActionStatus::Pending), s.last(), now))
    } else {
        pending_rows(s.drop_last(), now)
    }
}

/// The text of the Pending Actions panel: one line per pending entry, or a
/// note that there is none.
pub open spec fn pending_text(s: Seq<SpecEntry>, now: u64) -> Seq<Seq<char>> {
    if count_status(s, ActionStatus::Pending) == 0 {
        seq!["  No pending actions"@]
    } else {
        pending_rows(s, now)
    }
}

/// A pending entry is drawn as stale once it has waited over a minute.
pub open spec fn is_stale(e: SpecEntry, now: u64) -> bool {
    age_secs(e.created_at, now) > 60
}

/// Whether each pending entry of `s`, oldest first, is stale.
pub open spec fn pending_stale(s: Seq<SpecEntry>, now: u64) -> Seq<bool>
    decreases s.len(),
{
    if s.len() == 0 {
        Seq::empty()
    } else if s.last().status == ActionStatus::Pending {
        pending_stale(s.drop_last(), now).push(is_stale(s.last(), now))
    } else {
        pending_stale(s.drop_last(), now)
    }
}

/// One line of the Pending Actions panel.
#[derive(Debug)]
pub struct PendingLine {
    /// The line's text.
    pub text: String,
    /// Drawn in the critical colour (waited over a minute) rather than the
    /// warning colour.
    pub stale: bool,
    /// Drawn inverted, as the selected line.
    pub selected: bool,
}

/// The texts of panel lines.
pub open spec fn pending_texts(v: Seq<PendingLine>) -> Seq<Seq<char>> {
    v.map_values(|l: PendingLine| l.text@)
}

/// The stale marks of panel lines.
pub open spec fn pending_stale_marks(v: Seq<PendingLine>) -> Seq<bool> {
    v.map_values(|l: PendingLine| l.stale)
}

/// The line of one pending entry.
fn pending_line_of(k: usize, e: &ArbiterEntry, now: u64) -> (l: String)
    requires
        k < usize::MAX,
    ensures
        l@ == pending_line(k as nat, e@, now),
{
    let mut l = String::new();
    push_str(&mut l, "[");
    push_decimal(&mut l, (k + 1) as u64);
    push_str(&mut l, "] ");
    push_str(&mut l, e.source.as_str());
    push_str(&mut l, ": ");
    push_str(&mut l, format_action(&e.action));
    if e.pid > 0 {
        push_str(&mut l, " PID ");
        push_decimal(&mut l, e.pid as u64);
    }
    push_str(&mut l, " (");
    push_str(&mut l, e.name.as_str());
    push_str(&mut l, ") \u{2014} ");
    let age = if now >= e.created_at { (now - e.created_at) / 1000 } else { 0 };
    let d = format_duration(age);
    push_str(&mut l, d.as_str());
    push_str(&mut l, " [Y/N/I]");
    proof {
        reveal_strlit("");
    }
    assert(l@ =~= pending_line(k as nat, e@, now));
    l
}

/// State of the Arbiter (F4) tab.
pub struct ArbiterTab {
    selected_action: Option<usize>,
    queue: ArbiterQueue,
}

impl Default for ArbiterTab {
    fn default() -> (t: Self)
        ensures
            t.selected() is None,
            t.queue_view() == Seq::<SpecEntry>::empty(),
    {
        ArbiterTab { selected_action: None, queue: ArbiterQueue::default() }
    }
}

impl ArbiterTab {
    /// The selected pending entry, counted among pending entries.
    pub closed spec fn selected(&self) -> Option<usize> {
        self.selected_action
    }

    /// The queue's entries.
    pub closed spec fn queue_view(&self) -> Seq<SpecEntry> {
        self.queue@
    }

    /// The selected pending entry, counted among pending entries.
    pub fn selected_action(&self) -> (s: Option<usize>)
        ensures
            s == self.selected(),
    {
        self.selected_action
    }

    /// Selects pending entry number `i`, or nothing.
    pub fn select(&mut self, sel: Option<usize>)
        ensures
            final(self).selected() == sel,
            final(self).queue_view() == old(self).queue_view(),
    {
        self.selected_action = sel;
    }

    /// The lines of the Pending Actions panel at time `now` (milliseconds of
    /// a monotonic clock): each line's text, whether it is drawn as stale
    /// (critical colour) rather than as waiting (warning colour), and
    /// whether it is the selected line, drawn inverted.
    pub fn pending_lines(&self, now: u64) -> (l: Vec<PendingLine>)
        ensures
            pending_texts(l@) == pending_text(self.queue_view(), now),
            pending_stale_marks(l@) == if count_status(self.queue_view(), ActionStatus::Pending) == 0 {
                seq![false]
            } else {
                pending_stale(self.queue_view(), now)
            },
            forall|k: int|
                0 <= k < l@.len() ==> (#[trigger] l@[k]).selected == (count_status(
                    self.queue_view(),
                    ActionStatus::Pending,
                ) > 0 && self.selected() == Some(k as usize)),
    {
        let entries = self.queue.entries();
        let ghost s = entries_view(entries@);
        let mut rows: Vec<PendingLine> = Vec::new();
        let mut k: usize = 0;
        let mut i: usize = 0;
        assert(s.take(0) =~= Seq::<SpecEntry>::empty());
        while i < entries.len()
            invariant
                i <= entries.len(),
                s == entries_view(entries@),
                s == self.queue_view(),
                k == count_status(s.take(i as int), ActionStatus::Pending),
                k <= i,
                rows@.len() == k,
                pending_texts(rows@) == pending_rows(s.take(i as int), now),
                pending_stale_marks(rows@) == pending_stale(s.take(i as int), now),
                forall|j: int| 0 <= j < rows@.len() ==> (#[trigger] rows@[j]).selected == (self.selected() == Some(j as usize)),
            decreases entries.len() - i,
        {
            proof {
                assert(s.take(i as int + 1).drop_last() =~= s.take(i as int));
                assert(s.take(i as int + 1).last() == entries@[i as int]@);
            }
            if entries[i].status == ActionStatus::Pending {
                let text = pending_line_of(k, &entries[i], now);
                let e = &entries[i];
                let stale = if now >= e.created_at { (now - e.created_at) / 1000 > 60 } else { false };
                let selected = match self.selected_action {
                    Some(x) => x == k,
                    None => false,
                };
                let ghost before_t = pending_texts(rows@);
                let ghost before_s = pending_stale_marks(rows@);
                rows.push(PendingLine { text, stale, selected });
                assert(pending_texts(rows@) =~= before_t.push(pending_line(k as nat, s[i as int], now)));
                assert(pending_stale_marks(rows@) =~= before_s.push(is_stale(s[i as int], now)));
                k = k + 1;
            }
            i = i + 1;
        }
        assert(s.take(entries.len() as int) =~= s);
        if k == 0 {
            let mut v: Vec<PendingLine> = Vec::new();
            let mut m = String::new();
            push_str(&mut m, "  No pending actions");
            v.push(PendingLine { text: m, stale: false, selected: false });
            assert(pending_texts(v@) =~= seq!["  No pending actions"@]);
            assert(pending_stale_marks(v@) =~= seq![false]);
            v
        } else {
            rows
        }
    }

    /// The queue.
    pub fn queue(&self) -> (q: &ArbiterQueue)
        ensures
            q@ == self.queue_view(),
    {
        &self.queue
    }

    /// The queue, for submitting actions.
    pub fn queue_mut(&mut self) -> (q: &mut ArbiterQueue)
        ensures
            q@ == old(self).queue_view(),
            final(self).queue_view() == final(q)@,
            final(self).selected() == old(self).selected(),
    {
        &mut self.queue
    }

    /// Handles a key press at time `now` (milliseconds of a monotonic clock):
    /// j/k move the selection with wrap-around, y/n approve or deny the
    /// selected action, i asks to inspect its process.
    pub fn handle_key(&mut self, code: KeyCode, now: u64) -> (r: ArbiterKeyResult)
        ensures
            (final(self).selected(), final(self).queue_view(), r) == arbiter_step(
                old(self).selected(),
                old(self).queue_view(),
                code,
                now,
            ),
    {
        let pending = self.queue.pending_count();
        let is_down = match code {
            KeyCode::Char('j') | KeyCode::Down => true,
            _ => false,
        };
        let is_up = match code {
            KeyCode::Char('k') | KeyCode::Up => true,
            _ => false,
        };
        let approve = match code {
            KeyCode::Char('y') | KeyCode::Char('Y') => true,
            _ => false,
        };
        let deny = match code {
            KeyCode::Char('n') | KeyCode::Char('N') => true,
            _ => false,
        };
        let inspect = match code {
            KeyCode::Char('i') | KeyCode::Char('I') => true,
            _ => false,
        };
        if is_down {
            if pending > 0 {
                let next = match self.selected_action {
                    Some(i) => if i < pending - 1 { i + 1 } else { 0 },
                    None => 0,
                };
                self.selected_action = Some(next);
            }
            ArbiterKeyResult::Consumed
        } else if is_up {
            if pending > 0 {
                let next = match self.selected_action {
                    Some(i) => if i == 0 { pending - 1 } else { i - 1 },
                    None => pending - 1,
                };
                self.selected_action = Some(next);
            }
            ArbiterKeyResult::Consumed
        } else if approve || deny {
            if let Some(idx) = self.selected_action {
                if approve {
                    self.queue.approve(idx, now);
                } else {
                    self.queue.deny(idx, now);
                }
                self.clamp_selection();
            }
            ArbiterKeyResult::Consumed
        } else if inspect {
            if let Some(idx) = self.selected_action {
                if let Some(pid) = self.queue.pending_pid(idx) {
                    if pid > 0 {
                        return ArbiterKeyResult::InspectPid(pid);
                    }
                }
            }
            ArbiterKeyResult::Consumed
        } else {
            ArbiterKeyResult::NotConsumed
        }
    }

    /// Cuts the selection to the pending entries that remain.
    fn clamp_selection(&mut self)
        ensures
            final(self).queue == old(self).queue,
            final(self).selected_action == clamp_selection(
                old(self).selected_action,
                count_status(old(self).queue@, ActionStatus::Pending),
            ),
    {
        let pending = self.queue.pending_count();
        if pending == 0 {
            self.selected_action = None;
        } else if let Some(idx) = self.selected_action {
            if idx >= pending {
                self.selected_action = Some(pending - 1);
            }
        }
    }
}

/// Every key keeps the selection on a pending entry, if it was on one.
pub proof fn lemma_selection_stays_in_range(sel: Option<usize>, q: Seq<SpecEntry>, code: KeyCode, now: u64)
    requires
        sel matches Some(i) ==> i < count_status(q, ActionStatus::Pending),
    ensures
        ({
            let (sel2, q2, _) = arbiter_step(sel, q, code, now);
            sel2 matches Some(i) ==> i < count_status(q2, ActionStatus::Pending)
        }),
{
}

/// "Time ago" text for an age in whole seconds: seconds under a minute,
/// whole minutes under an hour, else whole hours.
pub open spec fn duration_text(secs: u64) -> Seq<char> {
    if secs < 60 {
        spec_decimal(secs as nat) + "s ago"@
    } else if secs < 3600 {
        spec_decimal((secs / 60) as nat) + "m ago"@
    } else {
        spec_decimal((secs / 3600) as nat) + "h ago"@
    }
}

/// Formats an age in whole seconds as "time ago" text.
pub fn format_duration(secs: u64) -> (s: String)
    ensures
        s@ == duration_text(secs),
{
    let mut s = String::new();
    if secs < 60 {
        push_decimal(&mut s, secs);
        crate::script::strings::push_str(&mut s, "s ago");
    } else if secs < 3600 {
        push_decimal(&mut s, secs / 60);
        crate::script::strings::push_str(&mut s, "m ago");
    } else {
        push_decimal(&mut s, secs / 3600);
        crate::script::strings::push_str(&mut s, "h ago");
    }
    assert(s@ =~= duration_text(secs));
    s
}

/// Short name of an action kind.
pub open spec fn action_kind(a: SpecAgentAction) -> Seq<char> {
    match a {
        SpecAgentAction::KillProcess { .. } => "kill"@,
        SpecAgentAction::RestartService { .. } => "restart"@,
        SpecAgentAction::Inspect { .. } => "inspect"@,
        SpecAgentAction::CustomScript { .. } => "script"@,
    }
}

/// Short human-readable name of an action's kind.
pub fn format_action(action: &AgentAction) -> (s: &'static str)
    ensures
        s@ == action_kind(action@),
{
    match action {
        AgentAction::KillProcess { .. } => "kill",
        AgentAction::RestartService { .. } => "restart",
        AgentAction::Inspect { .. } => "inspect",
        AgentAction::CustomScript { .. } => "script",
    }
}

} // verus!
