//! Rule evaluation runtime: which matched rules fire, and engine statistics.
//!
//! Whether a rule's condition holds for a process is computed by native
//! code outside this crate and handed in as a [`RuleResult`]. Duration-based
//! rules fire only after their condition has held continuously for the
//! required time; the timer resets when the condition is false.
use vstd::prelude::*;

use crate::script::ast::Rule;
use crate::script::strings::copy_string;

verus! {

/// Result of evaluating one rule against one process.
#[derive(Debug, Clone, Copy, PartialEq, Eq, Structural)]
pub struct RuleResult {
    /// 1 if the rule matched, 0 otherwise.
    pub matched: u32,
    /// Action type: 0 none, 1 alert, 2 kill, 3 log.
    pub action_type: u32,
    /// PID of the target process.
    pub target_pid: u32,
    /// Severity: 0 info, 1 warning, 2 critical.
    pub severity: u32,
}

/// Action triggered by a matching rule.
#[derive(Debug, Clone, PartialEq, Eq)]
pub struct RuleAction {
    /// Name of the rule that fired.
    pub rule_name: String,
    /// Action type: 1 alert, 2 kill, 3 log.
    pub action: u32,
    /// PID of the targeted process.
    pub target_pid: u32,
    /// Severity: 0 info, 1 warning, 2 critical (only meaningful for alerts).
    pub severity: u32,
}

/// View of a [`RuleAction`].
pub struct SpecRuleAction {
    pub rule_name: Seq<char>,
    pub action: u32,
    pub target_pid: u32,
    pub severity: u32,
}

impl View for RuleAction {
    type V = SpecRuleAction;

    open spec fn view(&self) -> SpecRuleAction {
        SpecRuleAction {
            rule_name: self.rule_name@,
            action: self.action,
            target_pid: self.target_pid,
            severity: self.severity,
        }
    }
}

/// Nanoseconds in one second.
pub const NANOS_PER_SEC: u64 = 1_000_000_000;

/// Time elapsed from `start` to `now`, in nanoseconds; zero when `now` is earlier.
pub open spec fn elapsed(start: u64, now: u64) -> int {
    if now >= start { now - start } else { 0 }
}

/// Whether `elapsed` nanoseconds reach `required_secs` seconds.
pub open spec fn reached(elapsed: int, required_secs: u64) -> bool {
    elapsed >= required_secs as int * NANOS_PER_SEC as int
}

/// Key of a duration timer: rule name and process id.
pub type TimerKey = (Seq<char>, u32);

/// The timers after observing `met` for `key` at time `now`: a false
/// condition removes the timer; a true one starts it unless it runs already.
pub open spec fn tracker_step(m: Map<TimerKey, u64>, key: TimerKey, met: bool, now: u64) -> Map<TimerKey, u64> {
    if !met {
        m.remove(key)
    } else if m.dom().contains(key) {
        m
    } else {
        m.insert(key, now)
    }
}

/// Whether the rule fires on this observation: the condition holds and has
/// held since a start time at least `required_secs` before `now`.
pub open spec fn tracker_fires(m: Map<TimerKey, u64>, key: TimerKey, met: bool, required_secs: u64, now: u64) -> bool {
    met && reached(elapsed(tracker_step(m, key, met, now)[key], now), required_secs)
}

/// A rule with a duration fires only while its condition holds.
pub proof fn lemma_fires_only_when_met(m: Map<TimerKey, u64>, key: TimerKey, required_secs: u64, now: u64)
    ensures
        !tracker_fires(m, key, false, required_secs, now),
{
}

/// A false condition resets the timer: when the condition next holds, at any
/// time, the rule fires at once exactly when its duration is zero.
pub proof fn lemma_reset_restarts_timer(
    m: Map<TimerKey, u64>,
    key: TimerKey,
    required_secs: u64,
    t0: u64,
    t1: u64,
)
    ensures
        !tracker_step(m, key, false, t0).dom().contains(key),
        tracker_fires(tracker_step(m, key, false, t0), key, true, required_secs, t1) <==> required_secs == 0,
{
    let m1 = tracker_step(m, key, false, t0);
    assert(tracker_step(m1, key, true, t1)[key] == t1);
}

/// While the condition keeps holding, the timer keeps its start time.
pub proof fn lemma_timer_start_kept(m: Map<TimerKey, u64>, key: TimerKey, now: u64)
    requires
        m.dom().contains(key),
    ensures
        tracker_step(m, key, true, now) == m,
{
}

/// A timer that starts now does not fire before its duration: a rule with
/// a non-zero duration, seen true for the first time, does not fire.
pub proof fn lemma_no_fire_on_first_sight(m: Map<TimerKey, u64>, key: TimerKey, required_secs: u64, now: u64)
    requires
        !m.dom().contains(key),
        required_secs > 0,
    ensures
        !tracker_fires(m, key, true, required_secs, now),
{
    assert(tracker_step(m, key, true, now)[key] == now);
}

/// Once started at `start`, a held condition fires exactly when
/// `required_secs` have elapsed since `start`.
pub proof fn lemma_fires_after_duration(m: Map<TimerKey, u64>, key: TimerKey, required_secs: u64, now: u64)
    requires
        m.dom().contains(key),
    ensures
        tracker_fires(m, key, true, required_secs, now) <==> reached(elapsed(m[key], now), required_secs),
{
}

/// One observation touches only its own rule and process's timer.
pub proof fn lemma_other_timers_untouched(m: Map<TimerKey, u64>, key: TimerKey, other: TimerKey, met: bool, now: u64)
    requires
        other != key,
    ensures
        tracker_step(m, key, met, now).dom().contains(other) == m.dom().contains(other),
        m.dom().contains(other) ==> tracker_step(m, key, met, now)[other] == m[other],
{
}

/// A running timer.
pub struct TimerEntry {
    pub rule_name: String,
    pub pid: u32,
    pub started_at: u64,
}

/// Tracks when conditions first became true for duration-based rules.
///
/// Keyed by rule name and pid; the value is the time the condition first matched.
pub struct DurationTracker {
    timers: Vec<TimerEntry>,
}

/// The key of a timer entry.
pub open spec fn entry_key(e: TimerEntry) -> TimerKey {
    (e.rule_name@, e.pid)
}

impl View for DurationTracker {
    type V = Map<TimerKey, u64>;

    closed spec fn view(&self) -> Map<TimerKey, u64> {
        Map::new(
            |k: TimerKey| exists|i: int| 0 <= i < self.timers.len() && entry_key(self.timers@[i]) == k,
            |k: TimerKey| self.timers@[choose|i: int| 0 <= i < self.timers.len() && entry_key(self.timers@[i]) == k].started_at,
        )
    }
}

impl DurationTracker {
    /// No two timers share a key.
    pub closed spec fn wf(&self) -> bool {
        forall|i: int, j: int|
            0 <= i < self.timers.len() && 0 <= j < self.timers.len() && i != j
                ==> entry_key(self.timers@[i]) != entry_key(self.timers@[j])
    }

    proof fn lemma_view_at(&self, i: int)
        requires
            self.wf(),
            0 <= i < self.timers.len(),
        ensures
            self@.dom().contains(entry_key(self.timers@[i])),
            self@[entry_key(self.timers@[i])] == self.timers@[i].started_at,
    {
        let k = entry_key(self.timers@[i]);
        assert(exists|j: int| 0 <= j < self.timers.len() && entry_key(self.timers@[j]) == k);
        let j = choose|j: int| 0 <= j < self.timers.len() && entry_key(self.timers@[j]) == k;
        assert(i == j);
    }

    /// An empty tracker.
    pub fn new() -> (t: Self)
        ensures
            t.wf(),
            t@ == Map::<TimerKey, u64>::empty(),
    {
        let t = DurationTracker { timers: Vec::new() };
        assert(t@ =~= Map::<TimerKey, u64>::empty());
        t
    }

    fn find(&self, rule_name: &str, pid: u32) -> (r: Option<usize>)
        requires
            self.wf(),
        ensures
            match r {
                Some(i) => i < self.timers.len() && entry_key(self.timers@[i as int]) == (rule_name@, pid),
                None => !self@.dom().contains((rule_name@, pid)),
            },
    {
        let mut i: usize = 0;
        while i < self.timers.len()
            invariant
                i <= self.timers.len(),
                forall|j: int| 0 <= j < i ==> entry_key(#[trigger] self.timers@[j]) != (rule_name@, pid),
            decreases self.timers.len() - i,
        {
            let e = &self.timers[i];
            if e.pid == pid && crate::script::strings::string_is(&e.rule_name, rule_name) {
                return Some(i);
            }
            i = i + 1;
        }
        None
    }

    /// Records whether the condition of `rule_name` holds for `pid` at time
    /// `now` (nanoseconds of a monotonic clock) and returns whether it has
    /// held continuously for at least `required_secs` seconds.
    pub fn check_duration(&mut self, rule_name: &str, pid: u32, condition_met: bool, required_secs: u64, now: u64) -> (fires: bool)
        requires
            old(self).wf(),
        ensures
            final(self).wf(),
            final(self)@ == tracker_step(old(self)@, (rule_name@, pid), condition_met, now),
            fires == tracker_fires(old(self)@, (rule_name@, pid), condition_met, required_secs, now),
    {
        let ghost key = (rule_name@, pid);
        let ghost m0 = self@;
        let found = self.find(rule_name, pid);
        if !condition_met {
            if let Some(i) = found {
                let ghost old_timers = self.timers@;
                proof {
                    self.lemma_view_at(i as int);
                }
                self.timers.remove(i);
                proof {
                    assert forall|a: int, b: int|
                        0 <= a < self.timers.len() && 0 <= b < self.timers.len() && a != b
                            implies entry_key(self.timers@[a]) != entry_key(self.timers@[b]) by {
                        let oa = if a < i { a } else { a + 1 };
                        let ob = if b < i { b } else { b + 1 };
                        assert(self.timers@[a] == old_timers[oa]);
                        assert(self.timers@[b] == old_timers[ob]);
                    }
                    assert forall|k: TimerKey| #[trigger] self@.dom().contains(k) <==> m0.remove(key).dom().contains(k) by {
                        if self@.dom().contains(k) {
                            let a = choose|a: int| 0 <= a < self.timers.len() && entry_key(self.timers@[a]) == k;
                            let oa = if a < i { a } else { a + 1 };
                            assert(self.timers@[a] == old_timers[oa]);
                            assert(oa != i);
                        }
                        if m0.remove(key).dom().contains(k) {
                            let oa = choose|oa: int| 0 <= oa < old_timers.len() && entry_key(old_timers[oa]) == k;
                            assert(oa != i);
                            let a = if oa < i { oa } else { oa - 1 };
                            assert(self.timers@[a] == old_timers[oa]);
                        }
                    }
                    assert forall|k: TimerKey| #[trigger] self@.dom().contains(k) implies self@[k] == m0.remove(key)[k] by {
                        let a = choose|a: int| 0 <= a < self.timers.len() && entry_key(self.timers@[a]) == k;
                        let oa = if a < i { a } else { a + 1 };
                        assert(self.timers@[a] == old_timers[oa]);
                        self.lemma_view_at(a);
                    }
                    assert(self@ =~= m0.remove(key));
                }
            } else {
                assert(m0.remove(key) =~= m0);
            }
            return false;
        }
        let start = match found {
            Some(i) => {
                proof {
                    self.lemma_view_at(i as int);
                }
                self.timers[i].started_at
            },
            None => {
                let ghost old_timers = self.timers@;
                self.timers.push(TimerEntry { rule_name: rule_name.to_owned(), pid, started_at: now });
                proof {
                    let n = old_timers.len() as int;
                    assert(entry_key(self.timers@[n]) == key);
                    assert forall|a: int, b: int|
                        0 <= a < self.timers.len() && 0 <= b < self.timers.len() && a != b
                            implies entry_key(self.timers@[a]) != entry_key(self.timers@[b]) by {
                        if a < n && b < n {
                            assert(self.timers@[a] == old_timers[a]);
                            assert(self.timers@[b] == old_timers[b]);
                        } else if a < n {
                            assert(self.timers@[a] == old_timers[a]);
                            assert(m0.dom().contains(entry_key(old_timers[a]))) by {
                                assert(0 <= a < old_timers.len() && entry_key(old_timers[a]) == entry_key(old_timers[a]));
                            }
                        } else if b < n {
                            assert(self.timers@[b] == old_timers[b]);
                            assert(m0.dom().contains(entry_key(old_timers[b]))) by {
                                assert(0 <= b < old_timers.len() && entry_key(old_timers[b]) == entry_key(old_timers[b]));
                            }
                        }
                    }
                    assert forall|k: TimerKey| #[trigger] self@.dom().contains(k) <==> m0.insert(key, now).dom().contains(k) by {
                        if self@.dom().contains(k) {
                            let a = choose|a: int| 0 <= a < self.timers.len() && entry_key(self.timers@[a]) == k;
                            if a < n {
                                assert(self.timers@[a] == old_timers[a]);
                            }
                        }
                        if m0.dom().contains(k) {
                            let oa = choose|oa: int| 0 <= oa < old_timers.len() && entry_key(old_timers[oa]) == k;
                            assert(self.timers@[oa] == old_timers[oa]);
                        }
                    }
                    assert forall|k: TimerKey| #[trigger] self@.dom().contains(k) implies self@[k] == m0.insert(key, now)[k] by {
                        let a = choose|a: int| 0 <= a < self.timers.len() && entry_key(self.timers@[a]) == k;
                        self.lemma_view_at(a);
                        if a < n {
                            assert(self.timers@[a] == old_timers[a]);
                        }
                    }
                    assert(self@ =~= m0.insert(key, now));
                }
                now
            },
        };
        let elapsed_ns: u64 = if now >= start { now - start } else { 0 };
        elapsed_ns / NANOS_PER_SEC >= required_secs
    }
}

/// Whether the rule of index `i` fires, and the resulting timers, when rules
/// with the given names and durations see `results` for process `pid`.
pub open spec fn rule_fires(
    m: Map<TimerKey, u64>,
    name: Seq<char>,
    duration: Option<u64>,
    result: RuleResult,
    pid: u32,
    now: u64,
) -> bool {
    match duration {
        Some(secs) => tracker_fires(m, (name, pid), result.matched != 0, secs, now),
        None => result.matched != 0,
    }
}

/// The timers after one rule's observation.
pub open spec fn rule_step(m: Map<TimerKey, u64>, name: Seq<char>, duration: Option<u64>, result: RuleResult, pid: u32, now: u64) -> Map<TimerKey, u64> {
    match duration {
        Some(_) => tracker_step(m, (name, pid), result.matched != 0, now),
        None => m,
    }
}

/// The action of a firing rule.
pub open spec fn fired_action(name: Seq<char>, result: RuleResult) -> SpecRuleAction {
    SpecRuleAction {
        rule_name: name,
        action: result.action_type,
        target_pid: result.target_pid,
        severity: result.severity,
    }
}

/// Rules in order with their optional durations, observed one after the
/// other starting from timers `m`: the timers afterwards and the actions of
/// the rules that fired, in rule order.
pub open spec fn evaluate_rules(
    rules: Seq<(Seq<char>, Option<u64>)>,
    results: Seq<RuleResult>,
    m: Map<TimerKey, u64>,
    pid: u32,
    now: u64,
    n: int,
) -> (Map<TimerKey, u64>, Seq<SpecRuleAction>)
    decreases n,
{
    if n <= 0 || n > rules.len() || n > results.len() {
        (m, Seq::empty())
    } else {
        let (m1, acts) = evaluate_rules(rules, results, m, pid, now, n - 1);
        let (name, duration) = rules[n - 1];
        let r = results[n - 1];
        let m2 = rule_step(m1, name, duration, r, pid, now);
        if rule_fires(m1, name, duration, r, pid, now) {
            (m2, acts.push(fired_action(name, r)))
        } else {
            (m2, acts)
        }
    }
}

/// The view of a list of actions.
pub open spec fn rule_actions_view(v: Seq<RuleAction>) -> Seq<SpecRuleAction> {
    v.map_values(|a: RuleAction| a@)
}

/// Rule names with their required durations, ready for evaluation.
///
/// The rules' conditions are compiled to native code elsewhere; this holds
/// what decides whether a matched rule fires.
pub struct CompiledRuleSet {
    rules: Vec<(String, Option<u64>)>,
    tracker: DurationTracker,
}

/// The view of the rule list.
pub open spec fn schedule_view(v: Seq<(String, Option<u64>)>) -> Seq<(Seq<char>, Option<u64>)> {
    v.map_values(|p: (String, Option<u64>)| (p.0@, p.1))
}

impl CompiledRuleSet {
    /// Rule names and durations, in order.
    pub closed spec fn rules_spec(&self) -> Seq<(Seq<char>, Option<u64>)> {
        schedule_view(self.rules@)
    }

    /// The running duration timers.
    pub closed spec fn timers(&self) -> Map<TimerKey, u64> {
        self.tracker@
    }

    /// The tracker is well formed.
    pub closed spec fn wf(&self) -> bool {
        self.tracker.wf()
    }

    /// A rule set for `rules`, each with its top-level duration, and no running timers.
    pub fn from_rules(rules: &[Rule]) -> (s: Self)
        ensures
            s.wf(),
            s.timers() == Map::<TimerKey, u64>::empty(),
            s.rules_spec().len() == rules@.len(),
            forall|i: int| 0 <= i < rules@.len() ==> #[trigger] s.rules_spec()[i] == (
                rules@[i].name@,
                match rules@[i].condition@ {
                    crate::script::ast::SpecCondition::Duration { seconds, .. } => Some(seconds),
                    _ => None,
                },
            ),
    {
        let mut v: Vec<(String, Option<u64>)> = Vec::new();
        let mut i: usize = 0;
        while i < rules.len()
            invariant
                i <= rules.len(),
                v.len() == i,
                forall|k: int| 0 <= k < i ==> #[trigger] schedule_view(v@)[k] == (
                    rules@[k].name@,
                    match rules@[k].condition@ {
                        crate::script::ast::SpecCondition::Duration { seconds, .. } => Some(seconds),
                        _ => None,
                    },
                ),
            decreases rules.len() - i,
        {
            let d = rules[i].duration_secs();
            let ghost old_v = v@;
            v.push((copy_string(&rules[i].name), d));
            assert(schedule_view(v@) =~= schedule_view(old_v).push((rules@[i as int].name@, d)));
            i = i + 1;
        }
        CompiledRuleSet { rules: v, tracker: DurationTracker::new() }
    }

    /// Names of the rules, in order.
    pub fn rule_names(&self) -> (names: Vec<String>)
        ensures
            names@.len() == self.rules_spec().len(),
            forall|i: int| 0 <= i < names@.len() ==> #[trigger] names@[i]@ == self.rules_spec()[i].0,
    {
        let mut names: Vec<String> = Vec::new();
        let mut i: usize = 0;
        while i < self.rules.len()
            invariant
                i <= self.rules.len(),
                names.len() == i,
                forall|k: int| 0 <= k < i ==> #[trigger] names@[k]@ == schedule_view(self.rules@)[k].0,
            decreases self.rules.len() - i,
        {
            names.push(copy_string(&self.rules[i].0));
            i = i + 1;
        }
        names
    }

    /// Decides which rules fire for the process `pid`, given `results[i]`, the
    /// outcome of rule `i`'s native code on that process, at time `now`
    /// (nanoseconds of a monotonic clock). A rule without a duration fires
    /// when it matched; one with a duration fires once its condition has
    /// held continuously for that long.
    pub fn evaluate(&mut self, pid: u32, results: &[RuleResult], now: u64) -> (actions: Vec<RuleAction>)
        requires
            old(self).wf(),
            results@.len() == old(self).rules_spec().len(),
        ensures
            final(self).wf(),
            final(self).rules_spec() == old(self).rules_spec(),
            (final(self).timers(), rule_actions_view(actions@)) == evaluate_rules(
                old(self).rules_spec(),
                results@,
                old(self).timers(),
                pid,
                now,
                results@.len() as int,
            ),
    {
        let ghost rules = self.rules_spec();
        let ghost m0 = self.timers();
        let mut actions: Vec<RuleAction> = Vec::new();
        let mut i: usize = 0;
        assert(rule_actions_view(actions@) =~= Seq::<SpecRuleAction>::empty());
        while i < self.rules.len()
            invariant
                self.wf(),
                rules == self.rules_spec(),
                results@.len() == rules.len(),
                i <= self.rules.len(),
                (self.timers(), rule_actions_view(actions@)) == evaluate_rules(rules, results@, m0, pid, now, i as int),
            decreases self.rules.len() - i,
        {
            let ghost before = rule_actions_view(actions@);
            let r = results[i];
            let matched = r.matched != 0;
            let fire = match self.rules[i].1 {
                Some(secs) => self.tracker.check_duration(self.rules[i].0.as_str(), pid, matched, secs, now),
                None => matched,
            };
            if fire {
                actions.push(RuleAction {
                    rule_name: copy_string(&self.rules[i].0),
                    action: r.action_type,
                    target_pid: r.target_pid,
                    severity: r.severity,
                });
                assert(rule_actions_view(actions@) =~= before.push(fired_action(rules[i as int].0, r)));
            }
            i = i + 1;
        }
        actions
    }
}

/// A snapshot as the engine sees it: per process, its PID and the outcome
/// of each rule's native code on it, in rule order.
pub open spec fn snapshot_view(v: Seq<(u32, Vec<RuleResult>)>) -> Seq<(u32, Seq<RuleResult>)> {
    v.map_values(|p: (u32, Vec<RuleResult>)| (p.0, p.1@))
}

/// The first `n` processes of a snapshot evaluated in order, each starting
/// from the timers the one before left: the timers afterwards and every
/// fired action, process by process.
pub open spec fn evaluate_snapshot_spec(
    rules: Seq<(Seq<char>, Option<u64>)>,
    snapshot: Seq<(u32, Seq<RuleResult>)>,
    m: Map<TimerKey, u64>,
    now: u64,
    n: int,
) -> (Map<TimerKey, u64>, Seq<SpecRuleAction>)
    decreases n,
{
    if n <= 0 || n > snapshot.len() {
        (m, Seq::empty())
    } else {
        let (m1, acts) = evaluate_snapshot_spec(rules, snapshot, m, now, n - 1);
        let (pid, results) = snapshot[n - 1];
        let (m2, more) = evaluate_rules(rules, results, m1, pid, now, results.len() as int);
        (m2, acts + more)
    }
}

impl CompiledRuleSet {
    /// Evaluates every process of a snapshot in order (the engine's step on
    /// each metrics update) and collects the fired actions, process by
    /// process, in rule order within each.
    pub fn collect_actions(&mut self, snapshot: &[(u32, Vec<RuleResult>)], now: u64) -> (actions: Vec<RuleAction>)
        requires
            old(self).wf(),
            forall|i: int| 0 <= i < snapshot@.len() ==> (#[trigger] snapshot@[i]).1@.len() == old(self).rules_spec().len(),
        ensures
            final(self).wf(),
            final(self).rules_spec() == old(self).rules_spec(),
            (final(self).timers(), rule_actions_view(actions@)) == evaluate_snapshot_spec(
                old(self).rules_spec(),
                snapshot_view(snapshot@),
                old(self).timers(),
                now,
                snapshot@.len() as int,
            ),
    {
        let ghost rules = self.rules_spec();
        let ghost m0 = self.timers();
        let ghost sv = snapshot_view(snapshot@);
        let mut all: Vec<RuleAction> = Vec::new();
        let mut i: usize = 0;
        assert(rule_actions_view(all@) =~= Seq::<SpecRuleAction>::empty());
        while i < snapshot.len()
            invariant
                self.wf(),
                rules == self.rules_spec(),
                sv == snapshot_view(snapshot@),
                forall|k: int| 0 <= k < snapshot@.len() ==> (#[trigger] snapshot@[k]).1@.len() == rules.len(),
                i <= snapshot@.len(),
                (self.timers(), rule_actions_view(all@)) == evaluate_snapshot_spec(rules, sv, m0, now, i as int),
            decreases snapshot@.len() - i,
        {
            let ghost before = rule_actions_view(all@);
            let pid = snapshot[i].0;
            let mut more = self.evaluate(pid, snapshot[i].1.as_slice(), now);
            assert(sv[i as int] == (pid, snapshot@[i as int].1@));
            let ghost mv = rule_actions_view(more@);
            let ghost a0 = all@;
            let ghost m1 = more@;
            all.append(&mut more);
            assert(all@ =~= a0 + m1);
            assert(rule_actions_view(all@) =~= before + mv);
            i = i + 1;
        }
        all
    }
}

/// Statistics tracked by the engine across evaluations.
pub struct EngineStats {
    /// Total number of rule evaluations (one per process per snapshot).
    pub evaluations: u64,
    /// Total number of actions triggered.
    pub actions_triggered: u64,
    /// Per-rule match counts (rule name, count), one entry per rule name,
    /// in the order the rules first fired.
    pub rule_match_counts: Vec<(String, u64)>,
}

/// The view of the per-rule counts.
pub open spec fn counts_view(v: Seq<(String, u64)>) -> Seq<(Seq<char>, u64)> {
    v.map_values(|p: (String, u64)| (p.0@, p.1))
}

/// Position of the entry named `name` at or after `i`.
pub open spec fn index_of_name(v: Seq<(Seq<char>, u64)>, name: Seq<char>, i: int) -> Option<int>
    decreases v.len() - i,
{
    if i < 0 || i >= v.len() {
        None
    } else if v[i].0 == name {
        Some(i)
    } else {
        index_of_name(v, name, i + 1)
    }
}

/// The counts after one more firing of `name`: its entry goes up by one,
/// or a new entry with count one is appended.
pub open spec fn counts_after(v: Seq<(Seq<char>, u64)>, name: Seq<char>) -> Seq<(Seq<char>, u64)> {
    match index_of_name(v, name, 0) {
        Some(i) => v.update(i, (name, (v[i].1 + 1) as u64)),
        None => v.push((name, 1)),
    }
}

impl EngineStats {
    /// No rule name appears twice.
    pub open spec fn wf(&self) -> bool {
        forall|i: int, j: int|
            0 <= i < self.rule_match_counts.len() && 0 <= j < self.rule_match_counts.len() && i != j
                ==> self.rule_match_counts@[i].0@ != self.rule_match_counts@[j].0@
    }

    /// Zeroed statistics.
    pub fn new() -> (s: Self)
        ensures
            s.wf(),
            s.evaluations == 0,
            s.actions_triggered == 0,
            s.rule_match_counts@.len() == 0,
    {
        EngineStats { evaluations: 0, actions_triggered: 0, rule_match_counts: Vec::new() }
    }

    /// Counts one triggered action of the rule `rule_name`.
    pub fn record_action(&mut self, rule_name: &String)
        requires
            old(self).wf(),
            old(self).actions_triggered < u64::MAX,
            forall|i: int| 0 <= i < old(self).rule_match_counts.len()
                ==> #[trigger] old(self).rule_match_counts@[i].1 < u64::MAX,
        ensures
            final(self).wf(),
            final(self).evaluations == old(self).evaluations,
            final(self).actions_triggered == old(self).actions_triggered + 1,
            counts_view(final(self).rule_match_counts@) == counts_after(counts_view(old(self).rule_match_counts@), rule_name@),
    {
        self.actions_triggered = self.actions_triggered + 1;
        let ghost old_v = self.rule_match_counts@;
        let ghost cv = counts_view(old_v);
        let mut i: usize = 0;
        while i < self.rule_match_counts.len()
            invariant
                i <= self.rule_match_counts.len(),
                self.rule_match_counts@ == old_v,
                old_v == old(self).rule_match_counts@,
                old(self).wf(),
                self.evaluations == old(self).evaluations,
                self.actions_triggered == old(self).actions_triggered + 1,
                forall|j: int| 0 <= j < i ==> #[trigger] old_v[j].0@ != rule_name@,
                cv == counts_view(old_v),
                forall|j: int| 0 <= j < old_v.len() ==> #[trigger] old_v[j].1 < u64::MAX,
                index_of_name(cv, rule_name@, 0) == index_of_name(cv, rule_name@, i as int),
            decreases self.rule_match_counts.len() - i,
        {
            if self.rule_match_counts[i].0 == *rule_name {
                let c = self.rule_match_counts[i].1 + 1;
                let name = copy_string(rule_name);
                self.rule_match_counts.set(i, (name, c));
                proof {
                    assert(cv[i as int].0 == rule_name@);
                    assert(counts_view(self.rule_match_counts@) =~= counts_after(cv, rule_name@));
                    assert forall|a: int, b: int|
                        0 <= a < self.rule_match_counts.len() && 0 <= b < self.rule_match_counts.len() && a != b
                            implies self.rule_match_counts@[a].0@ != self.rule_match_counts@[b].0@ by {
                        assert(self.rule_match_counts@[a].0@ == old_v[a].0@);
                        assert(self.rule_match_counts@[b].0@ == old_v[b].0@);
                    }
                }
                return;
            }
            i = i + 1;
        }
        self.rule_match_counts.push((copy_string(rule_name), 1));
        proof {
            assert(counts_view(self.rule_match_counts@) =~= counts_after(cv, rule_name@));
            assert forall|a: int, b: int|
                0 <= a < self.rule_match_counts.len() && 0 <= b < self.rule_match_counts.len() && a != b
                    implies self.rule_match_counts@[a].0@ != self.rule_match_counts@[b].0@ by {
                if a < old_v.len() {
                    assert(self.rule_match_counts@[a] == old_v[a]);
                }
                if b < old_v.len() {
                    assert(self.rule_match_counts@[b] == old_v[b]);
                }
            }
        }
    }

    /// Counts `n` more rule evaluations.
    pub fn record_evaluations(&mut self, n: u64)
        requires
            old(self).evaluations + n <= u64::MAX,
        ensures
            final(self).evaluations == old(self).evaluations + n,
            final(self).actions_triggered == old(self).actions_triggered,
            final(self).rule_match_counts@ == old(self).rule_match_counts@,
    {
        self.evaluations = self.evaluations + n;
    }
}

} // verus!
