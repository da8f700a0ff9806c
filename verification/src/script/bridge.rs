//! What the application does with each action a rule fires: the rules
//! tab's counters, the request queued for the operator, and the finding
//! handed to the diagnostics view.
use vstd::prelude::*;

use crate::model::{AgentAction, DiagSeverity, SpecAgentAction};
use crate::script::runtime::{counts_after, counts_view, index_of_name, EngineStats, RuleAction};
use crate::script::strings::{copy_string, push_decimal, push_str, spec_decimal};
use crate::tui::diagnostics::DiagTarget;
use crate::tui::findings::{DiagCategory, SpecTarget};
use crate::tui::rules::RulesDisplayState;
use crate::web::api::RecommendedAction;

verus! {

/// The operator request queued for a fired rule: a custom script naming
/// the rule, action, PID and severity.
pub open spec fn request_command(a: crate::script::runtime::SpecRuleAction) -> Seq<char> {
    "rule:"@ + a.rule_name + " action:"@ + spec_decimal(a.action as nat) + " pid:"@ + spec_decimal(
        a.target_pid as nat,
    ) + " sev:"@ + spec_decimal(a.severity as nat)
}

/// The operator request queued for a fired rule.
pub fn arbiter_request(action: &RuleAction) -> (r: AgentAction)
    ensures
        r@ == (SpecAgentAction::CustomScript { command: request_command(action@) }),
{
    let mut command = String::new();
    push_str(&mut command, "rule:");
    push_str(&mut command, action.rule_name.as_str());
    push_str(&mut command, " action:");
    push_decimal(&mut command, action.action as u64);
    push_str(&mut command, " pid:");
    push_decimal(&mut command, action.target_pid as u64);
    push_str(&mut command, " sev:");
    push_decimal(&mut command, action.severity as u64);
    assert(command@ =~= request_command(action@));
    AgentAction::CustomScript { command }
}

/// The severity named by a configuration string: `critical`, `warning`,
/// and anything else as info.
pub open spec fn severity_named(s: Seq<char>) -> DiagSeverity {
    if s == "critical"@ {
        DiagSeverity::Critical
    } else if s == "warning"@ {
        DiagSeverity::Warning
    } else {
        DiagSeverity::Info
    }
}

/// The severity named by a configuration string.
pub fn parse_severity(s: &str) -> (r: DiagSeverity)
    ensures
        r == severity_named(s@),
{
    let owned = s.to_owned();
    if crate::script::strings::string_is(&owned, "critical") {
        DiagSeverity::Critical
    } else if crate::script::strings::string_is(&owned, "warning") {
        DiagSeverity::Warning
    } else {
        DiagSeverity::Info
    }
}

/// How soon a finding needs attention.
#[derive(Debug, Clone, Copy, PartialEq, Eq, Structural)]
pub enum Urgency {
    Immediate,
    Soon,
    Planning,
    Informational,
}

/// The diagnostic finding made of a fired rule.
#[derive(Debug)]
pub struct ScriptFinding {
    pub id: u64,
    pub host: String,
    pub target: DiagTarget,
    pub category: DiagCategory,
    pub severity: DiagSeverity,
    pub summary: String,
    pub evidence_metric: String,
    pub evidence_context: String,
    pub recommendation: RecommendedAction,
    pub recommendation_reason: String,
    pub urgency: Urgency,
    pub auto_executable: bool,
}

/// The finding's severity for a rule's severity code.
pub open spec fn finding_severity(code: u32) -> DiagSeverity {
    if code == 2 {
        DiagSeverity::Critical
    } else if code == 1 {
        DiagSeverity::Warning
    } else {
        DiagSeverity::Info
    }
}

/// The urgency that goes with a severity.
pub open spec fn urgency_for(s: DiagSeverity) -> Urgency {
    match s {
        DiagSeverity::Critical => Urgency::Immediate,
        DiagSeverity::Warning => Urgency::Soon,
        DiagSeverity::Info => Urgency::Informational,
    }
}

/// `'name'` in single quotes.
pub open spec fn quoted(name: Seq<char>) -> Seq<char> {
    "'"@ + name + "'"@
}

/// The finding made of a fired rule, numbered `id`: on host `local`, about
/// the process the rule fired on (with no name), in the script-rule
/// category, never to be executed without the operator.
pub open spec fn finding_of(a: crate::script::runtime::SpecRuleAction, id: u64, f: ScriptFinding) -> bool {
    &&& f.id == id
    &&& f.host@ == "local"@
    &&& f.target@ == (SpecTarget::Process { pid: a.target_pid, name: Seq::empty() })
    &&& f.category == DiagCategory::ScriptRule
    &&& f.evidence_metric@ == "script_rule"@
    &&& !f.auto_executable
    &&& f.severity == finding_severity(a.severity)
    &&& f.urgency == urgency_for(finding_severity(a.severity))
    &&& f.summary@ == "[script] rule "@ + quoted(a.rule_name) + " fired on pid "@ + spec_decimal(a.target_pid as nat)
    &&& f.evidence_context@ == "action="@ + spec_decimal(a.action as nat) + ", severity="@ + spec_decimal(
        a.severity as nat,
    )
    &&& f.recommendation_reason@ == "triggered by .aether rule "@ + quoted(a.rule_name)
    &&& if a.action == 2 {
        f.recommendation matches RecommendedAction::KillProcess { pid, reason } && pid == a.target_pid
            && reason@ == "script rule "@ + quoted(a.rule_name) + " triggered kill"@
    } else if a.action == 1 {
        f.recommendation matches RecommendedAction::Investigate { what } && what@ == "script rule "@
            + quoted(a.rule_name) + " raised alert"@
    } else {
        f.recommendation matches RecommendedAction::NoAction { reason } && reason@ == "script rule "@
            + quoted(a.rule_name) + " logged event"@
    }
}

/// "script rule 'name'" followed by `tail`.
fn script_rule_text(name: &String, tail: &str) -> (s: String)
    ensures
        s@ == "script rule "@ + quoted(name@) + tail@,
{
    let mut s = String::new();
    push_str(&mut s, "script rule '");
    push_str(&mut s, name.as_str());
    push_str(&mut s, "'");
    push_str(&mut s, tail);
    proof {
        reveal_strlit("'");
        reveal_strlit("script rule '");
        reveal_strlit("script rule ");
    }
    assert(s@ =~= "script rule "@ + quoted(name@) + tail@);
    s
}

/// The first number given to a finding made of a fired rule.
pub const FIRST_FINDING_ID: u64 = 1_000_000;

/// The number after `n`, wrapping past the largest.
pub open spec fn next_after(n: u64) -> u64 {
    if n == u64::MAX {
        0
    } else {
        (n + 1) as u64
    }
}

/// Numbers for the findings made of fired rules: each finding takes the
/// next one, starting at [`FIRST_FINDING_ID`].
pub struct FindingIds {
    pub next: u64,
}

impl FindingIds {
    /// A counter whose first number is [`FIRST_FINDING_ID`].
    pub fn new() -> (c: Self)
        ensures
            c.next == FIRST_FINDING_ID,
    {
        FindingIds { next: FIRST_FINDING_ID }
    }

    /// Takes the next number.
    pub fn take(&mut self) -> (id: u64)
        ensures
            id == old(self).next,
            final(self).next == next_after(old(self).next),
    {
        let id = self.next;
        self.next = self.next.wrapping_add(1);
        id
    }
}

/// The diagnostic finding made of a fired rule, numbered with the next
/// number of `ids`.
pub fn script_finding(action: &RuleAction, ids: &mut FindingIds) -> (f: ScriptFinding)
    ensures
        finding_of(action@, old(ids).next, f),
        final(ids).next == next_after(old(ids).next),
{
    let id = ids.take();
    finding_with_id(action, id)
}

/// The diagnostic finding made of a fired rule, numbered `id`.
fn finding_with_id(action: &RuleAction, id: u64) -> (f: ScriptFinding)
    ensures
        finding_of(action@, id, f),
{
    let severity = if action.severity == 2 {
        DiagSeverity::Critical
    } else if action.severity == 1 {
        DiagSeverity::Warning
    } else {
        DiagSeverity::Info
    };
    let recommendation = if action.action == 2 {
        RecommendedAction::KillProcess {
            pid: action.target_pid,
            reason: script_rule_text(&action.rule_name, " triggered kill"),
        }
    } else if action.action == 1 {
        RecommendedAction::Investigate { what: script_rule_text(&action.rule_name, " raised alert") }
    } else {
        RecommendedAction::NoAction { reason: script_rule_text(&action.rule_name, " logged event") }
    };
    let urgency = match severity {
        DiagSeverity::Critical => Urgency::Immediate,
        DiagSeverity::Warning => Urgency::Soon,
        DiagSeverity::Info => Urgency::Informational,
    };
    let mut summary = String::new();
    push_str(&mut summary, "[script] rule '");
    push_str(&mut summary, action.rule_name.as_str());
    push_str(&mut summary, "' fired on pid ");
    push_decimal(&mut summary, action.target_pid as u64);
    let mut context = String::new();
    push_str(&mut context, "action=");
    push_decimal(&mut context, action.action as u64);
    push_str(&mut context, ", severity=");
    push_decimal(&mut context, action.severity as u64);
    let mut reason = String::new();
    push_str(&mut reason, "triggered by .aether rule '");
    push_str(&mut reason, action.rule_name.as_str());
    push_str(&mut reason, "'");
    proof {
        reveal_strlit("'");
        reveal_strlit("[script] rule '");
        reveal_strlit("[script] rule ");
        reveal_strlit("' fired on pid ");
        reveal_strlit(" fired on pid ");
        reveal_strlit("triggered by .aether rule '");
        reveal_strlit("triggered by .aether rule ");
    }
    assert(summary@ =~= "[script] rule "@ + quoted(action.rule_name@) + " fired on pid "@ + spec_decimal(
        action.target_pid as nat,
    ));
    assert(reason@ =~= "triggered by .aether rule "@ + quoted(action.rule_name@));
    assert(context@ =~= "action="@ + spec_decimal(action.action as nat) + ", severity="@ + spec_decimal(
        action.severity as nat,
    ));
    let mut host = String::new();
    push_str(&mut host, "local");
    let mut metric = String::new();
    push_str(&mut metric, "script_rule");
    ScriptFinding {
        id,
        host,
        target: DiagTarget::Process { pid: action.target_pid, name: String::new() },
        category: DiagCategory::ScriptRule,
        severity,
        summary,
        evidence_metric: metric,
        evidence_context: context,
        recommendation,
        recommendation_reason: reason,
        urgency,
        auto_executable: false,
    }
}

/// Position of `name` in `names`, if it occurs.
pub open spec fn first_index(names: Seq<Seq<char>>, name: Seq<char>) -> Option<int>
    decreases names.len(),
{
    if names.len() == 0 {
        None
    } else {
        match first_index(names.drop_last(), name) {
            Some(i) => Some(i),
            None => if names.last() == name { Some(names.len() - 1) } else { None },
        }
    }
}

proof fn lemma_first_index_range(names: Seq<Seq<char>>, name: Seq<char>)
    ensures
        first_index(names, name) matches Some(i) ==> 0 <= i < names.len() && names[i] == name,
    decreases names.len(),
{
    if names.len() > 0 {
        lemma_first_index_range(names.drop_last(), name);
    }
}

impl RulesDisplayState {
    /// The display state for freshly loaded rules: their names, no matches.
    pub fn for_rules(names: &Vec<String>) -> (s: Self)
        ensures
            s@.rule_names == names@.map_values(|n: String| n@),
            s@.match_counts == Seq::new(names@.len(), |i: int| 0u64),
            s@.total_evaluations == 0,
            s@.total_actions == 0,
    {
        let mut rule_names: Vec<String> = Vec::new();
        let mut match_counts: Vec<u64> = Vec::new();
        let mut i: usize = 0;
        while i < names.len()
            invariant
                i <= names.len(),
                rule_names@.len() == i,
                match_counts@.len() == i,
                forall|k: int| 0 <= k < i ==> #[trigger] rule_names@[k]@ == names@[k]@,
                forall|k: int| 0 <= k < i ==> #[trigger] match_counts@[k] == 0,
            decreases names.len() - i,
        {
            rule_names.push(copy_string(&names[i]));
            match_counts.push(0);
            i = i + 1;
        }
        let s = RulesDisplayState { rule_names, match_counts, total_evaluations: 0, total_actions: 0 };
        assert(s@.rule_names =~= names@.map_values(|n: String| n@));
        assert(s@.match_counts =~= Seq::new(names@.len(), |i: int| 0u64));
        s
    }

    /// Counts one action fired by the rule `rule_name`: the total, and the
    /// rule's own count where the rule is listed.
    pub fn record_action(&mut self, rule_name: &String)
        requires
            old(self)@.total_actions < u64::MAX,
            match first_index(old(self)@.rule_names, rule_name@) {
                Some(i) => i < old(self)@.match_counts.len() ==> old(self)@.match_counts[i] < u64::MAX,
                None => true,
            },
        ensures
            final(self)@.total_actions == old(self)@.total_actions + 1,
            final(self)@.total_evaluations == old(self)@.total_evaluations,
            final(self)@.rule_names == old(self)@.rule_names,
            final(self)@.match_counts == match first_index(old(self)@.rule_names, rule_name@) {
                Some(i) => if i < old(self)@.match_counts.len() {
                    old(self)@.match_counts.update(i, (old(self)@.match_counts[i] + 1) as u64)
                } else {
                    old(self)@.match_counts
                },
                None => old(self)@.match_counts,
            },
    {
        self.total_actions = self.total_actions + 1;
        let ghost names = self@.rule_names;
        proof {
            lemma_first_index_range(names, rule_name@);
        }
        let mut i: usize = 0;
        while i < self.rule_names.len()
            invariant
                i <= self.rule_names.len(),
                names == self@.rule_names,
                self@.match_counts == old(self)@.match_counts,
                self@.total_actions == old(self)@.total_actions + 1,
                self@.total_evaluations == old(self)@.total_evaluations,
                names == old(self)@.rule_names,
                match first_index(old(self)@.rule_names, rule_name@) {
                    Some(j) => j < old(self)@.match_counts.len() ==> old(self)@.match_counts[j] < u64::MAX,
                    None => true,
                },
                forall|k: int| 0 <= k < i ==> names[k] != rule_name@,
            decreases self.rule_names.len() - i,
        {
            if crate::script::strings::string_is(&self.rule_names[i], rule_name.as_str()) {
                proof {
                    lemma_first_index_prefix(names, rule_name@, i as int);
                }
                if i < self.match_counts.len() {
                    let c = self.match_counts[i];
                    self.match_counts.set(i, c + 1);
                }
                assert(self@.rule_names =~= names);
                return;
            }
            i = i + 1;
        }
        proof {
            lemma_first_index_absent(names, rule_name@);
        }
    }
}

/// A name first found at `i` is the first index.
proof fn lemma_first_index_prefix(names: Seq<Seq<char>>, name: Seq<char>, i: int)
    requires
        0 <= i < names.len(),
        names[i] == name,
        forall|k: int| 0 <= k < i ==> names[k] != name,
    ensures
        first_index(names, name) == Some(i),
    decreases names.len(),
{
    if i < names.len() - 1 {
        lemma_first_index_prefix(names.drop_last(), name, i);
    } else {
        lemma_first_index_absent(names.drop_last(), name);
    }
}

/// A name that occurs nowhere has no index.
proof fn lemma_first_index_absent(names: Seq<Seq<char>>, name: Seq<char>)
    requires
        forall|k: int| 0 <= k < names.len() ==> names[k] != name,
    ensures
        first_index(names, name) is None,
    decreases names.len(),
{
    if names.len() > 0 {
        lemma_first_index_absent(names.drop_last(), name);
    }
}

/// The counts after firings of `names`, in order.
pub open spec fn counts_after_all(v: Seq<(Seq<char>, u64)>, names: Seq<Seq<char>>) -> Seq<(Seq<char>, u64)>
    decreases names.len(),
{
    if names.len() == 0 {
        v
    } else {
        counts_after(counts_after_all(v, names.drop_last()), names.last())
    }
}

/// The names of the rules behind a list of actions.
pub open spec fn action_names(v: Seq<RuleAction>) -> Seq<Seq<char>> {
    v.map_values(|a: RuleAction| a.rule_name@)
}

/// One more firing keeps every count within `bound - 1` of the maximum if
/// all were within `bound` of it.
proof fn lemma_counts_after_bound(v: Seq<(Seq<char>, u64)>, name: Seq<char>, bound: nat)
    requires
        1 <= bound <= u64::MAX,
        forall|k: int| 0 <= k < v.len() ==> #[trigger] v[k].1 + bound <= u64::MAX,
    ensures
        forall|k: int|
            0 <= k < counts_after(v, name).len() ==> #[trigger] counts_after(v, name)[k].1 + (bound - 1)
                <= u64::MAX,
{
    match index_of_name(v, name, 0) {
        Some(i) => {
            lemma_index_of_name_range(v, name, 0);
        },
        None => {},
    }
}

proof fn lemma_index_of_name_range(v: Seq<(Seq<char>, u64)>, name: Seq<char>, i: int)
    requires
        0 <= i,
    ensures
        index_of_name(v, name, i) matches Some(j) ==> i <= j < v.len() && v[j].0 == name,
    decreases v.len() - i,
{
    if i < v.len() && v[i].0 != name {
        lemma_index_of_name_range(v, name, i + 1);
    }
}

impl EngineStats {
    /// Counts a snapshot's evaluation: each fired action in order, then
    /// one evaluation per process.
    pub fn record_snapshot(&mut self, actions: &[RuleAction], process_count: u64)
        requires
            old(self).wf(),
            old(self).actions_triggered + actions@.len() <= u64::MAX,
            old(self).evaluations + process_count <= u64::MAX,
            forall|i: int|
                0 <= i < old(self).rule_match_counts@.len() ==> #[trigger] old(self).rule_match_counts@[i].1
                    + actions@.len() <= u64::MAX,
        ensures
            final(self).wf(),
            final(self).actions_triggered == old(self).actions_triggered + actions@.len(),
            final(self).evaluations == old(self).evaluations + process_count,
            counts_view(final(self).rule_match_counts@) == counts_after_all(
                counts_view(old(self).rule_match_counts@),
                action_names(actions@),
            ),
    {
        let ghost names = action_names(actions@);
        let ghost start = counts_view(self.rule_match_counts@);
        let mut i: usize = 0;
        assert(names.take(0) =~= Seq::<Seq<char>>::empty());
        while i < actions.len()
            invariant
                self.wf(),
                i <= actions.len(),
                names == action_names(actions@),
                self.actions_triggered == old(self).actions_triggered + i,
                self.evaluations == old(self).evaluations,
                old(self).actions_triggered + actions@.len() <= u64::MAX,
                counts_view(self.rule_match_counts@) == counts_after_all(start, names.take(i as int)),
                forall|k: int|
                    0 <= k < self.rule_match_counts@.len() ==> #[trigger] self.rule_match_counts@[k].1 + (
                    actions@.len() - i) <= u64::MAX,
            decreases actions.len() - i,
        {
            let ghost before = counts_view(self.rule_match_counts@);
            proof {
                assert forall|k: int| 0 <= k < before.len() implies #[trigger] before[k].1 + (actions@.len() - i)
                    <= u64::MAX by {
                    assert(before[k].1 == self.rule_match_counts@[k].1);
                }
                lemma_counts_after_bound(before, actions@[i as int].rule_name@, (actions@.len() - i) as nat);
            }
            self.record_action(&actions[i].rule_name);
            proof {
                assert(names.take(i as int + 1).drop_last() =~= names.take(i as int));
                assert(names.take(i as int + 1).last() == actions@[i as int].rule_name@);
                let after = counts_view(self.rule_match_counts@);
                assert forall|k: int| 0 <= k < self.rule_match_counts@.len() implies #[trigger] self.rule_match_counts@[k].1
                    + (actions@.len() - (i + 1)) <= u64::MAX by {
                    assert(after[k].1 == self.rule_match_counts@[k].1);
                }
            }
            i = i + 1;
        }
        assert(names.take(actions.len() as int) =~= names);
        self.record_evaluations(process_count);
    }
}

} // verus!
