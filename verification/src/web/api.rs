//! Response data of the REST API and the decisions its handlers make.
use vstd::prelude::*;

use crate::model::{AgentAction, DiagSeverity, SpecAgentAction};
use crate::script::strings::{copy_string, push_decimal, push_str, spec_decimal};
use crate::tui::diagnostics::{count_severity, DiagTarget};

verus! {

/// JSON representation of a network edge.
#[derive(Debug)]
pub struct ConnectionResponse {
    pub from_pid: u32,
    pub to_pid: u32,
    pub protocol: String,
    pub bytes_per_sec: u64,
}

/// JSON representation of a pending arbiter action.
#[derive(Debug)]
pub struct ArbiterActionResponse {
    pub id: String,
    pub source: String,
    pub action: String,
    pub pid: u32,
}

/// Recommended action for a diagnostic.
#[derive(Debug, Clone)]
pub struct RecommendationResponse {
    pub action: String,
    pub reason: String,
    pub urgency: String,
}

/// Aggregate diagnostic severity counts.
#[derive(Debug, Clone, Copy, PartialEq, Eq, Structural)]
pub struct DiagnosticStatsResponse {
    pub critical: u32,
    pub warning: u32,
    pub info: u32,
    pub total: u32,
}

/// Query parameters for filtering diagnostics.
#[derive(Debug)]
pub struct DiagnosticFilter {
    pub severity: Option<String>,
    pub host: Option<String>,
}

/// Active diagnostic counts by severity.
#[derive(Debug, Clone, Copy, PartialEq, Eq, Structural)]
pub struct DiagnosticsActive {
    pub critical: u32,
    pub warning: u32,
    pub info: u32,
}

/// Query parameters for metrics history.
#[derive(Debug)]
pub struct MetricsHistoryQuery {
    pub metric: String,
    pub duration: u64,
}

/// Window of a metrics history query that names none, in seconds.
pub fn default_duration() -> (d: u64)
    ensures
        d == 300,
{
    300
}

/// Counts findings by severity.
pub fn compute_diagnostic_stats(severities: &[DiagSeverity]) -> (r: DiagnosticStatsResponse)
    requires
        severities@.len() <= u32::MAX,
    ensures
        r.critical == count_severity(severities@, DiagSeverity::Critical),
        r.warning == count_severity(severities@, DiagSeverity::Warning),
        r.info == count_severity(severities@, DiagSeverity::Info),
        r.total == severities@.len(),
{
    let ghost s = severities@;
    let mut critical: u32 = 0;
    let mut warning: u32 = 0;
    let mut info: u32 = 0;
    let mut i: usize = 0;
    while i < severities.len()
        invariant
            s == severities@,
            s.len() <= u32::MAX,
            i <= s.len(),
            critical == count_severity(s.take(i as int), DiagSeverity::Critical),
            warning == count_severity(s.take(i as int), DiagSeverity::Warning),
            info == count_severity(s.take(i as int), DiagSeverity::Info),
            critical + warning + info == i,
        decreases s.len() - i,
    {
        assert(s.take(i as int + 1).drop_last() =~= s.take(i as int));
        match severities[i] {
            DiagSeverity::Critical => critical = critical + 1,
            DiagSeverity::Warning => warning = warning + 1,
            DiagSeverity::Info => info = info + 1,
        }
        i = i + 1;
    }
    assert(s.take(s.len() as int) =~= s);
    DiagnosticStatsResponse { critical, warning, info, total: critical + warning + info }
}

/// The active counts of a stats response.
pub fn active_counts(stats: &DiagnosticStatsResponse) -> (a: DiagnosticsActive)
    ensures
        a == (DiagnosticsActive { critical: stats.critical, warning: stats.warning, info: stats.info }),
{
    DiagnosticsActive { critical: stats.critical, warning: stats.warning, info: stats.info }
}

/// An action as the API names it, as in `kill_process(1234)`.
pub open spec fn action_call_text(a: SpecAgentAction) -> Seq<char> {
    match a {
        SpecAgentAction::KillProcess { pid } => "kill_process("@ + spec_decimal(pid as nat) + ")"@,
        SpecAgentAction::RestartService { name } => "restart_service("@ + name + ")"@,
        SpecAgentAction::Inspect { pid } => "inspect("@ + spec_decimal(pid as nat) + ")"@,
        SpecAgentAction::CustomScript { command } => "custom_script("@ + command + ")"@,
    }
}

/// An action as the API names it, as in `kill_process(1234)`.
pub fn format_action(action: &AgentAction) -> (s: String)
    ensures
        s@ == action_call_text(action@),
{
    let mut s = String::new();
    match action {
        AgentAction::KillProcess { pid } => {
            push_str(&mut s, "kill_process(");
            push_decimal(&mut s, *pid as u64);
        },
        AgentAction::RestartService { name } => {
            push_str(&mut s, "restart_service(");
            push_str(&mut s, name.as_str());
        },
        AgentAction::Inspect { pid } => {
            push_str(&mut s, "inspect(");
            push_decimal(&mut s, *pid as u64);
        },
        AgentAction::CustomScript { command } => {
            push_str(&mut s, "custom_script(");
            push_str(&mut s, command.as_str());
        },
    }
    push_str(&mut s, ")");
    assert(s@ =~= action_call_text(action@));
    s
}

/// The action that a diagnostic recommends.
#[derive(Debug, Clone, PartialEq, Eq)]
pub enum RecommendedAction {
    KillProcess { pid: u32, reason: String },
    Restart { reason: String },
    Investigate { what: String },
    NoAction { reason: String },
}

/// The agent action queued for a recommendation, if it calls for one.
pub open spec fn recommended_action(r: RecommendedAction) -> Option<SpecAgentAction> {
    match r {
        RecommendedAction::KillProcess { pid, .. } => Some(SpecAgentAction::KillProcess { pid }),
        RecommendedAction::Restart { reason } => Some(SpecAgentAction::RestartService { name: reason@ }),
        RecommendedAction::Investigate { what } => Some(
            SpecAgentAction::CustomScript { command: "investigate: "@ + what@ },
        ),
        RecommendedAction::NoAction { .. } => None,
    }
}

/// The agent action queued when a diagnostic's recommendation is executed.
pub fn recommended_to_agent_action(action: &RecommendedAction) -> (r: Option<AgentAction>)
    ensures
        match recommended_action(*action) {
            Some(a) => r matches Some(x) && x@ == a,
            None => r is None,
        },
{
    match action {
        RecommendedAction::KillProcess { pid, .. } => Some(AgentAction::KillProcess { pid: *pid }),
        RecommendedAction::Restart { reason } => Some(AgentAction::RestartService { name: copy_string(reason) }),
        RecommendedAction::Investigate { what } => {
            let mut command = "investigate: ".to_owned();
            push_str(&mut command, what.as_str());
            Some(AgentAction::CustomScript { command })
        },
        RecommendedAction::NoAction { .. } => None,
    }
}

/// The connections of process `pid`, from it or to it, in order.
pub open spec fn touching(conns: Seq<(u32, u32)>, pid: u32) -> Seq<int>
    decreases conns.len(),
{
    if conns.len() == 0 {
        Seq::empty()
    } else {
        let rest = touching(conns.drop_last(), pid);
        if conns.last().0 == pid || conns.last().1 == pid {
            rest.push(conns.len() - 1)
        } else {
            rest
        }
    }
}

/// The endpoints of each connection.
pub open spec fn endpoints(v: Seq<ConnectionResponse>) -> Seq<(u32, u32)> {
    v.map_values(|c: ConnectionResponse| (c.from_pid, c.to_pid))
}

/// A copy of a connection.
pub fn copy_connection(c: &ConnectionResponse) -> (r: ConnectionResponse)
    ensures
        r.from_pid == c.from_pid,
        r.to_pid == c.to_pid,
        r.protocol@ == c.protocol@,
        r.bytes_per_sec == c.bytes_per_sec,
{
    ConnectionResponse {
        from_pid: c.from_pid,
        to_pid: c.to_pid,
        protocol: copy_string(&c.protocol),
        bytes_per_sec: c.bytes_per_sec,
    }
}

/// The connections from or to process `pid`, in order.
pub fn connections_of(pid: u32, conns: &[ConnectionResponse]) -> (r: Vec<ConnectionResponse>)
    ensures
        r@.len() == touching(endpoints(conns@), pid).len(),
        forall|k: int|
            0 <= k < r@.len() ==> {
                let j = #[trigger] touching(endpoints(conns@), pid)[k];
                &&& 0 <= j < conns@.len()
                &&& r@[k].from_pid == conns@[j].from_pid
                &&& r@[k].to_pid == conns@[j].to_pid
                &&& r@[k].protocol@ == conns@[j].protocol@
                &&& r@[k].bytes_per_sec == conns@[j].bytes_per_sec
            },
{
    let ghost e = endpoints(conns@);
    let mut r: Vec<ConnectionResponse> = Vec::new();
    let mut i: usize = 0;
    while i < conns.len()
        invariant
            i <= conns@.len(),
            e == endpoints(conns@),
            r@.len() == touching(e.take(i as int), pid).len(),
            forall|k: int|
                0 <= k < r@.len() ==> {
                    let j = #[trigger] touching(e.take(i as int), pid)[k];
                    &&& 0 <= j < i
                    &&& r@[k].from_pid == conns@[j].from_pid
                    &&& r@[k].to_pid == conns@[j].to_pid
                    &&& r@[k].protocol@ == conns@[j].protocol@
                    &&& r@[k].bytes_per_sec == conns@[j].bytes_per_sec
                },
        decreases conns.len() - i,
    {
        let ghost before = touching(e.take(i as int), pid);
        assert(e.take(i as int + 1).drop_last() =~= e.take(i as int));
        if conns[i].from_pid == pid || conns[i].to_pid == pid {
            r.push(copy_connection(&conns[i]));
        }
        i = i + 1;
    }
    assert(e.take(conns.len() as int) =~= e);
    r
}

/// Lower-case form of a string, as `str::to_lowercase` gives it.
pub uninterp spec fn lowercase(s: Seq<char>) -> Seq<char>;

/// `str::to_lowercase`: the lower-case form of `s` under Unicode's
/// case mapping. The contract names the result as a function of the text
/// alone; the mapping's tables are not restated.
#[verifier::external_body]
pub(crate) fn to_lowercase(s: &str) -> (r: String)
    ensures
        r@ == lowercase(s@),
{
    s.to_lowercase()
}

/// The name of a severity in the API.
pub open spec fn severity_name(s: DiagSeverity) -> Seq<char> {
    match s {
        DiagSeverity::Critical => "critical"@,
        DiagSeverity::Warning => "warning"@,
        DiagSeverity::Info => "info"@,
    }
}

impl DiagnosticFilter {
    /// Whether a finding of severity `severity` on host `host` passes the
    /// filter: its severity's name equals the lower-cased severity asked
    /// for, and its host the host asked for, where either is given.
    pub open spec fn spec_accepts(&self, severity: DiagSeverity, host: Seq<char>) -> bool {
        &&& (self.severity matches Some(sev) ==> severity_name(severity) == lowercase(sev@))
        &&& (self.host matches Some(h) ==> host == h@)
    }

    /// Whether a finding of severity `severity` on host `host` passes the
    /// filter, `lowered` being the lower-cased form of the severity asked
    /// for (unused when none is asked for).
    pub open spec fn accepts_given(&self, lowered: Seq<char>, severity: DiagSeverity, host: Seq<char>) -> bool {
        &&& (self.severity is Some ==> severity_name(severity) == lowered)
        &&& (self.host matches Some(h) ==> host == h@)
    }

    /// Whether a finding of severity `severity` on host `host` passes the
    /// filter, given the lower-cased form `lowered` of the severity asked for.
    pub fn accepts_lowered(&self, lowered: &str, severity: DiagSeverity, host: &str) -> (b: bool)
        ensures
            b == self.accepts_given(lowered@, severity, host@),
    {
        if self.severity.is_some() {
            let name = match severity {
                DiagSeverity::Critical => "critical",
                DiagSeverity::Warning => "warning",
                DiagSeverity::Info => "info",
            };
            if !crate::script::strings::str_is(lowered, name) {
                return false;
            }
        }
        if let Some(h) = &self.host {
            if !crate::script::strings::str_is(h.as_str(), host) {
                return false;
            }
        }
        true
    }

    /// Whether a finding of severity `severity` on host `host` passes the filter.
    pub fn accepts(&self, severity: DiagSeverity, host: &str) -> (b: bool)
        ensures
            b == self.spec_accepts(severity, host@),
    {
        match &self.severity {
            Some(sev) => {
                let wanted = to_lowercase(sev.as_str());
                self.accepts_lowered(wanted.as_str(), severity, host)
            },
            None => self.accepts_lowered("", severity, host),
        }
    }
}

// ── Diagnostic responses ───────────────────────────────────────────

/// A diagnostic as the API reads it. The category, the recommended
/// action and the urgency come as their printed names; of each piece of
/// evidence the metric name and its context (the measured values are
/// floating-point and added by the server).
#[derive(Debug)]
pub struct DiagnosticRecord {
    pub id: u64,
    pub host: String,
    pub target: DiagTarget,
    pub severity: DiagSeverity,
    pub category: String,
    pub summary: String,
    pub evidence: Vec<(String, String)>,
    pub action: String,
    pub reason: String,
    pub urgency: String,
}

/// A piece of evidence in a diagnostic response.
#[derive(Debug)]
pub struct EvidenceEntry {
    pub metric: String,
    pub context: String,
}

/// JSON representation of a diagnostic.
#[derive(Debug)]
pub struct DiagnosticEntry {
    pub id: u64,
    pub host: String,
    pub target_type: String,
    pub target_name: String,
    pub severity: String,
    pub category: String,
    pub summary: String,
    pub evidence: Vec<EvidenceEntry>,
    pub recommendation: RecommendationResponse,
}

/// The kind of a target in a diagnostic response.
pub open spec fn target_type_text(t: DiagTarget) -> Seq<char> {
    match t {
        DiagTarget::Process { .. } => "process"@,
        DiagTarget::Host(_) => "host"@,
        DiagTarget::Container { .. } => "container"@,
        DiagTarget::Disk { .. } => "disk"@,
        DiagTarget::Network { .. } => "network"@,
    }
}

/// The name of a target in a diagnostic response.
pub open spec fn target_name_text(t: DiagTarget) -> Seq<char> {
    match t {
        DiagTarget::Process { pid, name } => name@ + " (pid "@ + spec_decimal(pid as nat) + ")"@,
        DiagTarget::Host(id) => id@,
        DiagTarget::Container { name, id } => name@ + " ("@ + id@ + ")"@,
        DiagTarget::Disk { mount } => mount@,
        DiagTarget::Network { interface } => interface@,
    }
}

/// `e` is the response for diagnostic `d`: every field carried over, the
/// target split into kind and name, the severity by its API name, and the
/// evidence in order.
pub open spec fn response_of(d: DiagnosticRecord, e: DiagnosticEntry) -> bool {
    &&& e.id == d.id
    &&& e.host@ == d.host@
    &&& e.target_type@ == target_type_text(d.target)
    &&& e.target_name@ == target_name_text(d.target)
    &&& e.severity@ == severity_name(d.severity)
    &&& e.category@ == d.category@
    &&& e.summary@ == d.summary@
    &&& e.evidence@.len() == d.evidence@.len()
    &&& forall|i: int|
        0 <= i < d.evidence@.len() ==> (#[trigger] e.evidence@[i]).metric@ == d.evidence@[i].0@
            && e.evidence@[i].context@ == d.evidence@[i].1@
    &&& e.recommendation.action@ == d.action@
    &&& e.recommendation.reason@ == d.reason@
    &&& e.recommendation.urgency@ == d.urgency@
}

fn target_parts(t: &DiagTarget) -> (r: (String, String))
    ensures
        r.0@ == target_type_text(*t),
        r.1@ == target_name_text(*t),
{
    let mut kind = String::new();
    let mut name = String::new();
    match t {
        DiagTarget::Process { pid, name: n } => {
            push_str(&mut kind, "process");
            push_str(&mut name, n.as_str());
            push_str(&mut name, " (pid ");
            push_decimal(&mut name, *pid as u64);
            push_str(&mut name, ")");
        },
        DiagTarget::Host(id) => {
            push_str(&mut kind, "host");
            push_str(&mut name, id.as_str());
        },
        DiagTarget::Container { name: n, id } => {
            push_str(&mut kind, "container");
            push_str(&mut name, n.as_str());
            push_str(&mut name, " (");
            push_str(&mut name, id.as_str());
            push_str(&mut name, ")");
        },
        DiagTarget::Disk { mount } => {
            push_str(&mut kind, "disk");
            push_str(&mut name, mount.as_str());
        },
        DiagTarget::Network { interface } => {
            push_str(&mut kind, "network");
            push_str(&mut name, interface.as_str());
        },
    }
    (kind, name)
}

/// The response for a diagnostic.
pub fn diagnostic_to_response(d: &DiagnosticRecord) -> (e: DiagnosticEntry)
    ensures
        response_of(*d, e),
{
    let (target_type, target_name) = target_parts(&d.target);
    let mut severity = String::new();
    match d.severity {
        DiagSeverity::Critical => push_str(&mut severity, "critical"),
        DiagSeverity::Warning => push_str(&mut severity, "warning"),
        DiagSeverity::Info => push_str(&mut severity, "info"),
    }
    let mut evidence: Vec<EvidenceEntry> = Vec::new();
    let mut i: usize = 0;
    while i < d.evidence.len()
        invariant
            i <= d.evidence@.len(),
            evidence@.len() == i,
            forall|k: int|
                0 <= k < i ==> (#[trigger] evidence@[k]).metric@ == d.evidence@[k].0@ && evidence@[k].context@
                    == d.evidence@[k].1@,
        decreases d.evidence@.len() - i,
    {
        evidence.push(
            EvidenceEntry { metric: copy_string(&d.evidence[i].0), context: copy_string(&d.evidence[i].1) },
        );
        i = i + 1;
    }
    DiagnosticEntry {
        id: d.id,
        host: copy_string(&d.host),
        target_type,
        target_name,
        severity,
        category: copy_string(&d.category),
        summary: copy_string(&d.summary),
        evidence,
        recommendation: RecommendationResponse {
            action: copy_string(&d.action),
            reason: copy_string(&d.reason),
            urgency: copy_string(&d.urgency),
        },
    }
}

/// The severities of a list of diagnostics, in order.
pub open spec fn record_severities(v: Seq<DiagnosticRecord>) -> Seq<DiagSeverity> {
    v.map_values(|d: DiagnosticRecord| d.severity)
}

} // verus!
