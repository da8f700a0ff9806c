//! Messages that dashboard clients send over the WebSocket, and the
//! arbiter decisions they carry.
use vstd::prelude::*;

use crate::model::{DiagSeverity, ProcessState};
use crate::script::strings::{chars_of, copy_string, digit_value, digits_value, is_digit, push_str};
use crate::tui::diagnostics::count_severity;
use crate::tui::network::{protocol_label, protocol_name, Protocol};
use crate::web::api::{
    compute_diagnostic_stats, diagnostic_to_response, record_severities, response_of, ConnectionResponse, DiagnosticEntry,
    DiagnosticRecord, DiagnosticStatsResponse,
};

verus! {

/// Messages sent by the client.
#[derive(Debug)]
pub enum ClientMessage {
    /// The client selected a process.
    SelectProcess { pid: u32 },
    /// The client approved or denied an arbiter action.
    ArbiterAction { action: String, action_id: String },
}

/// What an arbiter message asks for.
#[derive(Debug, Clone, Copy, PartialEq, Eq, Structural)]
pub enum ArbiterCommand {
    /// Approve the action with this index.
    Approve(usize),
    /// Deny the action with this index.
    Deny(usize),
}

/// Why an arbiter message was ignored.
#[derive(Debug, Clone, Copy, PartialEq, Eq, Structural)]
pub enum CommandError {
    /// The action id is not a whole number that fits.
    InvalidId,
    /// The action is neither `approve` nor `deny`.
    UnknownAction,
}

/// The digits of `s` after an optional leading `+`.
pub open spec fn unsigned_digits(s: Seq<char>) -> Seq<char> {
    if s.len() > 0 && s[0] == '+' { s.drop_first() } else { s }
}

/// The value of `s` as `usize::from_str` reads it: an optional `+`, then
/// one or more ASCII digits, with a value that fits.
pub open spec fn usize_text_value(s: Seq<char>) -> Option<nat> {
    let d = unsigned_digits(s);
    if d.len() > 0 && (forall|i: int| 0 <= i < d.len() ==> #[trigger] is_digit(d[i])) && digits_value(d)
        <= usize::MAX {
        Some(digits_value(d))
    } else {
        None
    }
}

/// Reads a whole number as `usize::from_str` does.
pub fn parse_usize(s: &str) -> (r: Option<usize>)
    ensures
        match usize_text_value(s@) {
            Some(v) => r == Some(v as usize),
            None => r is None,
        },
{
    let chars = chars_of(s);
    let start: usize = if chars.len() > 0 && chars[0] == '+' { 1 } else { 0 };
    let ghost d = unsigned_digits(s@);
    assert(d =~= chars@.subrange(start as int, chars.len() as int));
    if start >= chars.len() {
        return None;
    }
    let mut v: usize = 0;
    let mut i: usize = start;
    while i < chars.len()
        invariant
            start <= i <= chars.len(),
            d == chars@.subrange(start as int, chars.len() as int),
            d == unsigned_digits(s@),
            d.len() > 0,
            forall|k: int| 0 <= k < i - start ==> #[trigger] is_digit(d[k]),
            v == digits_value(d.take(i - start)),
        decreases chars.len() - i,
    {
        let c = chars[i];
        if !('0' <= c && c <= '9') {
            proof {
                assert(!is_digit(d[i - start]));
                assert(!(forall|k: int| 0 <= k < d.len() ==> #[trigger] is_digit(d[k])));
                assert(usize_text_value(s@) is None);
            }
            return None;
        }
        let dv = (c as u32 - '0' as u32) as usize;
        assert(d.take(i - start + 1).drop_last() =~= d.take(i - start));
        assert(dv == digit_value(c));
        if v > (usize::MAX - dv) / 10 {
            proof {
                lemma_digits_prefix_bound(d, i - start + 1);
                assert(digits_value(d.take(i - start + 1)) == v * 10 + dv);
                assert(v * 10 + dv > usize::MAX);
                assert(digits_value(d) > usize::MAX);
                assert(usize_text_value(s@) is None);
            }
            return None;
        }
        v = v * 10 + dv;
        i = i + 1;
    }
    assert(d.take(d.len() as int) =~= d);
    Some(v)
}

/// A prefix of digits is worth no more than the whole.
proof fn lemma_digits_prefix_bound(d: Seq<char>, n: int)
    requires
        0 <= n <= d.len(),
    ensures
        digits_value(d.take(n)) <= digits_value(d),
    decreases d.len(),
{
    if n < d.len() {
        assert(d.drop_last().take(n) =~= d.take(n));
        lemma_digits_prefix_bound(d.drop_last(), n);
    } else {
        assert(d.take(n) =~= d);
    }
}

/// The command an arbiter message carries: its id must read as a whole
/// number, then its action must be `approve` or `deny`.
pub open spec fn arbiter_command_of(action: Seq<char>, action_id: Seq<char>) -> Result<ArbiterCommand, CommandError> {
    match usize_text_value(action_id) {
        None => Err(CommandError::InvalidId),
        Some(id) => if action == "approve"@ {
            Ok(ArbiterCommand::Approve(id as usize))
        } else if action == "deny"@ {
            Ok(ArbiterCommand::Deny(id as usize))
        } else {
            Err(CommandError::UnknownAction)
        },
    }
}

/// Reads the command of an arbiter message.
pub fn arbiter_command(action: &str, action_id: &str) -> (r: Result<ArbiterCommand, CommandError>)
    ensures
        r == arbiter_command_of(action@, action_id@),
{
    let id = match parse_usize(action_id) {
        Some(id) => id,
        None => return Err(CommandError::InvalidId),
    };
    let a = action.to_owned();
    if crate::script::strings::string_is(&a, "approve") {
        Ok(ArbiterCommand::Approve(id))
    } else if crate::script::strings::string_is(&a, "deny") {
        Ok(ArbiterCommand::Deny(id))
    } else {
        Err(CommandError::UnknownAction)
    }
}

// ── The world update pushed to dashboard clients ───────────────────

/// A process as the world update reports it (its CPU share, health and
/// position are floating-point and are added by the server).
#[derive(Debug)]
pub struct WorldProcess {
    pub pid: u32,
    pub ppid: u32,
    pub name: String,
    pub mem_bytes: u64,
    pub state: ProcessState,
    pub xp: u64,
}

/// A connection between two processes.
#[derive(Debug, Clone, Copy)]
pub struct WorldEdge {
    pub from_pid: u32,
    pub to_pid: u32,
    pub protocol: Protocol,
    pub bytes_per_sec: u64,
}

/// A process entry of the world update.
#[derive(Debug)]
pub struct ProcessEntry {
    pub pid: u32,
    pub ppid: u32,
    pub name: String,
    pub mem_bytes: u64,
    pub state: String,
    pub xp: u64,
}

/// The integer part of the world update: processes, connections, their
/// counts, the total memory, the diagnostics and their counts, and the
/// time.
#[derive(Debug)]
pub struct WorldUpdate {
    pub kind: String,
    pub processes: Vec<ProcessEntry>,
    pub connections: Vec<ConnectionResponse>,
    pub process_count: usize,
    pub total_memory: u64,
    pub diagnostics: Vec<DiagnosticEntry>,
    pub diagnostic_stats: DiagnosticStatsResponse,
    pub timestamp: u64,
}

/// The name of a process state in the world update.
pub open spec fn state_name(s: ProcessState) -> Seq<char> {
    match s {
        ProcessState::Running => "Running"@,
        ProcessState::Sleeping => "Sleeping"@,
        ProcessState::Zombie => "Zombie"@,
        ProcessState::Stopped => "Stopped"@,
    }
}

/// Each state has its own name in the world update, and that name begins
/// with the short label the process table shows for the same state
/// (`Sleep` for `Sleeping`).
pub proof fn lemma_state_names_distinct(a: ProcessState, b: ProcessState)
    ensures
        state_name(a) == state_name(b) ==> a == b,
        crate::tui::overview::state_label(a).len() <= state_name(a).len(),
        state_name(a).subrange(0, crate::tui::overview::state_label(a).len() as int)
            == crate::tui::overview::state_label(a),
{
    reveal_strlit("Running");
    reveal_strlit("Sleeping");
    reveal_strlit("Zombie");
    reveal_strlit("Stopped");
    reveal_strlit("Run");
    reveal_strlit("Sleep");
    reveal_strlit("Stop");
    let na = state_name(a);
    let la = crate::tui::overview::state_label(a);
    assert(na.subrange(0, la.len() as int) =~= la);
    if state_name(a) == state_name(b) && a != b {
        let nb = state_name(b);
        assert(na.len() != nb.len() || na[1] != nb[1] || na[2] != nb[2]);
    }
}

fn state_label(s: ProcessState) -> (r: &'static str)
    ensures
        r@ == state_name(s),
{
    match s {
        ProcessState::Running => "Running",
        ProcessState::Sleeping => "Sleeping",
        ProcessState::Zombie => "Zombie",
        ProcessState::Stopped => "Stopped",
    }
}

/// Total memory of the processes.
pub open spec fn memory_total(p: Seq<WorldProcess>) -> nat
    decreases p.len(),
{
    if p.len() == 0 {
        0
    } else {
        memory_total(p.drop_last()) + p.last().mem_bytes as nat
    }
}

proof fn lemma_memory_total_prefix(p: Seq<WorldProcess>, n: int)
    requires
        0 <= n <= p.len(),
    ensures
        memory_total(p.take(n)) <= memory_total(p),
    decreases p.len(),
{
    if n < p.len() {
        assert(p.drop_last().take(n) =~= p.take(n));
        lemma_memory_total_prefix(p.drop_last(), n);
    } else {
        assert(p.take(n) =~= p);
    }
}

/// The world update pushed at time `now` (milliseconds since the epoch):
/// one entry per process, per connection and per diagnostic, in order, the
/// process count, the total memory, and the diagnostic counts by severity.
pub fn world_update(procs: &[WorldProcess], edges: &[WorldEdge], diags: &[DiagnosticRecord], now: u64) -> (u: WorldUpdate)
    requires
        memory_total(procs@) <= u64::MAX,
        diags@.len() <= u32::MAX,
    ensures
        u.kind@ == "world_state"@,
        u.processes@.len() == procs@.len(),
        forall|i: int|
            0 <= i < procs@.len() ==> {
                &&& (#[trigger] u.processes@[i]).pid == procs@[i].pid
                &&& u.processes@[i].ppid == procs@[i].ppid
                &&& u.processes@[i].name@ == procs@[i].name@
                &&& u.processes@[i].mem_bytes == procs@[i].mem_bytes
                &&& u.processes@[i].state@ == state_name(procs@[i].state)
                &&& u.processes@[i].xp == procs@[i].xp
            },
        u.connections@.len() == edges@.len(),
        forall|i: int|
            0 <= i < edges@.len() ==> {
                &&& (#[trigger] u.connections@[i]).from_pid == edges@[i].from_pid
                &&& u.connections@[i].to_pid == edges@[i].to_pid
                &&& u.connections@[i].protocol@ == protocol_name(edges@[i].protocol)
                &&& u.connections@[i].bytes_per_sec == edges@[i].bytes_per_sec
            },
        u.process_count == procs@.len(),
        u.total_memory == memory_total(procs@),
        u.diagnostics@.len() == diags@.len(),
        forall|i: int| 0 <= i < diags@.len() ==> response_of(diags@[i], #[trigger] u.diagnostics@[i]),
        u.diagnostic_stats.critical == count_severity(record_severities(diags@), DiagSeverity::Critical),
        u.diagnostic_stats.warning == count_severity(record_severities(diags@), DiagSeverity::Warning),
        u.diagnostic_stats.info == count_severity(record_severities(diags@), DiagSeverity::Info),
        u.diagnostic_stats.total == diags@.len(),
        u.timestamp == now,
{
    let mut processes: Vec<ProcessEntry> = Vec::new();
    let mut total: u64 = 0;
    let mut i: usize = 0;
    while i < procs.len()
        invariant
            i <= procs@.len(),
            memory_total(procs@) <= u64::MAX,
            total == memory_total(procs@.take(i as int)),
            processes@.len() == i,
            forall|k: int|
                0 <= k < i ==> {
                    &&& (#[trigger] processes@[k]).pid == procs@[k].pid
                    &&& processes@[k].ppid == procs@[k].ppid
                    &&& processes@[k].name@ == procs@[k].name@
                    &&& processes@[k].mem_bytes == procs@[k].mem_bytes
                    &&& processes@[k].state@ == state_name(procs@[k].state)
                    &&& processes@[k].xp == procs@[k].xp
                },
        decreases procs@.len() - i,
    {
        let p = &procs[i];
        proof {
            assert(procs@.take(i as int + 1).drop_last() =~= procs@.take(i as int));
            lemma_memory_total_prefix(procs@, i as int + 1);
        }
        total = total + p.mem_bytes;
        let mut state = String::new();
        push_str(&mut state, state_label(p.state));
        processes.push(
            ProcessEntry {
                pid: p.pid,
                ppid: p.ppid,
                name: copy_string(&p.name),
                mem_bytes: p.mem_bytes,
                state,
                xp: p.xp,
            },
        );
        i = i + 1;
    }
    assert(procs@.take(procs@.len() as int) =~= procs@);
    let mut connections: Vec<ConnectionResponse> = Vec::new();
    let mut j: usize = 0;
    while j < edges.len()
        invariant
            j <= edges@.len(),
            connections@.len() == j,
            forall|k: int|
                0 <= k < j ==> {
                    &&& (#[trigger] connections@[k]).from_pid == edges@[k].from_pid
                    &&& connections@[k].to_pid == edges@[k].to_pid
                    &&& connections@[k].protocol@ == protocol_name(edges@[k].protocol)
                    &&& connections@[k].bytes_per_sec == edges@[k].bytes_per_sec
                },
        decreases edges@.len() - j,
    {
        let e = edges[j];
        let mut protocol = String::new();
        push_str(&mut protocol, protocol_label(e.protocol));
        connections.push(
            ConnectionResponse { from_pid: e.from_pid, to_pid: e.to_pid, protocol, bytes_per_sec: e.bytes_per_sec },
        );
        j = j + 1;
    }
    let mut diagnostics: Vec<DiagnosticEntry> = Vec::new();
    let mut severities: Vec<DiagSeverity> = Vec::new();
    let mut d: usize = 0;
    while d < diags.len()
        invariant
            d <= diags@.len(),
            diagnostics@.len() == d,
            severities@ == record_severities(diags@).take(d as int),
            forall|k: int| 0 <= k < d ==> response_of(diags@[k], #[trigger] diagnostics@[k]),
        decreases diags@.len() - d,
    {
        diagnostics.push(diagnostic_to_response(&diags[d]));
        severities.push(diags[d].severity);
        assert(severities@ =~= record_severities(diags@).take(d as int + 1));
        d = d + 1;
    }
    assert(record_severities(diags@).take(diags@.len() as int) =~= record_severities(diags@));
    let mut kind = String::new();
    push_str(&mut kind, "world_state");
    WorldUpdate {
        kind,
        processes,
        connections,
        process_count: procs.len(),
        total_memory: total,
        diagnostics,
        diagnostic_stats: compute_diagnostic_stats(severities.as_slice()),
        timestamp: now,
    }
}

} // verus!
