//! Monitored targets: building them from their configuration entries, and
//! merging newly discovered ones into the list without duplicating an id.
use vstd::prelude::*;

use crate::script::strings::{copy_string, push_str, str_is};

verus! {

/// What kind of thing a target is.
#[derive(Debug, Clone, Copy, PartialEq, Eq, Structural)]
pub enum TargetKind {
    Service,
    Container,
    Pod,
    Process,
}

/// What an endpoint of a target serves.
#[derive(Debug, Clone, Copy, PartialEq, Eq, Structural)]
pub enum EndpointType {
    Prometheus,
    Health,
    TcpProbe,
    Logs,
}

/// An address at which a target is observed.
#[derive(Debug)]
pub struct Endpoint {
    pub url: String,
    pub endpoint_type: EndpointType,
}

/// A target as written in the configuration file.
#[derive(Debug)]
pub struct TargetConfig {
    pub name: String,
    pub kind: Option<String>,
    pub prometheus: Option<String>,
    pub health: Option<String>,
    pub probe_tcp: Option<String>,
    pub logs: Option<String>,
    pub labels: Vec<(String, String)>,
}

/// A monitored target. `discovered_at` is in seconds of the wall clock.
#[derive(Debug)]
pub struct Target {
    pub id: String,
    pub name: String,
    pub kind: TargetKind,
    pub endpoints: Vec<Endpoint>,
    pub labels: Vec<(String, String)>,
    pub discovered_at: u64,
}

/// View of an [`Endpoint`].
pub struct SpecEndpoint {
    pub url: Seq<char>,
    pub endpoint_type: EndpointType,
}

impl View for Endpoint {
    type V = SpecEndpoint;

    open spec fn view(&self) -> SpecEndpoint {
        SpecEndpoint { url: self.url@, endpoint_type: self.endpoint_type }
    }
}

/// The views of a list of labels.
pub open spec fn labels_view(v: Seq<(String, String)>) -> Seq<(Seq<char>, Seq<char>)> {
    v.map_values(|l: (String, String)| (l.0@, l.1@))
}

/// The views of a list of endpoints.
pub open spec fn endpoints_view(v: Seq<Endpoint>) -> Seq<SpecEndpoint> {
    v.map_values(|e: Endpoint| e@)
}

/// View of a [`Target`].
pub struct SpecTarget {
    pub id: Seq<char>,
    pub name: Seq<char>,
    pub kind: TargetKind,
    pub endpoints: Seq<SpecEndpoint>,
    pub labels: Seq<(Seq<char>, Seq<char>)>,
    pub discovered_at: u64,
}

impl View for Target {
    type V = SpecTarget;

    open spec fn view(&self) -> SpecTarget {
        SpecTarget {
            id: self.id@,
            name: self.name@,
            kind: self.kind,
            endpoints: endpoints_view(self.endpoints@),
            labels: labels_view(self.labels@),
            discovered_at: self.discovered_at,
        }
    }
}

/// The views of a list of targets.
pub open spec fn targets_view(v: Seq<Target>) -> Seq<SpecTarget> {
    v.map_values(|t: Target| t@)
}

/// The kind named in a configuration entry: "container", "pod" and
/// "process" name theirs; anything else, or nothing, is a service.
pub open spec fn kind_named(kind: Option<Seq<char>>) -> TargetKind {
    match kind {
        Some(k) => if k == "container"@ {
            TargetKind::Container
        } else if k == "pod"@ {
            TargetKind::Pod
        } else if k == "process"@ {
            TargetKind::Process
        } else {
            TargetKind::Service
        },
        None => TargetKind::Service,
    }
}

/// The endpoint for an optional address: none when absent.
pub open spec fn optional_endpoint(url: Option<Seq<char>>, prefix: Seq<char>, t: EndpointType) -> Seq<SpecEndpoint> {
    match url {
        Some(u) => seq![SpecEndpoint { url: prefix + u, endpoint_type: t }],
        None => Seq::empty(),
    }
}

/// The view of an optional string.
pub open spec fn opt_view(o: Option<String>) -> Option<Seq<char>> {
    match o {
        Some(s) => Some(s@),
        None => None,
    }
}

/// The endpoints of a configuration entry, in the order Prometheus,
/// health check, TCP probe (as a `tcp://` URL), logs.
pub open spec fn config_endpoints(tc: TargetConfig) -> Seq<SpecEndpoint> {
    optional_endpoint(opt_view(tc.prometheus), Seq::empty(), EndpointType::Prometheus) + optional_endpoint(
        opt_view(tc.health),
        Seq::empty(),
        EndpointType::Health,
    ) + optional_endpoint(opt_view(tc.probe_tcp), "tcp://"@, EndpointType::TcpProbe) + optional_endpoint(
        opt_view(tc.logs),
        Seq::empty(),
        EndpointType::Logs,
    )
}

fn kind_of(kind: &Option<String>) -> (k: TargetKind)
    ensures
        k == kind_named(opt_view(*kind)),
{
    match kind {
        Some(s) => if str_is(s.as_str(), "container") {
            TargetKind::Container
        } else if str_is(s.as_str(), "pod") {
            TargetKind::Pod
        } else if str_is(s.as_str(), "process") {
            TargetKind::Process
        } else {
            TargetKind::Service
        },
        None => TargetKind::Service,
    }
}

fn push_endpoint(v: &mut Vec<Endpoint>, url: &Option<String>, prefix: &str, t: EndpointType)
    ensures
        endpoints_view(final(v)@) == endpoints_view(old(v)@) + optional_endpoint(opt_view(*url), prefix@, t),
{
    let ghost before = endpoints_view(v@);
    if let Some(u) = url {
        let mut s = String::new();
        push_str(&mut s, prefix);
        push_str(&mut s, u.as_str());
        v.push(Endpoint { url: s, endpoint_type: t });
        assert(endpoints_view(v@) =~= before + optional_endpoint(opt_view(*url), prefix@, t));
    } else {
        assert(endpoints_view(v@) =~= before + optional_endpoint(opt_view(*url), prefix@, t));
    }
}

/// A copy of a list of labels.
fn copy_labels(labels: &Vec<(String, String)>) -> (r: Vec<(String, String)>)
    ensures
        labels_view(r@) == labels_view(labels@),
{
    let mut r: Vec<(String, String)> = Vec::new();
    let mut i: usize = 0;
    while i < labels.len()
        invariant
            i <= labels.len(),
            labels_view(r@) == labels_view(labels@).take(i as int),
        decreases labels.len() - i,
    {
        let ghost before = labels_view(r@);
        let a = copy_string(&labels[i].0);
        let b = copy_string(&labels[i].1);
        r.push((a, b));
        assert(labels_view(r@) =~= before.push(labels_view(labels@)[i as int]));
        assert(labels_view(r@) =~= labels_view(labels@).take(i as int + 1));
        i = i + 1;
    }
    assert(labels_view(labels@).take(labels.len() as int) =~= labels_view(labels@));
    r
}

/// The target for a configuration entry, discovered at `now`: its id is
/// `cfg-` and the entry's name, its kind the one named, its endpoints those
/// of the entry, and its labels the entry's.
pub fn target_from_config(tc: &TargetConfig, now: u64) -> (t: Target)
    ensures
        t@.id == "cfg-"@ + tc.name@,
        t@.name == tc.name@,
        t@.kind == kind_named(opt_view(tc.kind)),
        t@.endpoints == config_endpoints(*tc),
        t@.labels == labels_view(tc.labels@),
        t@.discovered_at == now,
{
    let mut endpoints: Vec<Endpoint> = Vec::new();
    assert(endpoints_view(endpoints@) =~= Seq::<SpecEndpoint>::empty());
    push_endpoint(&mut endpoints, &tc.prometheus, "", EndpointType::Prometheus);
    push_endpoint(&mut endpoints, &tc.health, "", EndpointType::Health);
    push_endpoint(&mut endpoints, &tc.probe_tcp, "tcp://", EndpointType::TcpProbe);
    push_endpoint(&mut endpoints, &tc.logs, "", EndpointType::Logs);
    proof {
        reveal_strlit("");
        assert(""@ =~= Seq::<char>::empty());
        assert(endpoints_view(endpoints@) =~= config_endpoints(*tc));
    }
    let mut id = String::new();
    push_str(&mut id, "cfg-");
    push_str(&mut id, tc.name.as_str());
    Target {
        id,
        name: copy_string(&tc.name),
        kind: kind_of(&tc.kind),
        endpoints,
        labels: copy_labels(&tc.labels),
        discovered_at: now,
    }
}

/// Whether some target of `s` has id `id`.
pub open spec fn has_id(s: Seq<SpecTarget>, id: Seq<char>) -> bool {
    exists|i: int| 0 <= i < s.len() && s[i].id == id
}

/// The list after merging `new` in order: a target whose id is already
/// listed (or was merged before it) is skipped, any other is appended.
pub open spec fn merged(s: Seq<SpecTarget>, new: Seq<SpecTarget>) -> Seq<SpecTarget>
    decreases new.len(),
{
    if new.len() == 0 {
        s
    } else {
        let m = merged(s, new.drop_last());
        if has_id(m, new.last().id) {
            m
        } else {
            m.push(new.last())
        }
    }
}

/// Whether `s` holds some target with id `id`, found by a scan.
fn contains_id(v: &Vec<Target>, id: &String) -> (b: bool)
    ensures
        b == has_id(targets_view(v@), id@),
{
    let ghost s = targets_view(v@);
    let mut i: usize = 0;
    while i < v.len()
        invariant
            i <= v.len(),
            s == targets_view(v@),
            forall|k: int| 0 <= k < i ==> s[k].id != id@,
        decreases v.len() - i,
    {
        if str_is(v[i].id.as_str(), id.as_str()) {
            assert(s[i as int].id == id@);
            return true;
        }
        i = i + 1;
    }
    false
}

/// Merges discovered targets into the list, skipping those whose id is
/// already there, and returns how many were added.
pub fn merge_targets(existing: &mut Vec<Target>, discovered: Vec<Target>) -> (added: usize)
    ensures
        targets_view(final(existing)@) == merged(targets_view(old(existing)@), targets_view(discovered@)),
        added == final(existing)@.len() - old(existing)@.len(),
{
    let ghost s0 = targets_view(existing@);
    let ghost nv = targets_view(discovered@);
    let ghost len0 = existing@.len();
    let mut pending = discovered;
    let n = pending.len();
    let mut k: usize = 0;
    let mut added: usize = 0;
    assert(nv.take(0) =~= Seq::<SpecTarget>::empty());
    assert(targets_view(pending@) =~= nv.skip(0));
    while k < n
        invariant
            n == nv.len(),
            k <= n,
            targets_view(pending@) == nv.skip(k as int),
            targets_view(existing@) == merged(s0, nv.take(k as int)),
            existing@.len() == len0 + added,
            added <= k,
        decreases n - k,
    {
        let ghost before_pending = pending@;
        assert(pending@.len() == targets_view(pending@).len());
        let target = pending.remove(0);
        proof {
            assert(targets_view(before_pending)[0] == nv[k as int]);
            assert(pending@ =~= before_pending.subrange(1, before_pending.len() as int));
            assert(targets_view(pending@) =~= targets_view(before_pending).subrange(1, before_pending.len() as int));
            assert(targets_view(pending@) =~= nv.skip(k as int + 1));
            assert(nv.take(k as int + 1).drop_last() =~= nv.take(k as int));
            assert(nv.take(k as int + 1).last() == nv[k as int]);
        }
        let ghost cur = targets_view(existing@);
        if !contains_id(existing, &target.id) {
            existing.push(target);
            assert(targets_view(existing@) =~= cur.push(nv[k as int]));
            added = added + 1;
        }
        k = k + 1;
    }
    assert(nv.take(n as int) =~= nv);
    added
}

/// Merging keeps the ids distinct, and afterwards every discovered id is
/// listed and every target listed before is still there.
pub proof fn lemma_merge_keeps_ids_distinct(s: Seq<SpecTarget>, new: Seq<SpecTarget>)
    requires
        forall|i: int, j: int| 0 <= i < j < s.len() ==> s[i].id != s[j].id,
    ensures
        forall|i: int, j: int|
            0 <= i < j < merged(s, new).len() ==> merged(s, new)[i].id != merged(s, new)[j].id,
        forall|j: int| 0 <= j < new.len() ==> has_id(merged(s, new), #[trigger] new[j].id),
        merged(s, new).len() >= s.len(),
        forall|i: int| 0 <= i < s.len() ==> merged(s, new)[i] == s[i],
    decreases new.len(),
{
    if new.len() > 0 {
        let m = merged(s, new.drop_last());
        lemma_merge_keeps_ids_distinct(s, new.drop_last());
        if !has_id(m, new.last().id) {
            let m2 = m.push(new.last());
            assert forall|j: int| 0 <= j < new.len() implies has_id(m2, #[trigger] new[j].id) by {
                if j < new.len() - 1 {
                    assert(new.drop_last()[j] == new[j]);
                    let w = choose|i: int| 0 <= i < m.len() && m[i].id == new[j].id;
                    assert(m2[w] == m[w]);
                } else {
                    assert(m2[m.len() as int] == new.last());
                }
            }
        } else {
            assert forall|j: int| 0 <= j < new.len() implies has_id(m, #[trigger] new[j].id) by {
                if j < new.len() - 1 {
                    assert(new.drop_last()[j] == new[j]);
                }
            }
        }
    }
}

} // verus!
