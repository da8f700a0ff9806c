//! The list of diagnostic findings shown by the Diagnostics tab: a new
//! finding replaces the one about the same target and category, and the
//! list keeps its most severe findings when it grows past its capacity.
use vstd::prelude::*;

use crate::model::DiagSeverity;
use vstd::utf8::*;

use crate::script::strings::{copy_string, push_decimal, push_str, spec_decimal, string_is};
use crate::tui::diagnostics::{
    at_boundary, count_severity, severity_counts, severity_icon, severity_icon_text, target_display, target_short,
    target_short_name, target_text, truncate, truncated, DiagTarget,
};
use crate::script::bridge::Urgency;

verus! {

/// Most findings kept.
pub const MAX_FINDINGS: usize = 200;

/// Kind of problem a finding reports.
#[derive(Debug, Clone, Copy, PartialEq, Eq, Structural)]
pub enum DiagCategory {
    CpuSpike,
    CpuSaturation,
    MemoryLeak,
    ScriptRule,
}

/// A diagnostic finding.
#[derive(Debug)]
pub struct Finding {
    pub id: u64,
    pub target: DiagTarget,
    pub category: DiagCategory,
    pub severity: DiagSeverity,
    pub summary: String,
}

/// View of a [`DiagTarget`].
pub enum SpecTarget {
    Process { pid: u32, name: Seq<char> },
    Host(Seq<char>),
    Container { name: Seq<char>, id: Seq<char> },
    Disk { mount: Seq<char> },
    Network { interface: Seq<char> },
}

impl View for DiagTarget {
    type V = SpecTarget;

    open spec fn view(&self) -> SpecTarget {
        match self {
            DiagTarget::Process { pid, name } => SpecTarget::Process { pid: *pid, name: name@ },
            DiagTarget::Host(h) => SpecTarget::Host(h@),
            DiagTarget::Container { name, id } => SpecTarget::Container { name: name@, id: id@ },
            DiagTarget::Disk { mount } => SpecTarget::Disk { mount: mount@ },
            DiagTarget::Network { interface } => SpecTarget::Network { interface: interface@ },
        }
    }
}

/// View of a [`Finding`].
pub struct SpecFinding {
    pub id: u64,
    pub target: SpecTarget,
    pub category: DiagCategory,
    pub severity: DiagSeverity,
    pub summary: Seq<char>,
}

impl View for Finding {
    type V = SpecFinding;

    open spec fn view(&self) -> SpecFinding {
        SpecFinding {
            id: self.id,
            target: self.target@,
            category: self.category,
            severity: self.severity,
            summary: self.summary@,
        }
    }
}

/// The views of a list of findings.
pub open spec fn findings_view(v: Seq<Finding>) -> Seq<SpecFinding> {
    v.map_values(|f: Finding| f@)
}

/// Whether two targets are the same.
pub fn same_target(a: &DiagTarget, b: &DiagTarget) -> (r: bool)
    ensures
        r == (a@ == b@),
{
    match (a, b) {
        (DiagTarget::Process { pid: p1, name: n1 }, DiagTarget::Process { pid: p2, name: n2 }) => *p1 == *p2
            && string_is(n1, n2.as_str()),
        (DiagTarget::Host(h1), DiagTarget::Host(h2)) => string_is(h1, h2.as_str()),
        (DiagTarget::Container { name: n1, id: i1 }, DiagTarget::Container { name: n2, id: i2 }) => string_is(
            n1,
            n2.as_str(),
        ) && string_is(i1, i2.as_str()),
        (DiagTarget::Disk { mount: m1 }, DiagTarget::Disk { mount: m2 }) => string_is(m1, m2.as_str()),
        (DiagTarget::Network { interface: i1 }, DiagTarget::Network { interface: i2 }) => string_is(
            i1,
            i2.as_str(),
        ),
        _ => false,
    }
}

/// Index of the first finding about `target` in `category`, if any.
pub open spec fn find_key(s: Seq<SpecFinding>, target: SpecTarget, category: DiagCategory) -> Option<int>
    decreases s.len(),
{
    if s.len() == 0 {
        None
    } else {
        match find_key(s.drop_last(), target, category) {
            Some(i) => Some(i),
            None => if s.last().target == target && s.last().category == category {
                Some(s.len() - 1)
            } else {
                None
            },
        }
    }
}

/// The findings after one new finding: it replaces the first one with the
/// same target and category, or is appended.
pub open spec fn upsert_one(s: Seq<SpecFinding>, f: SpecFinding) -> Seq<SpecFinding> {
    match find_key(s, f.target, f.category) {
        Some(i) => s.update(i, f),
        None => s.push(f),
    }
}

/// The findings after each new one in turn.
pub open spec fn upsert_all(s: Seq<SpecFinding>, new: Seq<SpecFinding>) -> Seq<SpecFinding>
    decreases new.len(),
{
    if new.len() == 0 {
        s
    } else {
        upsert_one(upsert_all(s, new.drop_last()), new.last())
    }
}

/// The findings of severity `sev`, in order.
pub open spec fn of_severity(s: Seq<SpecFinding>, sev: DiagSeverity) -> Seq<SpecFinding>
    decreases s.len(),
{
    if s.len() == 0 {
        Seq::empty()
    } else if s.last().severity == sev {
        of_severity(s.drop_last(), sev).push(s.last())
    } else {
        of_severity(s.drop_last(), sev)
    }
}

/// `s` in a stable order from least to most severe.
pub open spec fn by_severity(s: Seq<SpecFinding>) -> Seq<SpecFinding> {
    of_severity(s, DiagSeverity::Info) + of_severity(s, DiagSeverity::Warning) + of_severity(
        s,
        DiagSeverity::Critical,
    )
}

/// The list after adding `new`: upserted, then, beyond the capacity, the
/// least severe findings (oldest first among equals) dropped.
pub open spec fn upserted(s: Seq<SpecFinding>, new: Seq<SpecFinding>) -> Seq<SpecFinding> {
    let u = upsert_all(s, new);
    if u.len() > MAX_FINDINGS {
        by_severity(u).skip(u.len() - MAX_FINDINGS)
    } else {
        u
    }
}

proof fn lemma_find_key_range(s: Seq<SpecFinding>, target: SpecTarget, category: DiagCategory)
    ensures
        find_key(s, target, category) matches Some(i) ==> 0 <= i < s.len() && s[i].target == target
            && s[i].category == category,
    decreases s.len(),
{
    if s.len() > 0 {
        lemma_find_key_range(s.drop_last(), target, category);
    }
}

/// Index of the first finding about the same target and category as `f`.
fn find_same(v: &Vec<Finding>, f: &Finding) -> (r: Option<usize>)
    ensures
        match find_key(findings_view(v@), f@.target, f@.category) {
            Some(i) => r matches Some(x) && x == i,
            None => r is None,
        },
{
    let ghost s = findings_view(v@);
    let mut i: usize = 0;
    while i < v.len()
        invariant
            i <= v.len(),
            s == findings_view(v@),
            find_key(s.take(i as int), f@.target, f@.category) is None,
        decreases v.len() - i,
    {
        assert(s.take(i as int + 1).drop_last() =~= s.take(i as int));
        if same_target(&v[i].target, &f.target) && v[i].category == f.category {
            proof {
                lemma_find_key_prefix(s, f@.target, f@.category, i as int + 1);
            }
            return Some(i);
        }
        i = i + 1;
    }
    assert(s.take(v.len() as int) =~= s);
    None
}

/// A key found in a prefix is found at the same place in the whole.
proof fn lemma_find_key_prefix(s: Seq<SpecFinding>, target: SpecTarget, category: DiagCategory, n: int)
    requires
        0 <= n <= s.len(),
        find_key(s.take(n), target, category) is Some,
    ensures
        find_key(s, target, category) == find_key(s.take(n), target, category),
    decreases s.len() - n,
{
    if n < s.len() {
        assert(s.take(n + 1).drop_last() =~= s.take(n));
        lemma_find_key_prefix(s, target, category, n + 1);
    } else {
        assert(s.take(n) =~= s);
    }
}

/// A copy of a target.
pub fn copy_target(t: &DiagTarget) -> (r: DiagTarget)
    ensures
        r@ == t@,
{
    match t {
        DiagTarget::Process { pid, name } => DiagTarget::Process { pid: *pid, name: copy_string(name) },
        DiagTarget::Host(h) => DiagTarget::Host(copy_string(h)),
        DiagTarget::Container { name, id } => DiagTarget::Container { name: copy_string(name), id: copy_string(id) },
        DiagTarget::Disk { mount } => DiagTarget::Disk { mount: copy_string(mount) },
        DiagTarget::Network { interface } => DiagTarget::Network { interface: copy_string(interface) },
    }
}

/// A copy of a finding.
pub fn copy_finding(f: &Finding) -> (r: Finding)
    ensures
        r@ == f@,
{
    Finding {
        id: f.id,
        target: copy_target(&f.target),
        category: f.category,
        severity: f.severity,
        summary: copy_string(&f.summary),
    }
}

/// Appends copies of the findings of `v` with severity `sev`, in order.
fn push_of_severity(v: &Vec<Finding>, sev: DiagSeverity, out: &mut Vec<Finding>)
    ensures
        findings_view(final(out)@) == findings_view(old(out)@) + of_severity(findings_view(v@), sev),
{
    let ghost s = findings_view(v@);
    let ghost out0 = findings_view(out@);
    let mut i: usize = 0;
    assert(s.take(0) =~= Seq::<SpecFinding>::empty());
    assert(out0 + Seq::<SpecFinding>::empty() =~= out0);
    while i < v.len()
        invariant
            i <= v.len(),
            s == findings_view(v@),
            findings_view(out@) == out0 + of_severity(s.take(i as int), sev),
        decreases v.len() - i,
    {
        assert(s.take(i as int + 1).drop_last() =~= s.take(i as int));
        if v[i].severity == sev {
            let ghost o = findings_view(out@);
            out.push(copy_finding(&v[i]));
            assert(findings_view(out@) =~= o.push(s[i as int]));
            assert(findings_view(out@) =~= out0 + of_severity(s.take(i as int + 1), sev));
        }
        i = i + 1;
    }
    assert(s.take(v.len() as int) =~= s);
}

/// Adds `new` findings in order: each replaces the first finding about the
/// same target and category, or is appended. Beyond [`MAX_FINDINGS`], the
/// list keeps the most severe findings, dropping the least severe first and,
/// among equally severe ones, the oldest first; the rest stay ordered from
/// least to most severe.
pub fn upsert_findings(findings: &mut Vec<Finding>, new: Vec<Finding>)
    ensures
        findings_view(final(findings)@) == upserted(findings_view(old(findings)@), findings_view(new@)),
{
    let ghost s0 = findings_view(findings@);
    let ghost nv = findings_view(new@);
    let mut pending = new;
    let mut k: usize = 0;
    let n = pending.len();
    assert(nv.take(0) =~= Seq::<SpecFinding>::empty());
    assert(findings_view(pending@) =~= nv.skip(0));
    while k < n
        invariant
            n == nv.len(),
            k <= n,
            findings_view(pending@) == nv.skip(k as int),
            findings_view(findings@) == upsert_all(s0, nv.take(k as int)),
        decreases n - k,
    {
        let ghost before_pending = pending@;
        assert(pending@.len() == findings_view(pending@).len());
        let f = pending.remove(0);
        proof {
            assert(findings_view(before_pending)[0] == nv[k as int]);
            assert(pending@ =~= before_pending.subrange(1, before_pending.len() as int));
            assert(findings_view(pending@) =~= findings_view(before_pending).subrange(1, before_pending.len() as int));
            assert(findings_view(pending@) =~= nv.skip(k as int + 1));
            assert(nv.take(k as int + 1).drop_last() =~= nv.take(k as int));
            assert(nv.take(k as int + 1).last() == nv[k as int]);
        }
        let ghost cur = findings_view(findings@);
        proof {
            lemma_find_key_range(cur, f@.target, f@.category);
        }
        match find_same(findings, &f) {
            Some(i) => {
                findings.remove(i);
                findings.insert(i, f);
                assert(findings_view(findings@) =~= cur.update(i as int, nv[k as int]));
            },
            None => {
                findings.push(f);
                assert(findings_view(findings@) =~= cur.push(nv[k as int]));
            },
        }
        k = k + 1;
    }
    assert(nv.take(n as int) =~= nv);
    let len = findings.len();
    if len > MAX_FINDINGS {
        let ghost u = findings_view(findings@);
        let mut sorted: Vec<Finding> = Vec::new();
        push_of_severity(findings, DiagSeverity::Info, &mut sorted);
        push_of_severity(findings, DiagSeverity::Warning, &mut sorted);
        push_of_severity(findings, DiagSeverity::Critical, &mut sorted);
        proof {
            assert(findings_view(sorted@) =~= by_severity(u));
            lemma_by_severity_len(u);
        }
        let excess = len - MAX_FINDINGS;
        let mut kept: Vec<Finding> = Vec::new();
        let mut j: usize = excess;
        let ghost b = by_severity(u);
        assert(b.skip(excess as int).take(0) =~= Seq::<SpecFinding>::empty());
        while j < sorted.len()
            invariant
                excess <= j <= sorted.len(),
                findings_view(sorted@) == b,
                findings_view(kept@) == b.skip(excess as int).take(j - excess),
            decreases sorted.len() - j,
        {
            let ghost kv = findings_view(kept@);
            assert(findings_view(sorted@)[j as int] == sorted@[j as int]@);
            kept.push(copy_finding(&sorted[j]));
            assert(findings_view(kept@) =~= kv.push(b[j as int]));
            assert(findings_view(kept@) =~= b.skip(excess as int).take(j + 1 - excess));
            j = j + 1;
        }
        assert(b.skip(excess as int).take(b.len() - excess) =~= b.skip(excess as int));
        *findings = kept;
    }
}

/// Each finding has one severity, so sorting by severity keeps them all.
proof fn lemma_by_severity_len(s: Seq<SpecFinding>)
    ensures
        by_severity(s).len() == s.len(),
    decreases s.len(),
{
    if s.len() > 0 {
        lemma_by_severity_len(s.drop_last());
    }
}

/// Upserting never grows the list by more than the new findings, and past
/// the capacity it leaves exactly [`MAX_FINDINGS`].
pub proof fn lemma_upsert_bounded(s: Seq<SpecFinding>, new: Seq<SpecFinding>)
    ensures
        upserted(s, new).len() <= MAX_FINDINGS || upserted(s, new).len() <= s.len() + new.len(),
        upsert_all(s, new).len() > MAX_FINDINGS ==> upserted(s, new).len() == MAX_FINDINGS,
        upsert_all(s, new).len() <= s.len() + new.len(),
    decreases new.len(),
{
    lemma_by_severity_len(upsert_all(s, new));
    if new.len() > 0 {
        lemma_upsert_bounded(s, new.drop_last());
        lemma_find_key_range(upsert_all(s, new.drop_last()), new.last().target, new.last().category);
    }
}

// ── The text of the findings list ──────────────────────────────────

/// The severities of a list of findings, in order.
pub open spec fn severities(s: Seq<Finding>) -> Seq<DiagSeverity> {
    s.map_values(|f: Finding| f.severity)
}

/// The header of the findings list: how many findings of each severity.
pub open spec fn list_header(s: Seq<Finding>) -> Seq<char> {
    "\u{25a0} "@ + spec_decimal(count_severity(severities(s), DiagSeverity::Critical)) + " Critical  \u{25a0} "@
        + spec_decimal(count_severity(severities(s), DiagSeverity::Warning)) + " Warning  \u{25a0} "@
        + spec_decimal(count_severity(severities(s), DiagSeverity::Info)) + " Info"@
}

/// Room left for the summary in a row `width` cells wide.
pub open spec fn summary_room(width: nat) -> nat {
    if width > 22 {
        (width - 22) as nat
    } else {
        0
    }
}

/// One row of the findings list: the severity icon, the target's short
/// name cut to 16 bytes, and the summary cut to fit the row.
pub open spec fn list_row(f: Finding, width: nat) -> Seq<char> {
    severity_icon_text(f.severity) + " "@ + truncated(target_short(f.target), 16) + " "@ + truncated(
        f.summary@,
        summary_room(width),
    )
}

/// `s` can be cut at `max` bytes: the cut, if any, falls on a character
/// boundary.
pub open spec fn cuttable(s: Seq<char>, max: nat) -> bool {
    &&& encode_utf8(s).len() <= usize::MAX
    &&& encode_utf8(s).len() > max ==> at_boundary(s, if max > 1 { max - 1 } else { max as int })
}

/// Number of findings shown from `scroll` on in `rows` rows.
pub open spec fn visible_count(len: nat, scroll: nat, rows: nat) -> nat {
    if scroll >= len {
        0
    } else if len - scroll < rows {
        (len - scroll) as nat
    } else {
        rows
    }
}

/// The text of the findings list in an area `height` lines tall and
/// `width` cells wide, scrolled to `scroll`: nothing under two lines, else
/// the header, then one row per visible finding.
pub open spec fn list_text(s: Seq<Finding>, scroll: nat, height: nat, width: nat) -> Seq<Seq<char>> {
    if height < 2 {
        Seq::empty()
    } else {
        seq![list_header(s)] + Seq::new(
            visible_count(s.len(), scroll, (height - 1) as nat),
            |k: int| list_row(s[scroll + k], width),
        )
    }
}

/// Every visible finding's target and summary can be cut where the row cuts them.
pub open spec fn list_cuttable(s: Seq<Finding>, scroll: nat, height: nat, width: nat) -> bool {
    forall|i: int|
        scroll <= i < scroll + visible_count(s.len(), scroll, if height >= 1 { (height - 1) as nat } else { 0 })
            ==> cuttable(target_short(#[trigger] s[i].target), 16) && cuttable(s[i].summary@, summary_room(width))
}

fn severities_of(findings: &[Finding]) -> (v: Vec<DiagSeverity>)
    ensures
        v@ == severities(findings@),
{
    let mut v: Vec<DiagSeverity> = Vec::new();
    let mut i: usize = 0;
    while i < findings.len()
        invariant
            i <= findings.len(),
            v@ == severities(findings@).take(i as int),
        decreases findings.len() - i,
    {
        v.push(findings[i].severity);
        assert(v@ =~= severities(findings@).take(i as int + 1));
        i = i + 1;
    }
    assert(severities(findings@).take(findings.len() as int) =~= severities(findings@));
    v
}

/// The header line of the findings list.
fn list_header_line(findings: &[Finding]) -> (l: String)
    ensures
        l@ == list_header(findings@),
{
    let sev = severities_of(findings);
    let (c, w, n) = severity_counts(sev.as_slice());
    let mut l = String::new();
    push_str(&mut l, "\u{25a0} ");
    push_decimal(&mut l, c as u64);
    push_str(&mut l, " Critical  \u{25a0} ");
    push_decimal(&mut l, w as u64);
    push_str(&mut l, " Warning  \u{25a0} ");
    push_decimal(&mut l, n as u64);
    push_str(&mut l, " Info");
    assert(l@ =~= list_header(findings@));
    l
}

/// One row of the findings list.
fn list_row_line(f: &Finding, width: usize) -> (l: String)
    requires
        cuttable(target_short(f.target), 16),
        cuttable(f.summary@, summary_room(width as nat)),
    ensures
        l@ == list_row(*f, width as nat),
{
    let mut l = String::new();
    push_str(&mut l, severity_icon(f.severity));
    push_str(&mut l, " ");
    let name = target_short_name(&f.target);
    let short = truncate(name.as_str(), 16);
    push_str(&mut l, short.as_str());
    push_str(&mut l, " ");
    let room = if width > 22 { width - 22 } else { 0 };
    let summary = truncate(f.summary.as_str(), room);
    push_str(&mut l, summary.as_str());
    assert(l@ =~= list_row(*f, width as nat));
    l
}

/// Which visible rows of the findings list are highlighted: row `k` shows
/// finding `scroll + k`, highlighted exactly when that is the selected one.
pub open spec fn list_highlights(len: nat, scroll: nat, height: nat, selected: nat) -> Seq<bool> {
    if height < 2 {
        Seq::empty()
    } else {
        Seq::new(visible_count(len, scroll, (height - 1) as nat), |k: int| scroll + k == selected)
    }
}

/// The text of the findings list in an area `height` lines tall and
/// `width` cells wide, scrolled to `scroll`, with finding `selected`
/// highlighted: the lines, and for each visible row (after the header)
/// whether it is highlighted.
pub fn list_lines(findings: &[Finding], scroll: usize, height: usize, width: usize, selected: usize) -> (l: (
    Vec<String>,
    Vec<bool>,
))
    requires
        list_cuttable(findings@, scroll as nat, height as nat, width as nat),
    ensures
        l.0@.map_values(|x: String| x@) == list_text(findings@, scroll as nat, height as nat, width as nat),
        l.1@ == list_highlights(findings@.len(), scroll as nat, height as nat, selected as nat),
{
    let mut l: Vec<String> = Vec::new();
    let mut marks: Vec<bool> = Vec::new();
    if height < 2 {
        assert(l@.map_values(|x: String| x@) =~= list_text(findings@, scroll as nat, height as nat, width as nat));
        assert(marks@ =~= list_highlights(findings@.len(), scroll as nat, height as nat, selected as nat));
        return (l, marks);
    }
    let rows = height - 1;
    let len = findings.len();
    let n: usize = if scroll >= findings.len() {
        0
    } else if findings.len() - scroll < rows {
        findings.len() - scroll
    } else {
        rows
    };
    let ghost want = list_text(findings@, scroll as nat, height as nat, width as nat);
    l.push(list_header_line(findings));
    let mut k: usize = 0;
    while k < n
        invariant
            n == visible_count(findings@.len(), scroll as nat, rows as nat),
            len == findings@.len(),
            n == 0 || scroll + n <= len,
            rows == height - 1,
            height >= 2,
            k <= n,
            list_cuttable(findings@, scroll as nat, height as nat, width as nat),
            want == list_text(findings@, scroll as nat, height as nat, width as nat),
            l@.map_values(|x: String| x@) == want.take(k as int + 1),
            marks@ == list_highlights(findings@.len(), scroll as nat, height as nat, selected as nat).take(k as int),
        decreases n - k,
    {
        let i = scroll + k;
        let ghost mk = marks@;
        marks.push(i == selected);
        assert(marks@ =~= list_highlights(findings@.len(), scroll as nat, height as nat, selected as nat).take(
            k as int + 1,
        ));
        assert(scroll <= i < scroll + n);
        let row = list_row_line(&findings[i], width);
        let ghost before = l@.map_values(|x: String| x@);
        l.push(row);
        assert(l@.map_values(|x: String| x@) =~= before.push(want[k as int + 1]));
        assert(l@.map_values(|x: String| x@) =~= want.take(k as int + 2));
        k = k + 1;
    }
    assert(want.take(n as int + 1) =~= want);
    assert(marks@ =~= list_highlights(findings@.len(), scroll as nat, height as nat, selected as nat));
    (l, marks)
}

// ── The text of the detail panel ───────────────────────────────────

/// The name a severity is shown by in the detail panel.
pub open spec fn severity_name_text(s: DiagSeverity) -> Seq<char> {
    match s {
        DiagSeverity::Critical => "Critical"@,
        DiagSeverity::Warning => "Warning"@,
        DiagSeverity::Info => "Info"@,
    }
}

/// The name a category is shown by in the detail panel.
pub open spec fn category_name_text(c: DiagCategory) -> Seq<char> {
    match c {
        DiagCategory::CpuSpike => "CpuSpike"@,
        DiagCategory::CpuSaturation => "CpuSaturation"@,
        DiagCategory::MemoryLeak => "MemoryLeak"@,
        DiagCategory::ScriptRule => "ScriptRule"@,
    }
}

/// The name an urgency is shown by in the detail panel.
pub open spec fn urgency_name_text(u: Urgency) -> Seq<char> {
    match u {
        Urgency::Immediate => "Immediate"@,
        Urgency::Soon => "Soon"@,
        Urgency::Planning => "Planning"@,
        Urgency::Informational => "Informational"@,
    }
}

fn severity_name(s: DiagSeverity) -> (r: &'static str)
    ensures
        r@ == severity_name_text(s),
{
    match s {
        DiagSeverity::Critical => "Critical",
        DiagSeverity::Warning => "Warning",
        DiagSeverity::Info => "Info",
    }
}

fn category_name(c: DiagCategory) -> (r: &'static str)
    ensures
        r@ == category_name_text(c),
{
    match c {
        DiagCategory::CpuSpike => "CpuSpike",
        DiagCategory::CpuSaturation => "CpuSaturation",
        DiagCategory::MemoryLeak => "MemoryLeak",
        DiagCategory::ScriptRule => "ScriptRule",
    }
}

fn urgency_name(u: Urgency) -> (r: &'static str)
    ensures
        r@ == urgency_name_text(u),
{
    match u {
        Urgency::Immediate => "Immediate",
        Urgency::Soon => "Soon",
        Urgency::Planning => "Planning",
        Urgency::Informational => "Informational",
    }
}

/// What the detail panel shows beyond the finding itself: the printed
/// recommended action, its reason and urgency, and the printed evidence
/// lines (whose measured values are floating-point and printed by the
/// caller).
#[derive(Debug)]
pub struct DetailExtras {
    pub action_text: String,
    pub reason: String,
    pub urgency: Urgency,
    pub evidence: Vec<String>,
}

/// The views of a list of strings.
pub open spec fn texts(v: Seq<String>) -> Seq<Seq<char>> {
    v.map_values(|x: String| x@)
}

/// The lines of the detail panel for finding `f`: its target, severity and
/// category, the evidence (when there is any), the recommendation, and the
/// key hints.
pub open spec fn detail_text(f: Finding, x: DetailExtras) -> Seq<Seq<char>> {
    seq![
        "Target: "@ + target_text(f.target),
        " "@ + severity_name_text(f.severity) + "    "@ + category_name_text(f.category) + " "@,
        Seq::<char>::empty(),
    ] + (if x.evidence@.len() == 0 {
        Seq::<Seq<char>>::empty()
    } else {
        seq!["Evidence:"@] + texts(x.evidence@)
    }) + seq![
        Seq::<char>::empty(),
        "Recommendation:"@,
        "  Action: "@ + x.action_text@,
        "  Reason: "@ + x.reason@,
        "  Urgency: "@ + urgency_name_text(x.urgency),
        Seq::<char>::empty(),
        "[Enter] Execute  [d] Dismiss  [m] Mute rule"@,
    ]
}

fn text_of(s: &str) -> (r: String)
    ensures
        r@ == s@,
{
    let mut r = String::new();
    push_str(&mut r, s);
    r
}

/// The lines of the detail panel for finding `f`, before the panel wraps
/// and scrolls them.
pub fn detail_lines(f: &Finding, x: &DetailExtras) -> (l: Vec<String>)
    ensures
        texts(l@) == detail_text(*f, *x),
{
    let mut l: Vec<String> = Vec::new();
    let mut target = text_of("Target: ");
    let t = target_display(&f.target);
    push_str(&mut target, t.as_str());
    l.push(target);
    let mut sc = text_of(" ");
    push_str(&mut sc, severity_name(f.severity));
    push_str(&mut sc, "    ");
    push_str(&mut sc, category_name(f.category));
    push_str(&mut sc, " ");
    l.push(sc);
    l.push(String::new());
    proof {
        reveal_strlit("");
    }
    let ghost head = texts(l@);
    if x.evidence.len() > 0 {
        l.push(text_of("Evidence:"));
        let mut i: usize = 0;
        while i < x.evidence.len()
            invariant
                i <= x.evidence@.len(),
                texts(l@) == head + seq!["Evidence:"@] + texts(x.evidence@).take(i as int),
            decreases x.evidence@.len() - i,
        {
            let ghost before = texts(l@);
            l.push(text_of(x.evidence[i].as_str()));
            assert(texts(l@) =~= before.push(x.evidence@[i as int]@));
            assert(texts(x.evidence@).take(i as int + 1) =~= texts(x.evidence@).take(i as int).push(
                x.evidence@[i as int]@,
            ));
            i = i + 1;
        }
        assert(texts(x.evidence@).take(x.evidence@.len() as int) =~= texts(x.evidence@));
    } else {
        assert(texts(l@) =~= head + Seq::<Seq<char>>::empty());
    }
    let ghost mid = texts(l@);
    let mut a = text_of("  Action: ");
    push_str(&mut a, x.action_text.as_str());
    let mut r = text_of("  Reason: ");
    push_str(&mut r, x.reason.as_str());
    let mut u = text_of("  Urgency: ");
    push_str(&mut u, urgency_name(x.urgency));
    let mut tail = vec![
        String::new(),
        text_of("Recommendation:"),
        a,
        r,
        u,
        String::new(),
        text_of("[Enter] Execute  [d] Dismiss  [m] Mute rule"),
    ];
    let ghost tv = texts(tail@);
    assert(tv =~= seq![
        Seq::<char>::empty(),
        "Recommendation:"@,
        "  Action: "@ + x.action_text@,
        "  Reason: "@ + x.reason@,
        "  Urgency: "@ + urgency_name_text(x.urgency),
        Seq::<char>::empty(),
        "[Enter] Execute  [d] Dismiss  [m] Mute rule"@,
    ]);
    let ghost l0 = l@;
    let ghost t0 = tail@;
    l.append(&mut tail);
    assert(l@ =~= l0 + t0);
    assert(texts(l@) =~= mid + tv);
    assert(texts(l@) =~= detail_text(*f, *x));
    l
}

/// The body of the detail panel: the selected finding's lines, or a hint
/// to select one when there is none.
pub open spec fn detail_body_text(f: Option<Finding>, x: DetailExtras) -> Seq<Seq<char>> {
    match f {
        Some(g) => detail_text(g, x),
        None => seq!["Select a diagnostic to view details"@],
    }
}

/// The body of the detail panel for the selected finding, if any.
pub fn detail_panel_lines(f: Option<&Finding>, x: &DetailExtras) -> (l: Vec<String>)
    ensures
        texts(l@) == detail_body_text(
            match f {
                Some(g) => Some(*g),
                None => None,
            },
            *x,
        ),
{
    match f {
        Some(g) => detail_lines(g, x),
        None => {
            let v = vec![text_of("Select a diagnostic to view details")];
            assert(texts(v@) =~= seq!["Select a diagnostic to view details"@]);
            v
        },
    }
}

/// The title of the detail panel in an area `width` cells wide: the
/// selected finding's summary between spaces, cut to the border, or
/// " Details " when nothing is selected.
pub open spec fn detail_title_text(f: Option<Finding>, width: nat) -> Seq<char> {
    let room: nat = if width >= 2 { (width - 2) as nat } else { 0 };
    match f {
        Some(f) => truncated(" "@ + f.summary@ + " "@, room),
        None => truncated(" Details "@, room),
    }
}

/// The title of the detail panel.
pub fn detail_title(f: Option<&Finding>, width: usize) -> (t: String)
    requires
        f matches Some(g) ==> cuttable(" "@ + g.summary@ + " "@, if width >= 2 { (width - 2) as nat } else { 0 }),
        f is None ==> cuttable(" Details "@, if width >= 2 { (width - 2) as nat } else { 0 }),
    ensures
        t@ == detail_title_text(
            match f {
                Some(g) => Some(*g),
                None => None,
            },
            width as nat,
        ),
{
    let room = if width >= 2 { width - 2 } else { 0 };
    match f {
        Some(g) => {
            let mut s = text_of(" ");
            push_str(&mut s, g.summary.as_str());
            push_str(&mut s, " ");
            truncate(s.as_str(), room)
        },
        None => truncate(" Details ", room),
    }
}

} // verus!
