//! Diagnostics tab (F6): the findings list, its key handling, and the
//! text helpers of its panels.
use vstd::prelude::*;
use vstd::utf8::*;

use crate::model::DiagSeverity;
use crate::script::strings::{chars_of, copy_string, push_decimal, push_str, spec_decimal};
use crate::script::utf8_len::{byte_offset, char_utf8_width, char_width};
use crate::tui::keys::KeyCode;

verus! {

/// Action asked for by a key press in the Diagnostics tab.
#[derive(Debug, Clone, PartialEq, Eq)]
pub enum DiagnosticAction {
    /// Execute the recommended action of the finding with this id.
    Execute(u64),
    /// Dismiss the finding with this id.
    Dismiss(u64),
    /// Mute a rule so that it stops producing findings.
    MuteRule(String),
}

/// What a diagnostic finding is about.
#[derive(Debug, Clone, PartialEq, Eq)]
pub enum DiagTarget {
    Process { pid: u32, name: String },
    Host(String),
    Container { name: String, id: String },
    Disk { mount: String },
    Network { interface: String },
}

/// View of the Diagnostics tab's state.
pub struct DiagnosticsView {
    pub selected: nat,
    pub scroll_offset: nat,
    pub detail_scroll: nat,
}

/// What a key press does to the state, given the ids of the listed findings.
pub open spec fn diagnostics_step(st: DiagnosticsView, code: KeyCode, ids: Seq<u64>) -> (
    DiagnosticsView,
    Option<(bool, u64)>,
) {
    let count = ids.len();
    let moved = |sel: nat| DiagnosticsView {
        selected: sel,
        detail_scroll: 0,
        scroll_offset: if sel < st.scroll_offset { sel } else { st.scroll_offset },
    };
    if code == KeyCode::Char('j') || code == KeyCode::Down {
        (if count > 0 { moved(if st.selected + 1 < count { st.selected + 1 } else { 0 }) } else { st }, None)
    } else if code == KeyCode::Char('k') || code == KeyCode::Up {
        (if count > 0 { moved(if st.selected == 0 { (count - 1) as nat } else { (st.selected - 1) as nat }) } else { st }, None)
    } else if code == KeyCode::Enter {
        (st, if st.selected < count { Some((true, ids[st.selected as int])) } else { None })
    } else if code == KeyCode::Char('d') {
        (st, if st.selected < count { Some((false, ids[st.selected as int])) } else { None })
    } else {
        (st, None)
    }
}

/// `a` is the action that the step's outcome `o` names: `(true, id)` to
/// execute and `(false, id)` to dismiss.
pub open spec fn names_action(o: Option<(bool, u64)>, a: Option<DiagnosticAction>) -> bool {
    match o {
        Some((true, id)) => a == Some(DiagnosticAction::Execute(id)),
        Some((false, id)) => a == Some(DiagnosticAction::Dismiss(id)),
        None => a is None,
    }
}

/// State of the Diagnostics (F6) tab.
pub struct DiagnosticsTab {
    selected: usize,
    scroll_offset: usize,
    detail_scroll: usize,
}

impl View for DiagnosticsTab {
    type V = DiagnosticsView;

    closed spec fn view(&self) -> DiagnosticsView {
        DiagnosticsView {
            selected: self.selected as nat,
            scroll_offset: self.scroll_offset as nat,
            detail_scroll: self.detail_scroll as nat,
        }
    }
}

impl Default for DiagnosticsTab {
    fn default() -> (t: Self)
        ensures
            t@ == (DiagnosticsView { selected: 0, scroll_offset: 0, detail_scroll: 0 }),
    {
        DiagnosticsTab { selected: 0, scroll_offset: 0, detail_scroll: 0 }
    }
}

impl DiagnosticsTab {
    /// The selected row.
    pub fn selected(&self) -> (n: usize)
        ensures
            n == self@.selected,
    {
        self.selected
    }

    /// The list panel's scroll offset.
    pub fn scroll_offset(&self) -> (n: usize)
        ensures
            n == self@.scroll_offset,
    {
        self.scroll_offset
    }

    /// The detail panel's scroll offset.
    pub fn detail_scroll(&self) -> (n: usize)
        ensures
            n == self@.detail_scroll,
    {
        self.detail_scroll
    }

    /// Handles a key press over the findings whose ids are `ids`, in list
    /// order: j/k move the selection with wrap-around, Enter asks to execute
    /// and d to dismiss the selected finding.
    pub fn handle_key(&mut self, code: KeyCode, ids: &[u64]) -> (a: Option<DiagnosticAction>)
        ensures
            final(self)@ == diagnostics_step(old(self)@, code, ids@).0,
            names_action(diagnostics_step(old(self)@, code, ids@).1, a),
    {
        let count = ids.len();
        match code {
            KeyCode::Char('j') | KeyCode::Down => {
                if count > 0 {
                    self.selected = if self.selected < count - 1 { self.selected + 1 } else { 0 };
                    self.detail_scroll = 0;
                    self.adjust_scroll(count);
                }
                None
            },
            KeyCode::Char('k') | KeyCode::Up => {
                if count > 0 {
                    self.selected = if self.selected == 0 { count - 1 } else { self.selected - 1 };
                    self.detail_scroll = 0;
                    self.adjust_scroll(count);
                }
                None
            },
            KeyCode::Enter => {
                if self.selected < count {
                    Some(DiagnosticAction::Execute(ids[self.selected]))
                } else {
                    None
                }
            },
            KeyCode::Char('d') => {
                if self.selected < count {
                    Some(DiagnosticAction::Dismiss(ids[self.selected]))
                } else {
                    None
                }
            },
            _ => None,
        }
    }

    /// Keeps the selected row at or below the top of the scroll window.
    pub fn adjust_scroll(&mut self, count: usize)
        ensures
            final(self)@ == (DiagnosticsView {
                scroll_offset: if old(self)@.selected < old(self)@.scroll_offset {
                    old(self)@.selected
                } else {
                    old(self)@.scroll_offset
                },
                ..old(self)@
            }),
    {
        if self.selected < self.scroll_offset {
            self.scroll_offset = self.selected;
        }
    }
}

/// Number of entries of `s` equal to `sev`.
pub open spec fn count_severity(s: Seq<DiagSeverity>, sev: DiagSeverity) -> nat
    decreases s.len(),
{
    if s.len() == 0 {
        0
    } else {
        count_severity(s.drop_last(), sev) + if s.last() == sev { 1nat } else { 0nat }
    }
}

/// Icon of a severity in the findings list: a square for Critical, a dot
/// otherwise.
pub open spec fn severity_icon_text(severity: DiagSeverity) -> Seq<char> {
    match severity {
        DiagSeverity::Critical => seq!['\u{25a0}'],
        DiagSeverity::Warning => seq!['\u{25cf}'],
        DiagSeverity::Info => seq!['\u{25cf}'],
    }
}

/// Icon of a severity in the findings list.
pub fn severity_icon(severity: DiagSeverity) -> (s: &'static str)
    ensures
        s@ == severity_icon_text(severity),
{
    proof {
        reveal_strlit("\u{25a0}");
        reveal_strlit("\u{25cf}");
    }
    match severity {
        DiagSeverity::Critical => "\u{25a0}",
        DiagSeverity::Warning => "\u{25cf}",
        DiagSeverity::Info => "\u{25cf}",
    }
}

/// Counts findings by severity: (critical, warning, info).
pub fn severity_counts(severities: &[DiagSeverity]) -> (c: (usize, usize, usize))
    ensures
        c.0 == count_severity(severities@, DiagSeverity::Critical),
        c.1 == count_severity(severities@, DiagSeverity::Warning),
        c.2 == count_severity(severities@, DiagSeverity::Info),
{
    let ghost s = severities@;
    let mut critical: usize = 0;
    let mut warning: usize = 0;
    let mut info: usize = 0;
    let mut i: usize = 0;
    while i < severities.len()
        invariant
            s == severities@,
            i <= s.len(),
            critical == count_severity(s.take(i as int), DiagSeverity::Critical),
            warning == count_severity(s.take(i as int), DiagSeverity::Warning),
            info == count_severity(s.take(i as int), DiagSeverity::Info),
            critical + warning + info == i,
        decreases s.len() - i,
    {
        assert(s.take(i as int + 1).drop_last() =~= s.take(i as int));
        match severities[i] {
            DiagSeverity::Critical => critical = critical + 1,
            DiagSeverity::Warning => warning = warning + 1,
            DiagSeverity::Info => info = info + 1,
        }
        i = i + 1;
    }
    assert(s.take(s.len() as int) =~= s);
    (critical, warning, info)
}

/// Short name of a target, for the list column.
pub open spec fn target_short(t: DiagTarget) -> Seq<char> {
    match t {
        DiagTarget::Process { name, .. } => name@,
        DiagTarget::Host(id) => id@,
        DiagTarget::Container { name, .. } => name@,
        DiagTarget::Disk { mount } => mount@,
        DiagTarget::Network { interface } => interface@,
    }
}

/// Short name of a target, for the list column.
pub fn target_short_name(target: &DiagTarget) -> (s: String)
    ensures
        s@ == target_short(*target),
{
    match target {
        DiagTarget::Process { name, .. } => copy_string(name),
        DiagTarget::Host(id) => copy_string(id),
        DiagTarget::Container { name, .. } => copy_string(name),
        DiagTarget::Disk { mount } => copy_string(mount),
        DiagTarget::Network { interface } => copy_string(interface),
    }
}

/// Full description of a target, for the detail panel.
pub open spec fn target_text(t: DiagTarget) -> Seq<char> {
    match t {
        DiagTarget::Process { pid, name } => "Process: "@ + name@ + " (pid "@ + spec_decimal(pid as nat) + ")"@,
        DiagTarget::Host(id) => "Host: "@ + id@,
        DiagTarget::Container { name, id } => "Container: "@ + name@ + " ("@ + id@ + ")"@,
        DiagTarget::Disk { mount } => "Disk: "@ + mount@,
        DiagTarget::Network { interface } => "Network: "@ + interface@,
    }
}

/// Full description of a target, for the detail panel.
pub fn target_display(target: &DiagTarget) -> (s: String)
    ensures
        s@ == target_text(*target),
{
    let mut s = String::new();
    match target {
        DiagTarget::Process { pid, name } => {
            push_str(&mut s, "Process: ");
            push_str(&mut s, name.as_str());
            push_str(&mut s, " (pid ");
            push_decimal(&mut s, *pid as u64);
            push_str(&mut s, ")");
        },
        DiagTarget::Host(id) => {
            push_str(&mut s, "Host: ");
            push_str(&mut s, id.as_str());
        },
        DiagTarget::Container { name, id } => {
            push_str(&mut s, "Container: ");
            push_str(&mut s, name.as_str());
            push_str(&mut s, " (");
            push_str(&mut s, id.as_str());
            push_str(&mut s, ")");
        },
        DiagTarget::Disk { mount } => {
            push_str(&mut s, "Disk: ");
            push_str(&mut s, mount.as_str());
        },
        DiagTarget::Network { interface } => {
            push_str(&mut s, "Network: ");
            push_str(&mut s, interface.as_str());
        },
    }
    assert(s@ =~= target_text(*target));
    s
}

/// Number of leading characters of `s`, from character `i` at byte `b` on,
/// whose encoding fits within the first `n` bytes.
pub open spec fn chars_within(s: Seq<char>, i: int, b: int, n: int) -> int
    decreases s.len() - i,
{
    if i < 0 || i >= s.len() || b + char_width(s[i]) > n {
        i
    } else {
        chars_within(s, i + 1, b + char_width(s[i]), n)
    }
}

/// The characters of `s` that fit within its first `n` bytes.
pub open spec fn byte_prefix(s: Seq<char>, n: int) -> Seq<char> {
    s.take(chars_within(s, 0, 0, n))
}

/// `n` is a character boundary of the UTF-8 encoding of `s`.
pub open spec fn at_boundary(s: Seq<char>, n: int) -> bool {
    exists|j: int| 0 <= j <= s.len() && byte_offset(s, j) == n
}

/// `s` cut to at most `max` bytes: unchanged when it fits, else its first
/// `max - 1` bytes followed by an ellipsis (for `max` above 1), else its
/// first `max` bytes.
pub open spec fn truncated(s: Seq<char>, max: nat) -> Seq<char> {
    if encode_utf8(s).len() <= max {
        s
    } else if max > 1 {
        byte_prefix(s, max - 1) + "…"@
    } else {
        byte_prefix(s, max as int)
    }
}

/// The leading characters of `chars` that fit within `n` bytes.
pub fn prefix_within(chars: &Vec<char>, n: usize) -> (r: String)
    ensures
        r@ == byte_prefix(chars@, n as int),
{
    let ghost s = chars@;
    let mut r = String::new();
    let mut i: usize = 0;
    let mut b: usize = 0;
    let mut done = false;
    while i < chars.len() && !done
        invariant
            s == chars@,
            i <= s.len(),
            b <= n,
            r@ == s.take(i as int),
            chars_within(s, 0, 0, n as int) == chars_within(s, i as int, b as int, n as int),
            done ==> chars_within(s, i as int, b as int, n as int) == i,
        decreases s.len() - i, if done { 0int } else { 1int },
    {
        let w = char_utf8_width(chars[i]);
        if w > n - b {
            done = true;
        } else {
            r.push(chars[i]);
            b = b + w;
            i = i + 1;
            assert(r@ =~= s.take(i as int));
        }
    }
    r
}

/// Cuts `s` to fit in `max` bytes, marking a cut with "…".
///
/// The cut must fall on a character boundary.
pub fn truncate(s: &str, max: usize) -> (r: String)
    requires
        encode_utf8(s@).len() <= usize::MAX,
        encode_utf8(s@).len() > max ==> at_boundary(s@, if max > 1 { max - 1 } else { max as int }),
    ensures
        r@ == truncated(s@, max as nat),
{
    if s.len() <= max {
        s.to_owned()
    } else {
        let chars = chars_of(s);
        if max > 1 {
            let mut r = prefix_within(&chars, max - 1);
            push_str(&mut r, "…");
            r
        } else {
            prefix_within(&chars, max)
        }
    }
}

} // verus!
