//! Network tab (F3): connection list selection, filter and throughput
//! history.
use vstd::prelude::*;

use std::collections::VecDeque;

use crate::palette::{Color, Palette};
use crate::script::strings::{chars_of, push_decimal, push_str, spec_decimal, str_is};
use crate::web::api::{lowercase, to_lowercase};
use crate::tui::ordering::{is_stable_order, stable_order};
use crate::tui::keys::KeyCode;
use crate::tui::selection::{next_row, previous_row, scroll_to, select_down, select_up};
use crate::tui::sparklines::{capped_push, push_capped};
use crate::tui::units::{format_size, size_text};

verus! {

/// Most throughput samples kept (one per second).
pub const THROUGHPUT_HISTORY_CAP: usize = 60;

/// View of the Network tab's state.
pub struct NetworkView {
    pub selected_row: Option<usize>,
    pub filter_text: Seq<char>,
    pub scroll_offset: usize,
    pub throughput_history: Seq<u64>,
}

/// State of the Network (F3) tab.
#[derive(Debug)]
pub struct NetworkTab {
    selected_row: Option<usize>,
    filter_text: String,
    scroll_offset: usize,
    throughput_history: VecDeque<u64>,
}

impl View for NetworkTab {
    type V = NetworkView;

    closed spec fn view(&self) -> NetworkView {
        NetworkView {
            selected_row: self.selected_row,
            filter_text: self.filter_text@,
            scroll_offset: self.scroll_offset,
            throughput_history: self.throughput_history@,
        }
    }
}

impl Default for NetworkTab {
    fn default() -> (t: Self)
        ensures
            t@.selected_row is None,
            t@.filter_text == Seq::<char>::empty(),
            t@.scroll_offset == 0,
            t@.throughput_history == Seq::<u64>::empty(),
    {
        NetworkTab {
            selected_row: None,
            filter_text: String::new(),
            scroll_offset: 0,
            throughput_history: VecDeque::new(),
        }
    }
}

/// The sum of `v`.
pub open spec fn sum_u64(v: Seq<u64>) -> nat
    decreases v.len(),
{
    if v.len() == 0 {
        0
    } else {
        sum_u64(v.drop_last()) + v.last() as nat
    }
}

/// The sum of `v`, which must fit in a `u64`.
pub fn total_of(v: &[u64]) -> (t: u64)
    requires
        sum_u64(v@) <= u64::MAX,
    ensures
        t == sum_u64(v@),
{
    let mut t: u64 = 0;
    let mut i: usize = 0;
    while i < v.len()
        invariant
            i <= v.len(),
            t == sum_u64(v@.take(i as int)),
            sum_u64(v@) <= u64::MAX,
        decreases v.len() - i,
    {
        assert(v@.take(i as int + 1).drop_last() =~= v@.take(i as int));
        proof {
            lemma_sum_prefix(v@, i as int + 1);
        }
        t = t + v[i];
        i = i + 1;
    }
    assert(v@.take(v.len() as int) =~= v@);
    t
}

/// A prefix sums to no more than the whole.
pub proof fn lemma_sum_prefix(v: Seq<u64>, n: int)
    requires
        0 <= n <= v.len(),
    ensures
        sum_u64(v.take(n)) <= sum_u64(v),
    decreases v.len(),
{
    if n < v.len() {
        assert(v.drop_last().take(n) =~= v.take(n));
        lemma_sum_prefix(v.drop_last(), n);
    } else {
        assert(v.take(n) =~= v);
    }
}

impl NetworkTab {
    /// The selected row, if any.
    pub fn selected_row(&self) -> (r: Option<usize>)
        ensures
            r == self@.selected_row,
    {
        self.selected_row
    }

    /// The filter text.
    pub fn filter_text(&self) -> (s: &str)
        ensures
            s@ == self@.filter_text,
    {
        self.filter_text.as_str()
    }

    /// Rows scrolled past the top of the visible area.
    pub fn scroll_offset(&self) -> (n: usize)
        ensures
            n == self@.scroll_offset,
    {
        self.scroll_offset
    }

    /// The throughput samples, oldest first.
    pub fn throughput_history(&self) -> (h: &VecDeque<u64>)
        ensures
            h@ == self@.throughput_history,
    {
        &self.throughput_history
    }

    /// Selects `row`, or nothing, with the given scroll offset.
    pub fn set_selection(&mut self, row: Option<usize>, scroll_offset: usize)
        ensures
            final(self)@ == (NetworkView { selected_row: row, scroll_offset, ..old(self)@ }),
    {
        self.selected_row = row;
        self.scroll_offset = scroll_offset;
    }

    /// Sets the filter text and clears the selection and scroll.
    pub fn set_filter(&mut self, text: String)
        ensures
            final(self)@ == (NetworkView {
                filter_text: text@,
                selected_row: None,
                scroll_offset: 0,
                ..old(self)@
            }),
    {
        self.filter_text = text;
        self.selected_row = None;
        self.scroll_offset = 0;
    }

    /// Clears the filter, the selection and the scroll.
    pub fn clear_filter(&mut self)
        ensures
            final(self)@ == (NetworkView {
                filter_text: Seq::empty(),
                selected_row: None,
                scroll_offset: 0,
                ..old(self)@
            }),
    {
        self.filter_text = String::new();
        self.selected_row = None;
        self.scroll_offset = 0;
    }

    /// Handles a navigation key over `row_count` rows: j/k move, Esc clears the filter.
    pub fn handle_key(&mut self, code: KeyCode, row_count: usize)
        ensures
            code == KeyCode::Char('j') || code == KeyCode::Down ==> final(self)@ == move_down_view(
                old(self)@,
                row_count as nat,
            ),
            code == KeyCode::Char('k') || code == KeyCode::Up ==> final(self)@ == move_up_view(old(self)@),
            code == KeyCode::Esc ==> final(self)@ == (NetworkView {
                filter_text: Seq::empty(),
                selected_row: None,
                scroll_offset: 0,
                ..old(self)@
            }),
            !(code == KeyCode::Char('j') || code == KeyCode::Down || code == KeyCode::Char('k')
                || code == KeyCode::Up || code == KeyCode::Esc) ==> final(self)@ == old(self)@,
    {
        match code {
            KeyCode::Char('j') | KeyCode::Down => self.move_down(row_count),
            KeyCode::Char('k') | KeyCode::Up => self.move_up(),
            KeyCode::Esc => self.clear_filter(),
            _ => {},
        }
    }

    /// Records one throughput sample, the total of `edge_rates` (bytes per
    /// second of each connection), dropping the oldest beyond the cap.
    pub fn update(&mut self, edge_rates: &[u64])
        requires
            sum_u64(edge_rates@) <= u64::MAX,
        ensures
            final(self)@ == (NetworkView {
                throughput_history: capped_push(
                    old(self)@.throughput_history,
                    sum_u64(edge_rates@) as u64,
                    THROUGHPUT_HISTORY_CAP as nat,
                ),
                ..old(self)@
            }),
    {
        let total = total_of(edge_rates);
        push_capped(&mut self.throughput_history, total, THROUGHPUT_HISTORY_CAP);
    }

    /// Moves the selection down over `row_count` rows, wrapping to the first.
    pub fn move_down(&mut self, row_count: usize)
        ensures
            final(self)@ == move_down_view(old(self)@, row_count as nat),
    {
        if row_count == 0 {
            return;
        }
        let next = next_row(self.selected_row, row_count);
        self.selected_row = Some(next);
        self.ensure_visible(next);
    }

    /// Moves the selection up, stopping at the first row.
    pub fn move_up(&mut self)
        ensures
            final(self)@ == move_up_view(old(self)@),
    {
        let next = previous_row(self.selected_row);
        self.selected_row = Some(next);
        self.ensure_visible(next);
    }

    /// Scrolls up so that `row` is not above the visible window.
    pub fn ensure_visible(&mut self, row: usize)
        ensures
            final(self)@ == (NetworkView { scroll_offset: scroll_to(row, old(self)@.scroll_offset), ..old(self)@ }),
    {
        if row < self.scroll_offset {
            self.scroll_offset = row;
        }
    }
}

/// The state after moving the selection down over `count` rows.
pub open spec fn move_down_view(st: NetworkView, count: nat) -> NetworkView {
    match select_down(st.selected_row, count) {
        Some(r) => if count == 0 {
            st
        } else {
            NetworkView { selected_row: Some(r), scroll_offset: scroll_to(r, st.scroll_offset), ..st }
        },
        None => st,
    }
}

/// The state after moving the selection up.
pub open spec fn move_up_view(st: NetworkView) -> NetworkView {
    match select_up(st.selected_row) {
        Some(r) => NetworkView { selected_row: Some(r), scroll_offset: scroll_to(r, st.scroll_offset), ..st },
        None => st,
    }
}

/// A rate in bytes per second, as in `500 B/s` or `2.0 KB/s`.
pub open spec fn rate_text(bps: u64) -> Seq<char> {
    size_text(bps as nat, "/s"@)
}

/// Formats bytes per second with the largest unit it reaches.
pub fn format_bytes_per_sec(bps: u64) -> (s: String)
    ensures
        s@ == rate_text(bps),
{
    format_size(bps, "/s")
}

/// Transport or application protocol of a connection.
#[derive(Debug, Clone, Copy, PartialEq, Eq, Structural)]
pub enum Protocol {
    TCP,
    UDP,
    DNS,
    QUIC,
    HTTP,
    HTTPS,
    Unknown,
}

/// Column of a protocol in the distribution, in the order TCP, UDP, DNS,
/// QUIC, HTTP, HTTPS, other.
pub open spec fn protocol_slot(p: Protocol) -> int {
    match p {
        Protocol::TCP => 0,
        Protocol::UDP => 1,
        Protocol::DNS => 2,
        Protocol::QUIC => 3,
        Protocol::HTTP => 4,
        Protocol::HTTPS => 5,
        Protocol::Unknown => 6,
    }
}

/// Column of a protocol in the distribution.
pub fn protocol_index(p: Protocol) -> (i: usize)
    ensures
        i == protocol_slot(p),
{
    match p {
        Protocol::TCP => 0,
        Protocol::UDP => 1,
        Protocol::DNS => 2,
        Protocol::QUIC => 3,
        Protocol::HTTP => 4,
        Protocol::HTTPS => 5,
        Protocol::Unknown => 6,
    }
}

/// Aggregate counts over the connections.
#[derive(Debug, Clone, Copy)]
pub struct NetworkCounts {
    pub total: usize,
    pub active: usize,
    pub total_bps: u64,
    pub per_protocol: [usize; 7],
}

/// Number of connections in `edges` with protocol slot `slot`.
pub open spec fn count_slot(edges: Seq<(Protocol, u64)>, slot: int) -> nat
    decreases edges.len(),
{
    if edges.len() == 0 {
        0
    } else {
        count_slot(edges.drop_last(), slot) + if protocol_slot(edges.last().0) == slot { 1nat } else { 0nat }
    }
}

/// Number of connections in `edges` carrying traffic.
pub open spec fn count_active(edges: Seq<(Protocol, u64)>) -> nat
    decreases edges.len(),
{
    if edges.len() == 0 {
        0
    } else {
        count_active(edges.drop_last()) + if edges.last().1 > 0 { 1nat } else { 0nat }
    }
}

/// Total traffic of `edges`.
pub open spec fn total_rate(edges: Seq<(Protocol, u64)>) -> nat
    decreases edges.len(),
{
    if edges.len() == 0 {
        0
    } else {
        total_rate(edges.drop_last()) + edges.last().1 as nat
    }
}

proof fn lemma_total_rate_prefix(edges: Seq<(Protocol, u64)>, n: int)
    requires
        0 <= n <= edges.len(),
    ensures
        total_rate(edges.take(n)) <= total_rate(edges),
    decreases edges.len(),
{
    if n < edges.len() {
        assert(edges.drop_last().take(n) =~= edges.take(n));
        lemma_total_rate_prefix(edges.drop_last(), n);
    } else {
        assert(edges.take(n) =~= edges);
    }
}

/// Counts connections, given each one's protocol and bytes per second:
/// all of them, those carrying traffic, their total traffic, and how many
/// use each protocol.
pub fn compute_counts(edges: &[(Protocol, u64)]) -> (c: NetworkCounts)
    requires
        total_rate(edges@) <= u64::MAX,
    ensures
        c.total == edges@.len(),
        c.active == count_active(edges@),
        c.total_bps == total_rate(edges@),
        forall|k: int| 0 <= k < 7 ==> #[trigger] c.per_protocol[k] == count_slot(edges@, k),
{
    let ghost e = edges@;
    let mut active: usize = 0;
    let mut total_bps: u64 = 0;
    let mut per: [usize; 7] = [0, 0, 0, 0, 0, 0, 0];
    let mut i: usize = 0;
    while i < edges.len()
        invariant
            e == edges@,
            i <= e.len(),
            total_rate(e) <= u64::MAX,
            active == count_active(e.take(i as int)),
            active <= i,
            total_bps == total_rate(e.take(i as int)),
            forall|k: int| 0 <= k < 7 ==> #[trigger] per@[k] == count_slot(e.take(i as int), k),
            forall|k: int| 0 <= k < 7 ==> #[trigger] per@[k] <= i,
        decreases e.len() - i,
    {
        let (p, bps) = edges[i];
        proof {
            assert(e.take(i as int + 1).drop_last() =~= e.take(i as int));
            lemma_total_rate_prefix(e, i as int + 1);
        }
        total_bps = total_bps + bps;
        if bps > 0 {
            active = active + 1;
        }
        let slot = protocol_index(p);
        let old_count = per[slot];
        per[slot] = old_count + 1;
        i = i + 1;
    }
    assert(e.take(e.len() as int) =~= e);
    NetworkCounts { total: edges.len(), active, total_bps, per_protocol: per }
}

/// Display colour of a protocol name in the connection list: TCP healthy
/// cyan, UDP neon blue, DNS warning yellow, anything else gray.
pub open spec fn protocol_color_of(name: Seq<char>) -> Color {
    if name == "TCP"@ {
        Color::Rgb(0, 240, 255)
    } else if name == "UDP"@ {
        Color::Rgb(0, 128, 255)
    } else if name == "DNS"@ {
        Color::Rgb(252, 238, 9)
    } else {
        Color::Gray
    }
}

/// Display colour of a protocol name in the connection list.
pub fn protocol_color(proto_str: &str) -> (c: Color)
    ensures
        c == protocol_color_of(proto_str@),
{
    if str_is(proto_str, "TCP") {
        Palette::healthy().to_color()
    } else if str_is(proto_str, "UDP") {
        Palette::neon_blue().to_color()
    } else if str_is(proto_str, "DNS") {
        Palette::warning().to_color()
    } else {
        Color::Gray
    }
}

// ── The text of the Network tab ────────────────────────────────────

/// The name a protocol is shown by.
pub open spec fn protocol_name(p: Protocol) -> Seq<char> {
    match p {
        Protocol::TCP => "TCP"@,
        Protocol::UDP => "UDP"@,
        Protocol::DNS => "DNS"@,
        Protocol::QUIC => "QUIC"@,
        Protocol::HTTP => "HTTP"@,
        Protocol::HTTPS => "HTTPS"@,
        Protocol::Unknown => "Unknown"@,
    }
}

/// The name a protocol is shown by.
pub fn protocol_label(p: Protocol) -> (s: &'static str)
    ensures
        s@ == protocol_name(p),
{
    match p {
        Protocol::TCP => "TCP",
        Protocol::UDP => "UDP",
        Protocol::DNS => "DNS",
        Protocol::QUIC => "QUIC",
        Protocol::HTTP => "HTTP",
        Protocol::HTTPS => "HTTPS",
        Protocol::Unknown => "Unknown",
    }
}

/// One connection as the table lists it. `source_name` is `None` once
/// the source process has exited; `state` is the connection state's name.
#[derive(Debug)]
pub struct ConnectionInfo {
    pub source_pid: u32,
    pub source_name: Option<String>,
    pub dest: String,
    pub protocol: Protocol,
    pub state: String,
    pub bytes_per_sec: u64,
}

/// The cells of a connection's row: source PID, source name (or
/// `<exited>`), destination, protocol, state and traffic.
pub open spec fn connection_cells_text(c: ConnectionInfo) -> Seq<Seq<char>> {
    seq![
        spec_decimal(c.source_pid as nat),
        match c.source_name {
            Some(n) => n@,
            None => "<exited>"@,
        },
        c.dest@,
        protocol_name(c.protocol),
        c.state@,
        rate_text(c.bytes_per_sec),
    ]
}

fn text_of(s: &str) -> (r: String)
    ensures
        r@ == s@,
{
    let mut r = String::new();
    push_str(&mut r, s);
    r
}

/// The cells of a connection's row.
pub fn connection_cells(c: &ConnectionInfo) -> (v: Vec<String>)
    ensures
        v@.map_values(|x: String| x@) == connection_cells_text(*c),
{
    let mut pid = String::new();
    push_decimal(&mut pid, c.source_pid as u64);
    let name = match &c.source_name {
        Some(n) => text_of(n.as_str()),
        None => text_of("<exited>"),
    };
    let v = vec![
        pid,
        name,
        text_of(c.dest.as_str()),
        text_of(protocol_label(c.protocol)),
        text_of(c.state.as_str()),
        format_bytes_per_sec(c.bytes_per_sec),
    ];
    assert(v@.map_values(|x: String| x@) =~= connection_cells_text(*c));
    v
}

/// The column headings of the connection table.
pub open spec fn table_header_text() -> Seq<Seq<char>> {
    seq!["Src PID"@, "Src Name"@, "Dest IP:Port"@, "Proto"@, "State"@, "Bytes/s"@]
}

/// The column headings of the connection table.
pub fn table_header() -> (v: Vec<String>)
    ensures
        v@.map_values(|x: String| x@) == table_header_text(),
{
    let v = vec![
        text_of("Src PID"),
        text_of("Src Name"),
        text_of("Dest IP:Port"),
        text_of("Proto"),
        text_of("State"),
        text_of("Bytes/s"),
    ];
    assert(v@.map_values(|x: String| x@) =~= table_header_text());
    v
}

/// The title of the connection table: the number of rows listed, and the
/// filter when one is set.
pub open spec fn table_title_text(total: nat, filter: Seq<char>) -> Seq<char> {
    "Network [F3] \u{2014} "@ + spec_decimal(total) + " connections"@ + if filter.len() == 0 {
        Seq::empty()
    } else {
        " [filter: "@ + filter + "]"@
    }
}

/// The title of the connection table.
pub fn table_title(total: usize, filter: &str) -> (s: String)
    ensures
        s@ == table_title_text(total as nat, filter@),
{
    let mut s = String::new();
    push_str(&mut s, "Network [F3] \u{2014} ");
    push_decimal(&mut s, total as u64);
    push_str(&mut s, " connections");
    if filter.unicode_len() > 0 {
        push_str(&mut s, " [filter: ");
        push_str(&mut s, filter);
        push_str(&mut s, "]");
    }
    proof {
        reveal_strlit("");
    }
    assert(s@ =~= table_title_text(total as nat, filter@));
    s
}

/// The first row drawn: the scroll offset, kept on the last row.
pub fn table_offset(scroll: usize, total: usize) -> (o: usize)
    ensures
        o == if total == 0 {
            0
        } else if scroll < total - 1 {
            scroll as int
        } else {
            total - 1
        },
{
    let last = if total == 0 { 0 } else { total - 1 };
    if scroll < last { scroll } else { last }
}

/// The text lines of the Network Summary panel: connection and active
/// counts, total throughput, and, with no connection at all, a note
/// saying so.
pub open spec fn summary_text(c: NetworkCounts) -> Seq<Seq<char>> {
    seq![
        "Connections: "@ + spec_decimal(c.total as nat) + "  Active: "@ + spec_decimal(c.active as nat),
        "Throughput: "@ + rate_text(c.total_bps),
    ] + if c.total == 0 {
        seq!["No connections"@]
    } else {
        Seq::empty()
    }
}

/// The text lines of the Network Summary panel. With connections, the
/// third line (each protocol's share) is drawn from
/// [`protocol_shares`].
pub fn summary_lines(c: &NetworkCounts) -> (v: Vec<String>)
    ensures
        v@.map_values(|x: String| x@) == summary_text(*c),
{
    let mut first = String::new();
    push_str(&mut first, "Connections: ");
    push_decimal(&mut first, c.total as u64);
    push_str(&mut first, "  Active: ");
    push_decimal(&mut first, c.active as u64);
    let mut second = String::new();
    push_str(&mut second, "Throughput: ");
    let rate = format_bytes_per_sec(c.total_bps);
    push_str(&mut second, rate.as_str());
    let mut v = vec![first, second];
    if c.total == 0 {
        v.push(text_of("No connections"));
    }
    proof {
        reveal_strlit("");
    }
    assert(v@.map_values(|x: String| x@) =~= summary_text(*c));
    v
}

/// Label of protocol column `k` of the distribution.
pub open spec fn slot_label(k: int) -> Seq<char> {
    if k == 0 {
        "TCP"@
    } else if k == 1 {
        "UDP"@
    } else if k == 2 {
        "DNS"@
    } else if k == 3 {
        "QUIC"@
    } else if k == 4 {
        "HTTP"@
    } else if k == 5 {
        "HTTPS"@
    } else {
        "Other"@
    }
}

fn slot_label_of(k: usize) -> (s: &'static str)
    ensures
        s@ == slot_label(k as int),
{
    if k == 0 {
        "TCP"
    } else if k == 1 {
        "UDP"
    } else if k == 2 {
        "DNS"
    } else if k == 3 {
        "QUIC"
    } else if k == 4 {
        "HTTP"
    } else if k == 5 {
        "HTTPS"
    } else {
        "Other"
    }
}

/// The protocols in use among the first `k` columns, in column order,
/// each with its count.
pub open spec fn shares_upto(per: Seq<usize>, k: int) -> Seq<(Seq<char>, usize)>
    decreases k,
{
    if k <= 0 {
        Seq::empty()
    } else if per[k - 1] > 0 {
        shares_upto(per, k - 1).push((slot_label(k - 1), per[k - 1]))
    } else {
        shares_upto(per, k - 1)
    }
}

/// The protocols in use, in the order TCP, UDP, DNS, QUIC, HTTP, HTTPS,
/// other, each with its number of connections; the summary shows each as
/// its share of all connections.
pub fn protocol_shares(c: &NetworkCounts) -> (v: Vec<(String, usize)>)
    ensures
        v@.map_values(|x: (String, usize)| (x.0@, x.1)) == shares_upto(c.per_protocol@, 7),
{
    let mut v: Vec<(String, usize)> = Vec::new();
    let mut k: usize = 0;
    while k < 7
        invariant
            k <= 7,
            v@.map_values(|x: (String, usize)| (x.0@, x.1)) == shares_upto(c.per_protocol@, k as int),
        decreases 7 - k,
    {
        let n = c.per_protocol[k];
        if n > 0 {
            let ghost before = v@.map_values(|x: (String, usize)| (x.0@, x.1));
            v.push((text_of(slot_label_of(k)), n));
            assert(v@.map_values(|x: (String, usize)| (x.0@, x.1)) =~= before.push((slot_label(k as int), n)));
        }
        k = k + 1;
    }
    v
}

// ── The search filter of the connection list ───────────────────────

/// Whether `needle` occurs in `hay` as a run of consecutive characters.
pub open spec fn occurs_in(needle: Seq<char>, hay: Seq<char>) -> bool {
    exists|i: int| 0 <= i && i + needle.len() <= hay.len() && #[trigger] hay.subrange(i, i + needle.len()) == needle
}

/// Whether `needle` occurs in `hay`.
pub fn str_contains(hay: &str, needle: &str) -> (b: bool)
    ensures
        b == occurs_in(needle@, hay@),
{
    let h = chars_of(hay);
    let n = chars_of(needle);
    if n.len() > h.len() {
        proof {
            assert forall|i: int| 0 <= i && i + n@.len() <= h@.len() implies #[trigger] h@.subrange(i, i + n@.len()) != n@ by {}
        }
        return false;
    }
    if n.len() == 0 {
        assert(h@.subrange(0int, 0int + n@.len()) =~= n@);
        return true;
    }
    let hl = h.len();
    let last = h.len() - n.len();
    let mut i: usize = 0;
    while i <= last
        invariant
            h@ == hay@,
            n@ == needle@,
            last == h@.len() - n@.len(),
            hl == h@.len(),
            n@.len() > 0,
            i <= last + 1,
            forall|j: int| 0 <= j < i ==> #[trigger] h@.subrange(j, j + n@.len()) != n@,
        decreases last + 1 - i,
    {
        let mut k: usize = 0;
        let mut same = true;
        while k < n.len()
            invariant
                h@ == hay@,
                n@ == needle@,
                i <= last,
                last == h@.len() - n@.len(),
                hl == h@.len(),
                k <= n@.len(),
                same == (forall|m: int| 0 <= m < k ==> h@[i + m] == n@[m]),
            decreases n@.len() - k,
        {
            if h[i + k] != n[k] {
                same = false;
            }
            k = k + 1;
        }
        if same {
            assert(h@.subrange(i as int, i + n@.len()) =~= n@);
            return true;
        }
        proof {
            let m = choose|m: int| 0 <= m < n@.len() && h@[i + m] != n@[m];
            assert(h@.subrange(i as int, i + n@.len())[m] != n@[m]);
        }
        i = i + 1;
    }
    proof {
        assert forall|j: int| 0 <= j && j + n@.len() <= h@.len() implies #[trigger] h@.subrange(j, j + n@.len()) != n@ by {
            assert(j < i);
        }
    }
    false
}

/// Whether a connection row passes the filter, given the lower-cased
/// filter text, source name and destination: every row passes an empty
/// filter; otherwise the filter must occur in the name or the destination.
pub open spec fn passes_lowered(filter: Seq<char>, name: Seq<char>, dest: Seq<char>) -> bool {
    filter.len() == 0 || occurs_in(filter, name) || occurs_in(filter, dest)
}

/// Whether a connection row passes the filter, given the lower-cased texts.
pub fn matches_lowered(filter: &str, name: &str, dest: &str) -> (b: bool)
    ensures
        b == passes_lowered(filter@, name@, dest@),
{
    filter.unicode_len() == 0 || str_contains(name, filter) || str_contains(dest, filter)
}

/// The source name shown for a connection.
pub open spec fn shown_name(c: ConnectionInfo) -> Seq<char> {
    match c.source_name {
        Some(n) => n@,
        None => "<exited>"@,
    }
}

/// Whether connection `c` passes the search filter `filter`: the filter,
/// lower-cased, is empty or occurs in the lower-cased source name or
/// destination.
pub open spec fn passes_filter(c: ConnectionInfo, filter: Seq<char>) -> bool {
    passes_lowered(lowercase(filter), lowercase(shown_name(c)), lowercase(c.dest@))
}

/// Whether connection `c` passes the search filter `filter`.
pub fn connection_matches(c: &ConnectionInfo, filter: &str) -> (b: bool)
    ensures
        b == passes_filter(*c, filter@),
{
    let f = to_lowercase(filter);
    let name = match &c.source_name {
        Some(n) => to_lowercase(n.as_str()),
        None => to_lowercase("<exited>"),
    };
    let dest = to_lowercase(c.dest.as_str());
    matches_lowered(f.as_str(), name.as_str(), dest.as_str())
}

/// Positions of the connections that pass the search filter, in order.
pub open spec fn filtered(v: Seq<ConnectionInfo>, filter: Seq<char>) -> Seq<int>
    decreases v.len(),
{
    if v.len() == 0 {
        Seq::empty()
    } else if passes_filter(v.last(), filter) {
        filtered(v.drop_last(), filter).push(v.len() - 1)
    } else {
        filtered(v.drop_last(), filter)
    }
}

/// Positions of the connections that pass the search filter, in order.
pub fn filter_connections(conns: &[ConnectionInfo], filter: &str) -> (r: Vec<usize>)
    ensures
        r@.map_values(|i: usize| i as int) == filtered(conns@, filter@),
{
    let mut r: Vec<usize> = Vec::new();
    let mut i: usize = 0;
    while i < conns.len()
        invariant
            i <= conns@.len(),
            r@.map_values(|x: usize| x as int) == filtered(conns@.take(i as int), filter@),
        decreases conns@.len() - i,
    {
        assert(conns@.take(i as int + 1).drop_last() =~= conns@.take(i as int));
        let ghost before = r@.map_values(|x: usize| x as int);
        if connection_matches(&conns[i], filter) {
            r.push(i);
            assert(r@.map_values(|x: usize| x as int) =~= before.push(i as int));
        }
        i = i + 1;
    }
    assert(conns@.take(conns@.len() as int) =~= conns@);
    r
}

/// The traffic keys of the kept rows, in their order.
pub open spec fn kept_keys(kept: Seq<int>, keys: Seq<u64>) -> Seq<u64> {
    kept.map_values(|i: int| keys[i])
}

/// The connection rows shown: those passing the search filter, busiest
/// first by `rate_keys` (the sort keys of their traffic texts, parsed by
/// the caller), rows with equal keys in their given order. The result
/// lists positions in `conns`.
pub fn connection_row_order(conns: &[ConnectionInfo], filter: &str, rate_keys: &[u64]) -> (r: Vec<usize>)
    requires
        rate_keys@.len() == conns@.len(),
    ensures
        exists|o: Seq<usize>|
            is_stable_order(kept_keys(filtered(conns@, filter@), rate_keys@), false, o) && r@.len() == o.len()
                && forall|k: int| 0 <= k < o.len() ==> r@[k] as int == filtered(conns@, filter@)[#[trigger] o[k] as int],
{
    let kept = filter_connections(conns, filter);
    let ghost kv = kept@.map_values(|i: usize| i as int);
    proof {
        lemma_filtered_in_range(conns@, filter@);
    }
    let mut keys: Vec<u64> = Vec::new();
    let mut j: usize = 0;
    while j < kept.len()
        invariant
            kv == kept@.map_values(|i: usize| i as int),
            kv == filtered(conns@, filter@),
            forall|k: int| 0 <= k < kv.len() ==> 0 <= #[trigger] kv[k] < conns@.len(),
            rate_keys@.len() == conns@.len(),
            j <= kept@.len(),
            keys@ == kept_keys(kv, rate_keys@).take(j as int),
        decreases kept@.len() - j,
    {
        assert(kv[j as int] == kept@[j as int] as int);
        keys.push(rate_keys[kept[j]]);
        assert(keys@ =~= kept_keys(kv, rate_keys@).take(j as int + 1));
        j = j + 1;
    }
    assert(kept_keys(kv, rate_keys@).take(kept@.len() as int) =~= kept_keys(kv, rate_keys@));
    let o = stable_order(keys.as_slice(), false);
    let mut r: Vec<usize> = Vec::new();
    let mut k: usize = 0;
    while k < o.len()
        invariant
            kv == kept@.map_values(|i: usize| i as int),
            kv == filtered(conns@, filter@),
            is_stable_order(kept_keys(kv, rate_keys@), false, o@),
            keys@.len() == kept@.len(),
            o@.len() == keys@.len(),
            k <= o@.len(),
            r@.len() == k,
            forall|m: int| 0 <= m < k ==> r@[m] as int == kv[#[trigger] o@[m] as int],
        decreases o@.len() - k,
    {
        let idx = o[k];
        assert(o@[k as int] < keys@.len());
        r.push(kept[idx]);
        k = k + 1;
    }
    let ghost og = o@;
    assert(is_stable_order(kept_keys(filtered(conns@, filter@), rate_keys@), false, og) && r@.len() == og.len()
        && forall|m: int| 0 <= m < og.len() ==> r@[m] as int == filtered(conns@, filter@)[#[trigger] og[m] as int]);
    r
}

proof fn lemma_filtered_in_range(v: Seq<ConnectionInfo>, filter: Seq<char>)
    ensures
        forall|k: int| 0 <= k < filtered(v, filter).len() ==> 0 <= #[trigger] filtered(v, filter)[k] < v.len(),
    decreases v.len(),
{
    if v.len() > 0 {
        lemma_filtered_in_range(v.drop_last(), filter);
        let f0 = filtered(v.drop_last(), filter);
        let f = filtered(v, filter);
        if passes_filter(v.last(), filter) {
            assert(f == f0.push(v.len() - 1));
            assert forall|k: int| 0 <= k < f.len() implies 0 <= #[trigger] f[k] < v.len() by {
                if k < f0.len() {
                    assert(f[k] == f0[k]);
                }
            }
        } else {
            assert(f == f0);
        }
    }
}

} // verus!
