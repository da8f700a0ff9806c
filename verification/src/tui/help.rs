//! The help overlay and the popup area it is drawn in.
use vstd::prelude::*;

use crate::script::strings::push_str;

verus! {

/// A rectangle of terminal cells.
#[derive(Debug, Clone, Copy, PartialEq, Eq, Structural)]
pub struct Rect {
    pub x: u16,
    pub y: u16,
    pub width: u16,
    pub height: u16,
}

/// `v + len` clamped at the largest coordinate, minus `v`.
pub open spec fn clamp_len(v: u16, len: u16) -> u16 {
    if v + len > u16::MAX { (u16::MAX - v) as u16 } else { len }
}

impl Rect {
    /// A rectangle at `(x, y)`; width and height are cut so that its right
    /// and bottom edges stay within the coordinate range.
    pub fn new(x: u16, y: u16, width: u16, height: u16) -> (r: Self)
        ensures
            r == (Rect { x, y, width: clamp_len(x, width), height: clamp_len(y, height) }),
    {
        Rect { x, y, width: x.saturating_add(width) - x, height: y.saturating_add(height) - y }
    }
}

/// `percent` per cent of `len`, with the product saturating at the largest coordinate.
pub open spec fn percent_of(len: u16, percent: u16) -> u16 {
    let p = len * percent;
    (if p > u16::MAX { u16::MAX as int } else { p } / 100) as u16
}

/// Offset that centres a span of `inner` cells within `outer` cells.
pub open spec fn centre_offset(outer: u16, inner: u16) -> int {
    if outer >= inner { (outer - inner) / 2 } else { 0 }
}

/// The centred rectangle of the given percentages of `outer`.
pub open spec fn spec_centered_rect(outer: Rect, percent_w: u16, percent_h: u16) -> Rect {
    let w = percent_of(outer.width, percent_w);
    let h = percent_of(outer.height, percent_h);
    let x = (outer.x + centre_offset(outer.width, w)) as u16;
    let y = (outer.y + centre_offset(outer.height, h)) as u16;
    Rect { x, y, width: clamp_len(x, w), height: clamp_len(y, h) }
}

/// `a * b`, saturating at the largest `u16`.
fn saturating_mul_u16(a: u16, b: u16) -> (p: u16)
    ensures
        p == (if a * b > u16::MAX { u16::MAX as int } else { a * b }),
{
    assert((a as u32) * (b as u32) <= 65535 * 65535) by (nonlinear_arith)
        requires
            a <= 65535,
            b <= 65535,
    ;
    let wide = (a as u32) * (b as u32);
    if wide > 65535 {
        65535
    } else {
        wide as u16
    }
}

/// A rectangle of the given percentages of `outer`, centred within it.
pub fn centered_rect(outer: Rect, percent_w: u16, percent_h: u16) -> (r: Rect)
    requires
        outer.x + centre_offset(outer.width, percent_of(outer.width, percent_w)) <= u16::MAX,
        outer.y + centre_offset(outer.height, percent_of(outer.height, percent_h)) <= u16::MAX,
    ensures
        r == spec_centered_rect(outer, percent_w, percent_h),
{
    let w = saturating_mul_u16(outer.width, percent_w) / 100;
    let h = saturating_mul_u16(outer.height, percent_h) / 100;
    let x = outer.x + (outer.width.saturating_sub(w)) / 2;
    let y = outer.y + (outer.height.saturating_sub(h)) / 2;
    Rect::new(x, y, w, h)
}

/// Floating help popup listing the key bindings; toggled with `?`.
#[derive(Debug)]
pub struct HelpOverlay {
    visible: bool,
}

impl Default for HelpOverlay {
    fn default() -> (h: Self)
        ensures
            !h.visible(),
    {
        HelpOverlay { visible: false }
    }
}

impl HelpOverlay {
    /// Whether the overlay is shown.
    pub closed spec fn visible(&self) -> bool {
        self.visible
    }

    /// Toggle visibility on/off.
    pub fn toggle(&mut self)
        ensures
            final(self).visible() == !old(self).visible(),
    {
        self.visible = !self.visible;
    }

    /// Whether the overlay is currently visible.
    pub fn is_visible(&self) -> (b: bool)
        ensures
            b == self.visible(),
    {
        self.visible
    }

    /// Dismiss the overlay.
    pub fn dismiss(&mut self)
        ensures
            !final(self).visible(),
    {
        self.visible = false;
    }
}

/// Toggling twice leaves the overlay's visibility as it was: `h1` is what
/// a toggle makes of `h0`, and `h2` what a toggle makes of `h1`.
pub proof fn lemma_toggle_twice(h0: HelpOverlay, h1: HelpOverlay, h2: HelpOverlay)
    requires
        h1.visible() == !h0.visible(),
        h2.visible() == !h1.visible(),
    ensures
        h2.visible() == h0.visible(),
{
}

/// One line of the help overlay's text. Each kind has its own style when
/// drawn.
#[derive(Debug)]
pub enum HelpLine {
    /// An empty line.
    Blank,
    /// A section heading.
    Heading(String),
    /// The rule under a heading.
    Separator(String),
    /// A key, padded to the key column, and what it does.
    Row(String, String),
}

/// View of a [`HelpLine`].
pub enum SpecHelpLine {
    Blank,
    Heading(Seq<char>),
    Separator(Seq<char>),
    Row(Seq<char>, Seq<char>),
}

impl View for HelpLine {
    type V = SpecHelpLine;

    open spec fn view(&self) -> SpecHelpLine {
        match self {
            HelpLine::Blank => SpecHelpLine::Blank,
            HelpLine::Heading(t) => SpecHelpLine::Heading(t@),
            HelpLine::Separator(t) => SpecHelpLine::Separator(t@),
            HelpLine::Row(k, d) => SpecHelpLine::Row(k@, d@),
        }
    }
}

/// Width of the key column.
pub const KEY_COLUMN: usize = 16;

/// `s` padded with spaces on the right to `width` characters; a longer `s`
/// is kept whole.
pub open spec fn pad_right(s: Seq<char>, width: nat) -> Seq<char> {
    if s.len() >= width {
        s
    } else {
        s + Seq::new((width - s.len()) as nat, |i: int| ' ')
    }
}

/// A help row: `key` padded to the key column, and `desc`.
pub fn help_row(key: &str, desc: &str) -> (l: HelpLine)
    ensures
        l@ == SpecHelpLine::Row(pad_right(key@, KEY_COLUMN as nat), desc@),
{
    let mut k = String::new();
    push_str(&mut k, key);
    let n = key.unicode_len();
    if n < KEY_COLUMN {
        let mut i: usize = n;
        while i < KEY_COLUMN
            invariant
                n <= i <= KEY_COLUMN,
                n == key@.len(),
                k@ == key@ + Seq::new((i - n) as nat, |j: int| ' '),
            decreases KEY_COLUMN - i,
        {
            k.push(' ');
            proof {
                assert(k@ =~= key@ + Seq::new((i + 1 - n) as nat, |j: int| ' '));
            }
            i = i + 1;
        }
    } else {
        assert(k@ =~= key@);
    }
    let mut d = String::new();
    push_str(&mut d, desc);
    HelpLine::Row(k, d)
}

/// The rule drawn under each heading.
pub open spec fn help_separator() -> Seq<char> {
    "  \u{2500}\u{2500}\u{2500}\u{2500}\u{2500}\u{2500}\u{2500}\u{2500}\u{2500}\u{2500}\u{2500}\u{2500}\u{2500}\u{2500}\u{2500}\u{2500}\u{2500}\u{2500}\u{2500}\u{2500}\u{2500}\u{2500}\u{2500}\u{2500}\u{2500}\u{2500}\u{2500}\u{2500}\u{2500}\u{2500}"@
}

/// A help row's view.
pub open spec fn spec_row(key: Seq<char>, desc: Seq<char>) -> SpecHelpLine {
    SpecHelpLine::Row(pad_right(key, KEY_COLUMN as nat), desc)
}

/// The text of the help overlay: navigation, tabs, actions, modes and
/// commands, each under a heading and a rule.
pub open spec fn help_text() -> Seq<SpecHelpLine> {
    seq![
        SpecHelpLine::Blank,
        SpecHelpLine::Heading("  Navigation"@),
        SpecHelpLine::Separator(help_separator()),
        spec_row("  h/j/k/l"@, "Move left/down/up/right"@),
        spec_row("  \u{2191}/\u{2193}"@, "Move up/down"@),
        SpecHelpLine::Blank,
        SpecHelpLine::Heading("  Tabs"@),
        SpecHelpLine::Separator(help_separator()),
        spec_row("  F1"@, "Overview"@),
        spec_row("  F2"@, "World 3D"@),
        spec_row("  F3"@, "Network"@),
        spec_row("  F4"@, "Arbiter"@),
        SpecHelpLine::Blank,
        SpecHelpLine::Heading("  Actions"@),
        SpecHelpLine::Separator(help_separator()),
        spec_row("  Enter"@, "Select item"@),
        spec_row("  Esc"@, "Back / deselect"@),
        spec_row("  q"@, "Quit"@),
        SpecHelpLine::Blank,
        SpecHelpLine::Heading("  Modes"@),
        SpecHelpLine::Separator(help_separator()),
        spec_row("  :"@, "Command mode"@),
        spec_row("  /"@, "Search mode"@),
        spec_row("  ?"@, "Help (this overlay)"@),
        SpecHelpLine::Blank,
        SpecHelpLine::Heading("  Commands"@),
        SpecHelpLine::Separator(help_separator()),
        spec_row("  :kill <pid>"@, "Kill a process"@),
        spec_row("  :sort <col>"@, "Sort by column"@),
        spec_row("  :q"@, "Quit"@),
    ]
}

/// Views of a list of help lines.
pub open spec fn help_lines_view(v: Seq<HelpLine>) -> Seq<SpecHelpLine> {
    v.map_values(|l: HelpLine| l@)
}

fn text(s: &str) -> (r: String)
    ensures
        r@ == s@,
{
    let mut r = String::new();
    push_str(&mut r, s);
    r
}

fn separator() -> (l: HelpLine)
    ensures
        l@ == SpecHelpLine::Separator(help_separator()),
{
    HelpLine::Separator(
        text(
            "  \u{2500}\u{2500}\u{2500}\u{2500}\u{2500}\u{2500}\u{2500}\u{2500}\u{2500}\u{2500}\u{2500}\u{2500}\u{2500}\u{2500}\u{2500}\u{2500}\u{2500}\u{2500}\u{2500}\u{2500}\u{2500}\u{2500}\u{2500}\u{2500}\u{2500}\u{2500}\u{2500}\u{2500}\u{2500}\u{2500}",
        ),
    )
}

/// The lines of the help overlay.
pub fn help_lines() -> (v: Vec<HelpLine>)
    ensures
        help_lines_view(v@) == help_text(),
{
    let v = vec![
        HelpLine::Blank,
        HelpLine::Heading(text("  Navigation")),
        separator(),
        help_row("  h/j/k/l", "Move left/down/up/right"),
        help_row("  \u{2191}/\u{2193}", "Move up/down"),
        HelpLine::Blank,
        HelpLine::Heading(text("  Tabs")),
        separator(),
        help_row("  F1", "Overview"),
        help_row("  F2", "World 3D"),
        help_row("  F3", "Network"),
        help_row("  F4", "Arbiter"),
        HelpLine::Blank,
        HelpLine::Heading(text("  Actions")),
        separator(),
        help_row("  Enter", "Select item"),
        help_row("  Esc", "Back / deselect"),
        help_row("  q", "Quit"),
        HelpLine::Blank,
        HelpLine::Heading(text("  Modes")),
        separator(),
        help_row("  :", "Command mode"),
        help_row("  /", "Search mode"),
        help_row("  ?", "Help (this overlay)"),
        HelpLine::Blank,
        HelpLine::Heading(text("  Commands")),
        separator(),
        help_row("  :kill <pid>", "Kill a process"),
        help_row("  :sort <col>", "Sort by column"),
        help_row("  :q", "Quit"),
    ];
    assert(help_lines_view(v@) =~= help_text());
    v
}

} // verus!
