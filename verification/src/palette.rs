//! The colour palette, runtime themes and `#RRGGBB` colour parsing.
use vstd::prelude::*;
use vstd::utf8::*;

use crate::script::strings::{chars_of, push_decimal, push_str, spec_decimal, string_from_range};
use crate::tui::diagnostics::{at_boundary, chars_within, prefix_within};
use crate::script::utf8_len::{byte_offset, char_width, lemma_byte_offset_step};

verus! {

/// A 24-bit colour.
#[derive(Debug, Clone, Copy, PartialEq, Eq, Structural)]
pub struct Rgb {
    pub r: u8,
    pub g: u8,
    pub b: u8,
}

/// A terminal colour: the terminal's default, its gray, or a 24-bit colour.
#[derive(Debug, Clone, Copy, PartialEq, Eq, Structural)]
pub enum Color {
    /// The terminal's default colour.
    Reset,
    /// The terminal's gray.
    Gray,
    /// A 24-bit colour.
    Rgb(u8, u8, u8),
}

impl Rgb {
    /// The same colour as a terminal [`Color`].
    pub fn to_color(self) -> (c: Color)
        ensures
            c == Color::Rgb(self.r, self.g, self.b),
    {
        Color::Rgb(self.r, self.g, self.b)
    }
}

/// Central colour palette: deep-space background with neon accents that
/// map to system health levels.
pub struct Palette;

impl Palette {
    /// Deep Space background, `#050A0E`.
    pub fn bg() -> (c: Rgb)
        ensures
            c == (Rgb { r: 5, g: 10, b: 14 }),
    {
        Rgb { r: 5, g: 10, b: 14 }
    }
    /// Electric Cyan for healthy / nominal state, `#00F0FF`.
    pub fn healthy() -> (c: Rgb)
        ensures
            c == (Rgb { r: 0, g: 240, b: 255 }),
    {
        Rgb { r: 0, g: 240, b: 255 }
    }
    /// Neon Blue for moderate load, `#0080FF`.
    pub fn neon_blue() -> (c: Rgb)
        ensures
            c == (Rgb { r: 0, g: 128, b: 255 }),
    {
        Rgb { r: 0, g: 128, b: 255 }
    }
    /// Neon Yellow for warning state, `#FCEE09`.
    pub fn warning() -> (c: Rgb)
        ensures
            c == (Rgb { r: 252, g: 238, b: 9 }),
    {
        Rgb { r: 252, g: 238, b: 9 }
    }
    /// Cherry Red for critical state, `#FF003C`.
    pub fn critical() -> (c: Rgb)
        ensures
            c == (Rgb { r: 255, g: 0, b: 60 }),
    {
        Rgb { r: 255, g: 0, b: 60 }
    }
    /// Pure White for data text, `#FAFAFA`.
    pub fn data() -> (c: Rgb)
        ensures
            c == (Rgb { r: 250, g: 250, b: 250 }),
    {
        Rgb { r: 250, g: 250, b: 250 }
    }
    /// Neon Purple for XP accents, `#BF00FF`.
    pub fn xp_purple() -> (c: Rgb)
        ensures
            c == (Rgb { r: 191, g: 0, b: 255 }),
    {
        Rgb { r: 191, g: 0, b: 255 }
    }
}

/// Errors produced by the render side.
#[derive(Debug)]
pub enum RenderError {
    /// Terminal I/O failure.
    Io(std::io::Error),
    /// Theme file parsing or validation error.
    Theme(String),
}

/// A theme: the palette's roles with colours chosen at run time.
#[derive(Debug, Clone, Copy, PartialEq, Eq, Structural)]
pub struct Theme {
    pub bg: Rgb,
    pub healthy: Rgb,
    pub neon_blue: Rgb,
    pub warning: Rgb,
    pub critical: Rgb,
    pub data: Rgb,
    pub xp_purple: Rgb,
}

/// The built-in theme, matching the palette.
pub open spec fn default_theme() -> Theme {
    Theme {
        bg: Rgb { r: 5, g: 10, b: 14 },
        healthy: Rgb { r: 0, g: 240, b: 255 },
        neon_blue: Rgb { r: 0, g: 128, b: 255 },
        warning: Rgb { r: 252, g: 238, b: 9 },
        critical: Rgb { r: 255, g: 0, b: 60 },
        data: Rgb { r: 250, g: 250, b: 250 },
        xp_purple: Rgb { r: 191, g: 0, b: 255 },
    }
}

impl Default for Theme {
    /// The built-in cyberpunk theme, matching [`Palette`].
    fn default() -> (t: Self)
        ensures
            t == default_theme(),
    {
        Theme {
            bg: Palette::bg(),
            healthy: Palette::healthy(),
            neon_blue: Palette::neon_blue(),
            warning: Palette::warning(),
            critical: Palette::critical(),
            data: Palette::data(),
            xp_purple: Palette::xp_purple(),
        }
    }
}

/// The colour strings of a theme file, one per role.
#[derive(Debug)]
pub struct ThemeColors {
    pub bg: String,
    pub healthy: String,
    pub neon_blue: String,
    pub warning: String,
    pub critical: String,
    pub data: String,
    pub xp_purple: String,
}

/// The value of a hexadecimal digit.
pub open spec fn hex_digit(c: char) -> Option<nat> {
    if '0' <= c && c <= '9' {
        Some((c as nat - '0' as nat) as nat)
    } else if 'a' <= c && c <= 'f' {
        Some((c as nat - 'a' as nat + 10) as nat)
    } else if 'A' <= c && c <= 'F' {
        Some((c as nat - 'A' as nat + 10) as nat)
    } else {
        None
    }
}

/// The value of hexadecimal digits, if all of them are.
pub open spec fn hex_digits_value(d: Seq<char>) -> Option<nat>
    decreases d.len(),
{
    if d.len() == 0 {
        Some(0)
    } else {
        match (hex_digits_value(d.drop_last()), hex_digit(d.last())) {
            (Some(a), Some(b)) => Some(a * 16 + b),
            _ => None,
        }
    }
}

/// The byte that `u8::from_str_radix(s, 16)` reads from `s`: an optional
/// `+`, then one or more hexadecimal digits, with a value below 256.
pub open spec fn hex_byte(s: Seq<char>) -> Option<u8> {
    let d = if s.len() > 0 && s[0] == '+' { s.drop_first() } else { s };
    if d.len() == 0 {
        None
    } else {
        match hex_digits_value(d) {
            Some(v) => if v <= 255 { Some(v as u8) } else { None },
            None => None,
        }
    }
}

/// `s` without a leading `#`.
pub open spec fn strip_hash(s: Seq<char>) -> Seq<char> {
    if s.len() > 0 && s[0] == '#' { s.drop_first() } else { s }
}

/// The characters of `s` whose encoding lies between bytes `a` and `b`.
pub open spec fn byte_slice(s: Seq<char>, a: int, b: int) -> Seq<char> {
    s.subrange(chars_within(s, 0, 0, a), chars_within(s, 0, 0, b))
}

/// The message for a colour whose text after `#` is not six bytes long.
pub open spec fn length_message(n: nat) -> Seq<char> {
    "invalid hex color length: expected 6 chars, got "@ + spec_decimal(n)
}

/// The message for a component that is not a hexadecimal byte.
pub open spec fn component_message(name: Seq<char>) -> Seq<char> {
    "bad "@ + name + " component: invalid digit found in string"@
}

/// What parsing `#RRGGBB` (the `#` optional) gives: the colour, or the
/// message of the first problem.
pub open spec fn hex_color(s: Seq<char>) -> Result<Rgb, Seq<char>> {
    let h = strip_hash(s);
    let n = encode_utf8(h).len();
    if n != 6 {
        Err(length_message(n))
    } else {
        match hex_byte(byte_slice(h, 0, 2)) {
            None => Err(component_message("red"@)),
            Some(r) => match hex_byte(byte_slice(h, 2, 4)) {
                None => Err(component_message("green"@)),
                Some(g) => match hex_byte(byte_slice(h, 4, 6)) {
                    None => Err(component_message("blue"@)),
                    Some(b) => Ok(Rgb { r, g, b }),
                },
            },
        }
    }
}

/// Slicing `#RRGGBB` at bytes 2 and 4 cuts no character.
pub open spec fn hex_color_sliceable(s: Seq<char>) -> bool {
    let h = strip_hash(s);
    encode_utf8(h).len() == 6 ==> at_boundary(h, 2) && at_boundary(h, 4)
}

/// `r` is what parsing gives by `o`.
pub open spec fn color_result(o: Result<Rgb, Seq<char>>, r: Result<Rgb, RenderError>) -> bool {
    match o {
        Ok(c) => r == Ok::<Rgb, RenderError>(c),
        Err(m) => r matches Err(RenderError::Theme(x)) && x@ == m,
    }
}

proof fn lemma_chars_within_mono(s: Seq<char>, i: int, b: int, n: int, m: int)
    requires
        n <= m,
        0 <= i,
    ensures
        i <= chars_within(s, i, b, n) <= chars_within(s, i, b, m),
        chars_within(s, i, b, m) <= (if i <= s.len() { s.len() as int } else { i }),
    decreases s.len() - i,
{
    if i < s.len() {
        lemma_chars_within_mono(s, i + 1, b + crate::script::utf8_len::char_width(s[i]), n, m);
    }
}

/// Reads a hexadecimal byte as `u8::from_str_radix(_, 16)` does.
fn parse_hex_byte(c: &Vec<char>) -> (r: Option<u8>)
    ensures
        r == hex_byte(c@),
{
    let start: usize = if c.len() > 0 && c[0] == '+' { 1 } else { 0 };
    let ghost d = if c@.len() > 0 && c@[0] == '+' { c@.drop_first() } else { c@ };
    assert(d =~= c@.subrange(start as int, c@.len() as int));
    if start >= c.len() {
        return None;
    }
    let mut v: u32 = 0;
    let mut i: usize = start;
    while i < c.len()
        invariant
            start <= i <= c.len(),
            d == c@.subrange(start as int, c@.len() as int),
            d == (if c@.len() > 0 && c@[0] == '+' { c@.drop_first() } else { c@ }),
            d.len() > 0,
            hex_digits_value(d.take(i - start)) == Some(v as nat),
            v <= 255,
        decreases c.len() - i,
    {
        let ch = c[i];
        let dv: u32 = if '0' <= ch && ch <= '9' {
            ch as u32 - '0' as u32
        } else if 'a' <= ch && ch <= 'f' {
            ch as u32 - 'a' as u32 + 10
        } else if 'A' <= ch && ch <= 'F' {
            ch as u32 - 'A' as u32 + 10
        } else {
            proof {
                assert(d.take(i - start + 1).drop_last() =~= d.take(i - start));
                lemma_hex_none_extends(d, i - start + 1);
            }
            return None;
        };
        assert(d.take(i - start + 1).drop_last() =~= d.take(i - start));
        if v * 16 + dv > 255 {
            proof {
                lemma_hex_grows(d, i - start + 1);
            }
            return None;
        }
        v = v * 16 + dv;
        i = i + 1;
    }
    assert(d.take(d.len() as int) =~= d);
    Some(v as u8)
}

/// A prefix that is not all hexadecimal digits makes the whole not so.
proof fn lemma_hex_none_extends(d: Seq<char>, n: int)
    requires
        0 <= n <= d.len(),
        hex_digits_value(d.take(n)) is None,
    ensures
        hex_digits_value(d) is None,
    decreases d.len() - n,
{
    if n < d.len() {
        assert(d.take(n + 1).drop_last() =~= d.take(n));
        lemma_hex_none_extends(d, n + 1);
    } else {
        assert(d.take(n) =~= d);
    }
}

/// Hexadecimal values only grow as digits are added.
proof fn lemma_hex_grows(d: Seq<char>, n: int)
    requires
        0 <= n <= d.len(),
    ensures
        hex_digits_value(d.take(n)) matches Some(a) ==> (hex_digits_value(d) matches Some(b) ==> a <= b),
    decreases d.len() - n,
{
    if n < d.len() {
        assert(d.take(n + 1).drop_last() =~= d.take(n));
        lemma_hex_grows(d, n + 1);
        if hex_digits_value(d.take(n + 1)) is None {
            lemma_hex_none_extends(d, n + 1);
        }
    } else {
        assert(d.take(n) =~= d);
    }
}

/// Parses a `#RRGGBB` colour; the `#` is optional.
pub fn parse_hex_color(hex: &str) -> (r: Result<Rgb, RenderError>)
    requires
        hex_color_sliceable(hex@),
        encode_utf8(hex@).len() <= usize::MAX,
    ensures
        color_result(hex_color(hex@), r),
{
    let all = chars_of(hex);
    let start: usize = if all.len() > 0 && all[0] == '#' { 1 } else { 0 };
    let chars = if start == 1 {
        let h = string_from_range(&all, 1, all.len());
        chars_of(h.as_str())
    } else {
        all
    };
    let ghost h = strip_hash(hex@);
    assert(chars@ =~= h);
    let mut bytes: usize = 0;
    let mut i: usize = 0;
    while i < chars.len()
        invariant
            chars@ == h,
            i <= chars.len(),
            bytes == crate::script::utf8_len::byte_offset(h, i as int),
            encode_utf8(h).len() <= usize::MAX,
        decreases chars.len() - i,
    {
        proof {
            crate::script::utf8_len::lemma_byte_offset_step(h, i as int);
            crate::script::utf8_len::lemma_byte_offset_bound(h, i as int + 1);
        }
        bytes = bytes + crate::script::utf8_len::char_utf8_width(chars[i]);
        i = i + 1;
    }
    assert(h.subrange(0, h.len() as int) =~= h);
    if bytes != 6 {
        let mut m = String::new();
        push_str(&mut m, "invalid hex color length: expected 6 chars, got ");
        push_decimal(&mut m, bytes as u64);
        return Err(RenderError::Theme(m));
    }
    let p2 = chars_of(prefix_within(&chars, 2).as_str());
    let p4 = chars_of(prefix_within(&chars, 4).as_str());
    let p6 = chars_of(prefix_within(&chars, 6).as_str());
    proof {
        lemma_chars_within_mono(h, 0, 0, 2, 4);
        lemma_chars_within_mono(h, 0, 0, 4, 6);
        lemma_chars_within_mono(h, 0, 0, 6, 6);
    }
    let red = string_from_range(&chars, 0, p2.len());
    let green = string_from_range(&chars, p2.len(), p4.len());
    let blue = string_from_range(&chars, p4.len(), p6.len());
    let r = match parse_hex_byte(&chars_of(red.as_str())) {
        Some(v) => v,
        None => return Err(RenderError::Theme(component_error("red"))),
    };
    let g = match parse_hex_byte(&chars_of(green.as_str())) {
        Some(v) => v,
        None => return Err(RenderError::Theme(component_error("green"))),
    };
    let b = match parse_hex_byte(&chars_of(blue.as_str())) {
        Some(v) => v,
        None => return Err(RenderError::Theme(component_error("blue"))),
    };
    Ok(Rgb { r, g, b })
}

fn component_error(name: &str) -> (m: String)
    ensures
        m@ == component_message(name@),
{
    let mut m = String::new();
    push_str(&mut m, "bad ");
    push_str(&mut m, name);
    push_str(&mut m, " component: invalid digit found in string");
    m
}

/// The theme that a theme file's colours give: the first colour (in the
/// order bg, healthy, neon_blue, warning, critical, data, xp_purple) that
/// does not parse gives the error.
pub open spec fn theme_of(c: Seq<Seq<char>>) -> Result<Theme, Seq<char>>
    recommends
        c.len() == 7,
{
    match (hex_color(c[0]), hex_color(c[1]), hex_color(c[2]), hex_color(c[3]), hex_color(c[4]), hex_color(c[5]), hex_color(c[6])) {
        (Ok(bg), Ok(healthy), Ok(neon_blue), Ok(warning), Ok(critical), Ok(data), Ok(xp_purple)) => Ok(
            Theme { bg, healthy, neon_blue, warning, critical, data, xp_purple },
        ),
        (Err(m), _, _, _, _, _, _) => Err(m),
        (_, Err(m), _, _, _, _, _) => Err(m),
        (_, _, Err(m), _, _, _, _) => Err(m),
        (_, _, _, Err(m), _, _, _) => Err(m),
        (_, _, _, _, Err(m), _, _) => Err(m),
        (_, _, _, _, _, Err(m), _) => Err(m),
        (_, _, _, _, _, _, Err(m)) => Err(m),
    }
}

impl ThemeColors {
    /// The colour strings in role order.
    pub open spec fn spec_colors(&self) -> Seq<Seq<char>> {
        seq![self.bg@, self.healthy@, self.neon_blue@, self.warning@, self.critical@, self.data@, self.xp_purple@]
    }

    /// Every colour string can be sliced where parsing cuts it.
    pub open spec fn sliceable(&self) -> bool {
        forall|i: int| 0 <= i < 7 ==> {
            &&& hex_color_sliceable(#[trigger] self.spec_colors()[i])
            &&& encode_utf8(self.spec_colors()[i]).len() <= usize::MAX
        }
    }
}

/// The theme that a theme file's colours give.
pub fn theme_from_colors(c: &ThemeColors) -> (r: Result<Theme, RenderError>)
    requires
        c.sliceable(),
    ensures
        match theme_of(c.spec_colors()) {
            Ok(t) => r == Ok::<Theme, RenderError>(t),
            Err(m) => r matches Err(RenderError::Theme(x)) && x@ == m,
        },
{
    let ghost v = c.spec_colors();
    assert(hex_color_sliceable(v[0]) && hex_color_sliceable(v[1]) && hex_color_sliceable(v[2])
        && hex_color_sliceable(v[3]) && hex_color_sliceable(v[4]) && hex_color_sliceable(v[5])
        && hex_color_sliceable(v[6]));
    let bg = match parse_hex_color(c.bg.as_str()) {
        Ok(x) => x,
        Err(e) => return Err(e),
    };
    let healthy = match parse_hex_color(c.healthy.as_str()) {
        Ok(x) => x,
        Err(e) => return Err(e),
    };
    let neon_blue = match parse_hex_color(c.neon_blue.as_str()) {
        Ok(x) => x,
        Err(e) => return Err(e),
    };
    let warning = match parse_hex_color(c.warning.as_str()) {
        Ok(x) => x,
        Err(e) => return Err(e),
    };
    let critical = match parse_hex_color(c.critical.as_str()) {
        Ok(x) => x,
        Err(e) => return Err(e),
    };
    let data = match parse_hex_color(c.data.as_str()) {
        Ok(x) => x,
        Err(e) => return Err(e),
    };
    let xp_purple = match parse_hex_color(c.xp_purple.as_str()) {
        Ok(x) => x,
        Err(e) => return Err(e),
    };
    Ok(Theme { bg, healthy, neon_blue, warning, critical, data, xp_purple })
}

// ── Reading back written colours ───────────────────────────────────

/// The hexadecimal digits in lower case, by value.
pub open spec fn lower_hex_digits() -> Seq<char> {
    seq!['0', '1', '2', '3', '4', '5', '6', '7', '8', '9', 'a', 'b', 'c', 'd', 'e', 'f']
}

/// The hexadecimal digits in upper case, by value.
pub open spec fn upper_hex_digits() -> Seq<char> {
    seq!['0', '1', '2', '3', '4', '5', '6', '7', '8', '9', 'A', 'B', 'C', 'D', 'E', 'F']
}

/// A byte written as two hexadecimal digits, in upper or lower case.
pub open spec fn hex_pair(v: u8, upper: bool) -> Seq<char> {
    let d = if upper { upper_hex_digits() } else { lower_hex_digits() };
    seq![d[(v / 16) as int], d[(v % 16) as int]]
}

/// A colour written as `#RRGGBB`, in upper or lower case.
pub open spec fn hex_text(c: Rgb, upper: bool) -> Seq<char> {
    seq!['#'] + hex_pair(c.r, upper) + hex_pair(c.g, upper) + hex_pair(c.b, upper)
}

/// Every hexadecimal digit, lower or upper case, reads as its value: a
/// lower-case letter reads like its upper-case form.
pub proof fn lemma_hex_digits_read_back(k: int)
    requires
        0 <= k < 16,
    ensures
        hex_digit(lower_hex_digits()[k]) == Some(k as nat),
        hex_digit(upper_hex_digits()[k]) == Some(k as nat),
        hex_digit(lower_hex_digits()[k]) == hex_digit(upper_hex_digits()[k]),
{
    if k == 0 {} else if k == 1 {} else if k == 2 {} else if k == 3 {} else if k == 4 {}
    else if k == 5 {} else if k == 6 {} else if k == 7 {} else if k == 8 {} else if k == 9 {}
    else if k == 10 {} else if k == 11 {} else if k == 12 {} else if k == 13 {} else if k == 14 {}
    else {}
}

/// Every byte written as two hexadecimal digits, in either case, reads
/// back as itself.
pub proof fn lemma_hex_byte_round_trip(v: u8, upper: bool)
    ensures
        hex_byte(hex_pair(v, upper)) == Some(v),
{
    let p = hex_pair(v, upper);
    lemma_hex_digits_read_back((v / 16) as int);
    lemma_hex_digits_read_back((v % 16) as int);
    let hi = (v / 16) as nat;
    let lo = (v % 16) as nat;
    assert(hex_digit(p[0]) == Some(hi));
    assert(hex_digit(p[1]) == Some(lo));
    assert(p.drop_last().drop_last() =~= Seq::<char>::empty());
    assert(hex_digits_value(p.drop_last().drop_last()) == Some(0nat));
    assert(p.drop_last().last() == p[0]);
    assert(hex_digits_value(p.drop_last()) == Some(hi));
    assert(hex_digits_value(p) == Some(hi * 16 + lo));
    assert(p[0] != '+');
    assert(hi * 16 + lo == v as nat);
}

/// Characters below U+0080 take one byte each.
pub open spec fn is_ascii_text(s: Seq<char>) -> bool {
    forall|k: int| 0 <= k < s.len() ==> (#[trigger] s[k] as u32) < 0x80
}

proof fn lemma_ascii_offsets(s: Seq<char>, i: int)
    requires
        is_ascii_text(s),
        0 <= i <= s.len(),
    ensures
        byte_offset(s, i) == i,
    decreases i,
{
    if i == 0 {
        assert(s.subrange(0, 0) =~= Seq::<char>::empty());
        assert(encode_utf8(Seq::<char>::empty()) =~= Seq::<u8>::empty());
    } else {
        lemma_ascii_offsets(s, i - 1);
        lemma_byte_offset_step(s, i - 1);
        assert((s[i - 1] as u32) < 0x80);
    }
}

proof fn lemma_ascii_chars_within(s: Seq<char>, i: int, n: int)
    requires
        is_ascii_text(s),
        0 <= i <= n <= s.len(),
    ensures
        chars_within(s, i, i, n) == n,
    decreases n - i,
{
    if i < n {
        assert((s[i] as u32) < 0x80);
        assert(char_width(s[i]) == 1);
        lemma_ascii_chars_within(s, i + 1, n);
    }
}

/// A colour written as `#RRGGBB`, in either case, reads back as itself,
/// and the text meets what [`parse_hex_color`] asks of its input.
pub proof fn lemma_hex_color_round_trip(c: Rgb, upper: bool)
    ensures
        hex_color(hex_text(c, upper)) == Ok::<Rgb, Seq<char>>(c),
        hex_color_sliceable(hex_text(c, upper)),
{
    let t = hex_text(c, upper);
    let h = hex_pair(c.r, upper) + hex_pair(c.g, upper) + hex_pair(c.b, upper);
    assert(t.drop_first() =~= h);
    assert(strip_hash(t) == h);
    lemma_hex_digits_read_back((c.r / 16) as int);
    lemma_hex_digits_read_back((c.r % 16) as int);
    lemma_hex_digits_read_back((c.g / 16) as int);
    lemma_hex_digits_read_back((c.g % 16) as int);
    lemma_hex_digits_read_back((c.b / 16) as int);
    lemma_hex_digits_read_back((c.b % 16) as int);
    assert forall|k: int| 0 <= k < h.len() implies (#[trigger] h[k] as u32) < 0x80 by {
        let d = if upper { upper_hex_digits() } else { lower_hex_digits() };
        assert(forall|j: int| 0 <= j < 16 ==> (#[trigger] d[j] as u32) < 0x80);
    }
    lemma_ascii_offsets(h, 6);
    assert(h.subrange(0, 6) =~= h);
    lemma_ascii_chars_within(h, 0, 2);
    lemma_ascii_chars_within(h, 0, 4);
    lemma_ascii_chars_within(h, 0, 6);
    lemma_ascii_offsets(h, 2);
    lemma_ascii_offsets(h, 4);
    assert(byte_slice(h, 0, 2) =~= hex_pair(c.r, upper));
    assert(byte_slice(h, 2, 4) =~= hex_pair(c.g, upper));
    assert(byte_slice(h, 4, 6) =~= hex_pair(c.b, upper));
    lemma_hex_byte_round_trip(c.r, upper);
    lemma_hex_byte_round_trip(c.g, upper);
    lemma_hex_byte_round_trip(c.b, upper);
    assert(at_boundary(h, 2));
    assert(at_boundary(h, 4));
}

} // verus!
