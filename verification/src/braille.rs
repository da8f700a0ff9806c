//! Braille canvas: a pixel grid drawn with Unicode Braille characters
//! (U+2800..U+28FF), each terminal cell holding 2 × 4 dots, which gives twice
//! the horizontal and four times the vertical resolution of plain text.
use vstd::prelude::*;

use crate::palette::Color;

verus! {

/// Code point of the blank Braille pattern (no dot raised).
pub const BRAILLE_BASE: u32 = 0x2800;

/// Bit of the dot at column `dx` (0..2) and row `dy` (0..4) of a cell, in the
/// standard Braille dot numbering:
///
/// ```text
/// (0,0)=0x01  (1,0)=0x08
/// (0,1)=0x02  (1,1)=0x10
/// (0,2)=0x04  (1,2)=0x20
/// (0,3)=0x40  (1,3)=0x80
/// ```
pub open spec fn dot_bit(dx: usize, dy: usize) -> u8 {
    if dx == 0 {
        if dy == 0 {
            0x01
        } else if dy == 1 {
            0x02
        } else if dy == 2 {
            0x04
        } else {
            0x40
        }
    } else {
        if dy == 0 {
            0x08
        } else if dy == 1 {
            0x10
        } else if dy == 2 {
            0x20
        } else {
            0x80
        }
    }
}

fn dot_mask(dx: usize, dy: usize) -> (b: u8)
    ensures
        b == dot_bit(dx, dy),
{
    if dx == 0 {
        if dy == 0 {
            0x01
        } else if dy == 1 {
            0x02
        } else if dy == 2 {
            0x04
        } else {
            0x40
        }
    } else {
        if dy == 0 {
            0x08
        } else if dy == 1 {
            0x10
        } else if dy == 2 {
            0x20
        } else {
            0x80
        }
    }
}

/// Index, in a canvas `width` cells wide, of the cell holding pixel `(x, y)`.
pub open spec fn cell_of(width: nat, x: int, y: int) -> int {
    (y / 4) * width + x / 2
}

/// View of a [`BrailleCanvas`]: its size in cells, and per cell (row by row)
/// the bitmask of raised dots and the color last written.
pub struct SpecCanvas {
    pub cell_width: nat,
    pub cell_height: nat,
    pub dots: Seq<u8>,
    pub colors: Seq<Color>,
}

impl SpecCanvas {
    /// One mask and one color per cell, and pixel sizes that fit in `usize`.
    pub open spec fn wf(self) -> bool {
        &&& self.dots.len() == self.cell_width * self.cell_height
        &&& self.colors.len() == self.cell_width * self.cell_height
        &&& self.cell_width * self.cell_height <= usize::MAX
        &&& self.cell_width * 2 <= usize::MAX
        &&& self.cell_height * 4 <= usize::MAX
    }

    /// Whether pixel `(x, y)` lies on the canvas.
    pub open spec fn in_bounds(self, x: int, y: int) -> bool {
        0 <= x < self.cell_width * 2 && 0 <= y < self.cell_height * 4
    }

    /// Whether the dot of pixel `(x, y)` is raised.
    pub open spec fn pixel_on(self, x: usize, y: usize) -> bool {
        self.dots[cell_of(self.cell_width, x as int, y as int)] & dot_bit(x % 2, y % 4) != 0
    }

    /// The canvas after raising the dot of pixel `(x, y)`; off the canvas,
    /// nothing changes.
    pub open spec fn with_dot(self, x: usize, y: usize) -> SpecCanvas {
        if self.in_bounds(x as int, y as int) {
            let i = cell_of(self.cell_width, x as int, y as int);
            SpecCanvas { dots: self.dots.update(i, self.dots[i] | dot_bit(x % 2, y % 4)), ..self }
        } else {
            self
        }
    }

    /// The canvas after raising the dot of pixel `(x, y)` and giving its cell
    /// `color`; off the canvas, nothing changes.
    pub open spec fn with_colored_dot(self, x: usize, y: usize, color: Color) -> SpecCanvas {
        if self.in_bounds(x as int, y as int) {
            let i = cell_of(self.cell_width, x as int, y as int);
            SpecCanvas {
                dots: self.dots.update(i, self.dots[i] | dot_bit(x % 2, y % 4)),
                colors: self.colors.update(i, color),
                ..self
            }
        } else {
            self
        }
    }

    /// The canvas after lowering the dot of pixel `(x, y)`; off the canvas,
    /// nothing changes.
    pub open spec fn without_dot(self, x: usize, y: usize) -> SpecCanvas {
        if self.in_bounds(x as int, y as int) {
            let i = cell_of(self.cell_width, x as int, y as int);
            SpecCanvas { dots: self.dots.update(i, self.dots[i] & !dot_bit(x % 2, y % 4)), ..self }
        } else {
            self
        }
    }

    /// Code point of the Braille character for cell `i`.
    pub open spec fn cell_code(self, i: int) -> int {
        BRAILLE_BASE + self.dots[i]
    }
}

/// A pixel canvas backed by Unicode Braille characters: one dot bitmask and
/// one color per terminal cell.
pub struct BrailleCanvas {
    cell_width: usize,
    cell_height: usize,
    buffer: Vec<u8>,
    color_buffer: Vec<Color>,
}

impl View for BrailleCanvas {
    type V = SpecCanvas;

    closed spec fn view(&self) -> SpecCanvas {
        SpecCanvas {
            cell_width: self.cell_width as nat,
            cell_height: self.cell_height as nat,
            dots: self.buffer@,
            colors: self.color_buffer@,
        }
    }
}

/// `char::from_u32`: the character with code point `code`, or `None` for a
/// surrogate or a value past U+10FFFF.
#[verifier::external_body]
fn char_from_u32(code: u32) -> (r: Option<char>)
    ensures
        r is Some <==> (code < 0xD800 || (0xE000 <= code && code <= 0x10FFFF)),
        r matches Some(c) ==> c as u32 == code,
{
    char::from_u32(code)
}

/// A row-major cell index stays below `width * height`.
proof fn lemma_cell_index_in_range(width: int, height: int, cx: int, cy: int)
    requires
        0 <= cx < width,
        0 <= cy < height,
    ensures
        0 <= cy * width + cx < width * height,
{
    assert(cy * width + cx < width * height) by (nonlinear_arith)
        requires
            0 <= cx < width,
            0 <= cy < height,
    ;
    assert(0 <= cy * width) by (nonlinear_arith)
        requires
            0 <= cy,
            0 <= cx < width,
    ;
}

/// Distinct cells have distinct row-major indices.
proof fn lemma_cell_index_unique(width: int, cx: int, cy: int, cx2: int, cy2: int)
    requires
        0 <= cx < width,
        0 <= cx2 < width,
        0 <= cy,
        0 <= cy2,
        cy * width + cx == cy2 * width + cx2,
    ensures
        cx == cx2,
        cy == cy2,
{
    if cy < cy2 {
        assert(cy * width + width <= cy2 * width) by (nonlinear_arith)
            requires
                cy < cy2,
                0 <= cx < width,
        ;
    } else if cy2 < cy {
        assert(cy2 * width + width <= cy * width) by (nonlinear_arith)
            requires
                cy2 < cy,
                0 <= cx < width,
        ;
    }
}

/// The eight dot bits are non-zero and pairwise disjoint.
proof fn lemma_dot_bits(dx: usize, dy: usize, dx2: usize, dy2: usize)
    by (bit_vector)
    requires
        dx < 2,
        dy < 4,
        dx2 < 2,
        dy2 < 4,
    ensures
        dot_bit(dx, dy) != 0,
        (dx != dx2 || dy != dy2) ==> dot_bit(dx, dy) & dot_bit(dx2, dy2) == 0,
{
}

/// Raising or lowering one bit leaves the bits of a disjoint mask alone.
proof fn lemma_disjoint_masks(d: u8, b: u8, b2: u8)
    by (bit_vector)
    requires
        b & b2 == 0,
    ensures
        (d | b) & b2 == d & b2,
        (d & !b) & b2 == d & b2,
{
}

/// A raised mask reads back whole; a lowered one reads back empty.
proof fn lemma_same_mask(d: u8, b: u8)
    by (bit_vector)
    ensures
        (d | b) & b == b,
        (d & !b) & b == 0,
{
}

/// Two pixels in the same cell with the same dot position are the same pixel.
proof fn lemma_pixel_from_cell(x: usize, y: usize, x2: usize, y2: usize)
    requires
        x / 2 == x2 / 2,
        y / 4 == y2 / 4,
        x % 2 == x2 % 2,
        y % 4 == y2 % 4,
    ensures
        x == x2,
        y == y2,
{
}

/// Each pixel of a canvas owns a cell index in range, and distinct pixels own
/// distinct (cell, dot) pairs.
proof fn lemma_pixels_distinct(c: SpecCanvas, x: usize, y: usize, x2: usize, y2: usize)
    requires
        c.wf(),
        c.in_bounds(x as int, y as int),
        c.in_bounds(x2 as int, y2 as int),
    ensures
        0 <= cell_of(c.cell_width, x as int, y as int) < c.dots.len(),
        cell_of(c.cell_width, x as int, y as int) == cell_of(c.cell_width, x2 as int, y2 as int)
            && !(x == x2 && y == y2) ==> dot_bit(x % 2, y % 4) & dot_bit(x2 % 2, y2 % 4) == 0,
        cell_of(c.cell_width, x as int, y as int) == cell_of(c.cell_width, x2 as int, y2 as int)
            <== (x / 2 == x2 / 2 && y / 4 == y2 / 4),
        dot_bit(x % 2, y % 4) != 0,
{
    let w = c.cell_width as int;
    lemma_cell_index_in_range(w, c.cell_height as int, (x / 2) as int, (y / 4) as int);
    lemma_dot_bits(x % 2, y % 4, x2 % 2, y2 % 4);
    if cell_of(c.cell_width, x as int, y as int) == cell_of(c.cell_width, x2 as int, y2 as int) {
        lemma_cell_index_unique(w, (x / 2) as int, (y / 4) as int, (x2 / 2) as int, (y2 / 4) as int);
        if x % 2 == x2 % 2 && y % 4 == y2 % 4 {
            lemma_pixel_from_cell(x, y, x2, y2);
        }
    }
}

/// Raising the dot of a pixel raises that dot and no other: afterwards a
/// pixel is on exactly when it is the one drawn or was on before.
pub proof fn lemma_set_pixel_raises_one_dot(c: SpecCanvas, x: usize, y: usize, x2: usize, y2: usize)
    requires
        c.wf(),
        c.in_bounds(x as int, y as int),
        c.in_bounds(x2 as int, y2 as int),
    ensures
        c.with_dot(x, y).wf(),
        c.with_dot(x, y).pixel_on(x2, y2) == ((x2 == x && y2 == y) || c.pixel_on(x2, y2)),
{
    lemma_pixels_distinct(c, x, y, x2, y2);
    lemma_pixels_distinct(c, x2, y2, x, y);
    let i = cell_of(c.cell_width, x as int, y as int);
    let d = c.dots[i];
    let b = dot_bit(x % 2, y % 4);
    if cell_of(c.cell_width, x2 as int, y2 as int) == i {
        if x2 == x && y2 == y {
            lemma_same_mask(d, b);
        } else {
            lemma_disjoint_masks(d, b, dot_bit(x2 % 2, y2 % 4));
        }
    }
}

/// Lowering the dot of a pixel lowers that dot and no other: afterwards a
/// pixel is on exactly when it is not the one cleared and was on before.
pub proof fn lemma_clear_pixel_lowers_one_dot(c: SpecCanvas, x: usize, y: usize, x2: usize, y2: usize)
    requires
        c.wf(),
        c.in_bounds(x as int, y as int),
        c.in_bounds(x2 as int, y2 as int),
    ensures
        c.without_dot(x, y).wf(),
        c.without_dot(x, y).pixel_on(x2, y2) == (!(x2 == x && y2 == y) && c.pixel_on(x2, y2)),
{
    lemma_pixels_distinct(c, x, y, x2, y2);
    lemma_pixels_distinct(c, x2, y2, x, y);
    let i = cell_of(c.cell_width, x as int, y as int);
    let d = c.dots[i];
    let b = dot_bit(x % 2, y % 4);
    if cell_of(c.cell_width, x2 as int, y2 as int) == i {
        if x2 == x && y2 == y {
            lemma_same_mask(d, b);
        } else {
            lemma_disjoint_masks(d, b, dot_bit(x2 % 2, y2 % 4));
        }
    }
}

impl BrailleCanvas {
    /// A blank canvas of `cell_width` × `cell_height` terminal cells.
    pub fn new(cell_width: usize, cell_height: usize) -> (s: Self)
        requires
            cell_width * cell_height <= usize::MAX,
            cell_width * 2 <= usize::MAX,
            cell_height * 4 <= usize::MAX,
        ensures
            s@.wf(),
            s@.cell_width == cell_width,
            s@.cell_height == cell_height,
            s@.dots == Seq::new(s@.dots.len(), |i: int| 0u8),
            s@.colors == Seq::new(s@.colors.len(), |i: int| Color::Reset),
    {
        let len = cell_width * cell_height;
        let mut buffer: Vec<u8> = Vec::new();
        let mut color_buffer: Vec<Color> = Vec::new();
        let mut i: usize = 0;
        while i < len
            invariant
                i <= len,
                buffer@ == Seq::new(i as nat, |k: int| 0u8),
                color_buffer@ == Seq::new(i as nat, |k: int| Color::Reset),
            decreases len - i,
        {
            buffer.push(0);
            color_buffer.push(Color::Reset);
            i = i + 1;
        }
        BrailleCanvas { cell_width, cell_height, buffer, color_buffer }
    }

    /// Width in terminal cells.
    pub fn cell_width(&self) -> (r: usize)
        ensures
            r == self@.cell_width,
    {
        self.cell_width
    }

    /// Height in terminal cells.
    pub fn cell_height(&self) -> (r: usize)
        ensures
            r == self@.cell_height,
    {
        self.cell_height
    }

    /// Width in pixels: two per terminal column.
    pub fn pixel_width(&self) -> (r: usize)
        requires
            self@.wf(),
        ensures
            r == self@.cell_width * 2,
    {
        self.cell_width * 2
    }

    /// Height in pixels: four per terminal row.
    pub fn pixel_height(&self) -> (r: usize)
        requires
            self@.wf(),
        ensures
            r == self@.cell_height * 4,
    {
        self.cell_height * 4
    }

    /// The buffer index and dot bit of pixel `(x, y)`, or `None` off the canvas.
    fn pixel_to_cell(&self, x: usize, y: usize) -> (r: Option<(usize, u8)>)
        requires
            self@.wf(),
        ensures
            match r {
                Some((i, b)) => {
                    &&& self@.in_bounds(x as int, y as int)
                    &&& i == cell_of(self@.cell_width, x as int, y as int)
                    &&& i < self@.dots.len()
                    &&& b == dot_bit(x % 2, y % 4)
                },
                None => !self@.in_bounds(x as int, y as int),
            },
    {
        if x >= self.pixel_width() || y >= self.pixel_height() {
            return None;
        }
        let cx = x / 2;
        let cy = y / 4;
        proof {
            lemma_cell_index_in_range(self.cell_width as int, self.cell_height as int, cx as int, cy as int);
        }
        Some((cy * self.cell_width + cx, dot_mask(x % 2, y % 4)))
    }

    /// Raises the dot at pixel `(x, y)`; a pixel off the canvas is ignored.
    pub fn set_pixel(&mut self, x: usize, y: usize)
        requires
            old(self)@.wf(),
        ensures
            final(self)@ == old(self)@.with_dot(x, y),
    {
        if let Some((idx, bit)) = self.pixel_to_cell(x, y) {
            let d = self.buffer[idx];
            self.buffer.set(idx, d | bit);
        }
    }

    /// Raises the dot at pixel `(x, y)` and records `color` for its cell; a
    /// pixel off the canvas is ignored.
    pub fn set_pixel_colored(&mut self, x: usize, y: usize, color: Color)
        requires
            old(self)@.wf(),
        ensures
            final(self)@ == old(self)@.with_colored_dot(x, y, color),
    {
        if let Some((idx, bit)) = self.pixel_to_cell(x, y) {
            let d = self.buffer[idx];
            self.buffer.set(idx, d | bit);
            self.color_buffer.set(idx, color);
        }
    }

    /// Lowers the dot at pixel `(x, y)`; a pixel off the canvas is ignored.
    pub fn clear_pixel(&mut self, x: usize, y: usize)
        requires
            old(self)@.wf(),
        ensures
            final(self)@ == old(self)@.without_dot(x, y),
    {
        if let Some((idx, bit)) = self.pixel_to_cell(x, y) {
            let d = self.buffer[idx];
            self.buffer.set(idx, d & !bit);
        }
    }

    /// Blanks every cell and resets its color.
    pub fn clear(&mut self)
        requires
            old(self)@.wf(),
        ensures
            final(self)@.wf(),
            final(self)@.cell_width == old(self)@.cell_width,
            final(self)@.cell_height == old(self)@.cell_height,
            final(self)@.dots == Seq::new(old(self)@.dots.len(), |i: int| 0u8),
            final(self)@.colors == Seq::new(old(self)@.colors.len(), |i: int| Color::Reset),
    {
        let n = self.buffer.len();
        let mut i: usize = 0;
        while i < n
            invariant
                i <= n,
                n == self.buffer.len(),
                n == self.color_buffer.len(),
                self.cell_width == old(self).cell_width,
                self.cell_height == old(self).cell_height,
                forall|k: int| 0 <= k < i ==> self.buffer@[k] == 0u8,
                forall|k: int| 0 <= k < i ==> self.color_buffer@[k] == Color::Reset,
            decreases n - i,
        {
            self.buffer.set(i, 0);
            self.color_buffer.set(i, Color::Reset);
            i = i + 1;
        }
        assert(self.buffer@ =~= Seq::new(n as nat, |i: int| 0u8));
        assert(self.color_buffer@ =~= Seq::new(n as nat, |i: int| Color::Reset));
    }

    /// Dot bitmask of the cell at column `cx`, row `cy`.
    pub fn cell_dots(&self, cx: usize, cy: usize) -> (b: u8)
        requires
            self@.wf(),
            cx < self@.cell_width,
            cy < self@.cell_height,
        ensures
            b == self@.dots[cy * self@.cell_width + cx],
    {
        proof {
            lemma_cell_index_in_range(self.cell_width as int, self.cell_height as int, cx as int, cy as int);
        }
        self.buffer[cy * self.cell_width + cx]
    }

    /// Braille character of the cell at column `cx`, row `cy`: U+2800 plus
    /// its dot bitmask.
    pub fn cell_char(&self, cx: usize, cy: usize) -> (c: char)
        requires
            self@.wf(),
            cx < self@.cell_width,
            cy < self@.cell_height,
        ensures
            c as u32 == self@.cell_code(cy * self@.cell_width + cx),
    {
        let b = self.cell_dots(cx, cy);
        match char_from_u32(BRAILLE_BASE + b as u32) {
            Some(c) => c,
            None => ' ',
        }
    }

    /// Color recorded for the cell at column `cx`, row `cy`.
    pub fn cell_color(&self, cx: usize, cy: usize) -> (color: Color)
        requires
            self@.wf(),
            cx < self@.cell_width,
            cy < self@.cell_height,
        ensures
            color == self@.colors[cy * self@.cell_width + cx],
    {
        proof {
            lemma_cell_index_in_range(self.cell_width as int, self.cell_height as int, cx as int, cy as int);
        }
        self.color_buffer[cy * self.cell_width + cx]
    }

    /// The canvas as lines of Braille text, top to bottom, each with the
    /// colors of its cells.
    pub fn to_lines(&self) -> (lines: Vec<(String, Vec<Color>)>)
        requires
            self@.wf(),
        ensures
            lines.len() == self@.cell_height,
            forall|cy: int|
                #![trigger lines@[cy]]
                0 <= cy < self@.cell_height ==> {
                    &&& lines@[cy].0@.len() == self@.cell_width
                    &&& lines@[cy].1@ == self@.colors.subrange(
                        cy * self@.cell_width,
                        cy * self@.cell_width + self@.cell_width,
                    )
                    &&& forall|cx: int|
                        0 <= cx < self@.cell_width ==> lines@[cy].0@[cx] as u32 == self@.cell_code(
                            cy * self@.cell_width + cx,
                        )
                },
    {
        let w = self.cell_width;
        let h = self.cell_height;
        let ghost v = self@;
        let mut lines: Vec<(String, Vec<Color>)> = Vec::new();
        let mut cy: usize = 0;
        while cy < h
            invariant
                v == self@,
                v.wf(),
                w == v.cell_width,
                h == v.cell_height,
                cy <= h,
                lines.len() == cy,
                forall|r: int|
                    #![trigger lines@[r]]
                    0 <= r < cy ==> {
                        &&& lines@[r].0@.len() == w
                        &&& lines@[r].1@ == v.colors.subrange(r * w, r * w + w)
                        &&& forall|cx: int|
                            0 <= cx < w ==> lines@[r].0@[cx] as u32 == v.cell_code(r * w + cx)
                    },
            decreases h - cy,
        {
            let mut text = String::new();
            let mut colors: Vec<Color> = Vec::new();
            let mut cx: usize = 0;
            proof {
                if w > 0 {
                    lemma_cell_index_in_range(w as int, h as int, 0, cy as int);
                } else {
                    assert(cy * w == 0 && w * h == 0) by (nonlinear_arith)
                        requires
                            w == 0,
                    ;
                }
                assert(0 <= cy * w <= v.colors.len());
                assert(colors@ =~= v.colors.subrange(cy * w, cy * w + 0));
            }
            while cx < w
                invariant
                    v == self@,
                    v.wf(),
                    w == v.cell_width,
                    h == v.cell_height,
                    cy < h,
                    cx <= w,
                    text@.len() == cx,
                    colors@ == v.colors.subrange(cy * w, cy * w + cx),
                    forall|k: int| 0 <= k < cx ==> text@[k] as u32 == v.cell_code(cy * w + k),
                decreases w - cx,
            {
                proof {
                    lemma_cell_index_in_range(w as int, h as int, cx as int, cy as int);
                }
                let c = self.cell_char(cx, cy);
                text.push(c);
                let col = self.cell_color(cx, cy);
                colors.push(col);
                assert(colors@ =~= v.colors.subrange(cy * w, cy * w + cx + 1));
                cx = cx + 1;
            }
            lines.push((text, colors));
            cy = cy + 1;
        }
        lines
    }
}

} // verus!
