//! Compositing the populated cell grid into a pixel image.
//!
//! The canvas size derives from the content: one glyph box beyond the
//! largest cell origin. The whole canvas starts as the primary background;
//! cell background boxes are painted in reverse key order, so where boxes
//! overlap the earliest cell in key order shows. Glyph drawing itself needs
//! font rasterization, so the foreground pass is returned as an ordered
//! list of paint commands, one per cell.

use vstd::prelude::*;

use crate::color::{ColorType, Rgba};
use crate::grid::{Cell, TextGrid};
use crate::palette::{resolve, Palette};
use crate::style::FontStyle;
use crate::vt::{initial_term, spec_feed, Terminal};

verus! {

/// A row-major RGBA pixel buffer.
pub struct Image {
    pub width: u32,
    pub height: u32,
    pub pixels: Vec<Rgba>,
}

impl Image {
    /// The buffer holds exactly one pixel per canvas position.
    pub open spec fn wf(&self) -> bool {
        self.pixels@.len() == self.width as int * self.height as int
    }

    /// The pixel at a canvas position.
    pub open spec fn spec_pixel(&self, x: int, y: int) -> Rgba {
        self.pixels@[y * self.width as int + x]
    }

    /// A canvas filled with one color.
    pub fn new(width: u32, height: u32, fill: Rgba) -> (img: Image)
        requires
            width as int * height as int <= usize::MAX as int,
        ensures
            img.wf(),
            img.width == width,
            img.height == height,
            forall|x: int, y: int|
                0 <= x < width && 0 <= y < height ==> img.spec_pixel(x, y) == fill,
    {
        let count = (width as usize) * (height as usize);
        let mut pixels: Vec<Rgba> = Vec::new();
        let mut i: usize = 0;
        while i < count
            invariant
                i <= count,
                pixels@.len() == i,
                forall|j: int| 0 <= j < i ==> pixels@[j] == fill,
            decreases count - i,
        {
            pixels.push(fill);
            i = i + 1;
        }
        let img = Image { width, height, pixels };
        proof {
            assert forall|x: int, y: int|
                0 <= x < width && 0 <= y < height implies img.spec_pixel(x, y) == fill by {
                lemma_rowmajor_bound(x, y, width as int, height as int);
            }
        }
        img
    }

    /// Sets one pixel; every other pixel keeps its color.
    pub fn put_pixel(&mut self, x: u32, y: u32, c: Rgba)
        requires
            old(self).wf(),
            x < old(self).width,
            y < old(self).height,
        ensures
            final(self).wf(),
            final(self).width == old(self).width,
            final(self).height == old(self).height,
            final(self).spec_pixel(x as int, y as int) == c,
            forall|px: int, py: int|
                0 <= px < old(self).width && 0 <= py < old(self).height && (px != x || py != y)
                    ==> final(self).spec_pixel(px, py) == old(self).spec_pixel(px, py),
    {
        proof {
            lemma_rowmajor_bound(x as int, y as int, self.width as int, self.height as int);
        }
        let len = self.pixels.len();
        let idx = (y as usize) * (self.width as usize) + (x as usize);
        self.pixels[idx] = c;
        proof {
            assert forall|px: int, py: int|
                0 <= px < old(self).width && 0 <= py < old(self).height && (px != x || py != y)
                    implies self.spec_pixel(px, py) == old(self).spec_pixel(px, py) by {
                lemma_rowmajor_bound(px, py, self.width as int, self.height as int);
                if py * self.width as int + px == y as int * self.width as int + x as int {
                    lemma_rowmajor_inj(px, py, x as int, y as int, self.width as int);
                    assert(false);
                }
            }
        }
    }

    /// Fills a rectangle; pixels outside it keep their color.
    pub fn fill_rect(&mut self, x0: u32, y0: u32, w: u32, h: u32, c: Rgba)
        requires
            old(self).wf(),
            x0 + w <= old(self).width,
            y0 + h <= old(self).height,
        ensures
            final(self).wf(),
            final(self).width == old(self).width,
            final(self).height == old(self).height,
            forall|px: int, py: int|
                0 <= px < old(self).width && 0 <= py < old(self).height
                    ==> final(self).spec_pixel(px, py) == (if x0 <= px < x0 + w && y0 <= py < y0
                    + h {
                    c
                } else {
                    old(self).spec_pixel(px, py)
                }),
    {
        let mut y = y0;
        while y < y0 + h
            invariant
                self.wf(),
                self.width == old(self).width,
                self.height == old(self).height,
                x0 + w <= self.width,
                y0 + h <= self.height,
                y0 <= y <= y0 + h,
                forall|px: int, py: int|
                    0 <= px < self.width && 0 <= py < self.height ==> self.spec_pixel(px, py)
                        == (if x0 <= px < x0 + w && y0 <= py < y {
                        c
                    } else {
                        old(self).spec_pixel(px, py)
                    }),
            decreases y0 + h - y,
        {
            let mut x = x0;
            while x < x0 + w
                invariant
                    self.wf(),
                    self.width == old(self).width,
                    self.height == old(self).height,
                    x0 + w <= self.width,
                    y0 + h <= self.height,
                    y0 <= y < y0 + h,
                    x0 <= x <= x0 + w,
                    forall|px: int, py: int|
                        0 <= px < self.width && 0 <= py < self.height ==> self.spec_pixel(px, py)
                            == (if (x0 <= px < x0 + w && y0 <= py < y) || (py == y && x0 <= px
                            < x) {
                            c
                        } else {
                            old(self).spec_pixel(px, py)
                        }),
                decreases x0 + w - x,
            {
                self.put_pixel(x, y, c);
                x = x + 1;
            }
            y = y + 1;
        }
    }
}

/// A pixel index is in range of its row-major buffer.
pub proof fn lemma_rowmajor_bound(x: int, y: int, w: int, h: int)
    by (nonlinear_arith)
    requires
        0 <= x < w,
        0 <= y < h,
    ensures
        0 <= y * w + x < w * h,
{
}

/// Multiplication is monotone in both nonnegative factors.
pub proof fn lemma_mul_le(a: int, b: int, c: int, d: int)
    by (nonlinear_arith)
    requires
        0 <= a <= c,
        0 <= b <= d,
    ensures
        a * b <= c * d,
{
}

/// Row-major indexing is injective.
proof fn lemma_rowmajor_inj(x1: int, y1: int, x2: int, y2: int, w: int)
    by (nonlinear_arith)
    requires
        0 <= x1 < w,
        0 <= x2 < w,
        0 <= y1,
        0 <= y2,
        y1 * w + x1 == y2 * w + x2,
    ensures
        x1 == x2,
        y1 == y2,
{
}

/// A glyph paint command for the foreground pass: where to draw which
/// character, in which face and color, and whether it is underlined.
#[derive(Clone, Copy, Debug, PartialEq, Eq, Structural)]
pub struct GlyphCmd {
    pub x: u32,
    pub y: u32,
    pub character: char,
    pub font: FontStyle,
    pub color: Rgba,
    pub underline: bool,
}

/// The paint command of one cell.
pub open spec fn glyph_cmd_of(p: Palette, e: ((u32, u32), Cell)) -> GlyphCmd {
    GlyphCmd {
        x: e.0.0,
        y: e.0.1,
        character: e.1.character,
        font: e.1.style.font,
        color: resolve(p, e.1.style.foreground),
        underline: e.1.style.underline,
    }
}

/// The largest cell x origin, 0 for an empty grid.
pub open spec fn max_cell_x(cells: Seq<((u32, u32), Cell)>) -> int
    decreases cells.len(),
{
    if cells.len() == 0 {
        0
    } else {
        let m = max_cell_x(cells.drop_last());
        if cells.last().0.0 > m {
            cells.last().0.0 as int
        } else {
            m
        }
    }
}

/// The largest cell y origin, 0 for an empty grid.
pub open spec fn max_cell_y(cells: Seq<((u32, u32), Cell)>) -> int
    decreases cells.len(),
{
    if cells.len() == 0 {
        0
    } else {
        let m = max_cell_y(cells.drop_last());
        if cells.last().0.1 > m {
            cells.last().0.1 as int
        } else {
            m
        }
    }
}

proof fn lemma_max_cell_props(cells: Seq<((u32, u32), Cell)>)
    ensures
        0 <= max_cell_x(cells) <= u32::MAX,
        0 <= max_cell_y(cells) <= u32::MAX,
        forall|i: int|
            0 <= i < cells.len() ==> (#[trigger] cells[i]).0.0 <= max_cell_x(cells)
                && cells[i].0.1 <= max_cell_y(cells),
        max_cell_x(cells) == 0 || exists|i: int|
            0 <= i < cells.len() && (#[trigger] cells[i]).0.0 == max_cell_x(cells),
        max_cell_y(cells) == 0 || exists|i: int|
            0 <= i < cells.len() && (#[trigger] cells[i]).0.1 == max_cell_y(cells),
    decreases cells.len(),
{
    if cells.len() > 0 {
        lemma_max_cell_props(cells.drop_last());
        assert(cells.last() == cells[cells.len() - 1]);
        assert forall|i: int|
            0 <= i < cells.len() implies (#[trigger] cells[i]).0.0 <= max_cell_x(cells)
                && cells[i].0.1 <= max_cell_y(cells) by {
            if i < cells.len() - 1 {
                assert(cells.drop_last()[i] == cells[i]);
            }
        }
        let mx = max_cell_x(cells.drop_last());
        if cells.last().0.0 > mx {
            assert(cells[cells.len() - 1].0.0 == max_cell_x(cells));
        } else if mx != 0 {
            let w = choose|w: int|
                0 <= w < cells.drop_last().len() && (#[trigger] cells.drop_last()[w]).0.0 == mx;
            assert(cells.drop_last()[w] == cells[w]);
            assert(cells[w].0.0 == max_cell_x(cells));
        }
        let my = max_cell_y(cells.drop_last());
        if cells.last().0.1 > my {
            assert(cells[cells.len() - 1].0.1 == max_cell_y(cells));
        } else if my != 0 {
            let w = choose|w: int|
                0 <= w < cells.drop_last().len() && (#[trigger] cells.drop_last()[w]).0.1 == my;
            assert(cells.drop_last()[w] == cells[w]);
            assert(cells[w].0.1 == max_cell_y(cells));
        }
    }
}

/// Whether the glyph box of a cell covers a canvas position.
pub open spec fn covers(e: ((u32, u32), Cell), x: int, y: int, adv: int, lh: int) -> bool {
    e.0.0 <= x < e.0.0 + adv && e.0.1 <= y < e.0.1 + lh
}

/// The first cell at or after index `k` whose box covers a position.
pub open spec fn first_cover_from(
    cells: Seq<((u32, u32), Cell)>,
    k: int,
    x: int,
    y: int,
    adv: int,
    lh: int,
) -> Option<int>
    decreases cells.len() - k,
{
    if k < 0 || k >= cells.len() {
        Option::None
    } else if covers(cells[k], x, y, adv, lh) {
        Option::Some(k)
    } else {
        first_cover_from(cells, k + 1, x, y, adv, lh)
    }
}

/// The background color that reverse-order painting leaves at a position:
/// that of the first covering cell in key order, or the primary background
/// where no cell covers it.
pub open spec fn bg_at(
    cells: Seq<((u32, u32), Cell)>,
    p: Palette,
    x: int,
    y: int,
    adv: int,
    lh: int,
) -> Rgba {
    match first_cover_from(cells, 0, x, y, adv, lh) {
        Option::Some(i) => resolve(p, cells[i].1.style.background),
        Option::None => resolve(p, ColorType::PrimaryBackground),
    }
}

/// Whether a grid's content stays within the machine limits of a canvas.
pub open spec fn render_bounds_ok(
    cells: Seq<((u32, u32), Cell)>,
    advance: u32,
    line_height: u32,
) -> bool {
    &&& forall|i: int|
        0 <= i < cells.len() ==> (#[trigger] cells[i]).0.0 + advance <= u32::MAX && cells[i].0.1
            + line_height <= u32::MAX
    &&& (max_cell_x(cells) + advance) * (max_cell_y(cells) + line_height) <= usize::MAX
}

/// Composites a populated grid: the canvas with all backgrounds painted,
/// and the ordered foreground paint commands.
pub fn render_grid(grid: &TextGrid, palette: &Palette) -> (r: (Image, Vec<GlyphCmd>))
    requires
        palette.wf(),
        render_bounds_ok(grid@.cells, grid@.advance, grid@.line_height),
    ensures
        r.0.wf(),
        r.0.width == max_cell_x(grid@.cells) + grid@.advance,
        r.0.height == max_cell_y(grid@.cells) + grid@.line_height,
        forall|x: int, y: int|
            0 <= x < r.0.width && 0 <= y < r.0.height ==> r.0.spec_pixel(x, y) == bg_at(
                grid@.cells,
                *palette,
                x,
                y,
                grid@.advance as int,
                grid@.line_height as int,
            ),
        r.1@.len() == grid@.cells.len(),
        forall|i: int|
            0 <= i < grid@.cells.len() ==> r.1@[i] == glyph_cmd_of(*palette, grid@.cells[i]),
{
    let cells = &grid.cells;
    let n = cells.len();
    proof {
        lemma_max_cell_props(cells@);
    }

    // Canvas bounds: one glyph box beyond the largest cell origin.
    let mut mx: u32 = 0;
    let mut my: u32 = 0;
    let mut i: usize = 0;
    while i < n
        invariant
            n == cells@.len(),
            0 <= i <= n,
            mx == max_cell_x(cells@.take(i as int)),
            my == max_cell_y(cells@.take(i as int)),
        decreases n - i,
    {
        let (key, _) = cells[i];
        proof {
            assert(cells@.take(i + 1).drop_last() =~= cells@.take(i as int));
            assert(cells@.take(i + 1).last() == cells@[i as int]);
        }
        if key.0 > mx {
            mx = key.0;
        }
        if key.1 > my {
            my = key.1;
        }
        i = i + 1;
    }
    proof {
        assert(cells@.take(n as int) =~= cells@);
        if max_cell_x(cells@) != 0 {
            let w = choose|w: int| 0 <= w < cells@.len() && cells@[w].0.0 == max_cell_x(cells@);
            assert(cells@[w].0.0 + grid@.advance <= u32::MAX);
        }
        if max_cell_y(cells@) != 0 {
            let w = choose|w: int| 0 <= w < cells@.len() && cells@[w].0.1 == max_cell_y(cells@);
            assert(cells@[w].0.1 + grid@.line_height <= u32::MAX);
        }
    }
    let width = mx + grid.advance;
    let height = my + grid.line_height;

    // Background pass: the whole canvas in the primary background, then the
    // cell boxes in reverse key order.
    let mut img = Image::new(width, height, palette.get_color(ColorType::PrimaryBackground));
    proof {
        assert(forall|x: int, y: int|
            0 <= x < width && 0 <= y < height ==> first_cover_from(
                cells@,
                n as int,
                x,
                y,
                grid@.advance as int,
                grid@.line_height as int,
            ) is None);
    }
    let mut k = n;
    while k > 0
        invariant
            n == cells@.len(),
            0 <= k <= n,
            palette.wf(),
            render_bounds_ok(cells@, grid@.advance, grid@.line_height),
            forall|j: int|
                0 <= j < cells@.len() ==> (#[trigger] cells@[j]).0.0 <= max_cell_x(cells@)
                    && cells@[j].0.1 <= max_cell_y(cells@),
            img.wf(),
            img.width == width,
            img.height == height,
            width == max_cell_x(cells@) + grid@.advance,
            height == max_cell_y(cells@) + grid@.line_height,
            forall|x: int, y: int|
                0 <= x < width && 0 <= y < height ==> img.spec_pixel(x, y) == (match
                first_cover_from(cells@, k as int, x, y, grid@.advance as int, grid@.line_height
                    as int) {
                    Option::Some(i) => resolve(*palette, cells@[i].1.style.background),
                    Option::None => resolve(*palette, ColorType::PrimaryBackground),
                }),
        decreases k,
    {
        k = k - 1;
        let (key, entry) = cells[k];
        let color = palette.get_color(entry.style.background);
        let ghost before = img;
        img.fill_rect(key.0, key.1, grid.advance, grid.line_height, color);
        proof {
            let adv = grid@.advance as int;
            let lh = grid@.line_height as int;
            assert forall|x: int, y: int| 0 <= x < width && 0 <= y < height implies img.spec_pixel(
                x,
                y,
            ) == (match first_cover_from(cells@, k as int, x, y, adv, lh) {
                Option::Some(i) => resolve(*palette, cells@[i].1.style.background),
                Option::None => resolve(*palette, ColorType::PrimaryBackground),
            }) by {
                if covers(cells@[k as int], x, y, adv, lh) {
                    assert(first_cover_from(cells@, k as int, x, y, adv, lh) == Option::Some(
                        k as int,
                    ));
                } else {
                    assert(first_cover_from(cells@, k as int, x, y, adv, lh) == first_cover_from(
                        cells@,
                        k + 1,
                        x,
                        y,
                        adv,
                        lh,
                    ));
                }
            }
        }
    }

    // Foreground pass: one paint command per cell, in key order.
    let mut cmds: Vec<GlyphCmd> = Vec::new();
    let mut j: usize = 0;
    while j < n
        invariant
            n == cells@.len(),
            0 <= j <= n,
            palette.wf(),
            cmds@.len() == j,
            forall|i: int| 0 <= i < j ==> cmds@[i] == glyph_cmd_of(*palette, cells@[i]),
        decreases n - j,
    {
        let (key, entry) = cells[j];
        let color = palette.get_color(entry.style.foreground);
        cmds.push(
            GlyphCmd {
                x: key.0,
                y: key.1,
                character: entry.character,
                font: entry.style.font,
                color,
                underline: entry.style.underline,
            },
        );
        j = j + 1;
    }

    (img, cmds)
}

/// The full conversion: feeds a byte stream to a fresh terminal and
/// composites the resulting grid. Yields `None` only when the content
/// outgrows the machine limits of a canvas.
pub fn render(
    input: &Vec<u8>,
    palette: &Palette,
    advance: u32,
    line_height: u32,
    max_width: Option<u32>,
) -> (r: Option<(Image, Vec<GlyphCmd>)>)
    requires
        palette.wf(),
    ensures
        ({
            let g = spec_feed(initial_term(advance, line_height, max_width), input@).grid;
            &&& (r is Some <==> render_bounds_ok(g.cells, advance, line_height))
            &&& r matches Some(p) ==> {
                &&& p.0.wf()
                &&& p.0.width == max_cell_x(g.cells) + advance
                &&& p.0.height == max_cell_y(g.cells) + line_height
                &&& forall|x: int, y: int|
                    0 <= x < p.0.width && 0 <= y < p.0.height ==> p.0.spec_pixel(x, y) == bg_at(
                        g.cells,
                        *palette,
                        x,
                        y,
                        advance as int,
                        line_height as int,
                    )
                &&& p.1@.len() == g.cells.len()
                &&& forall|i: int|
                    0 <= i < g.cells.len() ==> p.1@[i] == glyph_cmd_of(*palette, g.cells[i])
            }
        }),
{
    let mut term = Terminal::new(advance, line_height, max_width);
    term.advance(input);
    proof {
        crate::vt::lemma_feed_preserves_config(
            initial_term(advance, line_height, max_width),
            input@,
        );
    }

    // Guard the machine limits that a canvas must meet.
    let cells = &term.grid.cells;
    let n = cells.len();
    let mut i: usize = 0;
    while i < n
        invariant
            n == cells@.len(),
            cells@ == term@.grid.cells,
            term@ == spec_feed(initial_term(advance, line_height, max_width), input@),
            0 <= i <= n,
            forall|j: int|
                0 <= j < i ==> (#[trigger] cells@[j]).0.0 + term@.grid.advance <= u32::MAX
                    && cells@[j].0.1 + term@.grid.line_height <= u32::MAX,
            term@.grid.advance == advance,
            term@.grid.line_height == line_height,
        decreases n - i,
    {
        let (key, _) = cells[i];
        if key.0 > u32::MAX - term.grid.advance || key.1 > u32::MAX - term.grid.line_height {
            proof {
                assert(!render_bounds_ok(term@.grid.cells, advance, line_height)) by {
                    if render_bounds_ok(term@.grid.cells, advance, line_height) {
                        assert((#[trigger] term@.grid.cells[i as int]).0.0 + advance <= u32::MAX
                            && term@.grid.cells[i as int].0.1 + line_height <= u32::MAX);
                        assert(term@.grid.cells[i as int] == cells@[i as int]);
                        assert(false);
                    }
                }
            }
            return None;
        }
        i = i + 1;
    }
    proof {
        lemma_max_cell_props(cells@);
    }
    let mut mx: u32 = 0;
    let mut my: u32 = 0;
    let mut j: usize = 0;
    while j < n
        invariant
            n == cells@.len(),
            0 <= j <= n,
            mx == max_cell_x(cells@.take(j as int)),
            my == max_cell_y(cells@.take(j as int)),
        decreases n - j,
    {
        let (key, _) = cells[j];
        proof {
            assert(cells@.take(j + 1).drop_last() =~= cells@.take(j as int));
            assert(cells@.take(j + 1).last() == cells@[j as int]);
        }
        if key.0 > mx {
            mx = key.0;
        }
        if key.1 > my {
            my = key.1;
        }
        j = j + 1;
    }
    proof {
        assert(cells@.take(n as int) =~= cells@);
    }
    proof {
        if mx != 0 {
            let w = choose|w: int| 0 <= w < cells@.len() && cells@[w].0.0 == max_cell_x(cells@);
            assert(cells@[w].0.0 + advance <= u32::MAX);
        }
        if my != 0 {
            let w = choose|w: int| 0 <= w < cells@.len() && cells@[w].0.1 == max_cell_y(cells@);
            assert(cells@[w].0.1 + line_height <= u32::MAX);
        }
        assert(mx as int + advance as int <= u32::MAX as int);
        assert(my as int + line_height as int <= u32::MAX as int);
    }
    let w64 = (mx as u64) + (term.grid.advance as u64);
    let h64 = (my as u64) + (term.grid.line_height as u64);
    proof {
        lemma_mul_le(w64 as int, h64 as int, 0xffffffff, 0xffffffff);
    }
    if w64 * h64 > (usize::MAX as u64) {
        proof {
            assert(!render_bounds_ok(term@.grid.cells, advance, line_height));
        }
        return None;
    }
    proof {
        assert(render_bounds_ok(term@.grid.cells, advance, line_height));
    }
    Some(render_grid(&term.grid, palette))
}

} // verus!
