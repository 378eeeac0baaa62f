//! The ANSI text sink and the half-block image renderer.
//!
//! `StringWriter` collects styled output as bytes, generating the same
//! escape sequences that a color-aware terminal writer would. The
//! half-block renderer turns two pixel rows at a time into one text row of
//! `▀`/`▄` characters whose foreground and background carry the pixel
//! colors.

use vstd::prelude::*;

use crate::raster::Image;
use crate::textbuf::{dec_bytes, push_dec_bytes};
use vstd::string::StringSliceAdditionalSpecFns;

verus! {

/// A color as a terminal writer names it: a base color, a 256-palette
/// index, or a truecolor value.
#[derive(Clone, Copy, Debug, PartialEq, Eq, Structural)]
pub enum AnsiColor {
    Black,
    Blue,
    Green,
    Red,
    Cyan,
    Magenta,
    Yellow,
    White,
    Ansi256(u8),
    Rgb(u8, u8, u8),
}

/// A style request for written text: flags plus optional foreground and
/// background colors.
#[derive(Clone, Copy, Debug, PartialEq, Eq, Structural)]
pub struct ColorSpec {
    pub reset: bool,
    pub bold: bool,
    pub dimmed: bool,
    pub italic: bool,
    pub underline: bool,
    pub strikethrough: bool,
    pub intense: bool,
    pub fg: Option<AnsiColor>,
    pub bg: Option<AnsiColor>,
}

impl ColorSpec {
    /// A spec with no flags and no colors.
    pub open spec fn spec_new() -> ColorSpec {
        ColorSpec {
            reset: false,
            bold: false,
            dimmed: false,
            italic: false,
            underline: false,
            strikethrough: false,
            intense: false,
            fg: None,
            bg: None,
        }
    }

    /// A spec with no flags and no colors.
    pub fn new() -> (c: ColorSpec)
        ensures
            c == ColorSpec::spec_new(),
    {
        ColorSpec {
            reset: false,
            bold: false,
            dimmed: false,
            italic: false,
            underline: false,
            strikethrough: false,
            intense: false,
            fg: None,
            bg: None,
        }
    }
}

/// The code of a base color in the 30-37 range, as its final digit.
pub open spec fn base_digit(c: AnsiColor) -> int {
    match c {
        AnsiColor::Black => 0,
        AnsiColor::Red => 1,
        AnsiColor::Green => 2,
        AnsiColor::Yellow => 3,
        AnsiColor::Blue => 4,
        AnsiColor::Magenta => 5,
        AnsiColor::Cyan => 6,
        AnsiColor::White => 7,
        _ => 0,
    }
}

/// The bytes `ESC [`.
pub open spec fn csi_bytes() -> Seq<u8> {
    seq![0x1bu8, 0x5bu8]
}

/// The escape `ESC [ 0 m` that resets all attributes.
pub open spec fn sgr_reset_bytes() -> Seq<u8> {
    seq![0x1bu8, 0x5bu8, 0x30u8, 0x6du8]
}

/// The escape `ESC [ 1 C` that moves the cursor one cell right.
pub open spec fn move_right_bytes() -> Seq<u8> {
    seq![0x1bu8, 0x5bu8, 0x31u8, 0x43u8]
}

/// The escape bytes that a color request writes: base colors use the
/// 30-37/40-47 range, or the 256-palette range 8-15 when intense; palette
/// and truecolor values use the 38/48 extensions.
#[verifier::opaque]
pub open spec fn color_bytes(fg: bool, c: AnsiColor, intense: bool) -> Seq<u8> {
    let fgbg: u8 = if fg {
        0x33
    } else {
        0x34
    };
    match c {
        AnsiColor::Ansi256(v) => csi_bytes() + seq![fgbg, 0x38u8, 0x3bu8, 0x35u8, 0x3bu8]
            + dec_bytes(v as int) + seq![0x6du8],
        AnsiColor::Rgb(r, g, b) => csi_bytes() + seq![fgbg, 0x38u8, 0x3bu8, 0x32u8, 0x3bu8]
            + dec_bytes(r as int) + seq![0x3bu8] + dec_bytes(g as int) + seq![0x3bu8] + dec_bytes(
            b as int,
        ) + seq![0x6du8],
        _ => if intense {
            csi_bytes() + seq![fgbg, 0x38u8, 0x3bu8, 0x35u8, 0x3bu8] + dec_bytes(
                8 + base_digit(c),
            ) + seq![0x6du8]
        } else {
            csi_bytes() + seq![fgbg, (0x30 + base_digit(c)) as u8, 0x6du8]
        },
    }
}

/// The bytes that a whole style request writes: reset first, then each
/// flag, then the foreground, then the background.
pub open spec fn set_color_bytes(cs: ColorSpec) -> Seq<u8> {
    (if cs.reset {
        sgr_reset_bytes()
    } else {
        Seq::<u8>::empty()
    }) + (if cs.bold {
        seq![0x1bu8, 0x5bu8, 0x31u8, 0x6du8]
    } else {
        Seq::<u8>::empty()
    }) + (if cs.dimmed {
        seq![0x1bu8, 0x5bu8, 0x32u8, 0x6du8]
    } else {
        Seq::<u8>::empty()
    }) + (if cs.italic {
        seq![0x1bu8, 0x5bu8, 0x33u8, 0x6du8]
    } else {
        Seq::<u8>::empty()
    }) + (if cs.underline {
        seq![0x1bu8, 0x5bu8, 0x34u8, 0x6du8]
    } else {
        Seq::<u8>::empty()
    }) + (if cs.strikethrough {
        seq![0x1bu8, 0x5bu8, 0x39u8, 0x6du8]
    } else {
        Seq::<u8>::empty()
    }) + (match cs.fg {
        Some(c) => color_bytes(true, c, cs.intense),
        None => Seq::<u8>::empty(),
    }) + (match cs.bg {
        Some(c) => color_bytes(false, c, cs.intense),
        None => Seq::<u8>::empty(),
    })
}

/// The characters written with `String::from_utf8_lossy`'s replacement
/// rule applied to a byte buffer.
pub uninterp spec fn lossy_utf8(bytes: Seq<u8>) -> Seq<char>;

/// Relies on `String::from_utf8_lossy`: the decoding depends on the bytes
/// alone, and well-formed UTF-8 — in particular plain ASCII — decodes
/// unchanged.
#[verifier::external_body]
fn bytes_to_string_lossy(bytes: &Vec<u8>) -> (s: String)
    ensures
        s@ == lossy_utf8(bytes@),
        (forall|i: int| 0 <= i < bytes@.len() ==> bytes@[i] < 0x80) ==> s@ == Seq::new(
            bytes@.len(),
            |i: int| bytes@[i] as char,
        ),
{
    String::from_utf8_lossy(bytes.as_slice()).to_string()
}

/// An output stream that collects everything written to it.
pub struct StringWriter {
    pub inner_buf: Vec<u8>,
}

impl StringWriter {
    /// An empty writer.
    pub fn new() -> (w: StringWriter)
        ensures
            w.inner_buf@ == Seq::<u8>::empty(),
    {
        StringWriter { inner_buf: Vec::new() }
    }

    /// The collected output decoded as text.
    pub fn read(&mut self) -> (s: String)
        ensures
            final(self).inner_buf@ == old(self).inner_buf@,
            s@ == lossy_utf8(old(self).inner_buf@),
    {
        bytes_to_string_lossy(&self.inner_buf)
    }

    /// Appends the bytes of a string slice.
    pub fn write_str(&mut self, s: &str)
        ensures
            final(self).inner_buf@ == old(self).inner_buf@ + s.spec_bytes(),
    {
        let mut bytes = s.as_bytes_vec();
        self.inner_buf.append(&mut bytes);
    }

    /// Appends raw bytes, reporting how many were taken (always all).
    pub fn write(&mut self, buf: &Vec<u8>) -> (n: usize)
        ensures
            final(self).inner_buf@ == old(self).inner_buf@ + buf@,
            n == buf@.len(),
    {
        let n = buf.len();
        let mut copy: Vec<u8> = Vec::new();
        let mut i: usize = 0;
        while i < n
            invariant
                n == buf@.len(),
                0 <= i <= n,
                copy@ =~= buf@.take(i as int),
            decreases n - i,
        {
            copy.push(buf[i]);
            i = i + 1;
        }
        proof {
            assert(copy@ =~= buf@);
        }
        self.inner_buf.append(&mut copy);
        n
    }

    /// Flushing is a no-op: the buffer is always current.
    pub fn flush(&mut self)
        ensures
            final(self).inner_buf@ == old(self).inner_buf@,
    {
    }

    /// This writer always accepts color escapes.
    pub fn supports_color(&self) -> (r: bool)
        ensures
            r,
    {
        true
    }

    /// This writer never requires synchronous writes.
    pub fn is_synchronous(&self) -> (r: bool)
        ensures
            !r,
    {
        false
    }

    /// Appends the escape that resets all attributes.
    pub fn reset(&mut self)
        ensures
            final(self).inner_buf@ == old(self).inner_buf@ + sgr_reset_bytes(),
    {
        self.inner_buf.push(0x1b);
        self.inner_buf.push(0x5b);
        self.inner_buf.push(0x30);
        self.inner_buf.push(0x6d);
        proof {
            assert(self.inner_buf@ =~= old(self).inner_buf@ + sgr_reset_bytes());
        }
    }

    /// Appends the escape selecting one color.
    pub fn write_color(&mut self, fg: bool, c: &AnsiColor, intense: bool)
        ensures
            final(self).inner_buf@ == old(self).inner_buf@ + color_bytes(fg, *c, intense),
    {
        let v = &mut self.inner_buf;
        v.push(0x1b);
        v.push(0x5b);
        let fgbg: u8 = if fg {
            0x33
        } else {
            0x34
        };
        match c {
            AnsiColor::Ansi256(n) => {
                v.push(fgbg);
                v.push(0x38);
                v.push(0x3b);
                v.push(0x35);
                v.push(0x3b);
                push_dec_bytes(v, *n);
                v.push(0x6d);
            }
            AnsiColor::Rgb(r, g, b) => {
                v.push(fgbg);
                v.push(0x38);
                v.push(0x3b);
                v.push(0x32);
                v.push(0x3b);
                push_dec_bytes(v, *r);
                v.push(0x3b);
                push_dec_bytes(v, *g);
                v.push(0x3b);
                push_dec_bytes(v, *b);
                v.push(0x6d);
            }
            _ => {
                let d = base_digit_exec(c);
                if intense {
                    v.push(fgbg);
                    v.push(0x38);
                    v.push(0x3b);
                    v.push(0x35);
                    v.push(0x3b);
                    push_dec_bytes(v, 8 + d);
                    v.push(0x6d);
                } else {
                    v.push(fgbg);
                    v.push(0x30 + d);
                    v.push(0x6d);
                }
            }
        }
        proof {
            reveal(color_bytes);
            assert(self.inner_buf@ =~= old(self).inner_buf@ + color_bytes(fg, *c, intense));
        }
    }

    /// Appends the escapes of a whole style request, in the fixed order:
    /// reset, flags, foreground, background.
    #[verifier::rlimit(100)]
    pub fn set_color(&mut self, cspec: &ColorSpec)
        ensures
            final(self).inner_buf@ == old(self).inner_buf@ + set_color_bytes(*cspec),
    {
        let ghost base = self.inner_buf@;
        let ghost p1 = if cspec.reset { sgr_reset_bytes() } else { Seq::<u8>::empty() };
        let ghost p2 = if cspec.bold { seq![0x1bu8, 0x5bu8, 0x31u8, 0x6du8] } else { Seq::<u8>::empty() };
        let ghost p3 = if cspec.dimmed { seq![0x1bu8, 0x5bu8, 0x32u8, 0x6du8] } else { Seq::<u8>::empty() };
        let ghost p4 = if cspec.italic { seq![0x1bu8, 0x5bu8, 0x33u8, 0x6du8] } else { Seq::<u8>::empty() };
        let ghost p5 = if cspec.underline { seq![0x1bu8, 0x5bu8, 0x34u8, 0x6du8] } else { Seq::<u8>::empty() };
        let ghost p6 = if cspec.strikethrough { seq![0x1bu8, 0x5bu8, 0x39u8, 0x6du8] } else { Seq::<u8>::empty() };
        let ghost p7 = match cspec.fg { Some(c) => color_bytes(true, c, cspec.intense), None => Seq::<u8>::empty() };
        let ghost p8 = match cspec.bg { Some(c) => color_bytes(false, c, cspec.intense), None => Seq::<u8>::empty() };

        if cspec.reset {
            self.reset();
        }
        proof {
            Seq::add_empty_right(base, Seq::<u8>::empty());
            assert(self.inner_buf@ == base + p1) by {
                if !cspec.reset {
                    Seq::add_empty_right(base, Seq::<u8>::empty());
                }
            }
        }
        let ghost b1 = self.inner_buf@;
        if cspec.bold {
            self.push_flag(0x31);
        }
        proof {
            assert(self.inner_buf@ == b1 + p2) by {
                Seq::add_empty_right(b1, Seq::<u8>::empty());
            }
        }
        let ghost b2 = self.inner_buf@;
        if cspec.dimmed {
            self.push_flag(0x32);
        }
        proof {
            assert(self.inner_buf@ == b2 + p3) by {
                Seq::add_empty_right(b2, Seq::<u8>::empty());
            }
        }
        let ghost b3 = self.inner_buf@;
        if cspec.italic {
            self.push_flag(0x33);
        }
        proof {
            assert(self.inner_buf@ == b3 + p4) by {
                Seq::add_empty_right(b3, Seq::<u8>::empty());
            }
        }
        let ghost b4 = self.inner_buf@;
        if cspec.underline {
            self.push_flag(0x34);
        }
        proof {
            assert(self.inner_buf@ == b4 + p5) by {
                Seq::add_empty_right(b4, Seq::<u8>::empty());
            }
        }
        let ghost b5 = self.inner_buf@;
        if cspec.strikethrough {
            self.push_flag(0x39);
        }
        proof {
            assert(self.inner_buf@ == b5 + p6) by {
                Seq::add_empty_right(b5, Seq::<u8>::empty());
            }
        }
        let ghost b6 = self.inner_buf@;
        if let Some(c) = &cspec.fg {
            self.write_color(true, c, cspec.intense);
        }
        proof {
            assert(self.inner_buf@ == b6 + p7) by {
                Seq::add_empty_right(b6, Seq::<u8>::empty());
            }
        }
        let ghost b7 = self.inner_buf@;
        if let Some(c) = &cspec.bg {
            self.write_color(false, c, cspec.intense);
        }
        proof {
            assert(self.inner_buf@ == b7 + p8) by {
                Seq::add_empty_right(b7, Seq::<u8>::empty());
            }
            assert(set_color_bytes(*cspec) == p1 + p2 + p3 + p4 + p5 + p6 + p7 + p8);
            vstd::seq_lib::lemma_concat_associative(base, p1, p2);
            vstd::seq_lib::lemma_concat_associative(base, p1 + p2, p3);
            vstd::seq_lib::lemma_concat_associative(base, p1 + p2 + p3, p4);
            vstd::seq_lib::lemma_concat_associative(base, p1 + p2 + p3 + p4, p5);
            vstd::seq_lib::lemma_concat_associative(base, p1 + p2 + p3 + p4 + p5, p6);
            vstd::seq_lib::lemma_concat_associative(base, p1 + p2 + p3 + p4 + p5 + p6, p7);
            vstd::seq_lib::lemma_concat_associative(base, p1 + p2 + p3 + p4 + p5 + p6 + p7, p8);
        }
    }

    /// Appends `ESC [ <flag> m`.
    fn push_flag(&mut self, flag: u8)
        ensures
            final(self).inner_buf@ == old(self).inner_buf@ + seq![0x1bu8, 0x5bu8, flag, 0x6du8],
    {
        self.inner_buf.push(0x1b);
        self.inner_buf.push(0x5b);
        self.inner_buf.push(flag);
        self.inner_buf.push(0x6d);
        proof {
            assert(self.inner_buf@ =~= old(self).inner_buf@ + seq![0x1bu8, 0x5bu8, flag, 0x6du8]);
        }
    }
}

fn base_digit_exec(c: &AnsiColor) -> (d: u8)
    ensures
        d == base_digit(*c),
        d <= 7,
{
    match c {
        AnsiColor::Black => 0,
        AnsiColor::Red => 1,
        AnsiColor::Green => 2,
        AnsiColor::Yellow => 3,
        AnsiColor::Blue => 4,
        AnsiColor::Magenta => 5,
        AnsiColor::Cyan => 6,
        AnsiColor::White => 7,
        _ => 0,
    }
}

/// The index in the 256-color palette that approximates an RGB color, as
/// ansi_colours computes it.
pub uninterp spec fn ansi256_of(r: u8, g: u8, b: u8) -> u8;

/// Relies on ansi_colours::ansi256_from_rgb: the approximating palette
/// index depends on the color alone.
#[verifier::external_body]
fn ansi256_lookup(r: u8, g: u8, b: u8) -> (n: u8)
    ensures
        n == ansi256_of(r, g, b),
{
    ansi_colours::ansi256_from_rgb((r, g, b))
}

/// The writer color of one opaque pixel: its truecolor value, or its
/// closest 256-palette index.
pub open spec fn pixel_ansi_color(p: crate::color::Rgba, truecolor: bool) -> AnsiColor {
    if truecolor {
        AnsiColor::Rgb(p.r, p.g, p.b)
    } else {
        AnsiColor::Ansi256(ansi256_of(p.r, p.g, p.b))
    }
}

/// The color of a pixel, or none when it is fully transparent.
pub open spec fn opt_pixel_color(
    px: Seq<crate::color::Rgba>,
    w: int,
    x: int,
    y: int,
    truecolor: bool,
) -> Option<AnsiColor> {
    if px[y * w + x].a == 0 {
        None
    } else {
        Some(pixel_ansi_color(px[y * w + x], truecolor))
    }
}

/// A style request holding only a foreground color.
pub open spec fn fg_only(c: AnsiColor) -> ColorSpec {
    ColorSpec { fg: Some(c), ..ColorSpec::spec_new() }
}

/// The UTF-8 bytes of the upper half block.
pub open spec fn upper_block_bytes() -> Seq<u8> {
    seq![0xe2u8, 0x96u8, 0x80u8]
}

/// The UTF-8 bytes of the lower half block.
pub open spec fn lower_block_bytes() -> Seq<u8> {
    seq![0xe2u8, 0x96u8, 0x84u8]
}

/// The bytes of one text cell: the cursor skips fully transparent cells; a
/// cell with one visible half draws that half in the foreground; a full
/// cell draws the lower half over the top color as background. On the
/// final row of an odd-height image only the upper half is drawn.
pub open spec fn cell_bytes(
    top: Option<AnsiColor>,
    bottom: Option<AnsiColor>,
    last: bool,
) -> Seq<u8> {
    if last {
        match top {
            None => move_right_bytes(),
            Some(t) => set_color_bytes(fg_only(t)) + upper_block_bytes(),
        }
    } else {
        match (bottom, top) {
            (None, None) => move_right_bytes(),
            (Some(b), None) => set_color_bytes(fg_only(b)) + lower_block_bytes(),
            (None, Some(t)) => set_color_bytes(fg_only(t)) + upper_block_bytes(),
            (Some(b), Some(t)) => set_color_bytes(
                ColorSpec { fg: Some(b), bg: Some(t), ..ColorSpec::spec_new() },
            ) + lower_block_bytes(),
        }
    }
}

/// The first `nx` cells of the text row covering pixel rows `2k` and
/// `2k + 1`.
pub open spec fn halfrow_bytes(
    px: Seq<crate::color::Rgba>,
    w: int,
    h: int,
    k: int,
    nx: int,
    truecolor: bool,
) -> Seq<u8>
    decreases nx,
{
    if nx <= 0 {
        Seq::<u8>::empty()
    } else {
        halfrow_bytes(px, w, h, k, nx - 1, truecolor) + ({
            let x = nx - 1;
            let top = opt_pixel_color(px, w, x, 2 * k, truecolor);
            if 2 * k + 1 < h {
                cell_bytes(top, opt_pixel_color(px, w, x, 2 * k + 1, truecolor), false)
            } else {
                cell_bytes(top, None, true)
            }
        })
    }
}

/// The first `k` text rows, each followed by a reset and a line break
/// unless it contains the final pixel row.
pub open spec fn halfblock_rows(
    px: Seq<crate::color::Rgba>,
    w: int,
    h: int,
    k: int,
    truecolor: bool,
) -> Seq<u8>
    decreases k,
{
    if k <= 0 {
        Seq::<u8>::empty()
    } else {
        halfblock_rows(px, w, h, k - 1, truecolor) + halfrow_bytes(px, w, h, k - 1, w, truecolor)
            + (if 2 * (k - 1) + 1 < h - 1 {
            sgr_reset_bytes() + seq![0x0du8, 0x0au8]
        } else {
            Seq::<u8>::empty()
        })
    }
}

/// The whole half-block rendering of an image, closed by a reset and one
/// line feed.
pub open spec fn halfblock_bytes(
    px: Seq<crate::color::Rgba>,
    w: int,
    h: int,
    truecolor: bool,
) -> Seq<u8> {
    halfblock_rows(px, w, h, (h + 1) / 2, truecolor) + sgr_reset_bytes() + seq![0x0au8]
}

/// The color of one pixel, or none when fully transparent.
fn opt_color_at(img: &Image, x: u32, y: u32, truecolor: bool) -> (c: Option<AnsiColor>)
    requires
        img.wf(),
        x < img.width,
        y < img.height,
    ensures
        c == opt_pixel_color(img.pixels@, img.width as int, x as int, y as int, truecolor),
{
    proof {
        crate::raster::lemma_rowmajor_bound(x as int, y as int, img.width as int, img.height as int);
    }
    let plen = img.pixels.len();
    let idx = (y as usize) * (img.width as usize) + (x as usize);
    let p = img.pixels[idx];
    if p.a == 0 {
        None
    } else if truecolor {
        Some(AnsiColor::Rgb(p.r, p.g, p.b))
    } else {
        Some(AnsiColor::Ansi256(ansi256_lookup(p.r, p.g, p.b)))
    }
}

impl StringWriter {
    /// Appends the escape that moves the cursor one cell right.
    fn move_right(&mut self)
        ensures
            final(self).inner_buf@ == old(self).inner_buf@ + move_right_bytes(),
    {
        self.inner_buf.push(0x1b);
        self.inner_buf.push(0x5b);
        self.inner_buf.push(0x31);
        self.inner_buf.push(0x43);
        proof {
            assert(self.inner_buf@ =~= old(self).inner_buf@ + move_right_bytes());
        }
    }

    /// Appends the upper or lower half-block character.
    fn push_block(&mut self, upper: bool)
        ensures
            upper ==> final(self).inner_buf@ == old(self).inner_buf@ + upper_block_bytes(),
            !upper ==> final(self).inner_buf@ == old(self).inner_buf@ + lower_block_bytes(),
    {
        self.inner_buf.push(0xe2);
        self.inner_buf.push(0x96);
        if upper {
            self.inner_buf.push(0x80);
            proof {
                assert(self.inner_buf@ =~= old(self).inner_buf@ + upper_block_bytes());
            }
        } else {
            self.inner_buf.push(0x84);
            proof {
                assert(self.inner_buf@ =~= old(self).inner_buf@ + lower_block_bytes());
            }
        }
    }

    /// Appends one text cell for a pair of vertically adjacent pixels.
    fn emit_cell(&mut self, top: Option<AnsiColor>, bottom: Option<AnsiColor>, last: bool)
        ensures
            final(self).inner_buf@ == old(self).inner_buf@ + cell_bytes(top, bottom, last),
    {
        if last {
            match top {
                None => self.move_right(),
                Some(t) => {
                    let mut cs = ColorSpec::new();
                    cs.fg = Some(t);
                    self.set_color(&cs);
                    self.push_block(true);
                }
            }
        } else {
            match (bottom, top) {
                (None, None) => self.move_right(),
                (Some(b), None) => {
                    let mut cs = ColorSpec::new();
                    cs.fg = Some(b);
                    self.set_color(&cs);
                    self.push_block(false);
                }
                (None, Some(t)) => {
                    let mut cs = ColorSpec::new();
                    cs.fg = Some(t);
                    self.set_color(&cs);
                    self.push_block(true);
                }
                (Some(b), Some(t)) => {
                    let mut cs = ColorSpec::new();
                    cs.fg = Some(b);
                    cs.bg = Some(t);
                    self.set_color(&cs);
                    self.push_block(false);
                }
            }
        }
        proof {
            assert(self.inner_buf@ =~= old(self).inner_buf@ + cell_bytes(top, bottom, last));
        }
    }
}

/// Renders an image into half-block ANSI text on a writer, two pixel rows
/// per text row.
pub fn make_ansi(stdout: &mut StringWriter, img: &Image, truecolor: bool)
    requires
        img.wf(),
    ensures
        final(stdout).inner_buf@ == old(stdout).inner_buf@ + halfblock_bytes(
            img.pixels@,
            img.width as int,
            img.height as int,
            truecolor,
        ),
{
    let ghost px = img.pixels@;
    let w = img.width;
    let h = img.height;
    let pairs = h / 2 + h % 2;
    proof {
        assert(pairs == (h as int + 1) / 2);
    }
    let ghost base = stdout.inner_buf@;

    let mut k: u32 = 0;
    while k < pairs
        invariant
            img.wf(),
            px == img.pixels@,
            w == img.width,
            h == img.height,
            pairs == (h as int + 1) / 2,
            0 <= k <= pairs,
            base == old(stdout).inner_buf@,
            stdout.inner_buf@ == base + halfblock_rows(px, w as int, h as int, k as int, truecolor),
        decreases pairs - k,
    {
        let ghost row_base = stdout.inner_buf@;
        let top_y = 2 * k;
        proof {
            assert(2 * (k as int) < h as int);
        }
        let has_bottom = top_y + 1 < h;
        let mut x: u32 = 0;
        while x < w
            invariant
                img.wf(),
                px == img.pixels@,
                w == img.width,
                h == img.height,
                0 <= k,
                top_y == 2 * (k as int),
                top_y < h,
                has_bottom == (2 * (k as int) + 1 < h as int),
                0 <= x <= w,
                stdout.inner_buf@ == row_base + halfrow_bytes(
                    px,
                    w as int,
                    h as int,
                    k as int,
                    x as int,
                    truecolor,
                ),
            decreases w - x,
        {
            let top = opt_color_at(img, x, top_y, truecolor);
            if has_bottom {
                let bottom = opt_color_at(img, x, top_y + 1, truecolor);
                self_emit(stdout, top, bottom, false);
            } else {
                self_emit(stdout, top, None, true);
            }
            x = x + 1;
        }
        if has_bottom && top_y + 1 < h - 1 {
            stdout.reset();
            stdout.inner_buf.push(0x0d);
            stdout.inner_buf.push(0x0a);
        }
        proof {
            assert(stdout.inner_buf@ =~= base + halfblock_rows(
                px,
                w as int,
                h as int,
                k as int + 1,
                truecolor,
            ));
        }
        k = k + 1;
    }
    stdout.reset();
    stdout.inner_buf.push(0x0a);
    proof {
        assert(halfblock_rows(px, w as int, h as int, pairs as int, truecolor) == halfblock_rows(
            px,
            w as int,
            h as int,
            (h as int + 1) / 2,
            truecolor,
        ));
        assert(stdout.inner_buf@ =~= base + halfblock_bytes(
            px,
            w as int,
            h as int,
            truecolor,
        ));
    }
}

/// Forwarding helper so the loop body borrows cleanly.
fn self_emit(stdout: &mut StringWriter, top: Option<AnsiColor>, bottom: Option<AnsiColor>, last: bool)
    ensures
        final(stdout).inner_buf@ == old(stdout).inner_buf@ + cell_bytes(top, bottom, last),
{
    stdout.emit_cell(top, bottom, last);
}

/// Renders an image into a half-block ANSI string.
pub fn to_ansi(img: &Image, truecolor: bool) -> (r: Result<String, String>)
    requires
        img.wf(),
    ensures
        r matches Ok(s) && s@ == lossy_utf8(
            halfblock_bytes(img.pixels@, img.width as int, img.height as int, truecolor),
        ),
{
    let mut stdout = StringWriter::new();
    make_ansi(&mut stdout, img, truecolor);
    proof {
        assert(stdout.inner_buf@ =~= halfblock_bytes(
            img.pixels@,
            img.width as int,
            img.height as int,
            truecolor,
        ));
    }
    Ok(stdout.read())
}

/// At least one: terminal cell counts never drop to zero.
pub open spec fn spec_max1(v: int) -> int {
    if v < 1 {
        1
    } else {
        v
    }
}

/// Scales an image size to fit within terminal bounds whose cells are
/// twice as tall as wide, preserving aspect ratio, never scaling up: the
/// result is in terminal cells.
pub open spec fn spec_fit_dimensions(w: int, h: int, bound_w: int, bound_h0: int) -> (int, int) {
    let bh = 2 * bound_h0;
    if w <= bound_w && h <= bh {
        (w, spec_max1(h / 2 + h % 2))
    } else {
        if bound_w * h <= w * bh {
            (bound_w, spec_max1((h * bound_w / w) / 2))
        } else {
            (w * bh / h, spec_max1(bh / 2))
        }
    }
}

/// Scales an image size into terminal-cell bounds, preserving aspect
/// ratio and never scaling up.
pub fn fit_dimensions(width: u32, height: u32, bound_width: u32, bound_height: u32) -> (r: (
    u32,
    u32,
))
    requires
        width >= 1,
        height >= 1,
    ensures
        r.0 == spec_fit_dimensions(
            width as int,
            height as int,
            bound_width as int,
            bound_height as int,
        ).0,
        r.1 == spec_fit_dimensions(
            width as int,
            height as int,
            bound_width as int,
            bound_height as int,
        ).1,
{
    let bh: u64 = 2 * (bound_height as u64);
    if (width as u64) <= (bound_width as u64) && (height as u64) <= bh {
        let half = height / 2 + height % 2;
        let r1 = if half < 1 {
            1
        } else {
            half
        };
        return (width, r1);
    }
    proof {
        crate::raster::lemma_mul_le(bound_width as int, height as int, 0xffffffff, 0xffffffff);
        crate::raster::lemma_mul_le(width as int, bh as int, 0xffffffff, 0x1fffffffe);
        crate::raster::lemma_mul_le(height as int, bound_width as int, 0xffffffff, 0xffffffff);
    }
    let ratio = (width as u128) * (bh as u128);
    let nratio = (bound_width as u128) * (height as u128);
    if nratio <= ratio {
        let prod = (height as u128) * (bound_width as u128);
        proof {
            assert(prod == nratio as int) by (nonlinear_arith)
                requires
                    prod == height as int * bound_width as int,
                    nratio == bound_width as int * height as int,
            ;
            vstd::arithmetic::div_mod::lemma_div_is_ordered(
                prod as int,
                ratio as int,
                width as int,
            );
            vstd::arithmetic::div_mod::lemma_div_multiples_vanish(bh as int, width as int);
            assert(ratio as int == width as int * bh as int);
            assert(width as int * bh as int == (width as int) * (bh as int));
            assert((width as int * bh as int) / width as int == bh as int);
        }
        let intermediate = prod / (width as u128);
        let half = (intermediate / 2) as u32;
        let r1 = if half < 1 {
            1u32
        } else {
            half
        };
        (bound_width, r1)
    } else {
        let prod = (width as u128) * (bh as u128);
        proof {
            vstd::arithmetic::div_mod::lemma_div_is_ordered(
                prod as int,
                nratio as int,
                height as int,
            );
            vstd::arithmetic::div_mod::lemma_div_multiples_vanish(
                bound_width as int,
                height as int,
            );
            assert(nratio as int == bound_width as int * height as int);
            assert(bound_width as int * height as int == height as int * bound_width as int)
                by (nonlinear_arith);
            assert((height as int * bound_width as int) / height as int == bound_width as int);
        }
        let intermediate = (prod / (height as u128)) as u32;
        let half = (bh / 2) as u32;
        proof {
            vstd::arithmetic::div_mod::lemma_div_multiples_vanish(bound_height as int, 2);
        }
        let r1 = if half < 1 {
            1u32
        } else {
            half
        };
        (intermediate, r1)
    }
}

/// The printed size in terminal cells that best matches the user's wishes:
/// with no wish, the terminal size (minus one row when it would be fully
/// used); with one bound, a fit inside it; with both, exactly that size.
pub open spec fn spec_find_best_fit(
    iw: int,
    ih: int,
    width: Option<u32>,
    height: Option<u32>,
    tw: int,
    th: int,
) -> (int, int) {
    match (width, height) {
        (Option::None, Option::None) => {
            let f = spec_fit_dimensions(iw, ih, tw, th);
            if f.1 == th {
                (f.0, f.1 - 1)
            } else {
                f
            }
        }
        (Option::Some(w), Option::None) => spec_fit_dimensions(iw, ih, w as int, ih),
        (Option::None, Option::Some(h)) => spec_fit_dimensions(iw, ih, iw, h as int),
        (Option::Some(w), Option::Some(h)) => (w as int, h as int),
    }
}

/// Chooses the printed size in terminal cells for an image.
pub fn find_best_fit(
    img_w: u32,
    img_h: u32,
    width: Option<u32>,
    height: Option<u32>,
    term_w: u16,
    term_h: u16,
) -> (r: (u32, u32))
    requires
        img_w >= 1,
        img_h >= 1,
        term_h >= 1,
    ensures
        r.0 == spec_find_best_fit(
            img_w as int,
            img_h as int,
            width,
            height,
            term_w as int,
            term_h as int,
        ).0,
        r.1 == spec_find_best_fit(
            img_w as int,
            img_h as int,
            width,
            height,
            term_w as int,
            term_h as int,
        ).1,
{
    match (width, height) {
        (None, None) => {
            let (w, h) = fit_dimensions(img_w, img_h, term_w as u32, term_h as u32);
            let h = if h == term_h as u32 {
                h - 1
            } else {
                h
            };
            (w, h)
        }
        (Some(w), None) => fit_dimensions(img_w, img_h, w, img_h),
        (None, Some(h)) => fit_dimensions(img_w, img_h, img_w, h),
        (Some(w), Some(h)) => (w, h),
    }
}

} // verus!
