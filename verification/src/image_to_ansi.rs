//! The image-to-text direction: a decoded raster image is downsampled onto
//! a character grid, and each grid cell becomes one colored character in an
//! ANSI escape string.

use vstd::prelude::*;

use crate::color::{rgba, Rgba};
use crate::raster::Image;
use crate::textbuf::{dec_digits, push_decimal_u8, push_str_chars, string_from_chars};

verus! {

/// An error of the image-to-text conversion, carrying one descriptive
/// message.
#[derive(Debug)]
pub struct AnsiImageError {
    pub message: String,
}

impl AnsiImageError {
    /// An error with the given message.
    pub fn new(msg: &str) -> (e: AnsiImageError)
        ensures
            e.message@ == msg@,
    {
        AnsiImageError { message: String::from_str(msg) }
    }

    /// An error carrying an already-formatted message.
    pub fn from_string(msg: String) -> (e: AnsiImageError)
        ensures
            e.message@ == msg@,
    {
        AnsiImageError { message: msg }
    }
}

/// The display-mode flags carried by each output character.
#[derive(Debug, Copy, Clone, PartialEq, Eq, Structural)]
pub enum DisplayMode {
    NORMAL,
    REVERSE,
    BLINK,
}

impl DisplayMode {
    /// The bit this mode contributes to a flag byte.
    pub open spec fn spec_flag(self) -> u8 {
        match self {
            DisplayMode::NORMAL => 0x00,
            DisplayMode::REVERSE => 0x01,
            DisplayMode::BLINK => 0x02,
        }
    }

    /// The bit this mode contributes to a flag byte.
    pub fn flag(self) -> (f: u8)
        ensures
            f == self.spec_flag(),
    {
        match self {
            DisplayMode::NORMAL => 0x00,
            DisplayMode::REVERSE => 0x01,
            DisplayMode::BLINK => 0x02,
        }
    }
}

/// The flag byte for an output run: colors go to the background (reverse)
/// when no character was supplied or when asked to, and may blink.
pub open spec fn spec_display_mode(has_character: bool, reverse: bool, blink: bool) -> u8 {
    ((if has_character {
        if reverse {
            1int
        } else {
            0int
        }
    } else {
        1int
    }) + (if blink {
        2int
    } else {
        0int
    })) as u8
}

/// Computes the display-mode flag byte.
pub fn get_display_mode(character: Option<String>, reverse: bool, blink: bool) -> (m: u8)
    ensures
        m == spec_display_mode(character is Some, reverse, blink),
{
    let mut mode: u8 = 0;
    if let Some(_) = character {
        mode = mode | (if reverse {
            DisplayMode::REVERSE.flag()
        } else {
            DisplayMode::NORMAL.flag()
        });
    } else {
        mode = mode | DisplayMode::REVERSE.flag();
    }
    mode = mode | (if blink {
        DisplayMode::BLINK.flag()
    } else {
        DisplayMode::NORMAL.flag()
    });
    proof {
        assert(0u8 | 0u8 == 0u8) by (bit_vector);
        assert(0u8 | 1u8 == 1u8) by (bit_vector);
        assert(0u8 | 2u8 == 2u8) by (bit_vector);
        assert(1u8 | 0u8 == 1u8) by (bit_vector);
        assert(1u8 | 2u8 == 3u8) by (bit_vector);
    }
    mode
}

/// One averaged color sample with its display-mode flags.
#[derive(Debug, Copy, Clone, PartialEq, Eq, Structural)]
pub struct ColorChar {
    pub red: u8,
    pub green: u8,
    pub blue: u8,
    pub mode: u8,
}

impl ColorChar {
    pub fn new(r: u8, g: u8, b: u8, mode: u8) -> (c: ColorChar)
        ensures
            c == (ColorChar { red: r, green: g, blue: b, mode }),
    {
        ColorChar { red: r, green: g, blue: b, mode }
    }

    /// The ANSI escape that selects this color: blink flag, then the
    /// foreground or background truecolor introducer, then the channels.
    pub open spec fn spec_code(self) -> Seq<char> {
        seq!['\u{1b}', '['] + (if self.mode & 2 != 0 {
            seq!['5', ';']
        } else {
            Seq::<char>::empty()
        }) + (if self.mode & 1 != 0 {
            seq!['4', '8']
        } else {
            seq!['3', '8']
        }) + seq![';', '2', ';'] + dec_digits(self.red as int) + seq![';'] + dec_digits(
            self.green as int,
        ) + seq![';'] + dec_digits(self.blue as int) + seq!['m']
    }

    /// Appends this color's ANSI escape.
    pub fn push_code(self, v: &mut Vec<char>)
        ensures
            final(v)@ == old(v)@ + self.spec_code(),
    {
        v.push('\u{1b}');
        v.push('[');
        if self.mode & 2 != 0 {
            v.push('5');
            v.push(';');
        }
        if self.mode & 1 != 0 {
            v.push('4');
            v.push('8');
        } else {
            v.push('3');
            v.push('8');
        }
        v.push(';');
        v.push('2');
        v.push(';');
        push_decimal_u8(v, self.red);
        v.push(';');
        push_decimal_u8(v, self.green);
        v.push(';');
        push_decimal_u8(v, self.blue);
        v.push('m');
        proof {
            assert(v@ =~= old(v)@ + self.spec_code());
        }
    }

    /// The ANSI escape that selects this color, as a string.
    pub fn ansi_code(self) -> (s: String)
        ensures
            s@ == self.spec_code(),
    {
        let mut v: Vec<char> = Vec::new();
        self.push_code(&mut v);
        string_from_chars(&v)
    }
}

/// The escape that restores default blink, foreground and background.
pub open spec fn reset_code() -> Seq<char> {
    seq!['\u{1b}', '[', '2', '5', ';', '3', '9', ';', '4', '9', 'm']
}

fn push_reset_code(v: &mut Vec<char>)
    ensures
        final(v)@ == old(v)@ + reset_code(),
{
    v.push('\u{1b}');
    v.push('[');
    v.push('2');
    v.push('5');
    v.push(';');
    v.push('3');
    v.push('9');
    v.push(';');
    v.push('4');
    v.push('9');
    v.push('m');
    proof {
        assert(v@ =~= old(v)@ + reset_code());
    }
}

/// The number of grapheme clusters of a character sequence, as
/// unicode-segmentation's extended segmentation counts them.
pub uninterp spec fn grapheme_count_of(s: Seq<char>) -> int;

/// Relies on unicode-segmentation's `graphemes`: the clusters of a string
/// depend on its characters alone, and an empty string has none.
#[verifier::external_body]
fn grapheme_count(s: &str) -> (n: usize)
    ensures
        n == grapheme_count_of(s@),
        s@.len() == 0 ==> n == 0,
{
    unicode_segmentation::UnicodeSegmentation::graphemes(s, true).count()
}

/// The decoded form of an image byte stream: its pixel size and its raw
/// 8-bit RGBA samples in row-major order, four per pixel.
pub uninterp spec fn decoded_rgba(data: Seq<u8>) -> Option<(u32, u32, Seq<u8>)>;

/// Relies on image's `load_from_memory`, `DynamicImage::to_rgba8` and
/// `ImageBuffer::into_raw`: the decoded size and samples depend on the
/// bytes alone, and the raw buffer holds exactly four samples per pixel.
#[verifier::external_body]
fn decode_rgba(data: &Vec<u8>) -> (r: Result<(u32, u32, Vec<u8>), String>)
    ensures
        r is Ok <==> decoded_rgba(data@) is Some,
        r matches Ok((w, h, px)) ==> decoded_rgba(data@) == Some((w, h, px@)) && px@.len() == 4
            * (w as int) * (h as int),
{
    match image::load_from_memory(data.as_slice()) {
        Ok(img) => {
            let buf = img.to_rgba8();
            let (w, h) = buf.dimensions();
            Ok((w, h, buf.into_raw()))
        }
        Err(e) => Err(e.to_string()),
    }
}

/// The pixel sequence held by a raw row-major RGBA sample buffer.
pub open spec fn pixels_of_raw(w: int, h: int, raw: Seq<u8>) -> Seq<Rgba> {
    Seq::new((w * h) as nat, |i: int| rgba(raw[4 * i], raw[4 * i + 1], raw[4 * i + 2], raw[4 * i + 3]))
}

/// Builds an image from a decoded raw RGBA sample buffer.
pub fn image_from_rgba_bytes(w: u32, h: u32, raw: &Vec<u8>) -> (img: Image)
    requires
        raw@.len() == 4 * (w as int) * (h as int),
    ensures
        img.wf(),
        img.width == w,
        img.height == h,
        img.pixels@ == pixels_of_raw(w as int, h as int, raw@),
{
    let rl = raw.len();
    proof {
        assert(4 * (w as int) * (h as int) == 4 * ((w as int) * (h as int)))
            by (nonlinear_arith);
        assert((w as int) * (h as int) >= 0) by (nonlinear_arith);
    }
    let count = (w as usize) * (h as usize);
    let mut pixels: Vec<Rgba> = Vec::new();
    let mut i: usize = 0;
    while i < count
        invariant
            count == w as int * h as int,
            rl == raw@.len(),
            raw@.len() == 4 * count,
            0 <= i <= count,
            pixels@.len() == i,
            forall|j: int|
                0 <= j < i ==> pixels@[j] == rgba(
                    raw@[4 * j],
                    raw@[4 * j + 1],
                    raw@[4 * j + 2],
                    raw@[4 * j + 3],
                ),
        decreases count - i,
    {
        let base = 4 * i;
        pixels.push(Rgba::new(raw[base], raw[base + 1], raw[base + 2], raw[base + 3]));
        i = i + 1;
    }
    let img = Image { width: w, height: h, pixels };
    proof {
        assert(img.pixels@ =~= pixels_of_raw(w as int, h as int, raw@));
    }
    img
}

/// One channel of a pixel: 0 is red, 1 is green, 2 is blue.
pub open spec fn pixel_channel(px: Seq<Rgba>, w: int, x: int, y: int, c: int) -> int {
    let p = px[y * w + x];
    if c == 0 {
        p.r as int
    } else if c == 1 {
        p.g as int
    } else {
        p.b as int
    }
}

/// The channel sum over one pixel row segment.
pub open spec fn row_sum(px: Seq<Rgba>, w: int, x0: int, y: int, rw: int, c: int) -> int
    decreases rw,
{
    if rw <= 0 {
        0
    } else {
        row_sum(px, w, x0, y, rw - 1, c) + pixel_channel(px, w, x0 + rw - 1, y, c)
    }
}

/// The channel sum over a pixel rectangle.
pub open spec fn rect_sum(
    px: Seq<Rgba>,
    w: int,
    x0: int,
    y0: int,
    rw: int,
    rh: int,
    c: int,
) -> int
    decreases rh,
{
    if rh <= 0 {
        0
    } else {
        rect_sum(px, w, x0, y0, rw, rh - 1, c) + row_sum(px, w, x0, y0 + rh - 1, rw, c)
    }
}

/// The averaged color of a pixel rectangle, with the given mode flags.
pub open spec fn area_color(
    px: Seq<Rgba>,
    w: int,
    x0: int,
    y0: int,
    rw: int,
    rh: int,
    mode: u8,
) -> ColorChar {
    ColorChar {
        red: (rect_sum(px, w, x0, y0, rw, rh, 0) / (rw * rh)) as u8,
        green: (rect_sum(px, w, x0, y0, rw, rh, 1) / (rw * rh)) as u8,
        blue: (rect_sum(px, w, x0, y0, rw, rh, 2) / (rw * rh)) as u8,
        mode,
    }
}

/// A channel sum over a rectangle of pixels with 8-bit channels is at most
/// 255 per pixel.
proof fn lemma_rect_sum_bound(px: Seq<Rgba>, w: int, x0: int, y0: int, rw: int, rh: int, c: int)
    requires
        rw >= 0,
        rh >= 0,
    ensures
        0 <= rect_sum(px, w, x0, y0, rw, rh, c) <= 255 * rw * rh,
    decreases rh,
{
    if rh == 0 {
        assert(255 * rw * 0 == 0) by (nonlinear_arith);
    } else {
        lemma_rect_sum_bound(px, w, x0, y0, rw, rh - 1, c);
        lemma_row_sum_bound(px, w, x0, y0 + rh - 1, rw, c);
        assert(255 * rw * (rh - 1) + 255 * rw == 255 * rw * rh) by (nonlinear_arith);
    }
}

proof fn lemma_row_sum_bound(px: Seq<Rgba>, w: int, x0: int, y: int, rw: int, c: int)
    requires
        rw >= 0,
    ensures
        0 <= row_sum(px, w, x0, y, rw, c) <= 255 * rw,
    decreases rw,
{
    if rw > 0 {
        lemma_row_sum_bound(px, w, x0, y, rw - 1, c);
        assert(0 <= pixel_channel(px, w, x0 + rw - 1, y, c) <= 255);
    }
}

/// Averages the pixels of a rectangle into one color sample.
pub fn get_char_for_area(
    img: &Image,
    x_pos: u32,
    y_pos: u32,
    width: u32,
    height: u32,
    mode: u8,
) -> (c: ColorChar)
    requires
        img.wf(),
        1 <= width,
        1 <= height,
        x_pos + width <= img.width,
        y_pos + height <= img.height,
    ensures
        c == area_color(
            img.pixels@,
            img.width as int,
            x_pos as int,
            y_pos as int,
            width as int,
            height as int,
            mode,
        ),
{
    let ghost px = img.pixels@;
    let ghost iw = img.width as int;
    let mut r: u128 = 0;
    let mut g: u128 = 0;
    let mut b: u128 = 0;

    proof {
        lemma_rect_sum_bound(px, iw, x_pos as int, y_pos as int, width as int, height as int, 0);
    }
    let mut dy: u32 = 0;
    while dy < height
        invariant
            img.wf(),
            px == img.pixels@,
            iw == img.width as int,
            1 <= width,
            1 <= height,
            x_pos + width <= img.width,
            y_pos + height <= img.height,
            0 <= dy <= height,
            r == rect_sum(px, iw, x_pos as int, y_pos as int, width as int, dy as int, 0),
            g == rect_sum(px, iw, x_pos as int, y_pos as int, width as int, dy as int, 1),
            b == rect_sum(px, iw, x_pos as int, y_pos as int, width as int, dy as int, 2),
        decreases height - dy,
    {
        let y = y_pos + dy;
        let mut dx: u32 = 0;
        proof {
            lemma_rect_sum_bound(px, iw, x_pos as int, y_pos as int, width as int, dy as int, 0);
            lemma_rect_sum_bound(px, iw, x_pos as int, y_pos as int, width as int, dy as int, 1);
            lemma_rect_sum_bound(px, iw, x_pos as int, y_pos as int, width as int, dy as int, 2);
            lemma_mul_le_255(width as int, dy as int);
        }
        while dx < width
            invariant
                img.wf(),
                px == img.pixels@,
                iw == img.width as int,
                1 <= width,
                1 <= height,
                x_pos + width <= img.width,
                y_pos + height <= img.height,
                0 <= dy < height,
                y == y_pos + dy,
                0 <= dx <= width,
                r == rect_sum(px, iw, x_pos as int, y_pos as int, width as int, dy as int, 0)
                    + row_sum(px, iw, x_pos as int, y as int, dx as int, 0),
                g == rect_sum(px, iw, x_pos as int, y_pos as int, width as int, dy as int, 1)
                    + row_sum(px, iw, x_pos as int, y as int, dx as int, 1),
                b == rect_sum(px, iw, x_pos as int, y_pos as int, width as int, dy as int, 2)
                    + row_sum(px, iw, x_pos as int, y as int, dx as int, 2),
            decreases width - dx,
        {
            let x = x_pos + dx;
            proof {
                crate::raster::lemma_rowmajor_bound(
                    x as int,
                    y as int,
                    img.width as int,
                    img.height as int,
                );
                lemma_rect_sum_bound(
                    px,
                    iw,
                    x_pos as int,
                    y_pos as int,
                    width as int,
                    dy as int,
                    0,
                );
                lemma_rect_sum_bound(
                    px,
                    iw,
                    x_pos as int,
                    y_pos as int,
                    width as int,
                    dy as int,
                    1,
                );
                lemma_rect_sum_bound(
                    px,
                    iw,
                    x_pos as int,
                    y_pos as int,
                    width as int,
                    dy as int,
                    2,
                );
                lemma_row_sum_bound(px, iw, x_pos as int, y as int, dx as int, 0);
                lemma_row_sum_bound(px, iw, x_pos as int, y as int, dx as int, 1);
                lemma_row_sum_bound(px, iw, x_pos as int, y as int, dx as int, 2);
                lemma_mul_le_255(width as int, dy as int);
                lemma_mul_le_255(1, dx as int);
            }
            let plen = img.pixels.len();
            let idx = (y as usize) * (img.width as usize) + (x as usize);
            let p = img.pixels[idx];
            r = r + (p.r as u128);
            g = g + (p.g as u128);
            b = b + (p.b as u128);
            dx = dx + 1;
        }
        dy = dy + 1;
    }

    proof {
        lemma_rect_sum_bound(px, iw, x_pos as int, y_pos as int, width as int, height as int, 0);
        lemma_rect_sum_bound(px, iw, x_pos as int, y_pos as int, width as int, height as int, 1);
        lemma_rect_sum_bound(px, iw, x_pos as int, y_pos as int, width as int, height as int, 2);
        lemma_avg_bound(r as int, width as int, height as int);
        lemma_avg_bound(g as int, width as int, height as int);
        lemma_avg_bound(b as int, width as int, height as int);
    }
    proof {
        crate::raster::lemma_mul_le(width as int, height as int, 0xffffffff, 0xffffffff);
        assert(1 <= width as int * height as int) by (nonlinear_arith)
            requires
                1 <= width as int,
                1 <= height as int,
        ;
    }
    let sample_count = (width as u128) * (height as u128);
    let red = (r / sample_count) as u8;
    let green = (g / sample_count) as u8;
    let blue = (b / sample_count) as u8;
    ColorChar { red, green, blue, mode }
}

/// A sum of at most 255 per pixel divides to at most 255.
proof fn lemma_avg_bound(sum: int, rw: int, rh: int)
    requires
        1 <= rw,
        1 <= rh,
        0 <= sum <= 255 * rw * rh,
    ensures
        0 <= sum / (rw * rh) <= 255,
{
    assert(1 <= rw * rh) by (nonlinear_arith)
        requires
            1 <= rw,
            1 <= rh,
    ;
    assert(255 * rw * rh == 255 * (rw * rh)) by (nonlinear_arith);
    vstd::arithmetic::div_mod::lemma_div_is_ordered(sum, 255 * (rw * rh), rw * rh);
    vstd::arithmetic::div_mod::lemma_div_by_multiple(255, rw * rh);
    vstd::arithmetic::div_mod::lemma_div_pos_is_pos(sum, rw * rh);
}

proof fn lemma_mul_le_255(a: int, b: int)
    by (nonlinear_arith)
    requires
        0 <= a <= 0xffffffff,
        0 <= b <= 0xffffffff,
    ensures
        0 <= 255 * a * b,
        255 * a * b <= 0xfdfffffffffffffe04000000,
{
}

/// The pixel size an image is fitted to: kept as is when it fits inside
/// the console area, otherwise scaled down preserving aspect ratio along
/// the tighter direction.
pub open spec fn spec_fit_target(iw: int, ih: int, cw_px: int, ch_px: int) -> (int, int) {
    if cw_px > iw && ch_px > ih {
        (iw, ih)
    } else if ch_px * iw > cw_px * ih {
        (cw_px, ih * cw_px / iw)
    } else {
        (iw * ch_px / ih, ch_px)
    }
}

/// The sampling layout that a conversion uses: the sample rectangle size
/// and the number of sample chunks along each axis.
#[verifier::ext_equal]
pub ghost struct SamplePlan {
    pub sample_w: int,
    pub sample_h: int,
    pub chunks_x: int,
    pub chunks_y: int,
}

/// Derives the sampling layout from the image size, the console size in
/// characters, and the font cell size in pixels.
pub open spec fn spec_plan(iw: int, ih: int, cw: int, ch: int, fw: int, fh: int) -> SamplePlan {
    let cw_px = cw * fw;
    let ch_px = ch * fh;
    let t = spec_fit_target(iw, ih, cw_px, ch_px);
    let tw = t.0 - t.0 % fw;
    let th = t.1 - t.1 % fh;
    let twc = tw / fw;
    let thc = th / fh;
    let sw = if twc > 0 {
        iw / twc
    } else {
        0
    };
    let sh = if thc > 0 {
        ih / thc
    } else {
        0
    };
    let ncx = if sw > 0 {
        iw / sw
    } else {
        0
    };
    let ncy = if sh > 0 {
        ih / sh
    } else {
        0
    };
    SamplePlan { sample_w: sw, sample_h: sh, chunks_x: ncx, chunks_y: ncy }
}

/// Whether the sampling layout is usable: every sample rectangle holds at
/// least one pixel.
pub open spec fn plan_ok(p: SamplePlan) -> bool {
    p.sample_w > 0 && p.sample_h > 0
}

/// One output chunk: the color escape of the averaged sample rectangle,
/// followed by the output character.
pub open spec fn chunk_chars(
    px: Seq<Rgba>,
    iw: int,
    x0: int,
    y0: int,
    sw: int,
    sh: int,
    mode: u8,
    oc: Seq<char>,
) -> Seq<char> {
    area_color(px, iw, x0, y0, sw, sh, mode).spec_code() + oc
}

/// The first `ncx` chunks of one output row, left to right.
pub open spec fn row_chars(
    px: Seq<Rgba>,
    iw: int,
    y0: int,
    sw: int,
    sh: int,
    ncx: int,
    mode: u8,
    oc: Seq<char>,
) -> Seq<char>
    decreases ncx,
{
    if ncx <= 0 {
        Seq::<char>::empty()
    } else {
        row_chars(px, iw, y0, sw, sh, ncx - 1, mode, oc) + chunk_chars(
            px,
            iw,
            (ncx - 1) * sw,
            y0,
            sw,
            sh,
            mode,
            oc,
        )
    }
}

/// The first `ncy` output rows, each closed by a reset escape and a line
/// feed.
pub open spec fn ansi_rows(
    px: Seq<Rgba>,
    iw: int,
    sw: int,
    sh: int,
    ncx: int,
    ncy: int,
    mode: u8,
    oc: Seq<char>,
) -> Seq<char>
    decreases ncy,
{
    if ncy <= 0 {
        Seq::<char>::empty()
    } else {
        ansi_rows(px, iw, sw, sh, ncx, ncy - 1, mode, oc) + row_chars(
            px,
            iw,
            (ncy - 1) * sh,
            sw,
            sh,
            ncx,
            mode,
            oc,
        ) + reset_code() + seq!['\n']
    }
}

/// What the conversion yields for each input: which malformed argument
/// produces which error, and the exact output text on success.
pub open spec fn img_ansi_post(
    r: Result<String, AnsiImageError>,
    data: Seq<u8>,
    cons_w: u32,
    cons_h: u32,
    fw: u32,
    fh: u32,
    oc: Seq<char>,
    mode: u8,
) -> bool {
    let dims_ok = cons_w != 0 && cons_h != 0 && fw != 0 && fh != 0;
    let char_ok = grapheme_count_of(oc) <= 1;
    let dec = decoded_rgba(data);
    &&& cons_w == 0 ==> (r matches Err(e) && e.message@ == "Console width is zero"@)
    &&& cons_w != 0 && cons_h == 0 ==> (r matches Err(e) && e.message@
        == "Console height is zero"@)
    &&& cons_w != 0 && cons_h != 0 && fw == 0 ==> (r matches Err(e) && e.message@
        == "Font pixel width is zero"@)
    &&& cons_w != 0 && cons_h != 0 && fw != 0 && fh == 0 ==> (r matches Err(e) && e.message@
        == "Font pixel height is zero"@)
    &&& dims_ok && !char_ok ==> (r matches Err(e) && e.message@
        == "Ouput character must be length one"@)
    &&& dims_ok && char_ok && dec is None ==> r is Err
    &&& dims_ok && char_ok ==> (dec matches Some((w, h, raw)) ==> {
        let plan = spec_plan(w as int, h as int, cons_w as int, cons_h as int, fw as int, fh as int);
        if plan_ok(plan) {
            r matches Ok(s) && s@ == ansi_rows(
                pixels_of_raw(w as int, h as int, raw),
                w as int,
                plan.sample_w,
                plan.sample_h,
                plan.chunks_x,
                plan.chunks_y,
                mode,
                oc,
            )
        } else {
            r matches Err(e) && e.message@ == "Image does not fit the requested grid"@
        }
    })
}

/// A positive number of chunks keeps every sample rectangle inside the
/// image.
proof fn lemma_chunk_bound(total: int, s: int, k: int)
    requires
        0 < s,
        0 <= k,
        k < total / s,
        0 <= total,
    ensures
        0 <= k * s,
        k * s + s == (k + 1) * s,
        (k + 1) * s <= total,
{
    vstd::arithmetic::div_mod::lemma_fundamental_div_mod(total, s);
    vstd::arithmetic::div_mod::lemma_remainder_lower(total, s);
    assert(k * s + s == (k + 1) * s) by (nonlinear_arith);
    assert(0 <= k * s) by (nonlinear_arith)
        requires
            0 <= k,
            0 < s,
    ;
    assert((k + 1) * s <= (total / s) * s) by (nonlinear_arith)
        requires
            k + 1 <= total / s,
            0 < s,
    ;
    assert((total / s) * s <= total) by (nonlinear_arith)
        requires
            total == s * (total / s) + total % s,
            total % s >= 0,
    ;
}

/// Converts a decodable image byte stream into colored-character ANSI text
/// on a `cons_w` by `cons_h` character grid with `fw` by `fh` pixel font
/// cells, printing `out_char` in each cell.
pub fn img_to_ansi(
    image_buffer: &Vec<u8>,
    cons_w: u32,
    cons_h: u32,
    font_w_px: u32,
    font_h_px: u32,
    out_char: &String,
    mode: u8,
) -> (r: Result<String, AnsiImageError>)
    requires
        cons_w as int * font_w_px as int <= u32::MAX,
        cons_h as int * font_h_px as int <= u32::MAX,
    ensures
        img_ansi_post(
            r,
            image_buffer@,
            cons_w,
            cons_h,
            font_w_px,
            font_h_px,
            out_char@,
            mode,
        ),
{
    if cons_w == 0 {
        return Err(AnsiImageError::new("Console width is zero"));
    }
    if cons_h == 0 {
        return Err(AnsiImageError::new("Console height is zero"));
    }
    if font_w_px == 0 {
        return Err(AnsiImageError::new("Font pixel width is zero"));
    }
    if font_h_px == 0 {
        return Err(AnsiImageError::new("Font pixel height is zero"));
    }
    if grapheme_count(out_char.as_str()) > 1 {
        return Err(AnsiImageError::new("Ouput character must be length one"));
    }

    let (iw, ih, raw) = match decode_rgba(image_buffer) {
        Ok(t) => t,
        Err(m) => {
            return Err(AnsiImageError::from_string(m));
        }
    };
    let img = image_from_rgba_bytes(iw, ih, &raw);
    let ghost px = img.pixels@;

    // Pixel size of the requested console area.
    let cons_w_px = cons_w * font_w_px;
    let cons_h_px = cons_h * font_h_px;
    proof {
        assert(cons_w_px >= 1 && cons_h_px >= 1) by (nonlinear_arith)
            requires
                cons_w_px == cons_w as int * font_w_px as int,
                cons_h_px == cons_h as int * font_h_px as int,
                cons_w >= 1,
                cons_h >= 1,
                font_w_px >= 1,
                font_h_px >= 1,
        ;
    }

    // Fit the image to the console area.
    proof {
        crate::raster::lemma_mul_le(cons_h_px as int, iw as int, 0xffffffff, 0xffffffff);
        crate::raster::lemma_mul_le(cons_w_px as int, ih as int, 0xffffffff, 0xffffffff);
        crate::raster::lemma_mul_le(ih as int, cons_w_px as int, 0xffffffff, 0xffffffff);
        crate::raster::lemma_mul_le(iw as int, cons_h_px as int, 0xffffffff, 0xffffffff);
    }
    let fit_whole = cons_w_px > iw && cons_h_px > ih;
    let (targ_w0, targ_h0): (u64, u64) = if fit_whole {
        (iw as u64, ih as u64)
    } else if (cons_h_px as u64) * (iw as u64) > (cons_w_px as u64) * (ih as u64) {
        proof {
            assert(iw as int >= 1) by (nonlinear_arith)
                requires
                    (cons_h_px as int) * (iw as int) > (cons_w_px as int) * (ih as int),
                    cons_h_px as int >= 0,
                    cons_w_px as int >= 0,
                    ih as int >= 0,
                    iw as int >= 0,
            ;
        }
        ((cons_w_px as u64), (ih as u64) * (cons_w_px as u64) / (iw as u64))
    } else {
        proof {
            assert(ih as int >= 1) by (nonlinear_arith)
                requires
                    !(cons_w_px > iw && cons_h_px > ih),
                    (cons_h_px as int) * (iw as int) <= (cons_w_px as int) * (ih as int),
                    cons_h_px as int >= 1,
                    cons_w_px as int >= 1,
                    ih as int >= 0,
                    iw as int >= 0,
            ;
        }
        ((iw as u64) * (cons_h_px as u64) / (ih as u64), cons_h_px as u64)
    };
    proof {
        let t = spec_fit_target(iw as int, ih as int, cons_w_px as int, cons_h_px as int);
        assert(targ_w0 == t.0 && targ_h0 == t.1);
    }

    // Round the target down to whole character cells.
    let fw64 = font_w_px as u64;
    let fh64 = font_h_px as u64;
    proof {
        vstd::arithmetic::div_mod::lemma_fundamental_div_mod(targ_w0 as int, fw64 as int);
        vstd::arithmetic::div_mod::lemma_remainder_lower(targ_w0 as int, fw64 as int);
        assert((fw64 as int) * (targ_w0 as int / fw64 as int) >= 0) by (nonlinear_arith)
            requires
                fw64 as int > 0,
                targ_w0 as int / fw64 as int >= 0,
        ;
        vstd::arithmetic::div_mod::lemma_div_pos_is_pos(targ_w0 as int, fw64 as int);
        vstd::arithmetic::div_mod::lemma_fundamental_div_mod(targ_h0 as int, fh64 as int);
        vstd::arithmetic::div_mod::lemma_remainder_lower(targ_h0 as int, fh64 as int);
        assert((fh64 as int) * (targ_h0 as int / fh64 as int) >= 0) by (nonlinear_arith)
            requires
                fh64 as int > 0,
                targ_h0 as int / fh64 as int >= 0,
        ;
        vstd::arithmetic::div_mod::lemma_div_pos_is_pos(targ_h0 as int, fh64 as int);
    }
    let targ_w = targ_w0 - targ_w0 % fw64;
    let targ_h = targ_h0 - targ_h0 % fh64;

    // Target size in characters, then the sample rectangle per character.
    let targ_w_ch = targ_w / fw64;
    let targ_h_ch = targ_h / fh64;
    proof {
        vstd::arithmetic::div_mod::lemma_div_multiples_vanish_fancy(
            targ_w0 as int / fw64 as int,
            0,
            fw64 as int,
        );
        vstd::arithmetic::div_mod::lemma_div_multiples_vanish_fancy(
            targ_h0 as int / fh64 as int,
            0,
            fh64 as int,
        );
    }
    if targ_w_ch == 0 || targ_h_ch == 0 {
        return Err(AnsiImageError::new("Image does not fit the requested grid"));
    }
    let sample_w = (iw as u64) / targ_w_ch;
    let sample_h = (ih as u64) / targ_h_ch;
    if sample_w == 0 || sample_h == 0 {
        return Err(AnsiImageError::new("Image does not fit the requested grid"));
    }
    proof {
        vstd::arithmetic::div_mod::lemma_div_nonincreasing(iw as int, targ_w_ch as int);
        vstd::arithmetic::div_mod::lemma_div_nonincreasing(ih as int, targ_h_ch as int);
    }
    let num_x = (iw as u64) / sample_w;
    let num_y = (ih as u64) / sample_h;
    let ghost plan = spec_plan(
        iw as int,
        ih as int,
        cons_w as int,
        cons_h as int,
        font_w_px as int,
        font_h_px as int,
    );
    proof {
        assert(plan.sample_w == sample_w && plan.sample_h == sample_h && plan.chunks_x == num_x
            && plan.chunks_y == num_y);
        vstd::arithmetic::div_mod::lemma_div_pos_is_pos(iw as int, sample_w as int);
        vstd::arithmetic::div_mod::lemma_div_pos_is_pos(ih as int, sample_h as int);
        vstd::arithmetic::div_mod::lemma_div_is_ordered(sample_w as int, iw as int, sample_w as int);
        vstd::arithmetic::div_mod::lemma_div_by_self(sample_w as int);
    }

    // Sample the image chunk by chunk, row by row.
    let mut v: Vec<char> = Vec::new();
    let mut cy: u64 = 0;
    while cy < num_y
        invariant
            img.wf(),
            px == img.pixels@,
            img.width == iw,
            img.height == ih,
            sample_w >= 1,
            sample_h >= 1,
            sample_w <= u32::MAX,
            sample_h <= u32::MAX,
            num_x == iw as int / sample_w as int,
            num_y == ih as int / sample_h as int,
            num_x >= 1,
            0 <= cy <= num_y,
            v@ == ansi_rows(
                px,
                iw as int,
                sample_w as int,
                sample_h as int,
                num_x as int,
                cy as int,
                mode,
                out_char@,
            ),
        decreases num_y - cy,
    {
        proof {
            lemma_chunk_bound(ih as int, sample_h as int, cy as int);
        }
        let y_pos = cy * sample_h;
        let ghost row_done = v@;
        let mut cx: u64 = 0;
        while cx < num_x
            invariant
                img.wf(),
                px == img.pixels@,
                img.width == iw,
                img.height == ih,
                sample_w >= 1,
                sample_h >= 1,
                sample_w <= u32::MAX,
                sample_h <= u32::MAX,
                num_x == iw as int / sample_w as int,
                num_y == ih as int / sample_h as int,
                0 <= cy < num_y,
                y_pos == cy as int * sample_h as int,
                y_pos as int + sample_h as int <= ih as int,
                0 <= cx <= num_x,
                row_done == ansi_rows(
                    px,
                    iw as int,
                    sample_w as int,
                    sample_h as int,
                    num_x as int,
                    cy as int,
                    mode,
                    out_char@,
                ),
                v@ == row_done + row_chars(
                    px,
                    iw as int,
                    y_pos as int,
                    sample_w as int,
                    sample_h as int,
                    cx as int,
                    mode,
                    out_char@,
                ),
            decreases num_x - cx,
        {
            proof {
                lemma_chunk_bound(iw as int, sample_w as int, cx as int);
            }
            let x_pos = cx * sample_w;
            let cc = get_char_for_area(
                &img,
                x_pos as u32,
                y_pos as u32,
                sample_w as u32,
                sample_h as u32,
                mode,
            );
            cc.push_code(&mut v);
            push_str_chars(&mut v, out_char.as_str());
            proof {
                assert(v@ =~= row_done + row_chars(
                    px,
                    iw as int,
                    y_pos as int,
                    sample_w as int,
                    sample_h as int,
                    cx as int + 1,
                    mode,
                    out_char@,
                ));
            }
            cx = cx + 1;
        }
        push_reset_code(&mut v);
        v.push('\n');
        proof {
            assert(v@ =~= ansi_rows(
                px,
                iw as int,
                sample_w as int,
                sample_h as int,
                num_x as int,
                cy as int + 1,
                mode,
                out_char@,
            ));
        }
        cy = cy + 1;
    }

    Ok(string_from_chars(&v))
}

/// The run of the whole image-to-text conversion: a missing terminal size
/// is the one extra failure ahead of the conversion itself.
pub fn to_ansi_converter(
    file: &Vec<u8>,
    reverse_bg: bool,
    blinking: bool,
    out_width: u32,
    out_height: u32,
    character: Option<String>,
    font_w_px: u32,
    font_h_px: u32,
    term_size: Option<(u16, u16)>,
) -> (r: Result<String, AnsiImageError>)
    requires
        out_width as int * font_w_px as int <= u32::MAX,
        out_height as int * font_h_px as int <= u32::MAX,
    ensures
        term_size is None ==> (r matches Err(e) && e.message@
            == "Failed to get terminal dimensions."@),
        term_size is Some ==> img_ansi_post(
            r,
            file@,
            out_width,
            out_height,
            font_w_px,
            font_h_px,
            match character {
                Some(c) => c@,
                None => seq![' '],
            },
            spec_display_mode(character is Some, reverse_bg, blinking),
        ),
{
    let out_char: String = match &character {
        Some(c) => String::from_str(c.as_str()),
        None => {
            let s = String::from_str(" ");
            proof {
                reveal_strlit(" ");
                assert(s@ =~= seq![' ']);
            }
            s
        }
    };

    if let None = term_size {
        return Err(AnsiImageError::new("Failed to get terminal dimensions."));
    }

    let ansi_mode = get_display_mode(character, reverse_bg, blinking);

    img_to_ansi(file, out_width, out_height, font_w_px, font_h_px, &out_char, ansi_mode)
}

} // verus!
