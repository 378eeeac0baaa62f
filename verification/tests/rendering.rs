//! Tests of the compositor, the image-to-text conversion, the writer, and
//! the logging helpers.

use nu_plugin_image::color::Rgba;
use nu_plugin_image::image_to_ansi::{
    get_display_mode, img_to_ansi, to_ansi_converter, AnsiImageError, ColorChar,
};
use nu_plugin_image::logging::{set_verbose, LoggerState};
use nu_plugin_image::palette::Palette;
use nu_plugin_image::raster::render;
use nu_plugin_image::style::FontStyle;
use nu_plugin_image::writer::{
    find_best_fit, fit_dimensions, make_ansi, to_ansi, AnsiColor, ColorSpec, StringWriter,
};

fn rgba(r: u8, g: u8, b: u8, a: u8) -> Rgba {
    Rgba::new(r, g, b, a)
}

fn png_bytes(pixels: &[(u8, u8, u8, u8)], w: u32, h: u32) -> Vec<u8> {
    let mut img = image::RgbaImage::new(w, h);
    for y in 0..h {
        for x in 0..w {
            let (r, g, b, a) = pixels[(y * w + x) as usize];
            img.put_pixel(x, y, image::Rgba([r, g, b, a]));
        }
    }
    let mut buf = Vec::new();
    img.write_to(&mut std::io::Cursor::new(&mut buf), image::ImageFormat::Png)
        .expect("png encoding");
    buf
}

#[test]
fn single_character_fills_one_glyph_box() {
    // "X" with no control codes: the canvas is exactly one glyph box, all
    // primary background except where the glyph itself will be painted.
    let input = b"X".to_vec();
    let (img, cmds) = render(&input, &Palette::Test, 8, 16, None).expect("render");
    assert_eq!(img.width, 8);
    assert_eq!(img.height, 16);
    assert_eq!(img.pixels.len(), 8 * 16);
    for p in img.pixels.iter() {
        assert_eq!(*p, rgba(255, 255, 255, 255));
    }
    assert_eq!(cmds.len(), 1);
    assert_eq!(cmds[0].x, 0);
    assert_eq!(cmds[0].y, 0);
    assert_eq!(cmds[0].character, 'X');
    assert_eq!(cmds[0].font, FontStyle::Normal);
    assert_eq!(cmds[0].color, rgba(0, 0, 0, 255));
    assert!(!cmds[0].underline);
}

#[test]
fn canvas_grows_with_content_and_backgrounds_paint() {
    // Two lines; the second line's cell gets a red background.
    let input = "A\n\u{1b}[41mB".as_bytes().to_vec();
    let (img, cmds) = render(&input, &Palette::Test, 4, 6, None).expect("render");
    assert_eq!(img.width, 4 + 0);
    assert_eq!(img.height, 6 + 6);
    assert_eq!(cmds.len(), 2);
    // Pixel inside B's box carries the red background of the Test theme.
    let idx = |x: u32, y: u32| (y * img.width + x) as usize;
    assert_eq!(img.pixels[idx(0, 6)], rgba(255, 0, 0, 255));
    // Pixel in A's box keeps the primary background.
    assert_eq!(img.pixels[idx(0, 0)], rgba(255, 255, 255, 255));
}

#[test]
fn pathological_cursor_positions_refuse_to_render() {
    // A wrap width at the maximum keeps x growing to u32 limits: the
    // saturated cursor would overflow a canvas, so rendering declines.
    let mut input = Vec::new();
    input.extend_from_slice(&[b'a'; 32]);
    let r = render(&input, &Palette::Test, u32::MAX, 1, None);
    assert!(r.is_none());
}

#[test]
fn color_char_formats_its_escape() {
    let c = ColorChar::new(255, 0, 7, 0);
    assert_eq!(c.ansi_code(), "\u{1b}[38;2;255;0;7m");
    let c = ColorChar::new(1, 2, 3, 1);
    assert_eq!(c.ansi_code(), "\u{1b}[48;2;1;2;3m");
    let c = ColorChar::new(10, 20, 30, 3);
    assert_eq!(c.ansi_code(), "\u{1b}[5;48;2;10;20;30m");
    let c = ColorChar::new(10, 20, 30, 2);
    assert_eq!(c.ansi_code(), "\u{1b}[5;38;2;10;20;30m");
}

#[test]
fn display_mode_flags_combine() {
    assert_eq!(get_display_mode(Some(String::from("x")), false, false), 0);
    assert_eq!(get_display_mode(Some(String::from("x")), true, false), 1);
    assert_eq!(get_display_mode(None, false, false), 1);
    assert_eq!(get_display_mode(Some(String::from("x")), false, true), 2);
    assert_eq!(get_display_mode(None, true, true), 3);
}

#[test]
fn img_to_ansi_reports_each_bad_argument() {
    let data = png_bytes(&[(1, 2, 3, 255)], 1, 1);
    let oc = String::from(" ");
    let msg = |r: Result<String, AnsiImageError>| r.err().expect("error").message;
    assert_eq!(msg(img_to_ansi(&data, 0, 1, 1, 1, &oc, 0)), "Console width is zero");
    assert_eq!(msg(img_to_ansi(&data, 1, 0, 1, 1, &oc, 0)), "Console height is zero");
    assert_eq!(msg(img_to_ansi(&data, 1, 1, 0, 1, &oc, 0)), "Font pixel width is zero");
    assert_eq!(msg(img_to_ansi(&data, 1, 1, 1, 0, &oc, 0)), "Font pixel height is zero");
    let long = String::from("ab");
    assert_eq!(
        msg(img_to_ansi(&data, 1, 1, 1, 1, &long, 0)),
        "Ouput character must be length one"
    );
    let not_png = vec![1u8, 2, 3];
    assert!(img_to_ansi(&not_png, 1, 1, 1, 1, &oc, 0).is_err());
}

#[test]
fn img_to_ansi_averages_sample_areas() {
    // A uniformly red 2x2 image on a single character cell of 2x2 pixels.
    let data = png_bytes(&[(255, 0, 0, 255); 4], 2, 2);
    let oc = String::from("#");
    let out = img_to_ansi(&data, 1, 1, 2, 2, &oc, 0).expect("conversion");
    assert_eq!(out, "\u{1b}[38;2;255;0;0m#\u{1b}[25;39;49m\n");

    // Four pixels averaging to mid gray when sampled as one chunk.
    let data = png_bytes(
        &[(0, 0, 0, 255), (100, 100, 100, 255), (50, 50, 50, 255), (250, 250, 250, 255)],
        2,
        2,
    );
    let out = img_to_ansi(&data, 1, 1, 2, 2, &oc, 0).expect("conversion");
    assert_eq!(out, "\u{1b}[38;2;100;100;100m#\u{1b}[25;39;49m\n");
}

#[test]
fn to_ansi_converter_requires_a_terminal() {
    let data = png_bytes(&[(9, 9, 9, 255)], 1, 1);
    let r = to_ansi_converter(&data, false, false, 1, 1, None, 1, 1, None);
    assert_eq!(r.err().expect("error").message, "Failed to get terminal dimensions.");
    let r = to_ansi_converter(&data, false, false, 1, 1, None, 1, 1, Some((80, 24)));
    // No character supplied: colors go to the background.
    assert_eq!(r.expect("conversion"), "\u{1b}[48;2;9;9;9m \u{1b}[25;39;49m\n");
}

#[test]
fn grapheme_clusters_count_as_one_character() {
    // A combining sequence is one grapheme although it is two chars.
    let data = png_bytes(&[(1, 2, 3, 255)], 1, 1);
    let cluster = String::from("e\u{301}");
    assert!(img_to_ansi(&data, 1, 1, 1, 1, &cluster, 0).is_ok());
}

#[test]
fn string_writer_generates_termcolor_escapes() {
    let mut w = StringWriter::new();
    w.write_color(true, &AnsiColor::Red, false);
    w.write_color(false, &AnsiColor::Blue, false);
    w.write_color(true, &AnsiColor::Red, true);
    w.write_color(true, &AnsiColor::Ansi256(137), false);
    w.write_color(false, &AnsiColor::Rgb(1, 22, 233), false);
    assert_eq!(
        w.read(),
        "\u{1b}[31m\u{1b}[44m\u{1b}[38;5;9m\u{1b}[38;5;137m\u{1b}[48;2;1;22;233m"
    );
}

#[test]
fn string_writer_set_color_orders_fields() {
    let mut w = StringWriter::new();
    let mut cs = ColorSpec::new();
    cs.reset = true;
    cs.bold = true;
    cs.underline = true;
    cs.fg = Some(AnsiColor::Green);
    cs.bg = Some(AnsiColor::Ansi256(200));
    w.set_color(&cs);
    assert_eq!(w.read(), "\u{1b}[0m\u{1b}[1m\u{1b}[4m\u{1b}[32m\u{1b}[48;5;200m");
    let mut w2 = StringWriter::new();
    w2.write_str("plain");
    w2.reset();
    assert_eq!(w2.read(), "plain\u{1b}[0m");
}

#[test]
fn half_blocks_carry_pixel_colors() {
    // One column, top red and bottom blue: one lower half block with blue
    // ink over a red background.
    let mut img = nu_plugin_image::raster::Image {
        width: 1,
        height: 2,
        pixels: vec![rgba(255, 0, 0, 255), rgba(0, 0, 255, 255)],
    };
    let out = to_ansi(&img, true).expect("rendering");
    assert_eq!(out, "\u{1b}[38;2;0;0;255m\u{1b}[48;2;255;0;0m\u{2584}\u{1b}[0m\n");

    // A transparent pair just moves the cursor.
    img.pixels = vec![rgba(0, 0, 0, 0), rgba(0, 0, 0, 0)];
    let out = to_ansi(&img, true).expect("rendering");
    assert_eq!(out, "\u{1b}[1C\u{1b}[0m\n");
}

#[test]
fn half_blocks_quantize_without_truecolor() {
    // Pure white maps to palette entry 231, pure black to 16.
    let img = nu_plugin_image::raster::Image {
        width: 2,
        height: 1,
        pixels: vec![rgba(255, 255, 255, 255), rgba(0, 0, 0, 255)],
    };
    let mut w = StringWriter::new();
    make_ansi(&mut w, &img, false);
    assert_eq!(
        w.read(),
        "\u{1b}[38;5;231m\u{2580}\u{1b}[38;5;16m\u{2580}\u{1b}[0m\n"
    );
}

#[test]
fn fit_dimensions_matches_documented_examples() {
    assert_eq!(fit_dimensions(100, 100, 40, 15), (30, 15));
    assert_eq!(fit_dimensions(160, 80, 80, 24), (80, 20));
    // Small images are not scaled up.
    assert_eq!(fit_dimensions(10, 6, 80, 24), (10, 3));
    assert_eq!(fit_dimensions(10, 5, 80, 24), (10, 3));
}

#[test]
fn find_best_fit_honours_explicit_bounds() {
    assert_eq!(find_best_fit(160, 80, None, None, 80, 24), (80, 20));
    assert_eq!(find_best_fit(160, 80, Some(40), None, 80, 24), (40, 10));
    assert_eq!(find_best_fit(100, 100, None, Some(15), 80, 24), (30, 15));
    assert_eq!(find_best_fit(123, 45, Some(7), Some(9), 80, 24), (7, 9));
    // Using the full terminal height gives one row back.
    assert_eq!(find_best_fit(100, 100, None, None, 80, 24), (48, 23));
}

#[test]
fn log_levels_map_by_name() {
    assert_eq!(set_verbose(String::from("TRACE")), 0);
    assert_eq!(set_verbose(String::from("t")), 0);
    assert_eq!(set_verbose(String::from("debug")), 1);
    assert_eq!(set_verbose(String::from("INFO")), 2);
    assert_eq!(set_verbose(String::from("w")), 3);
    assert_eq!(set_verbose(String::from("error")), 4);
    assert_eq!(set_verbose(String::from("critical")), 5);
    assert_eq!(set_verbose(String::from("chatty")), 2);
}

#[test]
fn logger_state_toggles() {
    let mut l = LoggerState::new(false);
    assert!(!l.is_verbose);
    l.set_verbose(true);
    assert!(l.is_verbose);
    l.log("only printed when verbose");
}

#[test]
fn string_writer_accepts_raw_bytes() {
    let mut w = StringWriter::new();
    let n = w.write(&vec![b'h', b'i']);
    assert_eq!(n, 2);
    w.flush();
    assert!(w.supports_color());
    assert!(!w.is_synchronous());
    assert_eq!(w.read(), "hi");
}
