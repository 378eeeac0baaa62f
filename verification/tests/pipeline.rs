//! End-to-end tests of the tokenizer, SGR interpretation and the grid.

use nu_plugin_image::color::{Color, ColorType};
use nu_plugin_image::escape::EscapeSequence;
use nu_plugin_image::style::FontStyle;
use nu_plugin_image::vt::Terminal;

fn feed(term: &mut Terminal, s: &str) {
    term.advance(&s.as_bytes().to_vec());
}

#[test]
fn plain_text_advances_left_to_right() {
    let mut term = Terminal::new(10, 20, None);
    feed(&mut term, "ABC");
    let cells = &term.grid.cells;
    assert_eq!(cells.len(), 3);
    assert_eq!(cells[0].0, (0, 0));
    assert_eq!(cells[0].1.character, 'A');
    assert_eq!(cells[1].0, (10, 0));
    assert_eq!(cells[1].1.character, 'B');
    assert_eq!(cells[2].0, (20, 0));
    assert_eq!(cells[2].1.character, 'C');
    for (_, cell) in cells.iter() {
        assert_eq!(cell.style.foreground, ColorType::PrimaryForeground);
        assert_eq!(cell.style.background, ColorType::PrimaryBackground);
        assert_eq!(cell.style.font, FontStyle::Normal);
        assert!(!cell.style.underline);
    }
}

#[test]
fn plain_text_wraps_at_configured_width() {
    // After printing at x = 20 the cursor reaches 30 > 25 and wraps.
    let mut term = Terminal::new(10, 20, Some(25));
    feed(&mut term, "ABCD");
    let cells = &term.grid.cells;
    assert_eq!(cells.len(), 4);
    // Keys are sorted x-major: (0,0) A, (0,20) D, (10,0) B, (20,0) C.
    assert_eq!(cells[0].0, (0, 0));
    assert_eq!(cells[0].1.character, 'A');
    assert_eq!(cells[1].0, (0, 20));
    assert_eq!(cells[1].1.character, 'D');
    assert_eq!(cells[2].0, (10, 0));
    assert_eq!(cells[2].1.character, 'B');
    assert_eq!(cells[3].0, (20, 0));
    assert_eq!(cells[3].1.character, 'C');
}

#[test]
fn sgr_zero_resets_all_style_state() {
    let mut term = Terminal::new(10, 20, None);
    feed(&mut term, "\u{1b}[1;3;4;31;42m");
    assert_eq!(term.grid.style.font, FontStyle::BoldItalic);
    assert!(term.grid.style.underline);
    assert_eq!(term.grid.style.foreground, ColorType::Normal(Color::Red));
    assert_eq!(term.grid.style.background, ColorType::Normal(Color::Green));
    feed(&mut term, "\u{1b}[0m");
    assert_eq!(term.grid.style.foreground, ColorType::PrimaryForeground);
    assert_eq!(term.grid.style.background, ColorType::PrimaryBackground);
    assert_eq!(term.grid.style.font, FontStyle::Normal);
    assert!(!term.grid.style.underline);
    // A second reset changes nothing further: reset is idempotent.
    feed(&mut term, "\u{1b}[0m");
    assert_eq!(term.grid.style.font, FontStyle::Normal);
    assert_eq!(term.grid.style.foreground, ColorType::PrimaryForeground);
}

#[test]
fn bold_italic_composition_is_commutative() {
    let mut t1 = Terminal::new(10, 20, None);
    feed(&mut t1, "\u{1b}[1m\u{1b}[3m");
    let mut t2 = Terminal::new(10, 20, None);
    feed(&mut t2, "\u{1b}[3m\u{1b}[1m");
    assert_eq!(t1.grid.style.font, FontStyle::BoldItalic);
    assert_eq!(t2.grid.style.font, FontStyle::BoldItalic);

    // Removing bold afterwards leaves italic, whichever order added them.
    feed(&mut t1, "\u{1b}[21m");
    feed(&mut t2, "\u{1b}[21m");
    assert_eq!(t1.grid.style.font, FontStyle::Italic);
    assert_eq!(t2.grid.style.font, FontStyle::Italic);
}

#[test]
fn malformed_color_mode_degrades_to_primary() {
    let mut term = Terminal::new(10, 20, None);
    feed(&mut term, "\u{1b}[31m");
    assert_eq!(term.grid.style.foreground, ColorType::Normal(Color::Red));
    // Mode 9 is not a valid color mode: the foreground degrades.
    feed(&mut term, "\u{1b}[38;9m");
    assert_eq!(term.grid.style.foreground, ColorType::PrimaryForeground);
}

#[test]
fn malformed_color_mode_does_not_stop_interpretation() {
    let params: Vec<u16> = vec![38, 9, 31];
    let actions = EscapeSequence::parse_params(&params);
    assert_eq!(actions.len(), 2);
    assert_eq!(
        actions[0],
        EscapeSequence::ForegroundColor(ColorType::PrimaryForeground)
    );
    assert_eq!(
        actions[1],
        EscapeSequence::ForegroundColor(ColorType::Normal(Color::Red))
    );
}

#[test]
fn indexed_and_truecolor_extensions_parse() {
    let p1: Vec<u16> = vec![38, 5, 3];
    assert_eq!(
        EscapeSequence::parse_params(&p1),
        vec![EscapeSequence::ForegroundColor(ColorType::Normal(Color::Yellow))]
    );
    let p2: Vec<u16> = vec![38, 5, 12];
    assert_eq!(
        EscapeSequence::parse_params(&p2),
        vec![EscapeSequence::ForegroundColor(ColorType::Bright(Color::Blue))]
    );
    let p3: Vec<u16> = vec![48, 5, 137];
    assert_eq!(
        EscapeSequence::parse_params(&p3),
        vec![EscapeSequence::BackgroundColor(ColorType::Fixed(137))]
    );
    let p4: Vec<u16> = vec![38, 2, 300, 20, 30];
    assert_eq!(
        EscapeSequence::parse_params(&p4),
        vec![EscapeSequence::ForegroundColor(ColorType::Rgb(255, 20, 30))]
    );
    // A truncated truecolor extension degrades and consumes the rest.
    let p5: Vec<u16> = vec![48, 2, 10];
    assert_eq!(
        EscapeSequence::parse_params(&p5),
        vec![EscapeSequence::BackgroundColor(ColorType::PrimaryBackground)]
    );
}

#[test]
fn single_codes_follow_the_sgr_table() {
    assert_eq!(EscapeSequence::parse_single(0), EscapeSequence::Reset);
    assert_eq!(EscapeSequence::parse_single(1), EscapeSequence::Bold);
    assert_eq!(EscapeSequence::parse_single(4), EscapeSequence::Underline);
    assert_eq!(
        EscapeSequence::parse_single(37),
        EscapeSequence::ForegroundColor(ColorType::Normal(Color::White))
    );
    assert_eq!(
        EscapeSequence::parse_single(95),
        EscapeSequence::ForegroundColor(ColorType::Bright(Color::Magenta))
    );
    assert_eq!(
        EscapeSequence::parse_single(105),
        EscapeSequence::BackgroundColor(ColorType::Bright(Color::Magenta))
    );
    assert_eq!(EscapeSequence::parse_single(123), EscapeSequence::Unimplemented(123));
}

#[test]
fn styled_scenario_lays_out_cells() {
    // "A" default, "B" red, reset, "C" default, CR LF, " D" on line two.
    let mut term = Terminal::new(10, 20, None);
    feed(&mut term, "A\u{1b}[31mB\u{1b}[0mC\r\n D");
    let cells = &term.grid.cells;
    assert_eq!(cells.len(), 5);
    // x-major order: (0,0) A, (0,20) space, (10,0) B, (10,20) D, (20,0) C.
    assert_eq!(cells[0].0, (0, 0));
    assert_eq!(cells[0].1.character, 'A');
    assert_eq!(cells[0].1.style.foreground, ColorType::PrimaryForeground);
    assert_eq!(cells[1].0, (0, 20));
    assert_eq!(cells[1].1.character, ' ');
    assert_eq!(cells[1].1.style.foreground, ColorType::PrimaryForeground);
    assert_eq!(cells[2].0, (10, 0));
    assert_eq!(cells[2].1.character, 'B');
    assert_eq!(cells[2].1.style.foreground, ColorType::Normal(Color::Red));
    assert_eq!(cells[3].0, (10, 20));
    assert_eq!(cells[3].1.character, 'D');
    assert_eq!(cells[3].1.style.foreground, ColorType::PrimaryForeground);
    assert_eq!(cells[4].0, (20, 0));
    assert_eq!(cells[4].1.character, 'C');
    assert_eq!(cells[4].1.style.foreground, ColorType::PrimaryForeground);
}

#[test]
fn carriage_return_overprints_from_column_zero() {
    let mut term = Terminal::new(10, 20, None);
    feed(&mut term, "AB\rC");
    let cells = &term.grid.cells;
    // C overwrote A at (0,0): last write wins.
    assert_eq!(cells.len(), 2);
    assert_eq!(cells[0].0, (0, 0));
    assert_eq!(cells[0].1.character, 'C');
    assert_eq!(cells[1].0, (10, 0));
    assert_eq!(cells[1].1.character, 'B');
}

#[test]
fn underline_flag_is_tracked() {
    let mut term = Terminal::new(10, 20, None);
    feed(&mut term, "\u{1b}[4mX");
    assert!(term.grid.cells[0].1.style.underline);
    feed(&mut term, "\u{1b}[24mY");
    assert!(!term.grid.cells[1].1.style.underline);
}

#[test]
fn utf8_characters_print_as_one_cell() {
    let mut term = Terminal::new(10, 20, None);
    feed(&mut term, "é€\u{1F600}");
    let cells = &term.grid.cells;
    assert_eq!(cells.len(), 3);
    assert_eq!(cells[0].1.character, 'é');
    assert_eq!(cells[1].1.character, '€');
    assert_eq!(cells[2].1.character, '\u{1F600}');
}

#[test]
fn invalid_utf8_prints_replacement() {
    let mut term = Terminal::new(10, 20, None);
    term.advance(&vec![0xffu8, b'A']);
    let cells = &term.grid.cells;
    assert_eq!(cells.len(), 2);
    assert_eq!(cells[0].1.character, '\u{fffd}');
    assert_eq!(cells[1].1.character, 'A');
}

#[test]
fn chunked_feeding_matches_whole_feeding() {
    let input = "é\u{1b}[31mB\u{1b}[48;5;200mC\r\nD".as_bytes().to_vec();
    let mut whole = Terminal::new(7, 13, Some(20));
    whole.advance(&input);
    for split in 0..=input.len() {
        let mut chunked = Terminal::new(7, 13, Some(20));
        chunked.advance(&input[..split].to_vec());
        chunked.advance(&input[split..].to_vec());
        assert_eq!(chunked.grid.cells, whole.grid.cells);
        assert_eq!(chunked.grid.style, whole.grid.style);
        assert_eq!(chunked.grid.cursor_x, whole.grid.cursor_x);
        assert_eq!(chunked.grid.cursor_y, whole.grid.cursor_y);
    }
}

#[test]
fn osc_and_dcs_strings_are_inert() {
    let mut term = Terminal::new(10, 20, None);
    feed(&mut term, "A\u{1b}]0;window title\u{7}B\u{1b}Pignored\u{1b}\\C");
    let chars: Vec<char> = term.grid.cells.iter().map(|(_, c)| c.character).collect();
    assert_eq!(chars, vec!['A', 'B', 'C']);
}

#[test]
fn empty_sgr_parameter_means_reset() {
    // "ESC [ m" carries one empty parameter, read as 0: a full reset.
    let mut term = Terminal::new(10, 20, None);
    feed(&mut term, "\u{1b}[31;4m");
    assert_eq!(term.grid.style.foreground, ColorType::Normal(Color::Red));
    feed(&mut term, "\u{1b}[m");
    assert_eq!(term.grid.style.foreground, ColorType::PrimaryForeground);
    assert!(!term.grid.style.underline);
}
