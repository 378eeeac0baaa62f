//! Tests of palette resolution, presets, and hex color parsing.

use nu_plugin_image::color::{Color, ColorType, Rgba};
use nu_plugin_image::hexcolor::{hex_to_rgba, strhex_to_rgba};
use nu_plugin_image::palette::{
    fixed_color, fixed_colors, load_custom_theme, palette_env, palette_test, palette_vscode,
    Palette,
};

fn rgba(r: u8, g: u8, b: u8, a: u8) -> Rgba {
    Rgba::new(r, g, b, a)
}

fn all_presets() -> Vec<Palette> {
    vec![
        Palette::Vscode,
        Palette::Xterm,
        Palette::Eclipse,
        Palette::Ubuntu,
        Palette::MIRC,
        Palette::Putty,
        Palette::WinXp,
        Palette::WinTerminal,
        Palette::Win10,
        Palette::WinPs,
        Palette::Test,
    ]
}

#[test]
fn cube_endpoints_are_theme_invariant() {
    for p in all_presets() {
        assert_eq!(p.get_color(ColorType::Fixed(16)), rgba(0, 0, 0, 255));
        assert_eq!(p.get_color(ColorType::Fixed(231)), rgba(255, 255, 255, 255));
    }
}

#[test]
fn rgb_colors_resolve_to_themselves() {
    for p in all_presets() {
        assert_eq!(p.get_color(ColorType::Rgb(10, 20, 30)), rgba(10, 20, 30, 255));
        assert_eq!(p.get_color(ColorType::Rgb(0, 255, 7)), rgba(0, 255, 7, 255));
    }
}

#[test]
fn fixed_table_follows_the_generation_formula() {
    let table = fixed_colors();
    assert_eq!(table.len(), 256);
    // The standard sixteen head the table.
    assert_eq!(table[0], rgba(0, 0, 0, 255));
    assert_eq!(table[7], rgba(192, 192, 192, 255));
    assert_eq!(table[9], rgba(255, 0, 0, 255));
    assert_eq!(table[15], rgba(255, 255, 255, 255));
    // Color cube entries at the documented levels.
    assert_eq!(table[17], rgba(0, 0, 95, 255));
    assert_eq!(table[21], rgba(0, 0, 255, 255));
    assert_eq!(table[52], rgba(95, 0, 0, 255));
    assert_eq!(table[110], rgba(135, 175, 215, 255));
    // Grayscale ramp from 8 to 238 in steps of 10.
    assert_eq!(table[232], rgba(8, 8, 8, 255));
    assert_eq!(table[244], rgba(128, 128, 128, 255));
    assert_eq!(table[255], rgba(238, 238, 238, 255));
    assert_eq!(fixed_color(196), rgba(255, 0, 0, 255));
}

#[test]
fn named_colors_resolve_from_the_active_theme() {
    let p = Palette::Vscode;
    assert_eq!(p.get_color(ColorType::PrimaryForeground), rgba(229, 229, 229, 255));
    assert_eq!(p.get_color(ColorType::PrimaryBackground), rgba(24, 24, 24, 255));
    assert_eq!(p.get_color(ColorType::Normal(Color::Red)), rgba(205, 49, 49, 255));
    assert_eq!(p.get_color(ColorType::Bright(Color::Blue)), rgba(59, 142, 234, 255));
    let t = Palette::Test;
    assert_eq!(t.get_color(ColorType::PrimaryBackground), rgba(255, 255, 255, 255));
    assert_eq!(t.get_color(ColorType::Normal(Color::Green)), rgba(0, 255, 0, 255));
}

#[test]
fn custom_theme_overrides_only_named_slots_given() {
    // Override only the primary background with 0x112411 over vscode.
    let mut overrides: Vec<Option<String>> = Vec::new();
    for _ in 0..18 {
        overrides.push(None);
    }
    overrides[1] = Some(String::from("0x112411"));
    let custom = load_custom_theme(&Palette::Vscode, &overrides);
    let base = palette_vscode();
    match custom {
        Palette::Custom(d) => {
            assert_eq!(d.primary_background, rgba(0x11, 0x24, 0x11, 255));
            assert_eq!(d.primary_foreground, base.primary_foreground);
            assert_eq!(d.black, base.black);
            assert_eq!(d.red, base.red);
            assert_eq!(d.green, base.green);
            assert_eq!(d.yellow, base.yellow);
            assert_eq!(d.blue, base.blue);
            assert_eq!(d.magenta, base.magenta);
            assert_eq!(d.cyan, base.cyan);
            assert_eq!(d.white, base.white);
            assert_eq!(d.bright_black, base.bright_black);
            assert_eq!(d.bright_red, base.bright_red);
            assert_eq!(d.bright_green, base.bright_green);
            assert_eq!(d.bright_yellow, base.bright_yellow);
            assert_eq!(d.bright_blue, base.bright_blue);
            assert_eq!(d.bright_magenta, base.bright_magenta);
            assert_eq!(d.bright_cyan, base.bright_cyan);
            assert_eq!(d.bright_white, base.bright_white);
        }
        _ => panic!("expected a custom palette"),
    }
}

#[test]
fn copy_with_merges_partially() {
    let base = palette_test();
    let merged = base.copy_with(
        Some(rgba(1, 2, 3, 4)),
        None,
        None,
        None,
        None,
        None,
        None,
        None,
        None,
        None,
        None,
        None,
        None,
        None,
        None,
        None,
        None,
        None,
    );
    assert_eq!(merged.primary_foreground, rgba(1, 2, 3, 4));
    assert_eq!(merged.primary_background, base.primary_background);
    assert_eq!(merged.fixed, base.fixed);
}

#[test]
fn from_name_ignores_ascii_case() {
    assert!(matches!(Palette::from_name(String::from("vscode")), Some(Palette::Vscode)));
    assert!(matches!(Palette::from_name(String::from("VSCode")), Some(Palette::Vscode)));
    assert!(matches!(Palette::from_name(String::from("XTERM")), Some(Palette::Xterm)));
    assert!(matches!(Palette::from_name(String::from("winterm")), Some(Palette::WinTerminal)));
    assert!(matches!(Palette::from_name(String::from("win_ps")), Some(Palette::WinPs)));
    assert!(Palette::from_name(String::from("no-such-theme")).is_none());
}

#[test]
fn list_names_the_presets() {
    let names = Palette::list();
    assert_eq!(names.len(), 11);
    assert_eq!(names[0], "vscode");
    assert_eq!(names[1], "xterm");
    assert_eq!(names[10], "win_ps");
}

#[test]
fn hex_strings_parse_with_optional_prefix_and_alpha() {
    assert_eq!(strhex_to_rgba(String::from("112411")), Some(rgba(0x11, 0x24, 0x11, 255)));
    assert_eq!(strhex_to_rgba(String::from("0x112411")), Some(rgba(0x11, 0x24, 0x11, 255)));
    assert_eq!(strhex_to_rgba(String::from("#ff0000")), Some(rgba(255, 0, 0, 255)));
    // Eight digits carry the alpha in the high byte.
    assert_eq!(strhex_to_rgba(String::from("80102030")), Some(rgba(0x10, 0x20, 0x30, 0x80)));
    assert_eq!(strhex_to_rgba(String::from("0xAABBCCDD")), Some(rgba(0xbb, 0xcc, 0xdd, 0xaa)));
    // Anything else is rejected.
    assert_eq!(strhex_to_rgba(String::from("12345")), None);
    assert_eq!(strhex_to_rgba(String::from("1234567")), None);
    assert_eq!(strhex_to_rgba(String::from("nothexx")), None);
    assert_eq!(strhex_to_rgba(String::from("")), None);
}

#[test]
fn hex_to_rgba_extracts_channels() {
    assert_eq!(hex_to_rgba(0x112233, None), rgba(0x11, 0x22, 0x33, 255));
    assert_eq!(hex_to_rgba(0x112233, Some(9)), rgba(0x11, 0x22, 0x33, 9));
    assert_eq!(hex_to_rgba(0, None), rgba(0, 0, 0, 255));
}

#[test]
fn env_palette_defaults_missing_slots_to_transparent_black() {
    let mut vars: Vec<Option<String>> = Vec::new();
    for _ in 0..18 {
        vars.push(None);
    }
    vars[0] = Some(String::from("#ffffff"));
    vars[2] = Some(String::from("not-a-color"));
    let d = palette_env(&vars);
    assert_eq!(d.primary_foreground, rgba(255, 255, 255, 255));
    assert_eq!(d.primary_background, rgba(0, 0, 0, 0));
    assert_eq!(d.black, rgba(0, 0, 0, 0));
    assert_eq!(d.fixed.len(), 256);
}
