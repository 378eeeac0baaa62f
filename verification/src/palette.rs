//! Palettes: named presets of 18 colors plus the generated 256-entry table.
//!
//! Every preset shares the same fixed table: entries 0-15 are the standard
//! sixteen terminal colors, entries 16-231 form a 6x6x6 color cube over the
//! levels 0, 95, 135, 175, 215 and 255, and entries 232-255 are a 24-step
//! grayscale ramp from 8 to 238. Only the 18 named colors vary by preset.

use vstd::prelude::*;

use crate::color::{rgba, Color, ColorType, Rgba};
use crate::hexcolor::{spec_strhex, strhex_str};

verus! {

/// The channel level of a color-cube coordinate in 0..=5.
pub open spec fn cube_level(l: int) -> int {
    if l == 0 {
        0
    } else {
        55 + 40 * l
    }
}

/// The standard sixteen terminal colors that head the fixed table.
pub open spec fn base16_color(n: int) -> Rgba {
    if n == 0 { rgba(0, 0, 0, 255) }
    else if n == 1 { rgba(128, 0, 0, 255) }
    else if n == 2 { rgba(0, 128, 0, 255) }
    else if n == 3 { rgba(128, 128, 0, 255) }
    else if n == 4 { rgba(0, 0, 128, 255) }
    else if n == 5 { rgba(128, 0, 128, 255) }
    else if n == 6 { rgba(0, 128, 128, 255) }
    else if n == 7 { rgba(192, 192, 192, 255) }
    else if n == 8 { rgba(128, 128, 128, 255) }
    else if n == 9 { rgba(255, 0, 0, 255) }
    else if n == 10 { rgba(0, 255, 0, 255) }
    else if n == 11 { rgba(255, 255, 0, 255) }
    else if n == 12 { rgba(0, 0, 255, 255) }
    else if n == 13 { rgba(255, 0, 255, 255) }
    else if n == 14 { rgba(0, 255, 255, 255) }
    else { rgba(255, 255, 255, 255) }
}

/// Entry `n` of the 256-entry fixed color table.
pub open spec fn fixed_color_spec(n: int) -> Rgba {
    if n < 16 {
        base16_color(n)
    } else if n <= 231 {
        let k = n - 16;
        rgba(
            cube_level(k / 36) as u8,
            cube_level((k / 6) % 6) as u8,
            cube_level(k % 6) as u8,
            255,
        )
    } else {
        let g = (8 + 10 * (n - 232)) as u8;
        rgba(g, g, g, 255)
    }
}

/// The canonical fixed table as a sequence.
pub open spec fn fixed_table() -> Seq<Rgba> {
    Seq::new(256, |i: int| fixed_color_spec(i))
}

/// The 18 named colors of a palette, as one specification-level record.
#[verifier::ext_equal]
pub ghost struct Theme {
    pub primary_foreground: Rgba,
    pub primary_background: Rgba,
    pub black: Rgba,
    pub red: Rgba,
    pub green: Rgba,
    pub yellow: Rgba,
    pub blue: Rgba,
    pub magenta: Rgba,
    pub cyan: Rgba,
    pub white: Rgba,
    pub bright_black: Rgba,
    pub bright_red: Rgba,
    pub bright_green: Rgba,
    pub bright_yellow: Rgba,
    pub bright_blue: Rgba,
    pub bright_magenta: Rgba,
    pub bright_cyan: Rgba,
    pub bright_white: Rgba,
}

pub open spec fn vscode_theme() -> Theme {
    Theme {
        primary_foreground: rgba(229, 229, 229, 255),
        primary_background: rgba(24, 24, 24, 255),
        black: rgba(0, 0, 0, 255),
        red: rgba(205, 49, 49, 255),
        green: rgba(13, 188, 121, 255),
        yellow: rgba(229, 229, 16, 255),
        blue: rgba(36, 114, 200, 255),
        magenta: rgba(188, 63, 188, 255),
        cyan: rgba(17, 168, 205, 255),
        white: rgba(229, 229, 229, 255),
        bright_black: rgba(102, 102, 102, 255),
        bright_red: rgba(241, 76, 76, 255),
        bright_green: rgba(35, 209, 139, 255),
        bright_yellow: rgba(245, 245, 67, 255),
        bright_blue: rgba(59, 142, 234, 255),
        bright_magenta: rgba(214, 112, 214, 255),
        bright_cyan: rgba(41, 184, 219, 255),
        bright_white: rgba(229, 229, 229, 255),
    }
}

pub open spec fn xterm_theme() -> Theme {
    Theme {
        primary_foreground: rgba(229, 229, 229, 255),
        primary_background: rgba(0, 0, 0, 255),
        black: rgba(0, 0, 0, 255),
        red: rgba(205, 0, 0, 255),
        green: rgba(0, 205, 0, 255),
        yellow: rgba(205, 205, 0, 255),
        blue: rgba(0, 0, 238, 255),
        magenta: rgba(205, 0, 205, 255),
        cyan: rgba(0, 205, 205, 255),
        white: rgba(229, 229, 229, 255),
        bright_black: rgba(127, 127, 127, 255),
        bright_red: rgba(255, 0, 0, 255),
        bright_green: rgba(0, 255, 0, 255),
        bright_yellow: rgba(255, 255, 0, 255),
        bright_blue: rgba(0, 0, 252, 255),
        bright_magenta: rgba(255, 0, 255, 255),
        bright_cyan: rgba(0, 255, 255, 255),
        bright_white: rgba(255, 255, 255, 255),
    }
}

pub open spec fn eclipse_theme() -> Theme {
    Theme {
        primary_foreground: rgba(229, 229, 229, 255),
        primary_background: rgba(0, 0, 0, 255),
        black: rgba(0, 0, 0, 255),
        red: rgba(205, 0, 0, 255),
        green: rgba(0, 205, 0, 255),
        yellow: rgba(205, 205, 0, 255),
        blue: rgba(0, 0, 238, 255),
        magenta: rgba(205, 0, 205, 255),
        cyan: rgba(0, 205, 205, 255),
        white: rgba(229, 229, 229, 255),
        bright_black: rgba(0, 0, 0, 255),
        bright_red: rgba(255, 0, 0, 255),
        bright_green: rgba(0, 255, 0, 255),
        bright_yellow: rgba(255, 255, 0, 255),
        bright_blue: rgba(0, 0, 252, 255),
        bright_magenta: rgba(255, 0, 255, 255),
        bright_cyan: rgba(0, 255, 255, 255),
        bright_white: rgba(255, 255, 255, 255),
    }
}

pub open spec fn ubuntu_theme() -> Theme {
    Theme {
        primary_foreground: rgba(204, 204, 204, 255),
        primary_background: rgba(1, 1, 1, 255),
        black: rgba(1, 1, 1, 255),
        red: rgba(222, 56, 43, 255),
        green: rgba(57, 181, 74, 255),
        yellow: rgba(255, 199, 6, 255),
        blue: rgba(0, 111, 184, 255),
        magenta: rgba(118, 38, 113, 255),
        cyan: rgba(44, 181, 233, 255),
        white: rgba(204, 204, 204, 255),
        bright_black: rgba(128, 128, 128, 255),
        bright_red: rgba(255, 0, 0, 255),
        bright_green: rgba(0, 255, 0, 255),
        bright_yellow: rgba(255, 255, 0, 255),
        bright_blue: rgba(0, 0, 255, 255),
        bright_magenta: rgba(255, 0, 255, 255),
        bright_cyan: rgba(0, 255, 255, 255),
        bright_white: rgba(255, 255, 255, 255),
    }
}

pub open spec fn mirc_theme() -> Theme {
    Theme {
        primary_foreground: rgba(210, 210, 210, 255),
        primary_background: rgba(0, 0, 0, 255),
        black: rgba(0, 0, 0, 255),
        red: rgba(127, 0, 0, 255),
        green: rgba(0, 147, 0, 255),
        yellow: rgba(252, 127, 0, 255),
        blue: rgba(0, 0, 127, 255),
        magenta: rgba(156, 0, 156, 255),
        cyan: rgba(0, 147, 147, 255),
        white: rgba(210, 210, 210, 255),
        bright_black: rgba(127, 127, 127, 255),
        bright_red: rgba(255, 0, 0, 255),
        bright_green: rgba(0, 252, 0, 255),
        bright_yellow: rgba(255, 255, 0, 255),
        bright_blue: rgba(0, 0, 252, 255),
        bright_magenta: rgba(255, 0, 255, 255),
        bright_cyan: rgba(0, 255, 255, 255),
        bright_white: rgba(255, 255, 255, 255),
    }
}

pub open spec fn putty_theme() -> Theme {
    Theme {
        primary_foreground: rgba(187, 187, 187, 255),
        primary_background: rgba(0, 0, 0, 255),
        black: rgba(0, 0, 0, 255),
        red: rgba(187, 0, 0, 255),
        green: rgba(0, 187, 0, 255),
        yellow: rgba(187, 187, 0, 255),
        blue: rgba(0, 0, 187, 255),
        magenta: rgba(187, 0, 187, 255),
        cyan: rgba(0, 187, 187, 255),
        white: rgba(187, 187, 187, 255),
        bright_black: rgba(85, 85, 85, 255),
        bright_red: rgba(255, 85, 85, 255),
        bright_green: rgba(85, 255, 85, 255),
        bright_yellow: rgba(255, 255, 85, 255),
        bright_blue: rgba(85, 85, 255, 255),
        bright_magenta: rgba(255, 85, 255, 255),
        bright_cyan: rgba(85, 255, 255, 255),
        bright_white: rgba(255, 255, 255, 255),
    }
}

pub open spec fn terminal_app_theme() -> Theme {
    Theme {
        primary_foreground: rgba(203, 204, 205, 255),
        primary_background: rgba(0, 0, 0, 255),
        black: rgba(0, 0, 0, 255),
        red: rgba(194, 54, 33, 255),
        green: rgba(37, 188, 36, 255),
        yellow: rgba(173, 173, 39, 255),
        blue: rgba(73, 46, 225, 255),
        magenta: rgba(211, 56, 211, 255),
        cyan: rgba(51, 187, 200, 255),
        white: rgba(203, 204, 205, 255),
        bright_black: rgba(129, 131, 131, 255),
        bright_red: rgba(252, 57, 31, 255),
        bright_green: rgba(49, 231, 34, 255),
        bright_yellow: rgba(234, 236, 35, 255),
        bright_blue: rgba(88, 51, 255, 255),
        bright_magenta: rgba(249, 53, 248, 255),
        bright_cyan: rgba(20, 240, 240, 255),
        bright_white: rgba(233, 235, 235, 255),
    }
}

pub open spec fn win_10_theme() -> Theme {
    Theme {
        primary_foreground: rgba(204, 204, 204, 255),
        primary_background: rgba(12, 12, 12, 255),
        black: rgba(12, 12, 12, 255),
        red: rgba(197, 15, 31, 255),
        green: rgba(19, 161, 14, 255),
        yellow: rgba(193, 156, 0, 255),
        blue: rgba(0, 55, 218, 255),
        magenta: rgba(136, 23, 152, 255),
        cyan: rgba(58, 150, 221, 255),
        white: rgba(204, 204, 204, 255),
        bright_black: rgba(118, 118, 118, 255),
        bright_red: rgba(231, 72, 86, 255),
        bright_green: rgba(22, 198, 12, 255),
        bright_yellow: rgba(249, 241, 165, 255),
        bright_blue: rgba(59, 120, 255, 255),
        bright_magenta: rgba(180, 0, 158, 255),
        bright_cyan: rgba(97, 214, 214, 255),
        bright_white: rgba(242, 242, 242, 255),
    }
}

pub open spec fn win_xp_theme() -> Theme {
    Theme {
        primary_foreground: rgba(192, 192, 192, 255),
        primary_background: rgba(0, 0, 0, 255),
        black: rgba(0, 0, 0, 255),
        red: rgba(128, 0, 0, 255),
        green: rgba(0, 128, 0, 255),
        yellow: rgba(128, 128, 0, 255),
        blue: rgba(0, 0, 128, 255),
        magenta: rgba(128, 0, 128, 255),
        cyan: rgba(0, 128, 128, 255),
        white: rgba(192, 192, 192, 255),
        bright_black: rgba(128, 128, 128, 255),
        bright_red: rgba(255, 0, 0, 255),
        bright_green: rgba(0, 255, 0, 255),
        bright_yellow: rgba(255, 255, 0, 255),
        bright_blue: rgba(0, 0, 255, 255),
        bright_magenta: rgba(255, 0, 255, 255),
        bright_cyan: rgba(0, 255, 255, 255),
        bright_white: rgba(255, 255, 255, 255),
    }
}

pub open spec fn win_power_shell_theme() -> Theme {
    Theme {
        primary_foreground: rgba(192, 192, 192, 255),
        primary_background: rgba(1, 36, 86, 255),
        black: rgba(0, 0, 0, 255),
        red: rgba(128, 0, 0, 255),
        green: rgba(0, 128, 0, 255),
        yellow: rgba(238, 237, 240, 255),
        blue: rgba(0, 0, 128, 255),
        magenta: rgba(1, 36, 86, 255),
        cyan: rgba(0, 128, 128, 255),
        white: rgba(192, 192, 192, 255),
        bright_black: rgba(128, 128, 128, 255),
        bright_red: rgba(255, 0, 0, 255),
        bright_green: rgba(0, 255, 0, 255),
        bright_yellow: rgba(255, 255, 0, 255),
        bright_blue: rgba(0, 0, 255, 255),
        bright_magenta: rgba(255, 0, 255, 255),
        bright_cyan: rgba(0, 255, 255, 255),
        bright_white: rgba(255, 255, 255, 255),
    }
}

pub open spec fn test_theme() -> Theme {
    Theme {
        primary_foreground: rgba(0, 0, 0, 255),
        primary_background: rgba(255, 255, 255, 255),
        black: rgba(0, 0, 0, 255),
        red: rgba(255, 0, 0, 255),
        green: rgba(0, 255, 0, 255),
        yellow: rgba(249, 168, 37, 255),
        blue: rgba(0, 0, 255, 255),
        magenta: rgba(168, 37, 191, 255),
        cyan: rgba(0, 131, 143, 255),
        white: rgba(255, 255, 255, 255),
        bright_black: rgba(44, 44, 44, 255),
        bright_red: rgba(198, 40, 40, 255),
        bright_green: rgba(85, 139, 46, 255),
        bright_yellow: rgba(249, 168, 37, 255),
        bright_blue: rgba(21, 101, 193, 255),
        bright_magenta: rgba(168, 37, 191, 255),
        bright_cyan: rgba(0, 131, 143, 255),
        bright_white: rgba(255, 255, 255, 255),
    }
}

/// A fully resolved palette: 18 named colors plus the fixed table.
#[derive(Debug, Clone)]
pub struct PaletteData {
    pub primary_foreground: Rgba,
    pub primary_background: Rgba,
    pub black: Rgba,
    pub red: Rgba,
    pub green: Rgba,
    pub yellow: Rgba,
    pub blue: Rgba,
    pub magenta: Rgba,
    pub cyan: Rgba,
    pub white: Rgba,
    pub bright_black: Rgba,
    pub bright_red: Rgba,
    pub bright_green: Rgba,
    pub bright_yellow: Rgba,
    pub bright_blue: Rgba,
    pub bright_magenta: Rgba,
    pub bright_cyan: Rgba,
    pub bright_white: Rgba,
    pub fixed: Vec<Rgba>,
}

impl PaletteData {
    /// The named colors of this palette data.
    pub open spec fn theme(&self) -> Theme {
        Theme {
            primary_foreground: self.primary_foreground,
            primary_background: self.primary_background,
            black: self.black,
            red: self.red,
            green: self.green,
            yellow: self.yellow,
            blue: self.blue,
            magenta: self.magenta,
            cyan: self.cyan,
            white: self.white,
            bright_black: self.bright_black,
            bright_red: self.bright_red,
            bright_green: self.bright_green,
            bright_yellow: self.bright_yellow,
            bright_blue: self.bright_blue,
            bright_magenta: self.bright_magenta,
            bright_cyan: self.bright_cyan,
            bright_white: self.bright_white,
        }
    }

    /// Well-formedness: the fixed table is the generated 256-entry table.
    pub open spec fn wf(&self) -> bool {
        self.fixed@ == fixed_table()
    }
}

/// The result of overriding some of a theme's named colors.
pub open spec fn merge_theme(
    base: Theme,
    primary_foreground: Option<Rgba>,
    primary_background: Option<Rgba>,
    black: Option<Rgba>,
    red: Option<Rgba>,
    green: Option<Rgba>,
    yellow: Option<Rgba>,
    blue: Option<Rgba>,
    magenta: Option<Rgba>,
    cyan: Option<Rgba>,
    white: Option<Rgba>,
    bright_black: Option<Rgba>,
    bright_red: Option<Rgba>,
    bright_green: Option<Rgba>,
    bright_yellow: Option<Rgba>,
    bright_blue: Option<Rgba>,
    bright_magenta: Option<Rgba>,
    bright_cyan: Option<Rgba>,
    bright_white: Option<Rgba>,
) -> Theme {
    Theme {
        primary_foreground: merge_slot(base.primary_foreground, primary_foreground),
        primary_background: merge_slot(base.primary_background, primary_background),
        black: merge_slot(base.black, black),
        red: merge_slot(base.red, red),
        green: merge_slot(base.green, green),
        yellow: merge_slot(base.yellow, yellow),
        blue: merge_slot(base.blue, blue),
        magenta: merge_slot(base.magenta, magenta),
        cyan: merge_slot(base.cyan, cyan),
        white: merge_slot(base.white, white),
        bright_black: merge_slot(base.bright_black, bright_black),
        bright_red: merge_slot(base.bright_red, bright_red),
        bright_green: merge_slot(base.bright_green, bright_green),
        bright_yellow: merge_slot(base.bright_yellow, bright_yellow),
        bright_blue: merge_slot(base.bright_blue, bright_blue),
        bright_magenta: merge_slot(base.bright_magenta, bright_magenta),
        bright_cyan: merge_slot(base.bright_cyan, bright_cyan),
        bright_white: merge_slot(base.bright_white, bright_white),
    }
}

/// One overridden slot: the override where given, the base color otherwise.
pub open spec fn merge_slot(base: Rgba, over: Option<Rgba>) -> Rgba {
    match over {
        Option::Some(c) => c,
        Option::None => base,
    }
}

impl PaletteData {
    /// Builds a copy of this palette data in which each named color with an
    /// override is replaced by it; unset slots and the fixed table are kept.
    #[verifier::rlimit(30)]
    pub fn copy_with(
        &self,
        primary_foreground: Option<Rgba>,
        primary_background: Option<Rgba>,
        black: Option<Rgba>,
        red: Option<Rgba>,
        green: Option<Rgba>,
        yellow: Option<Rgba>,
        blue: Option<Rgba>,
        magenta: Option<Rgba>,
        cyan: Option<Rgba>,
        white: Option<Rgba>,
        bright_black: Option<Rgba>,
        bright_red: Option<Rgba>,
        bright_green: Option<Rgba>,
        bright_yellow: Option<Rgba>,
        bright_blue: Option<Rgba>,
        bright_magenta: Option<Rgba>,
        bright_cyan: Option<Rgba>,
        bright_white: Option<Rgba>,
    ) -> (d: PaletteData)
        ensures
            d.theme() == merge_theme(
                self.theme(),
                primary_foreground,
                primary_background,
                black,
                red,
                green,
                yellow,
                blue,
                magenta,
                cyan,
                white,
                bright_black,
                bright_red,
                bright_green,
                bright_yellow,
                bright_blue,
                bright_magenta,
                bright_cyan,
                bright_white,
            ),
            d.fixed@ == self.fixed@,
    {
        PaletteData {
            primary_foreground: merge_slot_exec(self.primary_foreground, primary_foreground),
            primary_background: merge_slot_exec(self.primary_background, primary_background),
            black: merge_slot_exec(self.black, black),
            red: merge_slot_exec(self.red, red),
            green: merge_slot_exec(self.green, green),
            yellow: merge_slot_exec(self.yellow, yellow),
            blue: merge_slot_exec(self.blue, blue),
            magenta: merge_slot_exec(self.magenta, magenta),
            cyan: merge_slot_exec(self.cyan, cyan),
            white: merge_slot_exec(self.white, white),
            bright_black: merge_slot_exec(self.bright_black, bright_black),
            bright_red: merge_slot_exec(self.bright_red, bright_red),
            bright_green: merge_slot_exec(self.bright_green, bright_green),
            bright_yellow: merge_slot_exec(self.bright_yellow, bright_yellow),
            bright_blue: merge_slot_exec(self.bright_blue, bright_blue),
            bright_magenta: merge_slot_exec(self.bright_magenta, bright_magenta),
            bright_cyan: merge_slot_exec(self.bright_cyan, bright_cyan),
            bright_white: merge_slot_exec(self.bright_white, bright_white),
            fixed: copy_fixed(&self.fixed),
        }
    }
}

fn merge_slot_exec(base: Rgba, over: Option<Rgba>) -> (c: Rgba)
    ensures
        c == merge_slot(base, over),
{
    match over {
        Some(c) => c,
        None => base,
    }
}

/// An element-wise copy of a fixed color table.
fn copy_fixed(v: &Vec<Rgba>) -> (r: Vec<Rgba>)
    ensures
        r@ == v@,
{
    let mut r: Vec<Rgba> = Vec::new();
    let mut i: usize = 0;
    while i < v.len()
        invariant
            i <= v.len(),
            r@ =~= v@.take(i as int),
        decreases v.len() - i,
    {
        r.push(v[i]);
        i = i + 1;
    }
    proof {
        assert(r@ =~= v@);
    }
    r
}

fn cube_level_exec(l: u8) -> (v: u8)
    requires
        l <= 5,
    ensures
        v as int == cube_level(l as int),
{
    if l == 0 {
        0
    } else {
        55 + 40 * l
    }
}

/// Entry `n` of the generated fixed table.
pub fn fixed_color(n: u8) -> (c: Rgba)
    ensures
        c == fixed_color_spec(n as int),
{
    if n < 16 {
        base16_color_exec(n)
    } else if n <= 231 {
        let k = n - 16;
        Rgba::new(
            cube_level_exec(k / 36),
            cube_level_exec((k / 6) % 6),
            cube_level_exec(k % 6),
            255,
        )
    } else {
        let g = 8 + 10 * (n - 232);
        Rgba::new(g, g, g, 255)
    }
}

fn base16_color_exec(n: u8) -> (c: Rgba)
    requires
        n < 16,
    ensures
        c == base16_color(n as int),
{
    if n == 0 { Rgba::new(0, 0, 0, 255) }
    else if n == 1 { Rgba::new(128, 0, 0, 255) }
    else if n == 2 { Rgba::new(0, 128, 0, 255) }
    else if n == 3 { Rgba::new(128, 128, 0, 255) }
    else if n == 4 { Rgba::new(0, 0, 128, 255) }
    else if n == 5 { Rgba::new(128, 0, 128, 255) }
    else if n == 6 { Rgba::new(0, 128, 128, 255) }
    else if n == 7 { Rgba::new(192, 192, 192, 255) }
    else if n == 8 { Rgba::new(128, 128, 128, 255) }
    else if n == 9 { Rgba::new(255, 0, 0, 255) }
    else if n == 10 { Rgba::new(0, 255, 0, 255) }
    else if n == 11 { Rgba::new(255, 255, 0, 255) }
    else if n == 12 { Rgba::new(0, 0, 255, 255) }
    else if n == 13 { Rgba::new(255, 0, 255, 255) }
    else if n == 14 { Rgba::new(0, 255, 255, 255) }
    else { Rgba::new(255, 255, 255, 255) }
}

/// The whole generated fixed table.
pub fn fixed_colors() -> (v: Vec<Rgba>)
    ensures
        v@ == fixed_table(),
{
    let mut v: Vec<Rgba> = Vec::new();
    let mut n: usize = 0;
    while n < 256
        invariant
            n <= 256,
            v@.len() == n,
            forall|i: int| 0 <= i < n ==> v@[i] == fixed_color_spec(i),
        decreases 256 - n,
    {
        v.push(fixed_color(n as u8));
        n = n + 1;
    }
    proof {
        assert(v@ =~= fixed_table());
    }
    v
}
pub fn palette_vscode() -> (d: PaletteData)
    ensures
        d.theme() == vscode_theme(),
        d.wf(),
{
    PaletteData {
        primary_foreground: Rgba::new(229, 229, 229, 255),
        primary_background: Rgba::new(24, 24, 24, 255),
        black: Rgba::new(0, 0, 0, 255),
        red: Rgba::new(205, 49, 49, 255),
        green: Rgba::new(13, 188, 121, 255),
        yellow: Rgba::new(229, 229, 16, 255),
        blue: Rgba::new(36, 114, 200, 255),
        magenta: Rgba::new(188, 63, 188, 255),
        cyan: Rgba::new(17, 168, 205, 255),
        white: Rgba::new(229, 229, 229, 255),
        bright_black: Rgba::new(102, 102, 102, 255),
        bright_red: Rgba::new(241, 76, 76, 255),
        bright_green: Rgba::new(35, 209, 139, 255),
        bright_yellow: Rgba::new(245, 245, 67, 255),
        bright_blue: Rgba::new(59, 142, 234, 255),
        bright_magenta: Rgba::new(214, 112, 214, 255),
        bright_cyan: Rgba::new(41, 184, 219, 255),
        bright_white: Rgba::new(229, 229, 229, 255),
        fixed: fixed_colors(),
    }
}

pub fn palette_xterm() -> (d: PaletteData)
    ensures
        d.theme() == xterm_theme(),
        d.wf(),
{
    PaletteData {
        primary_foreground: Rgba::new(229, 229, 229, 255),
        primary_background: Rgba::new(0, 0, 0, 255),
        black: Rgba::new(0, 0, 0, 255),
        red: Rgba::new(205, 0, 0, 255),
        green: Rgba::new(0, 205, 0, 255),
        yellow: Rgba::new(205, 205, 0, 255),
        blue: Rgba::new(0, 0, 238, 255),
        magenta: Rgba::new(205, 0, 205, 255),
        cyan: Rgba::new(0, 205, 205, 255),
        white: Rgba::new(229, 229, 229, 255),
        bright_black: Rgba::new(127, 127, 127, 255),
        bright_red: Rgba::new(255, 0, 0, 255),
        bright_green: Rgba::new(0, 255, 0, 255),
        bright_yellow: Rgba::new(255, 255, 0, 255),
        bright_blue: Rgba::new(0, 0, 252, 255),
        bright_magenta: Rgba::new(255, 0, 255, 255),
        bright_cyan: Rgba::new(0, 255, 255, 255),
        bright_white: Rgba::new(255, 255, 255, 255),
        fixed: fixed_colors(),
    }
}

pub fn palette_eclipse() -> (d: PaletteData)
    ensures
        d.theme() == eclipse_theme(),
        d.wf(),
{
    PaletteData {
        primary_foreground: Rgba::new(229, 229, 229, 255),
        primary_background: Rgba::new(0, 0, 0, 255),
        black: Rgba::new(0, 0, 0, 255),
        red: Rgba::new(205, 0, 0, 255),
        green: Rgba::new(0, 205, 0, 255),
        yellow: Rgba::new(205, 205, 0, 255),
        blue: Rgba::new(0, 0, 238, 255),
        magenta: Rgba::new(205, 0, 205, 255),
        cyan: Rgba::new(0, 205, 205, 255),
        white: Rgba::new(229, 229, 229, 255),
        bright_black: Rgba::new(0, 0, 0, 255),
        bright_red: Rgba::new(255, 0, 0, 255),
        bright_green: Rgba::new(0, 255, 0, 255),
        bright_yellow: Rgba::new(255, 255, 0, 255),
        bright_blue: Rgba::new(0, 0, 252, 255),
        bright_magenta: Rgba::new(255, 0, 255, 255),
        bright_cyan: Rgba::new(0, 255, 255, 255),
        bright_white: Rgba::new(255, 255, 255, 255),
        fixed: fixed_colors(),
    }
}

pub fn palette_ubuntu() -> (d: PaletteData)
    ensures
        d.theme() == ubuntu_theme(),
        d.wf(),
{
    PaletteData {
        primary_foreground: Rgba::new(204, 204, 204, 255),
        primary_background: Rgba::new(1, 1, 1, 255),
        black: Rgba::new(1, 1, 1, 255),
        red: Rgba::new(222, 56, 43, 255),
        green: Rgba::new(57, 181, 74, 255),
        yellow: Rgba::new(255, 199, 6, 255),
        blue: Rgba::new(0, 111, 184, 255),
        magenta: Rgba::new(118, 38, 113, 255),
        cyan: Rgba::new(44, 181, 233, 255),
        white: Rgba::new(204, 204, 204, 255),
        bright_black: Rgba::new(128, 128, 128, 255),
        bright_red: Rgba::new(255, 0, 0, 255),
        bright_green: Rgba::new(0, 255, 0, 255),
        bright_yellow: Rgba::new(255, 255, 0, 255),
        bright_blue: Rgba::new(0, 0, 255, 255),
        bright_magenta: Rgba::new(255, 0, 255, 255),
        bright_cyan: Rgba::new(0, 255, 255, 255),
        bright_white: Rgba::new(255, 255, 255, 255),
        fixed: fixed_colors(),
    }
}

pub fn palette_mirc() -> (d: PaletteData)
    ensures
        d.theme() == mirc_theme(),
        d.wf(),
{
    PaletteData {
        primary_foreground: Rgba::new(210, 210, 210, 255),
        primary_background: Rgba::new(0, 0, 0, 255),
        black: Rgba::new(0, 0, 0, 255),
        red: Rgba::new(127, 0, 0, 255),
        green: Rgba::new(0, 147, 0, 255),
        yellow: Rgba::new(252, 127, 0, 255),
        blue: Rgba::new(0, 0, 127, 255),
        magenta: Rgba::new(156, 0, 156, 255),
        cyan: Rgba::new(0, 147, 147, 255),
        white: Rgba::new(210, 210, 210, 255),
        bright_black: Rgba::new(127, 127, 127, 255),
        bright_red: Rgba::new(255, 0, 0, 255),
        bright_green: Rgba::new(0, 252, 0, 255),
        bright_yellow: Rgba::new(255, 255, 0, 255),
        bright_blue: Rgba::new(0, 0, 252, 255),
        bright_magenta: Rgba::new(255, 0, 255, 255),
        bright_cyan: Rgba::new(0, 255, 255, 255),
        bright_white: Rgba::new(255, 255, 255, 255),
        fixed: fixed_colors(),
    }
}

pub fn palette_putty() -> (d: PaletteData)
    ensures
        d.theme() == putty_theme(),
        d.wf(),
{
    PaletteData {
        primary_foreground: Rgba::new(187, 187, 187, 255),
        primary_background: Rgba::new(0, 0, 0, 255),
        black: Rgba::new(0, 0, 0, 255),
        red: Rgba::new(187, 0, 0, 255),
        green: Rgba::new(0, 187, 0, 255),
        yellow: Rgba::new(187, 187, 0, 255),
        blue: Rgba::new(0, 0, 187, 255),
        magenta: Rgba::new(187, 0, 187, 255),
        cyan: Rgba::new(0, 187, 187, 255),
        white: Rgba::new(187, 187, 187, 255),
        bright_black: Rgba::new(85, 85, 85, 255),
        bright_red: Rgba::new(255, 85, 85, 255),
        bright_green: Rgba::new(85, 255, 85, 255),
        bright_yellow: Rgba::new(255, 255, 85, 255),
        bright_blue: Rgba::new(85, 85, 255, 255),
        bright_magenta: Rgba::new(255, 85, 255, 255),
        bright_cyan: Rgba::new(85, 255, 255, 255),
        bright_white: Rgba::new(255, 255, 255, 255),
        fixed: fixed_colors(),
    }
}

pub fn palette_terminal_app() -> (d: PaletteData)
    ensures
        d.theme() == terminal_app_theme(),
        d.wf(),
{
    PaletteData {
        primary_foreground: Rgba::new(203, 204, 205, 255),
        primary_background: Rgba::new(0, 0, 0, 255),
        black: Rgba::new(0, 0, 0, 255),
        red: Rgba::new(194, 54, 33, 255),
        green: Rgba::new(37, 188, 36, 255),
        yellow: Rgba::new(173, 173, 39, 255),
        blue: Rgba::new(73, 46, 225, 255),
        magenta: Rgba::new(211, 56, 211, 255),
        cyan: Rgba::new(51, 187, 200, 255),
        white: Rgba::new(203, 204, 205, 255),
        bright_black: Rgba::new(129, 131, 131, 255),
        bright_red: Rgba::new(252, 57, 31, 255),
        bright_green: Rgba::new(49, 231, 34, 255),
        bright_yellow: Rgba::new(234, 236, 35, 255),
        bright_blue: Rgba::new(88, 51, 255, 255),
        bright_magenta: Rgba::new(249, 53, 248, 255),
        bright_cyan: Rgba::new(20, 240, 240, 255),
        bright_white: Rgba::new(233, 235, 235, 255),
        fixed: fixed_colors(),
    }
}

pub fn palette_win_10() -> (d: PaletteData)
    ensures
        d.theme() == win_10_theme(),
        d.wf(),
{
    PaletteData {
        primary_foreground: Rgba::new(204, 204, 204, 255),
        primary_background: Rgba::new(12, 12, 12, 255),
        black: Rgba::new(12, 12, 12, 255),
        red: Rgba::new(197, 15, 31, 255),
        green: Rgba::new(19, 161, 14, 255),
        yellow: Rgba::new(193, 156, 0, 255),
        blue: Rgba::new(0, 55, 218, 255),
        magenta: Rgba::new(136, 23, 152, 255),
        cyan: Rgba::new(58, 150, 221, 255),
        white: Rgba::new(204, 204, 204, 255),
        bright_black: Rgba::new(118, 118, 118, 255),
        bright_red: Rgba::new(231, 72, 86, 255),
        bright_green: Rgba::new(22, 198, 12, 255),
        bright_yellow: Rgba::new(249, 241, 165, 255),
        bright_blue: Rgba::new(59, 120, 255, 255),
        bright_magenta: Rgba::new(180, 0, 158, 255),
        bright_cyan: Rgba::new(97, 214, 214, 255),
        bright_white: Rgba::new(242, 242, 242, 255),
        fixed: fixed_colors(),
    }
}

pub fn palette_win_xp() -> (d: PaletteData)
    ensures
        d.theme() == win_xp_theme(),
        d.wf(),
{
    PaletteData {
        primary_foreground: Rgba::new(192, 192, 192, 255),
        primary_background: Rgba::new(0, 0, 0, 255),
        black: Rgba::new(0, 0, 0, 255),
        red: Rgba::new(128, 0, 0, 255),
        green: Rgba::new(0, 128, 0, 255),
        yellow: Rgba::new(128, 128, 0, 255),
        blue: Rgba::new(0, 0, 128, 255),
        magenta: Rgba::new(128, 0, 128, 255),
        cyan: Rgba::new(0, 128, 128, 255),
        white: Rgba::new(192, 192, 192, 255),
        bright_black: Rgba::new(128, 128, 128, 255),
        bright_red: Rgba::new(255, 0, 0, 255),
        bright_green: Rgba::new(0, 255, 0, 255),
        bright_yellow: Rgba::new(255, 255, 0, 255),
        bright_blue: Rgba::new(0, 0, 255, 255),
        bright_magenta: Rgba::new(255, 0, 255, 255),
        bright_cyan: Rgba::new(0, 255, 255, 255),
        bright_white: Rgba::new(255, 255, 255, 255),
        fixed: fixed_colors(),
    }
}

pub fn palette_win_power_shell() -> (d: PaletteData)
    ensures
        d.theme() == win_power_shell_theme(),
        d.wf(),
{
    PaletteData {
        primary_foreground: Rgba::new(192, 192, 192, 255),
        primary_background: Rgba::new(1, 36, 86, 255),
        black: Rgba::new(0, 0, 0, 255),
        red: Rgba::new(128, 0, 0, 255),
        green: Rgba::new(0, 128, 0, 255),
        yellow: Rgba::new(238, 237, 240, 255),
        blue: Rgba::new(0, 0, 128, 255),
        magenta: Rgba::new(1, 36, 86, 255),
        cyan: Rgba::new(0, 128, 128, 255),
        white: Rgba::new(192, 192, 192, 255),
        bright_black: Rgba::new(128, 128, 128, 255),
        bright_red: Rgba::new(255, 0, 0, 255),
        bright_green: Rgba::new(0, 255, 0, 255),
        bright_yellow: Rgba::new(255, 255, 0, 255),
        bright_blue: Rgba::new(0, 0, 255, 255),
        bright_magenta: Rgba::new(255, 0, 255, 255),
        bright_cyan: Rgba::new(0, 255, 255, 255),
        bright_white: Rgba::new(255, 255, 255, 255),
        fixed: fixed_colors(),
    }
}

pub fn palette_test() -> (d: PaletteData)
    ensures
        d.theme() == test_theme(),
        d.wf(),
{
    PaletteData {
        primary_foreground: Rgba::new(0, 0, 0, 255),
        primary_background: Rgba::new(255, 255, 255, 255),
        black: Rgba::new(0, 0, 0, 255),
        red: Rgba::new(255, 0, 0, 255),
        green: Rgba::new(0, 255, 0, 255),
        yellow: Rgba::new(249, 168, 37, 255),
        blue: Rgba::new(0, 0, 255, 255),
        magenta: Rgba::new(168, 37, 191, 255),
        cyan: Rgba::new(0, 131, 143, 255),
        white: Rgba::new(255, 255, 255, 255),
        bright_black: Rgba::new(44, 44, 44, 255),
        bright_red: Rgba::new(198, 40, 40, 255),
        bright_green: Rgba::new(85, 139, 46, 255),
        bright_yellow: Rgba::new(249, 168, 37, 255),
        bright_blue: Rgba::new(21, 101, 193, 255),
        bright_magenta: Rgba::new(168, 37, 191, 255),
        bright_cyan: Rgba::new(0, 131, 143, 255),
        bright_white: Rgba::new(255, 255, 255, 255),
        fixed: fixed_colors(),
    }
}

/// A palette selection: a named preset or fully custom data.
#[derive(Debug, Clone)]
pub enum Palette {
    Vscode,
    Xterm,
    Eclipse,
    Ubuntu,
    MIRC,
    Putty,
    WinXp,
    WinTerminal,
    Win10,
    WinPs,
    Custom(PaletteData),
    Test,
}

/// The named colors that a palette selection resolves to.
pub open spec fn theme_of(p: Palette) -> Theme {
    match p {
        Palette::Vscode => vscode_theme(),
        Palette::Xterm => xterm_theme(),
        Palette::Eclipse => eclipse_theme(),
        Palette::Ubuntu => ubuntu_theme(),
        Palette::MIRC => mirc_theme(),
        Palette::Putty => putty_theme(),
        Palette::WinXp => win_xp_theme(),
        Palette::WinTerminal => terminal_app_theme(),
        Palette::Win10 => win_10_theme(),
        Palette::WinPs => win_power_shell_theme(),
        Palette::Custom(d) => d.theme(),
        Palette::Test => test_theme(),
    }
}

/// The fixed table that a palette selection carries.
pub open spec fn fixed_of(p: Palette) -> Seq<Rgba> {
    match p {
        Palette::Custom(d) => d.fixed@,
        _ => fixed_table(),
    }
}

/// The named slot of a theme for a normal-intensity base color.
pub open spec fn normal_slot(t: Theme, c: Color) -> Rgba {
    match c {
        Color::Black => t.black,
        Color::Red => t.red,
        Color::Green => t.green,
        Color::Yellow => t.yellow,
        Color::Blue => t.blue,
        Color::Magenta => t.magenta,
        Color::Cyan => t.cyan,
        Color::White => t.white,
    }
}

/// The named slot of a theme for a bright base color.
pub open spec fn bright_slot(t: Theme, c: Color) -> Rgba {
    match c {
        Color::Black => t.bright_black,
        Color::Red => t.bright_red,
        Color::Green => t.bright_green,
        Color::Yellow => t.bright_yellow,
        Color::Blue => t.bright_blue,
        Color::Magenta => t.bright_magenta,
        Color::Cyan => t.bright_cyan,
        Color::White => t.bright_white,
    }
}

/// The concrete color that a palette gives to a color reference.
pub open spec fn resolve(p: Palette, c: ColorType) -> Rgba {
    match c {
        ColorType::PrimaryForeground => theme_of(p).primary_foreground,
        ColorType::PrimaryBackground => theme_of(p).primary_background,
        ColorType::Normal(col) => normal_slot(theme_of(p), col),
        ColorType::Bright(col) => bright_slot(theme_of(p), col),
        ColorType::Fixed(n) => fixed_of(p)[n as int],
        ColorType::Rgb(r, g, b) => rgba(r, g, b, 255),
    }
}

impl Palette {
    /// Well-formedness: custom data must carry the generated fixed table.
    pub open spec fn wf(&self) -> bool {
        match *self {
            Palette::Custom(d) => d.wf(),
            _ => true,
        }
    }

    /// The resolved data of this palette selection.
    pub fn palette(&self) -> (d: PaletteData)
        ensures
            d.theme() == theme_of(*self),
            d.fixed@ == fixed_of(*self),
            self.wf() ==> d.wf(),
    {
        match self {
            Palette::Vscode => palette_vscode(),
            Palette::Xterm => palette_xterm(),
            Palette::Ubuntu => palette_ubuntu(),
            Palette::Eclipse => palette_eclipse(),
            Palette::MIRC => palette_mirc(),
            Palette::Putty => palette_putty(),
            Palette::WinXp => palette_win_xp(),
            Palette::WinTerminal => palette_terminal_app(),
            Palette::Win10 => palette_win_10(),
            Palette::WinPs => palette_win_power_shell(),
            Palette::Test => palette_test(),
            Palette::Custom(p) => PaletteData {
                primary_foreground: p.primary_foreground,
                primary_background: p.primary_background,
                black: p.black,
                red: p.red,
                green: p.green,
                yellow: p.yellow,
                blue: p.blue,
                magenta: p.magenta,
                cyan: p.cyan,
                white: p.white,
                bright_black: p.bright_black,
                bright_red: p.bright_red,
                bright_green: p.bright_green,
                bright_yellow: p.bright_yellow,
                bright_blue: p.bright_blue,
                bright_magenta: p.bright_magenta,
                bright_cyan: p.bright_cyan,
                bright_white: p.bright_white,
                fixed: copy_fixed(&p.fixed),
            },
        }
    }

    /// Resolves a color reference against this palette.
    pub fn get_color(&self, color: ColorType) -> (c: Rgba)
        requires
            self.wf(),
        ensures
            c == resolve(*self, color),
    {
        let data = self.palette();

        match color {
            ColorType::PrimaryForeground => data.primary_foreground,
            ColorType::PrimaryBackground => data.primary_background,
            ColorType::Rgb(r, g, b) => Rgba::new(r, g, b, 255),
            ColorType::Normal(c) => match c {
                Color::Black => data.black,
                Color::Red => data.red,
                Color::Green => data.green,
                Color::Yellow => data.yellow,
                Color::Blue => data.blue,
                Color::Magenta => data.magenta,
                Color::Cyan => data.cyan,
                Color::White => data.white,
            },
            ColorType::Bright(c) => match c {
                Color::Black => data.bright_black,
                Color::Red => data.bright_red,
                Color::Green => data.bright_green,
                Color::Yellow => data.bright_yellow,
                Color::Blue => data.bright_blue,
                Color::Magenta => data.bright_magenta,
                Color::Cyan => data.bright_cyan,
                Color::White => data.bright_white,
            },
            ColorType::Fixed(num) => data.fixed[num as usize],
        }
    }
}
/// ASCII lowercasing of one character; other characters are unchanged.
pub open spec fn lower_char(c: char) -> char {
    if 'A' <= c && c <= 'Z' {
        ((c as int) + 32) as char
    } else {
        c
    }
}

/// ASCII lowercasing of a character sequence.
pub open spec fn ascii_lower(s: Seq<char>) -> Seq<char> {
    s.map_values(|c: char| lower_char(c))
}

fn lower_char_exec(c: char) -> (r: char)
    ensures
        r == lower_char(c),
{
    if 'A' <= c && c <= 'Z' {
        ((c as u8) + 32) as char
    } else {
        c
    }
}

fn ascii_lower_string(s: &String) -> (r: Vec<char>)
    ensures
        r@ == ascii_lower(s@),
{
    let st = s.as_str();
    let n = st.unicode_len();
    let mut r: Vec<char> = Vec::new();
    let mut i: usize = 0;
    while i < n
        invariant
            st@ == s@,
            n == s@.len(),
            i <= n,
            r@.len() == i,
            forall|j: int| 0 <= j < i ==> r@[j] == lower_char(s@[j]),
        decreases n - i,
    {
        r.push(lower_char_exec(st.get_char(i)));
        i = i + 1;
    }
    proof {
        assert(r@ =~= ascii_lower(s@));
    }
    r
}

fn chars_eq_str(v: &Vec<char>, s: &str) -> (r: bool)
    ensures
        r == (v@ == s@),
{
    let n = s.unicode_len();
    if v.len() != n {
        proof {
            assert(v@ != s@);
        }
        return false;
    }
    let mut i: usize = 0;
    while i < n
        invariant
            n == s@.len(),
            n == v@.len(),
            i <= n,
            forall|j: int| 0 <= j < i ==> v@[j] == s@[j],
        decreases n - i,
    {
        if v[i] != s.get_char(i) {
            proof {
                assert(v@[i as int] != s@[i as int]);
            }
            return false;
        }
        i = i + 1;
    }
    proof {
        assert(v@ =~= s@);
    }
    true
}

/// The palette selected by a (case-insensitively matched) preset name.
pub open spec fn palette_for_name(name: Seq<char>) -> Option<Palette> {
    let l = ascii_lower(name);
    if l == "vscode"@ {
        Option::Some(Palette::Vscode)
    } else if l == "xterm"@ {
        Option::Some(Palette::Xterm)
    } else if l == "eclipse"@ {
        Option::Some(Palette::Eclipse)
    } else if l == "ubuntu"@ {
        Option::Some(Palette::Ubuntu)
    } else if l == "mirc"@ {
        Option::Some(Palette::MIRC)
    } else if l == "putty"@ {
        Option::Some(Palette::Putty)
    } else if l == "winxp"@ {
        Option::Some(Palette::WinXp)
    } else if l == "terminal"@ {
        Option::Some(Palette::WinTerminal)
    } else if l == "winterm"@ {
        Option::Some(Palette::WinTerminal)
    } else if l == "win10"@ {
        Option::Some(Palette::Win10)
    } else if l == "win_power-shell"@ {
        Option::Some(Palette::WinPs)
    } else if l == "win_ps"@ {
        Option::Some(Palette::WinPs)
    } else {
        Option::None
    }
}
impl Palette {
    /// Looks a preset up by name, ignoring ASCII case.
    pub fn from_name(name: String) -> (p: Option<Palette>)
        ensures
            p == palette_for_name(name@),
            p matches Some(q) ==> q.wf(),
    {
        let low = ascii_lower_string(&name);
        if chars_eq_str(&low, "vscode") {
            Some(Palette::Vscode)
        } else if chars_eq_str(&low, "xterm") {
            Some(Palette::Xterm)
        } else if chars_eq_str(&low, "eclipse") {
            Some(Palette::Eclipse)
        } else if chars_eq_str(&low, "ubuntu") {
            Some(Palette::Ubuntu)
        } else if chars_eq_str(&low, "mirc") {
            Some(Palette::MIRC)
        } else if chars_eq_str(&low, "putty") {
            Some(Palette::Putty)
        } else if chars_eq_str(&low, "winxp") {
            Some(Palette::WinXp)
        } else if chars_eq_str(&low, "terminal") {
            Some(Palette::WinTerminal)
        } else if chars_eq_str(&low, "winterm") {
            Some(Palette::WinTerminal)
        } else if chars_eq_str(&low, "win10") {
            Some(Palette::Win10)
        } else if chars_eq_str(&low, "win_power-shell") {
            Some(Palette::WinPs)
        } else if chars_eq_str(&low, "win_ps") {
            Some(Palette::WinPs)
        } else {
            None
        }
    }

    /// The preset names accepted by `from_name`.
    pub fn list() -> (r: Vec<String>)
        ensures
            r@.len() == 11,
            r@[0]@ == "vscode"@,
            r@[1]@ == "xterm"@,
            r@[2]@ == "ubuntu"@,
            r@[3]@ == "eclipse"@,
            r@[4]@ == "mirc"@,
            r@[5]@ == "putty"@,
            r@[6]@ == "winxp"@,
            r@[7]@ == "terminal"@,
            r@[8]@ == "win10"@,
            r@[9]@ == "win_power-shell"@,
            r@[10]@ == "win_ps"@,
    {
        let mut r: Vec<String> = Vec::new();
        r.push(String::from_str("vscode"));
        r.push(String::from_str("xterm"));
        r.push(String::from_str("ubuntu"));
        r.push(String::from_str("eclipse"));
        r.push(String::from_str("mirc"));
        r.push(String::from_str("putty"));
        r.push(String::from_str("winxp"));
        r.push(String::from_str("terminal"));
        r.push(String::from_str("win10"));
        r.push(String::from_str("win_power-shell"));
        r.push(String::from_str("win_ps"));
        r
    }
}

/// The override that a hex string selects: a color for a well-formed string,
/// no override otherwise.
pub open spec fn parse_override(o: Option<String>) -> Option<Rgba> {
    match o {
        Option::Some(s) => spec_strhex(s@),
        Option::None => Option::None,
    }
}

fn parse_slot(o: &Option<String>) -> (r: Option<Rgba>)
    ensures
        r == parse_override(*o),
{
    match o {
        Some(s) => strhex_str(s.as_str()),
        None => None,
    }
}

/// Builds a custom palette from a base palette and up to 18 hex-string
/// overrides, one per named color in declaration order; a missing or
/// malformed override leaves the base color in place.
pub fn load_custom_theme(theme: &Palette, overrides: &Vec<Option<String>>) -> (p: Palette)
    requires
        theme.wf(),
        overrides@.len() == 18,
    ensures
        p matches Palette::Custom(d) && d.wf() && d.theme() == merge_theme(
            theme_of(*theme),
            parse_override(overrides@[0]),
            parse_override(overrides@[1]),
            parse_override(overrides@[2]),
            parse_override(overrides@[3]),
            parse_override(overrides@[4]),
            parse_override(overrides@[5]),
            parse_override(overrides@[6]),
            parse_override(overrides@[7]),
            parse_override(overrides@[8]),
            parse_override(overrides@[9]),
            parse_override(overrides@[10]),
            parse_override(overrides@[11]),
            parse_override(overrides@[12]),
            parse_override(overrides@[13]),
            parse_override(overrides@[14]),
            parse_override(overrides@[15]),
            parse_override(overrides@[16]),
            parse_override(overrides@[17]),
        ),
{
    let base = theme.palette();
    let d = base.copy_with(
        parse_slot(&overrides[0]),
        parse_slot(&overrides[1]),
        parse_slot(&overrides[2]),
        parse_slot(&overrides[3]),
        parse_slot(&overrides[4]),
        parse_slot(&overrides[5]),
        parse_slot(&overrides[6]),
        parse_slot(&overrides[7]),
        parse_slot(&overrides[8]),
        parse_slot(&overrides[9]),
        parse_slot(&overrides[10]),
        parse_slot(&overrides[11]),
        parse_slot(&overrides[12]),
        parse_slot(&overrides[13]),
        parse_slot(&overrides[14]),
        parse_slot(&overrides[15]),
        parse_slot(&overrides[16]),
        parse_slot(&overrides[17]),
    );
    Palette::Custom(d)
}

/// The color that an environment-supplied hex string yields: transparent
/// black when the variable is missing or does not parse.
pub open spec fn env_color(o: Option<String>) -> Rgba {
    match o {
        Option::Some(s) => match spec_strhex(s@) {
            Option::Some(c) => c,
            Option::None => rgba(0, 0, 0, 0),
        },
        Option::None => rgba(0, 0, 0, 0),
    }
}

fn env_slot(o: &Option<String>) -> (c: Rgba)
    ensures
        c == env_color(*o),
{
    match o {
        Some(s) => match strhex_str(s.as_str()) {
            Some(c) => c,
            None => Rgba::new(0, 0, 0, 0),
        },
        None => Rgba::new(0, 0, 0, 0),
    }
}

/// Builds palette data from the values of the 18 color environment
/// variables, in declaration order, as the environment-derived theme does.
pub fn palette_env(vars: &Vec<Option<String>>) -> (d: PaletteData)
    requires
        vars@.len() == 18,
    ensures
        d.wf(),
        d.theme() == (Theme {
            primary_foreground: env_color(vars@[0]),
            primary_background: env_color(vars@[1]),
            black: env_color(vars@[2]),
            red: env_color(vars@[3]),
            green: env_color(vars@[4]),
            yellow: env_color(vars@[5]),
            blue: env_color(vars@[6]),
            magenta: env_color(vars@[7]),
            cyan: env_color(vars@[8]),
            white: env_color(vars@[9]),
            bright_black: env_color(vars@[10]),
            bright_red: env_color(vars@[11]),
            bright_green: env_color(vars@[12]),
            bright_yellow: env_color(vars@[13]),
            bright_blue: env_color(vars@[14]),
            bright_magenta: env_color(vars@[15]),
            bright_cyan: env_color(vars@[16]),
            bright_white: env_color(vars@[17]),
        }),
{
    PaletteData {
        primary_foreground: env_slot(&vars[0]),
        primary_background: env_slot(&vars[1]),
        black: env_slot(&vars[2]),
        red: env_slot(&vars[3]),
        green: env_slot(&vars[4]),
        yellow: env_slot(&vars[5]),
        blue: env_slot(&vars[6]),
        magenta: env_slot(&vars[7]),
        cyan: env_slot(&vars[8]),
        white: env_slot(&vars[9]),
        bright_black: env_slot(&vars[10]),
        bright_red: env_slot(&vars[11]),
        bright_green: env_slot(&vars[12]),
        bright_yellow: env_slot(&vars[13]),
        bright_blue: env_slot(&vars[14]),
        bright_magenta: env_slot(&vars[15]),
        bright_cyan: env_slot(&vars[16]),
        bright_white: env_slot(&vars[17]),
        fixed: fixed_colors(),
    }
}

/// The fixed table does not vary with the palette: two well-formed palettes
/// resolve every fixed index to the same color.
pub proof fn lemma_fixed_uniform(p: Palette, q: Palette, n: u8)
    requires
        p.wf(),
        q.wf(),
    ensures
        resolve(p, ColorType::Fixed(n)) == resolve(q, ColorType::Fixed(n)),
        resolve(p, ColorType::Fixed(n)) == fixed_color_spec(n as int),
{
}

/// The color-cube endpoints are invariant across themes: index 16 is black
/// and index 231 is white for every well-formed palette.
pub proof fn lemma_fixed_cube_endpoints(p: Palette)
    requires
        p.wf(),
    ensures
        resolve(p, ColorType::Fixed(16)) == rgba(0, 0, 0, 255),
        resolve(p, ColorType::Fixed(231)) == rgba(255, 255, 255, 255),
{
    lemma_fixed_uniform(p, p, 16);
    lemma_fixed_uniform(p, p, 231);
    assert(fixed_color_spec(16) == rgba(0, 0, 0, 255));
    assert(fixed_color_spec(231) == rgba(255, 255, 255, 255));
}

/// Direct colors bypass the palette: resolving `Rgb(r, g, b)` yields
/// `(r, g, b, 255)` whatever the active palette.
pub proof fn lemma_rgb_roundtrip(p: Palette, r: u8, g: u8, b: u8)
    ensures
        resolve(p, ColorType::Rgb(r, g, b)) == rgba(r, g, b, 255),
{
}

/// Overriding only the primary background leaves the other 17 named colors
/// of the base theme untouched.
pub proof fn lemma_override_bg_only(base: Theme, c: Rgba)
    ensures
        ({
            let m = merge_theme(
                base,
                None, Some(c), None, None, None, None, None, None, None,
                None, None, None, None, None, None, None, None, None,
            );
            m.primary_background == c
            && m.primary_foreground == base.primary_foreground
            && m.black == base.black
            && m.red == base.red
            && m.green == base.green
            && m.yellow == base.yellow
            && m.blue == base.blue
            && m.magenta == base.magenta
            && m.cyan == base.cyan
            && m.white == base.white
            && m.bright_black == base.bright_black
            && m.bright_red == base.bright_red
            && m.bright_green == base.bright_green
            && m.bright_yellow == base.bright_yellow
            && m.bright_blue == base.bright_blue
            && m.bright_magenta == base.bright_magenta
            && m.bright_cyan == base.bright_cyan
            && m.bright_white == base.bright_white
        }),
{
}

} // verus!