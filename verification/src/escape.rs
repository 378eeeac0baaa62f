//! SGR (Select Graphic Rendition) parameter interpretation.
//!
//! The numeric parameter list of a CSI `m` sequence is read left to right.
//! Most codes map one-to-one to a style action; the color-extension codes 38
//! (foreground) and 48 (background) consume a mode selector and further
//! parameters. A malformed extension degrades to the corresponding primary
//! color and interpretation continues with the remaining parameters.

use vstd::prelude::*;

use crate::color::{Color, ColorType};

verus! {

/// One semantic style action produced by SGR interpretation. Only a subset
/// changes the rendered output; the rest are recognized and inert.
#[derive(Clone, Copy, Debug, PartialEq, Eq, Structural)]
pub enum EscapeSequence {
    Reset,
    BlackLetterFont,
    Bold,
    Faint,
    Italic,
    RapidBlink,
    SlowBlink,
    Underline,
    NotBold,
    NotUnderline,
    NormalIntensity,
    NotItalicNorBlackLetter,
    NotBlinking,
    ReverseVideo,
    Conceal,
    CrossedOut,
    DefaultForegroundColor,
    DefaultBackgroundColor,
    PrimaryFont,
    SetAlternativeFont,
    ForegroundColor(ColorType),
    BackgroundColor(ColorType),
    DisableProportionalSpacing,
    NeitherSuperscriptNorSubscript,
    NotReserved,
    Unimplemented(u16),
    Ignore,
}

/// The base color selected by an index in 0..=7.
pub open spec fn base_color_of(n: int) -> Color {
    if n == 0 {
        Color::Black
    } else if n == 1 {
        Color::Red
    } else if n == 2 {
        Color::Green
    } else if n == 3 {
        Color::Yellow
    } else if n == 4 {
        Color::Blue
    } else if n == 5 {
        Color::Magenta
    } else if n == 6 {
        Color::Cyan
    } else {
        Color::White
    }
}

/// The action of a single scalar SGR code (the standard SGR table).
pub open spec fn single_action(code: u16) -> EscapeSequence {
    if code == 0 {
        EscapeSequence::Reset
    } else if code == 1 {
        EscapeSequence::Bold
    } else if code == 2 {
        EscapeSequence::Faint
    } else if code == 3 {
        EscapeSequence::Italic
    } else if code == 4 {
        EscapeSequence::Underline
    } else if code == 5 {
        EscapeSequence::SlowBlink
    } else if code == 6 {
        EscapeSequence::RapidBlink
    } else if code == 7 {
        EscapeSequence::ReverseVideo
    } else if code == 8 {
        EscapeSequence::Conceal
    } else if code == 9 {
        EscapeSequence::CrossedOut
    } else if code == 10 {
        EscapeSequence::PrimaryFont
    } else if 11 <= code && code <= 19 {
        EscapeSequence::SetAlternativeFont
    } else if code == 20 {
        EscapeSequence::BlackLetterFont
    } else if code == 21 {
        EscapeSequence::NotBold
    } else if code == 22 {
        EscapeSequence::NormalIntensity
    } else if code == 23 {
        EscapeSequence::NotItalicNorBlackLetter
    } else if code == 24 {
        EscapeSequence::NotUnderline
    } else if code == 25 {
        EscapeSequence::NotBlinking
    } else if code == 26 {
        EscapeSequence::Ignore
    } else if code == 27 {
        EscapeSequence::NotReserved
    } else if code == 28 || code == 29 {
        EscapeSequence::Ignore
    } else if 30 <= code && code <= 37 {
        EscapeSequence::ForegroundColor(ColorType::Normal(base_color_of(code - 30)))
    } else if code == 38 {
        EscapeSequence::DefaultForegroundColor
    } else if code == 39 {
        EscapeSequence::DefaultForegroundColor
    } else if 40 <= code && code <= 47 {
        EscapeSequence::BackgroundColor(ColorType::Normal(base_color_of(code - 40)))
    } else if code == 48 {
        EscapeSequence::DefaultBackgroundColor
    } else if code == 49 {
        EscapeSequence::DefaultBackgroundColor
    } else if code == 50 {
        EscapeSequence::DisableProportionalSpacing
    } else if code == 53 {
        EscapeSequence::CrossedOut
    } else if code == 75 {
        EscapeSequence::NeitherSuperscriptNorSubscript
    } else if 90 <= code && code <= 97 {
        EscapeSequence::ForegroundColor(ColorType::Bright(base_color_of(code - 90)))
    } else if 100 <= code && code <= 107 {
        EscapeSequence::BackgroundColor(ColorType::Bright(base_color_of(code - 100)))
    } else {
        EscapeSequence::Unimplemented(code)
    }
}

/// A parameter value clamped into a color channel.
pub open spec fn clamp_u8(v: u16) -> u8 {
    if v > 255 {
        255
    } else {
        v as u8
    }
}

/// How many parameters the color extension starting at the mode selector at
/// index `i` consumes (not counting the introducing 38 or 48 itself).
pub open spec fn ext_consumed(params: Seq<u16>, i: int) -> int {
    if i >= params.len() {
        0
    } else if params[i] == 5 {
        if i + 1 < params.len() {
            2
        } else {
            1
        }
    } else if params[i] == 2 {
        if i + 3 < params.len() {
            4
        } else {
            params.len() - i
        }
    } else {
        1
    }
}

/// The color selected by the extension whose mode selector sits at index
/// `i`, or `None` when the extension is malformed.
pub open spec fn ext_color(params: Seq<u16>, i: int) -> Option<ColorType> {
    if i >= params.len() {
        Option::None
    } else if params[i] == 5 {
        if i + 1 < params.len() {
            let n = params[i + 1];
            if n <= 7 {
                Option::Some(ColorType::Normal(base_color_of(n as int)))
            } else if n <= 15 {
                Option::Some(ColorType::Bright(base_color_of(n - 8)))
            } else if n <= 255 {
                Option::Some(ColorType::Fixed(n as u8))
            } else {
                Option::None
            }
        } else {
            Option::None
        }
    } else if params[i] == 2 {
        if i + 3 < params.len() {
            Option::Some(
                ColorType::Rgb(
                    clamp_u8(params[i + 1]),
                    clamp_u8(params[i + 2]),
                    clamp_u8(params[i + 3]),
                ),
            )
        } else {
            Option::None
        }
    } else {
        Option::None
    }
}

/// The ordered style actions denoted by an SGR parameter list.
pub open spec fn sgr_actions(params: Seq<u16>) -> Seq<EscapeSequence>
    decreases params.len(),
{
    if params.len() == 0 {
        Seq::<EscapeSequence>::empty()
    } else {
        let code = params[0];
        if code == 38 || code == 48 {
            let consumed = 1 + ext_consumed(params, 1);
            let color = match ext_color(params, 1) {
                Option::Some(c) => c,
                Option::None => if code == 38 {
                    ColorType::PrimaryForeground
                } else {
                    ColorType::PrimaryBackground
                },
            };
            let action = if code == 38 {
                EscapeSequence::ForegroundColor(color)
            } else {
                EscapeSequence::BackgroundColor(color)
            };
            seq![action] + sgr_actions(params.skip(consumed))
        } else {
            seq![single_action(code)] + sgr_actions(params.skip(1))
        }
    }
}

impl EscapeSequence {
    /// The action of one scalar SGR code.
    pub fn parse_single(code: u16) -> (a: EscapeSequence)
        ensures
            a == single_action(code),
    {
        match code {
            0 => EscapeSequence::Reset,
            1 => EscapeSequence::Bold,
            2 => EscapeSequence::Faint,
            3 => EscapeSequence::Italic,
            4 => EscapeSequence::Underline,
            5 => EscapeSequence::SlowBlink,
            6 => EscapeSequence::RapidBlink,
            7 => EscapeSequence::ReverseVideo,
            8 => EscapeSequence::Conceal,
            9 => EscapeSequence::CrossedOut,
            10 => EscapeSequence::PrimaryFont,
            11..=19 => EscapeSequence::SetAlternativeFont,
            20 => EscapeSequence::BlackLetterFont,
            21 => EscapeSequence::NotBold,
            22 => EscapeSequence::NormalIntensity,
            23 => EscapeSequence::NotItalicNorBlackLetter,
            24 => EscapeSequence::NotUnderline,
            25 => EscapeSequence::NotBlinking,
            26 => EscapeSequence::Ignore,
            27 => EscapeSequence::NotReserved,
            28 | 29 => EscapeSequence::Ignore,
            30..=37 => EscapeSequence::ForegroundColor(
                ColorType::Normal(base_color((code - 30) as u8)),
            ),
            38 | 39 => EscapeSequence::DefaultForegroundColor,
            40..=47 => EscapeSequence::BackgroundColor(
                ColorType::Normal(base_color((code - 40) as u8)),
            ),
            48 | 49 => EscapeSequence::DefaultBackgroundColor,
            50 => EscapeSequence::DisableProportionalSpacing,
            53 => EscapeSequence::CrossedOut,
            75 => EscapeSequence::NeitherSuperscriptNorSubscript,
            90..=97 => EscapeSequence::ForegroundColor(
                ColorType::Bright(base_color((code - 90) as u8)),
            ),
            100..=107 => EscapeSequence::BackgroundColor(
                ColorType::Bright(base_color((code - 100) as u8)),
            ),
            v => EscapeSequence::Unimplemented(v),
        }
    }

    /// Interprets a whole SGR parameter list, left to right.
    pub fn parse_params(params: &Vec<u16>) -> (r: Vec<EscapeSequence>)
        ensures
            r@ == sgr_actions(params@),
    {
        let mut r: Vec<EscapeSequence> = Vec::new();
        let mut i: usize = 0;
        let n = params.len();
        proof {
            assert(params@.skip(0) =~= params@);
        }
        while i < n
            invariant
                n == params@.len(),
                i <= n,
                sgr_actions(params@) == r@ + sgr_actions(params@.skip(i as int)),
            decreases n - i,
        {
            let ghost suffix = params@.skip(i as int);
            let code = params[i];
            proof {
                assert(suffix[0] == params@[i as int]);
            }
            if code == 38 || code == 48 {
                let fallback = if code == 38 {
                    ColorType::PrimaryForeground
                } else {
                    ColorType::PrimaryBackground
                };
                let (color, consumed): (ColorType, usize) = if i + 1 < n {
                    let mode = params[i + 1];
                    proof {
                        assert(suffix[1] == params@[i + 1]);
                    }
                    if mode == 5 {
                        if i + 2 < n {
                            let v = params[i + 2];
                            proof {
                                assert(suffix[2] == params@[i + 2]);
                            }
                            let c = if v <= 7 {
                                ColorType::Normal(base_color(v as u8))
                            } else if v <= 15 {
                                ColorType::Bright(base_color((v - 8) as u8))
                            } else if v <= 255 {
                                ColorType::Fixed(v as u8)
                            } else {
                                fallback
                            };
                            (c, 3)
                        } else {
                            (fallback, 2)
                        }
                    } else if mode == 2 {
                        if n - i > 4 {
                            let cr = params[i + 2];
                            let cg = params[i + 3];
                            let cb = params[i + 4];
                            proof {
                                assert(suffix[2] == params@[i + 2]);
                                assert(suffix[3] == params@[i + 3]);
                                assert(suffix[4] == params@[i + 4]);
                            }
                            (ColorType::Rgb(clamp_exec(cr), clamp_exec(cg), clamp_exec(cb)), 5)
                        } else {
                            (fallback, n - i)
                        }
                    } else {
                        (fallback, 2)
                    }
                } else {
                    (fallback, 1)
                };
                let action = if code == 38 {
                    EscapeSequence::ForegroundColor(color)
                } else {
                    EscapeSequence::BackgroundColor(color)
                };
                proof {
                    assert(consumed == 1 + ext_consumed(suffix, 1));
                    assert(suffix.skip(consumed as int) =~= params@.skip(i + consumed));
                    let sc = match ext_color(suffix, 1) {
                        Option::Some(c) => c,
                        Option::None => if code == 38 {
                            ColorType::PrimaryForeground
                        } else {
                            ColorType::PrimaryBackground
                        },
                    };
                    assert(color == sc);
                    assert(sgr_actions(suffix) == seq![action] + sgr_actions(
                        suffix.skip(consumed as int),
                    ));
                    assert(sgr_actions(suffix) == seq![action] + sgr_actions(
                        params@.skip(i + consumed),
                    ));
                }
                r.push(action);
                i = i + consumed;
            } else {
                let action = EscapeSequence::parse_single(code);
                proof {
                    assert(suffix.skip(1) =~= params@.skip(i + 1));
                    assert(sgr_actions(suffix) == seq![action] + sgr_actions(params@.skip(i + 1)));
                }
                r.push(action);
                i = i + 1;
            }
        }
        proof {
            assert(params@.skip(n as int) =~= Seq::<u16>::empty());
            assert(r@ =~= sgr_actions(params@));
        }
        r
    }
}

/// The base color selected by an index in 0..=7.
pub fn base_color(n: u8) -> (c: Color)
    requires
        n <= 7,
    ensures
        c == base_color_of(n as int),
{
    match n {
        0 => Color::Black,
        1 => Color::Red,
        2 => Color::Green,
        3 => Color::Yellow,
        4 => Color::Blue,
        5 => Color::Magenta,
        6 => Color::Cyan,
        _ => Color::White,
    }
}

fn clamp_exec(v: u16) -> (c: u8)
    ensures
        c == clamp_u8(v),
{
    if v > 255 {
        255
    } else {
        v as u8
    }
}

/// A malformed color extension (here the invalid mode 9) degrades to the
/// primary foreground, and interpretation continues with the parameters
/// that follow it.
pub proof fn lemma_malformed_mode_degrades(rest: Seq<u16>)
    ensures
        sgr_actions(seq![38u16, 9u16] + rest) == seq![
            EscapeSequence::ForegroundColor(ColorType::PrimaryForeground),
        ] + sgr_actions(rest),
{
    let p = seq![38u16, 9u16] + rest;
    assert(p[0] == 38);
    assert(p[1] == 9);
    assert(ext_consumed(p, 1) == 1);
    assert(ext_color(p, 1) is None);
    assert(p.skip(2) =~= rest);
}

} // verus!
