//! The accumulated style state and the font-trait composition rules.

use vstd::prelude::*;

use crate::color::ColorType;
use crate::escape::EscapeSequence;

verus! {

/// The font face selected for a cell: the four combinations of the bold and
/// italic traits.
#[derive(Clone, Copy, Debug, PartialEq, Eq, Structural)]
pub enum FontStyle {
    Normal,
    Bold,
    Italic,
    BoldItalic,
}

/// Composition of font traits: adding a trait is idempotent, and adding
/// bold to italic (in either order) gives bold italic.
pub open spec fn spec_add_font(cur: FontStyle, other: FontStyle) -> FontStyle {
    match (cur, other) {
        (FontStyle::Normal, FontStyle::Normal) => FontStyle::Normal,
        (FontStyle::Bold, FontStyle::Bold)
        | (FontStyle::Bold, FontStyle::Normal)
        | (FontStyle::Normal, FontStyle::Bold) => FontStyle::Bold,
        (FontStyle::Italic, FontStyle::Italic)
        | (FontStyle::Italic, FontStyle::Normal)
        | (FontStyle::Normal, FontStyle::Italic) => FontStyle::Italic,
        _ => FontStyle::BoldItalic,
    }
}

/// Removal of font traits: removing a trait not present is a no-op, except
/// that removing from bold italic keeps the other trait.
pub open spec fn spec_sub_font(cur: FontStyle, other: FontStyle) -> FontStyle {
    match (cur, other) {
        (FontStyle::Italic, FontStyle::Italic)
        | (FontStyle::BoldItalic, FontStyle::BoldItalic)
        | (FontStyle::Bold, FontStyle::Bold)
        | (FontStyle::Normal, FontStyle::Normal)
        | (FontStyle::Normal, FontStyle::Bold)
        | (FontStyle::Normal, FontStyle::Italic)
        | (FontStyle::Bold, FontStyle::BoldItalic)
        | (FontStyle::Italic, FontStyle::BoldItalic)
        | (FontStyle::Normal, FontStyle::BoldItalic) => FontStyle::Normal,
        (FontStyle::Bold, FontStyle::Normal)
        | (FontStyle::Bold, FontStyle::Italic)
        | (FontStyle::BoldItalic, FontStyle::Italic) => FontStyle::Bold,
        (FontStyle::Italic, FontStyle::Normal)
        | (FontStyle::Italic, FontStyle::Bold)
        | (FontStyle::BoldItalic, FontStyle::Bold) => FontStyle::Italic,
        (FontStyle::BoldItalic, FontStyle::Normal) => FontStyle::BoldItalic,
    }
}

/// Adds a font trait to the current font selection.
pub fn add_font(cur: FontStyle, other: FontStyle) -> (r: FontStyle)
    ensures
        r == spec_add_font(cur, other),
{
    match (cur, other) {
        (FontStyle::Normal, FontStyle::Normal) => FontStyle::Normal,
        (FontStyle::Bold, FontStyle::Bold)
        | (FontStyle::Bold, FontStyle::Normal)
        | (FontStyle::Normal, FontStyle::Bold) => FontStyle::Bold,
        (FontStyle::Italic, FontStyle::Italic)
        | (FontStyle::Italic, FontStyle::Normal)
        | (FontStyle::Normal, FontStyle::Italic) => FontStyle::Italic,
        _ => FontStyle::BoldItalic,
    }
}

/// Removes a font trait from the current font selection.
pub fn sub_font(cur: FontStyle, other: FontStyle) -> (r: FontStyle)
    ensures
        r == spec_sub_font(cur, other),
{
    match (cur, other) {
        (FontStyle::Italic, FontStyle::Italic)
        | (FontStyle::BoldItalic, FontStyle::BoldItalic)
        | (FontStyle::Bold, FontStyle::Bold)
        | (FontStyle::Normal, FontStyle::Normal)
        | (FontStyle::Normal, FontStyle::Bold)
        | (FontStyle::Normal, FontStyle::Italic)
        | (FontStyle::Bold, FontStyle::BoldItalic)
        | (FontStyle::Italic, FontStyle::BoldItalic)
        | (FontStyle::Normal, FontStyle::BoldItalic) => FontStyle::Normal,
        (FontStyle::Bold, FontStyle::Normal)
        | (FontStyle::Bold, FontStyle::Italic)
        | (FontStyle::BoldItalic, FontStyle::Italic) => FontStyle::Bold,
        (FontStyle::Italic, FontStyle::Normal)
        | (FontStyle::Italic, FontStyle::Bold)
        | (FontStyle::BoldItalic, FontStyle::Bold) => FontStyle::Italic,
        (FontStyle::BoldItalic, FontStyle::Normal) => FontStyle::BoldItalic,
    }
}

/// The style applied to printed characters: colors, font traits and the
/// underline flag.
#[derive(Clone, Copy, Debug, PartialEq, Eq, Structural)]
pub struct Style {
    pub foreground: ColorType,
    pub background: ColorType,
    pub font: FontStyle,
    pub underline: bool,
}

/// The style in force before any SGR sequence: primary colors, normal
/// font, no underline.
pub open spec fn default_style() -> Style {
    Style {
        foreground: ColorType::PrimaryForeground,
        background: ColorType::PrimaryBackground,
        font: FontStyle::Normal,
        underline: false,
    }
}

impl Default for Style {
    fn default() -> (s: Style)
        ensures
            s == default_style(),
    {
        Style {
            foreground: ColorType::PrimaryForeground,
            background: ColorType::PrimaryBackground,
            font: FontStyle::Normal,
            underline: false,
        }
    }
}

/// The effect of one style action on the accumulated style. Recognized but
/// unimplemented actions leave the style unchanged.
pub open spec fn apply_action(s: Style, a: EscapeSequence) -> Style {
    match a {
        EscapeSequence::Reset => default_style(),
        EscapeSequence::Bold => Style { font: spec_add_font(s.font, FontStyle::Bold), ..s },
        EscapeSequence::Italic => Style { font: spec_add_font(s.font, FontStyle::Italic), ..s },
        EscapeSequence::Underline => Style { underline: true, ..s },
        EscapeSequence::NotBold => Style { font: spec_sub_font(s.font, FontStyle::Bold), ..s },
        EscapeSequence::NotItalicNorBlackLetter => Style {
            font: spec_sub_font(s.font, FontStyle::Italic),
            ..s
        },
        EscapeSequence::NotUnderline => Style { underline: false, ..s },
        EscapeSequence::ForegroundColor(c) => Style { foreground: c, ..s },
        EscapeSequence::BackgroundColor(c) => Style { background: c, ..s },
        EscapeSequence::DefaultForegroundColor => Style {
            foreground: ColorType::PrimaryForeground,
            ..s
        },
        EscapeSequence::DefaultBackgroundColor => Style {
            background: ColorType::PrimaryBackground,
            ..s
        },
        _ => s,
    }
}

/// The effect of an ordered sequence of style actions.
pub open spec fn apply_actions(s: Style, actions: Seq<EscapeSequence>) -> Style
    decreases actions.len(),
{
    if actions.len() == 0 {
        s
    } else {
        apply_actions(apply_action(s, actions[0]), actions.skip(1))
    }
}

impl Style {
    /// Applies one style action.
    pub fn apply(self, a: &EscapeSequence) -> (r: Style)
        ensures
            r == apply_action(self, *a),
    {
        match a {
            EscapeSequence::Reset => Style::default(),
            EscapeSequence::Bold => Style { font: add_font(self.font, FontStyle::Bold), ..self },
            EscapeSequence::Italic => Style {
                font: add_font(self.font, FontStyle::Italic),
                ..self
            },
            EscapeSequence::Underline => Style { underline: true, ..self },
            EscapeSequence::NotBold => Style { font: sub_font(self.font, FontStyle::Bold), ..self },
            EscapeSequence::NotItalicNorBlackLetter => Style {
                font: sub_font(self.font, FontStyle::Italic),
                ..self
            },
            EscapeSequence::NotUnderline => Style { underline: false, ..self },
            EscapeSequence::ForegroundColor(c) => Style { foreground: *c, ..self },
            EscapeSequence::BackgroundColor(c) => Style { background: *c, ..self },
            EscapeSequence::DefaultForegroundColor => Style {
                foreground: ColorType::PrimaryForeground,
                ..self
            },
            EscapeSequence::DefaultBackgroundColor => Style {
                background: ColorType::PrimaryBackground,
                ..self
            },
            _ => self,
        }
    }
}

/// Unfolding step: applying a non-empty action sequence applies its head
/// first.
pub proof fn lemma_apply_actions_step(s: Style, a: EscapeSequence, rest: Seq<EscapeSequence>)
    ensures
        apply_actions(s, seq![a] + rest) == apply_actions(apply_action(s, a), rest),
{
    let q = seq![a] + rest;
    assert(q[0] == a);
    assert(q.skip(1) =~= rest);
}

/// A reset action restores the default style whatever the prior state, so
/// interpreting a parameter list that starts with `0` does not depend on
/// the style accumulated before it.
pub proof fn lemma_reset_forgets_state(s1: Style, s2: Style, rest: Seq<u16>)
    ensures
        apply_action(s1, EscapeSequence::Reset) == default_style(),
        apply_action(default_style(), EscapeSequence::Reset) == default_style(),
        apply_actions(s1, crate::escape::sgr_actions(seq![0u16] + rest)) == apply_actions(
            s2,
            crate::escape::sgr_actions(seq![0u16] + rest),
        ),
{
    let q = seq![0u16] + rest;
    assert(q[0] == 0);
    assert(q.skip(1) =~= rest);
    let actions = crate::escape::sgr_actions(q);
    assert(actions == seq![EscapeSequence::Reset] + crate::escape::sgr_actions(rest));
    lemma_apply_actions_step(s1, EscapeSequence::Reset, crate::escape::sgr_actions(rest));
    lemma_apply_actions_step(s2, EscapeSequence::Reset, crate::escape::sgr_actions(rest));
}

/// Bold and italic compose commutatively: whatever the starting font, adding
/// bold then italic equals adding italic then bold (both give bold italic),
/// and removing bold afterwards leaves italic.
pub proof fn lemma_bold_italic_commute(f: FontStyle)
    ensures
        spec_add_font(spec_add_font(f, FontStyle::Bold), FontStyle::Italic) == spec_add_font(
            spec_add_font(f, FontStyle::Italic),
            FontStyle::Bold,
        ),
        spec_add_font(spec_add_font(f, FontStyle::Bold), FontStyle::Italic)
            == FontStyle::BoldItalic,
        spec_sub_font(
            spec_add_font(spec_add_font(f, FontStyle::Bold), FontStyle::Italic),
            FontStyle::Bold,
        ) == FontStyle::Italic,
        spec_sub_font(
            spec_add_font(spec_add_font(f, FontStyle::Italic), FontStyle::Bold),
            FontStyle::Bold,
        ) == FontStyle::Italic,
{
}

} // verus!
