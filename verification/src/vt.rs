//! The VT byte-stream tokenizer and the terminal it drives.
//!
//! Bytes are classified by a resumable state machine following the ANSI/VT
//! grammar: printable text (decoded from UTF-8, with one replacement
//! character for an invalid sequence), C0 control bytes, CSI sequences with
//! numeric parameters, and the recognized-but-inert escape, OSC and DCS
//! families. State persists between feed calls, so a stream may be split at
//! any chunk boundary without spurious events.

use vstd::prelude::*;

use crate::grid::{
    initial_grid, spec_apply_sgr, spec_execute, spec_print, GridModel, TextGrid,
};

verus! {

/// Relies on char::from_u32: it yields the character of any numeric value
/// that is a Unicode scalar, and nothing for surrogates or values past the
/// last codepoint.
pub assume_specification [ char::from_u32 ](i: u32) -> (r: Option<char>)
    ensures
        r is Some <==> (i < 0xD800 || (0xDFFF < i && i <= 0x10FFFF)),
        r matches Some(c) ==> c as u32 == i,
;

/// The states of the tokenizer.
#[derive(Clone, Copy, Debug, PartialEq, Eq, Structural)]
pub enum VtMode {
    /// Plain text.
    Ground,
    /// After an ESC byte.
    Escape,
    /// Inside a CSI sequence, collecting numeric parameters.
    Csi,
    /// Inside an OSC string (inert), waiting for its terminator.
    Osc,
    /// After an ESC inside an OSC string.
    OscEscape,
    /// Inside a DCS string (inert), waiting for its terminator.
    Dcs,
    /// After an ESC inside a DCS string.
    DcsEscape,
    /// Inside a multi-byte UTF-8 encoding.
    Utf8,
}

/// The whole terminal — tokenizer and grid — as one specification-level
/// value.
#[verifier::ext_equal]
pub ghost struct TermModel {
    pub mode: VtMode,
    pub params: Seq<u16>,
    pub current: u16,
    pub cp: u32,
    pub need: u8,
    pub min_cp: u32,
    pub grid: GridModel,
}

/// The character printed in place of an invalid UTF-8 sequence.
pub open spec fn replacement() -> char {
    '\u{fffd}'
}

/// One byte in the ground state: ESC opens a sequence, C0 bytes execute,
/// printable ASCII prints, UTF-8 lead bytes open a multi-byte decode, and
/// anything invalid prints one replacement character.
pub open spec fn spec_ground(t: TermModel, b: u8) -> TermModel {
    if b == 0x1b {
        TermModel { mode: VtMode::Escape, ..t }
    } else if b < 0x20 {
        TermModel { grid: spec_execute(t.grid, b), ..t }
    } else if b <= 0x7e {
        TermModel { grid: spec_print(t.grid, b as char), ..t }
    } else if b == 0x7f {
        t
    } else if 0xc2 <= b && b <= 0xdf {
        TermModel { mode: VtMode::Utf8, cp: (b & 0x1f) as u32, need: 1, min_cp: 0x80, ..t }
    } else if 0xe0 <= b && b <= 0xef {
        TermModel { mode: VtMode::Utf8, cp: (b & 0x0f) as u32, need: 2, min_cp: 0x800, ..t }
    } else if 0xf0 <= b && b <= 0xf4 {
        TermModel { mode: VtMode::Utf8, cp: (b & 0x07) as u32, need: 3, min_cp: 0x10000, ..t }
    } else {
        TermModel { grid: spec_print(t.grid, replacement()), ..t }
    }
}

/// Whether a decoded codepoint is a valid Unicode scalar no shorter than
/// its encoding requires.
pub open spec fn valid_scalar(cp: u32, min_cp: u32) -> bool {
    min_cp <= cp && cp <= 0x10ffff && !(0xd800 <= cp && cp <= 0xdfff)
}

/// One byte while inside a multi-byte UTF-8 encoding: a continuation byte
/// extends the codepoint; anything else prints a replacement character and
/// is then handled from the ground state.
pub open spec fn spec_utf8(t: TermModel, b: u8) -> TermModel {
    if 0x80 <= b && b <= 0xbf {
        let cp = (t.cp << 6u32) | ((b & 0x3f) as u32);
        if t.need <= 1 {
            let c = if valid_scalar(cp, t.min_cp) {
                cp as char
            } else {
                replacement()
            };
            TermModel { mode: VtMode::Ground, cp: 0, need: 0, grid: spec_print(t.grid, c), ..t }
        } else {
            TermModel { cp, need: (t.need - 1) as u8, ..t }
        }
    } else {
        let t1 = TermModel {
            mode: VtMode::Ground,
            cp: 0,
            need: 0,
            grid: spec_print(t.grid, replacement()),
            ..t
        };
        spec_ground(t1, b)
    }
}

/// One byte after ESC: `[` opens a CSI sequence, `]` an OSC string, `P` a
/// DCS string; other final bytes dispatch inertly back to ground.
pub open spec fn spec_escape(t: TermModel, b: u8) -> TermModel {
    if b == 0x5b {
        TermModel { mode: VtMode::Csi, params: Seq::empty(), current: 0, ..t }
    } else if b == 0x5d {
        TermModel { mode: VtMode::Osc, ..t }
    } else if b == 0x50 {
        TermModel { mode: VtMode::Dcs, ..t }
    } else if b == 0x1b {
        t
    } else if b < 0x20 {
        TermModel { grid: spec_execute(t.grid, b), ..t }
    } else {
        TermModel { mode: VtMode::Ground, ..t }
    }
}

/// The running parameter value extended by one decimal digit, saturating.
pub open spec fn param_digit(current: u16, d: u8) -> u16 {
    if current as int * 10 + d > 0xffff {
        0xffff
    } else {
        (current as int * 10 + d) as u16
    }
}

/// One byte inside a CSI sequence: digits build a parameter, separators
/// close one, a final byte dispatches the sequence — only `m` (SGR) has an
/// effect — and C0 bytes still execute.
pub open spec fn spec_csi(t: TermModel, b: u8) -> TermModel {
    if 0x30 <= b && b <= 0x39 {
        TermModel { current: param_digit(t.current, (b - 0x30) as u8), ..t }
    } else if b == 0x3a || b == 0x3b {
        TermModel { params: t.params.push(t.current), current: 0, ..t }
    } else if 0x3c <= b && b <= 0x3f {
        t
    } else if 0x20 <= b && b <= 0x2f {
        t
    } else if b == 0x1b {
        TermModel { mode: VtMode::Escape, ..t }
    } else if b < 0x20 {
        TermModel { grid: spec_execute(t.grid, b), ..t }
    } else if b == 0x7f {
        t
    } else if b <= 0x7e {
        let ps = t.params.push(t.current);
        let grid = if b == 0x6d {
            spec_apply_sgr(t.grid, ps)
        } else {
            t.grid
        };
        TermModel { mode: VtMode::Ground, params: Seq::empty(), current: 0, grid, ..t }
    } else {
        t
    }
}

/// One byte inside an OSC string: BEL or ESC-backslash terminates it; the
/// contents are inert.
pub open spec fn spec_osc(t: TermModel, b: u8) -> TermModel {
    if b == 0x07 {
        TermModel { mode: VtMode::Ground, ..t }
    } else if b == 0x1b {
        TermModel { mode: VtMode::OscEscape, ..t }
    } else {
        t
    }
}

/// The byte after an ESC inside an OSC string: a backslash completes the
/// terminator; anything else is handled as if after a bare ESC.
pub open spec fn spec_osc_escape(t: TermModel, b: u8) -> TermModel {
    if b == 0x5c {
        TermModel { mode: VtMode::Ground, ..t }
    } else {
        spec_escape(TermModel { mode: VtMode::Escape, ..t }, b)
    }
}

/// One byte inside a DCS string: like an OSC string, wholly inert.
pub open spec fn spec_dcs(t: TermModel, b: u8) -> TermModel {
    if b == 0x1b {
        TermModel { mode: VtMode::DcsEscape, ..t }
    } else {
        t
    }
}

/// The byte after an ESC inside a DCS string.
pub open spec fn spec_dcs_escape(t: TermModel, b: u8) -> TermModel {
    if b == 0x5c {
        TermModel { mode: VtMode::Ground, ..t }
    } else {
        spec_escape(TermModel { mode: VtMode::Escape, ..t }, b)
    }
}

/// The transition of the whole terminal on one input byte.
pub open spec fn spec_step(t: TermModel, b: u8) -> TermModel {
    match t.mode {
        VtMode::Ground => spec_ground(t, b),
        VtMode::Escape => spec_escape(t, b),
        VtMode::Csi => spec_csi(t, b),
        VtMode::Osc => spec_osc(t, b),
        VtMode::OscEscape => spec_osc_escape(t, b),
        VtMode::Dcs => spec_dcs(t, b),
        VtMode::DcsEscape => spec_dcs_escape(t, b),
        VtMode::Utf8 => spec_utf8(t, b),
    }
}

/// The transition of the whole terminal on a byte sequence.
pub open spec fn spec_feed(t: TermModel, bytes: Seq<u8>) -> TermModel
    decreases bytes.len(),
{
    if bytes.len() == 0 {
        t
    } else {
        spec_feed(spec_step(t, bytes[0]), bytes.skip(1))
    }
}

/// The state of a fresh terminal.
pub open spec fn initial_term(advance: u32, line_height: u32, max_width: Option<u32>) -> TermModel {
    TermModel {
        mode: VtMode::Ground,
        params: Seq::empty(),
        current: 0,
        cp: 0,
        need: 0,
        min_cp: 0,
        grid: initial_grid(advance, line_height, max_width),
    }
}

/// Feeding a stream in chunks equals feeding it whole: the tokenizer may be
/// resumed at any byte boundary.
pub proof fn lemma_feed_append(t: TermModel, a: Seq<u8>, b: Seq<u8>)
    ensures
        spec_feed(t, a + b) == spec_feed(spec_feed(t, a), b),
    decreases a.len(),
{
    if a.len() == 0 {
        assert(a + b =~= b);
    } else {
        assert((a + b)[0] == a[0]);
        assert((a + b).skip(1) =~= a.skip(1) + b);
        lemma_feed_append(spec_step(t, a[0]), a.skip(1), b);
    }
}

/// One step leaves the grid configuration (advance width, line height,
/// maximum width) unchanged.
pub proof fn lemma_step_preserves_config(t: TermModel, b: u8)
    ensures
        spec_step(t, b).grid.advance == t.grid.advance,
        spec_step(t, b).grid.line_height == t.grid.line_height,
        spec_step(t, b).grid.max_width == t.grid.max_width,
{
}

/// Feeding any byte sequence leaves the grid configuration unchanged.
pub proof fn lemma_feed_preserves_config(t: TermModel, bytes: Seq<u8>)
    ensures
        spec_feed(t, bytes).grid.advance == t.grid.advance,
        spec_feed(t, bytes).grid.line_height == t.grid.line_height,
        spec_feed(t, bytes).grid.max_width == t.grid.max_width,
    decreases bytes.len(),
{
    if bytes.len() > 0 {
        lemma_step_preserves_config(t, bytes[0]);
        lemma_feed_preserves_config(spec_step(t, bytes[0]), bytes.skip(1));
    }
}

/// The terminal: tokenizer state plus the grid it populates.
pub struct Terminal {
    pub mode: VtMode,
    pub params: Vec<u16>,
    pub current: u16,
    pub cp: u32,
    pub need: u8,
    pub min_cp: u32,
    pub grid: TextGrid,
}

impl View for Terminal {
    type V = TermModel;

    open spec fn view(&self) -> TermModel {
        TermModel {
            mode: self.mode,
            params: self.params@,
            current: self.current,
            cp: self.cp,
            need: self.need,
            min_cp: self.min_cp,
            grid: self.grid@,
        }
    }
}

impl Terminal {
    pub open spec fn wf(&self) -> bool {
        self.grid.wf()
    }

    /// A fresh terminal for the given glyph advance width, line height, and
    /// optional maximum pixel width.
    pub fn new(advance: u32, line_height: u32, max_width: Option<u32>) -> (t: Terminal)
        ensures
            t@ == initial_term(advance, line_height, max_width),
            t.wf(),
    {
        let t = Terminal {
            mode: VtMode::Ground,
            params: Vec::new(),
            current: 0,
            cp: 0,
            need: 0,
            min_cp: 0,
            grid: TextGrid::new(advance, line_height, max_width),
        };
        proof {
            assert(t@ =~= initial_term(advance, line_height, max_width));
        }
        t
    }

    /// Handles one byte in the ground state.
    fn ground_step(&mut self, b: u8)
        requires
            old(self).wf(),
        ensures
            final(self)@ == spec_ground(old(self)@, b),
            final(self).wf(),
    {
        if b == 0x1b {
            self.mode = VtMode::Escape;
        } else if b < 0x20 {
            self.grid.execute(b);
        } else if b <= 0x7e {
            self.grid.print(b as char);
        } else if b == 0x7f {
        } else if 0xc2 <= b && b <= 0xdf {
            self.mode = VtMode::Utf8;
            self.cp = (b & 0x1f) as u32;
            self.need = 1;
            self.min_cp = 0x80;
        } else if 0xe0 <= b && b <= 0xef {
            self.mode = VtMode::Utf8;
            self.cp = (b & 0x0f) as u32;
            self.need = 2;
            self.min_cp = 0x800;
        } else if 0xf0 <= b && b <= 0xf4 {
            self.mode = VtMode::Utf8;
            self.cp = (b & 0x07) as u32;
            self.need = 3;
            self.min_cp = 0x10000;
        } else {
            self.grid.print('\u{fffd}');
        }
        proof {
            assert(self@ =~= spec_ground(old(self)@, b));
        }
    }

    /// Handles one byte after ESC.
    fn escape_step(&mut self, b: u8)
        requires
            old(self).wf(),
        ensures
            final(self)@ == spec_escape(old(self)@, b),
            final(self).wf(),
    {
        if b == 0x5b {
            self.mode = VtMode::Csi;
            self.params = Vec::new();
            self.current = 0;
        } else if b == 0x5d {
            self.mode = VtMode::Osc;
        } else if b == 0x50 {
            self.mode = VtMode::Dcs;
        } else if b == 0x1b {
        } else if b < 0x20 {
            self.grid.execute(b);
        } else {
            self.mode = VtMode::Ground;
        }
        proof {
            assert(self@ =~= spec_escape(old(self)@, b));
        }
    }

    /// Handles one byte inside a CSI sequence.
    fn csi_step(&mut self, b: u8)
        requires
            old(self).wf(),
        ensures
            final(self)@ == spec_csi(old(self)@, b),
            final(self).wf(),
    {
        if 0x30 <= b && b <= 0x39 {
            let v = (self.current as u32) * 10 + ((b - 0x30) as u32);
            let grown: u16 = if v > 0xffff {
                0xffff
            } else {
                v as u16
            };
            proof {
                assert(grown == param_digit(old(self)@.current, (b - 0x30) as u8));
            }
            self.current = grown;
        } else if b == 0x3a || b == 0x3b {
            self.params.push(self.current);
            self.current = 0;
        } else if 0x3c <= b && b <= 0x3f {
        } else if 0x20 <= b && b <= 0x2f {
        } else if b == 0x1b {
            self.mode = VtMode::Escape;
        } else if b < 0x20 {
            self.grid.execute(b);
        } else if b == 0x7f {
        } else if b <= 0x7e {
            self.params.push(self.current);
            if b == 0x6d {
                self.grid.apply_sgr(&self.params);
            }
            self.params = Vec::new();
            self.current = 0;
            self.mode = VtMode::Ground;
        }
        proof {
            assert(self@ =~= spec_csi(old(self)@, b));
        }
    }

    /// Handles one byte inside a multi-byte UTF-8 encoding.
    fn utf8_step(&mut self, b: u8)
        requires
            old(self).wf(),
        ensures
            final(self)@ == spec_utf8(old(self)@, b),
            final(self).wf(),
    {
        if 0x80 <= b && b <= 0xbf {
            let cp = (self.cp << 6u32) | ((b & 0x3f) as u32);
            if self.need <= 1 {
                let valid = self.min_cp <= cp && cp <= 0x10ffff && !(0xd800 <= cp && cp
                    <= 0xdfff);
                let c: char = if valid {
                    match char::from_u32(cp) {
                        Some(c) => c,
                        None => {
                            proof {
                                assert(false);
                            }
                            '\u{fffd}'
                        }
                    }
                } else {
                    '\u{fffd}'
                };
                proof {
                    let scp = (old(self)@.cp << 6u32) | ((b & 0x3f) as u32);
                    assert(cp == scp);
                    if valid {
                        assert(c as u32 == cp);
                        vstd::utf8::char_u32_cast(c, cp);
                        assert(c == (cp as char));
                    }
                }
                self.mode = VtMode::Ground;
                self.cp = 0;
                self.need = 0;
                self.grid.print(c);
            } else {
                self.cp = cp;
                self.need = self.need - 1;
            }
        } else {
            self.mode = VtMode::Ground;
            self.cp = 0;
            self.need = 0;
            self.grid.print('\u{fffd}');
            self.ground_step(b);
        }
        proof {
            assert(self@ =~= spec_utf8(old(self)@, b));
        }
    }

    /// Consumes one input byte.
    pub fn step(&mut self, b: u8)
        requires
            old(self).wf(),
        ensures
            final(self)@ == spec_step(old(self)@, b),
            final(self).wf(),
    {
        match self.mode {
            VtMode::Ground => self.ground_step(b),
            VtMode::Escape => self.escape_step(b),
            VtMode::Csi => self.csi_step(b),
            VtMode::Osc => {
                if b == 0x07 {
                    self.mode = VtMode::Ground;
                } else if b == 0x1b {
                    self.mode = VtMode::OscEscape;
                }
                proof {
                    assert(self@ =~= spec_osc(old(self)@, b));
                }
            }
            VtMode::OscEscape => {
                if b == 0x5c {
                    self.mode = VtMode::Ground;
                    proof {
                        assert(self@ =~= spec_osc_escape(old(self)@, b));
                    }
                } else {
                    self.mode = VtMode::Escape;
                    self.escape_step(b);
                }
            }
            VtMode::Dcs => {
                if b == 0x1b {
                    self.mode = VtMode::DcsEscape;
                }
                proof {
                    assert(self@ =~= spec_dcs(old(self)@, b));
                }
            }
            VtMode::DcsEscape => {
                if b == 0x5c {
                    self.mode = VtMode::Ground;
                    proof {
                        assert(self@ =~= spec_dcs_escape(old(self)@, b));
                    }
                } else {
                    self.mode = VtMode::Escape;
                    self.escape_step(b);
                }
            }
            VtMode::Utf8 => self.utf8_step(b),
        }
    }

    /// Consumes a chunk of input bytes; state persists between calls.
    pub fn advance(&mut self, bytes: &Vec<u8>)
        requires
            old(self).wf(),
        ensures
            final(self)@ == spec_feed(old(self)@, bytes@),
            final(self).wf(),
    {
        let n = bytes.len();
        let mut i: usize = 0;
        proof {
            assert(bytes@.skip(0) =~= bytes@);
        }
        while i < n
            invariant
                n == bytes@.len(),
                0 <= i <= n,
                self.wf(),
                spec_feed(old(self)@, bytes@) == spec_feed(self@, bytes@.skip(i as int)),
            decreases n - i,
        {
            let ghost before = self@;
            let b = bytes[i];
            self.step(b);
            proof {
                assert(bytes@.skip(i as int)[0] == b);
                assert(bytes@.skip(i as int).skip(1) =~= bytes@.skip(i + 1));
            }
            i = i + 1;
        }
        proof {
            assert(bytes@.skip(n as int) =~= Seq::<u8>::empty());
        }
    }
}

} // verus!
