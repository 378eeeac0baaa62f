//! Parsing of hex-encoded color strings such as `0x112411`, `#ff0000aa`.
//!
//! A color string is an optional `0x` or `#` prefix followed by exactly six
//! hex digits (`rrggbb`, alpha defaulting to 255) or exactly eight hex digits
//! whose high byte is an explicit alpha (`aarrggbb`).

use vstd::prelude::*;

use crate::color::{rgba, Rgba};

verus! {

pub open spec fn is_hex_digit(c: char) -> bool {
    ('0' <= c && c <= '9') || ('a' <= c && c <= 'f') || ('A' <= c && c <= 'F')
}

pub open spec fn hex_digit_val(c: char) -> int {
    if '0' <= c && c <= '9' {
        c as int - '0' as int
    } else if 'a' <= c && c <= 'f' {
        10 + c as int - 'a' as int
    } else {
        10 + c as int - 'A' as int
    }
}

/// The numeric value of a big-endian sequence of hex digits.
pub open spec fn hex_seq_val(s: Seq<char>) -> int
    decreases s.len(),
{
    if s.len() == 0 {
        0
    } else {
        hex_seq_val(s.drop_last()) * 16 + hex_digit_val(s.last())
    }
}

pub open spec fn all_hex_digits(s: Seq<char>) -> bool {
    forall|i: int| 0 <= i < s.len() ==> is_hex_digit(#[trigger] s[i])
}

/// The digits of a color string with its optional `0x` or `#` prefix removed.
pub open spec fn strip_color_prefix(s: Seq<char>) -> Seq<char> {
    if s.len() >= 2 && s[0] == '0' && s[1] == 'x' {
        s.skip(2)
    } else if s.len() >= 1 && s[0] == '#' {
        s.skip(1)
    } else {
        s
    }
}

/// The color denoted by a numeric value: always `00rrggbb` or `aarrggbb`.
pub open spec fn color_of_hex(hex: int, alpha: Option<u8>) -> Rgba {
    rgba(
        ((hex / 0x10000) % 0x100) as u8,
        ((hex / 0x100) % 0x100) as u8,
        (hex % 0x100) as u8,
        match alpha {
            Option::Some(a) => a,
            Option::None => 255,
        },
    )
}

/// Whether a color string is well formed, and if so its color.
pub open spec fn spec_strhex(s: Seq<char>) -> Option<Rgba> {
    let h = strip_color_prefix(s);
    if all_hex_digits(h) && (h.len() == 6 || h.len() == 8) {
        let v = hex_seq_val(h);
        if h.len() == 8 {
            Option::Some(color_of_hex(v, Option::Some(((v / 0x1000000) % 0x100) as u8)))
        } else {
            Option::Some(color_of_hex(v, Option::None))
        }
    } else {
        Option::None
    }
}

/// `16^n`, the number of values that `n` hex digits can encode.
pub open spec fn pow16(n: nat) -> int
    decreases n,
{
    if n == 0 {
        1
    } else {
        16 * pow16((n - 1) as nat)
    }
}

/// Bounds on the value of a digit sequence: `n` digits encode less than `16^n`.
proof fn lemma_hex_seq_val_bound(s: Seq<char>)
    requires
        all_hex_digits(s),
    ensures
        0 <= hex_seq_val(s) < pow16(s.len()),
    decreases s.len(),
{
    if s.len() > 0 {
        assert(all_hex_digits(s.drop_last())) by {
            assert(forall|i: int|
                0 <= i < s.len() - 1 ==> #[trigger] s.drop_last()[i] == s[i]);
        }
        lemma_hex_seq_val_bound(s.drop_last());
        assert(0 <= hex_digit_val(s.last()) < 16);
    }
}

/// The numeric value of one hex digit, or `None` for any other character.
fn hex_digit(c: char) -> (v: Option<u8>)
    ensures
        v is Some <==> is_hex_digit(c),
        v matches Some(d) ==> d == hex_digit_val(c),
{
    if '0' <= c && c <= '9' {
        Some((c as u8) - ('0' as u8))
    } else if 'a' <= c && c <= 'f' {
        Some(10 + (c as u8) - ('a' as u8))
    } else if 'A' <= c && c <= 'F' {
        Some(10 + (c as u8) - ('A' as u8))
    } else {
        None
    }
}

/// Assembles an RGBA color from a numeric color value, defaulting alpha to
/// fully opaque when no explicit alpha is given.
pub fn hex_to_rgba(hex: i64, alpha: Option<u8>) -> (c: Rgba)
    requires
        0 <= hex,
    ensures
        c == color_of_hex(hex as int, alpha),
{
    let r = ((hex / 0x10000) % 0x100) as u8;
    let g = ((hex / 0x100) % 0x100) as u8;
    let b = (hex % 0x100) as u8;
    let a = match alpha {
        Some(a) => a,
        None => 255,
    };
    Rgba { r, g, b, a }
}

/// Parses a hex color string; yields `None` exactly when the string (after
/// its optional prefix) is not six or eight hex digits.
pub fn strhex_to_rgba(hex: String) -> (c: Option<Rgba>)
    ensures
        c == spec_strhex(hex@),
{
    strhex_str(hex.as_str())
}

/// As `strhex_to_rgba`, on a borrowed string slice.
pub fn strhex_str(s: &str) -> (c: Option<Rgba>)
    ensures
        c == spec_strhex(s@),
{
    let n = s.unicode_len();
    let ghost whole = s@;

    // Skip the optional `0x` or `#` prefix.
    let start: usize = if n >= 2 && s.get_char(0) == '0' && s.get_char(1) == 'x' {
        2
    } else if n >= 1 && s.get_char(0) == '#' {
        1
    } else {
        0
    };
    let ghost h = strip_color_prefix(whole);
    proof {
        assert(h =~= whole.skip(start as int));
    }

    let digits = n - start;
    if digits != 6 && digits != 8 {
        return None;
    }

    let mut v: u32 = 0;
    let mut i: usize = start;
    while i < n
        invariant
            whole == s@,
            start <= i <= n,
            n == whole.len(),
            h == whole.skip(start as int),
            h == strip_color_prefix(whole),
            digits == n - start,
            digits == 6 || digits == 8,
            all_hex_digits(whole.subrange(start as int, i as int)),
            v == hex_seq_val(whole.subrange(start as int, i as int)),
        decreases n - i,
    {
        let c = s.get_char(i);
        let ghost prefix = whole.subrange(start as int, i as int);
        proof {
            lemma_hex_seq_val_bound(prefix);
            reveal_with_fuel(pow16, 9);
            assert(prefix.len() <= 7);
        }
        match hex_digit(c) {
            Some(d) => {
                proof {
                    assert(whole.subrange(start as int, i + 1).drop_last()
                        =~= prefix);
                    assert(whole.subrange(start as int, i + 1).last() == c);
                }
                v = v * 16 + (d as u32);
            }
            None => {
                proof {
                    assert(h[i - start] == c);
                    assert(!all_hex_digits(h));
                }
                return None;
            }
        }
        i = i + 1;
    }
    proof {
        assert(whole.subrange(start as int, n as int) =~= h);
    }

    let alpha: Option<u8> = if digits == 8 {
        Some(((v / 0x1000000) % 0x100) as u8)
    } else {
        None
    };
    Some(hex_to_rgba(v as i64, alpha))
}

} // verus!
