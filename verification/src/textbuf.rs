//! Building text output as character vectors with exact contents.

use vstd::prelude::*;

verus! {

/// The decimal digits of a nonnegative number, most significant first.
pub open spec fn dec_digits(n: int) -> Seq<char>
    decreases n,
{
    if n < 10 {
        seq![digit_char(if n < 0 { 0 } else { n })]
    } else {
        dec_digits(n / 10) + seq![digit_char(n % 10)]
    }
}

/// The character of one decimal digit.
pub open spec fn digit_char(d: int) -> char {
    (('0' as int) + d) as char
}

/// Relies on `Iterator::collect` for `String`: collecting characters yields
/// the string of exactly those characters in order.
#[verifier::external_body]
pub fn string_from_chars(v: &Vec<char>) -> (s: String)
    ensures
        s@ == v@,
{
    v.iter().collect()
}

/// Appends the decimal rendering of a byte.
pub fn push_decimal_u8(v: &mut Vec<char>, n: u8)
    ensures
        final(v)@ == old(v)@ + dec_digits(n as int),
{
    let d0 = n / 100;
    let d1 = (n / 10) % 10;
    let d2 = n % 10;
    if n >= 100 {
        proof {
            assert(n as int / 10 / 10 == n as int / 100);
            assert(n as int / 100 < 10);
            assert(dec_digits(n as int / 100) == seq![digit_char(n as int / 100)]);
            assert(10 <= n as int / 10 < 100);
            assert(dec_digits(n as int / 10) == dec_digits(n as int / 10 / 10) + seq![
                digit_char((n as int / 10) % 10),
            ]);
            assert(dec_digits(n as int) == dec_digits(n as int / 10) + seq![
                digit_char(n as int % 10),
            ]);
        }
        v.push(('0' as u8 + d0) as char);
        v.push(('0' as u8 + d1) as char);
        v.push(('0' as u8 + d2) as char);
        proof {
            assert(v@ =~= old(v)@ + dec_digits(n as int));
        }
    } else if n >= 10 {
        proof {
            assert(n as int / 10 < 10);
            assert(dec_digits(n as int / 10) == seq![digit_char(n as int / 10)]);
            assert(dec_digits(n as int) == dec_digits(n as int / 10) + seq![
                digit_char(n as int % 10),
            ]);
        }
        v.push(('0' as u8 + d1) as char);
        v.push(('0' as u8 + d2) as char);
        proof {
            assert(v@ =~= old(v)@ + dec_digits(n as int));
        }
    } else {
        v.push(('0' as u8 + d2) as char);
        proof {
            assert(v@ =~= old(v)@ + dec_digits(n as int));
        }
    }
}

/// Appends every character of a string slice.
pub fn push_str_chars(v: &mut Vec<char>, s: &str)
    ensures
        final(v)@ == old(v)@ + s@,
{
    let n = s.unicode_len();
    let mut i: usize = 0;
    while i < n
        invariant
            n == s@.len(),
            0 <= i <= n,
            v@ == old(v)@ + s@.take(i as int),
        decreases n - i,
    {
        v.push(s.get_char(i));
        proof {
            assert(s@.take(i + 1) =~= s@.take(i as int).push(s@[i as int]));
            assert(v@ =~= old(v)@ + s@.take(i + 1));
        }
        i = i + 1;
    }
    proof {
        assert(s@.take(n as int) =~= s@);
    }
}

/// The decimal digits of a nonnegative number, as ASCII bytes.
pub open spec fn dec_bytes(n: int) -> Seq<u8>
    decreases n,
{
    if n < 10 {
        seq![(0x30 + (if n < 0 { 0int } else { n })) as u8]
    } else {
        dec_bytes(n / 10) + seq![(0x30 + n % 10) as u8]
    }
}

/// Appends the decimal rendering of a byte, as ASCII bytes.
pub fn push_dec_bytes(v: &mut Vec<u8>, n: u8)
    ensures
        final(v)@ == old(v)@ + dec_bytes(n as int),
{
    let d0 = n / 100;
    let d1 = (n / 10) % 10;
    let d2 = n % 10;
    if n >= 100 {
        proof {
            assert(n as int / 10 / 10 == n as int / 100);
            assert(n as int / 100 < 10);
            assert(dec_bytes(n as int / 100) == seq![(0x30 + n as int / 100) as u8]);
            assert(10 <= n as int / 10 < 100);
            assert(dec_bytes(n as int / 10) == dec_bytes(n as int / 10 / 10) + seq![
                (0x30 + (n as int / 10) % 10) as u8,
            ]);
            assert(dec_bytes(n as int) == dec_bytes(n as int / 10) + seq![
                (0x30 + n as int % 10) as u8,
            ]);
        }
        v.push(0x30 + d0);
        v.push(0x30 + d1);
        v.push(0x30 + d2);
        proof {
            assert(v@ =~= old(v)@ + dec_bytes(n as int));
        }
    } else if n >= 10 {
        proof {
            assert(n as int / 10 < 10);
            assert(dec_bytes(n as int / 10) == seq![(0x30 + n as int / 10) as u8]);
            assert(dec_bytes(n as int) == dec_bytes(n as int / 10) + seq![
                (0x30 + n as int % 10) as u8,
            ]);
        }
        v.push(0x30 + d1);
        v.push(0x30 + d2);
        proof {
            assert(v@ =~= old(v)@ + dec_bytes(n as int));
        }
    } else {
        v.push(0x30 + d2);
        proof {
            assert(v@ =~= old(v)@ + dec_bytes(n as int));
        }
    }
}

/// Whether two string slices hold the same characters.
pub fn str_eq_str(a: &str, b: &str) -> (r: bool)
    ensures
        r == (a@ == b@),
{
    let n = a.unicode_len();
    if n != b.unicode_len() {
        proof {
            assert(a@ != b@);
        }
        return false;
    }
    let mut i: usize = 0;
    while i < n
        invariant
            n == a@.len(),
            n == b@.len(),
            0 <= i <= n,
            forall|j: int| 0 <= j < i ==> a@[j] == b@[j],
        decreases n - i,
    {
        if a.get_char(i) != b.get_char(i) {
            proof {
                assert(a@[i as int] != b@[i as int]);
            }
            return false;
        }
        i = i + 1;
    }
    proof {
        assert(a@ =~= b@);
    }
    true
}

} // verus!
