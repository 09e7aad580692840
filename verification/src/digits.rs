//! Decimal rendering of unsigned numbers.
//!
//! The hosting program prints numbers through a raw byte-output primitive,
//! so it needs the decimal digits of a `usize` as plain ASCII bytes. The
//! rendering here is verified to parse back to the rendered value.

use vstd::arithmetic::div_mod::lemma_fundamental_div_mod;
use vstd::prelude::*;

verus! {

/// Whether `b` is an ASCII decimal digit.
pub open spec fn is_digit_byte(b: u8) -> bool {
    48 <= b <= 57
}

/// The number that a big-endian sequence of ASCII digit bytes denotes.
pub open spec fn digits_value(s: Seq<u8>) -> nat
    decreases s.len(),
{
    if s.len() == 0 {
        0
    } else {
        (digits_value(s.drop_last()) * 10 + (s.last() - 48)) as nat
    }
}

/// The decimal digits of `value`, most significant first: at least one ASCII
/// digit byte, no leading zero, denoting exactly `value`.
pub fn usize_to_digits(value: usize) -> (r: Vec<u8>)
    ensures
        r@.len() >= 1,
        forall|i: int| 0 <= i < r@.len() ==> is_digit_byte(r@[i]),
        digits_value(r@) == value,
        r@[0] == 48 ==> r@.len() == 1,
    decreases value,
{
    if value < 10 {
        let mut r: Vec<u8> = Vec::new();
        r.push(48 + value as u8);
        proof {
            assert(r@ =~= seq![(48 + value) as u8]);
            assert(r@.drop_last().len() == 0);
            assert(digits_value(r@.drop_last()) == 0);
        }
        r
    } else {
        let mut r = usize_to_digits(value / 10);
        let ghost prefix = r@;
        r.push((value % 10) as u8 + 48);
        proof {
            assert(r@.drop_last() =~= prefix);
            lemma_fundamental_div_mod(value as int, 10);
            if r@[0] == 48 {
                assert(prefix[0] == 48);
                assert(prefix.len() == 1);
                assert(prefix.drop_last().len() == 0);
                assert(digits_value(prefix.drop_last()) == 0);
                assert(digits_value(prefix) == 0);
                assert(false);
            }
        }
        r
    }
}

} // verus!
