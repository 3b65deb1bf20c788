//! The console: the VGA screen, the keyboard, and number formatting.
use vstd::prelude::*;

pub mod keyboard;
pub mod vga;

verus! {

/// The hexadecimal digit for `nibble` (below 16), upper case.
pub open spec fn hex_digit(nibble: u64) -> u8 {
    if nibble < 10 { (48 + nibble) as u8 } else { (55 + nibble) as u8 }
}

/// The sixteen hexadecimal digits of `value`, most significant first.
pub open spec fn hex_digits_of(value: u64) -> Seq<u8> {
    Seq::new(16, |i: int| hex_digit((value >> ((60 - 4 * i) as u64)) & 0xF))
}

/// The sixteen hexadecimal digits of `value`, most significant first, in
/// upper case and padded with zeros.
pub fn hex_digits(value: u64) -> (r: Vec<u8>)
    ensures
        r@ == hex_digits_of(value),
{
    let mut r: Vec<u8> = Vec::new();
    let mut i: u64 = 0;
    while i < 16
        invariant
            i <= 16,
            r@ == hex_digits_of(value).take(i as int),
        decreases 16 - i,
    {
        let shift: u64 = 60 - 4 * i;
        let nibble = (value >> shift) & 0xF;
        assert(nibble < 16) by (bit_vector)
            requires nibble == (value >> shift) & 0xF;
        let digit: u8 = if nibble < 10 { 48 + nibble as u8 } else { 55 + nibble as u8 };
        r.push(digit);
        proof {
            assert(hex_digits_of(value).take(i + 1) =~= hex_digits_of(value).take(i as int).push(digit));
        }
        i = i + 1;
    }
    r
}

} // verus!
