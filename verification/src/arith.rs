//! Eight-bit arithmetic with its flags.

use vstd::prelude::*;

verus! {

/// The sum modulo 256, and whether the true sum exceeds 255.
pub fn add_carry(a: u8, b: u8) -> (r: (u8, bool))
    ensures
        r.0 == (a + b) % 256,
        r.1 == (a + b > 255),
{
    let sum: u16 = a as u16 + b as u16;
    if sum > 255 {
        ((sum - 256) as u8, true)
    } else {
        (sum as u8, false)
    }
}

/// The difference `a - b` modulo 256, and whether it needed no borrow.
pub fn sub_no_borrow(a: u8, b: u8) -> (r: (u8, bool))
    ensures
        r.0 == (a - b) % 256,
        r.1 == (a >= b),
{
    if a >= b {
        (a - b, true)
    } else {
        ((256 - (b - a) as u16) as u8, false)
    }
}

/// Half of `v`, and whether its lowest bit was set.
pub fn shift_right(v: u8) -> (r: (u8, bool))
    ensures
        r.0 == v / 2,
        r.1 == (v % 2 == 1),
{
    (v / 2, v % 2 == 1)
}

/// Twice `v` modulo 256, and whether its highest bit was set.
pub fn shift_left(v: u8) -> (r: (u8, bool))
    ensures
        r.0 == (v * 2) % 256,
        r.1 == (v >= 128),
{
    if v >= 128 {
        ((v - 128) * 2, true)
    } else {
        (v * 2, false)
    }
}

} // verus!
