//! The arithmetic of the machine, on bytes.
//!
//! Every result is taken modulo 256. Where an operation has a flag, the
//! flag says what the byte alone does not: the carry of a sum, that
//! nothing was borrowed in a difference, the bit that a shift pushed out.

use vstd::prelude::*;

verus! {

/// The sum of two bytes modulo 256, and 1 if the sum did not fit, else 0.
pub open spec fn sum_with_carry(x: u8, y: u8) -> (u8, u8) {
    (((x + y) % 256) as u8, if x + y > 255 { 1u8 } else { 0u8 })
}

/// The difference `x - y` modulo 256, and 1 if nothing had to be borrowed,
/// that is if `x >= y`, else 0.
pub open spec fn difference_with_borrow(x: u8, y: u8) -> (u8, u8) {
    (((x - y) % 256) as u8, if x >= y { 1u8 } else { 0u8 })
}

/// The byte shifted right by one, and the bit that was pushed out.
pub open spec fn halved(x: u8) -> (u8, u8) {
    (x / 2, x % 2)
}

/// The byte shifted left by one, and the bit that was pushed out.
pub open spec fn doubled(x: u8) -> (u8, u8) {
    (((2 * x) % 256) as u8, x / 128)
}

/// The decimal digits of a byte: hundreds, tens, ones.
pub open spec fn decimal_digits(x: u8) -> (u8, u8, u8) {
    (x / 100, (x / 10) % 10, x % 10)
}

/// Adds two bytes: the sum modulo 256, and the carry.
pub fn add_with_carry(x: u8, y: u8) -> (sum: (u8, u8))
    ensures
        sum == sum_with_carry(x, y),
{
    let mut val: u16 = x as u16 + y as u16;
    let mut flag: bool = false;
    if val > 255 {
        flag = true;
        assert(val & 0b1111_1111 == val % 256) by (bit_vector);
        val &= 0b1111_1111;
    }
    (val as u8, if flag { 1 } else { 0 })
}

/// Takes `y` from `x`: the difference modulo 256, and 1 if nothing was
/// borrowed, else 0.
pub fn subtract_with_borrow(x: u8, y: u8) -> (difference: (u8, u8))
    ensures
        difference == difference_with_borrow(x, y),
{
    let mut flag: bool = false;
    if x >= y {
        flag = true;
    }
    let val: u8 = x.wrapping_sub(y);
    (val, if flag { 1 } else { 0 })
}

/// Shifts a byte right by one: the shifted byte, and the bit pushed out.
pub fn shift_right(x: u8) -> (shifted: (u8, u8))
    ensures
        shifted == halved(x),
{
    let mut flag: bool = false;
    let mut val: u8 = x;
    assert(x & 0b1 == x % 2) by (bit_vector);
    if x & 0b1 == 1 {
        flag = true;
    }
    val /= 2;
    (val, if flag { 1 } else { 0 })
}

/// Shifts a byte left by one: the shifted byte, and the bit pushed out.
pub fn shift_left(x: u8) -> (shifted: (u8, u8))
    ensures
        shifted == doubled(x),
{
    let mut flag: bool = false;
    assert((x & 0b1000_0000 == 0b1000_0000) == (x / 128 == 1)) by (bit_vector);
    if x & 0b1000_0000 == 0b1000_0000 {
        flag = true;
    }
    let val: u8 = x.wrapping_mul(2);
    (val, if flag { 1 } else { 0 })
}

/// The decimal digits of a byte: hundreds, tens, ones.
pub fn to_decimal(x: u8) -> (digits: (u8, u8, u8))
    ensures
        digits == decimal_digits(x),
{
    let hundreds: u8 = x / 100;
    let tens: u8 = (x - (hundreds * 100)) / 10;
    let ones: u8 = x - (hundreds * 100) - (tens * 10);
    (hundreds, tens, ones)
}

/// The byte and the carry of a sum give the sum back, and the carry is set
/// exactly when the sum does not fit in a byte.
pub proof fn lemma_sum_with_carry(x: u8, y: u8)
    ensures
        sum_with_carry(x, y).0 + 256 * sum_with_carry(x, y).1 == x + y,
        sum_with_carry(x, y).1 == 1 <==> x + y > 255,
        sum_with_carry(x, y).1 == 0 <==> x + y <= 255,
{
}

/// The flag of a difference is set exactly when nothing was borrowed; with
/// the flag clear the byte is the difference plus 256.
pub proof fn lemma_difference_with_borrow(x: u8, y: u8)
    ensures
        difference_with_borrow(x, y).1 == 1 <==> x >= y,
        difference_with_borrow(x, y).1 == 0 <==> x < y,
        x >= y ==> difference_with_borrow(x, y).0 == x - y,
        x < y ==> difference_with_borrow(x, y).0 == x - y + 256,
        x != y ==> difference_with_borrow(x, y).1 + difference_with_borrow(y, x).1 == 1,
{
}

/// A shift loses nothing: the byte and the bit pushed out give the
/// operand back.
pub proof fn lemma_shifts(x: u8)
    ensures
        2 * halved(x).0 + halved(x).1 == x,
        halved(x).1 <= 1,
        doubled(x).0 + 256 * doubled(x).1 == 2 * x,
        doubled(x).1 <= 1,
{
}

/// The decimal digits are digits, and give the byte back.
pub proof fn lemma_decimal_digits(x: u8)
    ensures
        decimal_digits(x).0 <= 2,
        decimal_digits(x).1 <= 9,
        decimal_digits(x).2 <= 9,
        100 * decimal_digits(x).0 + 10 * decimal_digits(x).1 + decimal_digits(x).2 == x,
{
}

} // verus!
