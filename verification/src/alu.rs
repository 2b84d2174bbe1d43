//! Eight-bit arithmetic of the register-to-register instructions.
//!
//! Every operation yields a result and a flag. The specification functions
//! are written over unbounded integers; the executable functions are proved
//! to compute them.

use vstd::prelude::*;

verus! {

/// Sum of two registers, reduced modulo 256.
pub open spec fn add_result(a: u8, b: u8) -> u8 {
    ((a + b) % 256) as u8
}

/// Carry of the sum: 1 exactly when the unbounded sum exceeds 255.
pub open spec fn add_carry(a: u8, b: u8) -> u8 {
    if a + b > 255 {
        1
    } else {
        0
    }
}

/// Difference of two registers, reduced modulo 256.
pub open spec fn sub_result(a: u8, b: u8) -> u8 {
    ((a - b) % 256) as u8
}

/// "No borrow" flag of the difference: 1 exactly when `a >= b`.
pub open spec fn sub_no_borrow(a: u8, b: u8) -> u8 {
    if a >= b {
        1
    } else {
        0
    }
}

/// A register shifted right by one bit.
pub open spec fn shr_result(v: u8) -> u8 {
    (v / 2) as u8
}

/// The bit that a right shift pushes out: the least significant one.
pub open spec fn shr_flag(v: u8) -> u8 {
    (v % 2) as u8
}

/// A register shifted left by one bit, reduced modulo 256.
pub open spec fn shl_result(v: u8) -> u8 {
    ((v * 2) % 256) as u8
}

/// The bit that a left shift pushes out: the most significant one.
pub open spec fn shl_flag(v: u8) -> u8 {
    (v / 128) as u8
}

/// The shift specifications agree with the machine's bit operations.
pub proof fn lemma_shift_bits(v: u8)
    ensures
        shr_result(v) == v >> 1,
        shr_flag(v) == v & 1,
        shl_result(v) == v << 1,
        shl_flag(v) == (v >> 7) & 1,
{
    assert(v / 2 == v >> 1) by (bit_vector);
    assert(v % 2 == v & 1) by (bit_vector);
    assert((v * 2) % 256 == v << 1) by (bit_vector);
    assert(v / 128 == (v >> 7) & 1) by (bit_vector);
}

/// Adds two registers. Returns the wrapped sum and the carry flag.
pub fn add_registers(a: u8, b: u8) -> (r: (u8, u8))
    ensures
        r.0 == add_result(a, b),
        r.1 == add_carry(a, b),
{
    let carry: u8 = if b > 255 - a { 1 } else { 0 };
    (a.wrapping_add(b), carry)
}

/// Subtracts `b` from `a`. Returns the wrapped difference and the
/// "no borrow" flag.
pub fn sub_registers(a: u8, b: u8) -> (r: (u8, u8))
    ensures
        r.0 == sub_result(a, b),
        r.1 == sub_no_borrow(a, b),
{
    let no_borrow: u8 = if a >= b { 1 } else { 0 };
    (a.wrapping_sub(b), no_borrow)
}

/// Shifts a register right by one. Returns the shifted value and the bit
/// that fell out.
pub fn shift_right(v: u8) -> (r: (u8, u8))
    ensures
        r.0 == shr_result(v),
        r.1 == shr_flag(v),
{
    proof {
        lemma_shift_bits(v);
    }
    (v >> 1, v & 1)
}

/// Shifts a register left by one. Returns the shifted value, wrapped to
/// eight bits, and the bit that fell out.
pub fn shift_left(v: u8) -> (r: (u8, u8))
    ensures
        r.0 == shl_result(v),
        r.1 == shl_flag(v),
{
    proof {
        lemma_shift_bits(v);
    }
    (v << 1, (v >> 7) & 1)
}

/// Splits a register into its decimal digits: hundreds, tens, ones.
pub fn decimal_digits(v: u8) -> (r: (u8, u8, u8))
    ensures
        r.0 == v / 100,
        r.1 == (v / 10) % 10,
        r.2 == v % 10,
        v == 100 * r.0 + 10 * r.1 + r.2,
        r.0 <= 2 && r.1 <= 9 && r.2 <= 9,
{
    (v / 100, (v / 10) % 10, v % 10)
}

} // verus!
