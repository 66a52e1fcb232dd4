//! Eight-bit arithmetic of the register-to-register instructions.

use vstd::prelude::*;

verus! {

/// The nine register-to-register operations.
#[derive(Clone, Copy, Debug, PartialEq, Eq, Structural)]
pub enum AluOp {
    /// `Vx = Vy`
    Move,
    /// `Vx = Vx | Vy`
    Or,
    /// `Vx = Vx & Vy`
    And,
    /// `Vx = Vx ^ Vy`
    Xor,
    /// `Vx = Vx + Vy`, flag = carry
    Add,
    /// `Vx = Vx - Vy`, flag = no borrow
    Sub,
    /// `Vx = Vx >> 1`, flag = the bit shifted out
    ShiftRight,
    /// `Vx = Vy - Vx`, flag = no borrow
    SubReverse,
    /// `Vx = Vx << 1`, flag = the bit shifted out
    ShiftLeft,
}

/// What an operation computes from the two operand values: the new value of
/// the target register and, for the operations that define one, the flag.
///
/// `a` is the value of the target register `Vx`, `b` that of `Vy`.
/// Arithmetic wraps at eight bits. After an addition the flag is 1 exactly
/// when the sum did not fit; after a subtraction it is 0 exactly when the
/// subtrahend was the larger number.
pub open spec fn alu_spec(op: AluOp, a: u8, b: u8) -> (u8, Option<u8>) {
    match op {
        AluOp::Move => (b, None),
        AluOp::Or => (a | b, None),
        AluOp::And => (a & b, None),
        AluOp::Xor => (a ^ b, None),
        AluOp::Add => (((a + b) % 256) as u8, Some(if a + b >= 256 { 1u8 } else { 0u8 })),
        AluOp::Sub => (((a - b) % 256) as u8, Some(if a < b { 0u8 } else { 1u8 })),
        AluOp::ShiftRight => (a / 2, Some(a % 2)),
        AluOp::SubReverse => (((b - a) % 256) as u8, Some(if b < a { 0u8 } else { 1u8 })),
        AluOp::ShiftLeft => (((a * 2) % 256) as u8, Some(a / 128)),
    }
}

/// Carries out one register-to-register operation on two operand values.
pub fn alu(op: AluOp, a: u8, b: u8) -> (r: (u8, Option<u8>))
    ensures
        r == alu_spec(op, a, b),
{
    match op {
        AluOp::Move => (b, None),
        AluOp::Or => (a | b, None),
        AluOp::And => (a & b, None),
        AluOp::Xor => (a ^ b, None),
        AluOp::Add => {
            let carry: u8 = if a > 255 - b { 1 } else { 0 };
            (a.wrapping_add(b), Some(carry))
        },
        AluOp::Sub => {
            let no_borrow: u8 = if a < b { 0 } else { 1 };
            (a.wrapping_sub(b), Some(no_borrow))
        },
        AluOp::ShiftRight => {
            assert(a >> 1 == a / 2 && a & 1 == a % 2) by (bit_vector);
            (a >> 1, Some(a & 1))
        },
        AluOp::SubReverse => {
            let no_borrow: u8 = if b < a { 0 } else { 1 };
            (b.wrapping_sub(a), Some(no_borrow))
        },
        AluOp::ShiftLeft => {
            assert(a << 1 == (a * 2) % 256 && (a >> 7) & 1 == a / 128) by (bit_vector);
            (a << 1, Some((a >> 7) & 1))
        },
    }
}

/// The three decimal digits of a byte, most significant first.
pub open spec fn decimal_digits(v: u8) -> (u8, u8, u8) {
    (v / 100, (v / 10) % 10, v % 10)
}

/// Splits a byte into its hundreds, tens and ones digits.
pub fn bcd(v: u8) -> (d: (u8, u8, u8))
    ensures
        d == decimal_digits(v),
        d.0 * 100 + d.1 * 10 + d.2 == v,
        d.0 <= 2,
        d.1 <= 9,
        d.2 <= 9,
{
    (v / 100, (v / 10) % 10, v % 10)
}

/// Addition wraps modulo 256 and the flag is 1 exactly when the true sum
/// needs a ninth bit.
pub proof fn lemma_add_sets_carry(a: u8, b: u8)
    ensures
        alu_spec(AluOp::Add, a, b).0 == (a + b) % 256,
        alu_spec(AluOp::Add, a, b).1 == Some(1u8) <==> a + b >= 256,
        alu_spec(AluOp::Add, a, b).1 == Some(0u8) <==> a + b < 256,
{
}

/// Subtraction wraps modulo 256 and the flag is 0 exactly when the
/// subtrahend exceeds the minuend, 1 otherwise; the reversed subtraction is
/// the same operation with its operands exchanged.
pub proof fn lemma_sub_clears_flag_on_borrow(a: u8, b: u8)
    ensures
        alu_spec(AluOp::Sub, a, b).0 == (a - b) % 256,
        a >= b ==> alu_spec(AluOp::Sub, a, b).0 == a - b,
        a < b ==> alu_spec(AluOp::Sub, a, b).0 == (a - b) + 256,
        alu_spec(AluOp::Sub, a, b).1 == Some(0u8) <==> a < b,
        alu_spec(AluOp::Sub, a, b).1 == Some(1u8) <==> a >= b,
        alu_spec(AluOp::SubReverse, a, b) == alu_spec(AluOp::Sub, b, a),
{
}

/// A right shift halves the value and puts the lowest bit into the flag; a
/// left shift doubles the value modulo 256 and puts the highest bit into the
/// flag.
pub proof fn lemma_shift_captures_lost_bit(k: u8)
    ensures
        alu_spec(AluOp::ShiftRight, k, k).0 == k >> 1,
        alu_spec(AluOp::ShiftRight, k, k).1 == Some(k & 1),
        alu_spec(AluOp::ShiftLeft, k, k).0 == (k << 1),
        alu_spec(AluOp::ShiftLeft, k, k).0 == (k * 2) % 256,
        alu_spec(AluOp::ShiftLeft, k, k).1 == Some((k >> 7) & 1),
{
    assert(k >> 1 == k / 2 && k & 1 == k % 2) by (bit_vector);
    assert(k << 1 == (k * 2) % 256 && (k >> 7) & 1 == k / 128) by (bit_vector);
}

/// The digits of a byte recombine to the byte; the hundreds digit is at most
/// 2 and the other two are at most 9.
pub proof fn lemma_decimal_digits(v: u8)
    ensures
        ({
            let (h, t, o) = decimal_digits(v);
            h * 100 + t * 10 + o == v && h <= 2 && t <= 9 && o <= 9
        }),
{
}

} // verus!
