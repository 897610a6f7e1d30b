//! Arithmetic, bitwise, and logical operator implementations.

use vstd::prelude::*;
use vstd::arithmetic::power2::pow2;
use vstd::arithmetic::div_mod::{lemma_fundamental_div_mod, lemma_mod_bound, lemma_fundamental_div_mod_converse};
use super::arith::{euclid_mod, pow2_u128, spec_tdiv, spec_trem, tdiv_i128, trem_i128};
use super::cast::{cast_to, spec_cast_to, wrap_signed_of_i128};
use super::rank::{
    IntRank, TyTag, int_min_max, rank_bits, rank_mask_unsigned, spec_in_range, spec_max, spec_min,
    spec_modulus, spec_rank_bits,
};
use super::value::{
    EvalError, Op, OpKind, Value, common_type, spec_common_type, spec_in_rank, spec_wrap_signed,
};

verus! {

/// `2^128`, the modulus of 128-bit unsigned arithmetic.
pub open spec fn u128_modulus() -> int {
    u128::MAX as int + 1
}

/// The outcome of a signed operation whose exact result is `v`: the value
/// itself when it fits the rank, otherwise an overflow carrying the
/// two's-complement wrapped result.
pub open spec fn spec_signed_result(v: int, r: IntRank) -> Result<Value, EvalError> {
    if spec_in_range(v, r) {
        Ok(Value::Int(v as i128, r))
    } else {
        Err(EvalError::SignedOverflow(Value::Int(spec_wrap_signed(v, r) as i128, r)))
    }
}

/// Operands as produced by a cast to a common integer tag: both in rank, of
/// the same rank.
pub open spec fn spec_cast_pair(l: Value, r: Value) -> bool {
    spec_in_rank(l) && spec_in_rank(r) && match (l, r) {
        (Value::Int(_, a), Value::Int(_, b)) => a == b,
        (Value::UInt(_, a), Value::UInt(_, b)) => a == b,
        (Value::UInt(_, a), Value::Int(_, b)) => a == b,
        _ => true,
    }
}

pub open spec fn spec_add(l: Value, r: Value) -> Result<Value, EvalError> {
    match (l, r) {
        (Value::Int(x, rk), Value::Int(y, _)) => spec_signed_result(x + y, rk),
        (Value::UInt(x, rk), Value::UInt(y, _)) => Ok(Value::UInt(((x + y) % u128_modulus()) as u128, rk)),
        _ => Err(EvalError::TypeMismatch),
    }
}

pub open spec fn spec_sub(l: Value, r: Value) -> Result<Value, EvalError> {
    match (l, r) {
        (Value::Int(x, rk), Value::Int(y, _)) => spec_signed_result(x - y, rk),
        (Value::UInt(x, rk), Value::UInt(y, _)) => Ok(Value::UInt(((x - y) % u128_modulus()) as u128, rk)),
        _ => Err(EvalError::TypeMismatch),
    }
}

pub open spec fn spec_mul(l: Value, r: Value) -> Result<Value, EvalError> {
    match (l, r) {
        (Value::Int(x, rk), Value::Int(y, _)) => spec_signed_result(x * y, rk),
        (Value::UInt(x, rk), Value::UInt(y, _)) => Ok(Value::UInt(((x * y) % u128_modulus()) as u128, rk)),
        _ => Err(EvalError::TypeMismatch),
    }
}

pub open spec fn spec_div(l: Value, r: Value) -> Result<Value, EvalError> {
    match (l, r) {
        (Value::Int(_, _), Value::Int(0, _)) => Err(EvalError::DivByZero),
        (Value::UInt(_, _), Value::UInt(0, _)) => Err(EvalError::DivByZero),
        (Value::Int(x, rk), Value::Int(y, _)) => if y == -1 && x == spec_min(rk) {
            Err(EvalError::SignedOverflow(Value::Int(x, rk)))
        } else {
            Ok(Value::Int(spec_tdiv(x as int, y as int) as i128, rk))
        },
        (Value::UInt(x, rk), Value::UInt(y, _)) => Ok(Value::UInt(x / y, rk)),
        _ => Err(EvalError::TypeMismatch),
    }
}

pub open spec fn spec_mod(l: Value, r: Value) -> Result<Value, EvalError> {
    match (l, r) {
        (Value::Int(_, _), Value::Int(0, _)) => Err(EvalError::ModByZero),
        (Value::UInt(_, _), Value::UInt(0, _)) => Err(EvalError::ModByZero),
        (Value::Int(x, rk), Value::Int(y, _)) => if y == -1 {
            Ok(Value::Int(0, rk))
        } else {
            Ok(Value::Int(spec_trem(x as int, y as int) as i128, rk))
        },
        (Value::UInt(x, rk), Value::UInt(y, _)) => Ok(Value::UInt(x % y, rk)),
        _ => Err(EvalError::TypeMismatch),
    }
}

pub open spec fn spec_bit_and(l: Value, r: Value) -> Result<Value, EvalError> {
    match (l, r) {
        (Value::Int(x, rk), Value::Int(y, _)) => Ok(Value::Int(x & y, rk)),
        (Value::UInt(x, rk), Value::UInt(y, _)) => Ok(Value::UInt(x & y, rk)),
        _ => Err(EvalError::TypeMismatch),
    }
}

pub open spec fn spec_bit_or(l: Value, r: Value) -> Result<Value, EvalError> {
    match (l, r) {
        (Value::Int(x, rk), Value::Int(y, _)) => Ok(Value::Int(x | y, rk)),
        (Value::UInt(x, rk), Value::UInt(y, _)) => Ok(Value::UInt(x | y, rk)),
        _ => Err(EvalError::TypeMismatch),
    }
}

pub open spec fn spec_bit_xor(l: Value, r: Value) -> Result<Value, EvalError> {
    match (l, r) {
        (Value::Int(x, rk), Value::Int(y, _)) => Ok(Value::Int(x ^ y, rk)),
        (Value::UInt(x, rk), Value::UInt(y, _)) => Ok(Value::UInt(x ^ y, rk)),
        _ => Err(EvalError::TypeMismatch),
    }
}

/// A shift count checked against the width of the shifted rank: a count
/// that is negative or at least the width is rejected. (`signed` says
/// whether the count comes from a signed operand; an unsigned count is
/// handed over as a signed one, so either way the rule is the same.)
pub open spec fn spec_validate_shift_amount(shift: int, signed: bool, rank: IntRank) -> Result<u32, EvalError> {
    if shift < 0 || shift >= spec_rank_bits(rank) {
        Err(EvalError::ShiftOutOfRange)
    } else {
        Ok(shift as u32)
    }
}

/// Left shift: a signed result that leaves the rank is reported as an
/// overflow carrying the result wrapped to the rank's width; an unsigned
/// one wraps modulo 2^128.
pub open spec fn spec_shl(l: Value, r: Value) -> Result<Value, EvalError> {
    match (l, r) {
        (Value::Int(x, rk), Value::Int(sh, _)) => match spec_validate_shift_amount(sh as int, true, rk) {
            Err(e) => Err(e),
            Ok(a) => spec_signed_result(x * pow2(a as nat), rk),
        },
        (Value::UInt(x, rk), Value::Int(sh, _)) => match spec_validate_shift_amount(sh as int, true, rk) {
            Err(e) => Err(e),
            Ok(a) => Ok(Value::UInt((x * pow2(a as nat)) as u128, rk)),
        },
        (Value::UInt(x, rk), Value::UInt(sh, _)) => match spec_validate_shift_amount(sh as int, false, rk) {
            Err(e) => Err(e),
            Ok(a) => Ok(Value::UInt((x * pow2(a as nat)) as u128, rk)),
        },
        _ => Err(EvalError::TypeMismatch),
    }
}

pub open spec fn spec_shr(l: Value, r: Value) -> Result<Value, EvalError> {
    match (l, r) {
        (Value::Int(x, rk), Value::Int(sh, _)) => match spec_validate_shift_amount(sh as int, true, rk) {
            Err(e) => Err(e),
            Ok(a) => Ok(Value::Int(((x as int) / (pow2(a as nat) as int)) as i128, rk)),
        },
        (Value::UInt(x, rk), Value::Int(sh, _)) => match spec_validate_shift_amount(sh as int, true, rk) {
            Err(e) => Err(e),
            Ok(a) => Ok(Value::UInt((x as nat / pow2(a as nat)) as u128, rk)),
        },
        (Value::UInt(x, rk), Value::UInt(sh, _)) => match spec_validate_shift_amount(sh as int, false, rk) {
            Err(e) => Err(e),
            Ok(a) => Ok(Value::UInt((x as nat / pow2(a as nat)) as u128, rk)),
        },
        _ => Err(EvalError::TypeMismatch),
    }
}

/// The operation on two operands already cast to the common integer tag.
pub open spec fn spec_apply_op(op: Op, l: Value, r: Value) -> Result<Value, EvalError> {
    match op {
        Op::Add => spec_add(l, r),
        Op::Sub => spec_sub(l, r),
        Op::Mul => spec_mul(l, r),
        Op::Div => spec_div(l, r),
        Op::Mod => spec_mod(l, r),
        Op::BitAnd => spec_bit_and(l, r),
        Op::BitOr => spec_bit_or(l, r),
        Op::Xor => spec_bit_xor(l, r),
        Op::Shl => spec_shl(l, r),
        Op::Shr => spec_shr(l, r),
    }
}

/// Evaluation of a binary operator: both operands are converted to their
/// common type, then the operator is applied in that type.
pub open spec fn spec_eval_bin(op: Op, lhs: Value, rhs: Value) -> Result<Value, EvalError> {
    match spec_common_type(lhs, rhs) {
        None => Err(EvalError::TypeMismatch),
        Some(tag) => match spec_cast_to(lhs, tag) {
            Err(e) => Err(e),
            Ok(l) => match spec_cast_to(rhs, tag) {
                Err(e) => Err(e),
                Ok(r) => spec_apply_op(op, l, r),
            },
        },
    }
}

/// Evaluation of a unary operator.
pub open spec fn spec_eval_unary(op: OpKind, val: Value) -> Result<Value, EvalError> {
    match (op, val) {
        (OpKind::Sub, Value::Int(i, r)) => if i == i128::MIN {
            Err(EvalError::SignedOverflow(Value::Int(i128::MIN, r)))
        } else {
            Ok(Value::Int(-i as i128, r))
        },
        (OpKind::Sub, Value::UInt(u, r)) => Ok(Value::UInt(((-(u as int)) % spec_modulus(r)) as u128, r)),
        (OpKind::Not, Value::Int(i, r)) => Ok(Value::Int(!i, r)),
        (OpKind::Not, Value::UInt(u, r)) => Ok(Value::UInt(!u, r)),
        (OpKind::Add, v) => Ok(v),
        _ => Err(EvalError::TypeMismatch),
    }
}

pub open spec fn spec_op_from_ast(op: OpKind) -> Option<Op> {
    match op {
        OpKind::Add => Some(Op::Add),
        OpKind::Sub => Some(Op::Sub),
        OpKind::Multiply => Some(Op::Mul),
        OpKind::Divide => Some(Op::Div),
        OpKind::Modulo => Some(Op::Mod),
        OpKind::And => Some(Op::BitAnd),
        OpKind::Or => Some(Op::BitOr),
        OpKind::Xor => Some(Op::Xor),
        OpKind::Lshift => Some(Op::Shl),
        OpKind::Rshift => Some(Op::Shr),
        OpKind::Not => None,
    }
}


// Helper to return a SignedOverflow while carrying a wrapped result
fn signed_overflow(v: Value) -> (r: Result<Value, EvalError>)
    ensures
        r == Err::<Value, EvalError>(EvalError::SignedOverflow(v)),
{
    Err(EvalError::SignedOverflow(v))
}

/// Classify the exact result `v` of a signed operation in rank `r`: the
/// value when it fits, otherwise an overflow carrying the wrapped result.
fn handle_signed_overflow(v: i128, r: IntRank) -> (res: Result<Value, EvalError>)
    ensures
        res == spec_signed_result(v as int, r),
{
    let (min, max) = int_min_max(r);
    if v >= min && v <= max {
        Ok(Value::Int(v, r))
    } else {
        signed_overflow(Value::Int(wrap_signed_of_i128(v, r), r))
    }
}

/// Every rank's range lies within `[-2^63, 2^64)`.
proof fn lemma_range_within_64_bits(r: IntRank)
    ensures
        -0x8000_0000_0000_0000 <= spec_min(r),
        spec_max(r) <= 0xffff_ffff_ffff_ffff,
{
}

/// Two's-complement wrap of the exact value `±p` into the range of `r`.
fn wrap_signed_of_parts(neg: bool, p: u128, r: IntRank) -> (w: i128)
    ensures
        w as int == spec_wrap_signed(if neg { -(p as int) } else { p as int }, r),
{
    let m: u128 = rank_mask_unsigned(r) + 1;
    let t0 = p % m;
    let t: u128 = if neg && t0 != 0 { m - t0 } else { t0 };
    let ghost v = if neg { -(p as int) } else { p as int };
    proof {
        let mi = m as int;
        lemma_fundamental_div_mod(p as int, mi);
        lemma_mod_bound(p as int, mi);
        let q = (p as int) / mi;
        if neg {
            if t0 == 0 {
                assert(v == (-q) * mi + 0) by (nonlinear_arith)
                    requires p as int == mi * q + t0 as int, t0 == 0, v == -(p as int);
                lemma_fundamental_div_mod_converse(v, mi, -q, 0);
            } else {
                assert(v == (-q - 1) * mi + (mi - t0 as int)) by (nonlinear_arith)
                    requires p as int == mi * q + t0 as int, v == -(p as int);
                lemma_fundamental_div_mod_converse(v, mi, -q - 1, mi - t0 as int);
            }
        }
        super::cast::lemma_signed_wrap(v, r, t as int);
    }
    let (_min, max) = int_min_max(r);
    if (t as i128) > max {
        (t as i128) - (m as i128)
    } else {
        t as i128
    }
}

/// Payloads of in-rank values fit in 65 bits.
proof fn lemma_in_rank_bounds(v: Value)
    requires
        spec_in_rank(v),
    ensures
        v matches Value::Int(x, _) ==> -0x8000_0000_0000_0000 <= x <= 0xffff_ffff_ffff_ffff,
        v matches Value::UInt(x, _) ==> x <= 0xffff_ffff_ffff_ffff,
{
}

fn add_int(lhs: Value, rhs: Value) -> (r: Result<Value, EvalError>)
    requires
        spec_cast_pair(lhs, rhs),
    ensures
        r == spec_add(lhs, rhs),
{
    proof {
        lemma_in_rank_bounds(lhs);
        lemma_in_rank_bounds(rhs);
    }
    match (lhs, rhs) {
        (Value::Int(x, rank), Value::Int(y, _)) => handle_signed_overflow(x + y, rank),
        (Value::UInt(x, rank), Value::UInt(y, _)) => {
            proof {
                vstd::arithmetic::div_mod::lemma_small_mod((x + y) as nat, u128_modulus() as nat);
            }
            Ok(Value::UInt(x + y, rank))
        },
        _ => Err(EvalError::TypeMismatch),
    }
}

fn sub_int(lhs: Value, rhs: Value) -> (r: Result<Value, EvalError>)
    requires
        spec_cast_pair(lhs, rhs),
    ensures
        r == spec_sub(lhs, rhs),
{
    proof {
        lemma_in_rank_bounds(lhs);
        lemma_in_rank_bounds(rhs);
    }
    match (lhs, rhs) {
        (Value::Int(x, rank), Value::Int(y, _)) => handle_signed_overflow(x - y, rank),
        (Value::UInt(x, rank), Value::UInt(y, _)) => {
            if x >= y {
                proof {
                    vstd::arithmetic::div_mod::lemma_small_mod((x - y) as nat, u128_modulus() as nat);
                }
                Ok(Value::UInt(x - y, rank))
            } else {
                let w: u128 = u128::MAX - (y - x) + 1;
                proof {
                    lemma_fundamental_div_mod_converse(x - y, u128_modulus(), -1, w as int);
                }
                Ok(Value::UInt(w, rank))
            }
        },
        _ => Err(EvalError::TypeMismatch),
    }
}

fn mul_int(lhs: Value, rhs: Value) -> (r: Result<Value, EvalError>)
    requires
        spec_cast_pair(lhs, rhs),
    ensures
        r == spec_mul(lhs, rhs),
{
    proof {
        lemma_in_rank_bounds(lhs);
        lemma_in_rank_bounds(rhs);
    }
    match (lhs, rhs) {
        (Value::Int(x, rank), Value::Int(y, _)) => {
            let ax: u128 = if x >= 0 { x as u128 } else { (-x) as u128 };
            let ay: u128 = if y >= 0 { y as u128 } else { (-y) as u128 };
            proof {
                assert(ax * ay <= 0xffff_ffff_ffff_ffff_ffff_ffff_ffff_ffff) by (nonlinear_arith)
                    requires ax <= 0xffff_ffff_ffff_ffff, ay <= 0xffff_ffff_ffff_ffff;
            }
            let p: u128 = ax * ay;
            let neg = (x < 0) != (y < 0);
            proof {
                assert((x as int) * (y as int) == (if neg { -(p as int) } else { p as int })) by (nonlinear_arith)
                    requires
                        ax == (if x >= 0 { x as int } else { -x }),
                        ay == (if y >= 0 { y as int } else { -y }),
                        p == ax * ay,
                        neg == ((x < 0) != (y < 0));
            }
            if p <= i128::MAX as u128 {
                let v: i128 = if neg { -(p as i128) } else { p as i128 };
                handle_signed_overflow(v, rank)
            } else {
                proof {
                    lemma_range_within_64_bits(rank);
                }
                signed_overflow(Value::Int(wrap_signed_of_parts(neg, p, rank), rank))
            }
        },
        (Value::UInt(x, rank), Value::UInt(y, _)) => {
            proof {
                assert(x * y <= 0xffff_ffff_ffff_ffff_ffff_ffff_ffff_ffff) by (nonlinear_arith)
                    requires x <= 0xffff_ffff_ffff_ffff, y <= 0xffff_ffff_ffff_ffff;
                vstd::arithmetic::div_mod::lemma_small_mod((x * y) as nat, u128_modulus() as nat);
            }
            Ok(Value::UInt(x * y, rank))
        },
        _ => Err(EvalError::TypeMismatch),
    }
}

/// Integer division, truncating toward zero (see [`spec_div`]).
pub fn div_int(lhs: Value, rhs: Value) -> (r: Result<Value, EvalError>)
    requires
        spec_cast_pair(lhs, rhs),
    ensures
        r == spec_div(lhs, rhs),
{
    proof {
        lemma_in_rank_bounds(lhs);
        lemma_in_rank_bounds(rhs);
    }
    match (lhs, rhs) {
        (Value::Int(_, _), Value::Int(0, _)) | (Value::UInt(_, _), Value::UInt(0, _)) => Err(EvalError::DivByZero),
        (Value::Int(x, rank), Value::Int(y, _)) => {
            // Detect MIN / -1 overflow and warn; result wraps to MIN
            let (min, _max) = int_min_max(rank);
            if y == -1 && x == min {
                signed_overflow(Value::Int(x, rank))
            } else {
                Ok(Value::Int(tdiv_i128(x, y), rank))
            }
        },
        (Value::UInt(x, rank), Value::UInt(y, _)) => Ok(Value::UInt(x / y, rank)),
        _ => Err(EvalError::TypeMismatch),
    }
}

/// Remainder of truncating division (see [`spec_mod`]).
pub fn mod_int(lhs: Value, rhs: Value) -> (r: Result<Value, EvalError>)
    requires
        spec_cast_pair(lhs, rhs),
    ensures
        r == spec_mod(lhs, rhs),
{
    proof {
        lemma_in_rank_bounds(lhs);
        lemma_in_rank_bounds(rhs);
    }
    match (lhs, rhs) {
        (Value::Int(_, _), Value::Int(0, _)) | (Value::UInt(_, _), Value::UInt(0, _)) => Err(EvalError::ModByZero),
        (Value::Int(x, rank), Value::Int(y, _)) => {
            if y == -1 {
                Ok(Value::Int(0, rank))
            } else {
                Ok(Value::Int(trem_i128(x, y), rank))
            }
        },
        (Value::UInt(x, rank), Value::UInt(y, _)) => Ok(Value::UInt(x % y, rank)),
        _ => Err(EvalError::TypeMismatch),
    }
}

fn bit_and(lhs: Value, rhs: Value) -> (r: Result<Value, EvalError>)
    ensures
        r == spec_bit_and(lhs, rhs),
{
    match (lhs, rhs) {
        (Value::Int(x, rank), Value::Int(y, _)) => Ok(Value::Int(x & y, rank)),
        (Value::UInt(x, rank), Value::UInt(y, _)) => Ok(Value::UInt(x & y, rank)),
        _ => Err(EvalError::TypeMismatch),
    }
}

fn bit_or(lhs: Value, rhs: Value) -> (r: Result<Value, EvalError>)
    ensures
        r == spec_bit_or(lhs, rhs),
{
    match (lhs, rhs) {
        (Value::Int(x, rank), Value::Int(y, _)) => Ok(Value::Int(x | y, rank)),
        (Value::UInt(x, rank), Value::UInt(y, _)) => Ok(Value::UInt(x | y, rank)),
        _ => Err(EvalError::TypeMismatch),
    }
}

fn bit_xor(lhs: Value, rhs: Value) -> (r: Result<Value, EvalError>)
    ensures
        r == spec_bit_xor(lhs, rhs),
{
    match (lhs, rhs) {
        (Value::Int(x, rank), Value::Int(y, _)) => Ok(Value::Int(x ^ y, rank)),
        (Value::UInt(x, rank), Value::UInt(y, _)) => Ok(Value::UInt(x ^ y, rank)),
        _ => Err(EvalError::TypeMismatch),
    }
}

/// Validate and convert a shift amount to `u32`: a count that is negative
/// or at least the width of `rank` is rejected.
pub fn validate_shift_amount(shift: i128, signed: bool, rank: IntRank) -> (r: Result<u32, EvalError>)
    ensures
        r == spec_validate_shift_amount(shift as int, signed, rank),
{
    if shift < 0 || shift >= rank_bits(rank) as i128 {
        return Err(EvalError::ShiftOutOfRange);
    }
    Ok(shift as u32)
}

/// Left shift (see [`spec_shl`]).
pub fn shl(lhs: Value, rhs: Value) -> (r: Result<Value, EvalError>)
    requires
        spec_cast_pair(lhs, rhs),
    ensures
        r == spec_shl(lhs, rhs),
{
    proof {
        lemma_in_rank_bounds(lhs);
        lemma_in_rank_bounds(rhs);
    }
    match (lhs, rhs) {
        (Value::Int(x, rank), Value::Int(shift, _)) => {
            let amount = validate_shift_amount(shift, true, rank)?;
            let p = pow2_u128(amount) as i128;
            proof {
                assert(-0x8000_0000_0000_0000_0000_0000_0000_0000 < x * p < 0x8000_0000_0000_0000_0000_0000_0000_0000) by (nonlinear_arith)
                    requires -0x8000_0000_0000_0000 <= x <= 0xffff_ffff_ffff_ffff,
                        1 <= p <= 0x8000_0000_0000_0000;
            }
            handle_signed_overflow(x * p, rank)
        },
        (Value::UInt(x, rank), Value::Int(shift, _)) => {
            let amount = validate_shift_amount(shift, true, rank)?;
            let p = pow2_u128(amount);
            proof {
                assert(x * p <= 0xffff_ffff_ffff_ffff_ffff_ffff_ffff_ffff) by (nonlinear_arith)
                    requires x <= 0xffff_ffff_ffff_ffff, p <= 0x8000_0000_0000_0000;
            }
            Ok(Value::UInt(x * p, rank))
        },
        (Value::UInt(x, rank), Value::UInt(shift, _)) => {
            let amount = validate_shift_amount(shift as i128, false, rank)?;
            let p = pow2_u128(amount);
            proof {
                assert(x * p <= 0xffff_ffff_ffff_ffff_ffff_ffff_ffff_ffff) by (nonlinear_arith)
                    requires x <= 0xffff_ffff_ffff_ffff, p <= 0x8000_0000_0000_0000;
            }
            Ok(Value::UInt(x * p, rank))
        },
        _ => Err(EvalError::TypeMismatch),
    }
}

/// Arithmetic right shift: division rounding toward negative infinity.
fn floor_div_pow2(x: i128, p: u128) -> (q: i128)
    requires
        1 <= p <= 0x8000_0000_0000_0000,
        -0x8000_0000_0000_0000 <= x <= 0xffff_ffff_ffff_ffff,
    ensures
        q as int == (x as int) / (p as int),
{
    let pi = p as i128;
    if x >= 0 {
        x / pi
    } else {
        let a: i128 = -x - 1;
        let t: i128 = a / pi;
        proof {
            let ai = a as int;
            let pp = p as int;
            lemma_fundamental_div_mod(ai, pp);
            lemma_mod_bound(ai, pp);
            let m = ai % pp;
            assert(x as int == (-(t as int) - 1) * pp + (pp - 1 - m)) by (nonlinear_arith)
                requires ai == pp * (t as int) + m, x as int == -ai - 1;
            lemma_fundamental_div_mod_converse(x as int, pp, -(t as int) - 1, pp - 1 - m);
        }
        -t - 1
    }
}

fn shr(lhs: Value, rhs: Value) -> (r: Result<Value, EvalError>)
    requires
        spec_cast_pair(lhs, rhs),
    ensures
        r == spec_shr(lhs, rhs),
{
    proof {
        lemma_in_rank_bounds(lhs);
        lemma_in_rank_bounds(rhs);
    }
    match (lhs, rhs) {
        (Value::Int(x, rank), Value::Int(shift, _)) => {
            let amount = validate_shift_amount(shift, true, rank)?;
            let p = pow2_u128(amount);
            Ok(Value::Int(floor_div_pow2(x, p), rank))
        },
        (Value::UInt(x, rank), Value::Int(shift, _)) => {
            let amount = validate_shift_amount(shift, true, rank)?;
            let p = pow2_u128(amount);
            Ok(Value::UInt(x / p, rank))
        },
        (Value::UInt(x, rank), Value::UInt(shift, _)) => {
            let amount = validate_shift_amount(shift as i128, false, rank)?;
            let p = pow2_u128(amount);
            Ok(Value::UInt(x / p, rank))
        },
        _ => Err(EvalError::TypeMismatch),
    }
}

/// Dispatch an operator to its integer implementation.
fn apply_op(op: Op, l: Value, r: Value) -> (res: Result<Value, EvalError>)
    requires
        spec_cast_pair(l, r),
    ensures
        res == spec_apply_op(op, l, r),
{
    match op {
        Op::Add => add_int(l, r),
        Op::Sub => sub_int(l, r),
        Op::Mul => mul_int(l, r),
        Op::Div => div_int(l, r),
        Op::Mod => mod_int(l, r),
        Op::BitAnd => bit_and(l, r),
        Op::BitOr => bit_or(l, r),
        Op::Xor => bit_xor(l, r),
        Op::Shl => shl(l, r),
        Op::Shr => shr(l, r),
    }
}

/// The binary operator of a syntax operator kind; `None` for the unary `~`.
pub fn op_from_ast(op: OpKind) -> (r: Option<Op>)
    ensures
        r == spec_op_from_ast(op),
{
    match op {
        OpKind::Add => Some(Op::Add),
        OpKind::Sub => Some(Op::Sub),
        OpKind::Multiply => Some(Op::Mul),
        OpKind::Divide => Some(Op::Div),
        OpKind::Modulo => Some(Op::Mod),
        OpKind::And => Some(Op::BitAnd),
        OpKind::Or => Some(Op::BitOr),
        OpKind::Xor => Some(Op::Xor),
        OpKind::Lshift => Some(Op::Shl),
        OpKind::Rshift => Some(Op::Shr),
        OpKind::Not => None,
    }
}

/// A successful cast to an integer tag yields an in-rank value of the tag's
/// rank, signed exactly when the tag is.
proof fn lemma_cast_result(v: Value, rank: IntRank, sign: bool)
    requires
        spec_cast_to(v, TyTag::Int(rank, sign)) is Ok,
    ensures
        spec_in_rank(spec_cast_to(v, TyTag::Int(rank, sign))->Ok_0),
        ({
            let w = spec_cast_to(v, TyTag::Int(rank, sign))->Ok_0;
            ||| (w matches Value::Int(_, r) && r == rank && sign)
            ||| (w matches Value::UInt(_, r) && r == rank && !sign)
        }),
{
    vstd::arithmetic::div_mod::lemma_mod_bound(0, spec_modulus(rank));
    match v {
        Value::Int(x, _) => {
            vstd::arithmetic::div_mod::lemma_mod_bound(x as int, spec_modulus(rank));
        },
        Value::UInt(x, _) => {
            vstd::arithmetic::div_mod::lemma_mod_bound(x as int, spec_modulus(rank));
        },
        _ => {},
    }
}

/// Evaluate a binary operator on two values: both are converted to their
/// common type per the usual arithmetic conversions, then the operator is
/// applied in that type.
pub fn eval_bin(op: Op, lhs: Value, rhs: Value) -> (r: Result<Value, EvalError>)
    ensures
        r == spec_eval_bin(op, lhs, rhs),
{
    let tag = match common_type(&lhs, &rhs) {
        Some(t) => t,
        None => return Err(EvalError::TypeMismatch),
    };
    let ghost lv = lhs;
    let ghost rv = rhs;
    let l = cast_to(lhs, tag)?;
    let r = cast_to(rhs, tag)?;
    proof {
        if let TyTag::Int(rank, sign) = tag {
            lemma_cast_result(lv, rank, sign);
            lemma_cast_result(rv, rank, sign);
        }
    }
    apply_op(op, l, r)
}

/// Evaluate a unary operator on a value.
pub fn eval_unary(op: OpKind, val: Value) -> (r: Result<Value, EvalError>)
    ensures
        r == spec_eval_unary(op, val),
{
    match (op, val) {
        (OpKind::Sub, Value::Int(i, r)) => {
            if i == i128::MIN {
                signed_overflow(Value::Int(i128::MIN, r))
            } else {
                Ok(Value::Int(-i, r))
            }
        },
        (OpKind::Sub, Value::UInt(u, r)) => {
            // -u for unsigned wraps modulo the rank's width
            let m: u128 = rank_mask_unsigned(r) + 1;
            let t = u % m;
            let w: u128 = if t == 0 { 0 } else { m - t };
            proof {
                let mi = m as int;
                lemma_fundamental_div_mod(u as int, mi);
                let q = (u as int) / mi;
                if t == 0 {
                    lemma_fundamental_div_mod_converse(-(u as int), mi, -q, 0);
                } else {
                    lemma_fundamental_div_mod_converse(-(u as int), mi, -q - 1, mi - t as int);
                }
            }
            Ok(Value::UInt(w, r))
        },
        (OpKind::Not, Value::Int(i, r)) => Ok(Value::Int(!i, r)),
        (OpKind::Not, Value::UInt(u, r)) => Ok(Value::UInt(!u, r)),
        (OpKind::Add, v) => Ok(v),
        _ => Err(EvalError::TypeMismatch),
    }
}

} // verus!
