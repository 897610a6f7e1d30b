//! Properties of constant evaluation that hold across its operations.

use vstd::prelude::*;
use vstd::arithmetic::div_mod::{lemma_fundamental_div_mod_converse, lemma_mod_bound, lemma_fundamental_div_mod};
use crate::diag::DiagView;
use crate::hir::{Def, Numeric, Span};
use super::expr::{ConstExpr, spec_eval_expr};
use super::cast::{spec_numeric_from_value, spec_value_from_numeric, spec_cast_to};
use super::arith::{spec_tdiv, spec_trem};
use super::ops::{spec_eval_bin, spec_signed_result, spec_apply_op, spec_div, spec_mod, spec_shl};
use vstd::arithmetic::power2::pow2;
use super::rank::{IntRank, spec_in_range, spec_is_signed, spec_rank_bits, spec_max, spec_min, spec_modulus, lemma_usual_int_conv_commutative};
use super::value::{EvalError, Op, OpKind, Value, spec_common_type, spec_wrap_signed, spec_wrap_unsigned};

verus! {

/// Wrapping a value that already fits its rank leaves it unchanged.
pub proof fn lemma_wrap_in_range(v: int, r: IntRank)
    requires
        spec_in_range(v, r),
    ensures
        spec_wrap_signed(v, r) == v,
        v >= 0 ==> spec_wrap_unsigned(v, r) == v,
{
    let m = spec_modulus(r);
    let mn = spec_min(r);
    lemma_fundamental_div_mod_converse(v - mn, m, 0, v - mn);
    if v >= 0 {
        lemma_fundamental_div_mod_converse(v, m, 0, v);
    }
}

/// Converting an integer constant to an evaluation value and back yields the
/// same constant.
pub proof fn lemma_numeric_value_roundtrip(n: Numeric)
    requires
        n is Int8 || n is UInt8 || n is Int16 || n is UInt16 || n is Int32 || n is UInt32
            || n is Int64 || n is UInt64 || n is Bool || n is Null || n is String || n is Const,
    ensures
        spec_value_from_numeric(n) is Some,
        spec_numeric_from_value(spec_value_from_numeric(n)->Some_0) == Some(n),
{
    match n {
        Numeric::Int8(v) => lemma_wrap_in_range(v as int, IntRank::I8),
        Numeric::UInt8(v) => lemma_wrap_in_range(v as int, IntRank::U8),
        Numeric::Int16(v) => lemma_wrap_in_range(v as int, IntRank::I16),
        Numeric::UInt16(v) => lemma_wrap_in_range(v as int, IntRank::U16),
        Numeric::Int32(v) => lemma_wrap_in_range(v as int, IntRank::I32),
        Numeric::UInt32(v) => lemma_wrap_in_range(v as int, IntRank::U32),
        Numeric::Int64(v) => lemma_wrap_in_range(v as int, IntRank::I64),
        Numeric::UInt64(v) => lemma_wrap_in_range(v as int, IntRank::U64),
        _ => {},
    }
}

/// A signed operation either yields its exact result, or reports an overflow
/// whose carried value lies in the rank's range and agrees with the exact
/// result modulo the rank's width.
pub proof fn lemma_signed_overflow_wraps(v: int, r: IntRank)
    ensures
        spec_in_range(v, r) ==> spec_signed_result(v, r) == Ok::<Value, EvalError>(Value::Int(v as i128, r)),
        !spec_in_range(v, r) ==> ({
            let w = spec_wrap_signed(v, r);
            &&& spec_signed_result(v, r) == Err::<Value, EvalError>(EvalError::SignedOverflow(Value::Int(w as i128, r)))
            &&& spec_min(r) <= w <= spec_max(r)
            &&& (v - w) % spec_modulus(r) == 0
        }),
{
    let m = spec_modulus(r);
    let mn = spec_min(r);
    lemma_fundamental_div_mod(v - mn, m);
    lemma_mod_bound(v - mn, m);
    let q = (v - mn) / m;
    let w = spec_wrap_signed(v, r);
    assert(v - w == m * q);
    assert(v - w == q * m + 0) by (nonlinear_arith)
        requires v - w == m * q;
    lemma_fundamental_div_mod_converse(v - w, m, q, 0);
}

/// Addition, multiplication and the bitwise operators do not depend on the
/// order of their operands.
pub proof fn lemma_eval_bin_commutative(op: Op, a: Value, b: Value)
    requires
        op is Add || op is Mul || op is BitAnd || op is BitOr || op is Xor,
    ensures
        spec_eval_bin(op, a, b) == spec_eval_bin(op, b, a),
{
    match (a, b) {
        (Value::Int(_, ra), Value::Int(_, rb)) => lemma_usual_int_conv_commutative(ra, rb),
        (Value::UInt(_, ra), Value::UInt(_, rb)) => lemma_usual_int_conv_commutative(ra, rb),
        (Value::Bool(_), Value::Int(_, rb)) => lemma_usual_int_conv_commutative(IntRank::I32, rb),
        (Value::Bool(_), Value::UInt(_, rb)) => lemma_usual_int_conv_commutative(IntRank::I32, rb),
        (Value::Int(_, ra), Value::Bool(_)) => lemma_usual_int_conv_commutative(ra, IntRank::I32),
        (Value::UInt(_, ra), Value::Bool(_)) => lemma_usual_int_conv_commutative(ra, IntRank::I32),
        _ => {},
    }
    assert(spec_common_type(a, b) == spec_common_type(b, a));
    if let Some(tag) = spec_common_type(a, b) {
        let ca = spec_cast_to(a, tag);
        let cb = spec_cast_to(b, tag);
        if ca is Ok && cb is Ok {
            let x = ca->Ok_0;
            let y = cb->Ok_0;
            match (x, y) {
                (Value::Int(p, _), Value::Int(q, _)) => {
                    assert(p & q == q & p) by (bit_vector);
                    assert(p | q == q | p) by (bit_vector);
                    assert(p ^ q == q ^ p) by (bit_vector);
                    assert(p * q == q * p) by (nonlinear_arith);
                },
                (Value::UInt(p, _), Value::UInt(q, _)) => {
                    assert(p & q == q & p) by (bit_vector);
                    assert(p | q == q | p) by (bit_vector);
                    assert(p ^ q == q ^ p) by (bit_vector);
                    assert(p * q == q * p) by (nonlinear_arith);
                },
                _ => {},
            }
            assert(spec_apply_op(op, x, y) == spec_apply_op(op, y, x));
        }
    }
}


/// Shifting a signed value left by a count within the width gives the
/// exact product with a power of two when it fits the rank; otherwise it
/// reports an overflow whose carried value lies in the rank's range and
/// agrees with the product modulo the rank's width.
pub proof fn lemma_signed_shl(x: i128, s: i128, r: IntRank)
    requires
        spec_is_signed(r),
        spec_in_range(x as int, r),
        0 <= s < spec_rank_bits(r),
    ensures
        ({
            let v = x * pow2(s as nat);
            &&& spec_in_range(v, r) ==> spec_shl(Value::Int(x, r), Value::Int(s, r)) == Ok::<Value, EvalError>(
                Value::Int(v as i128, r),
            )
            &&& !spec_in_range(v, r) ==> ({
                let w = spec_wrap_signed(v, r);
                &&& spec_shl(Value::Int(x, r), Value::Int(s, r)) == Err::<Value, EvalError>(
                    EvalError::SignedOverflow(Value::Int(w as i128, r)),
                )
                &&& spec_min(r) <= w <= spec_max(r)
                &&& (v - w) % spec_modulus(r) == 0
            })
        }),
{
    assert((s as u32) as nat == s as nat);
    lemma_signed_overflow_wraps(x * pow2(s as nat), r);
}

/// Magnitude of an integer.
pub open spec fn spec_abs(v: int) -> int {
    if v < 0 { -v } else { v }
}

/// Truncating division and its remainder: the remainder is smaller than the
/// divisor in magnitude, is zero or has the sign of the dividend, and with
/// the quotient gives back the dividend; the quotient is no larger than the
/// dividend in magnitude.
proof fn lemma_trem_bounds(x: int, y: int)
    requires
        y != 0,
    ensures
        spec_abs(spec_trem(x, y)) < spec_abs(y),
        spec_trem(x, y) == 0 || (spec_trem(x, y) < 0) == (x < 0),
        spec_tdiv(x, y) * y + spec_trem(x, y) == x,
        spec_abs(spec_tdiv(x, y)) <= spec_abs(x),
{
    let a = spec_abs(x);
    let b = spec_abs(y);
    lemma_fundamental_div_mod(a, b);
    lemma_mod_bound(a, b);
    let k = a / b;
    let m = a % b;
    assert(a == b * k + m);
    assert(0 <= k <= a) by (nonlinear_arith)
        requires a >= 0, b >= 1, a == b * k + m, 0 <= m < b;
    let q = spec_tdiv(x, y);
    let kb = k * b;
    if y > 0 {
        assert(b == y);
        if x >= 0 {
            assert(q == k);
        } else {
            assert(q == -k);
            assert(q * y == -kb) by (nonlinear_arith)
                requires q == -k, kb == k * b, b == y;
        }
    } else {
        assert(b == -y);
        if x >= 0 {
            assert(q == -k);
            assert(q * y == kb) by (nonlinear_arith)
                requires q == -k, kb == k * b, b == -y;
        } else {
            assert(q == k);
            assert(q * y == -kb) by (nonlinear_arith)
                requires q == k, kb == k * b, b == -y;
        }
    }
    assert(y * q == q * y) by (nonlinear_arith);
    if x >= 0 {
        assert(spec_trem(x, y) == m);
    } else {
        assert(spec_trem(x, y) == -m);
    }
}

/// The remainder of two signed values of one rank: by zero it is refused;
/// otherwise it is smaller than the divisor in magnitude, is zero or has the
/// sign of the dividend, and where the quotient of the same operands is
/// defined, quotient times divisor plus remainder gives back the dividend.
pub proof fn lemma_signed_remainder(x: i128, y: i128, r: IntRank)
    requires
        spec_is_signed(r),
        spec_in_range(x as int, r),
        spec_in_range(y as int, r),
    ensures
        y == 0 ==> spec_mod(Value::Int(x, r), Value::Int(y, r)) == Err::<Value, EvalError>(EvalError::ModByZero),
        y != 0 ==> (spec_mod(Value::Int(x, r), Value::Int(y, r)) matches Ok(Value::Int(m, rk)) && rk == r
            && spec_abs(m as int) < spec_abs(y as int) && (m == 0 || (m < 0) == (x < 0))
            && (spec_div(Value::Int(x, r), Value::Int(y, r)) matches Ok(Value::Int(q, _)) ==> q * y + m == x)),
{
    if y != 0 {
        lemma_trem_bounds(x as int, y as int);
        if y == -1 {
            assert(spec_tdiv(x as int, -1) == -x);
        }
    }
}

} // verus!

verus! {

/// Parentheses do not change what an expression evaluates to, nor what it
/// reports.
pub proof fn lemma_group_transparent(defs: Seq<Def>, e: ConstExpr, span: Span)
    ensures
        spec_eval_expr(defs, ConstExpr::Group { expr: Box::new(e), span }) == spec_eval_expr(defs, e),
{
}

/// A leading unary `+` leaves a value as it is and reports nothing more.
pub proof fn lemma_unary_plus_identity(defs: Seq<Def>, e: ConstExpr, span: Span)
    ensures
        spec_eval_expr(defs, ConstExpr::Unary { op: OpKind::Add, expr: Box::new(e), span }) == spec_eval_expr(defs, e),
{
}

/// A literal evaluates to its own value and reports nothing.
pub proof fn lemma_literal_silent(defs: Seq<Def>, value: Numeric, span: Span)
    ensures
        spec_eval_expr(defs, ConstExpr::Literal { value, span }).1 == Seq::<DiagView>::empty(),
        spec_eval_expr(defs, ConstExpr::Literal { value, span }).2 == Seq::<DiagView>::empty(),
        spec_eval_expr(defs, ConstExpr::Literal { value, span }).0 == spec_value_from_numeric(value),
{
}

} // verus!
