//! The value domain of the constant evaluator.

use vstd::prelude::*;
use crate::hir::DefId;
use super::rank::{IntRank, TyTag, int_rank, spec_in_range, spec_is_signed, spec_min, spec_modulus, spec_usual_int_conv, usual_int_conv, is_signed};

verus! {

/// A simplified value domain for evaluation. Integer payloads are held at
/// 128 bits; the rank says which IDL integer type the value belongs to.
#[derive(Clone, Debug, PartialEq)]
pub enum Value {
    Int(i128, IntRank),
    UInt(u128, IntRank),
    Bool(bool),
    Char(char),
    String(String),
    Null,
    Const(DefId),
}

/// Binary operators of constant expressions.
#[derive(Clone, Copy, Debug, PartialEq, Eq, Structural)]
pub enum Op {
    Add,
    Sub,
    Mul,
    Div,
    Mod,
    BitAnd,
    BitOr,
    Xor,
    Shl,
    Shr,
}

/// Why an evaluation step did not produce a plain value.
#[derive(Debug, PartialEq)]
pub enum EvalError {
    /// Signed overflow occurred; contains a wrapped result to continue with.
    SignedOverflow(Value),
    /// Value does not fit in the target type range.
    RangeError,
    /// Invalid Unicode scalar value for a character type (e.g., surrogate for wchar).
    InvalidChar,
    /// Invalid floating-point value (NaN or infinity) in conversion.
    InvalidFloat,
    DivByZero,
    ModByZero,
    TypeMismatch,
    ShiftOutOfRange,
}

/// Two's-complement wrap of an exact result into the range of a signed rank.
pub open spec fn spec_wrap_signed(v: int, r: IntRank) -> int {
    spec_min(r) + (v - spec_min(r)) % spec_modulus(r)
}

/// Modular wrap of an exact result into the range of an unsigned rank.
pub open spec fn spec_wrap_unsigned(v: int, r: IntRank) -> int {
    v % spec_modulus(r)
}

/// A value whose payload lies within its rank: what a cast to a type tag
/// produces.
pub open spec fn spec_in_rank(v: Value) -> bool {
    match v {
        Value::Int(x, r) => spec_in_range(x as int, r),
        Value::UInt(x, r) => (x as int) < spec_modulus(r),
        _ => true,
    }
}

/// The common type of two operands according to C promotion rules; `None`
/// when the operands cannot be combined arithmetically.
pub open spec fn spec_common_type(a: Value, b: Value) -> Option<TyTag> {
    match (a, b) {
        (Value::Int(_, ra), Value::Int(_, rb)) => Some(TyTag::Int(spec_usual_int_conv(ra, rb), true)),
        (Value::UInt(_, ra), Value::UInt(_, rb)) => Some(TyTag::Int(spec_usual_int_conv(ra, rb), false)),
        (Value::Int(_, ra), Value::UInt(_, rb)) | (Value::UInt(_, rb), Value::Int(_, ra)) => {
            let rank = spec_usual_int_conv(ra, rb);
            Some(TyTag::Int(rank, spec_is_signed(rank)))
        },
        (Value::Bool(_), Value::Bool(_)) => Some(TyTag::Int(int_rank(), true)),
        (Value::Bool(_), Value::Int(_, rb)) | (Value::Bool(_), Value::UInt(_, rb)) => {
            let rank = spec_usual_int_conv(int_rank(), rb);
            Some(TyTag::Int(rank, spec_is_signed(rank)))
        },
        (Value::Int(_, ra), Value::Bool(_)) | (Value::UInt(_, ra), Value::Bool(_)) => {
            let rank = spec_usual_int_conv(ra, int_rank());
            Some(TyTag::Int(rank, spec_is_signed(rank)))
        },
        _ => None,
    }
}

/// Compute the common type for two values according to C promotion rules.
pub fn common_type(a: &Value, b: &Value) -> (t: Option<TyTag>)
    ensures
        t == spec_common_type(*a, *b),
{
    match (a, b) {
        (Value::Int(_, ra), Value::Int(_, rb)) => Some(TyTag::Int(usual_int_conv(*ra, *rb), true)),
        (Value::UInt(_, ra), Value::UInt(_, rb)) => Some(TyTag::Int(usual_int_conv(*ra, *rb), false)),
        (Value::Int(_, ra), Value::UInt(_, rb)) | (Value::UInt(_, rb), Value::Int(_, ra)) => {
            let rank = usual_int_conv(*ra, *rb);
            Some(TyTag::Int(rank, is_signed(rank)))
        },
        (Value::Bool(_), Value::Bool(_)) => Some(TyTag::Int(IntRank::I32, true)),
        (Value::Bool(_), Value::Int(_, rb)) | (Value::Bool(_), Value::UInt(_, rb)) => {
            let rank = usual_int_conv(IntRank::I32, *rb);
            Some(TyTag::Int(rank, is_signed(rank)))
        },
        (Value::Int(_, ra), Value::Bool(_)) | (Value::UInt(_, ra), Value::Bool(_)) => {
            let rank = usual_int_conv(*ra, IntRank::I32);
            Some(TyTag::Int(rank, is_signed(rank)))
        },
        _ => None,
    }
}

} // verus!

verus! {

/// Operator kinds of the expression syntax.
#[derive(Clone, Copy, Debug, PartialEq, Eq, Structural)]
pub enum OpKind {
    Add,
    Sub,
    Multiply,
    Divide,
    Modulo,
    And,
    Or,
    Xor,
    Lshift,
    Rshift,
    Not,
}

} // verus!
