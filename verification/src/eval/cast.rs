//! Type casting and conversion between values, constants and HIR types.

use vstd::prelude::*;
use vstd::arithmetic::div_mod::{lemma_fundamental_div_mod, lemma_mod_bound, lemma_fundamental_div_mod_converse};
use crate::hir::{Numeric, PrimitiveTy, Ty, TyKind};
use super::arith::euclid_mod;
use super::rank::{
    FloatRank, IntRank, TyTag, int_min_max, rank_mask_unsigned, spec_in_range, spec_is_signed,
    spec_max, spec_min, spec_modulus,
};
use super::value::{EvalError, Value, spec_wrap_signed, spec_wrap_unsigned};

verus! {

pub(crate) proof fn lemma_signed_wrap(v: int, r: IntRank, t: int)
    requires
        t == v % spec_modulus(r),
    ensures
        spec_wrap_signed(v, r) == (if t > spec_max(r) { t - spec_modulus(r) } else { t }),
        spec_min(r) <= spec_wrap_signed(v, r) <= spec_max(r),
{
    let m = spec_modulus(r);
    let mn = spec_min(r);
    lemma_fundamental_div_mod(v, m);
    lemma_mod_bound(v, m);
    let q = v / m;
    if spec_is_signed(r) {
        if t > spec_max(r) {
            assert(v - mn == (q + 1) * m + (t - mn - m)) by (nonlinear_arith)
                requires v == m * q + t;
            lemma_fundamental_div_mod_converse(v - mn, m, q + 1, t - mn - m);
        } else {
            assert(v - mn == q * m + (t - mn)) by (nonlinear_arith)
                requires v == m * q + t;
            lemma_fundamental_div_mod_converse(v - mn, m, q, t - mn);
        }
    } else {
        assert(v - mn == q * m + t) by (nonlinear_arith)
            requires v == m * q + t, mn == 0;
        lemma_fundamental_div_mod_converse(v - mn, m, q, t);
    }
}

/// Two's-complement wrap of a signed payload into the range of `r`.
pub(crate) fn wrap_signed_of_i128(v: i128, r: IntRank) -> (w: i128)
    ensures
        w as int == spec_wrap_signed(v as int, r),
{
    let m: u128 = rank_mask_unsigned(r) + 1;
    let t = euclid_mod(v, m);
    let (_min, max) = int_min_max(r);
    proof {
        lemma_signed_wrap(v as int, r, t as int);
    }
    if (t as i128) > max {
        (t as i128) - (m as i128)
    } else {
        t as i128
    }
}

/// Two's-complement wrap of an unsigned payload into the range of `r`.
fn wrap_signed_of_u128(v: u128, r: IntRank) -> (w: i128)
    ensures
        w as int == spec_wrap_signed(v as int, r),
{
    let m: u128 = rank_mask_unsigned(r) + 1;
    let t = v % m;
    let (_min, max) = int_min_max(r);
    proof {
        lemma_signed_wrap(v as int, r, t as int);
    }
    if (t as i128) > max {
        (t as i128) - (m as i128)
    } else {
        t as i128
    }
}

/// The result of casting a value to a type tag (integer values cast to a
/// floating-point tag excepted).
pub open spec fn spec_cast_to(value: Value, target: TyTag) -> Result<Value, EvalError> {
    match target {
        TyTag::Int(r, sign) => match value {
            Value::Int(v, _) => if sign {
                if spec_in_range(v as int, r) {
                    Ok(Value::Int(v, r))
                } else {
                    Err(EvalError::RangeError)
                }
            } else {
                Ok(Value::UInt(spec_wrap_unsigned(v as int, r) as u128, r))
            },
            Value::UInt(v, _) => if sign {
                if v as int <= spec_max(r) {
                    Ok(Value::Int(v as i128, r))
                } else {
                    Err(EvalError::RangeError)
                }
            } else {
                Ok(Value::UInt(spec_wrap_unsigned(v as int, r) as u128, r))
            },
            Value::Bool(b) => if sign {
                Ok(Value::Int(if b { 1 } else { 0 }, r))
            } else {
                Ok(Value::UInt(if b { 1 } else { 0 }, r))
            },
            _ => Err(EvalError::TypeMismatch),
        },
        TyTag::Float(_) => Err(EvalError::TypeMismatch),
    }
}

/// Cast a value to a type tag, performing the necessary conversions: signed
/// targets reject values outside their range, unsigned targets wrap modulo
/// their width, booleans become 0 or 1; characters, strings, null and
/// constant references are a type mismatch, as is a boolean cast to a
/// floating-point tag. (An integer cast to a floating-point tag computes a
/// float, which this library does not hold.)
pub fn cast_to(value: Value, target: TyTag) -> (r: Result<Value, EvalError>)
    requires
        target is Int || !(value is Int || value is UInt),
    ensures
        r == spec_cast_to(value, target),
{
    match target {
        TyTag::Int(r, sign) => match value {
            Value::Int(v, _) => {
                if sign {
                    let (min, max) = int_min_max(r);
                    if v < min || v > max {
                        return Err(EvalError::RangeError);
                    }
                    Ok(Value::Int(v, r))
                } else {
                    let m: u128 = rank_mask_unsigned(r) + 1;
                    Ok(Value::UInt(euclid_mod(v, m), r))
                }
            },
            Value::UInt(v, _) => {
                if sign {
                    let max = int_min_max(r).1 as u128;
                    if v > max {
                        return Err(EvalError::RangeError);
                    }
                    Ok(Value::Int(v as i128, r))
                } else {
                    let m: u128 = rank_mask_unsigned(r) + 1;
                    Ok(Value::UInt(v % m, r))
                }
            },
            Value::Bool(b) => {
                if sign {
                    Ok(Value::Int(if b { 1 } else { 0 }, r))
                } else {
                    Ok(Value::UInt(if b { 1 } else { 0 }, r))
                }
            },
            _ => Err(EvalError::TypeMismatch),
        },
        TyTag::Float(_) => Err(EvalError::TypeMismatch),
    }
}

/// The character whose code point is `code`, when it is a Unicode scalar value.
pub open spec fn spec_char_from_u32(code: u32) -> Option<char> {
    if code <= 0xD7FF || (0xE000 <= code && code <= 0x10FFFF) {
        Some(code as char)
    } else {
        None
    }
}

/// `char::from_u32`: the character with the given code point, or `None`
/// for surrogates and values above `0x10FFFF`, as std documents.
#[verifier::external_body]
fn char_from_u32(code: u32) -> (c: Option<char>)
    ensures
        c == spec_char_from_u32(code),
{
    char::from_u32(code)
}

/// Map a primitive type to its integer rank.
pub open spec fn spec_rank_for_primitive(prim: PrimitiveTy) -> Option<(bool, IntRank)> {
    match prim {
        PrimitiveTy::Int8 => Some((true, IntRank::I8)),
        PrimitiveTy::UInt8 => Some((false, IntRank::U8)),
        PrimitiveTy::Int16 => Some((true, IntRank::I16)),
        PrimitiveTy::UInt16 => Some((false, IntRank::U16)),
        PrimitiveTy::Int32 => Some((true, IntRank::I32)),
        PrimitiveTy::UInt32 => Some((false, IntRank::U32)),
        PrimitiveTy::Int64 => Some((true, IntRank::I64)),
        PrimitiveTy::UInt64 => Some((false, IntRank::U64)),
        _ => None,
    }
}

/// Map a primitive type to its floating-point rank.
pub open spec fn spec_float_rank_for_primitive(prim: PrimitiveTy) -> Option<FloatRank> {
    match prim {
        PrimitiveTy::Float32 => Some(FloatRank::F32),
        PrimitiveTy::Float64 => Some(FloatRank::F64),
        PrimitiveTy::Float128 => Some(FloatRank::F128),
        _ => None,
    }
}

/// Map a primitive type to its integer rank.
pub fn rank_for_primitive(prim: PrimitiveTy) -> (r: Option<(bool, IntRank)>)
    ensures
        r == spec_rank_for_primitive(prim),
{
    match prim {
        PrimitiveTy::Int8 => Some((true, IntRank::I8)),
        PrimitiveTy::UInt8 => Some((false, IntRank::U8)),
        PrimitiveTy::Int16 => Some((true, IntRank::I16)),
        PrimitiveTy::UInt16 => Some((false, IntRank::U16)),
        PrimitiveTy::Int32 => Some((true, IntRank::I32)),
        PrimitiveTy::UInt32 => Some((false, IntRank::U32)),
        PrimitiveTy::Int64 => Some((true, IntRank::I64)),
        PrimitiveTy::UInt64 => Some((false, IntRank::U64)),
        PrimitiveTy::Bool | PrimitiveTy::Char | PrimitiveTy::WChar | PrimitiveTy::Float32
        | PrimitiveTy::Float64 | PrimitiveTy::Float128 | PrimitiveTy::Void => None,
    }
}

/// Map a primitive type to its floating-point rank.
pub fn float_rank_for_primitive(prim: PrimitiveTy) -> (r: Option<FloatRank>)
    ensures
        r == spec_float_rank_for_primitive(prim),
{
    match prim {
        PrimitiveTy::Float32 => Some(FloatRank::F32),
        PrimitiveTy::Float64 => Some(FloatRank::F64),
        PrimitiveTy::Float128 => Some(FloatRank::F128),
        _ => None,
    }
}


/// Whether a type is one of the floating-point primitives.
pub open spec fn spec_is_float_ty(ty: Ty) -> bool {
    match ty.kind {
        TyKind::Primitive(p) => spec_float_rank_for_primitive(p) is Some,
        _ => false,
    }
}

/// The result of casting a value to a HIR type.
pub open spec fn spec_cast_value_to_type(v: Value, ty: Ty) -> Result<Value, EvalError> {
    match ty.kind {
        TyKind::Primitive(p) => match p {
            PrimitiveTy::Char => match spec_cast_to(v, TyTag::Int(IntRank::U8, false)) {
                Err(e) => Err(e),
                Ok(Value::UInt(u, IntRank::U8)) => Ok(Value::Char((u as u8) as char)),
                Ok(Value::Int(i, IntRank::I8)) => Ok(Value::Char((i as u8) as char)),
                Ok(_) => Err(EvalError::TypeMismatch),
            },
            PrimitiveTy::WChar => match spec_cast_to(v, TyTag::Int(IntRank::U16, false)) {
                Err(e) => Err(e),
                Ok(Value::UInt(u, IntRank::U16)) => spec_wchar_of(u as u32),
                Ok(Value::Int(i, IntRank::I16)) => spec_wchar_of((i as u16) as u32),
                Ok(_) => Err(EvalError::TypeMismatch),
            },
            PrimitiveTy::Bool => match v {
                Value::Bool(_) => Ok(v),
                _ => Err(EvalError::TypeMismatch),
            },
            _ => match spec_rank_for_primitive(p) {
                Some((signed, rank)) => spec_cast_to(v, TyTag::Int(rank, signed)),
                None => Err(EvalError::TypeMismatch),
            },
        },
        TyKind::String { .. } => match v {
            Value::String(_) => Ok(v),
            _ => Err(EvalError::TypeMismatch),
        },
        _ => Ok(v),
    }
}

/// A 16-bit code unit as a wide character: surrogates are rejected.
pub open spec fn spec_wchar_of(code: u32) -> Result<Value, EvalError> {
    if 0xD800 <= code && code <= 0xDFFF {
        Err(EvalError::InvalidChar)
    } else {
        Ok(Value::Char(code as char))
    }
}

/// Cast a value to a specific HIR type. Character types go through their
/// unsigned code-unit width; integer primitives use [`cast_to`]; strings only
/// accept strings; `any` and user-defined types accept the value unchanged.
pub fn cast_value_to_type(v: Value, ty: &Ty) -> (r: Result<Value, EvalError>)
    requires
        !spec_is_float_ty(*ty),
    ensures
        r == spec_cast_value_to_type(v, *ty),
{
    match &ty.kind {
        TyKind::Primitive(p) => {
            match *p {
                PrimitiveTy::Char => {
                    let vv = cast_to(v, TyTag::Int(IntRank::U8, false))?;
                    match vv {
                        Value::UInt(u, IntRank::U8) => Ok(Value::Char((u as u8) as char)),
                        Value::Int(i, IntRank::I8) => Ok(Value::Char((i as u8) as char)),
                        _ => Err(EvalError::TypeMismatch),
                    }
                },
                PrimitiveTy::WChar => {
                    let vv = cast_to(v, TyTag::Int(IntRank::U16, false))?;
                    let code: u32 = match vv {
                        Value::UInt(u, IntRank::U16) => u as u32,
                        Value::Int(i, IntRank::I16) => (i as u16) as u32,
                        _ => return Err(EvalError::TypeMismatch),
                    };
                    if 0xD800 <= code && code <= 0xDFFF {
                        return Err(EvalError::InvalidChar);
                    }
                    match char_from_u32(code) {
                        Some(c) => Ok(Value::Char(c)),
                        None => Err(EvalError::InvalidChar),
                    }
                },
                PrimitiveTy::Bool => {
                    match v {
                        Value::Bool(_) => Ok(v),
                        _ => Err(EvalError::TypeMismatch),
                    }
                },
                _ => {
                    if let Some((signed, rank)) = rank_for_primitive(*p) {
                        cast_to(v, TyTag::Int(rank, signed))
                    } else {
                        Err(EvalError::TypeMismatch)
                    }
                },
            }
        },
        TyKind::String { .. } => {
            match v {
                Value::String(_) => Ok(v),
                _ => Err(EvalError::TypeMismatch),
            }
        },
        TyKind::Any => Ok(v),
        _ => Ok(v),
    }
}

/// Whether a constant is a floating-point literal.
pub open spec fn spec_is_float_numeric(n: Numeric) -> bool {
    n is Float || n is Double
}

/// The evaluation value of a constant, `None` for aggregates.
pub open spec fn spec_value_from_numeric(num: Numeric) -> Option<Value> {
    match num {
        Numeric::Null => Some(Value::Null),
        Numeric::Bool(b) => Some(Value::Bool(b)),
        Numeric::Char(c) => Some(Value::UInt((c as u32) as u128, IntRank::U8)),
        Numeric::Int8(v) => Some(Value::Int(v as i128, IntRank::I8)),
        Numeric::UInt8(v) => Some(Value::UInt(v as u128, IntRank::U8)),
        Numeric::Int16(v) => Some(Value::Int(v as i128, IntRank::I16)),
        Numeric::UInt16(v) => Some(Value::UInt(v as u128, IntRank::U16)),
        Numeric::Int32(v) => Some(Value::Int(v as i128, IntRank::I32)),
        Numeric::UInt32(v) => Some(Value::UInt(v as u128, IntRank::U32)),
        Numeric::Int64(v) => Some(Value::Int(v as i128, IntRank::I64)),
        Numeric::UInt64(v) => Some(Value::UInt(v as u128, IntRank::U64)),
        Numeric::String(s) => Some(Value::String(s)),
        Numeric::Const(id) => Some(Value::Const(id)),
        _ => None,
    }
}

/// Convert a HIR constant to an evaluation value. Narrow characters are
/// treated as unsigned 8-bit integers for promotions.
pub fn value_from_numeric(num: &Numeric) -> (r: Option<Value>)
    requires
        !spec_is_float_numeric(*num),
    ensures
        r == spec_value_from_numeric(*num),
{
    match num {
        Numeric::Null => Some(Value::Null),
        Numeric::Bool(b) => Some(Value::Bool(*b)),
        Numeric::Char(c) => Some(Value::UInt((*c as u32) as u128, IntRank::U8)),
        Numeric::Int8(v) => Some(Value::Int(*v as i128, IntRank::I8)),
        Numeric::UInt8(v) => Some(Value::UInt(*v as u128, IntRank::U8)),
        Numeric::Int16(v) => Some(Value::Int(*v as i128, IntRank::I16)),
        Numeric::UInt16(v) => Some(Value::UInt(*v as u128, IntRank::U16)),
        Numeric::Int32(v) => Some(Value::Int(*v as i128, IntRank::I32)),
        Numeric::UInt32(v) => Some(Value::UInt(*v as u128, IntRank::U32)),
        Numeric::Int64(v) => Some(Value::Int(*v as i128, IntRank::I64)),
        Numeric::UInt64(v) => Some(Value::UInt(*v as u128, IntRank::U64)),
        Numeric::String(s) => Some(Value::String(s.clone())),
        Numeric::Const(def_id) => Some(Value::Const(*def_id)),
        _ => None,
    }
}

/// The constant of rank `r` holding the exact integer `x` reduced to the
/// rank's width.
pub open spec fn spec_numeric_of_int(x: int, r: IntRank) -> Numeric {
    match r {
        IntRank::I8 => Numeric::Int8(spec_wrap_signed(x, IntRank::I8) as i8),
        IntRank::I16 => Numeric::Int16(spec_wrap_signed(x, IntRank::I16) as i16),
        IntRank::I32 => Numeric::Int32(spec_wrap_signed(x, IntRank::I32) as i32),
        IntRank::I64 => Numeric::Int64(spec_wrap_signed(x, IntRank::I64) as i64),
        IntRank::U8 => Numeric::UInt8(spec_wrap_unsigned(x, IntRank::U8) as u8),
        IntRank::U16 => Numeric::UInt16(spec_wrap_unsigned(x, IntRank::U16) as u16),
        IntRank::U32 => Numeric::UInt32(spec_wrap_unsigned(x, IntRank::U32) as u32),
        IntRank::U64 => Numeric::UInt64(spec_wrap_unsigned(x, IntRank::U64) as u64),
    }
}

/// The HIR constant of an evaluation value.
pub open spec fn spec_numeric_from_value(v: Value) -> Option<Numeric> {
    match v {
        Value::Null => Some(Numeric::Null),
        Value::Bool(b) => Some(Numeric::Bool(b)),
        Value::Char(c) => Some(Numeric::Char(c)),
        Value::Int(i, r) => Some(spec_numeric_of_int(i as int, r)),
        Value::UInt(u, r) => Some(spec_numeric_of_int(u as int, r)),
        Value::String(s) => Some(Numeric::String(s)),
        Value::Const(id) => Some(Numeric::Const(id)),
    }
}

fn numeric_of_i128(x: i128, r: IntRank) -> (n: Numeric)
    ensures
        n == spec_numeric_of_int(x as int, r),
{
    if is_signed_rank(r) {
        let w = wrap_signed_of_i128(x, r);
        proof {
            lemma_signed_wrap_bounds(x as int, r);
        }
        match r {
            IntRank::I8 => Numeric::Int8(w as i8),
            IntRank::I16 => Numeric::Int16(w as i16),
            IntRank::I32 => Numeric::Int32(w as i32),
            _ => Numeric::Int64(w as i64),
        }
    } else {
        let m: u128 = rank_mask_unsigned(r) + 1;
        let w = euclid_mod(x, m);
        match r {
            IntRank::U8 => Numeric::UInt8(w as u8),
            IntRank::U16 => Numeric::UInt16(w as u16),
            IntRank::U32 => Numeric::UInt32(w as u32),
            _ => Numeric::UInt64(w as u64),
        }
    }
}

fn numeric_of_u128(x: u128, r: IntRank) -> (n: Numeric)
    ensures
        n == spec_numeric_of_int(x as int, r),
{
    if is_signed_rank(r) {
        let w = wrap_signed_of_u128(x, r);
        proof {
            lemma_signed_wrap_bounds(x as int, r);
        }
        match r {
            IntRank::I8 => Numeric::Int8(w as i8),
            IntRank::I16 => Numeric::Int16(w as i16),
            IntRank::I32 => Numeric::Int32(w as i32),
            _ => Numeric::Int64(w as i64),
        }
    } else {
        let m: u128 = rank_mask_unsigned(r) + 1;
        let w = x % m;
        match r {
            IntRank::U8 => Numeric::UInt8(w as u8),
            IntRank::U16 => Numeric::UInt16(w as u16),
            IntRank::U32 => Numeric::UInt32(w as u32),
            _ => Numeric::UInt64(w as u64),
        }
    }
}

proof fn lemma_signed_wrap_bounds(v: int, r: IntRank)
    ensures
        spec_min(r) <= spec_wrap_signed(v, r) <= spec_max(r),
{
    vstd::arithmetic::div_mod::lemma_mod_bound(v, spec_modulus(r));
    lemma_signed_wrap(v, r, v % spec_modulus(r));
}

fn is_signed_rank(r: IntRank) -> (b: bool)
    ensures
        b == spec_is_signed(r),
{
    super::rank::is_signed(r)
}

/// Convert an evaluation value to a HIR constant; integer payloads are
/// reduced to the width of their rank.
pub fn numeric_from_value(v: &Value) -> (r: Option<Numeric>)
    ensures
        r == spec_numeric_from_value(*v),
{
    match v {
        Value::Null => Some(Numeric::Null),
        Value::Bool(b) => Some(Numeric::Bool(*b)),
        Value::Char(c) => Some(Numeric::Char(*c)),
        Value::Int(i, r) => Some(numeric_of_i128(*i, *r)),
        Value::UInt(u, r) => Some(numeric_of_u128(*u, *r)),
        Value::String(s) => Some(Numeric::String(s.clone())),
        Value::Const(def_id) => Some(Numeric::Const(*def_id)),
    }
}

} // verus!
