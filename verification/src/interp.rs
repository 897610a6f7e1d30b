//! Negation and complement of constant values.

use vstd::prelude::*;
use crate::hir::Numeric;

verus! {

/// The values that can be negated: every integer except the smallest of its
/// signed type, booleans and floating-point literals.
pub open spec fn spec_negatable(n: Numeric) -> bool {
    match n {
        Numeric::Bool(_) | Numeric::UInt8(_) | Numeric::UInt16(_) | Numeric::UInt32(_) | Numeric::UInt64(_)
        | Numeric::Float(_) | Numeric::Double(_) => true,
        Numeric::Int8(v) => v != i8::MIN,
        Numeric::Int16(v) => v != i16::MIN,
        Numeric::Int32(v) => v != i32::MIN,
        Numeric::Int64(v) => v != i64::MIN,
        _ => false,
    }
}

/// Negation of a constant: signed integers and floating-point literals are
/// negated (a float by flipping its sign bit); unsigned integers take their
/// bitwise complement, which is how an unsigned wrap-around is simulated;
/// a boolean becomes the complement of its 8-bit integer value.
pub open spec fn spec_sub_num(n: Numeric) -> Numeric {
    match n {
        Numeric::Bool(v) => Numeric::Int8(!(if v { 1i8 } else { 0i8 })),
        Numeric::UInt8(v) => Numeric::UInt8(!v),
        Numeric::UInt16(v) => Numeric::UInt16(!v),
        Numeric::UInt32(v) => Numeric::UInt32(!v),
        Numeric::UInt64(v) => Numeric::UInt64(!v),
        Numeric::Int8(v) => Numeric::Int8((-v) as i8),
        Numeric::Int16(v) => Numeric::Int16((-v) as i16),
        Numeric::Int32(v) => Numeric::Int32((-v) as i32),
        Numeric::Int64(v) => Numeric::Int64((-v) as i64),
        Numeric::Float(b) => Numeric::Float(b ^ 0x8000_0000u32),
        Numeric::Double(b) => Numeric::Double(b ^ 0x8000_0000_0000_0000u64),
        _ => n,
    }
}

/// Negate a constant value.
pub fn sub_num(num: Numeric) -> (r: Numeric)
    requires
        spec_negatable(num),
    ensures
        r == spec_sub_num(num),
{
    match num {
        Numeric::Bool(v) => Numeric::Int8(!(if v { 1i8 } else { 0i8 })),
        Numeric::UInt8(v) => Numeric::UInt8(!v),
        Numeric::UInt16(v) => Numeric::UInt16(!v),
        Numeric::UInt32(v) => Numeric::UInt32(!v),
        Numeric::UInt64(v) => Numeric::UInt64(!v),
        Numeric::Int8(v) => Numeric::Int8(-v),
        Numeric::Int16(v) => Numeric::Int16(-v),
        Numeric::Int32(v) => Numeric::Int32(-v),
        Numeric::Int64(v) => Numeric::Int64(-v),
        Numeric::Float(b) => Numeric::Float(b ^ 0x8000_0000u32),
        Numeric::Double(b) => Numeric::Double(b ^ 0x8000_0000_0000_0000u64),
        _ => num,
    }
}

/// The values that have a complement: booleans and integers.
pub open spec fn spec_complementable(n: Numeric) -> bool {
    match n {
        Numeric::Bool(_) | Numeric::UInt8(_) | Numeric::UInt16(_) | Numeric::UInt32(_) | Numeric::UInt64(_)
        | Numeric::Int8(_) | Numeric::Int16(_) | Numeric::Int32(_) | Numeric::Int64(_) => true,
        _ => false,
    }
}

/// The complement of a constant: logical for booleans, bitwise for
/// integers.
pub open spec fn spec_not_num(n: Numeric) -> Numeric {
    match n {
        Numeric::Bool(v) => Numeric::Bool(!v),
        Numeric::UInt8(v) => Numeric::UInt8(!v),
        Numeric::UInt16(v) => Numeric::UInt16(!v),
        Numeric::UInt32(v) => Numeric::UInt32(!v),
        Numeric::UInt64(v) => Numeric::UInt64(!v),
        Numeric::Int8(v) => Numeric::Int8(!v),
        Numeric::Int16(v) => Numeric::Int16(!v),
        Numeric::Int32(v) => Numeric::Int32(!v),
        Numeric::Int64(v) => Numeric::Int64(!v),
        _ => n,
    }
}

/// Complement a constant value.
pub fn not_num(num: Numeric) -> (r: Numeric)
    requires
        spec_complementable(num),
    ensures
        r == spec_not_num(num),
{
    match num {
        Numeric::Bool(v) => Numeric::Bool(!v),
        Numeric::UInt8(v) => Numeric::UInt8(!v),
        Numeric::UInt16(v) => Numeric::UInt16(!v),
        Numeric::UInt32(v) => Numeric::UInt32(!v),
        Numeric::UInt64(v) => Numeric::UInt64(!v),
        Numeric::Int8(v) => Numeric::Int8(!v),
        Numeric::Int16(v) => Numeric::Int16(!v),
        Numeric::Int32(v) => Numeric::Int32(!v),
        Numeric::Int64(v) => Numeric::Int64(!v),
        _ => num,
    }
}

/// Complementing twice gives the value back.
pub proof fn lemma_not_num_involutive(n: Numeric)
    requires
        spec_complementable(n),
    ensures
        spec_complementable(spec_not_num(n)),
        spec_not_num(spec_not_num(n)) == n,
{
    match n {
        Numeric::UInt8(v) => {
            assert(!(!v) == v) by (bit_vector);
        },
        Numeric::UInt16(v) => {
            assert(!(!v) == v) by (bit_vector);
        },
        Numeric::UInt32(v) => {
            assert(!(!v) == v) by (bit_vector);
        },
        Numeric::UInt64(v) => {
            assert(!(!v) == v) by (bit_vector);
        },
        Numeric::Int8(v) => {
            assert(!(!v) == v) by (bit_vector);
        },
        Numeric::Int16(v) => {
            assert(!(!v) == v) by (bit_vector);
        },
        Numeric::Int32(v) => {
            assert(!(!v) == v) by (bit_vector);
        },
        Numeric::Int64(v) => {
            assert(!(!v) == v) by (bit_vector);
        },
        _ => {},
    }
}

/// Negating a signed integer or a floating-point literal twice gives the
/// value back.
pub proof fn lemma_sub_num_involutive(n: Numeric)
    requires
        spec_negatable(n),
        !(n is Bool),
    ensures
        spec_negatable(spec_sub_num(n)),
        spec_sub_num(spec_sub_num(n)) == n,
{
    match n {
        Numeric::UInt8(v) => {
            assert(!(!v) == v) by (bit_vector);
        },
        Numeric::UInt16(v) => {
            assert(!(!v) == v) by (bit_vector);
        },
        Numeric::UInt32(v) => {
            assert(!(!v) == v) by (bit_vector);
        },
        Numeric::UInt64(v) => {
            assert(!(!v) == v) by (bit_vector);
        },
        Numeric::Float(b) => {
            assert((b ^ 0x8000_0000u32) ^ 0x8000_0000u32 == b) by (bit_vector);
        },
        Numeric::Double(b) => {
            assert((b ^ 0x8000_0000_0000_0000u64) ^ 0x8000_0000_0000_0000u64 == b) by (bit_vector);
        },
        _ => {},
    }
}

} // verus!
