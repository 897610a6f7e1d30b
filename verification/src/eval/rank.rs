//! Integer and floating-point type ranking and promotion rules.
//!
//! Implements C-style integer promotions and usual arithmetic conversions
//! for constant expression evaluation.

use vstd::prelude::*;

verus! {

/// Integer rank categories for promotions.
#[derive(Clone, Copy, Debug, PartialEq, Eq, Structural)]
pub enum IntRank {
    I8,
    U8,
    I16,
    U16,
    I32,
    U32,
    I64,
    U64,
}

/// Floating-point widths we care about.
#[derive(Clone, Copy, Debug, PartialEq, Eq, Structural)]
pub enum FloatRank {
    F32,
    F64,
    F128,
}

/// Type tag for common type computation.
#[derive(Clone, Copy, Debug, PartialEq, Eq, Structural)]
pub enum TyTag {
    Int(IntRank, bool),
    Float(FloatRank),
}

/// IDL long: the default integer type for promotions.
pub open spec fn int_rank() -> IntRank {
    IntRank::I32
}

pub open spec fn spec_rank_bits(r: IntRank) -> nat {
    match r {
        IntRank::I8 | IntRank::U8 => 8,
        IntRank::I16 | IntRank::U16 => 16,
        IntRank::I32 | IntRank::U32 => 32,
        IntRank::I64 | IntRank::U64 => 64,
    }
}

/// `2^bits` for the bit widths of the integer ranks.
pub open spec fn spec_modulus(r: IntRank) -> int {
    match r {
        IntRank::I8 | IntRank::U8 => 0x100,
        IntRank::I16 | IntRank::U16 => 0x1_0000,
        IntRank::I32 | IntRank::U32 => 0x1_0000_0000,
        IntRank::I64 | IntRank::U64 => 0x1_0000_0000_0000_0000,
    }
}

pub open spec fn spec_is_signed(r: IntRank) -> bool {
    r is I8 || r is I16 || r is I32 || r is I64
}

pub open spec fn spec_rank_ord(r: IntRank) -> nat {
    match r {
        IntRank::I8 | IntRank::U8 => 0,
        IntRank::I16 | IntRank::U16 => 1,
        IntRank::I32 | IntRank::U32 => 2,
        IntRank::I64 | IntRank::U64 => 3,
    }
}

/// Smallest value of the rank's range.
pub open spec fn spec_min(r: IntRank) -> int {
    if spec_is_signed(r) {
        -(spec_modulus(r) / 2)
    } else {
        0
    }
}

/// Largest value of the rank's range.
pub open spec fn spec_max(r: IntRank) -> int {
    if spec_is_signed(r) {
        spec_modulus(r) / 2 - 1
    } else {
        spec_modulus(r) - 1
    }
}

pub open spec fn spec_in_range(v: int, r: IntRank) -> bool {
    spec_min(r) <= v <= spec_max(r)
}

pub open spec fn spec_can_represent_all(r: IntRank, other: IntRank) -> bool {
    spec_min(r) >= spec_min(other) && spec_max(r) <= spec_max(other)
}

/// Integer promotion: ranks narrower than `long` become `long` when `long`
/// holds all their values, otherwise `unsigned long`.
pub open spec fn spec_promote(r: IntRank) -> IntRank {
    if spec_rank_bits(r) < spec_rank_bits(int_rank()) {
        if spec_can_represent_all(r, int_rank()) {
            int_rank()
        } else {
            IntRank::U32
        }
    } else {
        r
    }
}

pub open spec fn spec_unsigned_of_rank(o: nat) -> IntRank {
    if o == 0 {
        IntRank::U8
    } else if o == 1 {
        IntRank::U16
    } else if o == 2 {
        IntRank::U32
    } else {
        IntRank::U64
    }
}

/// Usual arithmetic conversion of two promoted ranks, one signed and one
/// unsigned.
pub open spec fn spec_mixed_conv(signed: IntRank, unsigned: IntRank) -> IntRank {
    if spec_rank_ord(signed) > spec_rank_ord(unsigned) {
        if spec_can_represent_all(unsigned, signed) {
            signed
        } else {
            spec_unsigned_of_rank(spec_rank_ord(signed))
        }
    } else if spec_rank_ord(signed) < spec_rank_ord(unsigned) {
        unsigned
    } else {
        spec_unsigned_of_rank(spec_rank_ord(signed))
    }
}

/// Usual arithmetic conversions (C standard 6.3.1.8) on integer ranks.
pub open spec fn spec_usual_int_conv(lhs: IntRank, rhs: IntRank) -> IntRank {
    let a = spec_promote(lhs);
    let b = spec_promote(rhs);
    if a == b {
        a
    } else if spec_is_signed(a) == spec_is_signed(b) {
        if spec_rank_ord(a) >= spec_rank_ord(b) {
            a
        } else {
            b
        }
    } else if spec_is_signed(a) {
        spec_mixed_conv(a, b)
    } else {
        spec_mixed_conv(b, a)
    }
}

pub open spec fn spec_float_rank_for(a: FloatRank, b: FloatRank) -> FloatRank {
    if a is F128 || b is F128 {
        FloatRank::F128
    } else if a is F64 || b is F64 {
        FloatRank::F64
    } else {
        FloatRank::F32
    }
}

pub fn rank_bits(r: IntRank) -> (b: u32)
    ensures
        b == spec_rank_bits(r),
{
    match r {
        IntRank::I8 | IntRank::U8 => 8,
        IntRank::I16 | IntRank::U16 => 16,
        IntRank::I32 | IntRank::U32 => 32,
        IntRank::I64 | IntRank::U64 => 64,
    }
}

/// Get a bit mask for the given integer rank (signed representation): all
/// ones over the rank's width, capped at `i64::MAX` for 64-bit ranks.
pub fn rank_mask_signed(r: IntRank) -> (m: i128)
    ensures
        m == (if spec_rank_bits(r) >= 64 { i64::MAX as int } else { spec_modulus(r) - 1 }),
{
    match r {
        IntRank::I8 | IntRank::U8 => 0xff,
        IntRank::I16 | IntRank::U16 => 0xffff,
        IntRank::I32 | IntRank::U32 => 0xffff_ffff,
        IntRank::I64 | IntRank::U64 => 0x7fff_ffff_ffff_ffff,
    }
}

/// Get a bit mask for the given integer rank (unsigned representation): all
/// ones over the rank's width.
pub fn rank_mask_unsigned(r: IntRank) -> (m: u128)
    ensures
        m == spec_modulus(r) - 1,
{
    match r {
        IntRank::I8 | IntRank::U8 => 0xff,
        IntRank::I16 | IntRank::U16 => 0xffff,
        IntRank::I32 | IntRank::U32 => 0xffff_ffff,
        IntRank::I64 | IntRank::U64 => 0xffff_ffff_ffff_ffff,
    }
}

pub fn is_signed(r: IntRank) -> (b: bool)
    ensures
        b == spec_is_signed(r),
{
    match r {
        IntRank::I8 | IntRank::I16 | IntRank::I32 | IntRank::I64 => true,
        _ => false,
    }
}

pub fn rank_ord(r: IntRank) -> (o: u32)
    ensures
        o == spec_rank_ord(r),
{
    match r {
        IntRank::I8 | IntRank::U8 => 0,
        IntRank::I16 | IntRank::U16 => 1,
        IntRank::I32 | IntRank::U32 => 2,
        IntRank::I64 | IntRank::U64 => 3,
    }
}

/// The inclusive range of values of an integer rank.
pub fn int_min_max(r: IntRank) -> (mm: (i128, i128))
    ensures
        mm.0 == spec_min(r),
        mm.1 == spec_max(r),
{
    let full = rank_mask_unsigned(r) as i128;
    if is_signed(r) {
        let max = full / 2;
        let min = -1i128 - max;
        (min, max)
    } else {
        (0, full)
    }
}

pub fn can_int_represent_all(r: IntRank, int_r: IntRank) -> (b: bool)
    ensures
        b == spec_can_represent_all(r, int_r),
{
    let (min, max) = int_min_max(r);
    let (imin, imax) = int_min_max(int_r);
    min >= imin && max <= imax
}

/// Integer promotions (C standard 6.3.1.1)
///
/// Values of types smaller than int are promoted when used in expressions:
/// - If int (Int32) can represent all values of the original type, promote to int
/// - Otherwise, promote to unsigned int (`UInt32`)
/// - Types already int-sized or larger are unchanged
pub fn promote_integer(r: IntRank) -> (p: IntRank)
    ensures
        p == spec_promote(r),
{
    if rank_bits(r) < rank_bits(IntRank::I32) {
        if can_int_represent_all(r, IntRank::I32) {
            IntRank::I32
        } else {
            IntRank::U32
        }
    } else {
        r
    }
}

pub fn unsigned_of_rank(rank_ord_val: u32) -> (r: IntRank)
    ensures
        r == spec_unsigned_of_rank(rank_ord_val as nat),
{
    match rank_ord_val {
        0 => IntRank::U8,
        1 => IntRank::U16,
        2 => IntRank::U32,
        _ => IntRank::U64,
    }
}

/// Usual arithmetic conversions (C standard 6.3.1.8)
///
/// When two operands have different types, they are converted to a common type:
/// 1. If both operands have the same type after promotion, no further conversion
/// 2. If both are signed or both unsigned, the smaller rank converts to larger
/// 3. If the unsigned operand has rank >= signed operand, signed converts to unsigned
/// 4. If the signed type can represent all values of the unsigned type, unsigned converts to signed
/// 5. Otherwise, both convert to the unsigned type corresponding to the signed type's rank
pub fn usual_int_conv(lhs: IntRank, rhs: IntRank) -> (r: IntRank)
    ensures
        r == spec_usual_int_conv(lhs, rhs),
{
    let lhs_prom = promote_integer(lhs);
    let rhs_prom = promote_integer(rhs);
    if lhs_prom == rhs_prom {
        return lhs_prom;
    }
    let a_rank = rank_ord(lhs_prom);
    let b_rank = rank_ord(rhs_prom);
    let lhs_signed = is_signed(lhs_prom);
    let rhs_signed = is_signed(rhs_prom);
    if lhs_signed == rhs_signed {
        if a_rank >= b_rank {
            lhs_prom
        } else {
            rhs_prom
        }
    } else {
        let (signed_rank, signed_rank_ord, unsigned_rank, unsigned_rank_ord) = if lhs_signed {
            (lhs_prom, a_rank, rhs_prom, b_rank)
        } else {
            (rhs_prom, b_rank, lhs_prom, a_rank)
        };
        if signed_rank_ord > unsigned_rank_ord {
            if can_int_represent_all(unsigned_rank, signed_rank) {
                signed_rank
            } else {
                unsigned_of_rank(signed_rank_ord)
            }
        } else if signed_rank_ord < unsigned_rank_ord {
            unsigned_rank
        } else {
            unsigned_of_rank(signed_rank_ord)
        }
    }
}

pub fn float_rank_for(ty: FloatRank, other: FloatRank) -> (r: FloatRank)
    ensures
        r == spec_float_rank_for(ty, other),
{
    match (ty, other) {
        (FloatRank::F128, _) | (_, FloatRank::F128) => FloatRank::F128,
        (FloatRank::F64, _) | (_, FloatRank::F64) => FloatRank::F64,
        _ => FloatRank::F32,
    }
}

/// Promotion is idempotent, and a promoted rank is at least as wide as `long`.
pub proof fn lemma_promote_idempotent(r: IntRank)
    ensures
        spec_promote(spec_promote(r)) == spec_promote(r),
        spec_rank_bits(spec_promote(r)) >= 32,
        spec_rank_bits(spec_promote(r)) >= spec_rank_bits(r),
{
}

/// The usual arithmetic conversions do not depend on the order of the operands.
pub proof fn lemma_usual_int_conv_commutative(a: IntRank, b: IntRank)
    ensures
        spec_usual_int_conv(a, b) == spec_usual_int_conv(b, a),
{
}

/// Converting a rank with itself yields its promotion.
pub proof fn lemma_usual_int_conv_same(r: IntRank)
    ensures
        spec_usual_int_conv(r, r) == spec_promote(r),
{
}

/// The common rank is itself promoted and at least as wide as both promoted
/// operands.
pub proof fn lemma_usual_int_conv_widens(a: IntRank, b: IntRank)
    ensures
        spec_promote(spec_usual_int_conv(a, b)) == spec_usual_int_conv(a, b),
        spec_rank_ord(spec_usual_int_conv(a, b)) >= spec_rank_ord(spec_promote(a)),
        spec_rank_ord(spec_usual_int_conv(a, b)) >= spec_rank_ord(spec_promote(b)),
{
}

/// The common rank of two operands of the same signedness after promotion
/// keeps that signedness.
pub proof fn lemma_usual_int_conv_same_sign(a: IntRank, b: IntRank)
    requires
        spec_is_signed(spec_promote(a)) == spec_is_signed(spec_promote(b)),
    ensures
        spec_is_signed(spec_usual_int_conv(a, b)) == spec_is_signed(spec_promote(a)),
{
}

} // verus!
