use ic_hir::eval::cast::{
    cast_to, cast_value_to_type, float_rank_for_primitive, numeric_from_value, rank_for_primitive,
    value_from_numeric,
};
use ic_hir::eval::ops::{div_int, eval_bin, eval_unary, mod_int, op_from_ast, shl, validate_shift_amount};
use ic_hir::eval::rank::{
    can_int_represent_all, float_rank_for, int_min_max, is_signed, promote_integer, rank_bits,
    rank_mask_signed, rank_mask_unsigned, rank_ord, unsigned_of_rank, usual_int_conv, FloatRank,
    IntRank, TyTag,
};
use ic_hir::eval::value::{EvalError, Op, OpKind, Value};
use ic_hir::hir::{Numeric, PrimitiveTy, Span, Ty, TyKind};

fn prim(p: PrimitiveTy) -> Ty {
    Ty {
        span: Span::default(),
        kind: TyKind::Primitive(p),
    }
}

#[test]
fn rank_widths_and_masks() {
    assert_eq!(rank_bits(IntRank::I8), 8);
    assert_eq!(rank_bits(IntRank::U16), 16);
    assert_eq!(rank_bits(IntRank::I32), 32);
    assert_eq!(rank_bits(IntRank::U64), 64);
    assert_eq!(rank_mask_signed(IntRank::I8), 0xff);
    assert_eq!(rank_mask_signed(IntRank::I64), i64::MAX as i128);
    assert_eq!(rank_mask_unsigned(IntRank::U32), 0xffff_ffff);
    assert_eq!(rank_mask_unsigned(IntRank::U64), u64::MAX as u128);
    assert!(is_signed(IntRank::I16));
    assert!(!is_signed(IntRank::U16));
    assert_eq!(rank_ord(IntRank::U8), 0);
    assert_eq!(rank_ord(IntRank::I64), 3);
    assert_eq!(unsigned_of_rank(1), IntRank::U16);
    assert_eq!(unsigned_of_rank(7), IntRank::U64);
}

#[test]
fn rank_ranges() {
    assert_eq!(int_min_max(IntRank::I8), (-128, 127));
    assert_eq!(int_min_max(IntRank::U8), (0, 255));
    assert_eq!(int_min_max(IntRank::I64), (i64::MIN as i128, i64::MAX as i128));
    assert_eq!(int_min_max(IntRank::U64), (0, u64::MAX as i128));
    assert!(can_int_represent_all(IntRank::U16, IntRank::I32));
    assert!(!can_int_represent_all(IntRank::U32, IntRank::I32));
}

#[test]
fn integer_promotions() {
    assert_eq!(promote_integer(IntRank::I8), IntRank::I32);
    assert_eq!(promote_integer(IntRank::U8), IntRank::I32);
    assert_eq!(promote_integer(IntRank::U16), IntRank::I32);
    assert_eq!(promote_integer(IntRank::U32), IntRank::U32);
    assert_eq!(promote_integer(IntRank::I64), IntRank::I64);
}

#[test]
fn usual_arithmetic_conversions() {
    assert_eq!(usual_int_conv(IntRank::I8, IntRank::I16), IntRank::I32);
    assert_eq!(usual_int_conv(IntRank::I32, IntRank::U32), IntRank::U32);
    assert_eq!(usual_int_conv(IntRank::I64, IntRank::U32), IntRank::I64);
    assert_eq!(usual_int_conv(IntRank::U32, IntRank::I64), IntRank::I64);
    assert_eq!(usual_int_conv(IntRank::I64, IntRank::U64), IntRank::U64);
    assert_eq!(usual_int_conv(IntRank::U8, IntRank::U64), IntRank::U64);
    assert_eq!(float_rank_for(FloatRank::F32, FloatRank::F64), FloatRank::F64);
    assert_eq!(float_rank_for(FloatRank::F128, FloatRank::F32), FloatRank::F128);
    assert_eq!(float_rank_for(FloatRank::F32, FloatRank::F32), FloatRank::F32);
}

#[test]
fn primitive_ranks() {
    assert_eq!(rank_for_primitive(PrimitiveTy::Int16), Some((true, IntRank::I16)));
    assert_eq!(rank_for_primitive(PrimitiveTy::UInt64), Some((false, IntRank::U64)));
    assert_eq!(rank_for_primitive(PrimitiveTy::Char), None);
    assert_eq!(float_rank_for_primitive(PrimitiveTy::Float64), Some(FloatRank::F64));
    assert_eq!(float_rank_for_primitive(PrimitiveTy::Int32), None);
}

#[test]
fn casts_to_integer_tags() {
    assert_eq!(cast_to(Value::Int(-1, IntRank::I32), TyTag::Int(IntRank::U8, false)), Ok(Value::UInt(255, IntRank::U8)));
    assert_eq!(cast_to(Value::Int(300, IntRank::I32), TyTag::Int(IntRank::I8, true)), Err(EvalError::RangeError));
    assert_eq!(cast_to(Value::UInt(128, IntRank::U8), TyTag::Int(IntRank::I8, true)), Err(EvalError::RangeError));
    assert_eq!(cast_to(Value::UInt(300, IntRank::U32), TyTag::Int(IntRank::U8, false)), Ok(Value::UInt(44, IntRank::U8)));
    assert_eq!(cast_to(Value::Bool(true), TyTag::Int(IntRank::I32, true)), Ok(Value::Int(1, IntRank::I32)));
    assert_eq!(cast_to(Value::Null, TyTag::Int(IntRank::I32, true)), Err(EvalError::TypeMismatch));
}

#[test]
fn casts_to_hir_types() {
    assert_eq!(cast_value_to_type(Value::Int(65, IntRank::I32), &prim(PrimitiveTy::Char)), Ok(Value::Char('A')));
    assert_eq!(cast_value_to_type(Value::Int(0xD800, IntRank::I32), &prim(PrimitiveTy::WChar)), Err(EvalError::InvalidChar));
    assert_eq!(cast_value_to_type(Value::Int(0x263A, IntRank::I32), &prim(PrimitiveTy::WChar)), Ok(Value::Char('\u{263A}')));
    assert_eq!(cast_value_to_type(Value::Int(1, IntRank::I32), &prim(PrimitiveTy::Bool)), Err(EvalError::TypeMismatch));
    assert_eq!(cast_value_to_type(Value::Bool(false), &prim(PrimitiveTy::Bool)), Ok(Value::Bool(false)));
    assert_eq!(cast_value_to_type(Value::Int(3_000_000_000, IntRank::I64), &prim(PrimitiveTy::Int32)), Err(EvalError::RangeError));
    assert_eq!(cast_value_to_type(Value::Int(-1, IntRank::I32), &prim(PrimitiveTy::UInt32)), Ok(Value::UInt(4294967295, IntRank::U32)));
    let string_ty = Ty { span: Span::default(), kind: TyKind::String { wide: false, bound: None, bound_span: None } };
    assert_eq!(cast_value_to_type(Value::Int(1, IntRank::I32), &string_ty), Err(EvalError::TypeMismatch));
    assert_eq!(cast_value_to_type(Value::String("s".to_string()), &string_ty), Ok(Value::String("s".to_string())));
    let any = Ty { span: Span::default(), kind: TyKind::Any };
    assert_eq!(cast_value_to_type(Value::Null, &any), Ok(Value::Null));
}

#[test]
fn numeric_value_conversions() {
    assert_eq!(value_from_numeric(&Numeric::Char('A')), Some(Value::UInt(65, IntRank::U8)));
    assert_eq!(value_from_numeric(&Numeric::Int16(-3)), Some(Value::Int(-3, IntRank::I16)));
    assert_eq!(value_from_numeric(&Numeric::Const(4)), Some(Value::Const(4)));
    assert_eq!(value_from_numeric(&Numeric::WChar('x')), None);
    assert_eq!(numeric_from_value(&Value::Int(300, IntRank::I8)), Some(Numeric::Int8(44)));
    assert_eq!(numeric_from_value(&Value::Int(-129, IntRank::I8)), Some(Numeric::Int8(127)));
    assert_eq!(numeric_from_value(&Value::UInt(256, IntRank::U8)), Some(Numeric::UInt8(0)));
    assert_eq!(numeric_from_value(&Value::UInt(u128::MAX, IntRank::U32)), Some(Numeric::UInt32(u32::MAX)));
    assert_eq!(numeric_from_value(&Value::Bool(true)), Some(Numeric::Bool(true)));
}

#[test]
fn binary_operations_promote() {
    assert_eq!(eval_bin(Op::Add, Value::Int(100, IntRank::I8), Value::Int(100, IntRank::I8)), Ok(Value::Int(200, IntRank::I32)));
    assert_eq!(eval_bin(Op::Add, Value::Bool(true), Value::Bool(true)), Ok(Value::Int(2, IntRank::I32)));
    assert_eq!(
        eval_bin(Op::Add, Value::UInt(5, IntRank::U64), Value::Int(-1, IntRank::I32)),
        Ok(Value::UInt(18446744073709551620, IntRank::U64))
    );
    assert_eq!(eval_bin(Op::Sub, Value::UInt(1, IntRank::U32), Value::UInt(2, IntRank::U32)), Ok(Value::UInt(u128::MAX, IntRank::U32)));
    assert_eq!(eval_bin(Op::Add, Value::String("a".to_string()), Value::Int(1, IntRank::I32)), Err(EvalError::TypeMismatch));
}

#[test]
fn signed_overflow_wraps() {
    assert_eq!(
        eval_bin(Op::Add, Value::Int(i32::MAX as i128, IntRank::I32), Value::Int(1, IntRank::I32)),
        Err(EvalError::SignedOverflow(Value::Int(i32::MIN as i128, IntRank::I32)))
    );
    assert_eq!(
        eval_bin(Op::Mul, Value::Int(1 << 62, IntRank::I64), Value::Int(4, IntRank::I64)),
        Err(EvalError::SignedOverflow(Value::Int(0, IntRank::I64)))
    );
    assert_eq!(
        eval_bin(Op::Div, Value::Int(i64::MIN as i128, IntRank::I64), Value::Int(-1, IntRank::I64)),
        Err(EvalError::SignedOverflow(Value::Int(i64::MIN as i128, IntRank::I64)))
    );
}

#[test]
fn division_and_remainder_truncate() {
    assert_eq!(eval_bin(Op::Div, Value::Int(-7, IntRank::I32), Value::Int(2, IntRank::I32)), Ok(Value::Int(-3, IntRank::I32)));
    assert_eq!(eval_bin(Op::Mod, Value::Int(-7, IntRank::I32), Value::Int(2, IntRank::I32)), Ok(Value::Int(-1, IntRank::I32)));
    assert_eq!(eval_bin(Op::Mod, Value::Int(7, IntRank::I32), Value::Int(-1, IntRank::I32)), Ok(Value::Int(0, IntRank::I32)));
    assert_eq!(eval_bin(Op::Div, Value::Int(7, IntRank::I32), Value::Int(0, IntRank::I32)), Err(EvalError::DivByZero));
    assert_eq!(eval_bin(Op::Mod, Value::UInt(7, IntRank::U32), Value::UInt(0, IntRank::U32)), Err(EvalError::ModByZero));
    assert_eq!(eval_bin(Op::Div, Value::UInt(7, IntRank::U32), Value::UInt(2, IntRank::U32)), Ok(Value::UInt(3, IntRank::U32)));
}

#[test]
fn bitwise_operations() {
    assert_eq!(eval_bin(Op::BitAnd, Value::Int(12, IntRank::I32), Value::Int(10, IntRank::I32)), Ok(Value::Int(8, IntRank::I32)));
    assert_eq!(eval_bin(Op::BitOr, Value::Int(12, IntRank::I32), Value::Int(10, IntRank::I32)), Ok(Value::Int(14, IntRank::I32)));
    assert_eq!(eval_bin(Op::Xor, Value::Int(12, IntRank::I32), Value::Int(10, IntRank::I32)), Ok(Value::Int(6, IntRank::I32)));
}

#[test]
fn shifts() {
    assert_eq!(eval_bin(Op::Shl, Value::Int(1, IntRank::I32), Value::Int(4, IntRank::I32)), Ok(Value::Int(16, IntRank::I32)));
    assert_eq!(
        eval_bin(Op::Shl, Value::Int(1, IntRank::I32), Value::Int(31, IntRank::I32)),
        Err(EvalError::SignedOverflow(Value::Int(-2147483648, IntRank::I32)))
    );
    assert_eq!(
        eval_bin(Op::Shl, Value::Int(3, IntRank::I32), Value::Int(31, IntRank::I32)),
        Err(EvalError::SignedOverflow(Value::Int(-2147483648, IntRank::I32)))
    );
    assert_eq!(eval_bin(Op::Shl, Value::Int(-1, IntRank::I32), Value::Int(31, IntRank::I32)), Ok(Value::Int(-2147483648, IntRank::I32)));
    assert_eq!(
        eval_bin(Op::Shl, Value::Int(1, IntRank::I64), Value::Int(4294967297, IntRank::I64)),
        Err(EvalError::ShiftOutOfRange)
    );
    assert_eq!(eval_bin(Op::Shl, Value::Int(1, IntRank::I32), Value::Int(32, IntRank::I32)), Err(EvalError::ShiftOutOfRange));
    assert_eq!(eval_bin(Op::Shl, Value::Int(1, IntRank::I32), Value::Int(-1, IntRank::I32)), Err(EvalError::ShiftOutOfRange));
    assert_eq!(eval_bin(Op::Shr, Value::Int(-8, IntRank::I32), Value::Int(1, IntRank::I32)), Ok(Value::Int(-4, IntRank::I32)));
    assert_eq!(eval_bin(Op::Shr, Value::Int(-7, IntRank::I32), Value::Int(1, IntRank::I32)), Ok(Value::Int(-4, IntRank::I32)));
    assert_eq!(eval_bin(Op::Shr, Value::UInt(256, IntRank::U32), Value::UInt(4, IntRank::U32)), Ok(Value::UInt(16, IntRank::U32)));
    assert_eq!(validate_shift_amount(8, false, IntRank::U8), Err(EvalError::ShiftOutOfRange));
    assert_eq!(validate_shift_amount(7, false, IntRank::U8), Ok(7));
    assert_eq!(validate_shift_amount(-1, false, IntRank::U64), Err(EvalError::ShiftOutOfRange));
    assert_eq!(validate_shift_amount(4294967297, true, IntRank::I64), Err(EvalError::ShiftOutOfRange));
    assert_eq!(validate_shift_amount(63, true, IntRank::I64), Ok(63));
}

#[test]
fn unary_operations() {
    assert_eq!(eval_unary(OpKind::Sub, Value::Int(5, IntRank::I32)), Ok(Value::Int(-5, IntRank::I32)));
    assert_eq!(eval_unary(OpKind::Sub, Value::UInt(1, IntRank::U8)), Ok(Value::UInt(255, IntRank::U8)));
    assert_eq!(eval_unary(OpKind::Not, Value::Int(0, IntRank::I32)), Ok(Value::Int(-1, IntRank::I32)));
    assert_eq!(eval_unary(OpKind::Not, Value::UInt(0, IntRank::U8)), Ok(Value::UInt(u128::MAX, IntRank::U8)));
    assert_eq!(eval_unary(OpKind::Add, Value::Bool(true)), Ok(Value::Bool(true)));
    assert_eq!(eval_unary(OpKind::Sub, Value::Bool(true)), Err(EvalError::TypeMismatch));
    assert_eq!(
        eval_unary(OpKind::Sub, Value::Int(i128::MIN, IntRank::I64)),
        Err(EvalError::SignedOverflow(Value::Int(i128::MIN, IntRank::I64)))
    );
}

#[test]
fn operators_from_syntax() {
    assert_eq!(op_from_ast(OpKind::Lshift), Some(Op::Shl));
    assert_eq!(op_from_ast(OpKind::Modulo), Some(Op::Mod));
    assert_eq!(op_from_ast(OpKind::Not), None);
}

#[test]
fn commutative_operators_commute() {
    let a = Value::Int(-12, IntRank::I16);
    let b = Value::UInt(7, IntRank::U32);
    for op in [Op::Add, Op::Mul, Op::BitAnd, Op::BitOr, Op::Xor] {
        assert_eq!(eval_bin(op, a.clone(), b.clone()), eval_bin(op, b.clone(), a.clone()));
    }
}

#[test]
fn remainder_follows_the_dividend_and_rebuilds_it() {
    for (x, y) in [(-7i128, 2i128), (7, -2), (-7, -2), (9, 3), (-2147483648, 7), (5, 9)] {
        let q = eval_bin(Op::Div, Value::Int(x, IntRank::I64), Value::Int(y, IntRank::I64));
        let m = eval_bin(Op::Mod, Value::Int(x, IntRank::I64), Value::Int(y, IntRank::I64));
        match (q, m) {
            (Ok(Value::Int(q, _)), Ok(Value::Int(m, _))) => {
                assert!(m.abs() < y.abs());
                assert!(m == 0 || (m < 0) == (x < 0));
                assert_eq!(q * y + m, x);
            }
            other => panic!("unexpected {:?}", other),
        }
    }
}

#[test]
fn non_numeric_values_do_not_cast_to_float() {
    assert_eq!(cast_to(Value::Bool(true), TyTag::Float(FloatRank::F64)), Err(EvalError::TypeMismatch));
    assert_eq!(cast_to(Value::Null, TyTag::Float(FloatRank::F32)), Err(EvalError::TypeMismatch));
    assert_eq!(cast_to(Value::Char('a'), TyTag::Int(IntRank::I32, true)), Err(EvalError::TypeMismatch));
}

#[test]
fn remainder_and_quotient_of_one_rank() {
    assert_eq!(mod_int(Value::Int(-7, IntRank::I16), Value::Int(0, IntRank::I16)), Err(EvalError::ModByZero));
    assert_eq!(mod_int(Value::Int(-7, IntRank::I16), Value::Int(3, IntRank::I16)), Ok(Value::Int(-1, IntRank::I16)));
    assert_eq!(div_int(Value::Int(-7, IntRank::I16), Value::Int(3, IntRank::I16)), Ok(Value::Int(-2, IntRank::I16)));
    assert_eq!(shl(Value::Int(64, IntRank::I8), Value::Int(1, IntRank::I8)), Err(EvalError::SignedOverflow(Value::Int(-128, IntRank::I8))));
    assert_eq!(shl(Value::Int(3, IntRank::I8), Value::Int(2, IntRank::I8)), Ok(Value::Int(12, IntRank::I8)));
}
