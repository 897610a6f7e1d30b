use ic_hir::ctx::Context;
use ic_hir::diag::{Diagnostics, Severity};
use ic_hir::eval::evaluator::{
    check_literal_range, check_string_operands_value, get_type_name, handle_binary_result_value,
    nonneg_bound_of, report_eval_error, resolve_const_value, try_const_path_assignment,
    types_equal_ignore_spans, ConstAssignOutcome, ContextualEvalError,
};
use ic_hir::eval::expr::{
    eval_nonneg_bound, eval_numeric, eval_value, extract_direct_int_literal, ConstExpr, InitList,
};
use ic_hir::eval::typed::{eval_annotation_arg, eval_for_type, eval_union_case_label};
use ic_hir::eval::rank::IntRank;
use ic_hir::eval::value::{EvalError, OpKind, Value};
use ic_hir::hir::{
    AliasTy, ConstTy, Def, DefFlags, DefKind, Ident, Numeric, PrimitiveTy, Span, StructTy, Ty, TyKind,
};

fn sp(start: usize, end: usize) -> Span {
    Span { start, end }
}

fn ty(kind: TyKind) -> Ty {
    Ty { span: Span::default(), kind }
}

fn prim(p: PrimitiveTy) -> Ty {
    ty(TyKind::Primitive(p))
}

fn def(id: usize, name: &str, kind: DefKind) -> Def {
    Def {
        id,
        ident: Ident { name: name.to_string(), span: sp(id * 100, id * 100 + name.len()) },
        parent: None,
        annotations: vec![],
        span: sp(id * 100, id * 100 + 50),
        kind,
        flags: DefFlags { bits: 0 },
    }
}

// 0 const SMALL: int32 = 5
// 1 const BIG: int64 = 5000000000
// 2 const REF: int32 = SMALL
// 3 typedef Alias = int32
// 4 struct Point
// 5 const ORIGIN: Point = { 0, 0 }
// 6 const NAME: string = "x"
fn world() -> Context {
    let mut ctx = Context::new();
    ctx.definitions.push(def(0, "SMALL", DefKind::Const(ConstTy { value: Numeric::Int32(5), ty: prim(PrimitiveTy::Int32) })));
    ctx.definitions.push(def(1, "BIG", DefKind::Const(ConstTy { value: Numeric::Int64(5_000_000_000), ty: prim(PrimitiveTy::Int64) })));
    ctx.definitions.push(def(2, "REF", DefKind::Const(ConstTy { value: Numeric::Const(0), ty: prim(PrimitiveTy::Int32) })));
    ctx.definitions.push(def(3, "Alias", DefKind::Alias(AliasTy { ty: prim(PrimitiveTy::Int32) })));
    ctx.definitions.push(def(4, "Point", DefKind::Struct(StructTy { parent: None, members: vec![] })));
    ctx.definitions.push(def(
        5,
        "ORIGIN",
        DefKind::Const(ConstTy { value: Numeric::Struct { ty: 4, fields: vec![Numeric::Int32(0), Numeric::Int32(0)] }, ty: ty(TyKind::Adt(4)) }),
    ));
    ctx.definitions.push(def(6, "NAME", DefKind::Const(ConstTy { value: Numeric::String("x".to_string()), ty: ty(TyKind::String { wide: false, bound: None, bound_span: None }) })));
    ctx
}

fn lit(value: Numeric, start: usize) -> ConstExpr {
    ConstExpr::Literal { value, span: sp(start, start + 1) }
}

fn path(target: Option<usize>, text: &str, start: usize) -> ConstExpr {
    ConstExpr::Path { target, text: text.to_string(), span: sp(start, start + text.len()) }
}

fn bin(op: OpKind, lhs: ConstExpr, rhs: ConstExpr, span: Span) -> ConstExpr {
    ConstExpr::Binary { op, lhs: Box::new(lhs), rhs: Box::new(rhs), span }
}

#[test]
fn type_names() {
    let ctx = world();
    assert_eq!(get_type_name(&prim(PrimitiveTy::Float32), &ctx), "float");
    assert_eq!(get_type_name(&prim(PrimitiveTy::WChar), &ctx), "wchar");
    assert_eq!(get_type_name(&ty(TyKind::String { wide: true, bound: None, bound_span: None }), &ctx), "wstring");
    assert_eq!(get_type_name(&ty(TyKind::Adt(4)), &ctx), "Point");
    assert_eq!(get_type_name(&ty(TyKind::Mapping { key: Box::new(prim(PrimitiveTy::Int8)), elem: Box::new(prim(PrimitiveTy::Int8)), bound: None, bound_span: None }), &ctx), "map");
}

#[test]
fn types_compare_without_spans() {
    let a = Ty { span: sp(1, 2), kind: TyKind::Sequence { ty: Box::new(Ty { span: sp(3, 4), kind: TyKind::Adt(4) }), bound: Some(5), bound_span: Some(sp(7, 8)) } };
    let b = Ty { span: sp(9, 9), kind: TyKind::Sequence { ty: Box::new(Ty { span: sp(0, 0), kind: TyKind::Adt(4) }), bound: Some(5), bound_span: None } };
    let c = Ty { span: sp(9, 9), kind: TyKind::Sequence { ty: Box::new(Ty { span: sp(0, 0), kind: TyKind::Adt(4) }), bound: None, bound_span: None } };
    assert!(types_equal_ignore_spans(&a.kind, &b.kind));
    assert!(!types_equal_ignore_spans(&a.kind, &c.kind));
    assert!(!types_equal_ignore_spans(&TyKind::Any, &TyKind::Null));
    assert!(types_equal_ignore_spans(&TyKind::Fixed, &TyKind::Fixed));
}

#[test]
fn evaluation_errors_become_diagnostics() {
    let ctx = world();
    let mut diags = Diagnostics::new();
    let r = report_eval_error(&mut diags, &ctx, ContextualEvalError { kind: EvalError::DivByZero, span: sp(3, 4), context: None }, None);
    assert_eq!(r, None);
    assert_eq!(diags.errors[0].message, "division by zero in constant expression");
    assert_eq!(diags.errors[0].labels[0].message, "division by zero");
    assert_eq!(diags.errors[0].labels[0].span, sp(3, 4));

    let w = Value::Int(-1, IntRank::I8);
    let r = report_eval_error(&mut diags, &ctx, ContextualEvalError { kind: EvalError::SignedOverflow(w.clone()), span: sp(5, 6), context: None }, None);
    assert_eq!(r, Some(w));
    assert_eq!(diags.warnings.len(), 1);
    assert_eq!(diags.warnings[0].severity, Severity::Warning);
    assert_eq!(diags.warnings[0].message, "integer overflow in constant expression");
    assert_eq!(diags.warnings[0].notes[0], "consider using a larger integer type if overflow was not intended");

    let expected = prim(PrimitiveTy::Bool);
    report_eval_error(&mut diags, &ctx, ContextualEvalError { kind: EvalError::TypeMismatch, span: sp(7, 8), context: Some("string value".to_string()) }, Some(&expected));
    assert_eq!(diags.errors[1].message, "string value cannot be assigned to type bool");
    report_eval_error(&mut diags, &ctx, ContextualEvalError { kind: EvalError::TypeMismatch, span: sp(7, 8), context: None }, Some(&expected));
    assert_eq!(diags.errors[2].message, "type mismatch in constant expression");
    for (kind, msg) in [
        (EvalError::RangeError, "value out of range for target type"),
        (EvalError::InvalidChar, "invalid Unicode scalar for character type"),
        (EvalError::InvalidFloat, "cannot convert NaN or infinity to integer type"),
        (EvalError::ModByZero, "modulo by zero in constant expression"),
        (EvalError::ShiftOutOfRange, "invalid shift amount: shift count >= width of type or negative"),
    ] {
        let mut d = Diagnostics::new();
        assert_eq!(report_eval_error(&mut d, &ctx, ContextualEvalError { kind, span: sp(0, 1), context: None }, None), None);
        assert_eq!(d.errors[0].message, msg);
    }
}

#[test]
fn binary_errors_point_at_the_operand() {
    let ctx = world();
    let mut diags = Diagnostics::new();
    assert_eq!(handle_binary_result_value(&mut diags, &ctx, Err(EvalError::DivByZero), sp(0, 9), sp(6, 9)), None);
    assert_eq!(diags.errors[0].labels[0].span, sp(6, 9));
    assert_eq!(handle_binary_result_value(&mut diags, &ctx, Err(EvalError::RangeError), sp(0, 9), sp(6, 9)), None);
    assert_eq!(diags.errors[1].labels[0].span, sp(0, 9));
    assert_eq!(handle_binary_result_value(&mut diags, &ctx, Ok(Value::Bool(true)), sp(0, 9), sp(6, 9)), Some(Value::Bool(true)));
    assert_eq!(diags.errors.len(), 2);
}

#[test]
fn literal_ranges() {
    let ctx = world();
    let mut diags = Diagnostics::new();
    assert!(check_literal_range(&mut diags, &ctx, 127, &prim(PrimitiveTy::Int8), sp(0, 3)));
    assert!(!check_literal_range(&mut diags, &ctx, 128, &prim(PrimitiveTy::Int8), sp(0, 3)));
    assert_eq!(diags.errors[0].message, "integer literal out of range for 'int8'");
    assert_eq!(diags.errors[0].labels[0].message, "out of range");
    assert!(check_literal_range(&mut diags, &ctx, -1, &prim(PrimitiveTy::UInt8), sp(0, 2)));
    assert!(!check_literal_range(&mut diags, &ctx, 256, &prim(PrimitiveTy::UInt8), sp(0, 3)));
    assert!(check_literal_range(&mut diags, &ctx, 1 << 70, &prim(PrimitiveTy::Float64), sp(0, 3)));
    assert!(!check_literal_range(&mut diags, &ctx, -(1 << 40), &prim(PrimitiveTy::Int32), sp(0, 3)));
    assert_eq!(diags.errors.len(), 3);
}

#[test]
fn string_operands_are_refused() {
    let mut diags = Diagnostics::new();
    assert!(!check_string_operands_value(&mut diags, &Value::Bool(true), &Value::Null, sp(0, 1), sp(2, 3)));
    assert!(check_string_operands_value(&mut diags, &Value::Int(1, IntRank::I32), &Value::String("s".to_string()), sp(0, 1), sp(2, 3)));
    assert_eq!(diags.errors[0].message, "string literals cannot be used in arithmetic expressions");
    assert_eq!(diags.errors[0].labels[0].span, sp(2, 3));
    assert_eq!(diags.errors[0].notes[0], "string literals can only be used in struct initialization or string constants");
}

#[test]
fn bounds_must_be_non_negative() {
    let mut diags = Diagnostics::new();
    assert_eq!(nonneg_bound_of(&mut diags, Value::Int(12, IntRank::I32), sp(0, 2)), Some(12));
    assert_eq!(nonneg_bound_of(&mut diags, Value::UInt(3, IntRank::U8), sp(0, 2)), Some(3));
    assert_eq!(nonneg_bound_of(&mut diags, Value::Int(-1, IntRank::I32), sp(0, 2)), None);
    assert_eq!(diags.errors[0].message, "bound must be a non-negative integer");
}

#[test]
fn constant_chains_resolve() {
    let ctx = world();
    assert_eq!(resolve_const_value(&ctx, &Value::Const(2)), Some(Value::Int(5, IntRank::I32)));
    assert_eq!(resolve_const_value(&ctx, &Value::Const(5)), None);
    assert_eq!(resolve_const_value(&ctx, &Value::Bool(true)), Some(Value::Bool(true)));
}

#[test]
fn assigning_named_constants() {
    let ctx = world();
    let mut diags = Diagnostics::new();
    assert!(matches!(try_const_path_assignment(&mut diags, &ctx, None, &prim(PrimitiveTy::Int32), sp(0, 1)), ConstAssignOutcome::NotApplicable));
    assert!(matches!(try_const_path_assignment(&mut diags, &ctx, Some(3), &prim(PrimitiveTy::Int32), sp(0, 1)), ConstAssignOutcome::NotApplicable));
    match try_const_path_assignment(&mut diags, &ctx, Some(2), &prim(PrimitiveTy::Int16), sp(0, 3)) {
        ConstAssignOutcome::Accepted(n) => assert_eq!(*n, Numeric::Const(2)),
        _ => panic!("expected acceptance"),
    }
    assert!(diags.errors.is_empty());
    assert!(matches!(try_const_path_assignment(&mut diags, &ctx, Some(1), &prim(PrimitiveTy::Int32), sp(10, 13)), ConstAssignOutcome::Rejected));
    assert_eq!(diags.errors[0].message, "value out of range for target type");
    assert_eq!(diags.errors[0].labels[0].span, sp(10, 13));
    assert!(matches!(try_const_path_assignment(&mut diags, &ctx, Some(6), &prim(PrimitiveTy::Int32), sp(20, 24)), ConstAssignOutcome::Rejected));
    assert_eq!(diags.errors[1].message, "constant 'NAME' of type string cannot be assigned to int32");
    assert_eq!(diags.errors[1].labels[1].span, sp(600, 604));
    assert_eq!(diags.errors[1].labels[1].message, "'NAME' declared as string here");
    match try_const_path_assignment(&mut diags, &ctx, Some(5), &ty(TyKind::Adt(4)), sp(0, 6)) {
        ConstAssignOutcome::Accepted(n) => assert_eq!(*n, Numeric::Const(5)),
        _ => panic!("expected acceptance"),
    }
    assert!(matches!(try_const_path_assignment(&mut diags, &ctx, Some(5), &ty(TyKind::Adt(3)), sp(30, 36)), ConstAssignOutcome::Rejected));
    assert_eq!(diags.errors[2].message, "constant 'ORIGIN' cannot be assigned to Alias");
    assert_eq!(diags.errors[2].labels[1].message, "declared here");
    assert!(matches!(try_const_path_assignment(&mut diags, &ctx, Some(5), &ty(TyKind::Any), sp(0, 6)), ConstAssignOutcome::Accepted(_)));
}

#[test]
fn expressions_evaluate() {
    let ctx = world();
    let mut diags = Diagnostics::new();
    // (SMALL + 3) * 2
    let e = bin(
        OpKind::Multiply,
        ConstExpr::Group { expr: Box::new(bin(OpKind::Add, path(Some(2), "REF", 1), lit(Numeric::Int32(3), 7), sp(1, 8))), span: sp(0, 9) },
        lit(Numeric::Int32(2), 12),
        sp(0, 13),
    );
    assert_eq!(eval_value(&mut diags, &ctx, &e), Some(Value::Int(16, IntRank::I32)));
    assert!(diags.errors.is_empty() && diags.warnings.is_empty());
    let neg = ConstExpr::Unary { op: OpKind::Sub, expr: Box::new(lit(Numeric::UInt8(1), 1)), span: sp(0, 2) };
    assert_eq!(eval_value(&mut diags, &ctx, &neg), Some(Value::UInt(255, IntRank::U8)));
}

#[test]
fn expression_errors_are_reported() {
    let ctx = world();
    let mut diags = Diagnostics::new();
    let div = bin(OpKind::Divide, lit(Numeric::Int32(1), 0), lit(Numeric::Int32(0), 4), sp(0, 5));
    assert_eq!(eval_value(&mut diags, &ctx, &div), None);
    assert_eq!(diags.errors[0].message, "division by zero in constant expression");
    assert_eq!(diags.errors[0].labels[0].span, sp(4, 5));

    assert_eq!(eval_value(&mut diags, &ctx, &path(None, "NOPE", 0)), None);
    assert_eq!(diags.errors[1].message, "undefined constant or enum value `NOPE`");
    assert_eq!(diags.errors[1].notes[0], "check that the name is spelled correctly");

    assert_eq!(eval_value(&mut diags, &ctx, &path(Some(4), "Point", 0)), None);
    assert_eq!(diags.errors[2].message, "`Point` is not a constant value");

    let s = bin(OpKind::Add, path(Some(6), "NAME", 0), lit(Numeric::Int32(1), 7), sp(0, 8));
    assert_eq!(eval_value(&mut diags, &ctx, &s), None);
    assert_eq!(diags.errors[3].message, "string literals cannot be used in arithmetic expressions");
    assert_eq!(diags.errors[3].labels[0].span, sp(0, 4));

    let not = bin(OpKind::Not, lit(Numeric::Int32(1), 0), lit(Numeric::Int32(1), 2), sp(0, 3));
    assert_eq!(eval_value(&mut diags, &ctx, &not), None);
    assert_eq!(diags.errors[4].message, "unsupported binary operation in constant expression");

    assert_eq!(eval_value(&mut diags, &ctx, &ConstExpr::InitList(InitList { values: vec![], span: sp(0, 2) })), None);
    assert_eq!(diags.errors[5].message, "initializer lists cannot be used in arithmetic expressions");

    let overflow = bin(OpKind::Add, lit(Numeric::Int32(i32::MAX), 0), lit(Numeric::Int32(1), 3), sp(0, 4));
    assert_eq!(eval_value(&mut diags, &ctx, &overflow), Some(Value::Int(i32::MIN as i128, IntRank::I32)));
    assert_eq!(diags.warnings.len(), 1);
    assert_eq!(diags.warnings[0].labels[0].span, sp(0, 4));
    assert_eq!(diags.errors.len(), 6);
}

#[test]
fn direct_integer_literals() {
    let neg = ConstExpr::Unary { op: OpKind::Sub, expr: Box::new(ConstExpr::Group { expr: Box::new(lit(Numeric::Int64(7), 2)), span: sp(1, 4) }), span: sp(0, 4) };
    assert_eq!(extract_direct_int_literal(&neg), Some(-7));
    assert_eq!(extract_direct_int_literal(&lit(Numeric::UInt64(u64::MAX), 0)), Some(u64::MAX as i128));
    assert_eq!(extract_direct_int_literal(&lit(Numeric::Bool(true), 0)), None);
    let not = ConstExpr::Unary { op: OpKind::Not, expr: Box::new(lit(Numeric::Int32(1), 1)), span: sp(0, 2) };
    assert_eq!(extract_direct_int_literal(&not), None);
}

#[test]
fn evaluation_for_declared_types() {
    let ctx = world();
    let mut diags = Diagnostics::new();
    assert_eq!(eval_for_type(&mut diags, &ctx, &lit(Numeric::Int32(300), 0), &prim(PrimitiveTy::UInt8)), None);
    assert_eq!(diags.errors[0].message, "integer literal out of range for 'uint8'");
    let minus_one = ConstExpr::Unary { op: OpKind::Sub, expr: Box::new(lit(Numeric::Int32(1), 1)), span: sp(0, 2) };
    assert_eq!(eval_for_type(&mut diags, &ctx, &minus_one, &prim(PrimitiveTy::UInt8)), Some(Numeric::UInt8(255)));
    assert_eq!(eval_for_type(&mut diags, &ctx, &path(Some(2), "REF", 0), &prim(PrimitiveTy::Int64)), Some(Numeric::Const(2)));
    assert_eq!(eval_for_type(&mut diags, &ctx, &lit(Numeric::Int32(1), 0), &prim(PrimitiveTy::Void)), Some(Numeric::Null));
    assert_eq!(eval_for_type(&mut diags, &ctx, &lit(Numeric::Bool(true), 0), &prim(PrimitiveTy::Int16)), Some(Numeric::Int16(1)));
    assert_eq!(eval_for_type(&mut diags, &ctx, &lit(Numeric::String("a".to_string()), 0), &prim(PrimitiveTy::Char)), None);
    assert_eq!(diags.errors[1].message, "string value cannot be assigned to type char");
    assert_eq!(diags.errors.len(), 2);
    let label = eval_union_case_label(&mut diags, &ctx, &lit(Numeric::Int32(2), 0), &prim(PrimitiveTy::Int32));
    assert_eq!(label, Some(Numeric::Int32(2)));
}

#[test]
fn numbers_bounds_and_annotation_arguments() {
    let ctx = world();
    let mut diags = Diagnostics::new();
    assert_eq!(eval_numeric(&mut diags, &ctx, &bin(OpKind::Lshift, lit(Numeric::UInt8(1), 0), lit(Numeric::Int32(3), 5), sp(0, 6))), Some(Numeric::Int32(8)));
    assert_eq!(eval_nonneg_bound(&mut diags, &ctx, &lit(Numeric::Int32(10), 0)), Some(10));
    assert_eq!(eval_nonneg_bound(&mut diags, &ctx, &lit(Numeric::Int32(-10), 0)), None);
    assert_eq!(diags.errors[0].message, "bound must be a non-negative integer");
    assert_eq!(eval_annotation_arg(&mut diags, &ctx, &path(Some(1), "BIG", 0)), Some(Numeric::Const(1)));
    assert_eq!(eval_annotation_arg(&mut diags, &ctx, &ConstExpr::InitList(InitList { values: vec![], span: sp(0, 2) })), Some(Numeric::Null));
    assert_eq!(eval_annotation_arg(&mut diags, &ctx, &lit(Numeric::Char('a'), 0)), Some(Numeric::UInt8(97)));
    assert_eq!(diags.errors.len(), 1);
}
