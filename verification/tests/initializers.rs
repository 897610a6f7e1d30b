use ic_hir::ctx::Context;
use ic_hir::diag::Diagnostics;
use ic_hir::eval::expr::{ConstExpr, InitList, NamedConstExpr};
use ic_hir::eval::typed::{eval_array, eval_for_type, eval_map, eval_sequence, eval_struct};
use ic_hir::hir::{
    AliasTy, Decl, Def, DefFlags, DefKind, Ident, Member, Numeric, PrimitiveTy, Span, StructTy, Ty, TyKind,
};

fn sp(start: usize, end: usize) -> Span {
    Span { start, end }
}

fn ty(kind: TyKind) -> Ty {
    Ty { span: Span::default(), kind }
}

fn prim(p: PrimitiveTy) -> Ty {
    ty(TyKind::Primitive(p))
}

fn ident(name: &str, start: usize) -> Ident {
    Ident { name: name.to_string(), span: sp(start, start + name.len()) }
}

fn member(name: &str, t: Ty) -> Member {
    Member { ident: ident(name, 0), ty: t, annotations: vec![] }
}

fn def(id: usize, name: &str, kind: DefKind) -> Def {
    Def {
        id,
        ident: ident(name, id * 100),
        parent: None,
        annotations: vec![],
        span: sp(id * 100, id * 100 + 50),
        kind,
        flags: DefFlags { bits: 0 },
    }
}

fn array_of(t: Ty, len: usize) -> Ty {
    ty(TyKind::Array { ty: Box::new(t), len, len_span: Span::default() })
}

// 0 struct Point { int32 x; int32 y; }
// 1 struct Line { Point a; Point b; }
// 2 struct Fwd; (declared only)
// 3 typedef int32 Pair[2];
// 4 typedef any Anything;
fn world() -> Context {
    let mut ctx = Context::new();
    ctx.definitions.push(def(
        0,
        "Point",
        DefKind::Struct(StructTy {
            parent: None,
            members: vec![member("x", prim(PrimitiveTy::Int32)), member("y", prim(PrimitiveTy::Int32))],
        }),
    ));
    ctx.definitions.push(def(
        1,
        "Line",
        DefKind::Struct(StructTy {
            parent: None,
            members: vec![member("a", ty(TyKind::Adt(0))), member("b", ty(TyKind::Adt(0)))],
        }),
    ));
    ctx.definitions.push(def(2, "Fwd", DefKind::Decl(Decl::Struct)));
    ctx.definitions.push(def(3, "Pair", DefKind::Alias(AliasTy { ty: array_of(prim(PrimitiveTy::Int32), 2) })));
    ctx.definitions.push(def(4, "Anything", DefKind::Alias(AliasTy { ty: ty(TyKind::Any) })));
    ctx
}

fn int32(v: i32, start: usize) -> ConstExpr {
    ConstExpr::Literal { value: Numeric::Int32(v), span: sp(start, start + 1) }
}

fn boolean(v: bool, start: usize) -> ConstExpr {
    ConstExpr::Literal { value: Numeric::Bool(v), span: sp(start, start + 1) }
}

fn pos(value: ConstExpr) -> NamedConstExpr {
    NamedConstExpr { ident: None, value }
}

fn named(name: &str, start: usize, value: ConstExpr) -> NamedConstExpr {
    NamedConstExpr { ident: Some(ident(name, start)), value }
}

fn list(values: Vec<NamedConstExpr>, span: Span) -> InitList {
    InitList { values, span }
}

fn init(values: Vec<NamedConstExpr>, span: Span) -> ConstExpr {
    ConstExpr::InitList(list(values, span))
}

fn point(x: i32, y: i32) -> Numeric {
    Numeric::Struct { ty: 0, fields: vec![Numeric::Int32(x), Numeric::Int32(y)] }
}

fn messages(d: &Diagnostics) -> Vec<String> {
    d.errors.iter().map(|e| e.message.clone()).collect()
}

#[test]
fn positional_struct_initializer() {
    let ctx = world();
    let mut d = Diagnostics::new();
    let e = init(vec![pos(int32(1, 1)), pos(int32(2, 4))], sp(0, 6));
    assert_eq!(eval_for_type(&mut d, &ctx, &e, &ty(TyKind::Adt(0))), Some(point(1, 2)));
    assert!(d.errors.is_empty());
}

#[test]
fn named_struct_initializer_follows_member_order() {
    let ctx = world();
    let mut d = Diagnostics::new();
    let e = init(vec![named("y", 2, int32(2, 6)), named("x", 9, int32(1, 13))], sp(0, 15));
    assert_eq!(eval_for_type(&mut d, &ctx, &e, &ty(TyKind::Adt(0))), Some(point(1, 2)));
    assert!(d.errors.is_empty());
}

#[test]
fn repeated_name_keeps_the_last_value() {
    let ctx = world();
    let mut d = Diagnostics::new();
    let e = init(vec![named("x", 1, int32(1, 5)), named("x", 8, int32(5, 12)), named("y", 15, int32(2, 19))], sp(0, 21));
    assert_eq!(eval_for_type(&mut d, &ctx, &e, &ty(TyKind::Adt(0))), Some(point(5, 2)));
    assert!(d.errors.is_empty());
}

#[test]
fn unknown_and_missing_fields_are_reported() {
    let ctx = world();
    let mut d = Diagnostics::new();
    let e = init(vec![named("x", 1, int32(1, 5)), named("z", 8, int32(3, 12))], sp(0, 14));
    let r = eval_for_type(&mut d, &ctx, &e, &ty(TyKind::Adt(0)));
    assert_eq!(r, Some(Numeric::Struct { ty: 0, fields: vec![Numeric::Int32(1)] }));
    assert_eq!(
        messages(&d),
        vec![
            "struct `Point` has no field named `z`".to_string(),
            "missing initializer for field `y` in struct `Point`".to_string(),
        ]
    );
    assert_eq!(d.errors[0].labels[0].span, sp(8, 9));
    assert_eq!(d.errors[1].labels[0].span, sp(0, 14));
}

#[test]
fn mixing_named_and_positional_is_refused() {
    let ctx = world();
    let mut d = Diagnostics::new();
    let e = init(vec![named("x", 1, int32(1, 5)), pos(int32(2, 8))], sp(0, 10));
    let r = eval_for_type(&mut d, &ctx, &e, &ty(TyKind::Adt(0)));
    assert_eq!(r, Some(Numeric::Struct { ty: 0, fields: vec![Numeric::Int32(1)] }));
    assert_eq!(
        messages(&d),
        vec![
            "mixing named and positional initialization is not allowed".to_string(),
            "missing initializer for field `y` in struct `Point`".to_string(),
        ]
    );
    assert_eq!(d.errors[0].labels[0].span, sp(8, 9));
}

#[test]
fn struct_initializer_counts_and_emptiness() {
    let ctx = world();
    let mut d = Diagnostics::new();
    assert_eq!(eval_for_type(&mut d, &ctx, &init(vec![pos(int32(1, 1))], sp(0, 3)), &ty(TyKind::Adt(0))), None);
    assert_eq!(eval_for_type(&mut d, &ctx, &init(vec![], sp(0, 2)), &ty(TyKind::Adt(0))), None);
    assert_eq!(
        messages(&d),
        vec![
            "struct `Point` expects 2 fields, but 1 were provided".to_string(),
            "struct initializer cannot be empty".to_string(),
        ]
    );
    assert_eq!(d.errors[0].labels[0].message, "incorrect number of fields");
    assert_eq!(d.errors[1].labels[0].message, "expected field values");
}

#[test]
fn positional_values_are_all_evaluated() {
    let ctx = world();
    let mut d = Diagnostics::new();
    let bad = ConstExpr::Literal { value: Numeric::Int64(5_000_000_000), span: sp(1, 11) };
    let worse = ConstExpr::Path { target: None, text: "nope".to_string(), span: sp(13, 17) };
    let e = init(vec![pos(bad), pos(worse)], sp(0, 18));
    assert_eq!(eval_for_type(&mut d, &ctx, &e, &ty(TyKind::Adt(0))), None);
    assert_eq!(
        messages(&d),
        vec![
            "integer literal out of range for 'int32'".to_string(),
            "undefined constant or enum value `nope`".to_string(),
        ]
    );
}

#[test]
fn nested_struct_initializers() {
    let ctx = world();
    let mut d = Diagnostics::new();
    let a = init(vec![pos(int32(1, 2)), pos(int32(2, 5))], sp(1, 7));
    let b = init(vec![pos(int32(3, 10)), pos(int32(4, 13))], sp(9, 15));
    let e = init(vec![pos(a), pos(b)], sp(0, 16));
    let r = eval_for_type(&mut d, &ctx, &e, &ty(TyKind::Adt(1)));
    assert_eq!(r, Some(Numeric::Struct { ty: 1, fields: vec![point(1, 2), point(3, 4)] }));
    assert!(d.errors.is_empty());
}

#[test]
fn array_initializers() {
    let ctx = world();
    let mut d = Diagnostics::new();
    let t = array_of(prim(PrimitiveTy::Int32), 3);
    let e = init(vec![pos(int32(1, 1)), pos(int32(2, 3)), pos(int32(3, 5))], sp(0, 7));
    assert_eq!(
        eval_for_type(&mut d, &ctx, &e, &t),
        Some(Numeric::Array {
            ty: prim(PrimitiveTy::Int32),
            values: vec![Numeric::Int32(1), Numeric::Int32(2), Numeric::Int32(3)],
        })
    );
    assert_eq!(eval_for_type(&mut d, &ctx, &init(vec![pos(int32(1, 1))], sp(0, 3)), &t), None);
    let e = init(vec![pos(int32(1, 1)), named("b", 3, int32(2, 7)), pos(int32(3, 9))], sp(0, 11));
    assert_eq!(eval_for_type(&mut d, &ctx, &e, &t), None);
    assert_eq!(
        messages(&d),
        vec![
            "array expects 3 elements, but 1 were provided".to_string(),
            "array elements cannot have names".to_string(),
        ]
    );
    assert_eq!(d.errors[1].labels[0].span, sp(7, 8));
}

#[test]
fn array_stops_at_the_first_failure() {
    let ctx = world();
    let mut d = Diagnostics::new();
    let t = array_of(prim(PrimitiveTy::UInt8), 3);
    let e = init(vec![pos(int32(1, 1)), pos(int32(300, 3)), pos(int32(-1, 7))], sp(0, 9));
    assert_eq!(eval_for_type(&mut d, &ctx, &e, &t), None);
    assert_eq!(messages(&d), vec!["integer literal out of range for 'uint8'".to_string()]);
}

#[test]
fn array_through_a_typedef() {
    let ctx = world();
    let mut d = Diagnostics::new();
    let e = init(vec![pos(int32(7, 1)), pos(int32(8, 3))], sp(0, 5));
    assert_eq!(
        eval_for_type(&mut d, &ctx, &e, &ty(TyKind::Adt(3))),
        Some(Numeric::Array { ty: prim(PrimitiveTy::Int32), values: vec![Numeric::Int32(7), Numeric::Int32(8)] })
    );
}

#[test]
fn sequence_initializers() {
    let ctx = world();
    let mut d = Diagnostics::new();
    let t = ty(TyKind::Sequence { ty: Box::new(prim(PrimitiveTy::Int16)), bound: None, bound_span: None });
    let e = init(vec![pos(int32(1, 1)), pos(int32(2, 3))], sp(0, 5));
    assert_eq!(
        eval_for_type(&mut d, &ctx, &e, &t),
        Some(Numeric::Sequence { ty: prim(PrimitiveTy::Int16), values: vec![Numeric::Int16(1), Numeric::Int16(2)] })
    );
    assert_eq!(eval_for_type(&mut d, &ctx, &init(vec![], sp(0, 2)), &t), Some(Numeric::Sequence {
        ty: prim(PrimitiveTy::Int16),
        values: vec![],
    }));
    assert_eq!(eval_for_type(&mut d, &ctx, &init(vec![named("a", 1, int32(1, 5))], sp(0, 7)), &t), None);
    assert_eq!(messages(&d), vec!["sequence elements cannot have names".to_string()]);
}

#[test]
fn any_takes_a_sequence_of_itself() {
    let ctx = world();
    let mut d = Diagnostics::new();
    let e = init(vec![pos(int32(1, 1))], sp(0, 3));
    assert_eq!(
        eval_for_type(&mut d, &ctx, &e, &ty(TyKind::Adt(4))),
        Some(Numeric::Sequence { ty: ty(TyKind::Adt(4)), values: vec![Numeric::Int32(1)] })
    );
}

#[test]
fn map_initializers() {
    let ctx = world();
    let mut d = Diagnostics::new();
    let t = ty(TyKind::Mapping {
        key: Box::new(prim(PrimitiveTy::Int32)),
        elem: Box::new(prim(PrimitiveTy::Bool)),
        bound: None,
        bound_span: None,
    });
    let e = init(
        vec![
            pos(init(vec![pos(int32(1, 2)), pos(boolean(true, 5))], sp(1, 10))),
            pos(init(vec![pos(int32(2, 13)), pos(boolean(false, 16))], sp(12, 22))),
        ],
        sp(0, 23),
    );
    assert_eq!(
        eval_for_type(&mut d, &ctx, &e, &t),
        Some(Numeric::Mapping {
            key: prim(PrimitiveTy::Int32),
            value: prim(PrimitiveTy::Bool),
            entries: vec![(Numeric::Int32(1), Numeric::Bool(true)), (Numeric::Int32(2), Numeric::Bool(false))],
        })
    );
    assert!(d.errors.is_empty());
}

#[test]
fn malformed_map_entries() {
    let ctx = world();
    let mut d = Diagnostics::new();
    let t = ty(TyKind::Mapping {
        key: Box::new(prim(PrimitiveTy::Int32)),
        elem: Box::new(prim(PrimitiveTy::Bool)),
        bound: None,
        bound_span: None,
    });
    assert_eq!(eval_for_type(&mut d, &ctx, &init(vec![pos(int32(1, 1))], sp(0, 3)), &t), None);
    let short = init(vec![pos(init(vec![pos(int32(1, 2))], sp(1, 4)))], sp(0, 5));
    assert_eq!(eval_for_type(&mut d, &ctx, &short, &t), None);
    let named_pair = init(vec![pos(init(vec![named("k", 2, int32(1, 6)), pos(boolean(true, 9))], sp(1, 11)))], sp(0, 12));
    assert_eq!(eval_for_type(&mut d, &ctx, &named_pair, &t), None);
    let named_entry = init(vec![named("e", 1, init(vec![pos(int32(1, 6)), pos(boolean(true, 9))], sp(5, 11)))], sp(0, 12));
    assert_eq!(eval_for_type(&mut d, &ctx, &named_entry, &t), None);
    assert_eq!(
        messages(&d),
        vec![
            "map entry must be an initializer list {key, value}".to_string(),
            "map entry must have exactly 2 elements (key and value)".to_string(),
            "map key and value cannot have names".to_string(),
            "map entries cannot have names".to_string(),
        ]
    );
    assert_eq!(d.errors[1].labels[0].message, "expected {key, value}");
    assert_eq!(d.errors[3].labels[0].span, sp(5, 11));
}

#[test]
fn initializer_list_for_a_scalar_or_forward_declaration() {
    let ctx = world();
    let mut d = Diagnostics::new();
    let e = init(vec![pos(int32(1, 1))], sp(0, 3));
    assert_eq!(eval_for_type(&mut d, &ctx, &e, &prim(PrimitiveTy::Int32)), None);
    assert_eq!(eval_for_type(&mut d, &ctx, &e, &ty(TyKind::Adt(2))), None);
    assert_eq!(
        messages(&d),
        vec![
            "initializer lists can only be used to initialize structs, arrays, sequences, or maps".to_string(),
            "cannot initialize forward-declared type 'Fwd' in constant expression".to_string(),
        ]
    );
    assert_eq!(d.errors[1].labels[0].message, "incomplete type");
}

#[test]
fn initializer_functions_called_directly() {
    let ctx = world();
    let mut d = Diagnostics::new();
    let two = list(vec![pos(int32(1, 1)), pos(int32(2, 3))], sp(0, 5));
    assert_eq!(eval_struct(&mut d, &ctx, &two, 0), Some(point(1, 2)));
    assert_eq!(eval_struct(&mut d, &ctx, &two, 2), None);
    assert_eq!(
        eval_array(&mut d, &ctx, &two, &prim(PrimitiveTy::Int8), 2),
        Some(Numeric::Array { ty: prim(PrimitiveTy::Int8), values: vec![Numeric::Int8(1), Numeric::Int8(2)] })
    );
    assert_eq!(
        eval_sequence(&mut d, &ctx, &two, &prim(PrimitiveTy::Int64)),
        Some(Numeric::Sequence { ty: prim(PrimitiveTy::Int64), values: vec![Numeric::Int64(1), Numeric::Int64(2)] })
    );
    assert_eq!(eval_map(&mut d, &ctx, &two, &prim(PrimitiveTy::Int32), &prim(PrimitiveTy::Int32)), None);
    assert_eq!(messages(&d), vec!["map entry must be an initializer list {key, value}".to_string()]);
}

#[test]
fn typedef_and_underlying_type_agree() {
    let ctx = world();
    let e = init(vec![pos(int32(7, 1)), pos(int32(8, 3))], sp(0, 5));
    let mut d1 = Diagnostics::new();
    let mut d2 = Diagnostics::new();
    let through_typedef = eval_for_type(&mut d1, &ctx, &e, &ty(TyKind::Adt(3)));
    let direct = eval_for_type(&mut d2, &ctx, &e, &array_of(prim(PrimitiveTy::Int32), 2));
    assert_eq!(through_typedef, direct);
    let short = init(vec![pos(int32(7, 1))], sp(0, 3));
    assert_eq!(eval_for_type(&mut d1, &ctx, &short, &ty(TyKind::Adt(3))), None);
    assert_eq!(eval_for_type(&mut d2, &ctx, &short, &array_of(prim(PrimitiveTy::Int32), 2)), None);
    assert_eq!(messages(&d1), messages(&d2));
}

#[test]
fn naming_members_in_order_is_listing_them() {
    let ctx = world();
    let named_init = init(vec![named("x", 1, int32(1, 5)), named("y", 8, int32(2, 12))], sp(0, 14));
    let positional = init(vec![pos(int32(1, 5)), pos(int32(2, 12))], sp(0, 14));
    let mut d1 = Diagnostics::new();
    let mut d2 = Diagnostics::new();
    let a = eval_for_type(&mut d1, &ctx, &named_init, &ty(TyKind::Adt(0)));
    let b = eval_for_type(&mut d2, &ctx, &positional, &ty(TyKind::Adt(0)));
    assert_eq!(a, b);
    assert_eq!(a, Some(point(1, 2)));
    assert_eq!(messages(&d1), messages(&d2));
}
