use ic_hir::ctx::Context;
use ic_hir::hir::{
    AliasTy, ConstTy, Def, DefFlags, DefKind, EnumTy, Ident, Member, ModuleTy, Numeric, PrimitiveTy, Span,
    Spanned, StructTy, Ty, TyKind,
};

fn ty(kind: TyKind) -> Ty {
    Ty { span: Span::default(), kind }
}

fn prim(p: PrimitiveTy) -> Ty {
    ty(TyKind::Primitive(p))
}

fn def(id: usize, name: &str, parent: Option<usize>, kind: DefKind) -> Def {
    Def {
        id,
        ident: Ident { name: name.to_string(), span: Span { start: id * 10, end: id * 10 + name.len() } },
        parent,
        annotations: vec![],
        span: Span { start: id * 10, end: id * 10 + 9 },
        kind,
        flags: DefFlags { bits: 0 },
    }
}

fn member(name: &str, t: Ty) -> Member {
    Member { ident: Ident { name: name.to_string(), span: Span::default() }, ty: t, annotations: vec![] }
}

// 0 module M
// 1 const M::A: int32 = 5
// 2 const M::B: int32 = A
// 3 typedef M::T = int16
// 4 typedef M::U = T
// 5 struct M::S { U m; sequence<E> n; }, inherits from S2
// 6 enum M::E
// 7 const M::C: string = "hi"
// 8 const M::D: S = { A, ... }
// 9 struct S2
fn world() -> Context {
    let mut ctx = Context::new();
    ctx.definitions.push(def(0, "M", None, DefKind::Module(ModuleTy { definitions: vec![1, 2, 3, 4, 5, 6, 7, 8] })));
    ctx.definitions.push(def(1, "A", Some(0), DefKind::Const(ConstTy { value: Numeric::Int32(5), ty: prim(PrimitiveTy::Int32) })));
    ctx.definitions.push(def(2, "B", Some(0), DefKind::Const(ConstTy { value: Numeric::Const(1), ty: prim(PrimitiveTy::Int32) })));
    ctx.definitions.push(def(3, "T", Some(0), DefKind::Alias(AliasTy { ty: prim(PrimitiveTy::Int16) })));
    ctx.definitions.push(def(4, "U", Some(0), DefKind::Alias(AliasTy { ty: ty(TyKind::Adt(3)) })));
    ctx.definitions.push(def(
        5,
        "S",
        Some(0),
        DefKind::Struct(StructTy {
            parent: Some(Spanned { def_id: 9, span: Span::default() }),
            members: vec![
                member("m", ty(TyKind::Adt(4))),
                member("n", ty(TyKind::Sequence { ty: Box::new(ty(TyKind::Adt(6))), bound: None, bound_span: None })),
            ],
        }),
    ));
    ctx.definitions.push(def(6, "E", Some(0), DefKind::Enum(EnumTy { fields: vec![], ty: PrimitiveTy::UInt32 })));
    ctx.definitions.push(def(7, "C", Some(0), DefKind::Const(ConstTy { value: Numeric::String("hi".to_string()), ty: ty(TyKind::String { wide: false, bound: None, bound_span: None }) })));
    ctx.definitions.push(def(
        8,
        "D",
        Some(0),
        DefKind::Const(ConstTy {
            value: Numeric::Struct { ty: 5, fields: vec![Numeric::Const(1), Numeric::Int32(2)] },
            ty: ty(TyKind::Adt(5)),
        }),
    ));
    ctx.definitions.push(def(9, "S2", None, DefKind::Struct(StructTy { parent: None, members: vec![] })));
    ctx
}

#[test]
fn base_of_typedef_chain() {
    let ctx = world();
    assert_eq!(ctx.base_id_of(4), 3);
    assert_eq!(ctx.base_id_of(5), 5);
    assert_eq!(ctx.base_type_of(4), prim(PrimitiveTy::Int16));
    assert_eq!(ctx.base_type_of(6), Ty { span: Span { start: 60, end: 69 }, kind: TyKind::Adt(6) });
    assert_eq!(ctx.resolve_ty(&ty(TyKind::Adt(4))), prim(PrimitiveTy::Int16));
    assert_eq!(ctx.resolve_ty(&prim(PrimitiveTy::Bool)), prim(PrimitiveTy::Bool));
}

#[test]
fn def_of_looks_through_collections() {
    let ctx = world();
    let seq_of_e = ty(TyKind::Sequence { ty: Box::new(ty(TyKind::Adt(6))), bound: Some(3), bound_span: None });
    assert_eq!(ctx.def_of(&seq_of_e), Some(6));
    assert_eq!(ctx.def_of(&prim(PrimitiveTy::Int8)), None);
}

#[test]
fn names_of_types_and_definitions() {
    let ctx = world();
    assert_eq!(ctx.ty_name(&prim(PrimitiveTy::UInt16)), "uint16");
    assert_eq!(ctx.ty_name(&ty(TyKind::Adt(5))), "S");
    assert_eq!(ctx.ty_name(&ty(TyKind::Any)), "any");
    assert_eq!(ctx.qualified_name(5), "M::S");
    assert_eq!(ctx.qualified_name(0), "M");
}

#[test]
fn values_of_constants() {
    let ctx = world();
    assert_eq!(ctx.unsigned_value(&Numeric::Const(2)), 5);
    assert_eq!(ctx.unsigned_value(&Numeric::Int8(-1)), 0);
    assert_eq!(ctx.unsigned_value(&Numeric::Int64(i64::MIN)), 0);
    assert_eq!(ctx.unsigned_value(&Numeric::Int32(12)), 12);
    assert_eq!(ctx.unsigned_value(&Numeric::Bool(true)), 0);
    assert_eq!(ctx.unsigned_value(&Numeric::UInt16(7)), 7);
    assert_eq!(ctx.integer_value(&Numeric::Int8(-5)), -5);
    assert_eq!(ctx.integer_value(&Numeric::UInt32(u32::MAX)), 4294967295);
    assert_eq!(ctx.integer_value(&Numeric::Bool(true)), 0);
    assert_eq!(ctx.unsigned_value(&Numeric::String("x".to_string())), 0);
    assert_eq!(ctx.integer_value(&Numeric::Int64(-42)), -42);
    assert_eq!(ctx.integer_value(&Numeric::UInt64(u64::MAX)), -1);
}

#[test]
fn strings_of_constants() {
    let ctx = world();
    assert_eq!(ctx.string_value(&Numeric::Const(2)), Some("5".to_string()));
    assert_eq!(ctx.string_value(&Numeric::Const(7)), Some("hi".to_string()));
    assert_eq!(ctx.string_value(&Numeric::Bool(false)), Some("false".to_string()));
    assert_eq!(ctx.string_value(&Numeric::Char('z')), Some("z".to_string()));
    assert_eq!(ctx.string_value(&Numeric::Int64(i64::MIN)), Some("-9223372036854775808".to_string()));
    assert_eq!(ctx.string_value(&Numeric::UInt64(u64::MAX)), Some("18446744073709551615".to_string()));
    assert_eq!(ctx.string_value(&Numeric::Int8(0)), Some("0".to_string()));
    assert_eq!(ctx.string_value(&Numeric::Null), None);
    assert_eq!(ctx.string_value(&Numeric::Const(3)), None);
}

#[test]
fn dependencies_of_definitions() {
    let ctx = world();
    let deps = ctx.deps(5);
    assert_eq!(deps.len(), 3);
    assert!(deps.contains(&9) && deps.contains(&4) && deps.contains(&6));
    let deps = ctx.deps(8);
    assert_eq!(deps.len(), 2);
    assert!(deps.contains(&5) && deps.contains(&1));
    assert!(ctx.deps(0).is_empty());
    assert!(ctx.deps(6).is_empty());
    let deps = ctx.deps(4);
    assert_eq!(deps.len(), 1);
    assert!(deps.contains(&3));
}

#[test]
fn dependencies_filtered() {
    let ctx = world();
    let deps = ctx.deps_where(5, |d: &Def| matches!(d.kind, DefKind::Struct(_)));
    assert_eq!(deps.len(), 1);
    assert!(deps.contains(&9));
    let none = ctx.deps_where(5, |_: &Def| false);
    assert!(none.is_empty());
}
