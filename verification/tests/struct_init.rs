use ic_hir::ctx::Context;
use ic_hir::diag::Diagnostics;
use ic_hir::eval::expr::ConstExpr;
use ic_hir::hir::{
    ConstTy, Def, DefFlags, DefKind, EnumTy, Ident, Member, Numeric, PrimitiveTy, Span, StructTy, Ty, TyKind,
};
use ic_hir::lower::evaluate::{
    enumerator_values, eval_struct_init, evaluate_const, evaluate_struct, flag_values, BoundShape, EnumEvaluator, InitEntry,
    MemberBounds,
};

fn sp(start: usize, end: usize) -> Span {
    Span { start, end }
}

fn ident(name: &str, at: usize) -> Ident {
    Ident { name: name.to_string(), span: sp(at, at + name.len()) }
}

fn point() -> StructTy {
    let int = || Ty { span: sp(0, 5), kind: TyKind::Primitive(PrimitiveTy::Int32) };
    StructTy {
        parent: None,
        members: vec![
            Member { ident: ident("x", 10), ty: int(), annotations: vec![] },
            Member { ident: ident("y", 20), ty: int(), annotations: vec![] },
        ],
    }
}

fn named(name: &str, v: i32, at: usize) -> InitEntry {
    InitEntry { ident: Some(ident(name, at)), value: Numeric::Int32(v), span: sp(at, at + 3) }
}

fn positional(v: i32, at: usize) -> InitEntry {
    InitEntry { ident: None, value: Numeric::Int32(v), span: sp(at, at + 1) }
}

#[test]
fn named_entries_follow_member_order() {
    let mut errors = Vec::new();
    let r = eval_struct_init(&mut errors, &[named("y", 2, 40), named("x", 1, 50)], &point(), 7);
    assert_eq!(r, Numeric::Struct { ty: 7, fields: vec![Numeric::Int32(1), Numeric::Int32(2)] });
    assert!(errors.is_empty());
}

#[test]
fn a_missing_member_gives_null_and_one_error() {
    let mut errors = Vec::new();
    let r = eval_struct_init(&mut errors, &[named("x", 1, 40)], &point(), 7);
    assert_eq!(r, Numeric::Null);
    assert_eq!(errors.len(), 1);
    assert_eq!(errors[0].message, "missing required field `y` in struct initializer");
    assert_eq!(errors[0].labels[0].span, sp(20, 21));
}

#[test]
fn mixed_styles_give_null_and_one_error() {
    let mut errors = Vec::new();
    let r = eval_struct_init(&mut errors, &[positional(1, 40), named("y", 2, 50)], &point(), 7);
    assert_eq!(r, Numeric::Null);
    assert_eq!(errors.len(), 1);
    assert_eq!(errors[0].message, "cannot mix named and positional initializers");
    assert_eq!(errors[0].labels[0].span, sp(40, 41));
}

#[test]
fn positional_entries_fill_members_in_order() {
    let mut errors = Vec::new();
    let r = eval_struct_init(&mut errors, &[positional(3, 40)], &point(), 7);
    assert_eq!(r, Numeric::Struct { ty: 7, fields: vec![Numeric::Int32(3)] });
    assert!(errors.is_empty());
    let r = eval_struct_init(&mut errors, &[positional(3, 40), positional(4, 44), positional(5, 48)], &point(), 7);
    assert_eq!(r, Numeric::Struct { ty: 7, fields: vec![Numeric::Int32(3), Numeric::Int32(4)] });
    assert_eq!(errors.len(), 1);
    assert_eq!(errors[0].message, "too many initializers for struct (expected 2, got 3)");
    assert_eq!(errors[0].labels[0].span, sp(48, 49));
}

#[test]
fn an_empty_list_counts_as_named() {
    let mut errors = Vec::new();
    assert_eq!(eval_struct_init(&mut errors, &[], &point(), 7), Numeric::Null);
    assert_eq!(errors.len(), 1);
    let empty = StructTy { parent: None, members: vec![] };
    let mut errors = Vec::new();
    assert_eq!(eval_struct_init(&mut errors, &[], &empty, 3), Numeric::Struct { ty: 3, fields: vec![] });
    assert!(errors.is_empty());
}

fn ty(kind: TyKind) -> Ty {
    Ty { span: sp(1, 2), kind }
}

#[test]
fn struct_members_take_their_evaluated_bounds() {
    let array = ty(TyKind::Array {
        ty: Box::new(ty(TyKind::Array { ty: Box::new(ty(TyKind::Primitive(PrimitiveTy::Int8))), len: 0, len_span: sp(0, 0) })),
        len: 0,
        len_span: sp(0, 0),
    });
    let seq = ty(TyKind::Sequence {
        ty: Box::new(ty(TyKind::String { wide: false, bound: None, bound_span: None })),
        bound: None,
        bound_span: None,
    });
    let plain = ty(TyKind::Primitive(PrimitiveTy::Bool));
    let mut ctx = Context::new();
    ctx.definitions.push(Def {
        id: 0,
        ident: ident("S", 0),
        parent: None,
        annotations: vec![],
        span: sp(0, 40),
        kind: DefKind::Struct(StructTy {
            parent: None,
            members: vec![
                Member { ident: ident("a", 5), ty: array, annotations: vec![] },
                Member { ident: ident("b", 10), ty: seq, annotations: vec![] },
                Member { ident: ident("c", 15), ty: plain, annotations: vec![] },
            ],
        }),
        flags: DefFlags { bits: 0 },
    });
    let bounds = vec![
        MemberBounds::Array(vec![(3, sp(6, 7)), (4, sp(8, 9))]),
        MemberBounds::Nested(BoundShape::Sequence {
            bound: Some(10),
            elem: Box::new(BoundShape::String { bound: Some(20) }),
        }),
    ];
    evaluate_struct(&mut ctx, 0, &bounds);
    match &ctx.definitions[0].kind {
        DefKind::Struct(s) => {
            assert_eq!(
                s.members[0].ty,
                ty(TyKind::Array {
                    ty: Box::new(ty(TyKind::Array { ty: Box::new(ty(TyKind::Primitive(PrimitiveTy::Int8))), len: 4, len_span: sp(8, 9) })),
                    len: 3,
                    len_span: sp(6, 7),
                })
            );
            assert_eq!(
                s.members[1].ty,
                ty(TyKind::Sequence {
                    ty: Box::new(ty(TyKind::String { wide: false, bound: Some(20), bound_span: None })),
                    bound: Some(10),
                    bound_span: None,
                })
            );
            assert_eq!(s.members[2].ty, ty(TyKind::Primitive(PrimitiveTy::Bool)));
            assert_eq!(s.members[1].ident, ident("b", 10));
        }
        _ => panic!("struct expected"),
    }
}

#[test]
fn enumerators_count_on_from_the_previous_one() {
    assert_eq!(enumerator_values(&[None, None, Some(10), None, Some(2), None]), vec![0, 1, 10, 11, 2, 3]);
    assert_eq!(enumerator_values(&[]), Vec::<isize>::new());
}

#[test]
fn flags_take_the_next_bit() {
    assert_eq!(flag_values(&[None, None, Some(5), None, Some(0)]), vec![1, 2, 32, 64, 1]);
}

fn def(id: usize, name: &str, kind: DefKind) -> Def {
    Def { id, ident: ident(name, id), parent: None, annotations: vec![], span: sp(id, id + 1), kind, flags: DefFlags { bits: 0 } }
}

fn enumerator(id: usize, name: &str) -> Def {
    def(id, name, DefKind::Const(ConstTy { value: Numeric::Int32(0), ty: ty(TyKind::Primitive(PrimitiveTy::Int32)) }))
}

fn value_of(ctx: &Context, id: usize) -> &Numeric {
    match &ctx.definitions[id].kind {
        DefKind::Const(c) => &c.value,
        _ => panic!("constant expected"),
    }
}

#[test]
fn evaluating_an_enum_writes_its_enumerators_once() {
    let mut ctx = Context::new();
    ctx.definitions.push(def(0, "E", DefKind::Enum(EnumTy { fields: vec![1, 2, 3], ty: PrimitiveTy::UInt32 })));
    ctx.definitions.push(enumerator(1, "A"));
    ctx.definitions.push(enumerator(2, "B"));
    ctx.definitions.push(enumerator(3, "C"));
    let mut ev = EnumEvaluator::new();
    ev.evaluate_enum(&mut ctx, 0, &[None, Some(7), None]);
    assert_eq!(value_of(&ctx, 1), &Numeric::Int64(0));
    assert_eq!(value_of(&ctx, 2), &Numeric::Int64(7));
    assert_eq!(value_of(&ctx, 3), &Numeric::Int64(8));
    ev.evaluate_enum(&mut ctx, 0, &[Some(1), Some(2), Some(3)]);
    assert_eq!(value_of(&ctx, 1), &Numeric::Int64(0));
    assert_eq!(value_of(&ctx, 3), &Numeric::Int64(8));
}

fn const_def(id: usize, name: &str, t: Ty) -> Def {
    def(id, name, DefKind::Const(ConstTy { value: Numeric::Null, ty: t }))
}

fn const_parts(ctx: &Context, id: usize) -> (&Numeric, &Ty) {
    match &ctx.definitions[id].kind {
        DefKind::Const(c) => (&c.value, &c.ty),
        _ => panic!("constant expected"),
    }
}

#[test]
fn constants_take_their_values_and_bounds() {
    let mut ctx = Context::new();
    ctx.definitions.push(const_def(0, "S", ty(TyKind::String { wide: false, bound: None, bound_span: None })));
    ctx.definitions.push(const_def(1, "N", ty(TyKind::Primitive(PrimitiveTy::Int32))));
    let mut diags = Diagnostics::new();
    let lit = ConstExpr::Literal { value: Numeric::String("hi".to_string()), span: sp(3, 7) };
    evaluate_const(&mut diags, &mut ctx, 0, None, &lit);
    assert_eq!(const_parts(&ctx, 0).0, &Numeric::String("hi".to_string()));
    assert!(diags.errors.is_empty());
    let five = ConstExpr::Literal { value: Numeric::Int32(5), span: sp(9, 10) };
    evaluate_const(&mut diags, &mut ctx, 1, None, &five);
    assert_eq!(const_parts(&ctx, 1).0, &Numeric::Int32(5));
    assert!(diags.errors.is_empty());
    assert_eq!(ctx.definitions[1].ident, ident("N", 1));
}
