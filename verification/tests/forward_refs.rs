use std::collections::HashMap;

use ic_hir::ctx::Context;
use ic_hir::diag::Diagnostics;
use ic_hir::hir::{
    clone_ty, AliasTy, ConstTy, Decl, Def, DefFlags, DefKind, Ident, InterfaceTy, Member, Numeric, ParamKind, Parameter,
    PrimitiveTy, ProtoTy, Span, Spanned, StructTy, Ty, TyKind,
};
use ic_hir::lower::forward_refs::{
    check_undefined_forward_decls, update_def_references, update_forward_references, update_numeric_references,
    update_type_references,
};
use ic_hir::lower::registry::{DefKindTag, DefinitionRegistry};

fn sp(start: usize, end: usize) -> Span {
    Span { start, end }
}

fn ty(kind: TyKind) -> Ty {
    Ty { span: sp(1, 2), kind }
}

fn adt(id: usize) -> Ty {
    ty(TyKind::Adt(id))
}

fn ident(name: &str, start: usize) -> Ident {
    Ident { name: name.to_string(), span: sp(start, start + name.len()) }
}

fn def(id: usize, name: &str, kind: DefKind) -> Def {
    Def {
        id,
        ident: ident(name, id * 100),
        parent: None,
        annotations: vec![],
        span: sp(id * 100, id * 100 + 50),
        kind,
        flags: DefFlags { bits: 0 },
    }
}

fn mapping(pairs: &[(usize, usize)]) -> HashMap<usize, usize> {
    let mut m = HashMap::new();
    for (k, v) in pairs {
        m.insert(*k, *v);
    }
    m
}

#[test]
fn types_are_redirected_at_every_depth() {
    let m = mapping(&[(1, 5)]);
    let mut t = ty(TyKind::Mapping {
        key: Box::new(adt(1)),
        elem: Box::new(ty(TyKind::Sequence { ty: Box::new(adt(1)), bound: Some(3), bound_span: None })),
        bound: None,
        bound_span: None,
    });
    update_type_references(&mut t, &m);
    assert_eq!(
        t,
        ty(TyKind::Mapping {
            key: Box::new(adt(5)),
            elem: Box::new(ty(TyKind::Sequence { ty: Box::new(adt(5)), bound: Some(3), bound_span: None })),
            bound: None,
            bound_span: None,
        })
    );
    let mut other = adt(2);
    update_type_references(&mut other, &m);
    assert_eq!(other, adt(2));
    let mut prim = ty(TyKind::Primitive(PrimitiveTy::Int32));
    update_type_references(&mut prim, &m);
    assert_eq!(prim, ty(TyKind::Primitive(PrimitiveTy::Int32)));
}

#[test]
fn constant_values_are_redirected() {
    let m = mapping(&[(1, 5), (2, 6)]);
    let mut n = Numeric::Struct {
        ty: 1,
        fields: vec![
            Numeric::Const(2),
            Numeric::Int32(3),
            Numeric::Array { ty: adt(1), values: vec![Numeric::Const(1), Numeric::Const(9)] },
        ],
    };
    update_numeric_references(&mut n, &m);
    assert_eq!(
        n,
        Numeric::Struct {
            ty: 5,
            fields: vec![
                Numeric::Const(6),
                Numeric::Int32(3),
                Numeric::Array { ty: adt(5), values: vec![Numeric::Const(5), Numeric::Const(9)] },
            ],
        }
    );
    let mut map_value = Numeric::Mapping {
        key: adt(2),
        value: adt(3),
        entries: vec![(Numeric::Const(2), Numeric::Bool(true))],
    };
    update_numeric_references(&mut map_value, &m);
    assert_eq!(
        map_value,
        Numeric::Mapping { key: adt(6), value: adt(3), entries: vec![(Numeric::Const(6), Numeric::Bool(true))] }
    );
    let mut u = Numeric::Union {
        ty: 2,
        discriminant: Box::new(Numeric::Const(1)),
        field_index: 0,
        value: Box::new(Numeric::Int8(1)),
    };
    update_numeric_references(&mut u, &m);
    assert_eq!(
        u,
        Numeric::Union { ty: 6, discriminant: Box::new(Numeric::Const(5)), field_index: 0, value: Box::new(Numeric::Int8(1)) }
    );
}

#[test]
fn definitions_are_redirected_one_at_a_time() {
    let m = mapping(&[(1, 4)]);
    let mut ctx = Context::new();
    ctx.definitions.push(def(
        0,
        "S",
        DefKind::Struct(StructTy {
            parent: Some(Spanned { def_id: 1, span: sp(3, 4) }),
            members: vec![Member { ident: ident("m", 7), ty: adt(1), annotations: vec![] }],
        }),
    ));
    ctx.definitions.push(def(1, "Fwd", DefKind::Decl(Decl::Struct)));
    ctx.definitions.push(def(2, "A", DefKind::Alias(AliasTy { ty: adt(1) })));
    ctx.definitions.push(def(
        3,
        "I",
        DefKind::Interface(InterfaceTy {
            parents: vec![Spanned { def_id: 1, span: sp(5, 6) }],
            prototypes: vec![ProtoTy {
                ident: ident("op", 9),
                ty: adt(1),
                params: vec![Parameter { ident: ident("p", 12), ty: adt(1), kind: ParamKind::In }],
                raises: vec![Spanned { def_id: 1, span: sp(14, 15) }],
                annotations: vec![],
            }],
            attributes: vec![],
            definitions: vec![],
            is_local: false,
        }),
    ));
    update_def_references(&mut ctx, 0, &m);
    match &ctx.definitions[0].kind {
        DefKind::Struct(s) => {
            assert_eq!(s.parent, Some(Spanned { def_id: 4, span: sp(3, 4) }));
            assert_eq!(s.members[0].ty, adt(4));
            assert_eq!(s.members[0].ident, ident("m", 7));
        },
        _ => panic!("struct expected"),
    }
    match &ctx.definitions[2].kind {
        DefKind::Alias(a) => assert_eq!(a.ty, adt(1)),
        _ => panic!("alias expected"),
    }
    update_def_references(&mut ctx, 3, &m);
    match &ctx.definitions[3].kind {
        DefKind::Interface(i) => {
            assert_eq!(i.parents[0].def_id, 4);
            assert_eq!(i.prototypes[0].ty, adt(4));
            assert_eq!(i.prototypes[0].params[0].ty, adt(4));
            assert_eq!(i.prototypes[0].raises[0].def_id, 1);
        },
        _ => panic!("interface expected"),
    }
    assert_eq!(ctx.definitions.len(), 4);
}

// 0 struct Node; (forward)
// 1 struct Node { ... } (definition)
// 2 const FIRST: Node = ... referring to the forward declaration
// 3 struct Lost; (never defined)
// 4 native Handle;
fn forward_world() -> (Context, DefinitionRegistry) {
    let mut ctx = Context::new();
    ctx.definitions.push(def(0, "Node", DefKind::Decl(Decl::Struct)));
    ctx.definitions.push(def(
        1,
        "Node",
        DefKind::Struct(StructTy {
            parent: None,
            members: vec![Member { ident: ident("next", 110), ty: adt(0), annotations: vec![] }],
        }),
    ));
    ctx.definitions.push(def(
        2,
        "FIRST",
        DefKind::Const(ConstTy { value: Numeric::Struct { ty: 0, fields: vec![] }, ty: adt(0) }),
    ));
    ctx.definitions.push(def(3, "Lost", DefKind::Decl(Decl::Struct)));
    ctx.definitions.push(def(4, "Handle", DefKind::Decl(Decl::Native)));
    let mut reg = DefinitionRegistry::new();
    let mut diags = Diagnostics::new();
    assert_eq!(reg.register_forward_decl(0, &ident("Node", 0), Decl::Struct, 0, &mut diags, &ctx), Some(0));
    assert_eq!(reg.register_definition(0, &ident("Node", 100), DefKindTag::Struct, 1, &mut diags, &ctx), Some(1));
    assert_eq!(reg.register_forward_decl(0, &ident("Lost", 300), Decl::Struct, 3, &mut diags, &ctx), Some(3));
    assert!(diags.errors.is_empty());
    (ctx, reg)
}

#[test]
fn forward_references_point_at_definitions() {
    let (mut ctx, reg) = forward_world();
    let inverse = update_forward_references(&mut ctx, &reg);
    assert_eq!(inverse.len(), 1);
    assert_eq!(inverse[&1], vec![0]);
    match &ctx.definitions[1].kind {
        DefKind::Struct(s) => assert_eq!(s.members[0].ty, adt(1)),
        _ => panic!("struct expected"),
    }
    match &ctx.definitions[2].kind {
        DefKind::Const(c) => {
            assert_eq!(c.ty, adt(1));
            assert_eq!(c.value, Numeric::Struct { ty: 1, fields: vec![] });
        },
        _ => panic!("const expected"),
    }
}

#[test]
fn nothing_changes_without_definitions() {
    let mut ctx = Context::new();
    ctx.definitions.push(def(0, "A", DefKind::Alias(AliasTy { ty: adt(7) })));
    let reg = DefinitionRegistry::new();
    let inverse = update_forward_references(&mut ctx, &reg);
    assert!(inverse.is_empty());
    match &ctx.definitions[0].kind {
        DefKind::Alias(a) => assert_eq!(a.ty, adt(7)),
        _ => panic!("alias expected"),
    }
}

#[test]
fn undefined_forward_declarations_are_reported() {
    let (ctx, reg) = forward_world();
    let mut diags = Diagnostics::new();
    check_undefined_forward_decls(&ctx, &reg, &mut diags);
    assert_eq!(diags.errors.len(), 1);
    assert_eq!(diags.errors[0].message, "type `Lost` is declared but not defined");
    assert_eq!(diags.errors[0].labels[0].message, "declared here");
    assert_eq!(diags.errors[0].labels[0].span, sp(300, 304));
}

#[test]
fn redirecting_twice_is_redirecting_once() {
    let m = mapping(&[(1, 5), (2, 6)]);
    let mut t = ty(TyKind::Array { ty: Box::new(adt(2)), len: 3, len_span: sp(0, 1) });
    update_type_references(&mut t, &m);
    let once = clone_ty(&t);
    update_type_references(&mut t, &m);
    assert_eq!(t, once);
    let mut n = Numeric::Sequence { ty: adt(1), values: vec![Numeric::Const(2), Numeric::Const(5)] };
    update_numeric_references(&mut n, &m);
    assert_eq!(n, Numeric::Sequence { ty: adt(5), values: vec![Numeric::Const(6), Numeric::Const(5)] });
    update_numeric_references(&mut n, &m);
    assert_eq!(n, Numeric::Sequence { ty: adt(5), values: vec![Numeric::Const(6), Numeric::Const(5)] });
}
