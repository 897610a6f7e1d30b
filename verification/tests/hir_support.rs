use ic_hir::ctx::Context;
use ic_hir::diag::Diag;
use ic_hir::graph::{DefIter, ResolvedGraph};
use ic_hir::hir::{
    Decl, Def, DefFlags, DefKind, Ident, Numeric, PrimitiveTy, Span, Ty, TyKind, IS_BUILTIN, IS_EMIT, IS_INCOMPLETE,
};
use ic_hir::interp::{not_num, sub_num};
use ic_hir::lower::all_unique;
use ic_hir::lower::collect::{placeholder_type, ScopeStack};
use ic_hir::lower::definition_builder::{DefBuilder, UNALLOCATED};
use ic_hir::lower::evaluate::{bound_of_numeric, convert_to_type, default_bitfield_type, update_type_bounds_with_values_and_spans};
use ic_hir::lower::resolve::{path_to_string, SyntaxPath};

fn sp(start: usize, end: usize) -> Span {
    Span { start, end }
}

fn ident(name: &str) -> Ident {
    Ident { name: name.to_string(), span: sp(1, 1 + name.len()) }
}

fn decl(id: usize, name: &str) -> Def {
    DefBuilder::new(ident(name)).kind(DefKind::Decl(Decl::Native)).build_with_id(id)
}

#[test]
fn definitions_walk_in_order() {
    let mut context = Context::new();
    context.definitions.push(decl(0, "a"));
    context.definitions.push(decl(1, "b"));
    context.definitions.push(decl(2, "c"));
    let graph = ResolvedGraph { context, order: vec![2, 0], builtin_order: vec![], errors: Vec::<Diag>::new(), warnings: vec![] };
    let mut it = graph.iter();
    assert_eq!(it.next().map(|d| d.ident.name.clone()), Some("c".to_string()));
    assert_eq!(it.next().map(|d| d.ident.name.clone()), Some("a".to_string()));
    assert!(it.next().is_none());
    assert!(it.next().is_none());
    let order = [1];
    let mut it = DefIter::with_order(&graph.context, &order);
    assert_eq!(it.next().map(|d| d.id), Some(1));
}

#[test]
fn negation_and_complement() {
    assert_eq!(sub_num(Numeric::Bool(true)), Numeric::Int8(-2));
    assert_eq!(sub_num(Numeric::Bool(false)), Numeric::Int8(-1));
    assert_eq!(sub_num(Numeric::UInt8(1)), Numeric::UInt8(254));
    assert_eq!(sub_num(Numeric::Int32(7)), Numeric::Int32(-7));
    assert_eq!(sub_num(Numeric::Float(1.5f32.to_bits())), Numeric::Float((-1.5f32).to_bits()));
    assert_eq!(sub_num(Numeric::Double(2.0f64.to_bits())), Numeric::Double((-2.0f64).to_bits()));
    assert_eq!(not_num(Numeric::Bool(true)), Numeric::Bool(false));
    assert_eq!(not_num(Numeric::Int16(0)), Numeric::Int16(-1));
    assert_eq!(not_num(Numeric::UInt64(0)), Numeric::UInt64(u64::MAX));
}

#[test]
fn definitions_are_built() {
    let b = DefBuilder::new(ident("S"));
    let d = b
        .span(sp(3, 9))
        .parent(Some(4))
        .annotations(vec![])
        .kind(DefKind::Decl(Decl::Struct))
        .incomplete()
        .builtin()
        .build();
    assert_eq!(d.id, UNALLOCATED);
    assert_eq!(d.ident, ident("S"));
    assert_eq!(d.parent, Some(4));
    assert_eq!(d.span, sp(3, 9));
    assert!(matches!(d.kind, DefKind::Decl(Decl::Struct)));
    assert_eq!(d.flags, DefFlags { bits: IS_EMIT | IS_INCOMPLETE | IS_BUILTIN });
    let d = DefBuilder::new(ident("T")).flags(DefFlags { bits: 0 }).flag(DefFlags { bits: 8 }).kind(DefKind::Decl(Decl::Union)).build_with_id(5);
    assert_eq!(d.id, 5);
    assert_eq!(d.flags, DefFlags { bits: 8 });
    assert!(d.flags.contains(DefFlags { bits: 8 }));
    assert!(!d.flags.contains(DefFlags { bits: 9 }));
}

#[test]
fn scope_stack_names() {
    let mut s = ScopeStack::new();
    assert_eq!(s.current_parent(), None);
    assert_eq!(s.qualified_name("X"), "X");
    s.push("A".to_string(), 1);
    s.push("B".to_string(), 2);
    assert_eq!(s.current_parent(), Some(2));
    assert_eq!(s.qualified_name("X"), "A::B::X");
    s.pop();
    s.pop();
    s.pop();
    assert_eq!(s.current_parent(), None);
    assert_eq!(s.qualified_name("Y"), "Y");
    assert_eq!(placeholder_type(sp(4, 5)), Ty { kind: TyKind::Any, span: sp(4, 5) });
}

#[test]
fn bit_fields_and_conversions() {
    assert_eq!(default_bitfield_type(1).kind, TyKind::Primitive(PrimitiveTy::Bool));
    assert_eq!(default_bitfield_type(8).kind, TyKind::Primitive(PrimitiveTy::UInt8));
    assert_eq!(default_bitfield_type(9).kind, TyKind::Primitive(PrimitiveTy::UInt16));
    assert_eq!(default_bitfield_type(33).kind, TyKind::Primitive(PrimitiveTy::UInt64));
    assert_eq!(default_bitfield_type(100).kind, TyKind::Primitive(PrimitiveTy::UInt64));
    let prim = |p| Ty { span: Span::default(), kind: TyKind::Primitive(p) };
    assert_eq!(convert_to_type(Numeric::Int8(-1), &prim(PrimitiveTy::UInt8)), Numeric::UInt8(255));
    assert_eq!(convert_to_type(Numeric::Int32(300), &prim(PrimitiveTy::Int8)), Numeric::Int8(44));
    assert_eq!(convert_to_type(Numeric::Int32(-3), &prim(PrimitiveTy::Int64)), Numeric::Int64(-3));
    assert_eq!(convert_to_type(Numeric::Int16(-1), &prim(PrimitiveTy::UInt32)), Numeric::Int16(-1));
}

#[test]
fn bounds() {
    let mut errors = vec![];
    assert_eq!(bound_of_numeric(&mut errors, &Numeric::Int32(7), sp(0, 1)), 7);
    assert_eq!(bound_of_numeric(&mut errors, &Numeric::UInt64(9), sp(0, 1)), 9);
    assert_eq!(bound_of_numeric(&mut errors, &Numeric::Int64(-1), sp(0, 1)), 0);
    assert_eq!(bound_of_numeric(&mut errors, &Numeric::Int16(4), sp(2, 3)), 0);
    assert_eq!(errors.len(), 2);
    assert_eq!(errors[1].message, "invalid bound expression");
    assert_eq!(errors[1].labels[0].message, "bound must be a positive integer");
    assert_eq!(errors[1].labels[0].span, sp(2, 3));

    let elem = Ty { span: sp(0, 1), kind: TyKind::Primitive(PrimitiveTy::Int8) };
    let inner = Ty { span: sp(0, 2), kind: TyKind::Array { ty: Box::new(elem), len: 0, len_span: Span::default() } };
    let mut ty = Ty { span: sp(0, 3), kind: TyKind::Array { ty: Box::new(inner), len: 0, len_span: Span::default() } };
    update_type_bounds_with_values_and_spans(&mut ty, &[(3, sp(5, 6))]);
    match &ty.kind {
        TyKind::Array { ty: inner, len, len_span } => {
            assert_eq!(*len, 3);
            assert_eq!(*len_span, sp(5, 6));
            assert!(matches!(inner.kind, TyKind::Array { len: 0, .. }));
        }
        _ => panic!("expected an array"),
    }
}

#[test]
fn unique_orders() {
    assert!(all_unique(&[]));
    assert!(all_unique(&[3, 1, 2]));
    assert!(!all_unique(&[3, 1, 3]));
}

#[test]
fn path_text() {
    let p = SyntaxPath { leading_colons: true, segments: vec!["A".to_string(), "B".to_string()] };
    assert_eq!(path_to_string(&p), "::A::B");
    let p = SyntaxPath { leading_colons: false, segments: vec!["X".to_string()] };
    assert_eq!(path_to_string(&p), "X");
    let p = SyntaxPath { leading_colons: false, segments: vec![] };
    assert_eq!(path_to_string(&p), "");
}
