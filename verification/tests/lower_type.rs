use ic_hir::hir::{Ident, PrimitiveTy, Span, Ty, TyKind};
use ic_hir::lower::resolve::{lower_type, TypeSyntax};

fn sp(start: usize, end: usize) -> Span {
    Span { start, end }
}

fn path(name: &str, resolved: Option<usize>) -> TypeSyntax {
    TypeSyntax::Path { first: Ident { name: name.to_string(), span: sp(2, 2 + name.len()) }, span: sp(0, 20), resolved }
}

#[test]
fn primitive_names_lower_to_primitives() {
    assert_eq!(lower_type(&path("octet", None)), Ty { span: sp(2, 7), kind: TyKind::Primitive(PrimitiveTy::UInt8) });
    assert_eq!(lower_type(&path("long double", Some(4))), Ty { span: sp(2, 13), kind: TyKind::Primitive(PrimitiveTy::Float128) });
    assert_eq!(lower_type(&path("boolean", None)), Ty { span: sp(2, 9), kind: TyKind::Primitive(PrimitiveTy::Bool) });
}

#[test]
fn other_paths_lower_to_what_they_name() {
    assert_eq!(lower_type(&path("Point", Some(4))), Ty { span: sp(0, 20), kind: TyKind::Adt(4) });
    assert_eq!(lower_type(&path("Missing", None)), Ty { span: sp(0, 20), kind: TyKind::Any });
    assert_eq!(lower_type(&path("void", Some(1))), Ty { span: sp(0, 20), kind: TyKind::Adt(1) });
}

#[test]
fn templates_keep_their_bounds() {
    let t = TypeSyntax::Mapping {
        key: Box::new(TypeSyntax::String { wide: true, bound: None, span: sp(4, 11) }),
        value: Box::new(TypeSyntax::Sequence { ty: Box::new(path("int32", None)), bound: Some((5, sp(30, 31))), span: sp(13, 32) }),
        bound: Some((9, sp(34, 35))),
        span: sp(0, 36),
    };
    let expected = Ty {
        span: sp(0, 36),
        kind: TyKind::Mapping {
            key: Box::new(Ty { span: sp(4, 11), kind: TyKind::String { wide: true, bound: None, bound_span: None } }),
            elem: Box::new(Ty {
                span: sp(13, 32),
                kind: TyKind::Sequence {
                    ty: Box::new(Ty { span: sp(2, 7), kind: TyKind::Primitive(PrimitiveTy::Int32) }),
                    bound: Some(5),
                    bound_span: Some(sp(30, 31)),
                },
            }),
            bound: Some(9),
            bound_span: Some(sp(34, 35)),
        },
    };
    assert_eq!(lower_type(&t), expected);
    assert_eq!(lower_type(&TypeSyntax::Fixed(sp(1, 6))), Ty { span: sp(1, 6), kind: TyKind::Fixed });
}
