use ic_hir::ctx::Context;
use ic_hir::hir::{
    Def, DefFlags, DefKind, Ident, InterfaceTy, PrimitiveTy, Span, Spanned, StructTy, Ty, TyKind, ValueTy, IS_EMIT,
    IS_INCOMPLETE,
};
use ic_hir::lower::resolve::{
    finish_valuetype, resolve_valuetype, DeclaratorSyntax, PathRef, ValueElement, ValuetypeSyntax,
};

fn sp(start: usize, end: usize) -> Span {
    Span { start, end }
}

fn ident(name: &str, at: usize) -> Ident {
    Ident { name: name.to_string(), span: sp(at, at + name.len()) }
}

fn empty_vt() -> DefKind {
    DefKind::Valuetype(ValueTy {
        parent: None,
        supports: None,
        prototypes: vec![],
        attributes: vec![],
        members: vec![],
        definitions: vec![],
    })
}

fn def(id: usize, name: &str, kind: DefKind, bits: u32) -> Def {
    Def { id, ident: ident(name, id * 10), parent: None, annotations: vec![], span: sp(id * 10, id * 10 + 5), kind, flags: DefFlags { bits } }
}

fn world() -> Context {
    let mut ctx = Context::new();
    ctx.definitions.push(def(0, "Base", empty_vt(), IS_INCOMPLETE));
    ctx.definitions.push(def(1, "Base", empty_vt(), 0));
    ctx.definitions.push(def(2, "Lone", empty_vt(), IS_INCOMPLETE));
    ctx.definitions.push(def(3, "S", DefKind::Struct(StructTy { parent: None, members: vec![] }), 0));
    ctx.definitions.push(def(
        4,
        "I",
        DefKind::Interface(InterfaceTy { parents: vec![], prototypes: vec![], attributes: vec![], definitions: vec![], is_local: false }),
        0,
    ));
    ctx
}

fn header(inherits: Option<Option<usize>>, supports: Option<Option<usize>>) -> ValuetypeSyntax {
    ValuetypeSyntax {
        ident: ident("V", 100),
        span: sp(100, 150),
        annotations: vec![],
        inherits: inherits.map(|r| PathRef { resolved: r, span: sp(110, 114) }),
        supports: supports.map(|r| PathRef { resolved: r, span: sp(120, 121) }),
    }
}

fn parts(ctx: &Context, id: usize) -> (&Option<Spanned>, &Option<Spanned>) {
    match &ctx.definitions[id].kind {
        DefKind::Valuetype(v) => (&v.parent, &v.supports),
        _ => panic!("valuetype expected"),
    }
}

#[test]
fn a_forward_declared_base_resolves_to_its_definition() {
    let mut ctx = world();
    let mut errors = Vec::new();
    let id = resolve_valuetype(&mut ctx, &mut errors, header(Some(Some(0)), Some(Some(4))), Some(9));
    assert_eq!(id, 5);
    assert!(errors.is_empty());
    assert_eq!(parts(&ctx, 5), (&Some(Spanned { def_id: 1, span: sp(110, 114) }), &Some(Spanned { def_id: 4, span: sp(120, 121) })));
    assert_eq!(ctx.definitions[5].parent, Some(9));
    assert_eq!(ctx.definitions[5].flags.bits, IS_EMIT);
}

#[test]
fn bad_bases_and_interfaces_are_reported() {
    let mut ctx = world();
    let mut errors = Vec::new();
    resolve_valuetype(&mut ctx, &mut errors, header(Some(Some(2)), Some(Some(3))), None);
    assert_eq!(errors.len(), 2);
    assert_eq!(errors[0].message, "valuetype `V` cannot inherit from incomplete type `Lone`");
    assert_eq!(errors[1].message, "valuetype `V` cannot support non-interface type `S`");
    assert_eq!(parts(&ctx, 5), (&None, &None));
    let mut errors = Vec::new();
    resolve_valuetype(&mut ctx, &mut errors, header(Some(Some(3)), Some(None)), None);
    assert_eq!(errors[0].message, "valuetype `V` cannot inherit from non-valuetype type `S`");
    assert_eq!(errors[1].message, "valuetype `V` supports interface that is not defined");
    let mut errors = Vec::new();
    resolve_valuetype(&mut ctx, &mut errors, header(Some(None), None), None);
    assert_eq!(errors.len(), 1);
    assert_eq!(errors[0].message, "valuetype `V` inherits from type that is not defined");
    assert_eq!(errors[0].labels[0].span, sp(110, 114));
}

#[test]
fn public_state_members_stay_in_order() {
    let mut ctx = world();
    let mut errors = Vec::new();
    let id = resolve_valuetype(&mut ctx, &mut errors, header(None, None), None);
    let long = || Ty { span: sp(0, 4), kind: TyKind::Primitive(PrimitiveTy::Int32) };
    let elements = vec![
        ValueElement::State { is_public: true, ty: long(), decls: vec![DeclaratorSyntax::Simple(ident("a", 1)), DeclaratorSyntax::Array(ident("b", 2)), DeclaratorSyntax::Simple(ident("c", 3))] },
        ValueElement::Item(vec![7, 8]),
        ValueElement::State { is_public: false, ty: long(), decls: vec![DeclaratorSyntax::Simple(ident("d", 4))] },
        ValueElement::State { is_public: true, ty: long(), decls: vec![DeclaratorSyntax::Simple(ident("e", 5))] },
    ];
    finish_valuetype(&mut ctx, id, elements);
    match &ctx.definitions[id].kind {
        DefKind::Valuetype(v) => {
            let names: Vec<&str> = v.members.iter().map(|m| m.ident.name.as_str()).collect();
            assert_eq!(names, vec!["a", "c", "e"]);
            assert_eq!(v.definitions, vec![7, 8]);
        }
        _ => panic!("valuetype expected"),
    }
}
