use ic_hir::ctx::Context;
use ic_hir::diag::Diagnostics;
use ic_hir::hir::{
    Decl, Def, DefFlags, DefKind, EnumTy, Ident, InterfaceTy, PrimitiveTy, Span, StructTy, UnionTy, Disc, Ty, TyKind,
    IS_INCOMPLETE,
};
use ic_hir::lower::duplicates::{
    are_compatible_forward_decls, decl_kind_name, handle_duplicate, is_valid_forward_decl_and_definition,
    qualified_name, report_duplicate,
};
use ic_hir::lower::parent_validator::{report_undefined_parent, validate_interface_parents, validate_struct_parent};
use ic_hir::lower::resolve::{as_adt, resolve_primitive};
use ic_hir::lower::single_pass;

fn sp(start: usize, end: usize) -> Span {
    Span { start, end }
}

fn def(id: usize, name: &str, kind: DefKind, flags: u32) -> Def {
    Def {
        id,
        ident: Ident { name: name.to_string(), span: sp(id * 10, id * 10 + name.len()) },
        parent: None,
        annotations: vec![],
        span: sp(id * 10, id * 10 + 8),
        kind,
        flags: DefFlags { bits: flags },
    }
}

fn iface() -> DefKind {
    DefKind::Interface(InterfaceTy { parents: vec![], prototypes: vec![], attributes: vec![], definitions: vec![], is_local: false })
}

fn strukt() -> DefKind {
    DefKind::Struct(StructTy { parent: None, members: vec![] })
}

// 0 struct forward decl Fwd (incomplete)
// 1 union forward decl Fwd
// 2 struct Fwd
// 3 interface I
// 4 enum E
// 5 interface J (incomplete)
// 6 valuetype forward decl V
fn world() -> Context {
    let mut ctx = Context::new();
    ctx.definitions.push(def(0, "Fwd", DefKind::Decl(Decl::Struct), IS_INCOMPLETE));
    ctx.definitions.push(def(1, "Fwd", DefKind::Decl(Decl::Union), IS_INCOMPLETE));
    ctx.definitions.push(def(2, "Fwd", strukt(), 0));
    ctx.definitions.push(def(3, "I", iface(), 0));
    ctx.definitions.push(def(4, "E", DefKind::Enum(EnumTy { fields: vec![], ty: PrimitiveTy::UInt32 }), 0));
    ctx.definitions.push(def(5, "J", iface(), IS_INCOMPLETE));
    ctx.definitions.push(def(6, "V", DefKind::Decl(Decl::Valuetype), 0));
    ctx
}

#[test]
fn forward_declaration_kinds() {
    assert_eq!(decl_kind_name(&Decl::Valuetype), "valuetype");
    assert!(are_compatible_forward_decls(&Decl::Union, &Decl::Union));
    assert!(!are_compatible_forward_decls(&Decl::Union, &Decl::Struct));
    assert!(is_valid_forward_decl_and_definition(&DefKind::Decl(Decl::Struct), &strukt()));
    assert!(is_valid_forward_decl_and_definition(&strukt(), &DefKind::Decl(Decl::Struct)));
    assert!(is_valid_forward_decl_and_definition(&DefKind::Decl(Decl::Valuetype), &strukt()));
    assert!(!is_valid_forward_decl_and_definition(&DefKind::Decl(Decl::Union), &strukt()));
    assert!(!is_valid_forward_decl_and_definition(&strukt(), &strukt()));
    let union = DefKind::Union(UnionTy { disc: Disc { annotations: vec![], ty: Ty { span: Span::default(), kind: TyKind::Primitive(PrimitiveTy::Int32) } }, variants: vec![] });
    assert!(is_valid_forward_decl_and_definition(&DefKind::Decl(Decl::Union), &union));
}

#[test]
fn duplicates_follow_the_idl_rules() {
    let ctx = world();
    let mut diags = Diagnostics::new();
    handle_duplicate(&mut diags, &ctx, "Fwd", 0, 2);
    assert!(diags.errors.is_empty());
    handle_duplicate(&mut diags, &ctx, "Fwd", 0, 0);
    assert!(diags.errors.is_empty());
    handle_duplicate(&mut diags, &ctx, "Fwd", 0, 1);
    assert_eq!(diags.errors.len(), 1);
    assert_eq!(diags.errors[0].message, "`Fwd` forward declared as both struct and union");
    assert_eq!(diags.errors[0].labels[0].span, sp(10, 18));
    assert_eq!(diags.errors[0].labels[0].message, "forward declared as union here");
    assert_eq!(diags.errors[0].labels[1].span, sp(0, 8));
    assert_eq!(diags.errors[0].labels[1].message, "first forward declared as struct here");
    handle_duplicate(&mut diags, &ctx, "I", 3, 4);
    assert_eq!(diags.errors[1].message, "duplicate definition of `I`");
    assert_eq!(diags.errors[1].labels[0].message, "redefined here");
    assert_eq!(diags.errors[1].labels[1].message, "first defined here");
    report_duplicate(&mut diags, &ctx, "x", "member", sp(70, 71), 4);
    assert_eq!(diags.errors[2].message, "duplicate member `x`");
    assert_eq!(diags.errors[2].labels[0].message, "member redefined here");
    assert_eq!(diags.errors[2].labels[1].span, sp(40, 48));
    assert_eq!(diags.errors[2].labels[1].message, "member first defined here");
}

#[test]
fn qualified_names_join_the_scope_path() {
    assert_eq!(qualified_name(&vec![], "X"), "X");
    assert_eq!(qualified_name(&vec!["A".to_string(), "B".to_string()], "X"), "A::B::X");
}

#[test]
fn struct_parents() {
    let ctx = world();
    let mut errors = vec![];
    assert_eq!(validate_struct_parent(&ctx, &mut errors, 2, "Child", sp(90, 95)), Some(2));
    assert!(errors.is_empty());
    assert_eq!(validate_struct_parent(&ctx, &mut errors, 0, "Child", sp(90, 95)), None);
    assert_eq!(errors[0].message, "struct `Child` cannot inherit from incomplete type `Fwd`");
    assert_eq!(errors[0].labels[0].message, "inherits from incomplete type here");
    assert_eq!(errors[0].labels[1].message, "parent type is only forward declared");
    assert_eq!(validate_struct_parent(&ctx, &mut errors, 6, "Child", sp(90, 95)), None);
    assert_eq!(errors[1].message, "struct `Child` cannot inherit from forward declaration `V`");
    assert_eq!(errors[1].labels[1].message, "forward declaration here");
    assert_eq!(validate_struct_parent(&ctx, &mut errors, 4, "Child", sp(90, 95)), None);
    assert_eq!(errors[2].message, "struct `Child` inherits from non-struct type `E`");
    assert_eq!(errors[2].labels[1].message, "enum defined here");
}

#[test]
fn interface_parents() {
    let ctx = world();
    let mut errors = vec![];
    let valid = validate_interface_parents(&ctx, &mut errors, &[3, 5, 2, 3], "K", sp(1, 2));
    assert_eq!(valid, vec![3, 3]);
    assert_eq!(errors.len(), 2);
    assert_eq!(errors[0].message, "interface `K` cannot inherit from incomplete type `J`");
    assert_eq!(errors[1].message, "interface `K` inherits from non-interface type `Fwd`");
    assert_eq!(errors[1].labels[1].message, "struct defined here");
    report_undefined_parent(&mut errors, "valuetype", "W", sp(5, 9));
    assert_eq!(errors[2].message, "valuetype `W` inherits from type that is not defined");
    assert_eq!(errors[2].labels[0].message, "undefined type");
    assert_eq!(errors[2].labels[0].span, sp(5, 9));
}

#[test]
fn primitive_names() {
    assert_eq!(resolve_primitive("octet"), Some(PrimitiveTy::UInt8));
    assert_eq!(resolve_primitive("long double"), Some(PrimitiveTy::Float128));
    assert_eq!(resolve_primitive("void"), Some(PrimitiveTy::Void));
    assert_eq!(resolve_primitive("long"), None);
    assert_eq!(single_pass::resolve_primitive("unsigned long long"), Some(PrimitiveTy::UInt64));
    assert_eq!(single_pass::resolve_primitive("short"), Some(PrimitiveTy::Int16));
    assert_eq!(single_pass::resolve_primitive("void"), None);
    assert_eq!(single_pass::resolve_primitive("Boolean"), None);
    assert_eq!(as_adt(&Ty { span: Span::default(), kind: TyKind::Adt(7) }), Some(7));
    assert_eq!(as_adt(&Ty { span: Span::default(), kind: TyKind::Null }), None);
}
