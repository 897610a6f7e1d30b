use ic_hir::ctx::Context;
use ic_hir::diag::{Diagnostics, Severity};
use ic_hir::hir::{Decl, Def, DefFlags, DefKind, Ident, Span, StructTy};
use ic_hir::lower::registry::{DefKindTag, DefinitionRegistry, NameKey};

fn ident(name: &str, start: usize) -> Ident {
    Ident {
        name: name.to_string(),
        span: Span { start, end: start + name.len() },
    }
}

fn def(id: usize, name: &str, start: usize, kind: DefKind) -> Def {
    Def {
        id,
        ident: ident(name, start),
        parent: None,
        annotations: vec![],
        span: Span { start, end: start + 10 },
        kind,
        flags: DefFlags { bits: 0 },
    }
}

fn context() -> Context {
    let mut ctx = Context::new();
    ctx.definitions.push(def(0, "Foo", 10, DefKind::Decl(Decl::Struct)));
    ctx.definitions.push(def(1, "Foo", 20, DefKind::Decl(Decl::Union)));
    ctx.definitions.push(def(2, "FOO", 30, DefKind::Struct(StructTy { parent: None, members: vec![] })));
    ctx
}

#[test]
fn name_key_folds_ascii_case() {
    assert!(NameKey::new("FooBar").same_as(&NameKey::new("fOObAR")));
    assert!(!NameKey::new("Foo").same_as(&NameKey::new("Fob")));
    assert_eq!(NameKey::new("ÄBc"), NameKey::new("Äbc"));
}

#[test]
fn forward_decl_same_kind_returns_first_id() {
    let ctx = context();
    let mut diags = Diagnostics::new();
    let mut reg = DefinitionRegistry::new();
    assert_eq!(reg.register_forward_decl(0, &ident("Foo", 10), Decl::Struct, 0, &mut diags, &ctx), Some(0));
    assert_eq!(reg.register_forward_decl(0, &ident("foo", 40), Decl::Struct, 5, &mut diags, &ctx), Some(0));
    assert!(diags.errors.is_empty());
}

#[test]
fn forward_decl_kind_conflict_is_reported() {
    let ctx = context();
    let mut diags = Diagnostics::new();
    let mut reg = DefinitionRegistry::new();
    assert_eq!(reg.register_forward_decl(0, &ident("Foo", 10), Decl::Struct, 0, &mut diags, &ctx), Some(0));
    assert_eq!(reg.register_forward_decl(0, &ident("Foo", 20), Decl::Union, 1, &mut diags, &ctx), None);
    assert_eq!(diags.errors.len(), 1);
    let d = &diags.errors[0];
    assert_eq!(d.severity, Severity::Error);
    assert_eq!(d.message, "`Foo` forward declared as both struct and union");
    assert_eq!(d.labels[0].span, Span { start: 10, end: 13 });
    assert_eq!(d.labels[0].message, "first forward declared as struct here");
    assert_eq!(d.labels[1].span, Span { start: 20, end: 23 });
    assert_eq!(d.labels[1].message, "forward declared as union here");
    // The conflicting declaration is recorded: a third of either kind finds its id.
    assert_eq!(reg.register_forward_decl(0, &ident("Foo", 50), Decl::Union, 9, &mut diags, &ctx), Some(1));
}

#[test]
fn same_name_in_other_scope_is_independent() {
    let ctx = context();
    let mut diags = Diagnostics::new();
    let mut reg = DefinitionRegistry::new();
    assert_eq!(reg.register_forward_decl(0, &ident("Foo", 10), Decl::Struct, 0, &mut diags, &ctx), Some(0));
    assert_eq!(reg.register_forward_decl(1, &ident("Foo", 20), Decl::Union, 1, &mut diags, &ctx), Some(1));
    assert_eq!(reg.register_definition(1, &ident("Foo", 30), DefKindTag::Union, 2, &mut diags, &ctx), Some(2));
    assert!(diags.errors.is_empty());
}

#[test]
fn duplicate_definition_is_refused() {
    let ctx = context();
    let mut diags = Diagnostics::new();
    let mut reg = DefinitionRegistry::new();
    assert_eq!(reg.register_definition(0, &ident("FOO", 30), DefKindTag::Struct, 2, &mut diags, &ctx), Some(2));
    assert_eq!(reg.register_definition(0, &ident("foo", 60), DefKindTag::Struct, 7, &mut diags, &ctx), None);
    assert_eq!(diags.errors.len(), 1);
    let d = &diags.errors[0];
    assert_eq!(d.message, "duplicate definition of `foo`");
    assert_eq!(d.labels[0].span, Span { start: 30, end: 33 });
    assert_eq!(d.labels[0].message, "originally defined here");
    assert_eq!(d.labels[1].span, Span { start: 60, end: 63 });
    assert_eq!(d.labels[1].message, "redefined here");
}

#[test]
fn definition_conflicting_with_forward_decls() {
    let ctx = context();
    let mut diags = Diagnostics::new();
    let mut reg = DefinitionRegistry::new();
    reg.register_forward_decl(0, &ident("Foo", 10), Decl::Struct, 0, &mut diags, &ctx);
    reg.register_forward_decl(0, &ident("Foo", 20), Decl::Union, 1, &mut diags, &ctx);
    assert_eq!(diags.errors.len(), 1);
    assert_eq!(reg.register_definition(0, &ident("FOO", 30), DefKindTag::Struct, 2, &mut diags, &ctx), Some(2));
    // Only the union forward declaration conflicts with a struct definition.
    assert_eq!(diags.errors.len(), 2);
    let d = &diags.errors[1];
    assert_eq!(d.message, "forward declaration of `FOO` as union conflicts with struct definition");
    assert_eq!(d.labels[0].span, Span { start: 20, end: 23 });
    assert_eq!(d.labels[0].message, "forward declared as union here");
    assert_eq!(d.labels[1].span, Span { start: 30, end: 33 });
    assert_eq!(d.labels[1].message, "defined as struct here");
}

#[test]
fn forward_declarations_map_to_their_definition() {
    let ctx = context();
    let mut diags = Diagnostics::new();
    let mut reg = DefinitionRegistry::new();
    reg.register_forward_decl(0, &ident("Foo", 10), Decl::Struct, 0, &mut diags, &ctx);
    reg.register_forward_decl(0, &ident("Bar", 15), Decl::Struct, 4, &mut diags, &ctx);
    reg.register_definition(0, &ident("foo", 30), DefKindTag::Struct, 2, &mut diags, &ctx);
    let mapping = reg.get_forward_to_def_mapping();
    assert_eq!(mapping.len(), 1);
    assert_eq!(mapping.get(&0), Some(&2));
    assert_eq!(mapping.get(&4), None);
}
