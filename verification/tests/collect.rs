use ic_hir::hir::{Decl, DefKind, Ident, Span, IS_EMIT, IS_INCOMPLETE};
use ic_hir::lower::collect::{collect_definitions, ItemSyntax, NameCollector};

fn sp(start: usize, end: usize) -> Span {
    Span { start, end }
}

fn ident(name: &str) -> Ident {
    Ident { name: name.to_string(), span: sp(0, name.len()) }
}

#[test]
fn nested_items_get_their_scope_as_parent() {
    let items = vec![ItemSyntax::Module {
        ident: ident("M"),
        span: sp(0, 50),
        items: vec![
            ItemSyntax::Struct { ident: ident("S"), span: sp(5, 10), has_members: true },
            ItemSyntax::Alias { names: vec![ident("A"), ident("B")], span: sp(11, 20) },
            ItemSyntax::Bitset,
        ],
    }, ItemSyntax::Enum { ident: ident("E"), span: sp(51, 60) }];
    let (ctx, names, order, errors) = collect_definitions(&items);
    assert_eq!(ctx.definitions.len(), 5);
    assert_eq!(order, vec![0, 4]);
    assert!(errors.is_empty());
    assert_eq!(ctx.definitions[0].parent, None);
    match &ctx.definitions[0].kind {
        DefKind::Module(m) => assert_eq!(m.definitions, vec![1, 2, 3]),
        _ => panic!("module expected"),
    }
    for id in 1..4 {
        assert_eq!(ctx.definitions[id].parent, Some(0));
    }
    assert_eq!(ctx.definitions[1].flags.bits, 0);
    assert_eq!(ctx.definitions[2].ident, ident("A"));
    assert_eq!(ctx.definitions[3].ident, ident("B"));
    assert_eq!(ctx.definitions[4].parent, None);
    assert_eq!(ctx.definitions[4].flags.bits, IS_EMIT);
    assert!(names.iter().any(|(n, id)| n == "M::A" && *id == 2));
    assert!(names.iter().any(|(n, id)| n == "E" && *id == 4));
}

#[test]
fn a_body_makes_a_definition_complete() {
    let items = vec![
        ItemSyntax::Struct { ident: ident("S"), span: sp(0, 5), has_members: false },
        ItemSyntax::Interface { ident: ident("I"), span: sp(6, 9), local: true, has_members: true, items: vec![] },
        ItemSyntax::Decl { ident: ident("S"), span: sp(10, 12), kind: Decl::Struct },
    ];
    let (ctx, _names, order, errors) = collect_definitions(&items);
    assert_eq!(order, vec![0, 1, 2]);
    assert!(errors.is_empty());
    assert_eq!(ctx.definitions[0].flags.bits, IS_INCOMPLETE);
    assert_eq!(ctx.definitions[1].flags.bits, 0);
    assert_eq!(ctx.definitions[2].flags.bits, IS_INCOMPLETE);
    match &ctx.definitions[1].kind {
        DefKind::Interface(i) => assert!(i.is_local),
        _ => panic!("interface expected"),
    }
}

#[test]
fn a_name_defined_twice_is_reported() {
    let mut c = NameCollector::new();
    let first = c.collect_item(&ItemSyntax::Const { ident: ident("X"), span: sp(0, 5) });
    let second = c.collect_item(&ItemSyntax::Enum { ident: ident("X"), span: sp(6, 9) });
    assert_eq!(first, vec![0]);
    assert_eq!(second, vec![1]);
    assert_eq!(c.error_list().len(), 1);
    assert_eq!(c.error_list()[0].message, "duplicate definition of `X`");
    assert_eq!(c.error_list()[0].labels[1].span, sp(0, 5));
    assert_eq!(c.context().definitions.len(), 2);
}

fn lookup(names: &[(String, usize)], name: &str) -> Option<usize> {
    names.iter().find(|(n, _)| n == name).map(|(_, id)| *id)
}

#[test]
fn the_name_table_prefers_definitions_over_forward_declarations() {
    let items = vec![
        ItemSyntax::Decl { ident: ident("S"), span: sp(0, 3), kind: Decl::Struct },
        ItemSyntax::Decl { ident: ident("S"), span: sp(4, 7), kind: Decl::Struct },
        ItemSyntax::Decl { ident: ident("T"), span: sp(8, 9), kind: Decl::Union },
        ItemSyntax::Decl { ident: ident("T"), span: sp(10, 11), kind: Decl::Union },
        ItemSyntax::Struct { ident: ident("S"), span: sp(12, 20), has_members: true },
        ItemSyntax::Decl { ident: ident("S"), span: sp(21, 24), kind: Decl::Struct },
    ];
    let (_ctx, names, _order, errors) = collect_definitions(&items);
    assert_eq!(lookup(&names, "S"), Some(4));
    assert_eq!(lookup(&names, "T"), Some(2));
    assert!(errors.is_empty());
}

#[test]
fn each_second_definition_of_a_name_is_reported() {
    let items = vec![ItemSyntax::Module {
        ident: ident("M"),
        span: sp(0, 90),
        items: vec![
            ItemSyntax::Struct { ident: ident("X"), span: sp(10, 20), has_members: true },
            ItemSyntax::Const { ident: ident("X"), span: sp(30, 40) },
            ItemSyntax::Enum { ident: ident("X"), span: sp(50, 60) },
        ],
    }];
    let (_ctx, names, _order, errors) = collect_definitions(&items);
    assert_eq!(errors.len(), 2);
    assert_eq!(errors[0].labels[0].span, sp(30, 40));
    assert_eq!(errors[0].labels[1].span, sp(10, 20));
    assert_eq!(errors[1].labels[0].span, sp(50, 60));
    assert_eq!(errors[1].labels[1].span, sp(30, 40));
    assert_eq!(lookup(&names, "M::X"), Some(3));
    assert_eq!(lookup(&names, "M"), Some(0));
}
