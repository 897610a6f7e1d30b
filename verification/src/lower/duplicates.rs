//! The IDL rules for a name that is declared more than once in a scope:
//! repeated forward declarations of one kind are allowed, a forward
//! declaration may be completed by its definition, anything else is an
//! error.

use vstd::prelude::*;
use crate::ctx::Context;
use crate::diag::{DiagView, Diagnostics, Severity, diag, spec_diag, spec_diag_views, spec_with_label};
use crate::hir::{Decl, DefId, DefKind, Span};
use crate::text::owned;

verus! {

/// The keyword of a forward declaration's kind.
pub open spec fn spec_decl_kind_name(decl: Decl) -> Seq<char> {
    match decl {
        Decl::Struct => "struct"@,
        Decl::Union => "union"@,
        Decl::Interface => "interface"@,
        Decl::Valuetype => "valuetype"@,
        Decl::Native => "native"@,
    }
}

/// The keyword of a forward declaration's kind.
pub fn decl_kind_name(decl: &Decl) -> (s: &'static str)
    ensures
        s@ == spec_decl_kind_name(*decl),
{
    match decl {
        Decl::Struct => "struct",
        Decl::Union => "union",
        Decl::Interface => "interface",
        Decl::Valuetype => "valuetype",
        Decl::Native => "native",
    }
}

/// Two forward declarations are compatible when they are of the same kind.
pub fn are_compatible_forward_decls(decl1: &Decl, decl2: &Decl) -> (r: bool)
    ensures
        r == (*decl1 == *decl2),
{
    match (decl1, decl2) {
        (Decl::Struct, Decl::Struct) => true,
        (Decl::Union, Decl::Union) => true,
        (Decl::Interface, Decl::Interface) => true,
        (Decl::Valuetype, Decl::Valuetype) => true,
        (Decl::Native, Decl::Native) => true,
        _ => false,
    }
}

/// Whether a forward declaration of kind `decl` is completed by the
/// definition `other`. A valuetype forward declaration is completed by a
/// struct definition here.
pub open spec fn spec_completes(decl: Decl, other: DefKind) -> bool {
    match (decl, other) {
        (Decl::Struct, DefKind::Struct(_)) => true,
        (Decl::Union, DefKind::Union(_)) => true,
        (Decl::Interface, DefKind::Interface(_)) => true,
        (Decl::Valuetype, DefKind::Struct(_)) => true,
        _ => false,
    }
}

/// Whether one of the two is a forward declaration and the other a
/// definition that completes it; when the first is a forward declaration,
/// it is the one checked.
pub open spec fn spec_valid_forward_decl_and_definition(existing: DefKind, new: DefKind) -> bool {
    match existing {
        DefKind::Decl(d) => spec_completes(d, new),
        _ => match new {
            DefKind::Decl(d) => spec_completes(d, existing),
            _ => false,
        },
    }
}

fn completes(decl: &Decl, other: &DefKind) -> (r: bool)
    ensures
        r == spec_completes(*decl, *other),
{
    match (decl, other) {
        (Decl::Struct, DefKind::Struct(_)) => true,
        (Decl::Union, DefKind::Union(_)) => true,
        (Decl::Interface, DefKind::Interface(_)) => true,
        (Decl::Valuetype, DefKind::Struct(_)) => true,
        _ => false,
    }
}

/// Checks if one definition is a forward declaration and the other a
/// definition that completes it.
pub fn is_valid_forward_decl_and_definition(existing: &DefKind, new: &DefKind) -> (r: bool)
    ensures
        r == spec_valid_forward_decl_and_definition(*existing, *new),
{
    match existing {
        DefKind::Decl(d) => completes(d, new),
        _ => match new {
            DefKind::Decl(d) => completes(d, existing),
            _ => false,
        },
    }
}

/// The error for a name forward declared as two kinds.
pub open spec fn spec_conflicting_forward_diag(name: Seq<char>, first: Decl, first_span: Span, second: Decl, second_span: Span) -> DiagView {
    spec_with_label(
        spec_diag(
            Severity::Error,
            "`"@ + name + "` forward declared as both "@ + spec_decl_kind_name(first) + " and "@
                + spec_decl_kind_name(second),
            second_span,
            "forward declared as "@ + spec_decl_kind_name(second) + " here"@,
        ),
        first_span,
        "first forward declared as "@ + spec_decl_kind_name(first) + " here"@,
    )
}

/// The error for a name defined twice.
pub open spec fn spec_redefinition_diag(name: Seq<char>, first_span: Span, second_span: Span) -> DiagView {
    spec_with_label(
        spec_diag(Severity::Error, "duplicate definition of `"@ + name + "`"@, second_span, "redefined here"@),
        first_span,
        "first defined here"@,
    )
}

/// The error, if any, for a second declaration `new` of a name already
/// declared as `existing`.
pub open spec fn spec_duplicate_error(name: Seq<char>, existing: crate::hir::Def, new: crate::hir::Def) -> Option<DiagView> {
    match (existing.kind, new.kind) {
        (DefKind::Decl(a), DefKind::Decl(b)) => if a == b {
            None
        } else {
            Some(spec_conflicting_forward_diag(name, a, existing.span, b, new.span))
        },
        _ => if spec_valid_forward_decl_and_definition(existing.kind, new.kind) {
            None
        } else {
            Some(spec_redefinition_diag(name, existing.span, new.span))
        },
    }
}

/// A struct, union or interface declared ahead and then defined, in
/// either order, is no duplicate; two forward declarations of one kind are
/// none either; two real definitions of one name always are.
pub proof fn lemma_forward_declaration_completed(name: Seq<char>, existing: crate::hir::Def, new: crate::hir::Def)
    ensures
        (existing.kind == DefKind::Decl(Decl::Struct) && new.kind is Struct) ==> spec_duplicate_error(
            name,
            existing,
            new,
        ) is None,
        (existing.kind == DefKind::Decl(Decl::Union) && new.kind is Union) ==> spec_duplicate_error(
            name,
            existing,
            new,
        ) is None,
        (existing.kind == DefKind::Decl(Decl::Interface) && new.kind is Interface) ==> spec_duplicate_error(
            name,
            existing,
            new,
        ) is None,
        (new.kind == DefKind::Decl(Decl::Struct) && existing.kind is Struct) ==> spec_duplicate_error(
            name,
            existing,
            new,
        ) is None,
        (new.kind == DefKind::Decl(Decl::Union) && existing.kind is Union) ==> spec_duplicate_error(
            name,
            existing,
            new,
        ) is None,
        (new.kind == DefKind::Decl(Decl::Interface) && existing.kind is Interface) ==> spec_duplicate_error(
            name,
            existing,
            new,
        ) is None,
        (existing.kind is Decl && new.kind == existing.kind) ==> spec_duplicate_error(name, existing, new) is None,
        (!(existing.kind is Decl) && !(new.kind is Decl)) ==> spec_duplicate_error(name, existing, new) == Some(
            spec_redefinition_diag(name, existing.span, new.span),
        ),
{
}

/// Handles a second declaration of `name` according to the IDL rules,
/// reporting an error where they are broken.
pub fn handle_duplicate(diagnostics: &mut Diagnostics, ctx: &Context, name: &str, existing_id: DefId, new_id: DefId)
    requires
        existing_id < ctx.definitions@.len(),
        new_id < ctx.definitions@.len(),
    ensures
        final(diagnostics).warnings@ == old(diagnostics).warnings@,
        match spec_duplicate_error(name@, ctx.definitions@[existing_id as int], ctx.definitions@[new_id as int]) {
            None => final(diagnostics).errors@ == old(diagnostics).errors@,
            Some(d) => spec_diag_views(final(diagnostics).errors@) == spec_diag_views(old(diagnostics).errors@).push(d),
        },
{
    let existing = ctx.type_of(existing_id);
    let new_def = ctx.type_of(new_id);
    if let (DefKind::Decl(existing_decl), DefKind::Decl(new_decl)) = (&existing.kind, &new_def.kind) {
        if !are_compatible_forward_decls(existing_decl, new_decl) {
            let a = decl_kind_name(existing_decl);
            let b = decl_kind_name(new_decl);
            let mut msg = owned("`");
            msg.append(name);
            msg.append("` forward declared as both ");
            msg.append(a);
            msg.append(" and ");
            msg.append(b);
            let mut new_label = owned("forward declared as ");
            new_label.append(b);
            new_label.append(" here");
            let mut first_label = owned("first forward declared as ");
            first_label.append(a);
            first_label.append(" here");
            let d = diag(Severity::Error, msg, new_def.span, new_label).label(existing.span, first_label);
            diagnostics.push_error(d);
        }
        return;
    }
    if is_valid_forward_decl_and_definition(&existing.kind, &new_def.kind) {
        return;
    }
    let mut msg = owned("duplicate definition of `");
    msg.append(name);
    msg.append("`");
    let d = diag(Severity::Error, msg, new_def.span, owned("redefined here")).label(existing.span, owned("first defined here"));
    diagnostics.push_error(d);
}

/// The error for a duplicate `kind` named `name`.
pub open spec fn spec_report_duplicate_diag(name: Seq<char>, kind: Seq<char>, new_span: Span, existing_span: Span) -> DiagView {
    spec_with_label(
        spec_diag(Severity::Error, "duplicate "@ + kind + " `"@ + name + "`"@, new_span, kind + " redefined here"@),
        existing_span,
        kind + " first defined here"@,
    )
}

/// Reports a duplicate definition of a `kind` named `name`.
pub fn report_duplicate(diagnostics: &mut Diagnostics, ctx: &Context, name: &str, kind: &str, new_span: Span, existing_id: DefId)
    requires
        existing_id < ctx.definitions@.len(),
    ensures
        final(diagnostics).warnings@ == old(diagnostics).warnings@,
        spec_diag_views(final(diagnostics).errors@) == spec_diag_views(old(diagnostics).errors@).push(
            spec_report_duplicate_diag(name@, kind@, new_span, ctx.definitions@[existing_id as int].span),
        ),
{
    let existing = ctx.type_of(existing_id);
    let mut msg = owned("duplicate ");
    msg.append(kind);
    msg.append(" `");
    msg.append(name);
    msg.append("`");
    let mut new_label = owned(kind);
    new_label.append(" redefined here");
    let mut first_label = owned(kind);
    first_label.append(" first defined here");
    let d = diag(Severity::Error, msg, new_span, new_label).label(existing.span, first_label);
    diagnostics.push_error(d);
}

/// The name qualified by the enclosing scopes, joined with `::`.
pub open spec fn spec_scoped_name(scope_path: Seq<Seq<char>>, name: Seq<char>) -> Seq<char>
    decreases scope_path.len(),
{
    if scope_path.len() == 0 {
        name
    } else {
        spec_scoped_name(scope_path.drop_last(), scope_path.last() + "::"@ + name)
    }
}

/// Generates a qualified name by joining the scope path with the given name.
pub fn qualified_name(scope_path: &Vec<String>, name: &str) -> (r: String)
    ensures
        r@ == spec_scoped_name(scope_path@.map_values(|s: String| s@), name@),
{
    let ghost path = scope_path@.map_values(|s: String| s@);
    let mut acc = owned(name);
    let mut i: usize = scope_path.len();
    assert(path.subrange(0, i as int) =~= path);
    while i > 0
        invariant
            0 <= i <= scope_path@.len(),
            path == scope_path@.map_values(|s: String| s@),
            spec_scoped_name(path.subrange(0, i as int), acc@) == spec_scoped_name(path, name@),
        decreases i,
    {
        let mut next = scope_path[i - 1].clone();
        next.append("::");
        next.append(acc.as_str());
        proof {
            let p = path.subrange(0, i as int);
            assert(p.drop_last() =~= path.subrange(0, i - 1));
            assert(p.last() == scope_path@[i - 1]@);
        }
        acc = next;
        i -= 1;
    }
    proof {
        assert(path.subrange(0, 0) =~= Seq::<Seq<char>>::empty());
    }
    acc
}

} // verus!
