//! Checks of the types a struct or an interface inherits from.

use vstd::prelude::*;
use crate::ctx::Context;
use crate::diag::{Diag, DiagView, Severity, diag, spec_diag, spec_diag_views, spec_with_label};
use crate::hir::{Def, DefFlags, DefId, DefKind, IS_INCOMPLETE, Span, spec_kind_name};
use crate::text::owned;

verus! {

/// Whether a definition is marked incomplete (only forward declared).
pub open spec fn spec_incomplete(d: Def) -> bool {
    d.flags.bits & IS_INCOMPLETE == IS_INCOMPLETE
}

/// The error for inheriting, as a `child_kind` named `child`, from an
/// incomplete type.
pub open spec fn spec_incomplete_parent_diag(child_kind: Seq<char>, child: Seq<char>, child_span: Span, parent: Def) -> DiagView {
    spec_with_label(
        spec_diag(
            Severity::Error,
            child_kind + " `"@ + child + "` cannot inherit from incomplete type `"@ + parent.ident.name@ + "`"@,
            child_span,
            "inherits from incomplete type here"@,
        ),
        parent.ident.span,
        "parent type is only forward declared"@,
    )
}

/// The error for inheriting from a definition of the wrong kind.
pub open spec fn spec_wrong_parent_diag(child_kind: Seq<char>, child: Seq<char>, child_span: Span, expected: Seq<char>, parent: Def) -> DiagView {
    spec_with_label(
        spec_diag(
            Severity::Error,
            child_kind + " `"@ + child + "` inherits from non-"@ + expected + " type `"@ + parent.ident.name@ + "`"@,
            child_span,
            "inherits here"@,
        ),
        parent.ident.span,
        spec_kind_name(parent.kind) + " defined here"@,
    )
}

/// The error, if any, for a struct named `child` inheriting from `parent`.
pub open spec fn spec_struct_parent_error(parent: Def, child: Seq<char>, child_span: Span) -> Option<DiagView> {
    if spec_incomplete(parent) {
        Some(spec_incomplete_parent_diag("struct"@, child, child_span, parent))
    } else {
        match parent.kind {
            DefKind::Struct(_) => None,
            DefKind::Decl(_) => Some(
                spec_with_label(
                    spec_diag(
                        Severity::Error,
                        "struct `"@ + child + "` cannot inherit from forward declaration `"@ + parent.ident.name@ + "`"@,
                        child_span,
                        "inherits here"@,
                    ),
                    parent.ident.span,
                    "forward declaration here"@,
                ),
            ),
            _ => Some(spec_wrong_parent_diag("struct"@, child, child_span, "struct"@, parent)),
        }
    }
}

fn incomplete_parent_diag(child_kind: &str, child_name: &str, child_span: Span, parent: &Def) -> (d: Diag)
    ensures
        d@ == spec_incomplete_parent_diag(child_kind@, child_name@, child_span, *parent),
{
    let mut msg = owned(child_kind);
    msg.append(" `");
    msg.append(child_name);
    msg.append("` cannot inherit from incomplete type `");
    msg.append(parent.ident.name.as_str());
    msg.append("`");
    diag(Severity::Error, msg, child_span, owned("inherits from incomplete type here")).label(
        parent.ident.span,
        owned("parent type is only forward declared"),
    )
}

fn wrong_parent_diag(child_kind: &str, child_name: &str, child_span: Span, expected: &str, parent: &Def) -> (d: Diag)
    ensures
        d@ == spec_wrong_parent_diag(child_kind@, child_name@, child_span, expected@, *parent),
{
    let mut msg = owned(child_kind);
    msg.append(" `");
    msg.append(child_name);
    msg.append("` inherits from non-");
    msg.append(expected);
    msg.append(" type `");
    msg.append(parent.ident.name.as_str());
    msg.append("`");
    let mut label = owned(parent.kind.kind_name());
    label.append(" defined here");
    diag(Severity::Error, msg, child_span, owned("inherits here")).label(parent.ident.span, label)
}

fn push_diag(errors: &mut Vec<Diag>, d: Diag)
    ensures
        spec_diag_views(final(errors)@) == spec_diag_views(old(errors)@).push(d@),
{
    let ghost before = errors@;
    errors.push(d);
    assert(spec_diag_views(errors@) =~= spec_diag_views(before).push(d@));
}

/// Validates that a parent is suitable for struct inheritance; returns it
/// when it is, and reports why it is not otherwise.
pub fn validate_struct_parent(
    ctx: &Context,
    errors: &mut Vec<Diag>,
    parent_id: DefId,
    child_name: &str,
    child_span: Span,
) -> (r: Option<DefId>)
    requires
        parent_id < ctx.definitions@.len(),
    ensures
        match spec_struct_parent_error(ctx.definitions@[parent_id as int], child_name@, child_span) {
            None => r == Some(parent_id) && final(errors)@ == old(errors)@,
            Some(d) => r is None && spec_diag_views(final(errors)@) == spec_diag_views(old(errors)@).push(d),
        },
{
    let parent_def = ctx.type_of(parent_id);
    if parent_def.flags.contains(DefFlags { bits: IS_INCOMPLETE }) {
        push_diag(errors, incomplete_parent_diag("struct", child_name, child_span, parent_def));
        return None;
    }
    match &parent_def.kind {
        DefKind::Struct(_) => Some(parent_id),
        DefKind::Decl(_) => {
            let mut msg = owned("struct `");
            msg.append(child_name);
            msg.append("` cannot inherit from forward declaration `");
            msg.append(parent_def.ident.name.as_str());
            msg.append("`");
            let d = diag(Severity::Error, msg, child_span, owned("inherits here")).label(
                parent_def.ident.span,
                owned("forward declaration here"),
            );
            push_diag(errors, d);
            None
        },
        _ => {
            push_diag(errors, wrong_parent_diag("struct", child_name, child_span, "struct", parent_def));
            None
        },
    }
}

/// The error, if any, for an interface named `child` inheriting from
/// `parent`.
pub open spec fn spec_interface_parent_error(parent: Def, child: Seq<char>, child_span: Span) -> Option<DiagView> {
    if spec_incomplete(parent) {
        Some(spec_incomplete_parent_diag("interface"@, child, child_span, parent))
    } else {
        match parent.kind {
            DefKind::Interface(_) => None,
            _ => Some(spec_wrong_parent_diag("interface"@, child, child_span, "interface"@, parent)),
        }
    }
}

/// The parents among `ids` that an interface may inherit from, in order,
/// and the errors reported for the others, in order.
pub open spec fn spec_interface_parents(defs: Seq<Def>, ids: Seq<DefId>, child: Seq<char>, child_span: Span) -> (
    Seq<DefId>,
    Seq<DiagView>,
)
    decreases ids.len(),
{
    if ids.len() == 0 {
        (Seq::empty(), Seq::empty())
    } else {
        let (valid, errs) = spec_interface_parents(defs, ids.drop_last(), child, child_span);
        match spec_interface_parent_error(defs[ids.last() as int], child, child_span) {
            None => (valid.push(ids.last()), errs),
            Some(d) => (valid, errs.push(d)),
        }
    }
}

/// Validates the parents of an interface: returns those it may inherit
/// from and reports the others.
pub fn validate_interface_parents(
    ctx: &Context,
    errors: &mut Vec<Diag>,
    parent_ids: &[DefId],
    child_name: &str,
    child_span: Span,
) -> (r: Vec<DefId>)
    requires
        forall|i: int| 0 <= i < parent_ids@.len() ==> parent_ids@[i] < ctx.definitions@.len(),
    ensures
        r@ == spec_interface_parents(ctx.definitions@, parent_ids@, child_name@, child_span).0,
        spec_diag_views(final(errors)@) == spec_diag_views(old(errors)@) + spec_interface_parents(
            ctx.definitions@,
            parent_ids@,
            child_name@,
            child_span,
        ).1,
{
    let mut valid_parents: Vec<DefId> = Vec::new();
    let mut i: usize = 0;
    assert(spec_diag_views(errors@) =~= spec_diag_views(old(errors)@) + Seq::<DiagView>::empty());
    while i < parent_ids.len()
        invariant
            0 <= i <= parent_ids@.len(),
            forall|j: int| 0 <= j < parent_ids@.len() ==> parent_ids@[j] < ctx.definitions@.len(),
            valid_parents@ == spec_interface_parents(
                ctx.definitions@,
                parent_ids@.subrange(0, i as int),
                child_name@,
                child_span,
            ).0,
            spec_diag_views(errors@) == spec_diag_views(old(errors)@) + spec_interface_parents(
                ctx.definitions@,
                parent_ids@.subrange(0, i as int),
                child_name@,
                child_span,
            ).1,
        decreases parent_ids@.len() - i,
    {
        let parent_id = parent_ids[i];
        proof {
            let p = parent_ids@.subrange(0, i + 1);
            assert(p.drop_last() =~= parent_ids@.subrange(0, i as int));
            assert(p.last() == parent_id);
        }
        let parent_def = ctx.type_of(parent_id);
        let ghost before = spec_diag_views(errors@);
        if parent_def.flags.contains(DefFlags { bits: IS_INCOMPLETE }) {
            push_diag(errors, incomplete_parent_diag("interface", child_name, child_span, parent_def));
            assert(spec_diag_views(errors@) =~= spec_diag_views(old(errors)@) + spec_interface_parents(
                ctx.definitions@,
                parent_ids@.subrange(0, i + 1),
                child_name@,
                child_span,
            ).1);
        } else {
            match &parent_def.kind {
                DefKind::Interface(_) => {
                    valid_parents.push(parent_id);
                },
                _ => {
                    push_diag(errors, wrong_parent_diag("interface", child_name, child_span, "interface", parent_def));
                    assert(spec_diag_views(errors@) =~= spec_diag_views(old(errors)@) + spec_interface_parents(
                        ctx.definitions@,
                        parent_ids@.subrange(0, i + 1),
                        child_name@,
                        child_span,
                    ).1);
                },
            }
        }
        i += 1;
    }
    assert(parent_ids@.subrange(0, i as int) =~= parent_ids@);
    valid_parents
}

/// The error for a type inheriting from a type that is not defined.
pub open spec fn spec_undefined_parent_diag(child_type: Seq<char>, child_name: Seq<char>, parent_span: Span) -> DiagView {
    spec_diag(
        Severity::Error,
        child_type + " `"@ + child_name + "` inherits from type that is not defined"@,
        parent_span,
        "undefined type"@,
    )
}

/// Reports an error for an undefined parent type, written at `parent_span`.
pub fn report_undefined_parent(errors: &mut Vec<Diag>, child_type: &str, child_name: &str, parent_span: Span)
    ensures
        spec_diag_views(final(errors)@) == spec_diag_views(old(errors)@).push(
            spec_undefined_parent_diag(child_type@, child_name@, parent_span),
        ),
{
    let mut msg = owned(child_type);
    msg.append(" `");
    msg.append(child_name);
    msg.append("` inherits from type that is not defined");
    push_diag(errors, diag(Severity::Error, msg, parent_span, owned("undefined type")));
}

} // verus!
