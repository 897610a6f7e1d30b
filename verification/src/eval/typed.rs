//! Evaluation of constant expressions against the type they are declared
//! with: conversion of the value, and initializer lists for structs,
//! arrays, sequences and maps.

use vstd::prelude::*;
use crate::ctx::{Context, spec_base_type, spec_resolves};
use crate::diag::{DiagView, Diagnostics, Severity, diag, spec_diag, spec_diag_views};
use crate::hir::{
    ConstView, Def, DefId, DefKind, Member, Numeric, PrimitiveTy, Span, Ty, TyKind, clone_ty, lemma_const_views_push, lemma_entry_views_push, spec_const_view,
    spec_const_views, spec_entry_views, spec_opt_view,
};
use crate::text::{decimal_u64, owned, spec_decimal, str_eq};
use super::cast::{numeric_from_value, spec_numeric_from_value};
use super::evaluator::spec_eval_error_diag;
use super::expr::{
    ConstExpr, InitList, NamedConstExpr, eval_value, extract_direct_int_literal, lemma_gained_error, lemma_gained_none,
    lemma_gained_trans, spec_direct_int_literal, spec_eval_expr, spec_expr_ok, spec_expr_span, spec_gained,
};
use super::value::{EvalError, Value};

verus! {

/// What converting to a type yields: the constant, if any, and the errors
/// and warnings reported.
pub type ConvertOutcome = (Option<Numeric>, Seq<DiagView>, Seq<DiagView>);

/// The outcome of casting value `v`, written at `span`, to type `ty`.
pub open spec fn spec_cast_outcome(defs: Seq<Def>, v: Value, ty: Ty, span: Span) -> ConvertOutcome {
    match super::cast::spec_cast_value_to_type(v, ty) {
        Ok(c) => (spec_numeric_from_value(c), Seq::empty(), Seq::empty()),
        Err(err) => {
            let d = spec_eval_error_diag(
                err,
                span,
                super::evaluator::spec_type_mismatch_message(
                    Some(super::evaluator::spec_value_desc(v)),
                    Some(super::evaluator::spec_get_type_name(defs, ty)),
                ),
            );
            match err {
                EvalError::SignedOverflow(w) => (spec_numeric_from_value(w), Seq::empty(), seq![d]),
                _ => (None, seq![d], Seq::empty()),
            }
        },
    }
}

/// Evaluating an expression, then casting its value to `ty`; `void` takes no
/// value.
pub open spec fn spec_eval_and_cast(defs: Seq<Def>, e: ConstExpr, ty: Ty) -> ConvertOutcome {
    if ty.kind == TyKind::Primitive(PrimitiveTy::Void) {
        (Some(Numeric::Null), Seq::empty(), Seq::empty())
    } else {
        let vo = spec_eval_expr(defs, e);
        match vo.0 {
            None => (None, vo.1, vo.2),
            Some(v) => {
                let co = spec_cast_outcome(defs, v, ty, spec_expr_span(e));
                (co.0, vo.1 + co.1, vo.2 + co.2)
            },
        }
    }
}

/// Evaluation of an expression that is no initializer list for a constant
/// declared with type `ty`.
pub open spec fn spec_eval_value_for_type(defs: Seq<Def>, e: ConstExpr, ty: Ty) -> ConvertOutcome {
    let range_error = match spec_direct_int_literal(e) {
        Some(lit) => super::evaluator::spec_literal_out_of_range(lit, ty),
        None => false,
    };
    if range_error {
        (
            None,
            seq![super::evaluator::spec_literal_range_diag(super::evaluator::spec_get_type_name(defs, ty), spec_expr_span(e))],
            Seq::empty(),
        )
    } else {
        match e {
            ConstExpr::Path { target, .. } => {
                let (o, d) = super::evaluator::spec_const_assignment(defs, target, ty, spec_expr_span(e));
                match o {
                    super::evaluator::ConstAssignOutcome::Accepted(n) => (Some(*n), Seq::empty(), Seq::empty()),
                    super::evaluator::ConstAssignOutcome::Rejected => (None, seq![d.unwrap()], Seq::empty()),
                    super::evaluator::ConstAssignOutcome::NotApplicable => spec_eval_and_cast(defs, e, ty),
                }
            },
            _ => spec_eval_and_cast(defs, e, ty),
        }
    }
}

/// What evaluating an expression that is no initializer list for a type
/// needs: an expression that the evaluator handles, a type that is not
/// floating point and can be named, and a path's constant that can be
/// assigned.
pub open spec fn spec_value_for_type_ok(defs: Seq<Def>, e: ConstExpr, ty: Ty) -> bool {
    &&& spec_expr_ok(defs, e)
    &&& !super::cast::spec_is_float_ty(ty)
    &&& super::evaluator::spec_nameable(defs, ty)
    &&& (e matches ConstExpr::Path { target, .. } ==> super::evaluator::spec_const_assignment_ok(defs, target, ty))
}

/// Cast a value to the expected type and convert it, reporting failures.
fn cast_outcome(diagnostics: &mut Diagnostics, ctx: &Context, v: Value, ty: &Ty, span: Span) -> (r: Option<Numeric>)
    requires
        !super::cast::spec_is_float_ty(*ty),
        super::evaluator::spec_nameable(ctx.definitions@, *ty),
    ensures
        r == spec_cast_outcome(ctx.definitions@, v, *ty, span).0,
        spec_gained(
            *old(diagnostics),
            *final(diagnostics),
            spec_cast_outcome(ctx.definitions@, v, *ty, span).1,
            spec_cast_outcome(ctx.definitions@, v, *ty, span).2,
        ),
{
    let ghost d0 = *diagnostics;
    let ghost vg = v;
    let out = super::evaluator::cast_and_convert(diagnostics, ctx, v, ty, span);
    proof {
        match super::cast::spec_cast_value_to_type(vg, *ty) {
            Ok(_) => {
                lemma_gained_none(d0);
            },
            Err(err) => {
                let d = spec_eval_error_diag(
                    err,
                    span,
                    super::evaluator::spec_type_mismatch_message(
                        Some(super::evaluator::spec_value_desc(vg)),
                        Some(super::evaluator::spec_get_type_name(ctx.definitions@, *ty)),
                    ),
                );
                match err {
                    EvalError::SignedOverflow(_) => {
                        assert(spec_diag_views(diagnostics.errors@) =~= spec_diag_views(d0.errors@) + Seq::<DiagView>::empty());
                        assert(spec_diag_views(diagnostics.warnings@) =~= spec_diag_views(d0.warnings@) + seq![d]);
                    },
                    _ => {
                        lemma_gained_error(d0, *diagnostics, d);
                    },
                }
            },
        }
    }
    out
}

/// Evaluate an expression that is no initializer list for a type.
fn eval_value_for_type(diagnostics: &mut Diagnostics, ctx: &Context, expr: &ConstExpr, expected_ty: &Ty) -> (r: Option<Numeric>)
    requires
        !(*expr is InitList),
        spec_value_for_type_ok(ctx.definitions@, *expr, *expected_ty),
    ensures
        r == spec_eval_value_for_type(ctx.definitions@, *expr, *expected_ty).0,
        spec_gained(
            *old(diagnostics),
            *final(diagnostics),
            spec_eval_value_for_type(ctx.definitions@, *expr, *expected_ty).1,
            spec_eval_value_for_type(ctx.definitions@, *expr, *expected_ty).2,
        ),
{
    let ghost d0 = *diagnostics;
    let ghost defs = ctx.definitions@;
    let span = expr.span();
    if let Some(lit) = extract_direct_int_literal(expr) {
        if !super::evaluator::check_literal_range(diagnostics, ctx, lit, expected_ty, span) {
            proof {
                lemma_gained_error(
                    d0,
                    *diagnostics,
                    super::evaluator::spec_literal_range_diag(super::evaluator::spec_get_type_name(defs, *expected_ty), span),
                );
            }
            return None;
        }
    }
    if let ConstExpr::Path { target, .. } = expr {
        match super::evaluator::try_const_path_assignment(diagnostics, ctx, *target, expected_ty, span) {
            super::evaluator::ConstAssignOutcome::Accepted(n) => {
                proof {
                    lemma_gained_none(d0);
                }
                return Some(*n);
            },
            super::evaluator::ConstAssignOutcome::Rejected => {
                proof {
                    let d = super::evaluator::spec_const_assignment(defs, *target, *expected_ty, span).1;
                    lemma_gained_error(d0, *diagnostics, d.unwrap());
                }
                return None;
            },
            super::evaluator::ConstAssignOutcome::NotApplicable => {},
        }
    }
    let ghost d1 = *diagnostics;
    assert(d1 == d0);
    if let TyKind::Primitive(PrimitiveTy::Void) = &expected_ty.kind {
        proof {
            lemma_gained_none(d0);
        }
        return Some(Numeric::Null);
    }
    let v = match eval_value(diagnostics, ctx, expr) {
        Some(v) => v,
        None => {
            return None;
        },
    };
    let ghost d2 = *diagnostics;
    let ghost vo = spec_eval_expr(defs, *expr);
    let out = cast_outcome(diagnostics, ctx, v, expected_ty, span);
    proof {
        let co = spec_cast_outcome(defs, v, *expected_ty, span);
        lemma_gained_trans(d0, d2, *diagnostics, vo.1, vo.2, co.1, co.2);
    }
    out
}


/// What evaluating for a type yields: the view of the constant, if any,
/// and the errors and warnings reported.
pub type TypedOutcome = (Option<ConstView>, Seq<DiagView>, Seq<DiagView>);

/// What evaluating the elements of a list yields: their views, unless
/// evaluation stopped, and the errors and warnings reported.
pub type ListOutcome<T> = (Option<Seq<T>>, Seq<DiagView>, Seq<DiagView>);

/// The error for an empty struct initializer.
pub open spec fn spec_empty_struct_diag(span: Span) -> DiagView {
    spec_diag(Severity::Error, "struct initializer cannot be empty"@, span, "expected field values"@)
}

/// The error for a named element that names no member of struct `sname`.
pub open spec fn spec_unknown_field_diag(sname: Seq<char>, fname: Seq<char>, span: Span) -> DiagView {
    spec_diag(
        Severity::Error,
        "struct `"@ + sname + "` has no field named `"@ + fname + "`"@,
        span,
        "unknown field"@,
    )
}

/// The error for an unnamed element among named ones.
pub open spec fn spec_mixed_init_diag(span: Span) -> DiagView {
    spec_diag(
        Severity::Error,
        "mixing named and positional initialization is not allowed"@,
        span,
        "expected named field"@,
    )
}

/// The error for a member of struct `sname` that a named initializer leaves
/// without value.
pub open spec fn spec_missing_field_diag(fname: Seq<char>, sname: Seq<char>, span: Span) -> DiagView {
    spec_diag(
        Severity::Error,
        "missing initializer for field `"@ + fname + "` in struct `"@ + sname + "`"@,
        span,
        "incomplete initialization"@,
    )
}

/// The error for a positional struct initializer with the wrong number of
/// values.
pub open spec fn spec_field_count_diag(sname: Seq<char>, expected: nat, given: nat, span: Span) -> DiagView {
    spec_diag(
        Severity::Error,
        "struct `"@ + sname + "` expects "@ + spec_decimal(expected) + " fields, but "@ + spec_decimal(given)
            + " were provided"@,
        span,
        "incorrect number of fields"@,
    )
}

/// The error for an array initializer with the wrong number of elements.
pub open spec fn spec_array_len_diag(expected: nat, given: nat, span: Span) -> DiagView {
    spec_diag(
        Severity::Error,
        "array expects "@ + spec_decimal(expected) + " elements, but "@ + spec_decimal(given) + " were provided"@,
        span,
        "incorrect number of elements"@,
    )
}

/// The error for a named element of an array (`in_array`) or sequence.
pub open spec fn spec_named_elem_diag(in_array: bool, span: Span) -> DiagView {
    spec_diag(
        Severity::Error,
        if in_array {
            "array elements cannot have names"@
        } else {
            "sequence elements cannot have names"@
        },
        span,
        "unexpected named element"@,
    )
}

/// The error for a named map entry.
pub open spec fn spec_named_entry_diag(span: Span) -> DiagView {
    spec_diag(Severity::Error, "map entries cannot have names"@, span, "unexpected named element"@)
}

/// The error for a map entry that is a list of other than two elements.
pub open spec fn spec_entry_len_diag(span: Span) -> DiagView {
    spec_diag(
        Severity::Error,
        "map entry must have exactly 2 elements (key and value)"@,
        span,
        "expected {key, value}"@,
    )
}

/// The error for a map entry whose key or value is named.
pub open spec fn spec_named_pair_diag(span: Span) -> DiagView {
    spec_diag(Severity::Error, "map key and value cannot have names"@, span, "unexpected named elements"@)
}

/// The error for a map entry that is no initializer list.
pub open spec fn spec_entry_not_list_diag(span: Span) -> DiagView {
    spec_diag(
        Severity::Error,
        "map entry must be an initializer list {key, value}"@,
        span,
        "expected initializer list"@,
    )
}

/// The error for initializing a type that is only declared.
pub open spec fn spec_forward_init_diag(name: Seq<char>, span: Span) -> DiagView {
    spec_diag(
        Severity::Error,
        "cannot initialize forward-declared type '"@ + name + "' in constant expression"@,
        span,
        "incomplete type"@,
    )
}

/// The error for an initializer list for a type that takes none.
pub open spec fn spec_invalid_init_diag(span: Span) -> DiagView {
    spec_diag(
        Severity::Error,
        "initializer lists can only be used to initialize structs, arrays, sequences, or maps"@,
        span,
        "invalid use of initializer list"@,
    )
}

/// The type of the last member named `name`, if any.
pub open spec fn spec_field_ty(members: Seq<Member>, name: Seq<char>) -> Option<Ty>
    decreases members.len(),
{
    if members.len() == 0 {
        None
    } else if members.last().ident.name@ == name {
        Some(members.last().ty)
    } else {
        spec_field_ty(members.drop_last(), name)
    }
}

/// Whether some element of an initializer list is named.
pub open spec fn spec_any_named(vals: Seq<NamedConstExpr>) -> bool {
    exists|i: int| 0 <= i < vals.len() && (#[trigger] vals[i]).ident is Some
}

/// The value of the last of the first `j` elements that is named `name`
/// and whose evaluation (in `evals`) succeeded.
pub open spec fn spec_last_value_before(
    vals: Seq<NamedConstExpr>,
    evals: Seq<Option<ConstView>>,
    name: Seq<char>,
    j: int,
) -> Option<ConstView>
    decreases j,
{
    if j <= 0 {
        None
    } else if vals[j - 1].ident matches Some(id) && id.name@ == name && evals[j - 1] is Some {
        evals[j - 1]
    } else {
        spec_last_value_before(vals, evals, name, j - 1)
    }
}

/// The members' values of a named struct initializer, in member order, and
/// the errors for members left without value: the first member of each
/// name takes the value of the last element of that name whose evaluation
/// succeeded.
pub open spec fn spec_collect_fields(
    members: Seq<Member>,
    vals: Seq<NamedConstExpr>,
    evals: Seq<Option<ConstView>>,
    sname: Seq<char>,
    span: Span,
) -> (Seq<ConstView>, Seq<DiagView>)
    decreases members.len(),
{
    if members.len() == 0 {
        (Seq::empty(), Seq::empty())
    } else {
        let prev = spec_collect_fields(members.drop_last(), vals, evals, sname, span);
        let fname = members.last().ident.name@;
        let v = if spec_field_ty(members.drop_last(), fname) is None {
            spec_last_value_before(vals, evals, fname, vals.len() as int)
        } else {
            None
        };
        match v {
            Some(x) => (prev.0.push(x), prev.1),
            None => (prev.0, prev.1.push(spec_missing_field_diag(fname, sname, span))),
        }
    }
}

/// The views of optional values.
pub open spec fn spec_opt_views(s: Seq<Option<Numeric>>) -> Seq<Option<ConstView>> {
    s.map_values(|o: Option<Numeric>| spec_opt_view(o))
}


/// Evaluation of an expression for a constant declared with type `ty`.
pub open spec fn spec_eval_for_type(defs: Seq<Def>, e: ConstExpr, ty: Ty) -> TypedOutcome
    decreases e, 4nat,
{
    match e {
        ConstExpr::InitList(l) => spec_eval_init_list(defs, l.values@, ty, l.span),
        _ => {
            let o = spec_eval_value_for_type(defs, e, ty);
            (spec_opt_view(o.0), o.1, o.2)
        },
    }
}

/// The type an initializer list for `ty` is read against: the underlying
/// type of a named type, else `ty` itself.
pub open spec fn spec_init_target(defs: Seq<Def>, ty: Ty) -> Ty {
    match ty.kind {
        TyKind::Adt(id) => spec_base_type(defs, id),
        _ => ty,
    }
}

/// Evaluation of an initializer list, written at `span`, for type `ty`.
pub open spec fn spec_eval_init_list(defs: Seq<Def>, vals: Seq<NamedConstExpr>, ty: Ty, span: Span) -> TypedOutcome
    decreases vals, 3nat,
{
    match spec_init_target(defs, ty).kind {
        TyKind::Any => spec_eval_sequence(defs, vals, ty),
        TyKind::Adt(id) => match defs[id as int].kind {
            DefKind::Struct(st) => spec_eval_struct(defs, vals, id, defs[id as int].ident.name@, st.members@, span),
            DefKind::Decl(_) => (None, seq![spec_forward_init_diag(defs[id as int].ident.name@, span)], Seq::empty()),
            _ => (None, seq![spec_invalid_init_diag(span)], Seq::empty()),
        },
        TyKind::Array { ty: et, len, .. } => spec_eval_array(defs, vals, *et, len, span),
        TyKind::Sequence { ty: et, .. } => spec_eval_sequence(defs, vals, *et),
        TyKind::Mapping { key, elem, .. } => spec_eval_map(defs, vals, *key, *elem),
        _ => (None, seq![spec_invalid_init_diag(span)], Seq::empty()),
    }
}

/// Initializer lists see through typedefs: for a named type whose
/// underlying type is neither named nor `any`, evaluating an initializer
/// list is evaluating it for the underlying type.
pub proof fn lemma_init_list_through_typedef(defs: Seq<Def>, vals: Seq<NamedConstExpr>, id: DefId, at: Span, span: Span)
    requires
        !(spec_base_type(defs, id).kind is Adt),
        !(spec_base_type(defs, id).kind is Any),
    ensures
        spec_eval_init_list(defs, vals, (Ty { span: at, kind: TyKind::Adt(id) }), span) == spec_eval_init_list(
            defs,
            vals,
            spec_base_type(defs, id),
            span,
        ),
{
}

/// Evaluation of a sequence initializer with element type `elem`.
pub open spec fn spec_eval_sequence(defs: Seq<Def>, vals: Seq<NamedConstExpr>, elem: Ty) -> TypedOutcome
    decreases vals, 2nat,
{
    let eo = spec_eval_elems(defs, vals, elem, false);
    (
        match eo.0 {
            Some(s) => Some(ConstView::Sequence { ty: elem, values: s }),
            None => None,
        },
        eo.1,
        eo.2,
    )
}

/// Evaluation of an array initializer, written at `span`, with element
/// type `elem` and length `len`.
pub open spec fn spec_eval_array(defs: Seq<Def>, vals: Seq<NamedConstExpr>, elem: Ty, len: usize, span: Span) -> TypedOutcome
    decreases vals, 2nat,
{
    if vals.len() != len {
        (None, seq![spec_array_len_diag(len as nat, vals.len(), span)], Seq::empty())
    } else {
        let eo = spec_eval_elems(defs, vals, elem, true);
        (
            match eo.0 {
                Some(s) => Some(ConstView::Array { ty: elem, values: s }),
                None => None,
            },
            eo.1,
            eo.2,
        )
    }
}

/// Evaluation of a map initializer with key type `key` and value type
/// `elem`.
pub open spec fn spec_eval_map(defs: Seq<Def>, vals: Seq<NamedConstExpr>, key: Ty, elem: Ty) -> TypedOutcome
    decreases vals, 2nat,
{
    let eo = spec_eval_entries(defs, vals, key, elem);
    (
        match eo.0 {
            Some(s) => Some(ConstView::Mapping { key, value: elem, entries: s }),
            None => None,
        },
        eo.1,
        eo.2,
    )
}

/// Evaluation of the elements of an array (`in_array`) or sequence
/// initializer for element type `elem`, in order, stopping at the first
/// element that is named or fails.
pub open spec fn spec_eval_elems(
    defs: Seq<Def>,
    vals: Seq<NamedConstExpr>,
    elem: Ty,
    in_array: bool,
) -> ListOutcome<ConstView>
    decreases vals, 1nat,
{
    if vals.len() == 0 {
        (Some(Seq::empty()), Seq::empty(), Seq::empty())
    } else {
        let prev = spec_eval_elems(defs, vals.drop_last(), elem, in_array);
        match prev.0 {
            None => prev,
            Some(done) => {
                let v = vals.last();
                if v.ident is Some {
                    (None, prev.1.push(spec_named_elem_diag(in_array, spec_expr_span(v.value))), prev.2)
                } else {
                    let eo = spec_eval_for_type(defs, v.value, elem);
                    (
                        match eo.0 {
                            Some(x) => Some(done.push(x)),
                            None => None,
                        },
                        prev.1 + eo.1,
                        prev.2 + eo.2,
                    )
                }
            },
        }
    }
}

/// Evaluation of one entry `{key, value}` of a map initializer.
pub open spec fn spec_eval_entry(
    defs: Seq<Def>,
    v: NamedConstExpr,
    key: Ty,
    elem: Ty,
) -> (Option<(ConstView, ConstView)>, Seq<DiagView>, Seq<DiagView>)
    decreases v, 0nat,
{
    let at = spec_expr_span(v.value);
    if v.ident is Some {
        (None, seq![spec_named_entry_diag(at)], Seq::empty())
    } else {
        match v.value {
            ConstExpr::InitList(pair) => if pair.values.len() != 2 {
                (None, seq![spec_entry_len_diag(at)], Seq::empty())
            } else if pair.values@[0].ident is Some || pair.values@[1].ident is Some {
                (None, seq![spec_named_pair_diag(at)], Seq::empty())
            } else {
                let ko = spec_eval_for_type(defs, pair.values@[0].value, key);
                match ko.0 {
                    None => (None, ko.1, ko.2),
                    Some(k) => {
                        let vo = spec_eval_for_type(defs, pair.values@[1].value, elem);
                        (
                            match vo.0 {
                                Some(x) => Some((k, x)),
                                None => None,
                            },
                            ko.1 + vo.1,
                            ko.2 + vo.2,
                        )
                    },
                }
            },
            _ => (None, seq![spec_entry_not_list_diag(at)], Seq::empty()),
        }
    }
}

/// Evaluation of the entries of a map initializer, in order, stopping at
/// the first entry that is malformed or fails.
pub open spec fn spec_eval_entries(
    defs: Seq<Def>,
    vals: Seq<NamedConstExpr>,
    key: Ty,
    elem: Ty,
) -> ListOutcome<(ConstView, ConstView)>
    decreases vals, 1nat,
{
    if vals.len() == 0 {
        (Some(Seq::empty()), Seq::empty(), Seq::empty())
    } else {
        let prev = spec_eval_entries(defs, vals.drop_last(), key, elem);
        match prev.0 {
            None => prev,
            Some(done) => {
                let eo = spec_eval_entry(defs, vals.last(), key, elem);
                (
                    match eo.0 {
                        Some(p) => Some(done.push(p)),
                        None => None,
                    },
                    prev.1 + eo.1,
                    prev.2 + eo.2,
                )
            },
        }
    }
}

/// Evaluation of an initializer list, written at `span`, for struct `id`
/// named `sname` with members `members`: by member name when some element
/// is named, else by position.
pub open spec fn spec_eval_struct(
    defs: Seq<Def>,
    vals: Seq<NamedConstExpr>,
    id: DefId,
    sname: Seq<char>,
    members: Seq<Member>,
    span: Span,
) -> TypedOutcome
    decreases vals, 2nat,
{
    if vals.len() == 0 {
        (None, seq![spec_empty_struct_diag(span)], Seq::empty())
    } else if spec_any_named(vals) {
        let n = spec_eval_named(defs, vals, members, sname);
        let f = spec_collect_fields(members, vals, n.0, sname, span);
        (Some(ConstView::Struct { ty: id, fields: f.0 }), n.1 + f.1, n.2)
    } else if vals.len() != members.len() {
        (None, seq![spec_field_count_diag(sname, members.len(), vals.len(), span)], Seq::empty())
    } else {
        let p = spec_eval_positional(defs, vals, members);
        (
            match p.0 {
                Some(f) => Some(ConstView::Struct { ty: id, fields: f }),
                None => None,
            },
            p.1,
            p.2,
        )
    }
}

/// Evaluation of the elements of a named struct initializer, in order:
/// each element named after a member is evaluated for that member's type;
/// the others are reported and yield nothing.
pub open spec fn spec_eval_named(
    defs: Seq<Def>,
    vals: Seq<NamedConstExpr>,
    members: Seq<Member>,
    sname: Seq<char>,
) -> (Seq<Option<ConstView>>, Seq<DiagView>, Seq<DiagView>)
    decreases vals, 1nat,
{
    if vals.len() == 0 {
        (Seq::empty(), Seq::empty(), Seq::empty())
    } else {
        let prev = spec_eval_named(defs, vals.drop_last(), members, sname);
        let v = vals.last();
        match v.ident {
            None => (prev.0.push(None), prev.1.push(spec_mixed_init_diag(spec_expr_span(v.value))), prev.2),
            Some(fid) => match spec_field_ty(members, fid.name@) {
                None => (prev.0.push(None), prev.1.push(spec_unknown_field_diag(sname, fid.name@, fid.span)), prev.2),
                Some(t) => {
                    let eo = spec_eval_for_type(defs, v.value, t);
                    (prev.0.push(eo.0), prev.1 + eo.1, prev.2 + eo.2)
                },
            },
        }
    }
}

/// Evaluation of the elements of a positional struct initializer, each
/// for the type of the member at its position; every element is
/// evaluated, and the struct has a value only if all succeed.
pub open spec fn spec_eval_positional(
    defs: Seq<Def>,
    vals: Seq<NamedConstExpr>,
    members: Seq<Member>,
) -> ListOutcome<ConstView>
    decreases vals, 1nat,
{
    if vals.len() == 0 {
        (Some(Seq::empty()), Seq::empty(), Seq::empty())
    } else {
        let prev = spec_eval_positional(defs, vals.drop_last(), members);
        let eo = spec_eval_for_type(defs, vals.last().value, members[vals.len() - 1].ty);
        (
            match (prev.0, eo.0) {
                (Some(f), Some(x)) => Some(f.push(x)),
                _ => None,
            },
            prev.1 + eo.1,
            prev.2 + eo.2,
        )
    }
}


/// What evaluating for a type needs, for every part that evaluation
/// reaches: expressions and types as [`spec_value_for_type_ok`] asks, named
/// types that resolve, and struct types that exist.
pub open spec fn spec_for_type_ok(defs: Seq<Def>, e: ConstExpr, ty: Ty) -> bool
    decreases e, 4nat,
{
    match e {
        ConstExpr::InitList(l) => spec_init_list_ok(defs, l.values@, ty),
        _ => spec_value_for_type_ok(defs, e, ty),
    }
}

/// What evaluating an initializer list for `ty` needs.
pub open spec fn spec_init_list_ok(defs: Seq<Def>, vals: Seq<NamedConstExpr>, ty: Ty) -> bool
    decreases vals, 3nat,
{
    (ty.kind matches TyKind::Adt(id) ==> spec_resolves(defs, id)) && match spec_init_target(defs, ty).kind {
        TyKind::Any => spec_elems_ok(defs, vals, ty, false),
        TyKind::Adt(id) => id < defs.len() && match defs[id as int].kind {
            DefKind::Struct(st) => spec_struct_ok(defs, vals, st.members@),
            _ => true,
        },
        TyKind::Array { ty: et, len, .. } => vals.len() != len || spec_elems_ok(defs, vals, *et, true),
        TyKind::Sequence { ty: et, .. } => spec_elems_ok(defs, vals, *et, false),
        TyKind::Mapping { key, elem, .. } => spec_entries_ok(defs, vals, *key, *elem),
        _ => true,
    }
}

/// What evaluating the elements of an array or sequence initializer needs.
pub open spec fn spec_elems_ok(defs: Seq<Def>, vals: Seq<NamedConstExpr>, elem: Ty, in_array: bool) -> bool
    decreases vals, 1nat,
{
    vals.len() == 0 || (spec_elems_ok(defs, vals.drop_last(), elem, in_array) && (
    spec_eval_elems(defs, vals.drop_last(), elem, in_array).0 is Some && vals.last().ident is None
        ==> spec_for_type_ok(defs, vals.last().value, elem)))
}

/// What evaluating one entry of a map initializer needs.
pub open spec fn spec_entry_ok(defs: Seq<Def>, v: NamedConstExpr, key: Ty, elem: Ty) -> bool
    decreases v, 0nat,
{
    v.ident is None ==> match v.value {
        ConstExpr::InitList(pair) => pair.values.len() == 2 && pair.values@[0].ident is None
            && pair.values@[1].ident is None ==> spec_for_type_ok(defs, pair.values@[0].value, key) && (
        spec_eval_for_type(defs, pair.values@[0].value, key).0 is Some ==> spec_for_type_ok(
            defs,
            pair.values@[1].value,
            elem,
        )),
        _ => true,
    }
}

/// What evaluating the entries of a map initializer needs.
pub open spec fn spec_entries_ok(defs: Seq<Def>, vals: Seq<NamedConstExpr>, key: Ty, elem: Ty) -> bool
    decreases vals, 1nat,
{
    vals.len() == 0 || (spec_entries_ok(defs, vals.drop_last(), key, elem) && (spec_eval_entries(
        defs,
        vals.drop_last(),
        key,
        elem,
    ).0 is Some ==> spec_entry_ok(defs, vals.last(), key, elem)))
}

/// What evaluating a struct initializer needs.
pub open spec fn spec_struct_ok(defs: Seq<Def>, vals: Seq<NamedConstExpr>, members: Seq<Member>) -> bool
    decreases vals, 2nat,
{
    vals.len() == 0 || if spec_any_named(vals) {
        spec_named_ok(defs, vals, members)
    } else {
        vals.len() != members.len() || spec_positional_ok(defs, vals, members)
    }
}

/// What evaluating the elements of a named struct initializer needs.
pub open spec fn spec_named_ok(defs: Seq<Def>, vals: Seq<NamedConstExpr>, members: Seq<Member>) -> bool
    decreases vals, 1nat,
{
    vals.len() == 0 || (spec_named_ok(defs, vals.drop_last(), members) && match vals.last().ident {
        Some(fid) => match spec_field_ty(members, fid.name@) {
            Some(t) => spec_for_type_ok(defs, vals.last().value, t),
            None => true,
        },
        None => true,
    })
}

/// What evaluating the elements of a positional struct initializer needs.
pub open spec fn spec_positional_ok(defs: Seq<Def>, vals: Seq<NamedConstExpr>, members: Seq<Member>) -> bool
    decreases vals, 1nat,
{
    vals.len() == 0 || (spec_positional_ok(defs, vals.drop_last(), members) && spec_for_type_ok(
        defs,
        vals.last().value,
        members[vals.len() - 1].ty,
    ))
}


proof fn lemma_elems_ok_prefix(defs: Seq<Def>, vals: Seq<NamedConstExpr>, elem: Ty, in_array: bool, j: int)
    requires
        spec_elems_ok(defs, vals, elem, in_array),
        0 <= j <= vals.len(),
    ensures
        spec_elems_ok(defs, vals.subrange(0, j), elem, in_array),
    decreases vals.len(),
{
    if j == vals.len() {
        assert(vals.subrange(0, j) =~= vals);
    } else {
        lemma_elems_ok_prefix(defs, vals.drop_last(), elem, in_array, j);
        assert(vals.drop_last().subrange(0, j) =~= vals.subrange(0, j));
    }
}

proof fn lemma_elems_stop(defs: Seq<Def>, vals: Seq<NamedConstExpr>, elem: Ty, in_array: bool, j: int)
    requires
        0 <= j <= vals.len(),
        spec_eval_elems(defs, vals.subrange(0, j), elem, in_array).0 is None,
    ensures
        spec_eval_elems(defs, vals, elem, in_array) == spec_eval_elems(defs, vals.subrange(0, j), elem, in_array),
    decreases vals.len(),
{
    if j == vals.len() {
        assert(vals.subrange(0, j) =~= vals);
    } else {
        assert(vals.drop_last().subrange(0, j) =~= vals.subrange(0, j));
        lemma_elems_stop(defs, vals.drop_last(), elem, in_array, j);
    }
}

proof fn lemma_entries_ok_prefix(defs: Seq<Def>, vals: Seq<NamedConstExpr>, key: Ty, elem: Ty, j: int)
    requires
        spec_entries_ok(defs, vals, key, elem),
        0 <= j <= vals.len(),
    ensures
        spec_entries_ok(defs, vals.subrange(0, j), key, elem),
    decreases vals.len(),
{
    if j == vals.len() {
        assert(vals.subrange(0, j) =~= vals);
    } else {
        lemma_entries_ok_prefix(defs, vals.drop_last(), key, elem, j);
        assert(vals.drop_last().subrange(0, j) =~= vals.subrange(0, j));
    }
}

proof fn lemma_entries_stop(defs: Seq<Def>, vals: Seq<NamedConstExpr>, key: Ty, elem: Ty, j: int)
    requires
        0 <= j <= vals.len(),
        spec_eval_entries(defs, vals.subrange(0, j), key, elem).0 is None,
    ensures
        spec_eval_entries(defs, vals, key, elem) == spec_eval_entries(defs, vals.subrange(0, j), key, elem),
    decreases vals.len(),
{
    if j == vals.len() {
        assert(vals.subrange(0, j) =~= vals);
    } else {
        assert(vals.drop_last().subrange(0, j) =~= vals.subrange(0, j));
        lemma_entries_stop(defs, vals.drop_last(), key, elem, j);
    }
}

proof fn lemma_named_ok_prefix(defs: Seq<Def>, vals: Seq<NamedConstExpr>, members: Seq<Member>, j: int)
    requires
        spec_named_ok(defs, vals, members),
        0 <= j <= vals.len(),
    ensures
        spec_named_ok(defs, vals.subrange(0, j), members),
    decreases vals.len(),
{
    if j == vals.len() {
        assert(vals.subrange(0, j) =~= vals);
    } else {
        lemma_named_ok_prefix(defs, vals.drop_last(), members, j);
        assert(vals.drop_last().subrange(0, j) =~= vals.subrange(0, j));
    }
}

proof fn lemma_positional_ok_prefix(defs: Seq<Def>, vals: Seq<NamedConstExpr>, members: Seq<Member>, j: int)
    requires
        spec_positional_ok(defs, vals, members),
        0 <= j <= vals.len(),
    ensures
        spec_positional_ok(defs, vals.subrange(0, j), members),
    decreases vals.len(),
{
    if j == vals.len() {
        assert(vals.subrange(0, j) =~= vals);
    } else {
        lemma_positional_ok_prefix(defs, vals.drop_last(), members, j);
        assert(vals.drop_last().subrange(0, j) =~= vals.subrange(0, j));
    }
}

/// Two records of evaluations that agree on the elements named `name`
/// give the same last value of that name.
proof fn lemma_last_value_agree(
    vals: Seq<NamedConstExpr>,
    e1: Seq<Option<ConstView>>,
    e2: Seq<Option<ConstView>>,
    name: Seq<char>,
    j: int,
)
    requires
        j <= vals.len(),
        forall|k: int|
            0 <= k < j && (vals[k].ident matches Some(fid) && fid.name@ == name) ==> e1[k] == e2[k],
    ensures
        spec_last_value_before(vals, e1, name, j) == spec_last_value_before(vals, e2, name, j),
    decreases j,
{
    if j > 0 {
        lemma_last_value_agree(vals, e1, e2, name, j - 1);
    }
}


/// Whether no two members share a name.
pub open spec fn spec_distinct_names(members: Seq<Member>) -> bool {
    forall|i: int, j: int|
        0 <= i < j < members.len() ==> (#[trigger] members[i]).ident.name@ != (#[trigger] members[j]).ident.name@
}

/// Whether `named` names each member once, in member order, with the
/// values that `pos` lists by position.
pub open spec fn spec_named_in_order(named: Seq<NamedConstExpr>, pos: Seq<NamedConstExpr>, members: Seq<Member>) -> bool {
    &&& named.len() == members.len()
    &&& pos.len() == members.len()
    &&& forall|i: int|
        0 <= i < members.len() ==> ((#[trigger] named[i]).ident matches Some(f) && f.name@ == members[i].ident.name@)
            && pos[i].ident is None && pos[i].value == named[i].value
}

proof fn lemma_field_ty_of_member(members: Seq<Member>, i: int)
    requires
        spec_distinct_names(members),
        0 <= i < members.len(),
    ensures
        spec_field_ty(members, members[i].ident.name@) == Some(members[i].ty),
    decreases members.len(),
{
    if i < members.len() - 1 {
        assert(members.last() == members[members.len() - 1]);
        assert(members.drop_last()[i] == members[i]);
        assert(spec_distinct_names(members.drop_last())) by {
            assert forall|a: int, b: int| 0 <= a < b < members.drop_last().len() implies (
            #[trigger] members.drop_last()[a]).ident.name@ != (#[trigger] members.drop_last()[b]).ident.name@ by {
                assert(members.drop_last()[a] == members[a]);
                assert(members.drop_last()[b] == members[b]);
            }
        }
        lemma_field_ty_of_member(members.drop_last(), i);
    }
}

proof fn lemma_field_ty_absent(members: Seq<Member>, k: int, name: Seq<char>)
    requires
        0 <= k <= members.len(),
        forall|i: int| 0 <= i < k ==> (#[trigger] members[i]).ident.name@ != name,
    ensures
        spec_field_ty(members.subrange(0, k), name) is None,
    decreases k,
{
    if k > 0 {
        assert(members.subrange(0, k).drop_last() =~= members.subrange(0, k - 1));
        assert(members.subrange(0, k).last() == members[k - 1]);
        lemma_field_ty_absent(members, k - 1, name);
    }
}

/// The named elements evaluate as the positional ones do, element by
/// element, with the same diagnostics, while the positional ones succeed.
proof fn lemma_named_prefix(
    defs: Seq<Def>,
    named: Seq<NamedConstExpr>,
    pos: Seq<NamedConstExpr>,
    members: Seq<Member>,
    sname: Seq<char>,
    k: int,
)
    requires
        spec_named_in_order(named, pos, members),
        spec_distinct_names(members),
        0 <= k <= members.len(),
        spec_eval_positional(defs, pos.subrange(0, k), members).0 is Some,
    ensures
        ({
            let no = spec_eval_named(defs, named.subrange(0, k), members, sname);
            let po = spec_eval_positional(defs, pos.subrange(0, k), members);
            &&& no.1 == po.1
            &&& no.2 == po.2
            &&& no.0.len() == k
            &&& po.0.unwrap().len() == k
            &&& forall|i: int| 0 <= i < k ==> no.0[i] == Some(#[trigger] po.0.unwrap()[i])
        }),
    decreases k,
{
    if k > 0 {
        let ns = named.subrange(0, k);
        let ps = pos.subrange(0, k);
        assert(ns.drop_last() =~= named.subrange(0, k - 1));
        assert(ps.drop_last() =~= pos.subrange(0, k - 1));
        assert(ns.last() == named[k - 1]);
        assert(ps.last() == pos[k - 1]);
        lemma_named_prefix(defs, named, pos, members, sname, k - 1);
        lemma_field_ty_of_member(members, k - 1);
        let f = named[k - 1].ident->Some_0;
        assert(f.name@ == members[k - 1].ident.name@);
    } else {
        assert(named.subrange(0, 0) =~= Seq::<NamedConstExpr>::empty());
        assert(pos.subrange(0, 0) =~= Seq::<NamedConstExpr>::empty());
    }
}

proof fn lemma_last_value_is_own(
    named: Seq<NamedConstExpr>,
    evals: Seq<Option<ConstView>>,
    members: Seq<Member>,
    i: int,
    j: int,
)
    requires
        spec_distinct_names(members),
        named.len() == members.len(),
        evals.len() == members.len(),
        forall|a: int|
            0 <= a < members.len() ==> ((#[trigger] named[a]).ident matches Some(f) && f.name@
                == members[a].ident.name@),
        0 <= i < members.len(),
        i < j <= members.len(),
        evals[i] is Some,
    ensures
        spec_last_value_before(named, evals, members[i].ident.name@, j) == evals[i],
    decreases j,
{
    let name = members[i].ident.name@;
    if j - 1 > i {
        let f = named[j - 1].ident->Some_0;
        assert(f.name@ == members[j - 1].ident.name@);
        assert(members[i].ident.name@ != members[j - 1].ident.name@);
        lemma_last_value_is_own(named, evals, members, i, j - 1);
    } else {
        let f = named[i].ident->Some_0;
        assert(f.name@ == name);
    }
}

proof fn lemma_collect_in_order(
    named: Seq<NamedConstExpr>,
    evals: Seq<Option<ConstView>>,
    values: Seq<ConstView>,
    members: Seq<Member>,
    sname: Seq<char>,
    span: Span,
    k: int,
)
    requires
        spec_distinct_names(members),
        named.len() == members.len(),
        evals.len() == members.len(),
        values.len() == members.len(),
        forall|a: int|
            0 <= a < members.len() ==> ((#[trigger] named[a]).ident matches Some(f) && f.name@
                == members[a].ident.name@),
        forall|a: int| 0 <= a < members.len() ==> evals[a] == Some(#[trigger] values[a]),
        0 <= k <= members.len(),
    ensures
        spec_collect_fields(members.subrange(0, k), named, evals, sname, span) == (
            values.subrange(0, k),
            Seq::<DiagView>::empty(),
        ),
    decreases k,
{
    if k > 0 {
        let ms = members.subrange(0, k);
        assert(ms.drop_last() =~= members.subrange(0, k - 1));
        assert(ms.last() == members[k - 1]);
        lemma_collect_in_order(named, evals, values, members, sname, span, k - 1);
        assert forall|i: int| 0 <= i < k - 1 implies (#[trigger] members[i]).ident.name@ != members[k
            - 1].ident.name@ by {}
        lemma_field_ty_absent(members, k - 1, members[k - 1].ident.name@);
        assert(evals[k - 1] == Some(values[k - 1]));
        lemma_last_value_is_own(named, evals, members, k - 1, named.len() as int);
        assert(values.subrange(0, k) =~= values.subrange(0, k - 1).push(values[k - 1]));
    } else {
        assert(members.subrange(0, 0) =~= Seq::<Member>::empty());
        assert(values.subrange(0, 0) =~= Seq::<ConstView>::empty());
    }
}

/// Naming every member once, in member order, gives a struct initializer
/// the outcome of listing the same values by position, when member names
/// are distinct and every value evaluates.
pub proof fn lemma_named_in_order_is_positional(
    defs: Seq<Def>,
    named: Seq<NamedConstExpr>,
    pos: Seq<NamedConstExpr>,
    id: DefId,
    sname: Seq<char>,
    members: Seq<Member>,
    span: Span,
)
    requires
        members.len() > 0,
        spec_distinct_names(members),
        spec_named_in_order(named, pos, members),
        spec_eval_positional(defs, pos, members).0 is Some,
    ensures
        spec_eval_struct(defs, named, id, sname, members, span) == spec_eval_struct(defs, pos, id, sname, members, span),
{
    let n = members.len() as int;
    assert(named[0].ident is Some);
    assert(spec_any_named(named));
    assert(!spec_any_named(pos)) by {
        if spec_any_named(pos) {
            let i = choose|i: int| 0 <= i < pos.len() && (#[trigger] pos[i]).ident is Some;
            assert(named[i].ident is Some);
        }
    }
    assert(named.subrange(0, n) =~= named);
    assert(pos.subrange(0, n) =~= pos);
    lemma_named_prefix(defs, named, pos, members, sname, n);
    let no = spec_eval_named(defs, named, members, sname);
    let po = spec_eval_positional(defs, pos, members);
    let values = po.0.unwrap();
    assert forall|a: int| 0 <= a < members.len() implies no.0[a] == Some(#[trigger] values[a]) by {}
    lemma_collect_in_order(named, no.0, values, members, sname, span, n);
    assert(members.subrange(0, n) =~= members);
    assert(values.subrange(0, n) =~= values);
    assert(no.1 + Seq::<DiagView>::empty() =~= no.1);
}

/// Whether some element of an initializer list is named.
fn any_named(values: &Vec<NamedConstExpr>) -> (r: bool)
    ensures
        r == spec_any_named(values@),
{
    let mut i: usize = 0;
    while i < values.len()
        invariant
            i <= values@.len(),
            forall|k: int| 0 <= k < i ==> (#[trigger] values@[k]).ident is None,
        decreases values@.len() - i,
    {
        if values[i].ident.is_some() {
            assert(values@[i as int].ident is Some);
            return true;
        }
        i += 1;
    }
    false
}

/// The index of the last of the first `upto` members named `name`.
fn field_index(members: &Vec<Member>, name: &str, upto: usize) -> (r: Option<usize>)
    requires
        upto <= members@.len(),
    ensures
        match r {
            Some(k) => k < upto && members@[k as int].ident.name@ == name@ && spec_field_ty(
                members@.subrange(0, upto as int),
                name@,
            ) == Some(members@[k as int].ty),
            None => spec_field_ty(members@.subrange(0, upto as int), name@) is None,
        },
{
    let mut k: usize = upto;
    while k > 0
        invariant
            k <= upto <= members@.len(),
            spec_field_ty(members@.subrange(0, upto as int), name@) == spec_field_ty(
                members@.subrange(0, k as int),
                name@,
            ),
        decreases k,
    {
        assert(members@.subrange(0, k as int).drop_last() =~= members@.subrange(0, k - 1));
        assert(members@.subrange(0, k as int).last() == members@[k - 1]);
        if str_eq(members[k - 1].ident.name.as_str(), name) {
            return Some(k - 1);
        }
        k -= 1;
    }
    None
}

/// The index of the last element named `name` whose evaluation, recorded
/// in `evals`, succeeded.
fn last_valued(values: &Vec<NamedConstExpr>, evals: &Vec<Option<Numeric>>, name: &str) -> (r: Option<usize>)
    requires
        evals@.len() == values@.len(),
    ensures
        match r {
            Some(k) => k < values@.len() && evals@[k as int] is Some && (values@[k as int].ident matches Some(fid)
                && fid.name@ == name@) && spec_last_value_before(
                values@,
                spec_opt_views(evals@),
                name@,
                values@.len() as int,
            ) == spec_opt_view(evals@[k as int]),
            None => spec_last_value_before(values@, spec_opt_views(evals@), name@, values@.len() as int) is None,
        },
{
    let ghost ev = spec_opt_views(evals@);
    let mut j: usize = values.len();
    while j > 0
        invariant
            j <= values@.len(),
            evals@.len() == values@.len(),
            ev == spec_opt_views(evals@),
            spec_last_value_before(values@, ev, name@, values@.len() as int) == spec_last_value_before(
                values@,
                ev,
                name@,
                j as int,
            ),
        decreases j,
    {
        let k = j - 1;
        assert(ev[k as int] == spec_opt_view(evals@[k as int]));
        let hit = match &values[k].ident {
            Some(fid) => str_eq(fid.name.as_str(), name),
            None => false,
        };
        if hit && evals[k].is_some() {
            return Some(k);
        }
        j = k;
    }
    None
}

/// The members' values of a named struct initializer, in member order,
/// taken from the evaluations `evals` of its elements; members left
/// without value are reported.
fn collect_fields(
    diagnostics: &mut Diagnostics,
    values: &Vec<NamedConstExpr>,
    evals: Vec<Option<Numeric>>,
    members: &Vec<Member>,
    sname: &str,
    span: Span,
) -> (r: Vec<Numeric>)
    requires
        evals@.len() == values@.len(),
    ensures
        ({
            let o = spec_collect_fields(members@, values@, spec_opt_views(evals@), sname@, span);
            spec_const_views(r@) == o.0 && spec_gained(*old(diagnostics), *final(diagnostics), o.1, Seq::empty())
        }),
{
    let ghost orig = spec_opt_views(evals@);
    let ghost d0 = *diagnostics;
    let mut evals = evals;
    let mut fields: Vec<Numeric> = Vec::new();
    let mut i: usize = 0;
    proof {
        lemma_gained_none(d0);
        assert(members@.subrange(0, 0) =~= Seq::<Member>::empty());
    }
    while i < members.len()
        invariant
            i <= members@.len(),
            evals@.len() == values@.len(),
            orig.len() == values@.len(),
            forall|j: int|
                0 <= j < values@.len() && (values@[j].ident matches Some(fid) && spec_field_ty(
                    members@.subrange(0, i as int),
                    fid.name@,
                ) is None) ==> spec_opt_view(#[trigger] evals@[j]) == orig[j],
            spec_const_views(fields@) == spec_collect_fields(
                members@.subrange(0, i as int),
                values@,
                orig,
                sname@,
                span,
            ).0,
            spec_gained(
                d0,
                *diagnostics,
                spec_collect_fields(members@.subrange(0, i as int), values@, orig, sname@, span).1,
                Seq::empty(),
            ),
        decreases members@.len() - i,
    {
        let ghost sub = members@.subrange(0, i as int);
        let ghost next = members@.subrange(0, i + 1);
        let ghost po = spec_collect_fields(sub, values@, orig, sname@, span);
        let ghost ev0 = evals@;
        let ghost dprev = *diagnostics;
        proof {
            assert(next.drop_last() =~= sub);
            assert(next.last() == members@[i as int]);
        }
        let fname = members[i].ident.name.as_str();
        let mut taken: Option<Numeric> = None;
        let first = field_index(members, fname, i).is_none();
        if first {
            proof {
                assert forall|k: int|
                    0 <= k < values@.len() && (values@[k].ident matches Some(fid) && fid.name@ == fname@) implies
                    spec_opt_views(evals@)[k] == orig[k] by {
                    assert(spec_opt_views(evals@)[k] == spec_opt_view(evals@[k]));
                }
                lemma_last_value_agree(values@, spec_opt_views(evals@), orig, fname@, values@.len() as int);
            }
            match last_valued(values, &evals, fname) {
                Some(k) => {
                    taken = evals.remove(k);
                    evals.insert(k, None);
                    proof {
                        assert(evals@ =~= ev0.update(k as int, None));
                    }
                },
                None => {},
            }
        }
        proof {
            assert forall|j: int|
                0 <= j < values@.len() && (values@[j].ident matches Some(fid) && spec_field_ty(next, fid.name@) is None)
                    implies spec_opt_view(#[trigger] evals@[j]) == orig[j] by {
                let fid = values@[j].ident->Some_0;
                assert(spec_field_ty(sub, fid.name@) is None);
                assert(fid.name@ != fname@);
            }
        }
        match taken {
            Some(x) => {
                let ghost before = fields@;
                fields.push(x);
                proof {
                    lemma_const_views_push(before, x);
                }
            },
            None => {
                let mut msg = owned("missing initializer for field `");
                msg.append(fname);
                msg.append("` in struct `");
                msg.append(sname);
                msg.append("`");
                diagnostics.push_error(diag(Severity::Error, msg, span, owned("incomplete initialization")));
                proof {
                    let d = spec_missing_field_diag(fname@, sname@, span);
                    assert(spec_diag_views(diagnostics.errors@) =~= spec_diag_views(d0.errors@) + po.1.push(d));
                }
            },
        }
        i += 1;
    }
    proof {
        assert(members@.subrange(0, i as int) =~= members@);
    }
    fields
}


/// Evaluate the elements of a named struct initializer, each for the type
/// of the member it names.
fn eval_named(
    diagnostics: &mut Diagnostics,
    ctx: &Context,
    values: &Vec<NamedConstExpr>,
    members: &Vec<Member>,
    sname: &str,
) -> (r: Vec<Option<Numeric>>)
    requires
        spec_named_ok(ctx.definitions@, values@, members@),
    ensures
        r@.len() == values@.len(),
        ({
            let o = spec_eval_named(ctx.definitions@, values@, members@, sname@);
            spec_opt_views(r@) == o.0 && spec_gained(*old(diagnostics), *final(diagnostics), o.1, o.2)
        }),
    decreases values@, 1nat,
{
    let ghost defs = ctx.definitions@;
    let ghost d0 = *diagnostics;
    let mut evals: Vec<Option<Numeric>> = Vec::new();
    let mut i: usize = 0;
    proof {
        lemma_gained_none(d0);
        assert(values@.subrange(0, 0) =~= Seq::<NamedConstExpr>::empty());
        assert(spec_opt_views(evals@) =~= Seq::<Option<ConstView>>::empty());
        assert(members@.subrange(0, members@.len() as int) =~= members@);
    }
    while i < values.len()
        invariant
            i <= values@.len(),
            defs == ctx.definitions@,
            spec_named_ok(defs, values@, members@),
            members@.subrange(0, members@.len() as int) == members@,
            evals@.len() == i,
            spec_opt_views(evals@) == spec_eval_named(defs, values@.subrange(0, i as int), members@, sname@).0,
            spec_gained(
                d0,
                *diagnostics,
                spec_eval_named(defs, values@.subrange(0, i as int), members@, sname@).1,
                spec_eval_named(defs, values@.subrange(0, i as int), members@, sname@).2,
            ),
        decreases values@.len() - i,
    {
        let ghost pre = values@.subrange(0, i as int);
        let ghost cur = values@.subrange(0, i + 1);
        let ghost po = spec_eval_named(defs, pre, members@, sname@);
        let ghost before = evals@;
        let ghost dprev = *diagnostics;
        proof {
            assert(cur.drop_last() =~= pre);
            assert(cur.last() == values@[i as int]);
            lemma_named_ok_prefix(defs, values@, members@, i + 1);
        }
        let v = &values[i];
        match &v.ident {
            None => {
                diagnostics.push_error(
                    diag(
                        Severity::Error,
                        owned("mixing named and positional initialization is not allowed"),
                        v.value.span(),
                        owned("expected named field"),
                    ),
                );
                evals.push(None);
                proof {
                    let d = spec_mixed_init_diag(spec_expr_span(v.value));
                    assert(spec_diag_views(diagnostics.errors@) =~= spec_diag_views(d0.errors@) + po.1.push(d));
                    assert(spec_opt_views(evals@) =~= po.0.push(None));
                }
            },
            Some(fid) => {
                match field_index(members, fid.name.as_str(), members.len()) {
                    None => {
                        let mut msg = owned("struct `");
                        msg.append(sname);
                        msg.append("` has no field named `");
                        msg.append(fid.name.as_str());
                        msg.append("`");
                        diagnostics.push_error(diag(Severity::Error, msg, fid.span, owned("unknown field")));
                        evals.push(None);
                        proof {
                            let d = spec_unknown_field_diag(sname@, fid.name@, fid.span);
                            assert(spec_diag_views(diagnostics.errors@) =~= spec_diag_views(d0.errors@) + po.1.push(d));
                            assert(spec_opt_views(evals@) =~= po.0.push(None));
                        }
                    },
                    Some(k) => {
                        proof {
                            assert(decreases_to!(values@ => values@[i as int].value));
                        }
                        let r = eval_for_type(diagnostics, ctx, &v.value, &members[k].ty);
                        evals.push(r);
                        proof {
                            let eo = spec_eval_for_type(defs, v.value, members@[k as int].ty);
                            lemma_gained_trans(d0, dprev, *diagnostics, po.1, po.2, eo.1, eo.2);
                            assert(spec_opt_views(evals@) =~= po.0.push(eo.0));
                        }
                    },
                }
            },
        }
        i += 1;
    }
    proof {
        assert(values@.subrange(0, i as int) =~= values@);
    }
    evals
}

/// Evaluate the elements of a positional struct initializer, each for the
/// type of the member at its position.
fn eval_positional(
    diagnostics: &mut Diagnostics,
    ctx: &Context,
    values: &Vec<NamedConstExpr>,
    members: &Vec<Member>,
) -> (r: Option<Vec<Numeric>>)
    requires
        values@.len() == members@.len(),
        spec_positional_ok(ctx.definitions@, values@, members@),
    ensures
        ({
            let o = spec_eval_positional(ctx.definitions@, values@, members@);
            (match r {
                Some(f) => o.0 == Some(spec_const_views(f@)),
                None => o.0 is None,
            }) && spec_gained(*old(diagnostics), *final(diagnostics), o.1, o.2)
        }),
    decreases values@, 1nat,
{
    let ghost defs = ctx.definitions@;
    let ghost d0 = *diagnostics;
    let mut fields: Vec<Numeric> = Vec::new();
    let mut failed = false;
    let mut i: usize = 0;
    proof {
        lemma_gained_none(d0);
        assert(values@.subrange(0, 0) =~= Seq::<NamedConstExpr>::empty());
    }
    while i < values.len()
        invariant
            i <= values@.len(),
            values@.len() == members@.len(),
            defs == ctx.definitions@,
            spec_positional_ok(defs, values@, members@),
            match spec_eval_positional(defs, values@.subrange(0, i as int), members@).0 {
                Some(f) => !failed && spec_const_views(fields@) == f,
                None => failed,
            },
            spec_gained(
                d0,
                *diagnostics,
                spec_eval_positional(defs, values@.subrange(0, i as int), members@).1,
                spec_eval_positional(defs, values@.subrange(0, i as int), members@).2,
            ),
        decreases values@.len() - i,
    {
        let ghost pre = values@.subrange(0, i as int);
        let ghost cur = values@.subrange(0, i + 1);
        let ghost po = spec_eval_positional(defs, pre, members@);
        let ghost dprev = *diagnostics;
        proof {
            assert(cur.drop_last() =~= pre);
            assert(cur.last() == values@[i as int]);
            lemma_positional_ok_prefix(defs, values@, members@, i + 1);
            assert(decreases_to!(values@ => values@[i as int].value));
        }
        let r = eval_for_type(diagnostics, ctx, &values[i].value, &members[i].ty);
        proof {
            let eo = spec_eval_for_type(defs, values@[i as int].value, members@[i as int].ty);
            lemma_gained_trans(d0, dprev, *diagnostics, po.1, po.2, eo.1, eo.2);
        }
        match r {
            Some(x) => {
                if !failed {
                    let ghost before = fields@;
                    fields.push(x);
                    proof {
                        lemma_const_views_push(before, x);
                    }
                }
            },
            None => {
                failed = true;
            },
        }
        i += 1;
    }
    proof {
        assert(values@.subrange(0, i as int) =~= values@);
    }
    if failed {
        None
    } else {
        Some(fields)
    }
}

/// Evaluate the elements of an array (`in_array`) or sequence initializer
/// for element type `elem`, stopping at the first that is named or fails.
fn eval_elems(
    diagnostics: &mut Diagnostics,
    ctx: &Context,
    values: &Vec<NamedConstExpr>,
    elem: &Ty,
    in_array: bool,
) -> (r: Option<Vec<Numeric>>)
    requires
        spec_elems_ok(ctx.definitions@, values@, *elem, in_array),
    ensures
        ({
            let o = spec_eval_elems(ctx.definitions@, values@, *elem, in_array);
            (match r {
                Some(v) => o.0 == Some(spec_const_views(v@)),
                None => o.0 is None,
            }) && spec_gained(*old(diagnostics), *final(diagnostics), o.1, o.2)
        }),
    decreases values@, 1nat,
{
    let ghost defs = ctx.definitions@;
    let ghost d0 = *diagnostics;
    let mut out: Vec<Numeric> = Vec::new();
    let mut i: usize = 0;
    proof {
        lemma_gained_none(d0);
        assert(values@.subrange(0, 0) =~= Seq::<NamedConstExpr>::empty());
    }
    while i < values.len()
        invariant
            i <= values@.len(),
            *old(diagnostics) == d0,
            defs == ctx.definitions@,
            spec_elems_ok(defs, values@, *elem, in_array),
            spec_eval_elems(defs, values@.subrange(0, i as int), *elem, in_array).0 == Some(spec_const_views(out@)),
            spec_gained(
                d0,
                *diagnostics,
                spec_eval_elems(defs, values@.subrange(0, i as int), *elem, in_array).1,
                spec_eval_elems(defs, values@.subrange(0, i as int), *elem, in_array).2,
            ),
        decreases values@.len() - i,
    {
        let ghost pre = values@.subrange(0, i as int);
        let ghost cur = values@.subrange(0, i + 1);
        let ghost po = spec_eval_elems(defs, pre, *elem, in_array);
        let ghost dprev = *diagnostics;
        proof {
            assert(cur.drop_last() =~= pre);
            assert(cur.last() == values@[i as int]);
            lemma_elems_ok_prefix(defs, values@, *elem, in_array, i + 1);
        }
        let v = &values[i];
        if v.ident.is_some() {
            let msg = if in_array {
                owned("array elements cannot have names")
            } else {
                owned("sequence elements cannot have names")
            };
            diagnostics.push_error(diag(Severity::Error, msg, v.value.span(), owned("unexpected named element")));
            proof {
                let d = spec_named_elem_diag(in_array, spec_expr_span(v.value));
                assert(spec_diag_views(diagnostics.errors@) =~= spec_diag_views(d0.errors@) + po.1.push(d));
                assert(spec_eval_elems(defs, cur, *elem, in_array) == (None::<Seq<ConstView>>, po.1.push(d), po.2));
                lemma_elems_stop(defs, values@, *elem, in_array, i + 1);

            }
            return None;
        }
        proof {
            assert(decreases_to!(values@ => values@[i as int].value));
        }
        match eval_for_type(diagnostics, ctx, &v.value, elem) {
            Some(x) => {
                let ghost before = out@;
                out.push(x);
                proof {
                    let eo = spec_eval_for_type(defs, v.value, *elem);
                    lemma_gained_trans(d0, dprev, *diagnostics, po.1, po.2, eo.1, eo.2);
                    lemma_const_views_push(before, x);
                }
            },
            None => {
                proof {
                    let eo = spec_eval_for_type(defs, v.value, *elem);
                    lemma_gained_trans(d0, dprev, *diagnostics, po.1, po.2, eo.1, eo.2);
                    assert(spec_eval_elems(defs, cur, *elem, in_array) == (None::<Seq<ConstView>>, po.1 + eo.1, po.2 + eo.2));
                    lemma_elems_stop(defs, values@, *elem, in_array, i + 1);
                }
                return None;
            },
        }
        i += 1;
    }
    proof {
        assert(values@.subrange(0, i as int) =~= values@);
    }
    Some(out)
}


/// Evaluate one entry `{key, value}` of a map initializer.
fn eval_entry(diagnostics: &mut Diagnostics, ctx: &Context, v: &NamedConstExpr, key: &Ty, elem: &Ty) -> (r: Option<
    (Numeric, Numeric),
>)
    requires
        spec_entry_ok(ctx.definitions@, *v, *key, *elem),
    ensures
        ({
            let o = spec_eval_entry(ctx.definitions@, *v, *key, *elem);
            (match r {
                Some(p) => o.0 == Some((spec_const_view(p.0), spec_const_view(p.1))),
                None => o.0 is None,
            }) && spec_gained(*old(diagnostics), *final(diagnostics), o.1, o.2)
        }),
    decreases v, 0nat,
{
    let ghost defs = ctx.definitions@;
    let ghost d0 = *diagnostics;
    let at = v.value.span();
    if v.ident.is_some() {
        diagnostics.push_error(
            diag(Severity::Error, owned("map entries cannot have names"), at, owned("unexpected named element")),
        );
        proof {
            lemma_gained_error(d0, *diagnostics, spec_named_entry_diag(at));
        }
        return None;
    }
    match &v.value {
        ConstExpr::InitList(pair) => {
            if pair.values.len() != 2 {
                diagnostics.push_error(
                    diag(
                        Severity::Error,
                        owned("map entry must have exactly 2 elements (key and value)"),
                        at,
                        owned("expected {key, value}"),
                    ),
                );
                proof {
                    lemma_gained_error(d0, *diagnostics, spec_entry_len_diag(at));
                }
                return None;
            }
            if pair.values[0].ident.is_some() || pair.values[1].ident.is_some() {
                diagnostics.push_error(
                    diag(
                        Severity::Error,
                        owned("map key and value cannot have names"),
                        at,
                        owned("unexpected named elements"),
                    ),
                );
                proof {
                    lemma_gained_error(d0, *diagnostics, spec_named_pair_diag(at));
                }
                return None;
            }
            proof {
                assert(decreases_to!(*v => pair.values@[0].value));
                assert(decreases_to!(*v => pair.values@[1].value));
            }
            let k = match eval_for_type(diagnostics, ctx, &pair.values[0].value, key) {
                Some(k) => k,
                None => {
                    return None;
                },
            };
            let ghost dmid = *diagnostics;
            let ghost ko = spec_eval_for_type(defs, pair.values@[0].value, *key);
            let x = match eval_for_type(diagnostics, ctx, &pair.values[1].value, elem) {
                Some(x) => x,
                None => {
                    proof {
                        let vo = spec_eval_for_type(defs, pair.values@[1].value, *elem);
                        lemma_gained_trans(d0, dmid, *diagnostics, ko.1, ko.2, vo.1, vo.2);
                    }
                    return None;
                },
            };
            proof {
                let vo = spec_eval_for_type(defs, pair.values@[1].value, *elem);
                lemma_gained_trans(d0, dmid, *diagnostics, ko.1, ko.2, vo.1, vo.2);
            }
            Some((k, x))
        },
        _ => {
            diagnostics.push_error(
                diag(
                    Severity::Error,
                    owned("map entry must be an initializer list {key, value}"),
                    at,
                    owned("expected initializer list"),
                ),
            );
            proof {
                lemma_gained_error(d0, *diagnostics, spec_entry_not_list_diag(at));
            }
            None
        },
    }
}

/// Evaluate the entries of a map initializer, stopping at the first that
/// is malformed or fails.
fn eval_entries(
    diagnostics: &mut Diagnostics,
    ctx: &Context,
    values: &Vec<NamedConstExpr>,
    key: &Ty,
    elem: &Ty,
) -> (r: Option<Vec<(Numeric, Numeric)>>)
    requires
        spec_entries_ok(ctx.definitions@, values@, *key, *elem),
    ensures
        ({
            let o = spec_eval_entries(ctx.definitions@, values@, *key, *elem);
            (match r {
                Some(v) => o.0 == Some(spec_entry_views(v@)),
                None => o.0 is None,
            }) && spec_gained(*old(diagnostics), *final(diagnostics), o.1, o.2)
        }),
    decreases values@, 1nat,
{
    let ghost defs = ctx.definitions@;
    let ghost d0 = *diagnostics;
    let mut out: Vec<(Numeric, Numeric)> = Vec::new();
    let mut i: usize = 0;
    proof {
        lemma_gained_none(d0);
        assert(values@.subrange(0, 0) =~= Seq::<NamedConstExpr>::empty());
    }
    while i < values.len()
        invariant
            i <= values@.len(),
            *old(diagnostics) == d0,
            defs == ctx.definitions@,
            spec_entries_ok(defs, values@, *key, *elem),
            spec_eval_entries(defs, values@.subrange(0, i as int), *key, *elem).0 == Some(spec_entry_views(out@)),
            spec_gained(
                d0,
                *diagnostics,
                spec_eval_entries(defs, values@.subrange(0, i as int), *key, *elem).1,
                spec_eval_entries(defs, values@.subrange(0, i as int), *key, *elem).2,
            ),
        decreases values@.len() - i,
    {
        let ghost pre = values@.subrange(0, i as int);
        let ghost cur = values@.subrange(0, i + 1);
        let ghost po = spec_eval_entries(defs, pre, *key, *elem);
        let ghost eo = spec_eval_entry(defs, values@[i as int], *key, *elem);
        let ghost dprev = *diagnostics;
        proof {
            assert(cur.drop_last() =~= pre);
            assert(cur.last() == values@[i as int]);
            lemma_entries_ok_prefix(defs, values@, *key, *elem, i + 1);
            assert(decreases_to!(values@ => values@[i as int]));
        }
        let r = eval_entry(diagnostics, ctx, &values[i], key, elem);
        proof {
            lemma_gained_trans(d0, dprev, *diagnostics, po.1, po.2, eo.1, eo.2);
        }
        match r {
            Some(p) => {
                let ghost before = out@;
                out.push(p);
                proof {
                    lemma_entry_views_push(before, p);
                }
            },
            None => {
                proof {
                    assert(spec_eval_entries(defs, cur, *key, *elem) == (
                        None::<Seq<(ConstView, ConstView)>>,
                        po.1 + eo.1,
                        po.2 + eo.2,
                    ));
                    lemma_entries_stop(defs, values@, *key, *elem, i + 1);
                }
                return None;
            },
        }
        i += 1;
    }
    proof {
        assert(values@.subrange(0, i as int) =~= values@);
    }
    Some(out)
}

/// Evaluation of an initializer list for struct `id`: as
/// [`spec_eval_struct`] when `id` is a struct, else nothing.
pub open spec fn spec_struct_init(defs: Seq<Def>, l: InitList, id: DefId) -> TypedOutcome {
    match defs[id as int].kind {
        DefKind::Struct(st) => spec_eval_struct(defs, l.values@, id, defs[id as int].ident.name@, st.members@, l.span),
        _ => (None, Seq::empty(), Seq::empty()),
    }
}

/// What evaluating an initializer list for struct `id` needs.
pub open spec fn spec_struct_init_ok(defs: Seq<Def>, l: InitList, id: DefId) -> bool {
    id < defs.len() && match defs[id as int].kind {
        DefKind::Struct(st) => spec_struct_ok(defs, l.values@, st.members@),
        _ => true,
    }
}

/// Evaluates an initializer list for struct `struct_def_id`: by member
/// name when some element is named, else by position.
pub fn eval_struct(
    diagnostics: &mut Diagnostics,
    ctx: &Context,
    init_list: &InitList,
    struct_def_id: DefId,
) -> (r: Option<Numeric>)
    requires
        spec_struct_init_ok(ctx.definitions@, *init_list, struct_def_id),
    ensures
        ({
            let o = spec_struct_init(ctx.definitions@, *init_list, struct_def_id);
            spec_opt_view(r) == o.0 && spec_gained(*old(diagnostics), *final(diagnostics), o.1, o.2)
        }),
    decreases init_list.values@, 2nat,
{
    let ghost defs = ctx.definitions@;
    let ghost d0 = *diagnostics;
    let def = ctx.type_of(struct_def_id);
    let st = match &def.kind {
        DefKind::Struct(st) => st,
        _ => {
            proof {
                lemma_gained_none(d0);
            }
            return None;
        },
    };
    let sname = def.ident.name.as_str();
    let members = &st.members;
    let values = &init_list.values;
    let span = init_list.span;
    if values.len() == 0 {
        diagnostics.push_error(
            diag(Severity::Error, owned("struct initializer cannot be empty"), span, owned("expected field values")),
        );
        proof {
            lemma_gained_error(d0, *diagnostics, spec_empty_struct_diag(span));
        }
        return None;
    }
    if any_named(values) {
        let evals = eval_named(diagnostics, ctx, values, members, sname);
        let ghost n = spec_eval_named(defs, values@, members@, sname@);
        let ghost dmid = *diagnostics;
        let fields = collect_fields(diagnostics, values, evals, members, sname, span);
        proof {
            let f = spec_collect_fields(members@, values@, n.0, sname@, span);
            lemma_gained_trans(d0, dmid, *diagnostics, n.1, n.2, f.1, Seq::empty());
            assert(n.2 + Seq::<DiagView>::empty() =~= n.2);
        }
        Some(Numeric::Struct { ty: struct_def_id, fields })
    } else {
        if values.len() != members.len() {
            let mut msg = owned("struct `");
            msg.append(sname);
            msg.append("` expects ");
            msg.append(decimal_u64(members.len() as u64).as_str());
            msg.append(" fields, but ");
            msg.append(decimal_u64(values.len() as u64).as_str());
            msg.append(" were provided");
            diagnostics.push_error(diag(Severity::Error, msg, span, owned("incorrect number of fields")));
            proof {
                lemma_gained_error(
                    d0,
                    *diagnostics,
                    spec_field_count_diag(sname@, members@.len(), values@.len(), span),
                );
            }
            return None;
        }
        match eval_positional(diagnostics, ctx, values, members) {
            Some(fields) => Some(Numeric::Struct { ty: struct_def_id, fields }),
            None => None,
        }
    }
}

/// Evaluates an array initializer with element type `elem_ty` and length
/// `expected_len`.
pub fn eval_array(
    diagnostics: &mut Diagnostics,
    ctx: &Context,
    init_list: &InitList,
    elem_ty: &Ty,
    expected_len: usize,
) -> (r: Option<Numeric>)
    requires
        init_list.values@.len() != expected_len || spec_elems_ok(ctx.definitions@, init_list.values@, *elem_ty, true),
    ensures
        ({
            let o = spec_eval_array(ctx.definitions@, init_list.values@, *elem_ty, expected_len, init_list.span);
            spec_opt_view(r) == o.0 && spec_gained(*old(diagnostics), *final(diagnostics), o.1, o.2)
        }),
    decreases init_list.values@, 2nat,
{
    let ghost d0 = *diagnostics;
    if init_list.values.len() != expected_len {
        let mut msg = owned("array expects ");
        msg.append(decimal_u64(expected_len as u64).as_str());
        msg.append(" elements, but ");
        msg.append(decimal_u64(init_list.values.len() as u64).as_str());
        msg.append(" were provided");
        diagnostics.push_error(diag(Severity::Error, msg, init_list.span, owned("incorrect number of elements")));
        proof {
            lemma_gained_error(
                d0,
                *diagnostics,
                spec_array_len_diag(expected_len as nat, init_list.values@.len(), init_list.span),
            );
        }
        return None;
    }
    match eval_elems(diagnostics, ctx, &init_list.values, elem_ty, true) {
        Some(values) => Some(Numeric::Array { ty: clone_ty(elem_ty), values }),
        None => None,
    }
}

/// Evaluates a sequence initializer with element type `elem_ty`.
pub fn eval_sequence(diagnostics: &mut Diagnostics, ctx: &Context, init_list: &InitList, elem_ty: &Ty) -> (r: Option<
    Numeric,
>)
    requires
        spec_elems_ok(ctx.definitions@, init_list.values@, *elem_ty, false),
    ensures
        ({
            let o = spec_eval_sequence(ctx.definitions@, init_list.values@, *elem_ty);
            spec_opt_view(r) == o.0 && spec_gained(*old(diagnostics), *final(diagnostics), o.1, o.2)
        }),
    decreases init_list.values@, 2nat,
{
    match eval_elems(diagnostics, ctx, &init_list.values, elem_ty, false) {
        Some(values) => Some(Numeric::Sequence { ty: clone_ty(elem_ty), values }),
        None => None,
    }
}

/// Evaluates a map initializer with key type `key_ty` and value type
/// `elem_ty`; each element is a pair `{key, value}`.
pub fn eval_map(
    diagnostics: &mut Diagnostics,
    ctx: &Context,
    init_list: &InitList,
    key_ty: &Ty,
    elem_ty: &Ty,
) -> (r: Option<Numeric>)
    requires
        spec_entries_ok(ctx.definitions@, init_list.values@, *key_ty, *elem_ty),
    ensures
        ({
            let o = spec_eval_map(ctx.definitions@, init_list.values@, *key_ty, *elem_ty);
            spec_opt_view(r) == o.0 && spec_gained(*old(diagnostics), *final(diagnostics), o.1, o.2)
        }),
    decreases init_list.values@, 2nat,
{
    match eval_entries(diagnostics, ctx, &init_list.values, key_ty, elem_ty) {
        Some(entries) => Some(Numeric::Mapping { key: clone_ty(key_ty), value: clone_ty(elem_ty), entries }),
        None => None,
    }
}

/// Evaluate an initializer list for the expected type.
fn eval_initializer_list(diagnostics: &mut Diagnostics, ctx: &Context, init_list: &InitList, expected_ty: &Ty) -> (r:
    Option<Numeric>)
    requires
        spec_init_list_ok(ctx.definitions@, init_list.values@, *expected_ty),
    ensures
        ({
            let o = spec_eval_init_list(ctx.definitions@, init_list.values@, *expected_ty, init_list.span);
            spec_opt_view(r) == o.0 && spec_gained(*old(diagnostics), *final(diagnostics), o.1, o.2)
        }),
    decreases init_list.values@, 3nat,
{
    let ghost d0 = *diagnostics;
    let resolved = match &expected_ty.kind {
        TyKind::Adt(id) => ctx.base_type_of(*id),
        _ => clone_ty(expected_ty),
    };
    assert(resolved == spec_init_target(ctx.definitions@, *expected_ty));
    match &resolved.kind {
        TyKind::Any => {
            return eval_sequence(diagnostics, ctx, init_list, expected_ty);
        },
        TyKind::Adt(id) => {
            let def = ctx.type_of(*id);
            match &def.kind {
                DefKind::Struct(_) => {
                    return eval_struct(diagnostics, ctx, init_list, *id);
                },
                DefKind::Decl(_) => {
                    let mut msg = owned("cannot initialize forward-declared type '");
                    msg.append(def.ident.name.as_str());
                    msg.append("' in constant expression");
                    diagnostics.push_error(diag(Severity::Error, msg, init_list.span, owned("incomplete type")));
                    proof {
                        lemma_gained_error(
                            d0,
                            *diagnostics,
                            spec_forward_init_diag(def.ident.name@, init_list.span),
                        );
                    }
                    return None;
                },
                _ => {},
            }
        },
        TyKind::Array { ty, len, .. } => {
            return eval_array(diagnostics, ctx, init_list, ty, *len);
        },
        TyKind::Sequence { ty, .. } => {
            return eval_sequence(diagnostics, ctx, init_list, ty);
        },
        TyKind::Mapping { key, elem, .. } => {
            return eval_map(diagnostics, ctx, init_list, key, elem);
        },
        _ => {},
    }
    diagnostics.push_error(
        diag(
            Severity::Error,
            owned("initializer lists can only be used to initialize structs, arrays, sequences, or maps"),
            init_list.span,
            owned("invalid use of initializer list"),
        ),
    );
    proof {
        lemma_gained_error(d0, *diagnostics, spec_invalid_init_diag(init_list.span));
    }
    None
}

/// Evaluate an expression expecting a given target type (for constants
/// declared with a type).
pub fn eval_for_type(diagnostics: &mut Diagnostics, ctx: &Context, expr: &ConstExpr, expected_ty: &Ty) -> (r: Option<
    Numeric,
>)
    requires
        spec_for_type_ok(ctx.definitions@, *expr, *expected_ty),
    ensures
        spec_opt_view(r) == spec_eval_for_type(ctx.definitions@, *expr, *expected_ty).0,
        spec_gained(
            *old(diagnostics),
            *final(diagnostics),
            spec_eval_for_type(ctx.definitions@, *expr, *expected_ty).1,
            spec_eval_for_type(ctx.definitions@, *expr, *expected_ty).2,
        ),
    decreases expr, 4nat,
{
    if let ConstExpr::InitList(l) = expr {
        return eval_initializer_list(diagnostics, ctx, l, expected_ty);
    }
    eval_value_for_type(diagnostics, ctx, expr, expected_ty)
}


/// Evaluation without a target type that keeps references to named
/// constants: a path to a constant stays a reference, and an initializer
/// list yields no value yet (`Null`).
pub open spec fn spec_eval_keeping_refs(defs: Seq<Def>, e: ConstExpr) -> ConvertOutcome {
    match e {
        ConstExpr::InitList(_) => (Some(Numeric::Null), Seq::empty(), Seq::empty()),
        _ => {
            let keeps_ref = match e {
                ConstExpr::Path { target: Some(id), .. } => defs[id as int].kind is Const,
                _ => false,
            };
            if keeps_ref {
                (Some(Numeric::Const(e->Path_target->Some_0)), Seq::empty(), Seq::empty())
            } else {
                let vo = spec_eval_expr(defs, e);
                match vo.0 {
                    Some(v) => (spec_numeric_from_value(v), vo.1, vo.2),
                    None => (None, vo.1, vo.2),
                }
            }
        },
    }
}

/// Evaluation that keeps references to named constants: with a target
/// type as [`spec_eval_for_type`], else as [`spec_eval_keeping_refs`].
pub open spec fn spec_eval_preserving(defs: Seq<Def>, e: ConstExpr, ty: Option<Ty>) -> TypedOutcome {
    match ty {
        Some(t) => spec_eval_for_type(defs, e, t),
        None => {
            let o = spec_eval_keeping_refs(defs, e);
            (spec_opt_view(o.0), o.1, o.2)
        },
    }
}

/// What evaluation preserving references needs.
pub open spec fn spec_preserving_ok(defs: Seq<Def>, e: ConstExpr, ty: Option<Ty>) -> bool {
    match ty {
        Some(t) => spec_for_type_ok(defs, e, t),
        None => spec_expr_ok(defs, e),
    }
}

/// Evaluate without a target type, keeping references to constants.
fn eval_keeping_refs(diagnostics: &mut Diagnostics, ctx: &Context, expr: &ConstExpr) -> (r: Option<Numeric>)
    requires
        spec_expr_ok(ctx.definitions@, *expr),
    ensures
        r == spec_eval_keeping_refs(ctx.definitions@, *expr).0,
        spec_gained(
            *old(diagnostics),
            *final(diagnostics),
            spec_eval_keeping_refs(ctx.definitions@, *expr).1,
            spec_eval_keeping_refs(ctx.definitions@, *expr).2,
        ),
{
    match expr {
        ConstExpr::InitList(_) => {
            proof {
                lemma_gained_none(*diagnostics);
            }
            Some(Numeric::Null)
        },
        ConstExpr::Path { target, .. } => {
            if let Some(def_id) = target {
                let def = ctx.type_of(*def_id);
                if let DefKind::Const(_) = &def.kind {
                    proof {
                        lemma_gained_none(*diagnostics);
                    }
                    return Some(Numeric::Const(*def_id));
                }
            }
            match eval_value(diagnostics, ctx, expr) {
                Some(v) => numeric_from_value(&v),
                None => None,
            }
        },
        _ => {
            match eval_value(diagnostics, ctx, expr) {
                Some(v) => numeric_from_value(&v),
                None => None,
            }
        },
    }
}

/// Evaluate an expression while preserving references to constants; with
/// an expected type the value is checked against it.
pub fn eval_preserving_const_refs(diagnostics: &mut Diagnostics, ctx: &Context, expr: &ConstExpr, expected_ty: Option<&Ty>) -> (r: Option<Numeric>)
    requires
        spec_preserving_ok(ctx.definitions@, *expr, match expected_ty { Some(t) => Some(*t), None => None }),
    ensures
        ({
            let o = spec_eval_preserving(ctx.definitions@, *expr, match expected_ty { Some(t) => Some(*t), None => None });
            spec_opt_view(r) == o.0 && spec_gained(*old(diagnostics), *final(diagnostics), o.1, o.2)
        }),
{
    match expected_ty {
        Some(ty) => eval_for_type(diagnostics, ctx, expr, ty),
        None => eval_keeping_refs(diagnostics, ctx, expr),
    }
}

/// Evaluate an annotation argument, keeping references to constants.
pub fn eval_annotation_arg(diagnostics: &mut Diagnostics, ctx: &Context, expr: &ConstExpr) -> (r: Option<Numeric>)
    requires
        spec_expr_ok(ctx.definitions@, *expr),
    ensures
        r == spec_eval_keeping_refs(ctx.definitions@, *expr).0,
        spec_gained(
            *old(diagnostics),
            *final(diagnostics),
            spec_eval_keeping_refs(ctx.definitions@, *expr).1,
            spec_eval_keeping_refs(ctx.definitions@, *expr).2,
        ),
{
    eval_keeping_refs(diagnostics, ctx, expr)
}

/// Evaluate a union case label against the discriminator type.
pub fn eval_union_case_label(diagnostics: &mut Diagnostics, ctx: &Context, expr: &ConstExpr, disc_ty: &Ty) -> (r: Option<Numeric>)
    requires
        spec_for_type_ok(ctx.definitions@, *expr, *disc_ty),
    ensures
        spec_opt_view(r) == spec_eval_for_type(ctx.definitions@, *expr, *disc_ty).0,
        spec_gained(
            *old(diagnostics),
            *final(diagnostics),
            spec_eval_for_type(ctx.definitions@, *expr, *disc_ty).1,
            spec_eval_for_type(ctx.definitions@, *expr, *disc_ty).2,
        ),
{
    eval_preserving_const_refs(diagnostics, ctx, expr, Some(disc_ty))
}

} // verus!
