//! Evaluation of constant expressions: literals, named constants, unary and
//! binary operators and grouping, with the diagnostics they report.

use vstd::prelude::*;
use crate::ctx::Context;
use crate::diag::{DiagView, Diagnostics, Severity, diag, spec_diag, spec_diag_views, spec_with_note};
use crate::hir::{Def, DefId, DefKind, Ident, Numeric, Span};
use crate::text::owned;
use super::cast::{numeric_from_value, spec_is_float_numeric, spec_numeric_from_value, spec_value_from_numeric, value_from_numeric};
use super::evaluator::{
    ContextualEvalError, check_string_operands_value, handle_binary_result_value, report_eval_error,
    resolve_const_value, spec_const_resolves, spec_eval_error_diag, spec_resolve_const, spec_string_operand_diag,
};
use super::ops::{eval_bin, eval_unary, op_from_ast, spec_eval_bin, spec_eval_unary, spec_op_from_ast};
use super::value::{EvalError, Op, OpKind, Value};

verus! {

/// A constant expression as the evaluator reads it. A path carries the
/// definition it resolved to, if any, and its text for messages.
#[derive(Debug)]
pub enum ConstExpr {
    Literal { value: Numeric, span: Span },
    Path { target: Option<DefId>, text: String, span: Span },
    Binary { op: OpKind, lhs: Box<ConstExpr>, rhs: Box<ConstExpr>, span: Span },
    Unary { op: OpKind, expr: Box<ConstExpr>, span: Span },
    Group { expr: Box<ConstExpr>, span: Span },
    InitList(InitList),
}

/// An initializer list `{ ... }`.
#[derive(Debug)]
pub struct InitList {
    pub values: Vec<NamedConstExpr>,
    pub span: Span,
}

/// An element of an initializer list, with the member name it sets when it
/// is written `.name = value`.
#[derive(Debug)]
pub struct NamedConstExpr {
    pub ident: Option<Ident>,
    pub value: ConstExpr,
}

/// Where an expression was written.
pub open spec fn spec_expr_span(e: ConstExpr) -> Span {
    match e {
        ConstExpr::Literal { span, .. } => span,
        ConstExpr::Path { span, .. } => span,
        ConstExpr::Binary { span, .. } => span,
        ConstExpr::Unary { span, .. } => span,
        ConstExpr::Group { span, .. } => span,
        ConstExpr::InitList(l) => l.span,
    }
}

impl ConstExpr {
    /// Where the expression was written.
    pub fn span(&self) -> (s: Span)
        ensures
            s == spec_expr_span(*self),
    {
        match self {
            ConstExpr::Literal { span, .. } => *span,
            ConstExpr::Path { span, .. } => *span,
            ConstExpr::Binary { span, .. } => *span,
            ConstExpr::Unary { span, .. } => *span,
            ConstExpr::Group { span, .. } => *span,
            ConstExpr::InitList(l) => l.span,
        }
    }
}

/// The error for a name that resolves to nothing.
pub open spec fn spec_undefined_const_diag(text: Seq<char>, span: Span) -> DiagView {
    spec_with_note(
        spec_diag(Severity::Error, "undefined constant or enum value `"@ + text + "`"@, span, "evaluation error"@),
        "check that the name is spelled correctly"@,
    )
}

/// The error for a name that resolves to something other than a constant.
pub open spec fn spec_not_const_diag(text: Seq<char>, span: Span) -> DiagView {
    spec_diag(
        Severity::Error,
        "`"@ + text + "` is not a constant value"@,
        span,
        "expected constant, enumerator, or flag"@,
    )
}

/// The error for an operator that has no binary form.
pub open spec fn spec_unsupported_op_diag(span: Span) -> DiagView {
    spec_diag(
        Severity::Error,
        "unsupported binary operation in constant expression"@,
        span,
        "unsupported operation"@,
    )
}

/// The error for an initializer list inside arithmetic.
pub open spec fn spec_init_list_diag(span: Span) -> DiagView {
    spec_diag(
        Severity::Error,
        "initializer lists cannot be used in arithmetic expressions"@,
        span,
        "not allowed in arithmetic context"@,
    )
}

/// What evaluation yields: the value, if any, and the errors and the
/// warnings it reported, in order.
pub type EvalOutcome = (Option<Value>, Seq<DiagView>, Seq<DiagView>);

/// The outcome of reporting evaluation error `err` at `span`.
pub open spec fn spec_error_outcome(err: EvalError, span: Span) -> EvalOutcome {
    let d = spec_eval_error_diag(err, span, "type mismatch in constant expression"@);
    match err {
        EvalError::SignedOverflow(w) => (Some(w), Seq::empty(), seq![d]),
        _ => (None, seq![d], Seq::empty()),
    }
}

/// An outcome preceded by the diagnostics of earlier steps.
pub open spec fn spec_after(errs: Seq<DiagView>, warns: Seq<DiagView>, o: EvalOutcome) -> EvalOutcome {
    (o.0, errs + o.1, warns + o.2)
}

/// The value of a named constant: resolving a path.
pub open spec fn spec_eval_path(defs: Seq<Def>, target: Option<DefId>, text: Seq<char>, span: Span) -> EvalOutcome {
    match target {
        None => (None, seq![spec_undefined_const_diag(text, span)], Seq::empty()),
        Some(id) => match defs[id as int].kind {
            DefKind::Const(c) => match spec_value_from_numeric(c.value) {
                Some(v) => (spec_resolve_const(defs, v), Seq::empty(), Seq::empty()),
                None => (None, Seq::empty(), Seq::empty()),
            },
            _ => (None, seq![spec_not_const_diag(text, span)], Seq::empty()),
        },
    }
}

/// Whether resolving a path stays within what the evaluator handles: the
/// definition exists, a constant's value is no floating-point literal and
/// its chain of references ends.
pub open spec fn spec_path_ok(defs: Seq<Def>, target: Option<DefId>) -> bool {
    match target {
        None => true,
        Some(id) => id < defs.len() && match defs[id as int].kind {
            DefKind::Const(c) => !spec_is_float_numeric(c.value) && match spec_value_from_numeric(c.value) {
                Some(v) => spec_const_resolves(defs, v),
                None => true,
            },
            _ => true,
        },
    }
}

/// The span a failed binary operation is reported at: the right operand for
/// division, modulo and shifts, else the whole expression.
pub open spec fn spec_op_span(op: Op, rhs_span: Span, span: Span) -> Span {
    if op is Div || op is Mod || op is Shl || op is Shr {
        rhs_span
    } else {
        span
    }
}

/// The span a binary operation's evaluation error is reported at.
pub open spec fn spec_bin_error_span(err: EvalError, op_span: Span, span: Span) -> Span {
    if err is DivByZero || err is ModByZero || err is ShiftOutOfRange {
        op_span
    } else {
        span
    }
}

/// Evaluation of a constant expression.
pub open spec fn spec_eval_expr(defs: Seq<Def>, e: ConstExpr) -> EvalOutcome
    decreases e,
{
    match e {
        ConstExpr::Literal { value, .. } => (spec_value_from_numeric(value), Seq::empty(), Seq::empty()),
        ConstExpr::Path { target, text, span } => spec_eval_path(defs, target, text@, span),
        ConstExpr::Binary { op, lhs, rhs, span } => match spec_op_from_ast(op) {
            None => (None, seq![spec_unsupported_op_diag(span)], Seq::empty()),
            Some(o) => {
                let lo = spec_eval_expr(defs, *lhs);
                match lo.0 {
                    None => lo,
                    Some(l) => {
                        let ro = spec_after(lo.1, lo.2, spec_eval_expr(defs, *rhs));
                        match ro.0 {
                            None => ro,
                            Some(r) => if l is String || r is String {
                                (
                                    None,
                                    ro.1.push(
                                        spec_string_operand_diag(
                                            if l is String { spec_expr_span(*lhs) } else { spec_expr_span(*rhs) },
                                        ),
                                    ),
                                    ro.2,
                                )
                            } else {
                                match spec_eval_bin(o, l, r) {
                                    Ok(v) => (Some(v), ro.1, ro.2),
                                    Err(err) => spec_after(
                                        ro.1,
                                        ro.2,
                                        spec_error_outcome(
                                            err,
                                            spec_bin_error_span(err, spec_op_span(o, spec_expr_span(*rhs), span), span),
                                        ),
                                    ),
                                }
                            },
                        }
                    },
                }
            },
        },
        ConstExpr::Unary { op, expr, span } => {
            let io = spec_eval_expr(defs, *expr);
            match io.0 {
                None => io,
                Some(v) => match spec_eval_unary(op, v) {
                    Ok(w) => (Some(w), io.1, io.2),
                    Err(err) => spec_after(io.1, io.2, spec_error_outcome(err, span)),
                },
            }
        },
        ConstExpr::Group { expr, .. } => spec_eval_expr(defs, *expr),
        ConstExpr::InitList(l) => (None, seq![spec_init_list_diag(l.span)], Seq::empty()),
    }
}

/// Whether every part that evaluation reaches stays within what the
/// evaluator handles: no floating-point literal, and paths as in
/// [`spec_path_ok`].
pub open spec fn spec_expr_ok(defs: Seq<Def>, e: ConstExpr) -> bool
    decreases e,
{
    match e {
        ConstExpr::Literal { value, .. } => !spec_is_float_numeric(value),
        ConstExpr::Path { target, .. } => spec_path_ok(defs, target),
        ConstExpr::Binary { op, lhs, rhs, .. } => spec_op_from_ast(op) is None || (spec_expr_ok(defs, *lhs) && (
        spec_eval_expr(defs, *lhs).0 is None || spec_expr_ok(defs, *rhs))),
        ConstExpr::Unary { expr, .. } => spec_expr_ok(defs, *expr),
        ConstExpr::Group { expr, .. } => spec_expr_ok(defs, *expr),
        ConstExpr::InitList(_) => true,
    }
}

/// The diagnostics gained from `old` to `new` are the errors `errs` and
/// the warnings `warns`.
pub open spec fn spec_gained(old: Diagnostics, new: Diagnostics, errs: Seq<DiagView>, warns: Seq<DiagView>) -> bool {
    &&& spec_diag_views(new.errors@) == spec_diag_views(old.errors@) + errs
    &&& spec_diag_views(new.warnings@) == spec_diag_views(old.warnings@) + warns
}

/// Evaluate a path to a constant value.
pub fn eval_path_value(diagnostics: &mut Diagnostics, ctx: &Context, target: Option<DefId>, text: &str, span: Span) -> (r: Option<Value>)
    requires
        spec_path_ok(ctx.definitions@, target),
    ensures
        r == spec_eval_path(ctx.definitions@, target, text@, span).0,
        spec_gained(
            *old(diagnostics),
            *final(diagnostics),
            spec_eval_path(ctx.definitions@, target, text@, span).1,
            spec_eval_path(ctx.definitions@, target, text@, span).2,
        ),
{
    let ghost e0 = spec_diag_views(diagnostics.errors@);
    let ghost w0 = spec_diag_views(diagnostics.warnings@);
    let def_id = match target {
        Some(id) => id,
        None => {
            let mut msg = owned("undefined constant or enum value `");
            msg.append(text);
            msg.append("`");
            let d = diag(Severity::Error, msg, span, owned("evaluation error")).note(
                owned("check that the name is spelled correctly"),
            );
            diagnostics.push_error(d);
            assert(spec_diag_views(diagnostics.errors@) =~= e0 + seq![spec_undefined_const_diag(text@, span)]);
            assert(spec_diag_views(diagnostics.warnings@) =~= w0 + Seq::<DiagView>::empty());
            return None;
        },
    };
    let def = ctx.type_of(def_id);
    match &def.kind {
        DefKind::Const(c) => {
            assert(e0 =~= e0 + Seq::<DiagView>::empty());
            assert(w0 =~= w0 + Seq::<DiagView>::empty());
            match value_from_numeric(&c.value) {
                Some(v) => resolve_const_value(ctx, &v),
                None => None,
            }
        },
        _ => {
            let mut msg = owned("`");
            msg.append(text);
            msg.append("` is not a constant value");
            diagnostics.push_error(diag(Severity::Error, msg, span, owned("expected constant, enumerator, or flag")));
            assert(spec_diag_views(diagnostics.errors@) =~= e0 + seq![spec_not_const_diag(text@, span)]);
            assert(spec_diag_views(diagnostics.warnings@) =~= w0 + Seq::<DiagView>::empty());
            None
        },
    }
}

} // verus!

verus! {

pub(crate) proof fn lemma_gained_trans(
    a: Diagnostics,
    b: Diagnostics,
    c: Diagnostics,
    e1: Seq<DiagView>,
    w1: Seq<DiagView>,
    e2: Seq<DiagView>,
    w2: Seq<DiagView>,
)
    requires
        spec_gained(a, b, e1, w1),
        spec_gained(b, c, e2, w2),
    ensures
        spec_gained(a, c, e1 + e2, w1 + w2),
{
    assert(spec_diag_views(a.errors@) + e1 + e2 =~= spec_diag_views(a.errors@) + (e1 + e2));
    assert(spec_diag_views(a.warnings@) + w1 + w2 =~= spec_diag_views(a.warnings@) + (w1 + w2));
}

pub(crate) proof fn lemma_gained_none(a: Diagnostics)
    ensures
        spec_gained(a, a, Seq::empty(), Seq::empty()),
{
    assert(spec_diag_views(a.errors@) =~= spec_diag_views(a.errors@) + Seq::<DiagView>::empty());
    assert(spec_diag_views(a.warnings@) =~= spec_diag_views(a.warnings@) + Seq::<DiagView>::empty());
}

pub(crate) proof fn lemma_gained_error(a: Diagnostics, b: Diagnostics, d: DiagView)
    requires
        spec_diag_views(b.errors@) == spec_diag_views(a.errors@).push(d),
        b.warnings@ == a.warnings@,
    ensures
        spec_gained(a, b, seq![d], Seq::empty()),
{
    assert(spec_diag_views(b.errors@) =~= spec_diag_views(a.errors@) + seq![d]);
    assert(spec_diag_views(b.warnings@) =~= spec_diag_views(a.warnings@) + Seq::<DiagView>::empty());
}

proof fn lemma_reported_gained(a: Diagnostics, b: Diagnostics, r: Option<Value>, err: EvalError, span: Span)
    requires
        super::evaluator::spec_reported(
            a,
            b,
            r,
            err,
            spec_eval_error_diag(err, span, "type mismatch in constant expression"@),
        ),
    ensures
        r == spec_error_outcome(err, span).0,
        spec_gained(a, b, spec_error_outcome(err, span).1, spec_error_outcome(err, span).2),
{
    let d = spec_eval_error_diag(err, span, "type mismatch in constant expression"@);
    match err {
        EvalError::SignedOverflow(_) => {
            assert(spec_diag_views(b.errors@) =~= spec_diag_views(a.errors@) + Seq::<DiagView>::empty());
            assert(spec_diag_views(b.warnings@) =~= spec_diag_views(a.warnings@) + seq![d]);
        },
        _ => {
            lemma_gained_error(a, b, d);
        },
    }
}

/// Evaluate a constant expression to a value, reporting what goes wrong.
pub fn eval_value(diagnostics: &mut Diagnostics, ctx: &Context, expr: &ConstExpr) -> (r: Option<Value>)
    requires
        spec_expr_ok(ctx.definitions@, *expr),
    ensures
        r == spec_eval_expr(ctx.definitions@, *expr).0,
        spec_gained(
            *old(diagnostics),
            *final(diagnostics),
            spec_eval_expr(ctx.definitions@, *expr).1,
            spec_eval_expr(ctx.definitions@, *expr).2,
        ),
    decreases expr,
{
    let ghost defs = ctx.definitions@;
    let ghost d0 = *diagnostics;
    match expr {
        ConstExpr::Literal { value, .. } => {
            proof {
                lemma_gained_none(d0);
            }
            value_from_numeric(value)
        },
        ConstExpr::Path { target, text, span } => eval_path_value(diagnostics, ctx, *target, text.as_str(), *span),
        ConstExpr::Binary { op, lhs, rhs, span } => {
            let o = match op_from_ast(*op) {
                Some(o) => o,
                None => {
                    diagnostics.push_error(
                        diag(
                            Severity::Error,
                            owned("unsupported binary operation in constant expression"),
                            *span,
                            owned("unsupported operation"),
                        ),
                    );
                    proof {
                        lemma_gained_error(d0, *diagnostics, spec_unsupported_op_diag(*span));
                    }
                    return None;
                },
            };
            let l = match eval_value(diagnostics, ctx, lhs) {
                Some(l) => l,
                None => {
                    return None;
                },
            };
            let ghost d1 = *diagnostics;
            let ghost lo = spec_eval_expr(defs, **lhs);
            let r = match eval_value(diagnostics, ctx, rhs) {
                Some(r) => r,
                None => {
                    proof {
                        let ro = spec_eval_expr(defs, **rhs);
                        lemma_gained_trans(d0, d1, *diagnostics, lo.1, lo.2, ro.1, ro.2);
                    }
                    return None;
                },
            };
            let ghost d2 = *diagnostics;
            let ghost ro = spec_eval_expr(defs, **rhs);
            proof {
                lemma_gained_trans(d0, d1, d2, lo.1, lo.2, ro.1, ro.2);
            }
            let lhs_span = lhs.span();
            let rhs_span = rhs.span();
            if check_string_operands_value(diagnostics, &l, &r, lhs_span, rhs_span) {
                proof {
                    let d = spec_string_operand_diag(if l is String { lhs_span } else { rhs_span });
                    lemma_gained_error(d2, *diagnostics, d);
                    lemma_gained_trans(d0, d2, *diagnostics, lo.1 + ro.1, lo.2 + ro.2, seq![d], Seq::empty());
                    assert((lo.1 + ro.1) + seq![d] =~= (lo.1 + ro.1).push(d));
                    assert((lo.2 + ro.2) + Seq::<DiagView>::empty() =~= lo.2 + ro.2);
                }
                return None;
            }
            let op_span = match o {
                Op::Div | Op::Mod | Op::Shl | Op::Shr => rhs_span,
                _ => *span,
            };
            let res = eval_bin(o, l, r);
            let ghost res_g = res;
            let out = handle_binary_result_value(diagnostics, ctx, res, *span, op_span);
            proof {
                assert(op_span == spec_op_span(o, rhs_span, *span));
                match res_g {
                    Ok(_) => {
                        lemma_gained_none(d2);
                    },
                    Err(err) => {
                        lemma_reported_gained(d2, *diagnostics, out, err, spec_bin_error_span(err, op_span, *span));
                        lemma_gained_trans(
                            d0,
                            d2,
                            *diagnostics,
                            lo.1 + ro.1,
                            lo.2 + ro.2,
                            spec_error_outcome(err, spec_bin_error_span(err, op_span, *span)).1,
                            spec_error_outcome(err, spec_bin_error_span(err, op_span, *span)).2,
                        );
                    },
                }
            }
            out
        },
        ConstExpr::Unary { op, expr: inner, span } => {
            let v = match eval_value(diagnostics, ctx, inner) {
                Some(v) => v,
                None => {
                    return None;
                },
            };
            let ghost d1 = *diagnostics;
            let ghost io = spec_eval_expr(defs, **inner);
            match eval_unary(*op, v) {
                Ok(w) => Some(w),
                Err(err) => {
                    let out = report_eval_error(
                        diagnostics,
                        ctx,
                        ContextualEvalError { kind: err, span: *span, context: None },
                        None,
                    );
                    proof {
                        lemma_reported_gained(d1, *diagnostics, out, err, *span);
                        lemma_gained_trans(
                            d0,
                            d1,
                            *diagnostics,
                            io.1,
                            io.2,
                            spec_error_outcome(err, *span).1,
                            spec_error_outcome(err, *span).2,
                        );
                    }
                    out
                },
            }
        },
        ConstExpr::Group { expr: inner, .. } => eval_value(diagnostics, ctx, inner),
        ConstExpr::InitList(l) => {
            diagnostics.push_error(
                diag(
                    Severity::Error,
                    owned("initializer lists cannot be used in arithmetic expressions"),
                    l.span,
                    owned("not allowed in arithmetic context"),
                ),
            );
            proof {
                lemma_gained_error(d0, *diagnostics, spec_init_list_diag(l.span));
            }
            None
        },
    }
}

} // verus!

verus! {

/// The integer of an integer literal value.
pub open spec fn spec_int_literal(n: Numeric) -> Option<int> {
    match n {
        Numeric::Int8(v) => Some(v as int),
        Numeric::UInt8(v) => Some(v as int),
        Numeric::Int16(v) => Some(v as int),
        Numeric::UInt16(v) => Some(v as int),
        Numeric::Int32(v) => Some(v as int),
        Numeric::UInt32(v) => Some(v as int),
        Numeric::Int64(v) => Some(v as int),
        Numeric::UInt64(v) => Some(v as int),
        _ => None,
    }
}

/// The integer written directly: an integer literal, possibly in
/// parentheses and possibly negated once by a leading `-`.
pub open spec fn spec_direct_int_literal(e: ConstExpr) -> Option<int>
    decreases e,
{
    match e {
        ConstExpr::Literal { value, .. } => spec_int_literal(value),
        ConstExpr::Group { expr, .. } => spec_direct_int_literal(*expr),
        ConstExpr::Unary { op, expr, .. } => if op is Sub {
            match spec_direct_int_literal(*expr) {
                Some(v) => if v == i128::MIN { None } else { Some(-v) },
                None => None,
            }
        } else {
            None
        },
        _ => None,
    }
}

fn int_literal(n: &Numeric) -> (r: Option<i128>)
    ensures
        match spec_int_literal(*n) {
            Some(v) => r == Some(v as i128),
            None => r is None,
        },
{
    match n {
        Numeric::Int8(v) => Some(*v as i128),
        Numeric::UInt8(v) => Some(*v as i128),
        Numeric::Int16(v) => Some(*v as i128),
        Numeric::UInt16(v) => Some(*v as i128),
        Numeric::Int32(v) => Some(*v as i128),
        Numeric::UInt32(v) => Some(*v as i128),
        Numeric::Int64(v) => Some(*v as i128),
        Numeric::UInt64(v) => Some(*v as i128),
        _ => None,
    }
}

/// Try to extract a direct integer literal from an expression: plain
/// integer literals, parenthesized literals, and a single leading `-`.
pub fn extract_direct_int_literal(expr: &ConstExpr) -> (r: Option<i128>)
    ensures
        match spec_direct_int_literal(*expr) {
            Some(v) => r == Some(v as i128) && i128::MIN <= v <= i128::MAX,
            None => r is None,
        },
    decreases expr,
{
    match expr {
        ConstExpr::Literal { value, .. } => int_literal(value),
        ConstExpr::Group { expr: inner, .. } => extract_direct_int_literal(inner),
        ConstExpr::Unary { op, expr: inner, .. } => {
            match op {
                OpKind::Sub => match extract_direct_int_literal(inner) {
                    Some(v) => if v == i128::MIN {
                        None
                    } else {
                        Some(-v)
                    },
                    None => None,
                },
                _ => None,
            }
        },
        _ => None,
    }
}

/// Evaluate an expression to a constant (best-effort typing).
pub fn eval_numeric(diagnostics: &mut Diagnostics, ctx: &Context, expr: &ConstExpr) -> (r: Option<Numeric>)
    requires
        spec_expr_ok(ctx.definitions@, *expr),
    ensures
        r == (match spec_eval_expr(ctx.definitions@, *expr).0 {
            Some(v) => spec_numeric_from_value(v),
            None => None,
        }),
        spec_gained(
            *old(diagnostics),
            *final(diagnostics),
            spec_eval_expr(ctx.definitions@, *expr).1,
            spec_eval_expr(ctx.definitions@, *expr).2,
        ),
{
    match eval_value(diagnostics, ctx, expr) {
        Some(v) => numeric_from_value(&v),
        None => None,
    }
}

/// Evaluate an integer bound, which must be non-negative.
pub fn eval_nonneg_bound(diagnostics: &mut Diagnostics, ctx: &Context, expr: &ConstExpr) -> (r: Option<usize>)
    requires
        spec_expr_ok(ctx.definitions@, *expr),
    ensures
        ({
            let vo = spec_eval_expr(ctx.definitions@, *expr);
            match vo.0 {
                None => r is None && spec_gained(*old(diagnostics), *final(diagnostics), vo.1, vo.2),
                Some(v) => match super::evaluator::spec_nonneg_bound(v) {
                    Some(b) => r == Some(b) && spec_gained(*old(diagnostics), *final(diagnostics), vo.1, vo.2),
                    None => r is None && spec_gained(
                        *old(diagnostics),
                        *final(diagnostics),
                        vo.1.push(super::evaluator::spec_bound_diag(spec_expr_span(*expr))),
                        vo.2,
                    ),
                },
            }
        }),
{
    let ghost d0 = *diagnostics;
    let v = match eval_value(diagnostics, ctx, expr) {
        Some(v) => v,
        None => {
            return None;
        },
    };
    let ghost d1 = *diagnostics;
    let ghost vo = spec_eval_expr(ctx.definitions@, *expr);
    let out = super::evaluator::nonneg_bound_of(diagnostics, v, expr.span());
    proof {
        if out is None {
            let d = super::evaluator::spec_bound_diag(spec_expr_span(*expr));
            lemma_gained_error(d1, *diagnostics, d);
            lemma_gained_trans(d0, d1, *diagnostics, vo.1, vo.2, seq![d], Seq::empty());
            assert(vo.1 + seq![d] =~= vo.1.push(d));
            assert(vo.2 + Seq::<DiagView>::empty() =~= vo.2);
        }
    }
    out
}

} // verus!
