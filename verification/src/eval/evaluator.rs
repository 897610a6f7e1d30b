//! Reporting of constant-evaluation outcomes: diagnostics for evaluation
//! errors, range checks of literals, conversions to the declared type and
//! the assignment of named constants.

use vstd::prelude::*;
use crate::ctx::{Context, spec_base_type, spec_resolves};
use crate::diag::{DiagView, Diagnostics, Severity, diag, spec_diag, spec_diag_views, spec_with_label, spec_with_note};
use crate::hir::{Def, DefId, DefKind, Numeric, PrimitiveTy, Span, Ty, TyKind};
use super::cast::{cast_value_to_type, numeric_from_value, value_from_numeric, spec_cast_value_to_type, spec_is_float_numeric, spec_is_float_ty, spec_numeric_from_value, spec_value_from_numeric};
use super::value::{EvalError, Value};
use super::rank::{IntRank, int_min_max, rank_mask_unsigned, spec_in_range, spec_max};
use crate::text::owned;

verus! {

/// The name of a primitive type in evaluation diagnostics.
pub open spec fn spec_prim_display_name(p: PrimitiveTy) -> Seq<char> {
    match p {
        PrimitiveTy::Bool => "bool"@,
        PrimitiveTy::Char => "char"@,
        PrimitiveTy::WChar => "wchar"@,
        PrimitiveTy::Int8 => "int8"@,
        PrimitiveTy::UInt8 => "uint8"@,
        PrimitiveTy::Int16 => "int16"@,
        PrimitiveTy::UInt16 => "uint16"@,
        PrimitiveTy::Int32 => "int32"@,
        PrimitiveTy::UInt32 => "uint32"@,
        PrimitiveTy::Int64 => "int64"@,
        PrimitiveTy::UInt64 => "uint64"@,
        PrimitiveTy::Float32 => "float"@,
        PrimitiveTy::Float64 => "double"@,
        PrimitiveTy::Float128 => "float128"@,
        PrimitiveTy::Void => "void"@,
    }
}

/// The human-readable name of a type in evaluation diagnostics; a
/// user-defined type is named by its definition.
pub open spec fn spec_get_type_name(defs: Seq<Def>, ty: Ty) -> Seq<char> {
    match ty.kind {
        TyKind::Primitive(p) => spec_prim_display_name(p),
        TyKind::Adt(id) => defs[id as int].ident.name@,
        TyKind::String { wide, .. } => if wide { "wstring"@ } else { "string"@ },
        TyKind::Array { .. } => "array"@,
        TyKind::Sequence { .. } => "sequence"@,
        TyKind::Mapping { .. } => "map"@,
        TyKind::Fixed => "fixed"@,
        TyKind::Any => "any"@,
        TyKind::Null => "null"@,
    }
}

/// A type whose name can be looked up: a user-defined type must exist.
pub open spec fn spec_nameable(defs: Seq<Def>, ty: Ty) -> bool {
    ty.kind matches TyKind::Adt(id) ==> id < defs.len()
}

fn prim_display_name(p: PrimitiveTy) -> (s: &'static str)
    ensures
        s@ == spec_prim_display_name(p),
{
    match p {
        PrimitiveTy::Bool => "bool",
        PrimitiveTy::Char => "char",
        PrimitiveTy::WChar => "wchar",
        PrimitiveTy::Int8 => "int8",
        PrimitiveTy::UInt8 => "uint8",
        PrimitiveTy::Int16 => "int16",
        PrimitiveTy::UInt16 => "uint16",
        PrimitiveTy::Int32 => "int32",
        PrimitiveTy::UInt32 => "uint32",
        PrimitiveTy::Int64 => "int64",
        PrimitiveTy::UInt64 => "uint64",
        PrimitiveTy::Float32 => "float",
        PrimitiveTy::Float64 => "double",
        PrimitiveTy::Float128 => "float128",
        PrimitiveTy::Void => "void",
    }
}

/// Get a human-readable name for a type.
pub fn get_type_name(ty: &Ty, ctx: &Context) -> (r: String)
    requires
        spec_nameable(ctx.definitions@, *ty),
    ensures
        r@ == spec_get_type_name(ctx.definitions@, *ty),
{
    match &ty.kind {
        TyKind::Primitive(p) => owned(prim_display_name(*p)),
        TyKind::Adt(def_id) => ctx.type_of(*def_id).ident.name.clone(),
        TyKind::String { wide, .. } => if *wide {
            owned("wstring")
        } else {
            owned("string")
        },
        TyKind::Array { .. } => owned("array"),
        TyKind::Sequence { .. } => owned("sequence"),
        TyKind::Mapping { .. } => owned("map"),
        TyKind::Fixed => owned("fixed"),
        TyKind::Any => owned("any"),
        TyKind::Null => owned("null"),
    }
}

/// Structural equality of types that disregards where they were written.
pub open spec fn spec_types_equal_ignore_spans(a: TyKind, b: TyKind) -> bool
    decreases a,
{
    match (a, b) {
        (TyKind::Primitive(p1), TyKind::Primitive(p2)) => p1 == p2,
        (TyKind::Array { ty: t1, len: l1, .. }, TyKind::Array { ty: t2, len: l2, .. }) => l1 == l2
            && spec_types_equal_ignore_spans(t1.kind, t2.kind),
        (TyKind::Sequence { ty: t1, bound: b1, .. }, TyKind::Sequence { ty: t2, bound: b2, .. }) => b1 == b2
            && spec_types_equal_ignore_spans(t1.kind, t2.kind),
        (TyKind::String { wide: w1, bound: b1, .. }, TyKind::String { wide: w2, bound: b2, .. }) => w1 == w2 && b1
            == b2,
        (
            TyKind::Mapping { key: k1, elem: e1, bound: b1, .. },
            TyKind::Mapping { key: k2, elem: e2, bound: b2, .. },
        ) => b1 == b2 && spec_types_equal_ignore_spans(k1.kind, k2.kind) && spec_types_equal_ignore_spans(
            e1.kind,
            e2.kind,
        ),
        (TyKind::Adt(i1), TyKind::Adt(i2)) => i1 == i2,
        (TyKind::Null, TyKind::Null) => true,
        (TyKind::Any, TyKind::Any) => true,
        (TyKind::Fixed, TyKind::Fixed) => true,
        _ => false,
    }
}

fn opt_usize_eq(a: Option<usize>, b: Option<usize>) -> (r: bool)
    ensures
        r == (a == b),
{
    match (a, b) {
        (Some(x), Some(y)) => x == y,
        (None, None) => true,
        _ => false,
    }
}

/// Whether two types are the same, disregarding source spans.
pub fn types_equal_ignore_spans(a: &TyKind, b: &TyKind) -> (r: bool)
    ensures
        r == spec_types_equal_ignore_spans(*a, *b),
    decreases a,
{
    match (a, b) {
        (TyKind::Primitive(p1), TyKind::Primitive(p2)) => *p1 == *p2,
        (TyKind::Array { ty: t1, len: l1, .. }, TyKind::Array { ty: t2, len: l2, .. }) => *l1 == *l2
            && types_equal_ignore_spans(&t1.kind, &t2.kind),
        (TyKind::Sequence { ty: t1, bound: b1, .. }, TyKind::Sequence { ty: t2, bound: b2, .. }) => opt_usize_eq(
            *b1,
            *b2,
        ) && types_equal_ignore_spans(&t1.kind, &t2.kind),
        (TyKind::String { wide: w1, bound: b1, .. }, TyKind::String { wide: w2, bound: b2, .. }) => *w1 == *w2
            && opt_usize_eq(*b1, *b2),
        (
            TyKind::Mapping { key: k1, elem: e1, bound: b1, .. },
            TyKind::Mapping { key: k2, elem: e2, bound: b2, .. },
        ) => opt_usize_eq(*b1, *b2) && types_equal_ignore_spans(&k1.kind, &k2.kind) && types_equal_ignore_spans(
            &e1.kind,
            &e2.kind,
        ),
        (TyKind::Adt(i1), TyKind::Adt(i2)) => *i1 == *i2,
        (TyKind::Null, TyKind::Null) => true,
        (TyKind::Any, TyKind::Any) => true,
        (TyKind::Fixed, TyKind::Fixed) => true,
        _ => false,
    }
}

/// Every type equals itself, whatever its spans.
pub proof fn lemma_types_equal_reflexive(a: TyKind)
    ensures
        spec_types_equal_ignore_spans(a, a),
    decreases a,
{
    match a {
        TyKind::Array { ty, .. } => lemma_types_equal_reflexive(ty.kind),
        TyKind::Sequence { ty, .. } => lemma_types_equal_reflexive(ty.kind),
        TyKind::Mapping { key, elem, .. } => {
            lemma_types_equal_reflexive(key.kind);
            lemma_types_equal_reflexive(elem.kind);
        },
        _ => {},
    }
}

/// Equality of types disregarding spans does not depend on the order of
/// the two types.
pub proof fn lemma_types_equal_symmetric(a: TyKind, b: TyKind)
    ensures
        spec_types_equal_ignore_spans(a, b) == spec_types_equal_ignore_spans(b, a),
    decreases a,
{
    match (a, b) {
        (TyKind::Array { ty: t1, .. }, TyKind::Array { ty: t2, .. }) => lemma_types_equal_symmetric(t1.kind, t2.kind),
        (TyKind::Sequence { ty: t1, .. }, TyKind::Sequence { ty: t2, .. }) => lemma_types_equal_symmetric(
            t1.kind,
            t2.kind,
        ),
        (TyKind::Mapping { key: k1, elem: e1, .. }, TyKind::Mapping { key: k2, elem: e2, .. }) => {
            lemma_types_equal_symmetric(k1.kind, k2.kind);
            lemma_types_equal_symmetric(e1.kind, e2.kind);
        },
        _ => {},
    }
}

/// Equality of types disregarding spans is transitive.
pub proof fn lemma_types_equal_transitive(a: TyKind, b: TyKind, c: TyKind)
    requires
        spec_types_equal_ignore_spans(a, b),
        spec_types_equal_ignore_spans(b, c),
    ensures
        spec_types_equal_ignore_spans(a, c),
    decreases a,
{
    match (a, b, c) {
        (TyKind::Array { ty: t1, .. }, TyKind::Array { ty: t2, .. }, TyKind::Array { ty: t3, .. }) => {
            lemma_types_equal_transitive(t1.kind, t2.kind, t3.kind)
        },
        (TyKind::Sequence { ty: t1, .. }, TyKind::Sequence { ty: t2, .. }, TyKind::Sequence { ty: t3, .. }) => {
            lemma_types_equal_transitive(t1.kind, t2.kind, t3.kind)
        },
        (
            TyKind::Mapping { key: k1, elem: e1, .. },
            TyKind::Mapping { key: k2, elem: e2, .. },
            TyKind::Mapping { key: k3, elem: e3, .. },
        ) => {
            lemma_types_equal_transitive(k1.kind, k2.kind, k3.kind);
            lemma_types_equal_transitive(e1.kind, e2.kind, e3.kind);
        },
        _ => {},
    }
}

} // verus!

verus! {

/// An evaluation error with where it happened and, for conversions, what
/// kind of value was being converted.
#[derive(Debug)]
pub struct ContextualEvalError {
    pub kind: EvalError,
    pub span: Span,
    pub context: Option<String>,
}

/// The characters of an optional string.
pub open spec fn spec_opt_chars(o: Option<String>) -> Option<Seq<char>> {
    match o {
        Some(s) => Some(s@),
        None => None,
    }
}

/// The name of an optional expected type.
pub open spec fn spec_opt_type_name(defs: Seq<Def>, ty: Option<&Ty>) -> Option<Seq<char>> {
    match ty {
        Some(t) => Some(spec_get_type_name(defs, *t)),
        None => None,
    }
}

/// The headline of a type mismatch: it names what was converted and the
/// expected type when both are known.
pub open spec fn spec_type_mismatch_message(context: Option<Seq<char>>, expected: Option<Seq<char>>) -> Seq<char> {
    match (context, expected) {
        (Some(c), Some(n)) => c + " cannot be assigned to type "@ + n,
        _ => "type mismatch in constant expression"@,
    }
}

/// The diagnostic reported for an evaluation error at `span`; a signed
/// overflow is a warning, everything else an error.
pub open spec fn spec_eval_error_diag(kind: EvalError, span: Span, mismatch_message: Seq<char>) -> DiagView {
    match kind {
        EvalError::SignedOverflow(_) => spec_with_note(
            spec_diag(Severity::Warning, "integer overflow in constant expression"@, span, "overflow detected"@),
            "consider using a larger integer type if overflow was not intended"@,
        ),
        EvalError::RangeError => spec_diag(Severity::Error, "value out of range for target type"@, span, "out of range"@),
        EvalError::InvalidChar => spec_diag(
            Severity::Error,
            "invalid Unicode scalar for character type"@,
            span,
            "invalid character value"@,
        ),
        EvalError::InvalidFloat => spec_diag(
            Severity::Error,
            "cannot convert NaN or infinity to integer type"@,
            span,
            "invalid floating-point value"@,
        ),
        EvalError::DivByZero => spec_diag(
            Severity::Error,
            "division by zero in constant expression"@,
            span,
            "division by zero"@,
        ),
        EvalError::ModByZero => spec_diag(
            Severity::Error,
            "modulo by zero in constant expression"@,
            span,
            "modulo by zero"@,
        ),
        EvalError::ShiftOutOfRange => spec_diag(
            Severity::Error,
            "invalid shift amount: shift count >= width of type or negative"@,
            span,
            "invalid shift"@,
        ),
        EvalError::TypeMismatch => spec_diag(Severity::Error, mismatch_message, span, "incompatible types"@),
    }
}

/// What reporting an evaluation error leaves behind: a signed overflow
/// adds a warning and evaluation goes on with the wrapped value; any other
/// error adds an error and evaluation stops.
pub open spec fn spec_reported(
    old_d: Diagnostics,
    new_d: Diagnostics,
    r: Option<Value>,
    kind: EvalError,
    report: DiagView,
) -> bool {
    match kind {
        EvalError::SignedOverflow(w) => {
            &&& r == Some(w)
            &&& spec_diag_views(new_d.warnings@) == spec_diag_views(old_d.warnings@).push(report)
            &&& new_d.errors@ == old_d.errors@
        },
        _ => {
            &&& r is None
            &&& spec_diag_views(new_d.errors@) == spec_diag_views(old_d.errors@).push(report)
            &&& new_d.warnings@ == old_d.warnings@
        },
    }
}

/// Whether reporting `kind` needs the name of the expected type.
pub open spec fn spec_needs_type_name(kind: EvalError, context: Option<String>, expected_ty: Option<&Ty>) -> bool {
    kind is TypeMismatch && context is Some && expected_ty is Some
}

/// Convert an evaluation error to a diagnostic. Returns the value to go on
/// with: the wrapped result of a signed overflow, `None` otherwise.
pub fn report_eval_error(
    diagnostics: &mut Diagnostics,
    ctx: &Context,
    error: ContextualEvalError,
    expected_ty: Option<&Ty>,
) -> (r: Option<Value>)
    requires
        spec_needs_type_name(error.kind, error.context, expected_ty) ==> spec_nameable(
            ctx.definitions@,
            *expected_ty.unwrap(),
        ),
    ensures
        spec_reported(
            *old(diagnostics),
            *final(diagnostics),
            r,
            error.kind,
            spec_eval_error_diag(
                error.kind,
                error.span,
                spec_type_mismatch_message(
                    spec_opt_chars(error.context),
                    spec_opt_type_name(ctx.definitions@, expected_ty),
                ),
            ),
        ),
{
    let span = error.span;
    match error.kind {
        EvalError::SignedOverflow(wrapped_value) => {
            let d = diag(
                Severity::Warning,
                owned("integer overflow in constant expression"),
                span,
                owned("overflow detected"),
            ).note(owned("consider using a larger integer type if overflow was not intended"));
            diagnostics.push_warning(d);
            Some(wrapped_value)
        },
        EvalError::RangeError => {
            diagnostics.push_error(diag(Severity::Error, owned("value out of range for target type"), span, owned("out of range")));
            None
        },
        EvalError::InvalidChar => {
            diagnostics.push_error(
                diag(Severity::Error, owned("invalid Unicode scalar for character type"), span, owned("invalid character value")),
            );
            None
        },
        EvalError::InvalidFloat => {
            diagnostics.push_error(
                diag(
                    Severity::Error,
                    owned("cannot convert NaN or infinity to integer type"),
                    span,
                    owned("invalid floating-point value"),
                ),
            );
            None
        },
        EvalError::DivByZero => {
            diagnostics.push_error(
                diag(Severity::Error, owned("division by zero in constant expression"), span, owned("division by zero")),
            );
            None
        },
        EvalError::ModByZero => {
            diagnostics.push_error(
                diag(Severity::Error, owned("modulo by zero in constant expression"), span, owned("modulo by zero")),
            );
            None
        },
        EvalError::ShiftOutOfRange => {
            diagnostics.push_error(
                diag(
                    Severity::Error,
                    owned("invalid shift amount: shift count >= width of type or negative"),
                    span,
                    owned("invalid shift"),
                ),
            );
            None
        },
        EvalError::TypeMismatch => {
            let message = match (error.context, expected_ty) {
                (Some(context), Some(ty)) => {
                    let ty_label = get_type_name(ty, ctx);
                    let mut m = context;
                    m.append(" cannot be assigned to type ");
                    m.append(ty_label.as_str());
                    m
                },
                _ => owned("type mismatch in constant expression"),
            };
            diagnostics.push_error(diag(Severity::Error, message, span, owned("incompatible types")));
            None
        },
    }
}

/// Handle the result of a binary operation: division, modulo and shift
/// errors are reported at the operator's right operand, others at the whole
/// expression.
pub fn handle_binary_result_value(
    diagnostics: &mut Diagnostics,
    ctx: &Context,
    result: Result<Value, EvalError>,
    expr_span: Span,
    op_span: Span,
) -> (r: Option<Value>)
    ensures
        match result {
            Ok(v) => r == Some(v) && *final(diagnostics) == *old(diagnostics),
            Err(e) => spec_reported(
                *old(diagnostics),
                *final(diagnostics),
                r,
                e,
                spec_eval_error_diag(
                    e,
                    if e is DivByZero || e is ModByZero || e is ShiftOutOfRange {
                        op_span
                    } else {
                        expr_span
                    },
                    "type mismatch in constant expression"@,
                ),
            ),
        },
{
    match result {
        Ok(v) => Some(v),
        Err(err) => {
            let span = match err {
                EvalError::DivByZero | EvalError::ModByZero | EvalError::ShiftOutOfRange => op_span,
                _ => expr_span,
            };
            report_eval_error(diagnostics, ctx, ContextualEvalError { kind: err, span, context: None }, None)
        },
    }
}

} // verus!

verus! {

/// Whether an integer literal written directly for a value of type `ty`
/// cannot be represented. For unsigned targets only positive literals above
/// the maximum are refused: negative literals wrap, as in C.
pub open spec fn spec_literal_out_of_range(lit: int, ty: Ty) -> bool {
    match ty.kind {
        TyKind::Primitive(p) => match p {
            PrimitiveTy::Int8 => !spec_in_range(lit, IntRank::I8),
            PrimitiveTy::Int16 => !spec_in_range(lit, IntRank::I16),
            PrimitiveTy::Int32 => !spec_in_range(lit, IntRank::I32),
            PrimitiveTy::Int64 => !spec_in_range(lit, IntRank::I64),
            PrimitiveTy::UInt8 => lit > spec_max(IntRank::U8),
            PrimitiveTy::UInt16 => lit > spec_max(IntRank::U16),
            PrimitiveTy::UInt32 => lit > spec_max(IntRank::U32),
            PrimitiveTy::UInt64 => lit > spec_max(IntRank::U64),
            _ => false,
        },
        _ => false,
    }
}

/// The error reported for a literal out of the range of `ty_label`.
pub open spec fn spec_literal_range_diag(ty_label: Seq<char>, span: Span) -> DiagView {
    spec_diag(Severity::Error, "integer literal out of range for '"@ + ty_label + "'"@, span, "out of range"@)
}

fn report_literal_out_of_range(diagnostics: &mut Diagnostics, ctx: &Context, expected_ty: &Ty, span: Span)
    requires
        spec_nameable(ctx.definitions@, *expected_ty),
    ensures
        spec_diag_views(final(diagnostics).errors@) == spec_diag_views(old(diagnostics).errors@).push(
            spec_literal_range_diag(spec_get_type_name(ctx.definitions@, *expected_ty), span),
        ),
        final(diagnostics).warnings@ == old(diagnostics).warnings@,
{
    let ty_name = get_type_name(expected_ty, ctx);
    let mut msg = owned("integer literal out of range for '");
    msg.append(ty_name.as_str());
    msg.append("'");
    diagnostics.push_error(diag(Severity::Error, msg, span, owned("out of range")));
}

/// Check that an integer literal fits the expected type; reports an error
/// and returns `false` when it does not.
pub fn check_literal_range(diagnostics: &mut Diagnostics, ctx: &Context, lit: i128, expected_ty: &Ty, span: Span) -> (r: bool)
    ensures
        r == !spec_literal_out_of_range(lit as int, *expected_ty),
        r ==> *final(diagnostics) == *old(diagnostics),
        !r ==> spec_diag_views(final(diagnostics).errors@) == spec_diag_views(old(diagnostics).errors@).push(
            spec_literal_range_diag(spec_get_type_name(ctx.definitions@, *expected_ty), span),
        ),
        !r ==> final(diagnostics).warnings@ == old(diagnostics).warnings@,
{
    let p = match &expected_ty.kind {
        TyKind::Primitive(p) => *p,
        _ => {
            return true;
        },
    };
    let signed_rank = match p {
        PrimitiveTy::Int8 => Some(IntRank::I8),
        PrimitiveTy::Int16 => Some(IntRank::I16),
        PrimitiveTy::Int32 => Some(IntRank::I32),
        PrimitiveTy::Int64 => Some(IntRank::I64),
        _ => None,
    };
    let unsigned_rank = match p {
        PrimitiveTy::UInt8 => Some(IntRank::U8),
        PrimitiveTy::UInt16 => Some(IntRank::U16),
        PrimitiveTy::UInt32 => Some(IntRank::U32),
        PrimitiveTy::UInt64 => Some(IntRank::U64),
        _ => None,
    };
    if let Some(rank) = signed_rank {
        let (min, max) = int_min_max(rank);
        if lit < min || lit > max {
            report_literal_out_of_range(diagnostics, ctx, expected_ty, span);
            return false;
        }
    } else if let Some(rank) = unsigned_rank {
        if lit >= 0 {
            let max_u: u128 = rank_mask_unsigned(rank);
            if (lit as u128) > max_u {
                report_literal_out_of_range(diagnostics, ctx, expected_ty, span);
                return false;
            }
        }
    }
    true
}

/// The error reported when a string takes part in arithmetic.
pub open spec fn spec_string_operand_diag(span: Span) -> DiagView {
    spec_with_note(
        spec_diag(
            Severity::Error,
            "string literals cannot be used in arithmetic expressions"@,
            span,
            "string operand"@,
        ),
        "string literals can only be used in struct initialization or string constants"@,
    )
}

/// Check whether either operand of an arithmetic operation is a string;
/// if so, report an error at the first string operand and return `true`.
pub fn check_string_operands_value(
    diagnostics: &mut Diagnostics,
    l: &Value,
    r: &Value,
    lhs_span: Span,
    rhs_span: Span,
) -> (b: bool)
    ensures
        b == (*l is String || *r is String),
        !b ==> *final(diagnostics) == *old(diagnostics),
        b ==> spec_diag_views(final(diagnostics).errors@) == spec_diag_views(old(diagnostics).errors@).push(
            spec_string_operand_diag(if *l is String { lhs_span } else { rhs_span }),
        ),
        b ==> final(diagnostics).warnings@ == old(diagnostics).warnings@,
{
    let l_is_string = match l {
        Value::String(_) => true,
        _ => false,
    };
    let r_is_string = match r {
        Value::String(_) => true,
        _ => false,
    };
    if l_is_string || r_is_string {
        let string_span = if l_is_string {
            lhs_span
        } else {
            rhs_span
        };
        let d = diag(
            Severity::Error,
            owned("string literals cannot be used in arithmetic expressions"),
            string_span,
            owned("string operand"),
        ).note(owned("string literals can only be used in struct initialization or string constants"));
        diagnostics.push_error(d);
        true
    } else {
        false
    }
}

/// The error reported when a bound is not a non-negative integer.
pub open spec fn spec_bound_diag(span: Span) -> DiagView {
    spec_diag(Severity::Error, "bound must be a non-negative integer"@, span, "expected non-negative integer"@)
}

/// A bound's value: a non-negative signed integer or any unsigned one,
/// converted to `usize`.
pub open spec fn spec_nonneg_bound(v: Value) -> Option<usize> {
    match v {
        Value::Int(i, _) => if i >= 0 { Some(i as usize) } else { None },
        Value::UInt(u, _) => Some(u as usize),
        _ => None,
    }
}

/// Interpret an evaluated bound; anything but a non-negative integer is
/// reported as an error.
pub fn nonneg_bound_of(diagnostics: &mut Diagnostics, v: Value, span: Span) -> (r: Option<usize>)
    ensures
        r == spec_nonneg_bound(v),
        r is Some ==> *final(diagnostics) == *old(diagnostics),
        r is None ==> spec_diag_views(final(diagnostics).errors@) == spec_diag_views(old(diagnostics).errors@).push(
            spec_bound_diag(span),
        ),
        r is None ==> final(diagnostics).warnings@ == old(diagnostics).warnings@,
{
    match v {
        Value::Int(i, _) if i >= 0 => Some(i as usize),
        Value::UInt(u, _) => Some(u as usize),
        _ => {
            diagnostics.push_error(
                diag(Severity::Error, owned("bound must be a non-negative integer"), span, owned("expected non-negative integer")),
            );
            None
        },
    }
}

} // verus!

verus! {

/// The value that evaluation goes on with after an error is reported.
pub open spec fn spec_report_result(kind: EvalError) -> Option<Value> {
    match kind {
        EvalError::SignedOverflow(w) => Some(w),
        _ => None,
    }
}

/// How a value is described when it cannot be converted.
pub open spec fn spec_value_desc(v: Value) -> Seq<char> {
    match v {
        Value::String(_) => "string value"@,
        Value::Bool(_) => "boolean value"@,
        Value::Char(_) => "character value"@,
        Value::Int(_, _) => "integer value"@,
        Value::UInt(_, _) => "unsigned integer value"@,
        Value::Null => "null value"@,
        Value::Const(_) => "constant reference"@,
    }
}

fn value_desc(v: &Value) -> (s: &'static str)
    ensures
        s@ == spec_value_desc(*v),
{
    match v {
        Value::String(_) => "string value",
        Value::Bool(_) => "boolean value",
        Value::Char(_) => "character value",
        Value::Int(_, _) => "integer value",
        Value::UInt(_, _) => "unsigned integer value",
        Value::Null => "null value",
        Value::Const(_) => "constant reference",
    }
}

/// Cast a value to the expected type and convert it to a constant; a cast
/// error is reported at `span`, naming the kind of value and the type.
pub fn cast_and_convert(diagnostics: &mut Diagnostics, ctx: &Context, v: Value, expected_ty: &Ty, span: Span) -> (r: Option<Numeric>)
    requires
        !spec_is_float_ty(*expected_ty),
        spec_cast_value_to_type(v, *expected_ty) matches Err(e) && e is TypeMismatch ==> spec_nameable(
            ctx.definitions@,
            *expected_ty,
        ),
    ensures
        match spec_cast_value_to_type(v, *expected_ty) {
            Ok(c) => r == spec_numeric_from_value(c) && *final(diagnostics) == *old(diagnostics),
            Err(e) => {
                &&& spec_reported(
                    *old(diagnostics),
                    *final(diagnostics),
                    spec_report_result(e),
                    e,
                    spec_eval_error_diag(
                        e,
                        span,
                        spec_type_mismatch_message(
                            Some(spec_value_desc(v)),
                            Some(spec_get_type_name(ctx.definitions@, *expected_ty)),
                        ),
                    ),
                )
                &&& r == (match spec_report_result(e) {
                    Some(w) => spec_numeric_from_value(w),
                    None => None,
                })
            },
        },
{
    let desc = value_desc(&v);
    match cast_value_to_type(v, expected_ty) {
        Ok(c) => numeric_from_value(&c),
        Err(e) => {
            let error = ContextualEvalError { kind: e, span, context: Some(owned(desc)) };
            match report_eval_error(diagnostics, ctx, error, Some(expected_ty)) {
                Some(w) => numeric_from_value(&w),
                None => None,
            }
        },
    }
}

/// A copy of a value.
pub fn clone_value(v: &Value) -> (r: Value)
    ensures
        r == *v,
{
    match v {
        Value::Int(i, r) => Value::Int(*i, *r),
        Value::UInt(u, r) => Value::UInt(*u, *r),
        Value::Bool(b) => Value::Bool(*b),
        Value::Char(c) => Value::Char(*c),
        Value::String(s) => Value::String(s.clone()),
        Value::Null => Value::Null,
        Value::Const(id) => Value::Const(*id),
    }
}

/// Following constant references from `v` with at most `fuel` steps:
/// `None` when the steps run out, a reference leaves the definitions or
/// reaches a floating-point constant; otherwise the first value that is not
/// a reference, or `Some(None)` when a reference names no plain constant.
pub open spec fn spec_resolve_within(defs: Seq<Def>, v: Value, fuel: nat) -> Option<Option<Value>>
    decreases fuel,
{
    match v {
        Value::Const(id) => if fuel == 0 || id >= defs.len() {
            None
        } else {
            match defs[id as int].kind {
                DefKind::Const(c) => if spec_is_float_numeric(c.value) {
                    None
                } else {
                    match spec_value_from_numeric(c.value) {
                        Some(next) => spec_resolve_within(defs, next, (fuel - 1) as nat),
                        None => Some(None),
                    }
                },
                _ => Some(None),
            }
        },
        _ => Some(Some(v)),
    }
}

/// The chain of constant references from `v` ends.
pub open spec fn spec_const_resolves(defs: Seq<Def>, v: Value) -> bool {
    exists|f: nat| #[trigger] spec_resolve_within(defs, v, f) is Some
}

/// The value a chain of constant references ends in.
pub open spec fn spec_resolve_const(defs: Seq<Def>, v: Value) -> Option<Value> {
    spec_resolve_within(defs, v, choose|f: nat| #[trigger] spec_resolve_within(defs, v, f) is Some)->Some_0
}

proof fn lemma_resolve_fuel(defs: Seq<Def>, v: Value, f1: nat, f2: nat)
    requires
        spec_resolve_within(defs, v, f1) is Some,
        spec_resolve_within(defs, v, f2) is Some,
    ensures
        spec_resolve_within(defs, v, f1) == spec_resolve_within(defs, v, f2),
    decreases f1,
{
    if let Value::Const(id) = v {
        if let DefKind::Const(c) = defs[id as int].kind {
            if let Some(next) = spec_value_from_numeric(c.value) {
                lemma_resolve_fuel(defs, next, (f1 - 1) as nat, (f2 - 1) as nat);
            }
        }
    }
}

/// Resolve a constant reference to its value by following the chain of
/// references; `None` when a reference names no plain constant.
pub fn resolve_const_value(ctx: &Context, value: &Value) -> (r: Option<Value>)
    requires
        spec_const_resolves(ctx.definitions@, *value),
    ensures
        r == spec_resolve_const(ctx.definitions@, *value),
{
    let ghost defs = ctx.definitions@;
    let ghost f0 = choose|f: nat| #[trigger] spec_resolve_within(defs, *value, f) is Some;
    let ghost mut fuel: nat = f0;
    let mut cur = clone_value(value);
    loop
        invariant
            defs == ctx.definitions@,
            spec_resolve_within(defs, cur, fuel) is Some,
            spec_resolve_within(defs, cur, fuel) == spec_resolve_within(defs, *value, f0),
            f0 == choose|f: nat| #[trigger] spec_resolve_within(defs, *value, f) is Some,
        decreases fuel,
    {
        match cur {
            Value::Const(id) => {
                let def = ctx.type_of(id);
                match &def.kind {
                    DefKind::Const(c) => {
                        match value_from_numeric(&c.value) {
                            Some(next) => {
                                cur = next;
                                proof {
                                    fuel = (fuel - 1) as nat;
                                }
                            },
                            None => {
                                return None;
                            },
                        }
                    },
                    _ => {
                        return None;
                    },
                }
            },
            _ => {
                return Some(cur);
            },
        }
    }
}

} // verus!

verus! {

/// Outcome of assigning a named constant to a target type.
#[derive(Debug)]
pub enum ConstAssignOutcome {
    /// Not a constant: evaluation goes on as usual.
    NotApplicable,
    /// Assignment accepted; the value is a reference to the constant.
    Accepted(Box<Numeric>),
    /// Assignment rejected and an error reported.
    Rejected,
}

/// A type with a user-defined type resolved through typedefs.
pub open spec fn spec_resolved_ty(defs: Seq<Def>, ty: Ty) -> Ty {
    match ty.kind {
        TyKind::Adt(id) => spec_base_type(defs, id),
        _ => ty,
    }
}

/// The error for a constant of type `from` whose value does not convert to
/// type `to`.
pub open spec fn spec_const_type_diag(name: Seq<char>, decl_span: Span, from: Seq<char>, to: Seq<char>, use_span: Span) -> DiagView {
    spec_with_label(
        spec_diag(
            Severity::Error,
            "constant '"@ + name + "' of type "@ + from + " cannot be assigned to "@ + to,
            use_span,
            "incompatible types"@,
        ),
        decl_span,
        "'"@ + name + "' declared as "@ + from + " here"@,
    )
}

/// The error for an aggregate constant of another type than `to`.
pub open spec fn spec_const_aggregate_diag(name: Seq<char>, decl_span: Span, to: Seq<char>, use_span: Span) -> DiagView {
    spec_with_label(
        spec_diag(Severity::Error, "constant '"@ + name + "' cannot be assigned to "@ + to, use_span, "incompatible types"@),
        decl_span,
        "declared here"@,
    )
}

/// The outcome of assigning the definition a path resolved to (if any) to
/// a value of type `expected`, and the error it reports, if any.
pub open spec fn spec_const_assignment(defs: Seq<Def>, resolved: Option<DefId>, expected: Ty, use_span: Span) -> (
    ConstAssignOutcome,
    Option<DiagView>,
) {
    match resolved {
        None => (ConstAssignOutcome::NotApplicable, None),
        Some(id) => {
            let def = defs[id as int];
            match def.kind {
                DefKind::Const(c) => match spec_value_from_numeric(c.value) {
                    Some(val) => {
                        let rv = match spec_resolve_const(defs, val) {
                            Some(x) => x,
                            None => val,
                        };
                        match spec_cast_value_to_type(rv, expected) {
                            Ok(_) => (ConstAssignOutcome::Accepted(Box::new(Numeric::Const(id))), None),
                            Err(EvalError::RangeError) => (
                                ConstAssignOutcome::Rejected,
                                Some(spec_diag(Severity::Error, "value out of range for target type"@, use_span, "out of range"@)),
                            ),
                            Err(_) => (
                                ConstAssignOutcome::Rejected,
                                Some(
                                    spec_const_type_diag(
                                        def.ident.name@,
                                        def.ident.span,
                                        spec_get_type_name(defs, c.ty),
                                        spec_get_type_name(defs, expected),
                                        use_span,
                                    ),
                                ),
                            ),
                        }
                    },
                    None => {
                        let rc = spec_resolved_ty(defs, c.ty);
                        let re = spec_resolved_ty(defs, expected);
                        if re.kind is Any || spec_types_equal_ignore_spans(rc.kind, re.kind) {
                            (ConstAssignOutcome::Accepted(Box::new(Numeric::Const(id))), None)
                        } else {
                            (
                                ConstAssignOutcome::Rejected,
                                Some(
                                    spec_const_aggregate_diag(
                                        def.ident.name@,
                                        def.ident.span,
                                        spec_get_type_name(defs, expected),
                                        use_span,
                                    ),
                                ),
                            )
                        }
                    },
                },
                _ => (ConstAssignOutcome::NotApplicable, None),
            }
        },
    }
}

/// What the assignment of a constant needs of the definitions: the
/// resolved definition exists, its value is no floating-point literal, the
/// target type is not floating point, reference chains end, typedefs
/// resolve and the types named in an error can be looked up.
pub open spec fn spec_const_assignment_ok(defs: Seq<Def>, resolved: Option<DefId>, expected: Ty) -> bool {
    match resolved {
        None => true,
        Some(id) => id < defs.len() && match defs[id as int].kind {
            DefKind::Const(c) => !spec_is_float_numeric(c.value) && match spec_value_from_numeric(c.value) {
                Some(val) => {
                    &&& !spec_is_float_ty(expected)
                    &&& spec_const_resolves(defs, val)
                    &&& spec_nameable(defs, c.ty)
                    &&& spec_nameable(defs, expected)
                },
                None => {
                    &&& (c.ty.kind matches TyKind::Adt(i) ==> spec_resolves(defs, i))
                    &&& (expected.kind matches TyKind::Adt(i) ==> spec_resolves(defs, i))
                    &&& spec_nameable(defs, expected)
                },
            },
            _ => true,
        },
    }
}

/// If a path resolved to a constant (`resolved`), check that it can be
/// assigned to `expected_ty`: accepted assignments keep a reference to the
/// constant, rejected ones are reported.
pub fn try_const_path_assignment(
    diagnostics: &mut Diagnostics,
    ctx: &Context,
    resolved: Option<DefId>,
    expected_ty: &Ty,
    use_span: Span,
) -> (r: ConstAssignOutcome)
    requires
        spec_const_assignment_ok(ctx.definitions@, resolved, *expected_ty),
    ensures
        r == spec_const_assignment(ctx.definitions@, resolved, *expected_ty, use_span).0,
        match spec_const_assignment(ctx.definitions@, resolved, *expected_ty, use_span).1 {
            None => *final(diagnostics) == *old(diagnostics),
            Some(d) => spec_diag_views(final(diagnostics).errors@) == spec_diag_views(old(diagnostics).errors@).push(d)
                && final(diagnostics).warnings@ == old(diagnostics).warnings@,
        },
{
    let def_id = match resolved {
        Some(id) => id,
        None => {
            return ConstAssignOutcome::NotApplicable;
        },
    };
    let def = ctx.type_of(def_id);
    let c = match &def.kind {
        DefKind::Const(c) => c,
        _ => {
            return ConstAssignOutcome::NotApplicable;
        },
    };
    match value_from_numeric(&c.value) {
        Some(val) => {
            let resolved_val = match resolve_const_value(ctx, &val) {
                Some(x) => x,
                None => val,
            };
            match cast_value_to_type(resolved_val, expected_ty) {
                Ok(_) => ConstAssignOutcome::Accepted(Box::new(Numeric::Const(def_id))),
                Err(EvalError::RangeError) => {
                    diagnostics.push_error(
                        diag(Severity::Error, owned("value out of range for target type"), use_span, owned("out of range")),
                    );
                    ConstAssignOutcome::Rejected
                },
                Err(_) => {
                    let from_ty = get_type_name(&c.ty, ctx);
                    let to_ty = get_type_name(expected_ty, ctx);
                    let mut msg = owned("constant '");
                    msg.append(def.ident.name.as_str());
                    msg.append("' of type ");
                    msg.append(from_ty.as_str());
                    msg.append(" cannot be assigned to ");
                    msg.append(to_ty.as_str());
                    let mut decl_label = owned("'");
                    decl_label.append(def.ident.name.as_str());
                    decl_label.append("' declared as ");
                    decl_label.append(from_ty.as_str());
                    decl_label.append(" here");
                    let d = diag(Severity::Error, msg, use_span, owned("incompatible types")).label(def.ident.span, decl_label);
                    diagnostics.push_error(d);
                    ConstAssignOutcome::Rejected
                },
            }
        },
        None => {
            let resolved_const_ty = ctx.resolve_ty(&c.ty);
            let resolved_expected_ty = ctx.resolve_ty(expected_ty);
            let is_any = match &resolved_expected_ty.kind {
                TyKind::Any => true,
                _ => false,
            };
            if is_any || types_equal_ignore_spans(&resolved_const_ty.kind, &resolved_expected_ty.kind) {
                return ConstAssignOutcome::Accepted(Box::new(Numeric::Const(def_id)));
            }
            let to_ty = get_type_name(expected_ty, ctx);
            let mut msg = owned("constant '");
            msg.append(def.ident.name.as_str());
            msg.append("' cannot be assigned to ");
            msg.append(to_ty.as_str());
            let d = diag(Severity::Error, msg, use_span, owned("incompatible types")).label(def.ident.span, owned("declared here"));
            diagnostics.push_error(d);
            ConstAssignOutcome::Rejected
        },
    }
}

} // verus!
