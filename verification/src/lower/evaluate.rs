//! Steps of evaluating type definitions that work on the HIR alone: the
//! types of bit fields, conversions of constants to their declared type,
//! array bounds.

use vstd::prelude::*;
use crate::diag::{Diag, DiagView, Severity, diag, spec_diag, spec_diag_views, spec_with_note};
use crate::ctx::Context;
use crate::diag::Diagnostics;
use crate::eval::expr::{ConstExpr, spec_gained};
use crate::eval::typed::{eval_for_type, spec_eval_for_type, spec_for_type_ok};
use crate::hir::{
    ConstTy, ConstView, Def, DefId, DefKind, Ident, Member, Numeric, PrimitiveTy, Span, StructTy, Ty, TyKind, clone_numeric,
    lemma_const_views_push, lemma_eqv_same_view, spec_const_views, clone_ty, spec_const_view,
};
use crate::text::{
    decimal_u64, lemma_first_index, lemma_first_index_is, owned, spec_decimal, spec_first_index, str_eq,
};

verus! {

/// The smallest unsigned type that holds a bit field of `bits` bits; a
/// single bit is a boolean and anything wider than 64 bits is `uint64`.
pub open spec fn spec_bitfield_prim(bits: usize) -> PrimitiveTy {
    if bits == 1 {
        PrimitiveTy::Bool
    } else if bits <= 8 {
        PrimitiveTy::UInt8
    } else if bits <= 16 {
        PrimitiveTy::UInt16
    } else if bits <= 32 {
        PrimitiveTy::UInt32
    } else {
        PrimitiveTy::UInt64
    }
}

/// The type of a bit field of `bits` bits that names none.
pub fn default_bitfield_type(bits: usize) -> (t: Ty)
    ensures
        t == (Ty { kind: TyKind::Primitive(spec_bitfield_prim(bits)), span: Span { start: 0, end: 0 } }),
{
    let prim = if bits == 1 {
        PrimitiveTy::Bool
    } else if bits <= 8 {
        PrimitiveTy::UInt8
    } else if bits <= 16 {
        PrimitiveTy::UInt16
    } else if bits <= 32 {
        PrimitiveTy::UInt32
    } else {
        PrimitiveTy::UInt64
    };
    Ty { kind: TyKind::Primitive(prim), span: Span { start: 0, end: 0 } }
}

/// A constant converted to its declared type: a signed value for an
/// unsigned type of the same width wraps, a 32-bit value for another
/// signed width is truncated or widened; everything else is kept.
pub open spec fn spec_convert_to_type(value: Numeric, ty: Ty) -> Numeric {
    match (value, ty.kind) {
        (Numeric::Int8(v), TyKind::Primitive(PrimitiveTy::UInt8)) => Numeric::UInt8(v as u8),
        (Numeric::Int16(v), TyKind::Primitive(PrimitiveTy::UInt16)) => Numeric::UInt16(v as u16),
        (Numeric::Int32(v), TyKind::Primitive(PrimitiveTy::UInt32)) => Numeric::UInt32(v as u32),
        (Numeric::Int64(v), TyKind::Primitive(PrimitiveTy::UInt64)) => Numeric::UInt64(v as u64),
        (Numeric::Int32(v), TyKind::Primitive(PrimitiveTy::Int8)) => Numeric::Int8(v as i8),
        (Numeric::Int32(v), TyKind::Primitive(PrimitiveTy::Int16)) => Numeric::Int16(v as i16),
        (Numeric::Int32(v), TyKind::Primitive(PrimitiveTy::Int64)) => Numeric::Int64(v as i64),
        _ => value,
    }
}

/// Converts a constant to match the declared type.
pub fn convert_to_type(value: Numeric, ty: &Ty) -> (r: Numeric)
    ensures
        r == spec_convert_to_type(value, *ty),
{
    match (&value, &ty.kind) {
        (Numeric::Int8(v), TyKind::Primitive(PrimitiveTy::UInt8)) => Numeric::UInt8(*v as u8),
        (Numeric::Int16(v), TyKind::Primitive(PrimitiveTy::UInt16)) => Numeric::UInt16(*v as u16),
        (Numeric::Int32(v), TyKind::Primitive(PrimitiveTy::UInt32)) => Numeric::UInt32(*v as u32),
        (Numeric::Int64(v), TyKind::Primitive(PrimitiveTy::UInt64)) => Numeric::UInt64(*v as u64),
        (Numeric::Int32(v), TyKind::Primitive(PrimitiveTy::Int8)) => Numeric::Int8(*v as i8),
        (Numeric::Int32(v), TyKind::Primitive(PrimitiveTy::Int16)) => Numeric::Int16(*v as i16),
        (Numeric::Int32(v), TyKind::Primitive(PrimitiveTy::Int64)) => Numeric::Int64(*v as i64),
        _ => value,
    }
}

/// The error for a bound that is not a non-negative 32- or 64-bit integer.
pub open spec fn spec_invalid_bound_diag(span: Span) -> DiagView {
    spec_diag(Severity::Error, "invalid bound expression"@, span, "bound must be a positive integer"@)
}

/// The bound a constant gives, if it gives one.
pub open spec fn spec_bound_value(n: Numeric) -> Option<usize> {
    match n {
        Numeric::Int32(v) => if v >= 0 { Some(v as usize) } else { None },
        Numeric::UInt32(v) => Some(v as usize),
        Numeric::Int64(v) => if v >= 0 { Some(if v <= usize::MAX { v as usize } else { 0 }) } else { None },
        Numeric::UInt64(v) => Some(if v <= usize::MAX { v as usize } else { 0 }),
        _ => None,
    }
}

/// The bound an evaluated bound expression gives: a non-negative 32- or
/// 64-bit integer (0 when it does not fit `usize`); anything else is
/// reported at `span` and gives 0.
pub fn bound_of_numeric(errors: &mut Vec<Diag>, n: &Numeric, span: Span) -> (r: usize)
    ensures
        match spec_bound_value(*n) {
            Some(b) => r == b && final(errors)@ == old(errors)@,
            None => r == 0 && spec_diag_views(final(errors)@) == spec_diag_views(old(errors)@).push(
                spec_invalid_bound_diag(span),
            ),
        },
{
    match n {
        Numeric::Int32(v) if *v >= 0 => *v as usize,
        Numeric::UInt32(v) => *v as usize,
        Numeric::Int64(v) if *v >= 0 => if *v as u64 <= usize::MAX as u64 {
            *v as usize
        } else {
            0
        },
        Numeric::UInt64(v) => if *v <= usize::MAX as u64 {
            *v as usize
        } else {
            0
        },
        _ => {
            let ghost before = errors@;
            errors.push(diag(Severity::Error, owned("invalid bound expression"), span, owned("bound must be a positive integer")));
            assert(spec_diag_views(errors@) =~= spec_diag_views(before).push(spec_invalid_bound_diag(span)));
            0
        },
    }
}

/// An array type with its lengths, outermost first, replaced by the given
/// bounds for as many levels as there are bounds.
pub open spec fn spec_with_bounds(ty: Ty, bounds: Seq<(usize, Span)>) -> Ty
    decreases ty,
{
    match ty.kind {
        TyKind::Array { ty: inner, len, len_span } => if bounds.len() == 0 {
            Ty { span: ty.span, kind: TyKind::Array { ty: Box::new(spec_with_bounds(*inner, bounds)), len, len_span } }
        } else {
            Ty {
                span: ty.span,
                kind: TyKind::Array {
                    ty: Box::new(spec_with_bounds(*inner, bounds.drop_first())),
                    len: bounds[0].0,
                    len_span: bounds[0].1,
                },
            }
        },
        _ => ty,
    }
}

fn with_bounds(ty: Ty, bounds: &[(usize, Span)], i: usize) -> (r: Ty)
    requires
        i <= bounds@.len(),
    ensures
        r == spec_with_bounds(ty, bounds@.subrange(i as int, bounds@.len() as int)),
    decreases ty,
{
    let Ty { span, kind } = ty;
    match kind {
        TyKind::Array { ty: inner, len, len_span } => {
            let ghost rest = bounds@.subrange(i as int, bounds@.len() as int);
            if i < bounds.len() {
                proof {
                    assert(rest.drop_first() =~= bounds@.subrange(i + 1, bounds@.len() as int));
                }
                let (b, s) = bounds[i];
                let new_inner = with_bounds(*inner, bounds, i + 1);
                Ty { span, kind: TyKind::Array { ty: Box::new(new_inner), len: b, len_span: s } }
            } else {
                let new_inner = with_bounds(*inner, bounds, i);
                Ty { span, kind: TyKind::Array { ty: Box::new(new_inner), len, len_span } }
            }
        },
        _ => Ty { span, kind },
    }
}

/// Updates the array lengths of a type, outermost first, with evaluated
/// bounds and the spans they were written at.
pub fn update_type_bounds_with_values_and_spans(ty: &mut Ty, evaluated_bounds: &[(usize, Span)])
    ensures
        *final(ty) == spec_with_bounds(*old(ty), evaluated_bounds@),
{
    let mut old_ty = Ty { span: Span { start: 0, end: 0 }, kind: TyKind::Null };
    std::mem::swap(ty, &mut old_ty);
    assert(evaluated_bounds@.subrange(0, evaluated_bounds@.len() as int) =~= evaluated_bounds@);
    *ty = with_bounds(old_ty, evaluated_bounds, 0);
}

} // verus!

verus! {

/// One entry of an initializer list, its expression already evaluated: the
/// field it names, if any, its value, and where its expression was written.
#[derive(Debug)]
pub struct InitEntry {
    pub ident: Option<Ident>,
    pub value: Numeric,
    pub span: Span,
}

/// Whether `e` names the field called `name`.
pub open spec fn spec_names(e: InitEntry, name: Seq<char>) -> bool {
    e.ident matches Some(i) && i.name@ == name
}

/// The first entry naming the field called `name`.
pub open spec fn spec_entry_for(entries: Seq<InitEntry>, name: Seq<char>) -> Option<int> {
    spec_first_index(entries, |e: InitEntry| spec_names(e, name))
}

/// Whether every entry names a field.
pub open spec fn spec_all_named(entries: Seq<InitEntry>) -> bool {
    forall|i: int| 0 <= i < entries.len() ==> (#[trigger] entries[i]).ident is Some
}

/// Whether no entry names a field.
pub open spec fn spec_all_positional(entries: Seq<InitEntry>) -> bool {
    forall|i: int| 0 <= i < entries.len() ==> (#[trigger] entries[i]).ident is None
}

/// The first member that no entry names.
pub open spec fn spec_first_missing(entries: Seq<InitEntry>, members: Seq<Member>) -> Option<int> {
    spec_first_index(members, |m: Member| spec_entry_for(entries, m.ident.name@) is None)
}

/// The fields of a named initializer: for each member, in member order, the
/// value of the first entry naming it.
pub open spec fn spec_named_fields(entries: Seq<InitEntry>, members: Seq<Member>) -> Seq<ConstView> {
    Seq::new(members.len(), |k: int| entries[spec_entry_for(entries, members[k].ident.name@)->Some_0].value@)
}

/// The fields of a positional initializer: the values of the entries, in
/// order, as far as there are members.
pub open spec fn spec_positional_fields(entries: Seq<InitEntry>, members: Seq<Member>) -> Seq<ConstView> {
    let n = if entries.len() <= members.len() { entries.len() } else { members.len() };
    Seq::new(n, |k: int| entries[k].value@)
}

/// The value of a struct initializer: a struct of type `type_id` whose
/// fields follow the members, or null when a named initializer misses a
/// member or named and positional entries are mixed. An empty list counts
/// as named.
pub open spec fn spec_struct_init(entries: Seq<InitEntry>, members: Seq<Member>, type_id: DefId) -> ConstView {
    if spec_all_named(entries) {
        if spec_first_missing(entries, members) is Some {
            ConstView::Atom(Numeric::Null)
        } else {
            ConstView::Struct { ty: type_id, fields: spec_named_fields(entries, members) }
        }
    } else if spec_all_positional(entries) {
        ConstView::Struct { ty: type_id, fields: spec_positional_fields(entries, members) }
    } else {
        ConstView::Atom(Numeric::Null)
    }
}

/// The error for a member that a named initializer leaves out.
pub open spec fn spec_missing_field_diag(m: Member) -> DiagView {
    spec_with_note(
        spec_with_note(
            spec_diag(
                Severity::Error,
                "missing required field `"@ + m.ident.name@ + "` in struct initializer"@,
                m.ident.span,
                "field is required here"@,
            ),
            "all struct fields must be initialized"@,
        ),
        "add the missing field to the initializer list"@,
    )
}

/// The error for more positional entries than members.
pub open spec fn spec_too_many_diag(expected: nat, got: nat, span: Span) -> DiagView {
    spec_diag(
        Severity::Error,
        "too many initializers for struct (expected "@ + spec_decimal(expected) + ", got "@ + spec_decimal(got) + ")"@,
        span,
        "extra initializer"@,
    )
}

/// The error for a list that mixes named and positional entries.
pub open spec fn spec_mixed_init_diag(span: Span) -> DiagView {
    spec_with_note(
        spec_with_note(
            spec_diag(
                Severity::Error,
                "cannot mix named and positional initializers"@,
                span,
                "mixing initialization styles"@,
            ),
            "use either all named fields (e.g., {.x = 1, .y = 2}) or all positional ({1, 2})"@,
        ),
        "help: consider using named initialization for clarity"@,
    )
}

/// What a struct initializer reports: the first member a named list leaves
/// out, the first entry beyond the members of a positional list, or the
/// mixing of styles.
pub open spec fn spec_struct_init_diags(entries: Seq<InitEntry>, members: Seq<Member>) -> Seq<DiagView> {
    if spec_all_named(entries) {
        match spec_first_missing(entries, members) {
            Some(k) => seq![spec_missing_field_diag(members[k])],
            None => seq![],
        }
    } else if spec_all_positional(entries) {
        if entries.len() > members.len() {
            seq![spec_too_many_diag(members.len(), entries.len(), entries[members.len() as int].span)]
        } else {
            seq![]
        }
    } else {
        seq![spec_mixed_init_diag(entries[0].span)]
    }
}

/// The first entry naming the field called `name`.
fn entry_for(entries: &[InitEntry], name: &str) -> (r: Option<usize>)
    ensures
        r matches Some(i) ==> spec_entry_for(entries@, name@) == Some(i as int) && i < entries@.len(),
        r is None ==> spec_entry_for(entries@, name@) is None,
{
    let ghost p = |e: InitEntry| spec_names(e, name@);
    let mut i: usize = 0;
    while i < entries.len()
        invariant
            0 <= i <= entries@.len(),
            p == (|e: InitEntry| spec_names(e, name@)),
            forall|j: int| 0 <= j < i ==> !p(#[trigger] entries@[j]),
        decreases entries@.len() - i,
    {
        let hit = match &entries[i].ident {
            Some(id) => str_eq(id.name.as_str(), name),
            None => false,
        };
        if hit {
            proof {
                lemma_first_index_is(entries@, p, i as int);
            }
            return Some(i);
        }
        i += 1;
    }
    proof {
        lemma_first_index(entries@, p);
    }
    None
}

/// The value of a struct initializer whose entries are already evaluated
/// (see [`spec_struct_init`]): named entries are matched to the members by
/// name, positional ones in order; a missing member, extra positional
/// entries and mixed styles are reported (see [`spec_struct_init_diags`]).
pub fn eval_struct_init(errors: &mut Vec<Diag>, entries: &[InitEntry], struct_ty: &StructTy, type_id: DefId) -> (r: Numeric)
    ensures
        r@ == spec_struct_init(entries@, struct_ty.members@, type_id),
        spec_diag_views(final(errors)@) == spec_diag_views(old(errors)@) + spec_struct_init_diags(
            entries@,
            struct_ty.members@,
        ),
{
    let ghost members = struct_ty.members@;
    let ghost before = spec_diag_views(errors@);
    let mut all_named = true;
    let mut all_positional = true;
    let mut i: usize = 0;
    while i < entries.len()
        invariant
            0 <= i <= entries@.len(),
            all_named == forall|j: int| 0 <= j < i ==> (#[trigger] entries@[j]).ident is Some,
            all_positional == forall|j: int| 0 <= j < i ==> (#[trigger] entries@[j]).ident is None,
        decreases entries@.len() - i,
    {
        if entries[i].ident.is_some() {
            all_positional = false;
        } else {
            all_named = false;
        }
        i += 1;
    }
    if all_named {
        assert(spec_all_named(entries@));
        let ghost missing = |m: Member| spec_entry_for(entries@, m.ident.name@) is None;
        let mut fields: Vec<Numeric> = Vec::new();
        let mut k: usize = 0;
        while k < struct_ty.members.len()
            invariant
                0 <= k <= members.len(),
                members == struct_ty.members@,
                missing == (|m: Member| spec_entry_for(entries@, m.ident.name@) is None),
                forall|j: int| 0 <= j < k ==> !missing(#[trigger] members[j]),
                spec_const_views(fields@) == spec_named_fields(entries@, members).subrange(0, k as int),
                errors@ == old(errors)@,
                before == spec_diag_views(old(errors)@),
                spec_all_named(entries@),
            decreases members.len() - k,
        {
            match entry_for(entries, struct_ty.members[k].ident.name.as_str()) {
                Some(j) => {
                    let v = clone_numeric(&entries[j].value);
                    proof {
                        lemma_eqv_same_view(entries@[j as int].value, v);
                        lemma_const_views_push(fields@, v);
                        lemma_first_index(entries@, |e: InitEntry| spec_names(e, members[k as int].ident.name@));
                    }
                    fields.push(v);
                    proof {
                        assert(spec_const_views(fields@) =~= spec_named_fields(entries@, members).subrange(
                            0,
                            k + 1,
                        ));
                    }
                },
                None => {
                    let m = &struct_ty.members[k];
                    let mut msg = owned("missing required field `");
                    msg.append(m.ident.name.as_str());
                    msg.append("` in struct initializer");
                    let d = diag(Severity::Error, msg, m.ident.span, owned("field is required here")).note(
                        owned("all struct fields must be initialized"),
                    ).note(owned("add the missing field to the initializer list"));
                    assert(msg@ == "missing required field `"@ + members[k as int].ident.name@ + "` in struct initializer"@);
                    assert(d@ == spec_missing_field_diag(members[k as int]));
                    errors.push(d);
                    proof {
                        lemma_first_index_is(members, missing, k as int);
                        assert(spec_diag_views(errors@) =~= before + seq![spec_missing_field_diag(members[k as int])]);
                    }
                    return Numeric::Null;
                },
            }
            k += 1;
        }
        proof {
            lemma_first_index(members, missing);
            assert(spec_named_fields(entries@, members).subrange(0, k as int) =~= spec_named_fields(entries@, members));
            assert(spec_diag_views(errors@) =~= before + seq![]);
        }
        Numeric::Struct { ty: type_id, fields }
    } else if all_positional {
        let n = struct_ty.members.len();
        let mut fields: Vec<Numeric> = Vec::new();
        let mut k: usize = 0;
        while k < entries.len() && k < n
            invariant
                0 <= k <= entries@.len(),
                k <= n,
                n == members.len(),
                members == struct_ty.members@,
                fields@.len() == k,
                spec_const_views(fields@) =~= Seq::new(k as nat, |j: int| entries@[j].value@),
            decreases entries@.len() - k,
        {
            let v = clone_numeric(&entries[k].value);
            proof {
                lemma_eqv_same_view(entries@[k as int].value, v);
                lemma_const_views_push(fields@, v);
            }
            fields.push(v);
            k += 1;
        }
        if entries.len() > n {
            let mut msg = owned("too many initializers for struct (expected ");
            msg.append(decimal_u64(n as u64).as_str());
            msg.append(", got ");
            msg.append(decimal_u64(entries.len() as u64).as_str());
            msg.append(")");
            errors.push(diag(Severity::Error, msg, entries[n].span, owned("extra initializer")));
            proof {
                assert(spec_diag_views(errors@) =~= before + seq![
                    spec_too_many_diag(members.len(), entries@.len(), entries@[members.len() as int].span),
                ]);
            }
        } else {
            proof {
                assert(spec_diag_views(errors@) =~= before + seq![]);
            }
        }
        proof {
            assert(spec_const_views(fields@) =~= spec_positional_fields(entries@, members));
        }
        Numeric::Struct { ty: type_id, fields }
    } else {
        let d = diag(
            Severity::Error,
            owned("cannot mix named and positional initializers"),
            entries[0].span,
            owned("mixing initialization styles"),
        ).note(owned("use either all named fields (e.g., {.x = 1, .y = 2}) or all positional ({1, 2})")).note(
            owned("help: consider using named initialization for clarity"),
        );
        errors.push(d);
        proof {
            assert(spec_diag_views(errors@) =~= before + seq![spec_mixed_init_diag(entries@[0].span)]);
        }
        Numeric::Null
    }
}

} // verus!

verus! {

/// The evaluated bounds a member's written type carries outside array
/// declarators: for a sequence, string or map, the bound it was written
/// with (evaluated), if any, and the same for the types inside it.
#[derive(Debug)]
pub enum BoundShape {
    Sequence { bound: Option<usize>, elem: Box<BoundShape> },
    String { bound: Option<usize> },
    Mapping { bound: Option<usize>, key: Box<BoundShape>, value: Box<BoundShape> },
    Other,
}

/// The evaluated bounds of one struct member: the lengths of an array
/// declarator, outermost first, with the spans they were written at, or
/// the bounds inside the member's type.
#[derive(Debug)]
pub enum MemberBounds {
    Array(Vec<(usize, Span)>),
    Nested(BoundShape),
}

/// A type with the bounds of `shape` written into it where the shapes
/// agree; a bound that was not written leaves the type's own.
pub open spec fn spec_with_shape(ty: Ty, shape: BoundShape) -> Ty
    decreases ty,
{
    match ty.kind {
        TyKind::Sequence { ty: inner, bound: b0, bound_span } => match shape {
            BoundShape::Sequence { bound, elem } => Ty {
                span: ty.span,
                kind: TyKind::Sequence {
                    ty: Box::new(spec_with_shape(*inner, *elem)),
                    bound: if bound is Some { bound } else { b0 },
                    bound_span,
                },
            },
            _ => ty,
        },
        TyKind::String { wide, bound: b0, bound_span } => match shape {
            BoundShape::String { bound } => Ty {
                span: ty.span,
                kind: TyKind::String { wide, bound: if bound is Some { bound } else { b0 }, bound_span },
            },
            _ => ty,
        },
        TyKind::Mapping { key, elem, bound: b0, bound_span } => match shape {
            BoundShape::Mapping { bound, key: ks, value: vs } => Ty {
                span: ty.span,
                kind: TyKind::Mapping {
                    key: Box::new(spec_with_shape(*key, *ks)),
                    elem: Box::new(spec_with_shape(*elem, *vs)),
                    bound: if bound is Some { bound } else { b0 },
                    bound_span,
                },
            },
            _ => ty,
        },
        _ => ty,
    }
}

fn with_shape(ty: Ty, shape: &BoundShape) -> (r: Ty)
    ensures
        r == spec_with_shape(ty, *shape),
    decreases ty,
{
    let Ty { span, kind } = ty;
    match kind {
        TyKind::Sequence { ty: inner, bound: b0, bound_span } => match shape {
            BoundShape::Sequence { bound, elem } => {
                let b = if bound.is_some() { *bound } else { b0 };
                let new_inner = with_shape(*inner, elem);
                Ty { span, kind: TyKind::Sequence { ty: Box::new(new_inner), bound: b, bound_span } }
            },
            _ => Ty { span, kind: TyKind::Sequence { ty: inner, bound: b0, bound_span } },
        },
        TyKind::String { wide, bound: b0, bound_span } => match shape {
            BoundShape::String { bound } => {
                let b = if bound.is_some() { *bound } else { b0 };
                Ty { span, kind: TyKind::String { wide, bound: b, bound_span } }
            },
            _ => Ty { span, kind: TyKind::String { wide, bound: b0, bound_span } },
        },
        TyKind::Mapping { key, elem, bound: b0, bound_span } => match shape {
            BoundShape::Mapping { bound, key: ks, value: vs } => {
                let b = if bound.is_some() { *bound } else { b0 };
                let new_key = with_shape(*key, ks);
                let new_elem = with_shape(*elem, vs);
                Ty {
                    span,
                    kind: TyKind::Mapping { key: Box::new(new_key), elem: Box::new(new_elem), bound: b, bound_span },
                }
            },
            _ => Ty { span, kind: TyKind::Mapping { key, elem, bound: b0, bound_span } },
        },
        _ => Ty { span, kind },
    }
}

/// A member's type with its evaluated bounds written into it.
pub open spec fn spec_member_bounded(ty: Ty, b: MemberBounds) -> Ty {
    match b {
        MemberBounds::Array(bounds) => spec_with_bounds(ty, bounds@),
        MemberBounds::Nested(shape) => spec_with_shape(ty, shape),
    }
}

/// The members of a struct with the evaluated bounds of the first ones
/// (one entry per member, in order) written into their types; members
/// beyond the bounds keep their types.
pub open spec fn spec_bounded_members(members: Seq<Member>, bounds: Seq<MemberBounds>) -> Seq<Member> {
    Seq::new(
        members.len(),
        |k: int|
            if k < bounds.len() {
                Member { ty: spec_member_bounded(members[k].ty, bounds[k]), ..members[k] }
            } else {
                members[k]
            },
    )
}

/// Whether `n` is definition `d` after its struct members took their
/// evaluated bounds; a definition of another kind stays as it is.
pub open spec fn spec_struct_bounded(d: Def, n: Def, bounds: Seq<MemberBounds>) -> bool {
    match d.kind {
        DefKind::Struct(s) => {
            &&& n.kind matches DefKind::Struct(s2) && s2.parent == s.parent && s2.members@ == spec_bounded_members(
                s.members@,
                bounds,
            )
            &&& n.id == d.id && n.ident == d.ident && n.parent == d.parent && n.annotations == d.annotations
            &&& n.span == d.span && n.flags == d.flags
        },
        _ => n == d,
    }
}

fn bounded_member(ty: Ty, b: &MemberBounds) -> (r: Ty)
    ensures
        r == spec_member_bounded(ty, *b),
{
    match b {
        MemberBounds::Array(bounds) => {
            assert(bounds@.subrange(0, bounds@.len() as int) =~= bounds@);
            let mut t = ty;
            update_type_bounds_with_values_and_spans(&mut t, bounds.as_slice());
            t
        },
        MemberBounds::Nested(shape) => with_shape(ty, shape),
    }
}

/// Writes the evaluated bounds of a struct definition's members into their
/// types: array lengths for members declared as arrays, sequence, string
/// and map bounds for the others (one entry of `bounds` per member, in
/// order). Nothing else changes.
pub fn evaluate_struct(ctx: &mut Context, id: DefId, bounds: &[MemberBounds])
    requires
        id < old(ctx).definitions@.len(),
    ensures
        final(ctx).definitions@.len() == old(ctx).definitions@.len(),
        forall|j: int|
            0 <= j < old(ctx).definitions@.len() && j != id ==> final(ctx).definitions@[j] == old(ctx).definitions@[j],
        spec_struct_bounded(old(ctx).definitions@[id as int], final(ctx).definitions@[id as int], bounds@),
{
    let d = ctx.definitions.remove(id);
    let ghost od = d;
    let Def { id: did, ident, parent, annotations, span, kind, flags } = d;
    let kind = match kind {
        DefKind::Struct(s) => {
            let StructTy { parent: sparent, members } = s;
            let ghost orig = members@;
            assert(orig.len() == members.len());
            let mut rest = members;
            let mut out: Vec<Member> = Vec::new();
            let mut k: usize = 0;
            while rest.len() > 0
                invariant
                    k + rest@.len() == orig.len(),
                    orig.len() <= usize::MAX,
                    rest@ == orig.subrange(k as int, orig.len() as int),
                    out@ == spec_bounded_members(orig, bounds@).subrange(0, k as int),
                decreases rest@.len(),
            {
                let m = rest.remove(0);
                proof {
                    assert(m == orig[k as int]);
                }
                let Member { ident: mi, ty: mt, annotations: ma } = m;
                let nt = if k < bounds.len() {
                    bounded_member(mt, &bounds[k])
                } else {
                    mt
                };
                out.push(Member { ident: mi, ty: nt, annotations: ma });
                proof {
                    assert(rest@ =~= orig.subrange(k + 1, orig.len() as int));
                    assert(out@ =~= spec_bounded_members(orig, bounds@).subrange(0, k + 1));
                }
                k += 1;
            }
            proof {
                assert(out@ =~= spec_bounded_members(orig, bounds@));
            }
            DefKind::Struct(StructTy { parent: sparent, members: out })
        },
        other => other,
    };
    let nd = Def { id: did, ident, parent, annotations, span, kind, flags };
    assert(spec_struct_bounded(od, nd, bounds@));
    ctx.definitions.insert(id, nd);
}

} // verus!

verus! {

/// The values of an enum's enumerators, in order: one written with a value
/// takes that value (its evaluated bound, as a signed size); one written
/// without follows the previous enumerator by one, the first being 0.
pub open spec fn spec_enumerator_values(written: Seq<Option<usize>>) -> Seq<int>
    decreases written.len(),
{
    if written.len() == 0 {
        seq![]
    } else {
        let prev = spec_enumerator_values(written.drop_last());
        let v = match written.last() {
            Some(b) => (b as isize) as int,
            None => if prev.len() == 0 { 0 } else { prev.last() + 1 },
        };
        prev.push(v)
    }
}

proof fn lemma_enumerator_values_len(written: Seq<Option<usize>>)
    ensures
        spec_enumerator_values(written).len() == written.len(),
    decreases written.len(),
{
    if written.len() > 0 {
        lemma_enumerator_values_len(written.drop_last());
    }
}

proof fn lemma_enumerator_prefix(s: Seq<Option<usize>>, k: int)
    requires
        0 <= k <= s.len(),
    ensures
        spec_enumerator_values(s.subrange(0, k)).len() == k,
        forall|j: int| 0 <= j < k ==> spec_enumerator_values(s.subrange(0, k))[j] == spec_enumerator_values(s)[j],
    decreases s.len(),
{
    lemma_enumerator_values_len(s.subrange(0, k));
    lemma_enumerator_values_len(s);
    if k < s.len() {
        assert(s.drop_last().subrange(0, k) =~= s.subrange(0, k));
        lemma_enumerator_prefix(s.drop_last(), k);
        lemma_enumerator_values_len(s.drop_last());
    } else {
        assert(s.subrange(0, k) =~= s);
    }
}

/// Numbers the enumerators of an enum (see [`spec_enumerator_values`]),
/// given the evaluated bound of each one written with a value.
pub fn enumerator_values(written: &[Option<usize>]) -> (r: Vec<isize>)
    requires
        forall|i: int| 0 <= i < written@.len() ==> #[trigger] spec_enumerator_values(written@)[i] <= isize::MAX,
    ensures
        r@.len() == written@.len(),
        forall|i: int| 0 <= i < r@.len() ==> r@[i] == #[trigger] spec_enumerator_values(written@)[i],
{
    let mut r: Vec<isize> = Vec::new();
    let mut last: isize = -1;
    let mut i: usize = 0;
    proof {
        lemma_enumerator_values_len(written@);
    }
    while i < written.len()
        invariant
            0 <= i <= written@.len(),
            spec_enumerator_values(written@).len() == written@.len(),
            forall|j: int| 0 <= j < written@.len() ==> #[trigger] spec_enumerator_values(written@)[j] <= isize::MAX,
            r@.len() == i,
            forall|j: int| 0 <= j < i ==> r@[j] == spec_enumerator_values(written@)[j],
            i == 0 ==> last == -1,
            i > 0 ==> last == spec_enumerator_values(written@)[i - 1],
        decreases written@.len() - i,
    {
        let ghost p = written@.subrange(0, i + 1);
        proof {
            assert(p.drop_last() =~= written@.subrange(0, i as int));
            lemma_enumerator_prefix(written@, i + 1);
            lemma_enumerator_prefix(written@, i as int);
            lemma_enumerator_values_len(p);
            assert(spec_enumerator_values(p)[i as int] == spec_enumerator_values(written@)[i as int]);
            if i > 0 {
                assert(spec_enumerator_values(p.drop_last()).last() == spec_enumerator_values(written@)[i - 1]);
            }
        }
        let v: isize = match written[i] {
            Some(b) => b as isize,
            None => last + 1,
        };
        r.push(v);
        last = v;
        i += 1;
    }
    r
}

} // verus!

verus! {

/// The values of a bitmask's flags, in order: one written with a position
/// is the bit at that position; one written without is the next bit after
/// the previous flag's, the first being bit 0.
pub open spec fn spec_flag_values(written: Seq<Option<usize>>) -> Seq<usize>
    decreases written.len(),
{
    if written.len() == 0 {
        seq![]
    } else {
        let prev = spec_flag_values(written.drop_last());
        let last: usize = if prev.len() == 0 { 0 } else { prev.last() };
        let v: usize = match written.last() {
            Some(pos) => 1usize << pos,
            None => if last == 0 { 1 } else { last << 1usize },
        };
        prev.push(v)
    }
}

proof fn lemma_flag_values_len(written: Seq<Option<usize>>)
    ensures
        spec_flag_values(written).len() == written.len(),
    decreases written.len(),
{
    if written.len() > 0 {
        lemma_flag_values_len(written.drop_last());
    }
}

/// Gives the flags of a bitmask their values (see [`spec_flag_values`]),
/// given the evaluated position of each one written with a position.
pub fn flag_values(written: &[Option<usize>]) -> (r: Vec<usize>)
    requires
        forall|i: int| 0 <= i < written@.len() ==> (#[trigger] written@[i] matches Some(p) ==> p < usize::BITS),
    ensures
        r@ == spec_flag_values(written@),
{
    let mut r: Vec<usize> = Vec::new();
    let mut last: usize = 0;
    let mut i: usize = 0;
    proof {
        lemma_flag_values_len(written@);
    }
    while i < written.len()
        invariant
            0 <= i <= written@.len(),
            forall|j: int| 0 <= j < written@.len() ==> (#[trigger] written@[j] matches Some(p) ==> p < usize::BITS),
            spec_flag_values(written@).len() == written@.len(),
            r@ == spec_flag_values(written@.subrange(0, i as int)),
            i == 0 ==> last == 0,
            i > 0 ==> last == r@.last(),
        decreases written@.len() - i,
    {
        let ghost p = written@.subrange(0, i + 1);
        proof {
            assert(p.drop_last() =~= written@.subrange(0, i as int));
            lemma_flag_values_len(written@.subrange(0, i as int));
        }
        let v: usize = match written[i] {
            Some(pos) => 1usize << pos,
            None => if last == 0 {
                1
            } else {
                last << 1usize
            },
        };
        r.push(v);
        last = v;
        i += 1;
    }
    proof {
        assert(written@.subrange(0, i as int) =~= written@);
    }
    r
}

} // verus!

verus! {

/// Definition `d` with its constant value set to `v`, as a 64-bit signed
/// integer; a definition that is not a constant stays as it is.
pub open spec fn spec_with_const_value(d: Def, v: int) -> Def {
    match d.kind {
        DefKind::Const(c) => Def { kind: DefKind::Const(ConstTy { value: Numeric::Int64(v as i64), ty: c.ty }), ..d },
        _ => d,
    }
}

/// The definitions after the first `k` enumerators (`fields`, in order)
/// were given the values `values`.
pub open spec fn spec_enumerators_written(defs: Seq<Def>, fields: Seq<DefId>, values: Seq<int>, k: int) -> Seq<Def>
    decreases k,
{
    if k <= 0 {
        defs
    } else {
        let prev = spec_enumerators_written(defs, fields, values, k - 1);
        let f = fields[k - 1] as int;
        if 0 <= f < prev.len() {
            prev.update(f, spec_with_const_value(prev[f], values[k - 1]))
        } else {
            prev
        }
    }
}

proof fn lemma_enumerators_written_len(defs: Seq<Def>, fields: Seq<DefId>, values: Seq<int>, k: int)
    ensures
        spec_enumerators_written(defs, fields, values, k).len() == defs.len(),
    decreases k,
{
    if k > 0 {
        lemma_enumerators_written_len(defs, fields, values, k - 1);
    }
}

/// The enumerators of enum definition `d`, none when it is not an enum.
pub open spec fn spec_enum_fields(d: Def) -> Seq<DefId> {
    match d.kind {
        DefKind::Enum(e) => e.fields@,
        _ => seq![],
    }
}

/// Evaluates enums once each: it remembers which it has evaluated.
pub struct EnumEvaluator {
    evaluated: Vec<DefId>,
}

impl EnumEvaluator {
    /// The enums evaluated so far.
    pub closed spec fn evaluated(&self) -> Seq<DefId> {
        self.evaluated@
    }

    /// An evaluator that has evaluated nothing.
    pub fn new() -> (e: Self)
        ensures
            e.evaluated().len() == 0,
    {
        EnumEvaluator { evaluated: Vec::new() }
    }

    fn has_evaluated(&self, id: DefId) -> (r: bool)
        ensures
            r == self.evaluated().contains(id),
    {
        let mut i: usize = 0;
        while i < self.evaluated.len()
            invariant
                0 <= i <= self.evaluated@.len(),
                forall|j: int| 0 <= j < i ==> self.evaluated@[j] != id,
            decreases self.evaluated@.len() - i,
        {
            if self.evaluated[i] == id {
                assert(self.evaluated@[i as int] == id);
                return true;
            }
            i += 1;
        }
        false
    }

    /// Evaluates enum `id`, whose enumerators were written with the
    /// evaluated values `written` (`None` where no value was written): each
    /// enumerator's constant takes its value (see
    /// [`spec_enumerator_values`]), as far as both lists go, and the enum
    /// is remembered as evaluated. An enum evaluated before is left alone.
    pub fn evaluate_enum(&mut self, ctx: &mut Context, id: DefId, written: &[Option<usize>])
        requires
            id < old(ctx).definitions@.len(),
            forall|i: int| 0 <= i < written@.len() ==> #[trigger] spec_enumerator_values(written@)[i] <= isize::MAX,
        ensures
            old(self).evaluated().contains(id) ==> *final(self) == *old(self) && final(ctx).definitions@ == old(
                ctx,
            ).definitions@,
            !old(self).evaluated().contains(id) ==> {
                let fields = spec_enum_fields(old(ctx).definitions@[id as int]);
                let k = if fields.len() <= written@.len() { fields.len() } else { written@.len() };
                &&& final(self).evaluated() == old(self).evaluated().push(id)
                &&& final(ctx).definitions@ == spec_enumerators_written(
                    old(ctx).definitions@,
                    fields,
                    spec_enumerator_values(written@),
                    k as int,
                )
            },
    {
        if self.has_evaluated(id) {
            return;
        }
        let values = enumerator_values(written);
        let mut fields: Vec<DefId> = Vec::new();
        match &ctx.definitions[id].kind {
            DefKind::Enum(e) => {
                let mut j: usize = 0;
                while j < e.fields.len()
                    invariant
                        0 <= j <= e.fields@.len(),
                        fields@ == e.fields@.subrange(0, j as int),
                    decreases e.fields@.len() - j,
                {
                    fields.push(e.fields[j]);
                    assert(fields@ =~= e.fields@.subrange(0, j + 1));
                    j += 1;
                }
                assert(fields@ =~= e.fields@);
            },
            _ => {},
        }
        let ghost defs0 = ctx.definitions@;
        let ghost vals = spec_enumerator_values(written@);
        assert(fields@ == spec_enum_fields(defs0[id as int]));
        let n = if fields.len() <= written.len() {
            fields.len()
        } else {
            written.len()
        };
        let mut i: usize = 0;
        while i < n
            invariant
                0 <= i <= n,
                n <= fields@.len(),
                n <= values@.len(),
                values@.len() == written@.len(),
                forall|j: int| 0 <= j < values@.len() ==> values@[j] == vals[j],
                ctx.definitions@ == spec_enumerators_written(defs0, fields@, vals, i as int),
            decreases n - i,
        {
            let f = fields[i];
            proof {
                lemma_enumerators_written_len(defs0, fields@, vals, i as int);
            }
            if f < ctx.definitions.len() {
                let d = ctx.definitions.remove(f);
                let Def { id: did, ident, parent, annotations, span, kind, flags } = d;
                let ghost od = d;
                let kind = match kind {
                    DefKind::Const(c) => DefKind::Const(ConstTy { value: Numeric::Int64(values[i] as i64), ty: c.ty }),
                    other => other,
                };
                let nd = Def { id: did, ident, parent, annotations, span, kind, flags };
                assert(nd == spec_with_const_value(od, vals[i as int]));
                ctx.definitions.insert(f, nd);
                assert(ctx.definitions@ =~= spec_enumerators_written(defs0, fields@, vals, i as int).update(
                    f as int,
                    nd,
                ));
            }
            i += 1;
        }
        self.evaluated.push(id);
    }
}

} // verus!

verus! {

/// A constant's value converted to its declared type, on views (see
/// [`spec_convert_to_type`]).
pub open spec fn spec_convert_view(v: ConstView, ty: Ty) -> ConstView {
    match v {
        ConstView::Atom(n) => ConstView::Atom(spec_convert_to_type(n, ty)),
        _ => v,
    }
}

/// Whether `e` is a string literal written for a constant of type `ty`
/// that is a string type.
pub open spec fn spec_string_literal_for(e: ConstExpr, ty: Ty) -> bool {
    ty.kind is String && e matches ConstExpr::Literal { value: Numeric::String(_), .. }
}

/// The type a constant declared with type `ty` has once the evaluated
/// lengths of its array declarator, if any, are written into it.
pub open spec fn spec_const_ty(ty: Ty, bounds: Option<Vec<(usize, Span)>>) -> Ty {
    match bounds {
        Some(b) => spec_with_bounds(ty, b@),
        None => ty,
    }
}

/// The value a constant of type `ty` takes from the expression `e` written
/// for it: a string literal for a string constant as written; anything
/// else evaluated against the type, null where that gives no value; then
/// converted to the type.
pub open spec fn spec_const_value(defs: Seq<Def>, e: ConstExpr, ty: Ty) -> ConstView {
    let raw = if spec_string_literal_for(e, ty) {
        ConstView::Atom(e->Literal_value)
    } else {
        match spec_eval_for_type(defs, e, ty).0 {
            Some(v) => v,
            None => ConstView::Atom(Numeric::Null),
        }
    };
    spec_convert_view(raw, ty)
}

/// Evaluates constant `id` declared with the expression `value`: writes
/// the evaluated lengths of its array declarator (`bounds`, outermost
/// first, if it is declared as an array) into its type, then sets its value
/// (see [`spec_const_value`]). The diagnostics are those of evaluating the
/// expression against the type; a string literal for a string constant
/// reports nothing.
pub fn evaluate_const(
    diagnostics: &mut Diagnostics,
    ctx: &mut Context,
    id: DefId,
    bounds: Option<Vec<(usize, Span)>>,
    value: &ConstExpr,
)
    requires
        id < old(ctx).definitions@.len(),
        old(ctx).definitions@[id as int].kind matches DefKind::Const(c) && (!spec_string_literal_for(
            *value,
            spec_const_ty(c.ty, bounds),
        ) ==> spec_for_type_ok(old(ctx).definitions@, *value, spec_const_ty(c.ty, bounds))),
    ensures
        final(ctx).definitions@.len() == old(ctx).definitions@.len(),
        forall|j: int|
            0 <= j < old(ctx).definitions@.len() && j != id ==> final(ctx).definitions@[j] == old(ctx).definitions@[j],
        ({
            let o = old(ctx).definitions@[id as int];
            let n = final(ctx).definitions@[id as int];
            let ty = spec_const_ty(o.kind->Const_0.ty, bounds);
            &&& n.id == o.id && n.ident == o.ident && n.parent == o.parent && n.annotations == o.annotations
            &&& n.span == o.span && n.flags == o.flags
            &&& n.kind matches DefKind::Const(c) && c.ty == ty && c.value@ == spec_const_value(
                old(ctx).definitions@,
                *value,
                ty,
            )
        }),
        ({
            let ty = spec_const_ty(old(ctx).definitions@[id as int].kind->Const_0.ty, bounds);
            if spec_string_literal_for(*value, ty) {
                *final(diagnostics) == *old(diagnostics)
            } else {
                spec_gained(
                    *old(diagnostics),
                    *final(diagnostics),
                    spec_eval_for_type(old(ctx).definitions@, *value, ty).1,
                    spec_eval_for_type(old(ctx).definitions@, *value, ty).2,
                )
            }
        }),
{
    let mut ty = match &ctx.definitions[id].kind {
        DefKind::Const(c) => clone_ty(&c.ty),
        _ => Ty { span: Span { start: 0, end: 0 }, kind: TyKind::Any },
    };
    match &bounds {
        Some(b) => {
            assert(b@.subrange(0, b@.len() as int) =~= b@);
            update_type_bounds_with_values_and_spans(&mut ty, b.as_slice());
        },
        None => {},
    }
    let is_string = match &ty.kind {
        TyKind::String { .. } => true,
        _ => false,
    };
    let raw = match value {
        ConstExpr::Literal { value: Numeric::String(s), .. } if is_string => Numeric::String(s.clone()),
        _ => match eval_for_type(diagnostics, ctx, value, &ty) {
            Some(v) => v,
            None => Numeric::Null,
        },
    };
    let converted = convert_to_type(raw, &ty);
    proof {
        assert(spec_const_view(converted) == spec_convert_view(spec_const_view(raw), ty));
    }
    let d = ctx.definitions.remove(id);
    let Def { id: did, ident, parent, annotations, span, kind: _, flags } = d;
    ctx.definitions.insert(
        id,
        Def { id: did, ident, parent, annotations, span, kind: DefKind::Const(ConstTy { value: converted, ty }), flags },
    );
}

} // verus!
