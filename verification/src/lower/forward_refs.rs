//! Once every item is lowered, references to forward declarations that have
//! a definition are redirected to that definition, and forward declarations
//! that were never defined are reported.

use vstd::prelude::*;
use std::collections::HashMap;
use vstd::std_specs::iter::IteratorSpec;
use crate::ctx::Context;
use crate::deps::{
    spec_any, spec_def_refers, spec_entries_refer, spec_numeric_refers, spec_spanned_refer, spec_ty_refers,
    spec_values_refer,
};
use crate::diag::{DiagView, Diagnostics, Severity, diag, spec_diag, spec_diag_views};
use crate::hir::{
    AliasTy, Attribute, ConstTy, ConstView, Decl, Def, DefId, DefKind, Disc, ExceptTy, InterfaceTy, Label, Member, Numeric,
    Parameter, ProtoTy, Spanned, StructTy, Ty, TyKind, UnionTy, ValueTy, Variant, spec_const_view, spec_const_views,
    spec_entry_views,
};
use crate::text::owned;
use super::registry::{DefinitionRegistry, RegistryKey, spec_declared_under};

verus! {

/// Where a reference to `id` ends: the definition that `m` maps a forward
/// declaration to, else `id` itself.
pub open spec fn spec_remap_id(m: Map<DefId, DefId>, id: DefId) -> DefId {
    if m.contains_key(id) {
        m[id]
    } else {
        id
    }
}

/// A type with every named type redirected through `m`.
pub open spec fn spec_remap_ty(ty: Ty, m: Map<DefId, DefId>) -> Ty
    decreases ty,
{
    Ty {
        span: ty.span,
        kind: match ty.kind {
            TyKind::Adt(id) => TyKind::Adt(spec_remap_id(m, id)),
            TyKind::Array { ty: inner, len, len_span } => TyKind::Array {
                ty: Box::new(spec_remap_ty(*inner, m)),
                len,
                len_span,
            },
            TyKind::Sequence { ty: inner, bound, bound_span } => TyKind::Sequence {
                ty: Box::new(spec_remap_ty(*inner, m)),
                bound,
                bound_span,
            },
            TyKind::Mapping { key, elem, bound, bound_span } => TyKind::Mapping {
                key: Box::new(spec_remap_ty(*key, m)),
                elem: Box::new(spec_remap_ty(*elem, m)),
                bound,
                bound_span,
            },
            k => k,
        },
    }
}

/// A constant value with every reference to a constant, every struct or
/// union it instantiates and every type it carries redirected through `m`.
pub open spec fn spec_remap_view(v: ConstView, m: Map<DefId, DefId>) -> ConstView
    decreases v,
{
    match v {
        ConstView::Atom(n) => match n {
            Numeric::Const(id) => ConstView::Atom(Numeric::Const(spec_remap_id(m, id))),
            _ => v,
        },
        ConstView::Array { ty, values } => ConstView::Array {
            ty: spec_remap_ty(ty, m),
            values: spec_remap_views(values, m),
        },
        ConstView::Sequence { ty, values } => ConstView::Sequence {
            ty: spec_remap_ty(ty, m),
            values: spec_remap_views(values, m),
        },
        ConstView::Mapping { key, value, entries } => ConstView::Mapping {
            key: spec_remap_ty(key, m),
            value: spec_remap_ty(value, m),
            entries: spec_remap_entries(entries, m),
        },
        ConstView::Struct { ty, fields } => ConstView::Struct {
            ty: spec_remap_id(m, ty),
            fields: spec_remap_views(fields, m),
        },
        ConstView::Union { ty, discriminant, field_index, value } => ConstView::Union {
            ty: spec_remap_id(m, ty),
            discriminant: Box::new(spec_remap_view(*discriminant, m)),
            field_index,
            value: Box::new(spec_remap_view(*value, m)),
        },
    }
}

/// A list of constant values, each redirected through `m`.
pub open spec fn spec_remap_views(s: Seq<ConstView>, m: Map<DefId, DefId>) -> Seq<ConstView>
    decreases s,
{
    if s.len() == 0 {
        Seq::empty()
    } else {
        spec_remap_views(s.drop_last(), m).push(spec_remap_view(s.last(), m))
    }
}

/// A list of map entries, each key and value redirected through `m`.
pub open spec fn spec_remap_entries(s: Seq<(ConstView, ConstView)>, m: Map<DefId, DefId>) -> Seq<
    (ConstView, ConstView),
>
    decreases s,
{
    if s.len() == 0 {
        Seq::empty()
    } else {
        spec_remap_entries(s.drop_last(), m).push((spec_remap_view(s.last().0, m), spec_remap_view(s.last().1, m)))
    }
}

/// Where a reference to `id` ends, by the forward-to-definition map.
fn remap_id(mapping: &HashMap<DefId, DefId>, id: DefId) -> (r: DefId)
    ensures
        r == spec_remap_id(mapping@, id),
{
    broadcast use vstd::std_specs::hash::group_hash_axioms;

    match mapping.get(&id) {
        Some(new_id) => *new_id,
        None => id,
    }
}

/// A copy of `ty` with every named type redirected.
fn remap_ty(ty: &Ty, mapping: &HashMap<DefId, DefId>) -> (r: Ty)
    ensures
        r == spec_remap_ty(*ty, mapping@),
    decreases ty,
{
    let kind = match &ty.kind {
        TyKind::Any => TyKind::Any,
        TyKind::Fixed => TyKind::Fixed,
        TyKind::Primitive(p) => TyKind::Primitive(*p),
        TyKind::Array { ty: inner, len, len_span } => TyKind::Array {
            ty: Box::new(remap_ty(inner, mapping)),
            len: *len,
            len_span: *len_span,
        },
        TyKind::Sequence { ty: inner, bound, bound_span } => TyKind::Sequence {
            ty: Box::new(remap_ty(inner, mapping)),
            bound: *bound,
            bound_span: *bound_span,
        },
        TyKind::String { wide, bound, bound_span } => TyKind::String {
            wide: *wide,
            bound: *bound,
            bound_span: *bound_span,
        },
        TyKind::Mapping { key, elem, bound, bound_span } => TyKind::Mapping {
            key: Box::new(remap_ty(key, mapping)),
            elem: Box::new(remap_ty(elem, mapping)),
            bound: *bound,
            bound_span: *bound_span,
        },
        TyKind::Null => TyKind::Null,
        TyKind::Adt(id) => TyKind::Adt(remap_id(mapping, *id)),
    };
    Ty { span: ty.span, kind }
}

/// Update type references to replace forward declarations by their
/// definitions.
pub fn update_type_references(ty: &mut Ty, mapping: &HashMap<DefId, DefId>)
    ensures
        *final(ty) == spec_remap_ty(*old(ty), mapping@),
{
    let t = remap_ty(ty, mapping);
    *ty = t;
}

proof fn lemma_remap_views_push(s: Seq<ConstView>, v: ConstView, m: Map<DefId, DefId>)
    ensures
        spec_remap_views(s.push(v), m) == spec_remap_views(s, m).push(spec_remap_view(v, m)),
{
    assert(s.push(v).drop_last() =~= s);
}

proof fn lemma_remap_entries_push(s: Seq<(ConstView, ConstView)>, e: (ConstView, ConstView), m: Map<DefId, DefId>)
    ensures
        spec_remap_entries(s.push(e), m) == spec_remap_entries(s, m).push(
            (spec_remap_view(e.0, m), spec_remap_view(e.1, m)),
        ),
{
    assert(s.push(e).drop_last() =~= s);
}

proof fn lemma_views_prefix(s: Seq<Numeric>, i: int)
    requires
        0 <= i < s.len(),
    ensures
        spec_const_views(s.subrange(0, i + 1)) == spec_const_views(s.subrange(0, i)).push(spec_const_view(s[i])),
{
    assert(s.subrange(0, i + 1).drop_last() =~= s.subrange(0, i));
}

proof fn lemma_entry_views_prefix(s: Seq<(Numeric, Numeric)>, i: int)
    requires
        0 <= i < s.len(),
    ensures
        spec_entry_views(s.subrange(0, i + 1)) == spec_entry_views(s.subrange(0, i)).push(
            (spec_const_view(s[i].0), spec_const_view(s[i].1)),
        ),
{
    assert(s.subrange(0, i + 1).drop_last() =~= s.subrange(0, i));
}

/// A constant value with its references redirected.
fn remap_numeric(n: Numeric, mapping: &HashMap<DefId, DefId>) -> (r: Numeric)
    ensures
        r@ == spec_remap_view(n@, mapping@),
    decreases n, 1nat,
{
    let ghost n0 = n;
    match n {
        Numeric::Const(id) => Numeric::Const(remap_id(mapping, id)),
        Numeric::Array { ty, values } => {
            proof {
                assert(decreases_to!(n0 => values@));
            }
            Numeric::Array { ty: remap_ty(&ty, mapping), values: remap_values(values, mapping) }
        },
        Numeric::Sequence { ty, values } => {
            proof {
                assert(decreases_to!(n0 => values@));
            }
            Numeric::Sequence { ty: remap_ty(&ty, mapping), values: remap_values(values, mapping) }
        },
        Numeric::Mapping { key, value, entries } => {
            proof {
                assert(decreases_to!(n0 => entries@));
            }
            Numeric::Mapping {
                key: remap_ty(&key, mapping),
                value: remap_ty(&value, mapping),
                entries: remap_entries(entries, mapping),
            }
        },
        Numeric::Struct { ty, fields } => {
            proof {
                assert(decreases_to!(n0 => fields@));
            }
            Numeric::Struct { ty: remap_id(mapping, ty), fields: remap_values(fields, mapping) }
        },
        Numeric::Union { ty, discriminant, field_index, value } => Numeric::Union {
            ty: remap_id(mapping, ty),
            discriminant: Box::new(remap_numeric(*discriminant, mapping)),
            field_index,
            value: Box::new(remap_numeric(*value, mapping)),
        },
        other => other,
    }
}

/// A list of constant values, each with its references redirected.
fn remap_values(values: Vec<Numeric>, mapping: &HashMap<DefId, DefId>) -> (r: Vec<Numeric>)
    ensures
        spec_const_views(r@) == spec_remap_views(spec_const_views(values@), mapping@),
    decreases values@, 0nat,
{
    let ghost orig = values@;
    let mut src = values;
    let mut out: Vec<Numeric> = Vec::new();
    let mut i: usize = 0;
    while i < src.len()
        invariant
            orig == values@,
            i <= src@.len(),
            src@.len() == orig.len(),
            forall|j: int| i <= j < orig.len() ==> src@[j] == orig[j],
            spec_const_views(out@) == spec_remap_views(spec_const_views(orig.subrange(0, i as int)), mapping@),
        decreases orig.len() - i,
    {
        let x = src.remove(i);
        proof {
            assert(x == orig[i as int]);
            assert(decreases_to!(orig => orig[i as int]));
        }
        let y = remap_numeric(x, mapping);
        let ghost before = out@;
        out.push(y);
        src.insert(i, Numeric::Null);
        proof {
            lemma_views_prefix(orig, i as int);
            lemma_remap_views_push(spec_const_views(orig.subrange(0, i as int)), spec_const_view(orig[i as int]), mapping@);
            crate::hir::lemma_const_views_push(before, y);
        }
        i += 1;
    }
    assert(orig.subrange(0, i as int) =~= orig);
    out
}

/// A list of map entries, each key and value with its references
/// redirected.
fn remap_entries(entries: Vec<(Numeric, Numeric)>, mapping: &HashMap<DefId, DefId>) -> (r: Vec<(Numeric, Numeric)>)
    ensures
        spec_entry_views(r@) == spec_remap_entries(spec_entry_views(entries@), mapping@),
    decreases entries@, 0nat,
{
    let ghost orig = entries@;
    let mut src = entries;
    let mut out: Vec<(Numeric, Numeric)> = Vec::new();
    let mut i: usize = 0;
    while i < src.len()
        invariant
            orig == entries@,
            i <= src@.len(),
            src@.len() == orig.len(),
            forall|j: int| i <= j < orig.len() ==> src@[j] == orig[j],
            spec_entry_views(out@) == spec_remap_entries(spec_entry_views(orig.subrange(0, i as int)), mapping@),
        decreases orig.len() - i,
    {
        let (k, v) = src.remove(i);
        proof {
            assert((k, v) == orig[i as int]);
            assert(decreases_to!(orig => orig[i as int].0));
            assert(decreases_to!(orig => orig[i as int].1));
        }
        let k2 = remap_numeric(k, mapping);
        let v2 = remap_numeric(v, mapping);
        let ghost before = out@;
        out.push((k2, v2));
        src.insert(i, (Numeric::Null, Numeric::Null));
        proof {
            lemma_entry_views_prefix(orig, i as int);
            lemma_remap_entries_push(
                spec_entry_views(orig.subrange(0, i as int)),
                (spec_const_view(orig[i as int].0), spec_const_view(orig[i as int].1)),
                mapping@,
            );
            crate::hir::lemma_entry_views_push(before, (k2, v2));
        }
        i += 1;
    }
    assert(orig.subrange(0, i as int) =~= orig);
    out
}

/// Update numeric references to replace forward declarations by their
/// definitions.
pub fn update_numeric_references(numeric: &mut Numeric, mapping: &HashMap<DefId, DefId>)
    ensures
        final(numeric)@ == spec_remap_view(old(numeric)@, mapping@),
{
    let mut taken = Numeric::Null;
    std::mem::swap(&mut taken, numeric);
    *numeric = remap_numeric(taken, mapping);
}


/// A member with its type redirected.
pub open spec fn spec_remap_member(x: Member, m: Map<DefId, DefId>) -> Member {
    Member { ident: x.ident, ty: spec_remap_ty(x.ty, m), annotations: x.annotations }
}

/// A union variant with its type redirected.
pub open spec fn spec_remap_variant(x: Variant, m: Map<DefId, DefId>) -> Variant {
    Variant {
        annotations: x.annotations,
        ident: x.ident,
        ty: spec_remap_ty(x.ty, m),
        labels: x.labels,
        is_default: x.is_default,
    }
}

/// An operation parameter with its type redirected.
pub open spec fn spec_remap_param(x: Parameter, m: Map<DefId, DefId>) -> Parameter {
    Parameter { ident: x.ident, ty: spec_remap_ty(x.ty, m), kind: x.kind }
}

/// An attribute with its type redirected.
pub open spec fn spec_remap_attribute(x: Attribute, m: Map<DefId, DefId>) -> Attribute {
    Attribute {
        ident: x.ident,
        ty: spec_remap_ty(x.ty, m),
        is_readonly: x.is_readonly,
        getraises: x.getraises,
        setraises: x.setraises,
        annotations: x.annotations,
    }
}

/// A reference to a definition, redirected.
pub open spec fn spec_remap_spanned(x: Spanned, m: Map<DefId, DefId>) -> Spanned {
    Spanned { def_id: spec_remap_id(m, x.def_id), span: x.span }
}

/// An optional reference to a definition, redirected.
pub open spec fn spec_remap_spanned_opt(o: Option<Spanned>, m: Map<DefId, DefId>) -> Option<Spanned> {
    match o {
        Some(x) => Some(spec_remap_spanned(x, m)),
        None => None,
    }
}

/// Whether operation `b` is `a` with its return type and the types of its
/// parameters redirected.
pub open spec fn spec_proto_remapped(a: ProtoTy, b: ProtoTy, m: Map<DefId, DefId>) -> bool {
    &&& b.ident == a.ident
    &&& b.ty == spec_remap_ty(a.ty, m)
    &&& b.params@ == a.params@.map_values(|p: Parameter| spec_remap_param(p, m))
    &&& b.raises == a.raises
    &&& b.annotations == a.annotations
}

/// Whether the operations `b` are `a`, each redirected.
pub open spec fn spec_protos_remapped(a: Seq<ProtoTy>, b: Seq<ProtoTy>, m: Map<DefId, DefId>) -> bool {
    &&& b.len() == a.len()
    &&& forall|i: int| 0 <= i < a.len() ==> spec_proto_remapped(#[trigger] a[i], b[i], m)
}

/// Whether definition kind `b` is `a` with the references that lowering
/// redirects redirected: struct, valuetype and interface parents, the
/// supported interface, and the types of members, union variants and
/// discriminators, operations and their parameters, attributes, typedefs
/// and constants, and a constant's value.
pub open spec fn spec_kind_remapped(a: DefKind, b: DefKind, m: Map<DefId, DefId>) -> bool {
    match a {
        DefKind::Struct(s) => b matches DefKind::Struct(t) && t.parent == spec_remap_spanned_opt(s.parent, m)
            && t.members@ == s.members@.map_values(|x: Member| spec_remap_member(x, m)),
        DefKind::Union(u) => b matches DefKind::Union(v) && v.disc.annotations == u.disc.annotations && v.disc.ty
            == spec_remap_ty(u.disc.ty, m) && v.variants@ == u.variants@.map_values(
            |x: Variant| spec_remap_variant(x, m),
        ),
        DefKind::Interface(i) => b matches DefKind::Interface(j) && j.parents@ == i.parents@.map_values(
            |x: Spanned| spec_remap_spanned(x, m),
        ) && spec_protos_remapped(i.prototypes@, j.prototypes@, m) && j.attributes@ == i.attributes@.map_values(
            |x: Attribute| spec_remap_attribute(x, m),
        ) && j.definitions == i.definitions && j.is_local == i.is_local,
        DefKind::Valuetype(v) => b matches DefKind::Valuetype(w) && w.parent == spec_remap_spanned_opt(v.parent, m)
            && w.supports == spec_remap_spanned_opt(v.supports, m) && spec_protos_remapped(
            v.prototypes@,
            w.prototypes@,
            m,
        ) && w.attributes@ == v.attributes@.map_values(|x: Attribute| spec_remap_attribute(x, m)) && w.members@
            == v.members@.map_values(|x: Member| spec_remap_member(x, m)) && w.definitions == v.definitions,
        DefKind::Alias(x) => b matches DefKind::Alias(y) && y.ty == spec_remap_ty(x.ty, m),
        DefKind::Const(c) => b matches DefKind::Const(d) && d.ty == spec_remap_ty(c.ty, m) && d.value@
            == spec_remap_view(c.value@, m),
        DefKind::Except(e) => b matches DefKind::Except(f) && f.members@ == e.members@.map_values(
            |x: Member| spec_remap_member(x, m),
        ),
        _ => b == a,
    }
}

/// Whether definition `b` is `a` with its references redirected.
pub open spec fn spec_def_remapped(a: Def, b: Def, m: Map<DefId, DefId>) -> bool {
    &&& b.id == a.id
    &&& b.ident == a.ident
    &&& b.parent == a.parent
    &&& b.annotations == a.annotations
    &&& b.span == a.span
    &&& b.flags == a.flags
    &&& spec_kind_remapped(a.kind, b.kind, m)
}

fn remap_spanned_opt(o: Option<Spanned>, mapping: &HashMap<DefId, DefId>) -> (r: Option<Spanned>)
    ensures
        r == spec_remap_spanned_opt(o, mapping@),
{
    match o {
        Some(x) => Some(Spanned { def_id: remap_id(mapping, x.def_id), span: x.span }),
        None => None,
    }
}

fn remap_spanned_list(src: Vec<Spanned>, mapping: &HashMap<DefId, DefId>) -> (r: Vec<Spanned>)
    ensures
        r@ == src@.map_values(|x: Spanned| spec_remap_spanned(x, mapping@)),
{
    let mut out: Vec<Spanned> = Vec::new();
    let mut i: usize = 0;
    while i < src.len()
        invariant
            i <= src@.len(),
            out@.len() == i,
            forall|j: int| 0 <= j < i ==> out@[j] == spec_remap_spanned(src@[j], mapping@),
        decreases src@.len() - i,
    {
        let x = src[i];
        out.push(Spanned { def_id: remap_id(mapping, x.def_id), span: x.span });
        i += 1;
    }
    assert(out@ =~= src@.map_values(|x: Spanned| spec_remap_spanned(x, mapping@)));
    out
}

fn remap_members(src: Vec<Member>, mapping: &HashMap<DefId, DefId>) -> (r: Vec<Member>)
    ensures
        r@ == src@.map_values(|x: Member| spec_remap_member(x, mapping@)),
{
    let ghost orig = src@;
    let mut src = src;
    let mut out: Vec<Member> = Vec::new();
    while src.len() > 0
        invariant
            out@.len() + src@.len() == orig.len(),
            src@ == orig.subrange(out@.len() as int, orig.len() as int),
            forall|j: int| 0 <= j < out@.len() ==> out@[j] == spec_remap_member(orig[j], mapping@),
        decreases src@.len(),
    {
        let ghost k = out@.len();
        let x = src.remove(0);
        assert(x == orig[k as int]);
        out.push(Member { ident: x.ident, ty: remap_ty(&x.ty, mapping), annotations: x.annotations });
        assert(src@ =~= orig.subrange(out@.len() as int, orig.len() as int));
    }
    assert(out@ =~= orig.map_values(|x: Member| spec_remap_member(x, mapping@)));
    out
}

fn remap_variants(src: Vec<Variant>, mapping: &HashMap<DefId, DefId>) -> (r: Vec<Variant>)
    ensures
        r@ == src@.map_values(|x: Variant| spec_remap_variant(x, mapping@)),
{
    let ghost orig = src@;
    let mut src = src;
    let mut out: Vec<Variant> = Vec::new();
    while src.len() > 0
        invariant
            out@.len() + src@.len() == orig.len(),
            src@ == orig.subrange(out@.len() as int, orig.len() as int),
            forall|j: int| 0 <= j < out@.len() ==> out@[j] == spec_remap_variant(orig[j], mapping@),
        decreases src@.len(),
    {
        let ghost k = out@.len();
        let x = src.remove(0);
        assert(x == orig[k as int]);
        out.push(
            Variant {
                annotations: x.annotations,
                ident: x.ident,
                ty: remap_ty(&x.ty, mapping),
                labels: x.labels,
                is_default: x.is_default,
            },
        );
        assert(src@ =~= orig.subrange(out@.len() as int, orig.len() as int));
    }
    assert(out@ =~= orig.map_values(|x: Variant| spec_remap_variant(x, mapping@)));
    out
}

fn remap_params(src: Vec<Parameter>, mapping: &HashMap<DefId, DefId>) -> (r: Vec<Parameter>)
    ensures
        r@ == src@.map_values(|x: Parameter| spec_remap_param(x, mapping@)),
{
    let ghost orig = src@;
    let mut src = src;
    let mut out: Vec<Parameter> = Vec::new();
    while src.len() > 0
        invariant
            out@.len() + src@.len() == orig.len(),
            src@ == orig.subrange(out@.len() as int, orig.len() as int),
            forall|j: int| 0 <= j < out@.len() ==> out@[j] == spec_remap_param(orig[j], mapping@),
        decreases src@.len(),
    {
        let ghost k = out@.len();
        let x = src.remove(0);
        assert(x == orig[k as int]);
        out.push(Parameter { ident: x.ident, ty: remap_ty(&x.ty, mapping), kind: x.kind });
        assert(src@ =~= orig.subrange(out@.len() as int, orig.len() as int));
    }
    assert(out@ =~= orig.map_values(|x: Parameter| spec_remap_param(x, mapping@)));
    out
}

fn remap_attributes(src: Vec<Attribute>, mapping: &HashMap<DefId, DefId>) -> (r: Vec<Attribute>)
    ensures
        r@ == src@.map_values(|x: Attribute| spec_remap_attribute(x, mapping@)),
{
    let ghost orig = src@;
    let mut src = src;
    let mut out: Vec<Attribute> = Vec::new();
    while src.len() > 0
        invariant
            out@.len() + src@.len() == orig.len(),
            src@ == orig.subrange(out@.len() as int, orig.len() as int),
            forall|j: int| 0 <= j < out@.len() ==> out@[j] == spec_remap_attribute(orig[j], mapping@),
        decreases src@.len(),
    {
        let ghost k = out@.len();
        let x = src.remove(0);
        assert(x == orig[k as int]);
        out.push(
            Attribute {
                ident: x.ident,
                ty: remap_ty(&x.ty, mapping),
                is_readonly: x.is_readonly,
                getraises: x.getraises,
                setraises: x.setraises,
                annotations: x.annotations,
            },
        );
        assert(src@ =~= orig.subrange(out@.len() as int, orig.len() as int));
    }
    assert(out@ =~= orig.map_values(|x: Attribute| spec_remap_attribute(x, mapping@)));
    out
}

fn remap_protos(src: Vec<ProtoTy>, mapping: &HashMap<DefId, DefId>) -> (r: Vec<ProtoTy>)
    ensures
        spec_protos_remapped(src@, r@, mapping@),
{
    let ghost orig = src@;
    let mut src = src;
    let mut out: Vec<ProtoTy> = Vec::new();
    while src.len() > 0
        invariant
            out@.len() + src@.len() == orig.len(),
            src@ == orig.subrange(out@.len() as int, orig.len() as int),
            forall|j: int| 0 <= j < out@.len() ==> spec_proto_remapped(orig[j], #[trigger] out@[j], mapping@),
        decreases src@.len(),
    {
        let ghost k = out@.len();
        let x = src.remove(0);
        assert(x == orig[k as int]);
        out.push(
            ProtoTy {
                ident: x.ident,
                ty: remap_ty(&x.ty, mapping),
                params: remap_params(x.params, mapping),
                raises: x.raises,
                annotations: x.annotations,
            },
        );
        assert(src@ =~= orig.subrange(out@.len() as int, orig.len() as int));
    }
    out
}

/// A definition kind with its references redirected.
fn remap_kind(kind: DefKind, mapping: &HashMap<DefId, DefId>) -> (r: DefKind)
    ensures
        spec_kind_remapped(kind, r, mapping@),
{
    match kind {
        DefKind::Struct(s) => DefKind::Struct(
            StructTy { parent: remap_spanned_opt(s.parent, mapping), members: remap_members(s.members, mapping) },
        ),
        DefKind::Union(u) => DefKind::Union(
            UnionTy {
                disc: Disc { annotations: u.disc.annotations, ty: remap_ty(&u.disc.ty, mapping) },
                variants: remap_variants(u.variants, mapping),
            },
        ),
        DefKind::Interface(i) => DefKind::Interface(
            InterfaceTy {
                parents: remap_spanned_list(i.parents, mapping),
                prototypes: remap_protos(i.prototypes, mapping),
                attributes: remap_attributes(i.attributes, mapping),
                definitions: i.definitions,
                is_local: i.is_local,
            },
        ),
        DefKind::Valuetype(v) => DefKind::Valuetype(
            ValueTy {
                parent: remap_spanned_opt(v.parent, mapping),
                supports: remap_spanned_opt(v.supports, mapping),
                prototypes: remap_protos(v.prototypes, mapping),
                attributes: remap_attributes(v.attributes, mapping),
                members: remap_members(v.members, mapping),
                definitions: v.definitions,
            },
        ),
        DefKind::Alias(a) => DefKind::Alias(AliasTy { ty: remap_ty(&a.ty, mapping) }),
        DefKind::Const(c) => DefKind::Const(
            ConstTy { value: remap_numeric(c.value, mapping), ty: remap_ty(&c.ty, mapping) },
        ),
        DefKind::Except(e) => DefKind::Except(ExceptTy { members: remap_members(e.members, mapping) }),
        other => other,
    }
}

/// Update the references in definition `def_id`.
pub fn update_def_references(ctx: &mut Context, def_id: DefId, mapping: &HashMap<DefId, DefId>)
    requires
        def_id < old(ctx).definitions@.len(),
    ensures
        final(ctx).definitions@.len() == old(ctx).definitions@.len(),
        forall|j: int|
            0 <= j < old(ctx).definitions@.len() && j != def_id ==> final(ctx).definitions@[j]
                == old(ctx).definitions@[j],
        spec_def_remapped(old(ctx).definitions@[def_id as int], final(ctx).definitions@[def_id as int], mapping@),
{
    let d = ctx.definitions.remove(def_id);
    let kind = remap_kind(d.kind, mapping);
    let updated = Def {
        id: d.id,
        ident: d.ident,
        parent: d.parent,
        annotations: d.annotations,
        span: d.span,
        kind,
        flags: d.flags,
    };
    ctx.definitions.insert(def_id, updated);
}


/// Whether `inv` maps each definition that some forward declaration in
/// `m` resolves to, to those forward declarations, each listed once.
pub open spec fn spec_inverse(m: Map<DefId, DefId>, inv: Map<DefId, Vec<DefId>>) -> bool {
    &&& forall|d: DefId| inv.contains_key(d) <==> exists|f: DefId| m.contains_key(f) && m[f] == d
    &&& forall|d: DefId, f: DefId|
        #![trigger inv[d]@.contains(f)]
        inv.contains_key(d) ==> (inv[d]@.contains(f) <==> m.contains_key(f) && m[f] == d)
    &&& forall|d: DefId| inv.contains_key(d) ==> (#[trigger] inv[d])@.no_duplicates()
}

/// `inv` as [`spec_inverse`] asks, for the forward declarations among the
/// first `k` of `ks`.
spec fn spec_inverse_upto(m: Map<DefId, DefId>, ks: Seq<DefId>, k: int, inv: Map<DefId, Vec<DefId>>) -> bool {
    &&& forall|d: DefId| inv.contains_key(d) <==> exists|j: int| 0 <= j < k && m[#[trigger] ks[j]] == d
    &&& forall|d: DefId, f: DefId|
        #![trigger inv[d]@.contains(f)]
        inv.contains_key(d) ==> (inv[d]@.contains(f) <==> exists|j: int|
            0 <= j < k && #[trigger] ks[j] == f && m[f] == d)
    &&& forall|d: DefId| inv.contains_key(d) ==> (#[trigger] inv[d])@.no_duplicates()
}

/// The forward declarations of each definition that forward declarations
/// resolve to.
fn invert(mapping: &HashMap<DefId, DefId>) -> (r: HashMap<DefId, Vec<DefId>>)
    ensures
        spec_inverse(mapping@, r@),
{
    broadcast use vstd::std_specs::hash::group_hash_axioms;

    let keys = mapping.keys();
    let ghost ks: Seq<DefId> = keys.remaining().unref();
    proof {
        assert(ks.to_set() == mapping@.dom());
        assert forall|j: int| 0 <= j < ks.len() implies mapping@.contains_key(#[trigger] ks[j]) by {
            assert(ks.to_set().contains(ks[j]));
        }
        assert forall|a: int, b: int| 0 <= a < ks.len() && 0 <= b < ks.len() && a != b implies ks[a] != ks[b] by {
            assert(keys.remaining()[a] != keys.remaining()[b]);
        }
    }
    let mut inv: HashMap<DefId, Vec<DefId>> = HashMap::new();
    for f in it: keys
        invariant
            it.seq().len() == ks.len(),
            forall|j: int| 0 <= j < ks.len() ==> *it.seq()[j] == ks[j],
            forall|j: int| 0 <= j < ks.len() ==> mapping@.contains_key(#[trigger] ks[j]),
            forall|a: int, b: int| 0 <= a < ks.len() && 0 <= b < ks.len() && a != b ==> ks[a] != ks[b],
            spec_inverse_upto(mapping@, ks, it.index(), inv@),
    {
        let ghost k = it.index();
        let ghost before = inv@;
        assert(*f == ks[k]);
        let d = match mapping.get(f) {
            Some(d) => *d,
            None => 0,
        };
        let mut list = match inv.remove(&d) {
            Some(l) => l,
            None => Vec::new(),
        };
        let ghost old_list = list@;
        proof {
            assert(!old_list.contains(*f)) by {
                if old_list.contains(*f) {
                    assert(before.contains_key(d));
                    assert(before[d]@.contains(*f));
                    let j = choose|j: int| 0 <= j < k && #[trigger] ks[j] == *f && mapping@[*f] == d;
                    assert(ks[j] == ks[k]);
                }
            }
        }
        list.push(*f);
        inv.insert(d, list);
        proof {
            assert(ks[k] == *f);
            assert forall|d2: DefId| inv@.contains_key(d2) <==> exists|j: int| 0 <= j < k + 1 && mapping@[#[trigger] ks[j]] == d2 by {
                if inv@.contains_key(d2) && d2 != d {
                    assert(before.contains_key(d2));
                }
                if exists|j: int| 0 <= j < k + 1 && mapping@[#[trigger] ks[j]] == d2 {
                    let j = choose|j: int| 0 <= j < k + 1 && mapping@[#[trigger] ks[j]] == d2;
                    if j < k {
                        assert(before.contains_key(d2));
                    }
                }
            }
            assert forall|d2: DefId, f2: DefId| inv@.contains_key(d2) implies (inv@[d2]@.contains(f2) <==> exists|j: int|
                0 <= j < k + 1 && #[trigger] ks[j] == f2 && mapping@[f2] == d2) by {
                if d2 == d {
                    assert(inv@[d2]@ == old_list.push(*f));
                    if f2 == *f {
                        assert(ks[k] == f2 && mapping@[f2] == d2);
                    }
                    if inv@[d2]@.contains(f2) && f2 != *f {
                        let i = choose|i: int| 0 <= i < inv@[d2]@.len() && inv@[d2]@[i] == f2;
                        assert(i < old_list.len());
                        assert(old_list[i] == f2);
                        assert(old_list.contains(f2));
                        assert(before.contains_key(d2));
                        assert(before[d2]@.contains(f2));
                        let j = choose|j: int| 0 <= j < k && #[trigger] ks[j] == f2 && mapping@[f2] == d2;
                        assert(ks[j] == f2);
                    }
                    if exists|j: int| 0 <= j < k + 1 && #[trigger] ks[j] == f2 && mapping@[f2] == d2 {
                        let j = choose|j: int| 0 <= j < k + 1 && #[trigger] ks[j] == f2 && mapping@[f2] == d2;
                        if j < k {
                            assert(mapping@[ks[j]] == d2);
                            assert(before.contains_key(d2));
                            assert(before[d2]@.contains(f2));
                            assert(old_list.contains(f2));
                            let i = choose|i: int| 0 <= i < old_list.len() && old_list[i] == f2;
                            assert(inv@[d2]@[i] == f2);
                        } else {
                            assert(inv@[d2]@[old_list.len() as int] == f2);
                        }
                    }
                } else {
                    assert(before.contains_key(d2));
                    assert(inv@[d2] == before[d2]);
                    if exists|j: int| 0 <= j < k + 1 && #[trigger] ks[j] == f2 && mapping@[f2] == d2 {
                        let j = choose|j: int| 0 <= j < k + 1 && #[trigger] ks[j] == f2 && mapping@[f2] == d2;
                        assert(j < k);
                    }
                }
            }
            assert forall|d2: DefId| inv@.contains_key(d2) implies (#[trigger] inv@[d2])@.no_duplicates() by {
                if d2 == d {
                    assert(inv@[d2]@ == old_list.push(*f));
                    if before.contains_key(d) {
                        assert(old_list.no_duplicates());
                    }
                } else {
                    assert(before.contains_key(d2));
                }
            }
        }
    }
    proof {
        let k = ks.len() as int;
        assert forall|d: DefId| inv@.contains_key(d) <==> exists|f: DefId| mapping@.contains_key(f) && mapping@[f] == d by {
            if inv@.contains_key(d) {
                let j = choose|j: int| 0 <= j < k && mapping@[#[trigger] ks[j]] == d;
                assert(mapping@.contains_key(ks[j]));
            }
            if exists|f: DefId| mapping@.contains_key(f) && mapping@[f] == d {
                let f = choose|f: DefId| mapping@.contains_key(f) && mapping@[f] == d;
                assert(ks.to_set().contains(f));
                let j = choose|j: int| 0 <= j < ks.len() && ks[j] == f;
                assert(mapping@[ks[j]] == d);
            }
        }
        assert forall|d: DefId, f: DefId| inv@.contains_key(d) implies (inv@[d]@.contains(f) <==> mapping@.contains_key(f)
            && mapping@[f] == d) by {
            if mapping@.contains_key(f) && mapping@[f] == d {
                assert(ks.to_set().contains(f));
                let j = choose|j: int| 0 <= j < ks.len() && ks[j] == f;
                assert(ks[j] == f);
            }
        }
    }
    inv
}


/// Whether forward declaration `d` has a definition: it was declared under
/// a name that the registry also has a definition for.
pub open spec fn spec_has_definition(reg: DefinitionRegistry, d: DefId) -> bool {
    exists|k: RegistryKey| #[trigger] spec_declared_under(reg.forwards(), k, d) && reg.defined().contains_key(k)
}

/// Whether `m` maps exactly the forward declarations that have a
/// definition, each to a definition registered under a name it was
/// declared under.
pub open spec fn spec_forward_map(reg: DefinitionRegistry, m: Map<DefId, DefId>) -> bool {
    &&& forall|d: DefId| m.contains_key(d) <==> spec_has_definition(reg, d)
    &&& forall|d: DefId|
        m.contains_key(d) ==> exists|k: RegistryKey|
            #[trigger] spec_declared_under(reg.forwards(), k, d) && reg.defined().contains_key(k) && m[d]
                == reg.defined()[k]
}

/// Updates forward declaration references to point to definitions: when
/// some forward declaration has a definition, every definition has its
/// references redirected (see [`spec_kind_remapped`]). Returns, for each
/// definition that forward declarations resolve to, those declarations.
pub fn update_forward_references(ctx: &mut Context, registry: &DefinitionRegistry) -> (r: HashMap<DefId, Vec<DefId>>)
    requires
        registry.wf(),
    ensures
        final(ctx).definitions@.len() == old(ctx).definitions@.len(),
        exists|m: Map<DefId, DefId>|
            #[trigger] spec_forward_map(*registry, m) && spec_inverse(m, r@) && forall|j: int|
                0 <= j < old(ctx).definitions@.len() ==> if m.is_empty() {
                    final(ctx).definitions@[j] == old(ctx).definitions@[j]
                } else {
                    spec_def_remapped(old(ctx).definitions@[j], final(ctx).definitions@[j], m)
                },
{
    let mapping = registry.get_forward_to_def_mapping();
    let ghost m = mapping@;
    let ghost before = ctx.definitions@;
    if !mapping.is_empty() {
        let n = ctx.definitions.len();
        let mut def_id: usize = 0;
        while def_id < n
            invariant
                n == before.len(),
                mapping@ == m,
                ctx.definitions@.len() == n,
                def_id <= n,
                forall|j: int| 0 <= j < def_id ==> spec_def_remapped(before[j], ctx.definitions@[j], m),
                forall|j: int| def_id <= j < n ==> ctx.definitions@[j] == before[j],
            decreases n - def_id,
        {
            update_def_references(ctx, def_id, &mapping);
            def_id += 1;
        }
    }
    let r = invert(&mapping);
    proof {
        assert(spec_forward_map(*registry, m));
    }
    r
}

/// The error for a forward declaration that was never defined.
pub open spec fn spec_undefined_decl_diag(name: Seq<char>, span: crate::hir::Span) -> DiagView {
    spec_diag(Severity::Error, "type `"@ + name + "` is declared but not defined"@, span, "declared here"@)
}

/// The errors for the forward declarations among `defs`, whose ids are
/// their positions, that have no definition; native declarations stay
/// declarations and are not reported.
pub open spec fn spec_undefined_decl_diags(defs: Seq<Def>, reg: DefinitionRegistry) -> Seq<DiagView>
    decreases defs.len(),
{
    if defs.len() == 0 {
        Seq::empty()
    } else {
        let prev = spec_undefined_decl_diags(defs.drop_last(), reg);
        let d = defs.last();
        match d.kind {
            DefKind::Decl(k) => if k != Decl::Native && !spec_has_definition(reg, (defs.len() - 1) as DefId) {
                prev.push(spec_undefined_decl_diag(d.ident.name@, d.ident.span))
            } else {
                prev
            },
            _ => prev,
        }
    }
}

/// Check for undefined forward declarations.
pub fn check_undefined_forward_decls(ctx: &Context, registry: &DefinitionRegistry, diagnostics: &mut Diagnostics)
    requires
        registry.wf(),
    ensures
        spec_diag_views(final(diagnostics).errors@) == spec_diag_views(old(diagnostics).errors@)
            + spec_undefined_decl_diags(ctx.definitions@, *registry),
        final(diagnostics).warnings@ == old(diagnostics).warnings@,
{
    broadcast use vstd::std_specs::hash::group_hash_axioms;

    let mapping = registry.get_forward_to_def_mapping();
    let ghost defs = ctx.definitions@;
    let ghost e0 = spec_diag_views(diagnostics.errors@);
    let ghost w0 = diagnostics.warnings@;
    let mut def_id: usize = 0;
    proof {
        assert(defs.subrange(0, 0) =~= Seq::<Def>::empty());
        assert(e0 + Seq::<DiagView>::empty() =~= e0);
    }
    while def_id < ctx.definitions.len()
        invariant
            def_id <= defs.len(),
            defs == ctx.definitions@,
            forall|d: DefId| mapping@.contains_key(d) <==> spec_has_definition(*registry, d),
            diagnostics.warnings@ == w0,
            spec_diag_views(diagnostics.errors@) == e0 + spec_undefined_decl_diags(
                defs.subrange(0, def_id as int),
                *registry,
            ),
        decreases defs.len() - def_id,
    {
        let ghost sub = defs.subrange(0, def_id + 1);
        let ghost prev = spec_undefined_decl_diags(defs.subrange(0, def_id as int), *registry);
        proof {
            assert(sub.drop_last() =~= defs.subrange(0, def_id as int));
            assert(sub.last() == defs[def_id as int]);
            assert((sub.len() - 1) as DefId == def_id);
        }
        let def = &ctx.definitions[def_id];
        if let DefKind::Decl(kind) = &def.kind {
            let native = match kind {
                Decl::Native => true,
                _ => false,
            };
            if !native && !mapping.contains_key(&def_id) {
                let mut msg = owned("type `");
                msg.append(def.ident.name.as_str());
                msg.append("` is declared but not defined");
                diagnostics.push_error(diag(Severity::Error, msg, def.ident.span, owned("declared here")));
                proof {
                    let d = spec_undefined_decl_diag(def.ident.name@, def.ident.span);
                    assert(e0 + prev.push(d) =~= (e0 + prev).push(d));
                }
            }
        }
        def_id += 1;
    }
    proof {
        assert(defs.subrange(0, def_id as int) =~= defs);
    }
}


/// Redirecting through no forward declarations leaves a type as it is.
pub proof fn lemma_remap_ty_empty(ty: Ty)
    ensures
        spec_remap_ty(ty, Map::empty()) == ty,
    decreases ty,
{
    match ty.kind {
        TyKind::Array { ty: inner, .. } => lemma_remap_ty_empty(*inner),
        TyKind::Sequence { ty: inner, .. } => lemma_remap_ty_empty(*inner),
        TyKind::Mapping { key, elem, .. } => {
            lemma_remap_ty_empty(*key);
            lemma_remap_ty_empty(*elem);
        },
        _ => {},
    }
}

/// When no forward declaration resolves to another forward declaration,
/// redirecting a type twice is redirecting it once.
pub proof fn lemma_remap_ty_idempotent(ty: Ty, m: Map<DefId, DefId>)
    requires
        forall|k: DefId| m.contains_key(k) ==> !m.contains_key(#[trigger] m[k]),
    ensures
        spec_remap_ty(spec_remap_ty(ty, m), m) == spec_remap_ty(ty, m),
    decreases ty,
{
    match ty.kind {
        TyKind::Array { ty: inner, .. } => lemma_remap_ty_idempotent(*inner, m),
        TyKind::Sequence { ty: inner, .. } => lemma_remap_ty_idempotent(*inner, m),
        TyKind::Mapping { key, elem, .. } => {
            lemma_remap_ty_idempotent(*key, m);
            lemma_remap_ty_idempotent(*elem, m);
        },
        _ => {},
    }
}

/// When no forward declaration resolves to another forward declaration, a
/// redirected type refers to no forward declaration that has a definition.
pub proof fn lemma_remap_ty_leaves_no_forward(ty: Ty, m: Map<DefId, DefId>, x: DefId)
    requires
        m.contains_key(x),
        forall|k: DefId| m.contains_key(k) ==> !m.contains_key(#[trigger] m[k]),
    ensures
        !spec_ty_refers(spec_remap_ty(ty, m), x),
    decreases ty,
{
    match ty.kind {
        TyKind::Array { ty: inner, .. } => lemma_remap_ty_leaves_no_forward(*inner, m, x),
        TyKind::Sequence { ty: inner, .. } => lemma_remap_ty_leaves_no_forward(*inner, m, x),
        TyKind::Mapping { key, elem, .. } => {
            lemma_remap_ty_leaves_no_forward(*key, m, x);
            lemma_remap_ty_leaves_no_forward(*elem, m, x);
        },
        _ => {},
    }
}


/// When no forward declaration resolves to another forward declaration,
/// redirecting a constant value twice is redirecting it once.
pub proof fn lemma_remap_view_idempotent(v: ConstView, m: Map<DefId, DefId>)
    requires
        forall|k: DefId| m.contains_key(k) ==> !m.contains_key(#[trigger] m[k]),
    ensures
        spec_remap_view(spec_remap_view(v, m), m) == spec_remap_view(v, m),
    decreases v, 1nat,
{
    match v {
        ConstView::Atom(_) => {},
        ConstView::Array { ty, values } => {
            lemma_remap_ty_idempotent(ty, m);
            lemma_remap_views_idempotent(values, m);
        },
        ConstView::Sequence { ty, values } => {
            lemma_remap_ty_idempotent(ty, m);
            lemma_remap_views_idempotent(values, m);
        },
        ConstView::Mapping { key, value, entries } => {
            lemma_remap_ty_idempotent(key, m);
            lemma_remap_ty_idempotent(value, m);
            lemma_remap_entries_idempotent(entries, m);
        },
        ConstView::Struct { fields, .. } => {
            lemma_remap_views_idempotent(fields, m);
        },
        ConstView::Union { discriminant, value, .. } => {
            lemma_remap_view_idempotent(*discriminant, m);
            lemma_remap_view_idempotent(*value, m);
        },
    }
}

proof fn lemma_remap_views_idempotent(s: Seq<ConstView>, m: Map<DefId, DefId>)
    requires
        forall|k: DefId| m.contains_key(k) ==> !m.contains_key(#[trigger] m[k]),
    ensures
        spec_remap_views(spec_remap_views(s, m), m) == spec_remap_views(s, m),
    decreases s, 0nat,
{
    if s.len() > 0 {
        lemma_remap_views_idempotent(s.drop_last(), m);
        lemma_remap_view_idempotent(s.last(), m);
        let once = spec_remap_views(s, m);
        assert(once.drop_last() =~= spec_remap_views(s.drop_last(), m));
    }
}

proof fn lemma_remap_entries_idempotent(s: Seq<(ConstView, ConstView)>, m: Map<DefId, DefId>)
    requires
        forall|k: DefId| m.contains_key(k) ==> !m.contains_key(#[trigger] m[k]),
    ensures
        spec_remap_entries(spec_remap_entries(s, m), m) == spec_remap_entries(s, m),
    decreases s, 0nat,
{
    if s.len() > 0 {
        lemma_remap_entries_idempotent(s.drop_last(), m);
        lemma_remap_view_idempotent(s.last().0, m);
        lemma_remap_view_idempotent(s.last().1, m);
        let once = spec_remap_entries(s, m);
        assert(once.drop_last() =~= spec_remap_entries(s.drop_last(), m));
    }
}

} // verus!

verus! {

/// Where a reference ends after redirection is never a forward declaration
/// that has a definition, when no forward declaration resolves to another.
proof fn lemma_remap_id_not_forward(m: Map<DefId, DefId>, y: DefId, x: DefId)
    requires
        m.contains_key(x),
        forall|k: DefId| m.contains_key(k) ==> !m.contains_key(#[trigger] m[k]),
    ensures
        spec_remap_id(m, y) != x,
{
    if m.contains_key(y) {
        assert(!m.contains_key(m[y]));
    }
}

proof fn lemma_const_views_len(s: Seq<Numeric>)
    ensures
        spec_const_views(s).len() == s.len(),
    decreases s.len(),
{
    if s.len() > 0 {
        lemma_const_views_len(s.drop_last());
    }
}

proof fn lemma_entry_views_len(s: Seq<(Numeric, Numeric)>)
    ensures
        spec_entry_views(s).len() == s.len(),
    decreases s.len(),
{
    if s.len() > 0 {
        lemma_entry_views_len(s.drop_last());
    }
}

proof fn lemma_remap_views_len(s: Seq<ConstView>, m: Map<DefId, DefId>)
    ensures
        spec_remap_views(s, m).len() == s.len(),
    decreases s.len(),
{
    if s.len() > 0 {
        lemma_remap_views_len(s.drop_last(), m);
    }
}

proof fn lemma_remap_entries_len(s: Seq<(ConstView, ConstView)>, m: Map<DefId, DefId>)
    ensures
        spec_remap_entries(s, m).len() == s.len(),
    decreases s.len(),
{
    if s.len() > 0 {
        lemma_remap_entries_len(s.drop_last(), m);
    }
}

/// A constant value whose view is a redirected view names no forward
/// declaration that has a definition.
pub proof fn lemma_remap_value_leaves_no_forward(n: Numeric, w: ConstView, m: Map<DefId, DefId>, x: DefId)
    requires
        spec_const_view(n) == spec_remap_view(w, m),
        m.contains_key(x),
        forall|k: DefId| m.contains_key(k) ==> !m.contains_key(#[trigger] m[k]),
    ensures
        !spec_numeric_refers(n, x),
    decreases n,
{
    match n {
        Numeric::Const(y) => {
            if let ConstView::Atom(Numeric::Const(z)) = w {
                lemma_remap_id_not_forward(m, z, x);
            }
        },
        Numeric::Array { values, .. } => {
            if let ConstView::Array { values: vs, .. } = w {
                lemma_values_leave_no_forward(values@, vs, m, x);
            }
        },
        Numeric::Sequence { values, .. } => {
            if let ConstView::Sequence { values: vs, .. } = w {
                lemma_values_leave_no_forward(values@, vs, m, x);
            }
        },
        Numeric::Mapping { entries, .. } => {
            if let ConstView::Mapping { entries: es, .. } = w {
                lemma_entries_leave_no_forward(entries@, es, m, x);
            }
        },
        Numeric::Struct { fields, .. } => {
            if let ConstView::Struct { ty: t0, fields: fs } = w {
                lemma_remap_id_not_forward(m, t0, x);
                lemma_values_leave_no_forward(fields@, fs, m, x);
            }
        },
        Numeric::Union { discriminant, value, .. } => {
            if let ConstView::Union { ty: t0, discriminant: d0, value: v0, .. } = w {
                lemma_remap_id_not_forward(m, t0, x);
                lemma_remap_value_leaves_no_forward(*discriminant, *d0, m, x);
                lemma_remap_value_leaves_no_forward(*value, *v0, m, x);
            }
        },
        _ => {},
    }
}

proof fn lemma_values_leave_no_forward(s: Seq<Numeric>, ws: Seq<ConstView>, m: Map<DefId, DefId>, x: DefId)
    requires
        spec_const_views(s) == spec_remap_views(ws, m),
        m.contains_key(x),
        forall|k: DefId| m.contains_key(k) ==> !m.contains_key(#[trigger] m[k]),
    ensures
        !spec_values_refer(s, x),
    decreases s,
{
    if s.len() > 0 {
        lemma_const_views_len(s);
        lemma_remap_views_len(ws, m);
        let a = spec_const_views(s);
        assert(a.drop_last() =~= spec_const_views(s.drop_last()));
        assert(spec_remap_views(ws, m).drop_last() =~= spec_remap_views(ws.drop_last(), m));
        assert(a.last() == spec_const_view(s.last()));
        assert(spec_remap_views(ws, m).last() == spec_remap_view(ws.last(), m));
        lemma_values_leave_no_forward(s.drop_last(), ws.drop_last(), m, x);
        lemma_remap_value_leaves_no_forward(s.last(), ws.last(), m, x);
    }
}

proof fn lemma_entries_leave_no_forward(
    s: Seq<(Numeric, Numeric)>,
    ws: Seq<(ConstView, ConstView)>,
    m: Map<DefId, DefId>,
    x: DefId,
)
    requires
        spec_entry_views(s) == spec_remap_entries(ws, m),
        m.contains_key(x),
        forall|k: DefId| m.contains_key(k) ==> !m.contains_key(#[trigger] m[k]),
    ensures
        !spec_entries_refer(s, x),
    decreases s,
{
    if s.len() > 0 {
        lemma_entry_views_len(s);
        lemma_remap_entries_len(ws, m);
        let a = spec_entry_views(s);
        assert(a.drop_last() =~= spec_entry_views(s.drop_last()));
        assert(spec_remap_entries(ws, m).drop_last() =~= spec_remap_entries(ws.drop_last(), m));
        assert(a.last() == spec_remap_entries(ws, m).last());
        lemma_entries_leave_no_forward(s.drop_last(), ws.drop_last(), m, x);
        lemma_remap_value_leaves_no_forward(s.last().0, ws.last().0, m, x);
        lemma_remap_value_leaves_no_forward(s.last().1, ws.last().1, m, x);
    }
}

} // verus!

verus! {

/// Whether definition kind `k` refers to `d` through a part that
/// redirection leaves as it is: a union case label, an exception an
/// operation or attribute raises, or anything of a bit set or an
/// annotation definition.
pub open spec fn spec_refers_unredirected(k: DefKind, d: DefId) -> bool {
    match k {
        DefKind::Union(u) => spec_any(
            u.variants@,
            |v: Variant| spec_any(v.labels@, |l: Label| spec_numeric_refers(l.value, d)),
        ),
        DefKind::Interface(i) => spec_any(
            i.attributes@,
            |a: Attribute| spec_spanned_refer(a.getraises@, d) || spec_spanned_refer(a.setraises@, d),
        ) || spec_any(i.prototypes@, |p: ProtoTy| spec_spanned_refer(p.raises@, d)),
        DefKind::Valuetype(v) => spec_any(
            v.attributes@,
            |a: Attribute| spec_spanned_refer(a.getraises@, d) || spec_spanned_refer(a.setraises@, d),
        ) || spec_any(v.prototypes@, |p: ProtoTy| spec_spanned_refer(p.raises@, d)),
        DefKind::Bitset(_) | DefKind::Annotation(_) => spec_def_refers(k, d),
        _ => false,
    }
}

proof fn lemma_members_no_forward(a: Seq<Member>, b: Seq<Member>, m: Map<DefId, DefId>, x: DefId)
    requires
        b == a.map_values(|y: Member| spec_remap_member(y, m)),
        m.contains_key(x),
        forall|k: DefId| m.contains_key(k) ==> !m.contains_key(#[trigger] m[k]),
    ensures
        !spec_any(b, |y: Member| spec_ty_refers(y.ty, x)),
{
    if spec_any(b, |y: Member| spec_ty_refers(y.ty, x)) {
        let k = choose|k: int| 0 <= k < b.len() && (|y: Member| spec_ty_refers(y.ty, x))(#[trigger] b[k]);
        assert(b[k] == spec_remap_member(a[k], m));
        lemma_remap_ty_leaves_no_forward(a[k].ty, m, x);
    }
}

proof fn lemma_parents_no_forward(a: Seq<Spanned>, b: Seq<Spanned>, m: Map<DefId, DefId>, x: DefId)
    requires
        b == a.map_values(|y: Spanned| spec_remap_spanned(y, m)),
        m.contains_key(x),
        forall|k: DefId| m.contains_key(k) ==> !m.contains_key(#[trigger] m[k]),
    ensures
        !spec_spanned_refer(b, x),
{
    if spec_spanned_refer(b, x) {
        let k = choose|k: int| 0 <= k < b.len() && (|y: Spanned| y.def_id == x)(#[trigger] b[k]);
        assert(b[k] == spec_remap_spanned(a[k], m));
        lemma_remap_id_not_forward(m, a[k].def_id, x);
    }
}

proof fn lemma_opt_parent_no_forward(a: Option<Spanned>, m: Map<DefId, DefId>, x: DefId)
    requires
        m.contains_key(x),
        forall|k: DefId| m.contains_key(k) ==> !m.contains_key(#[trigger] m[k]),
    ensures
        !crate::deps::spec_opt_refers(spec_remap_spanned_opt(a, m), x),
{
    if let Some(p) = a {
        lemma_remap_id_not_forward(m, p.def_id, x);
    }
}

proof fn lemma_attributes_no_forward(a: Seq<Attribute>, b: Seq<Attribute>, m: Map<DefId, DefId>, x: DefId)
    requires
        b == a.map_values(|y: Attribute| spec_remap_attribute(y, m)),
        !spec_any(a, |y: Attribute| spec_spanned_refer(y.getraises@, x) || spec_spanned_refer(y.setraises@, x)),
        m.contains_key(x),
        forall|k: DefId| m.contains_key(k) ==> !m.contains_key(#[trigger] m[k]),
    ensures
        !spec_any(b, |y: Attribute| crate::deps::spec_attr_refers(y, x)),
{
    if spec_any(b, |y: Attribute| crate::deps::spec_attr_refers(y, x)) {
        let k = choose|k: int| 0 <= k < b.len() && (|y: Attribute| crate::deps::spec_attr_refers(y, x))(#[trigger] b[k]);
        assert(b[k] == spec_remap_attribute(a[k], m));
        lemma_remap_ty_leaves_no_forward(a[k].ty, m, x);
        let f = |y: Attribute| spec_spanned_refer(y.getraises@, x) || spec_spanned_refer(y.setraises@, x);
        assert(!f(a[k]));
    }
}

proof fn lemma_protos_no_forward(a: Seq<ProtoTy>, b: Seq<ProtoTy>, m: Map<DefId, DefId>, x: DefId)
    requires
        spec_protos_remapped(a, b, m),
        !spec_any(a, |p: ProtoTy| spec_spanned_refer(p.raises@, x)),
        m.contains_key(x),
        forall|k: DefId| m.contains_key(k) ==> !m.contains_key(#[trigger] m[k]),
    ensures
        !spec_any(b, |p: ProtoTy| crate::deps::spec_proto_refers(p, x)),
{
    if spec_any(b, |p: ProtoTy| crate::deps::spec_proto_refers(p, x)) {
        let k = choose|k: int| 0 <= k < b.len() && (|p: ProtoTy| crate::deps::spec_proto_refers(p, x))(#[trigger] b[k]);
        assert(spec_proto_remapped(a[k], b[k], m));
        lemma_remap_ty_leaves_no_forward(a[k].ty, m, x);
        let f = |p: ProtoTy| spec_spanned_refer(p.raises@, x);
        assert(!f(a[k]));
        let ps = b[k].params@;
        if spec_any(ps, |q: Parameter| spec_ty_refers(q.ty, x)) {
            let j = choose|j: int| 0 <= j < ps.len() && (|q: Parameter| spec_ty_refers(q.ty, x))(#[trigger] ps[j]);
            assert(ps[j] == spec_remap_param(a[k].params@[j], m));
            lemma_remap_ty_leaves_no_forward(a[k].params@[j].ty, m, x);
        }
    }
}

/// After redirection through `m`, where no forward declaration resolves to
/// another, a definition refers to no forward declaration that has a
/// definition: not through its parents, the interface it supports, the
/// types of its members, union cases, discriminator, operations,
/// parameters and attributes, its aliased or constant type, nor its
/// constant value. (Case labels, raised exceptions, bit sets and annotation
/// definitions are left as they are, so they are assumed not to name one.)
pub proof fn lemma_def_remap_leaves_no_forward(a: Def, b: Def, m: Map<DefId, DefId>, x: DefId)
    requires
        spec_def_remapped(a, b, m),
        m.contains_key(x),
        forall|k: DefId| m.contains_key(k) ==> !m.contains_key(#[trigger] m[k]),
        !spec_refers_unredirected(a.kind, x),
    ensures
        !spec_def_refers(b.kind, x),
{
    match (a.kind, b.kind) {
        (DefKind::Struct(s), DefKind::Struct(t)) => {
            lemma_opt_parent_no_forward(s.parent, m, x);
            lemma_members_no_forward(s.members@, t.members@, m, x);
        },
        (DefKind::Union(u), DefKind::Union(v)) => {
            lemma_remap_ty_leaves_no_forward(u.disc.ty, m, x);
            let f = |w: Variant| crate::deps::spec_variant_refers(w, x);
            if spec_any(v.variants@, f) {
                let k = choose|k: int| 0 <= k < v.variants@.len() && f(#[trigger] v.variants@[k]);
                assert(v.variants@[k] == spec_remap_variant(u.variants@[k], m));
                lemma_remap_ty_leaves_no_forward(u.variants@[k].ty, m, x);
                let g = |w: Variant| spec_any(w.labels@, |l: Label| spec_numeric_refers(l.value, x));
                assert(!g(u.variants@[k]));
            }
        },
        (DefKind::Interface(i), DefKind::Interface(j)) => {
            lemma_parents_no_forward(i.parents@, j.parents@, m, x);
            lemma_attributes_no_forward(i.attributes@, j.attributes@, m, x);
            lemma_protos_no_forward(i.prototypes@, j.prototypes@, m, x);
        },
        (DefKind::Valuetype(v), DefKind::Valuetype(w)) => {
            lemma_opt_parent_no_forward(v.parent, m, x);
            lemma_opt_parent_no_forward(v.supports, m, x);
            lemma_members_no_forward(v.members@, w.members@, m, x);
            lemma_attributes_no_forward(v.attributes@, w.attributes@, m, x);
            lemma_protos_no_forward(v.prototypes@, w.prototypes@, m, x);
        },
        (DefKind::Except(e), DefKind::Except(f)) => {
            lemma_members_no_forward(e.members@, f.members@, m, x);
        },
        (DefKind::Alias(p), DefKind::Alias(q)) => {
            lemma_remap_ty_leaves_no_forward(p.ty, m, x);
        },
        (DefKind::Const(c), DefKind::Const(d)) => {
            lemma_remap_ty_leaves_no_forward(c.ty, m, x);
            lemma_remap_value_leaves_no_forward(d.value, c.value@, m, x);
        },
        _ => {},
    }
}

} // verus!

verus! {

/// After every definition is redirected through `m` (no forward
/// declaration resolving to another), no definition refers to a forward
/// declaration that has a definition, except through the parts
/// redirection leaves as they are.
pub proof fn lemma_redirected_defs_leave_no_forward(before: Seq<Def>, after: Seq<Def>, m: Map<DefId, DefId>)
    requires
        after.len() == before.len(),
        forall|j: int| 0 <= j < before.len() ==> spec_def_remapped(before[j], #[trigger] after[j], m),
        forall|k: DefId| m.contains_key(k) ==> !m.contains_key(#[trigger] m[k]),
    ensures
        forall|j: int, x: DefId|
            0 <= j < after.len() && m.contains_key(x) && !spec_refers_unredirected(before[j].kind, x)
                ==> !#[trigger] spec_def_refers(after[j].kind, x),
{
    assert forall|j: int, x: DefId|
        0 <= j < after.len() && m.contains_key(x) && !spec_refers_unredirected(before[j].kind, x) implies !#[trigger] spec_def_refers(
        after[j].kind,
        x,
    ) by {
        lemma_def_remap_leaves_no_forward(before[j], after[j], m, x);
    }
}

} // verus!
