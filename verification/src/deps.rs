//! The definitions a definition refers to: the types of its members, its
//! parents, raised exceptions and the constants its values name.

use vstd::prelude::*;
use crate::ctx::Context;
use crate::hir::{AnnParam, Attribute, BitsetField, Def, DefId, DefKind, Label, Member, Numeric, Parameter, ProtoTy, Spanned, Ty, TyKind, Variant};

verus! {

/// Whether a type mentions definition `d`, directly or through its element
/// types.
pub open spec fn spec_ty_refers(ty: Ty, d: DefId) -> bool
    decreases ty,
{
    match ty.kind {
        TyKind::Adt(x) => x == d,
        TyKind::Array { ty: inner, .. } => spec_ty_refers(*inner, d),
        TyKind::Sequence { ty: inner, .. } => spec_ty_refers(*inner, d),
        TyKind::Mapping { key, elem, .. } => spec_ty_refers(*key, d) || spec_ty_refers(*elem, d),
        _ => false,
    }
}

/// Whether a constant value names definition `d`: a constant it refers to,
/// or the struct or union type of an aggregate in it.
pub open spec fn spec_numeric_refers(n: Numeric, d: DefId) -> bool
    decreases n,
{
    match n {
        Numeric::Const(x) => x == d,
        Numeric::Array { values, .. } => spec_values_refer(values@, d),
        Numeric::Sequence { values, .. } => spec_values_refer(values@, d),
        Numeric::Mapping { entries, .. } => spec_entries_refer(entries@, d),
        Numeric::Struct { ty, fields } => ty == d || spec_values_refer(fields@, d),
        Numeric::Union { ty, discriminant, value, .. } => ty == d || spec_numeric_refers(*discriminant, d)
            || spec_numeric_refers(*value, d),
        _ => false,
    }
}

/// Whether one of the values names `d`.
pub open spec fn spec_values_refer(s: Seq<Numeric>, d: DefId) -> bool
    decreases s,
{
    if s.len() == 0 {
        false
    } else {
        spec_values_refer(s.drop_last(), d) || spec_numeric_refers(s.last(), d)
    }
}

/// Whether a key or a value of one of the entries names `d`.
pub open spec fn spec_entries_refer(s: Seq<(Numeric, Numeric)>, d: DefId) -> bool
    decreases s,
{
    if s.len() == 0 {
        false
    } else {
        spec_entries_refer(s.drop_last(), d) || spec_numeric_refers(s.last().0, d) || spec_numeric_refers(
            s.last().1,
            d,
        )
    }
}

/// Whether some element of `items` satisfies `f`.
pub open spec fn spec_any<T>(items: Seq<T>, f: spec_fn(T) -> bool) -> bool {
    exists|k: int| 0 <= k < items.len() && f(#[trigger] items[k])
}

proof fn lemma_any_prefix<T>(items: Seq<T>, i: int, f: spec_fn(T) -> bool)
    requires
        0 <= i < items.len(),
    ensures
        spec_any(items.subrange(0, i + 1), f) == (spec_any(items.subrange(0, i), f) || f(items[i])),
{
    let a = items.subrange(0, i + 1);
    let b = items.subrange(0, i);
    if spec_any(a, f) {
        let k = choose|k: int| 0 <= k < a.len() && f(#[trigger] a[k]);
        if k < i {
            assert(b[k] == a[k]);
        }
    }
    if spec_any(b, f) {
        let k = choose|k: int| 0 <= k < b.len() && f(#[trigger] b[k]);
        assert(a[k] == b[k]);
    }
    if f(items[i]) {
        assert(a[i] == items[i]);
    }
}

/// Whether one of the references names `d`.
pub open spec fn spec_spanned_refer(s: Seq<Spanned>, d: DefId) -> bool {
    spec_any(s, |x: Spanned| x.def_id == d)
}

/// Whether an optional reference names `d`.
pub open spec fn spec_opt_refers(s: Option<Spanned>, d: DefId) -> bool {
    s matches Some(p) && p.def_id == d
}

/// Whether an attribute refers to `d` by its type or the exceptions its
/// accessors raise.
pub open spec fn spec_attr_refers(a: Attribute, d: DefId) -> bool {
    spec_ty_refers(a.ty, d) || spec_spanned_refer(a.getraises@, d) || spec_spanned_refer(a.setraises@, d)
}

/// Whether an operation refers to `d` by its result type, the exceptions it
/// raises or the type of a parameter.
pub open spec fn spec_proto_refers(p: ProtoTy, d: DefId) -> bool {
    spec_ty_refers(p.ty, d) || spec_spanned_refer(p.raises@, d) || spec_any(
        p.params@,
        |q: Parameter| spec_ty_refers(q.ty, d),
    )
}

/// Whether a union case refers to `d` by its type or a label value.
pub open spec fn spec_variant_refers(v: Variant, d: DefId) -> bool {
    spec_ty_refers(v.ty, d) || spec_any(v.labels@, |l: Label| spec_numeric_refers(l.value, d))
}

/// Whether an annotation parameter refers to `d` by its type or default.
pub open spec fn spec_ann_param_refers(p: AnnParam, d: DefId) -> bool {
    spec_ty_refers(p.ty, d) || (p.default matches Some(v) && spec_numeric_refers(v, d))
}

/// Whether a definition refers to `d`. Children (the definitions of a
/// module, the fields of an enum) are not references.
pub open spec fn spec_def_refers(kind: DefKind, d: DefId) -> bool {
    match kind {
        DefKind::Struct(s) => spec_opt_refers(s.parent, d) || spec_any(
            s.members@,
            |m: Member| spec_ty_refers(m.ty, d),
        ),
        DefKind::Union(u) => spec_ty_refers(u.disc.ty, d) || spec_any(
            u.variants@,
            |v: Variant| spec_variant_refers(v, d),
        ),
        DefKind::Interface(it) => spec_spanned_refer(it.parents@, d) || spec_any(
            it.attributes@,
            |a: Attribute| spec_attr_refers(a, d),
        ) || spec_any(it.prototypes@, |p: ProtoTy| spec_proto_refers(p, d)),
        DefKind::Valuetype(v) => spec_opt_refers(v.parent, d) || spec_opt_refers(v.supports, d) || spec_any(
            v.members@,
            |m: Member| spec_ty_refers(m.ty, d),
        ) || spec_any(v.attributes@, |a: Attribute| spec_attr_refers(a, d)) || spec_any(
            v.prototypes@,
            |p: ProtoTy| spec_proto_refers(p, d),
        ),
        DefKind::Except(e) => spec_any(e.members@, |m: Member| spec_ty_refers(m.ty, d)),
        DefKind::Alias(a) => spec_ty_refers(a.ty, d),
        DefKind::Const(c) => spec_ty_refers(c.ty, d) || spec_numeric_refers(c.value, d),
        DefKind::Bitset(b) => spec_opt_refers(b.parent, d) || spec_any(
            b.fields@,
            |f: BitsetField| spec_ty_refers(f.ty, d),
        ),
        DefKind::Annotation(a) => spec_any(a.params@, |p: AnnParam| spec_ann_param_refers(p, d)),
        DefKind::Module(_) | DefKind::Enum(_) | DefKind::Bitmask(_) | DefKind::Decl(_) => false,
    }
}

/// Every definition named by the type of a union case, or by the
/// discriminator's type, is a dependency of the union.
pub proof fn lemma_union_case_types_are_deps(defs: Seq<Def>, id: DefId, x: DefId)
    requires
        id < defs.len(),
        defs[id as int].kind is Union,
    ensures
        spec_ty_refers(defs[id as int].kind->Union_0.disc.ty, x) ==> spec_deps(defs, id).contains(x),
        forall|k: int|
            0 <= k < defs[id as int].kind->Union_0.variants@.len() && spec_ty_refers(
                #[trigger] defs[id as int].kind->Union_0.variants@[k].ty,
                x,
            ) ==> spec_deps(defs, id).contains(x),
{
    let u = defs[id as int].kind->Union_0;
    assert forall|k: int| 0 <= k < u.variants@.len() && spec_ty_refers(#[trigger] u.variants@[k].ty, x) implies spec_deps(
        defs,
        id,
    ).contains(x) by {
        assert(spec_variant_refers(u.variants@[k], x));
    }
}

/// Every definition named by the type of a member of a struct, exception
/// or value type is a dependency of it.
pub proof fn lemma_member_types_are_deps(defs: Seq<Def>, id: DefId, k: int, x: DefId)
    requires
        id < defs.len(),
    ensures
        (defs[id as int].kind matches DefKind::Struct(s) && 0 <= k < s.members@.len() && spec_ty_refers(
            s.members@[k].ty,
            x,
        )) ==> spec_deps(defs, id).contains(x),
        (defs[id as int].kind matches DefKind::Except(e) && 0 <= k < e.members@.len() && spec_ty_refers(
            e.members@[k].ty,
            x,
        )) ==> spec_deps(defs, id).contains(x),
        (defs[id as int].kind matches DefKind::Valuetype(v) && 0 <= k < v.members@.len() && spec_ty_refers(
            v.members@[k].ty,
            x,
        )) ==> spec_deps(defs, id).contains(x),
{
    match defs[id as int].kind {
        DefKind::Struct(s) => if 0 <= k < s.members@.len() {
            let f = |m: Member| spec_ty_refers(m.ty, x);
            assert(spec_ty_refers(s.members@[k].ty, x) ==> f(s.members@[k]));
        },
        DefKind::Except(e) => if 0 <= k < e.members@.len() {
            let f = |m: Member| spec_ty_refers(m.ty, x);
            assert(spec_ty_refers(e.members@[k].ty, x) ==> f(e.members@[k]));
        },
        DefKind::Valuetype(v) => if 0 <= k < v.members@.len() {
            let f = |m: Member| spec_ty_refers(m.ty, x);
            assert(spec_ty_refers(v.members@[k].ty, x) ==> f(v.members@[k]));
        },
        _ => {},
    }
}

/// Every definition named by the type of an attribute, or by the result or
/// a parameter type of an operation, of an interface or value type is a
/// dependency of it.
pub proof fn lemma_operation_types_are_deps(defs: Seq<Def>, id: DefId, k: int, j: int, x: DefId)
    requires
        id < defs.len(),
    ensures
        (defs[id as int].kind matches DefKind::Interface(i) && 0 <= k < i.attributes@.len() && spec_ty_refers(
            i.attributes@[k].ty,
            x,
        )) ==> spec_deps(defs, id).contains(x),
        (defs[id as int].kind matches DefKind::Valuetype(v) && 0 <= k < v.attributes@.len() && spec_ty_refers(
            v.attributes@[k].ty,
            x,
        )) ==> spec_deps(defs, id).contains(x),
        (defs[id as int].kind matches DefKind::Interface(i) && 0 <= k < i.prototypes@.len() && (spec_ty_refers(
            i.prototypes@[k].ty,
            x,
        ) || (0 <= j < i.prototypes@[k].params@.len() && spec_ty_refers(i.prototypes@[k].params@[j].ty, x))))
            ==> spec_deps(defs, id).contains(x),
        (defs[id as int].kind matches DefKind::Valuetype(v) && 0 <= k < v.prototypes@.len() && (spec_ty_refers(
            v.prototypes@[k].ty,
            x,
        ) || (0 <= j < v.prototypes@[k].params@.len() && spec_ty_refers(v.prototypes@[k].params@[j].ty, x))))
            ==> spec_deps(defs, id).contains(x),
{
    match defs[id as int].kind {
        DefKind::Interface(i) => {
            if 0 <= k < i.attributes@.len() {
                assert(spec_attr_refers(i.attributes@[k], x) || !spec_ty_refers(i.attributes@[k].ty, x));
                let f = |a: Attribute| spec_attr_refers(a, x);
                assert(spec_ty_refers(i.attributes@[k].ty, x) ==> f(i.attributes@[k]));
            }
            if 0 <= k < i.prototypes@.len() {
                let p = i.prototypes@[k];
                if 0 <= j < p.params@.len() {
                    let g = |q: Parameter| spec_ty_refers(q.ty, x);
                    assert(spec_ty_refers(p.params@[j].ty, x) ==> g(p.params@[j]));
                }
                let f = |q: ProtoTy| spec_proto_refers(q, x);
                assert(spec_proto_refers(p, x) ==> f(i.prototypes@[k]));
            }
        },
        DefKind::Valuetype(v) => {
            if 0 <= k < v.attributes@.len() {
                let f = |a: Attribute| spec_attr_refers(a, x);
                assert(spec_ty_refers(v.attributes@[k].ty, x) ==> f(v.attributes@[k]));
            }
            if 0 <= k < v.prototypes@.len() {
                let p = v.prototypes@[k];
                if 0 <= j < p.params@.len() {
                    let g = |q: Parameter| spec_ty_refers(q.ty, x);
                    assert(spec_ty_refers(p.params@[j].ty, x) ==> g(p.params@[j]));
                }
                let f = |q: ProtoTy| spec_proto_refers(q, x);
                assert(spec_proto_refers(p, x) ==> f(v.prototypes@[k]));
            }
        },
        _ => {},
    }
}

/// The definitions a definition names directly are its dependencies: the
/// type an alias or constant has, a constant its value names, a struct's
/// or value type's parent, the interface a value type supports, and an
/// interface's parents.
pub proof fn lemma_named_definitions_are_deps(defs: Seq<Def>, id: DefId, k: int, x: DefId)
    requires
        id < defs.len(),
    ensures
        (defs[id as int].kind matches DefKind::Alias(a) && spec_ty_refers(a.ty, x)) ==> spec_deps(defs, id).contains(x),
        (defs[id as int].kind matches DefKind::Const(c) && (spec_ty_refers(c.ty, x) || spec_numeric_refers(c.value, x)))
            ==> spec_deps(defs, id).contains(x),
        (defs[id as int].kind matches DefKind::Struct(s) && s.parent is Some && s.parent->Some_0.def_id == x)
            ==> spec_deps(defs, id).contains(x),
        (defs[id as int].kind matches DefKind::Valuetype(v) && ((v.parent is Some && v.parent->Some_0.def_id == x)
            || (v.supports is Some && v.supports->Some_0.def_id == x))) ==> spec_deps(defs, id).contains(x),
        (defs[id as int].kind matches DefKind::Interface(i) && 0 <= k < i.parents@.len() && i.parents@[k].def_id == x)
            ==> spec_deps(defs, id).contains(x),
{
    if let DefKind::Interface(i) = defs[id as int].kind {
        if 0 <= k < i.parents@.len() {
            let f = |p: Spanned| p.def_id == x;
            assert(i.parents@[k].def_id == x ==> f(i.parents@[k]));
        }
    }
}

/// A module, enum, bitmask or forward declaration depends on nothing: what
/// it contains is not a dependency.
pub proof fn lemma_containers_have_no_deps(defs: Seq<Def>, id: DefId)
    requires
        id < defs.len(),
        defs[id as int].kind is Module || defs[id as int].kind is Enum || defs[id as int].kind is Bitmask
            || defs[id as int].kind is Decl,
    ensures
        spec_deps(defs, id) == Set::<DefId>::empty(),
{
    assert(spec_deps(defs, id) =~= Set::<DefId>::empty());
}

/// Whether every answer that `keep` can give for a definition is what `p`
/// says of it: `keep` decides `p`.
pub open spec fn spec_decides<F: Fn(&Def) -> bool>(keep: F, p: spec_fn(Def) -> bool) -> bool {
    forall|x: &Def, b: bool| call_ensures(keep, (x,), b) ==> b == p(*x)
}

/// The definitions that definition `id` refers to.
pub open spec fn spec_deps(defs: Seq<Def>, id: DefId) -> Set<DefId> {
    Set::new(|d: DefId| spec_def_refers(defs[id as int].kind, d))
}

} // verus!

verus! {

/// `new` holds what `old` holds and exactly the ids satisfying `p` besides.
pub open spec fn spec_grew(old: Seq<DefId>, new: Seq<DefId>, p: spec_fn(DefId) -> bool) -> bool {
    forall|d: DefId|
        #![trigger new.contains(d)]
        #![trigger old.contains(d)]
        new.contains(d) == (old.contains(d) || p(d))
}

proof fn lemma_push_grew(s: Seq<DefId>, x: DefId)
    ensures
        spec_grew(s, s.push(x), |d: DefId| d == x),
{
    assert forall|d: DefId| s.push(x).contains(d) == (s.contains(d) || d == x) by {
        if s.push(x).contains(d) {
            let i = choose|i: int| 0 <= i < s.push(x).len() && s.push(x)[i] == d;
            if i < s.len() {
                assert(s[i] == d);
            }
        }
        if s.contains(d) {
            let i = choose|i: int| 0 <= i < s.len() && s[i] == d;
            assert(s.push(x)[i] == d);
        }
        if d == x {
            assert(s.push(x)[s.len() as int] == d);
        }
    }
}

fn push_ty_refs(ty: &Ty, out: &mut Vec<DefId>)
    ensures
        spec_grew(old(out)@, final(out)@, |d: DefId| spec_ty_refers(*ty, d)),
    decreases ty,
{
    match &ty.kind {
        TyKind::Adt(id) => {
            proof {
                lemma_push_grew(out@, *id);
            }
            out.push(*id);
        },
        TyKind::Array { ty: inner, .. } => {
            push_ty_refs(inner, out);
        },
        TyKind::Sequence { ty: inner, .. } => {
            push_ty_refs(inner, out);
        },
        TyKind::Mapping { key, elem, .. } => {
            let ghost s0 = out@;
            push_ty_refs(key, out);
            let ghost s1 = out@;
            push_ty_refs(elem, out);
            assert forall|d: DefId| out@.contains(d) == (s0.contains(d) || spec_ty_refers(*ty, d)) by {
                assert(out@.contains(d) == (s1.contains(d) || spec_ty_refers(**elem, d)));
                assert(s1.contains(d) == (s0.contains(d) || spec_ty_refers(**key, d)));
            }
        },
        _ => {
            assert forall|d: DefId| out@.contains(d) == (out@.contains(d) || spec_ty_refers(*ty, d)) by {}
        },
    }
}

} // verus!

verus! {

#[verifier::loop_isolation(false)]
fn push_numeric_refs(n: &Numeric, out: &mut Vec<DefId>)
    ensures
        spec_grew(old(out)@, final(out)@, |d: DefId| spec_numeric_refers(*n, d)),
    decreases n, 1nat,
{
    let ghost s0 = out@;
    match n {
        Numeric::Const(id) => {
            proof {
                lemma_push_grew(out@, *id);
            }
            out.push(*id);
            assert forall|d: DefId| out@.contains(d) == (s0.contains(d) || spec_numeric_refers(*n, d)) by {
                assert(out@.contains(d) == (s0.contains(d) || d == *id));
            }
        },
        Numeric::Array { values, .. } => {
            push_values_refs(n, values, out);
        },
        Numeric::Sequence { values, .. } => {
            push_values_refs(n, values, out);
        },
        Numeric::Mapping { entries, .. } => {
            let mut i: usize = 0;
            while i < entries.len()
                invariant
                    0 <= i <= entries@.len(),
                    spec_grew(s0, out@, |d: DefId| spec_entries_refer(entries@.subrange(0, i as int), d)),
                decreases entries@.len() - i,
            {
                let ghost s1 = out@;
                proof {
                    assert(decreases_to!(*n => entries@[i as int].0));
                    assert(decreases_to!(*n => entries@[i as int].1));
                }
                push_numeric_refs(&entries[i].0, out);
                let ghost s2 = out@;
                push_numeric_refs(&entries[i].1, out);
                assert(entries@.subrange(0, i + 1).drop_last() =~= entries@.subrange(0, i as int));
                assert forall|d: DefId|
                    out@.contains(d) == (s0.contains(d) || spec_entries_refer(entries@.subrange(0, i + 1), d)) by {
                    assert(out@.contains(d) == (s2.contains(d) || spec_numeric_refers(entries@[i as int].1, d)));
                    assert(s2.contains(d) == (s1.contains(d) || spec_numeric_refers(entries@[i as int].0, d)));
                }
                i += 1;
            }
            assert(entries@.subrange(0, i as int) =~= entries@);
        },
        Numeric::Struct { ty, fields } => {
            proof {
                lemma_push_grew(out@, *ty);
            }
            out.push(*ty);
            let ghost s1 = out@;
            push_values_refs(n, fields, out);
            assert forall|d: DefId| out@.contains(d) == (s0.contains(d) || spec_numeric_refers(*n, d)) by {
                assert(s1.contains(d) == (s0.contains(d) || d == *ty));
            }
        },
        Numeric::Union { ty, discriminant, value, .. } => {
            proof {
                lemma_push_grew(out@, *ty);
            }
            out.push(*ty);
            let ghost s1 = out@;
            push_numeric_refs(discriminant, out);
            let ghost s2 = out@;
            push_numeric_refs(value, out);
            assert forall|d: DefId| out@.contains(d) == (s0.contains(d) || spec_numeric_refers(*n, d)) by {
                assert(out@.contains(d) == (s2.contains(d) || spec_numeric_refers(**value, d)));
                assert(s2.contains(d) == (s1.contains(d) || spec_numeric_refers(**discriminant, d)));
                assert(s1.contains(d) == (s0.contains(d) || d == *ty));
            }
        },
        _ => {
            assert forall|d: DefId| out@.contains(d) == (out@.contains(d) || spec_numeric_refers(*n, d)) by {}
        },
    }
}

/// Push the ids named by the elements of `values`, a part of `n`.
fn push_values_refs(n: &Numeric, values: &Vec<Numeric>, out: &mut Vec<DefId>)
    requires
        decreases_to!(*n => values@),
    ensures
        spec_grew(old(out)@, final(out)@, |d: DefId| spec_values_refer(values@, d)),
    decreases n, 0nat,
{
    let ghost s0 = out@;
    let mut i: usize = 0;
    while i < values.len()
        invariant
            0 <= i <= values@.len(),
            decreases_to!(*n => values@),
            spec_grew(s0, out@, |d: DefId| spec_values_refer(values@.subrange(0, i as int), d)),
        decreases values@.len() - i,
    {
        let ghost s1 = out@;
        proof {
            assert(decreases_to!(values@ => values@[i as int]));
        }
        push_numeric_refs(&values[i], out);
        assert(values@.subrange(0, i + 1).drop_last() =~= values@.subrange(0, i as int));
        assert forall|d: DefId| out@.contains(d) == (s0.contains(d) || spec_values_refer(values@.subrange(0, i + 1), d)) by {
            assert(out@.contains(d) == (s1.contains(d) || spec_numeric_refers(values@[i as int], d)));
        }
        i += 1;
    }
    assert(values@.subrange(0, i as int) =~= values@);
}

} // verus!

verus! {

fn push_members_refs(members: &Vec<Member>, out: &mut Vec<DefId>)
    ensures
        spec_grew(old(out)@, final(out)@, |d: DefId| spec_any(members@, |m: Member| spec_ty_refers(m.ty, d))),
{
    let ghost s0 = out@;
    let mut i: usize = 0;
    while i < members.len()
        invariant
            0 <= i <= members@.len(),
            spec_grew(
                s0,
                out@,
                |d: DefId| spec_any(members@.subrange(0, i as int), |m: Member| spec_ty_refers(m.ty, d)),
            ),
        decreases members@.len() - i,
    {
        let ghost s1 = out@;
        push_ty_refs(&members[i].ty, out);
        assert forall|d: DefId|
            out@.contains(d) == (s0.contains(d) || spec_any(
                members@.subrange(0, i + 1),
                |m: Member| spec_ty_refers(m.ty, d),
            )) by {
            lemma_any_prefix(members@, i as int, |m: Member| spec_ty_refers(m.ty, d));
            assert(out@.contains(d) == (s1.contains(d) || spec_ty_refers(members@[i as int].ty, d)));
        }
        i += 1;
    }
    assert(members@.subrange(0, i as int) =~= members@);
}

} // verus!

verus! {

fn push_spanned_refs(items: &Vec<Spanned>, out: &mut Vec<DefId>)
    ensures
        spec_grew(old(out)@, final(out)@, |d: DefId| spec_spanned_refer(items@, d)),
{
    let ghost s0 = out@;
    let mut i: usize = 0;
    while i < items.len()
        invariant
            0 <= i <= items@.len(),
            spec_grew(s0, out@, |d: DefId| spec_spanned_refer(items@.subrange(0, i as int), d)),
        decreases items@.len() - i,
    {
        let ghost s1 = out@;
        let id = items[i].def_id;
        proof {
            lemma_push_grew(out@, id);
        }
        out.push(id);
        assert forall|d: DefId| out@.contains(d) == (s0.contains(d) || spec_spanned_refer(items@.subrange(0, i + 1), d)) by {
            lemma_any_prefix(items@, i as int, |x: Spanned| x.def_id == d);
            assert(out@.contains(d) == (s1.contains(d) || d == id));
        }
        i += 1;
    }
    assert(items@.subrange(0, i as int) =~= items@);
}

fn push_opt_refs(opt: &Option<Spanned>, out: &mut Vec<DefId>)
    ensures
        spec_grew(old(out)@, final(out)@, |d: DefId| spec_opt_refers(*opt, d)),
{
    let ghost s0 = out@;
    if let Some(p) = opt {
        proof {
            lemma_push_grew(out@, p.def_id);
        }
        out.push(p.def_id);
        assert forall|d: DefId| out@.contains(d) == (s0.contains(d) || spec_opt_refers(*opt, d)) by {
            assert(out@.contains(d) == (s0.contains(d) || d == p.def_id));
        }
    } else {
        assert forall|d: DefId| out@.contains(d) == (s0.contains(d) || spec_opt_refers(*opt, d)) by {}
    }
}

fn push_attr_refs(a: &Attribute, out: &mut Vec<DefId>)
    ensures
        spec_grew(old(out)@, final(out)@, |d: DefId| spec_attr_refers(*a, d)),
{
    let ghost s0 = out@;
    push_ty_refs(&a.ty, out);
    let ghost s1 = out@;
    push_spanned_refs(&a.getraises, out);
    let ghost s2 = out@;
    push_spanned_refs(&a.setraises, out);
    assert forall|d: DefId| out@.contains(d) == (s0.contains(d) || spec_attr_refers(*a, d)) by {
        assert(out@.contains(d) == (s2.contains(d) || spec_spanned_refer(a.setraises@, d)));
        assert(s2.contains(d) == (s1.contains(d) || spec_spanned_refer(a.getraises@, d)));
        assert(s1.contains(d) == (s0.contains(d) || spec_ty_refers(a.ty, d)));
    }
}

fn push_proto_refs(p: &ProtoTy, out: &mut Vec<DefId>)
    ensures
        spec_grew(old(out)@, final(out)@, |d: DefId| spec_proto_refers(*p, d)),
{
    let ghost s0 = out@;
    push_ty_refs(&p.ty, out);
    let ghost s1 = out@;
    push_spanned_refs(&p.raises, out);
    let ghost s2 = out@;
    push_params_refs(&p.params, out);
    assert forall|d: DefId| out@.contains(d) == (s0.contains(d) || spec_proto_refers(*p, d)) by {
        assert(out@.contains(d) == (s2.contains(d) || spec_any(p.params@, |x: Parameter| spec_ty_refers(x.ty, d))));
        assert(s2.contains(d) == (s1.contains(d) || spec_spanned_refer(p.raises@, d)));
        assert(s1.contains(d) == (s0.contains(d) || spec_ty_refers(p.ty, d)));
    }
}

fn push_variant_refs(v: &Variant, out: &mut Vec<DefId>)
    ensures
        spec_grew(old(out)@, final(out)@, |d: DefId| spec_variant_refers(*v, d)),
{
    let ghost s0 = out@;
    push_ty_refs(&v.ty, out);
    let ghost s1 = out@;
    push_labels_refs(&v.labels, out);
    assert forall|d: DefId| out@.contains(d) == (s0.contains(d) || spec_variant_refers(*v, d)) by {
        assert(out@.contains(d) == (s1.contains(d) || spec_any(v.labels@, |x: Label| spec_numeric_refers(x.value, d))));
        assert(s1.contains(d) == (s0.contains(d) || spec_ty_refers(v.ty, d)));
    }
}

fn push_ann_param_refs(p: &AnnParam, out: &mut Vec<DefId>)
    ensures
        spec_grew(old(out)@, final(out)@, |d: DefId| spec_ann_param_refers(*p, d)),
{
    let ghost s0 = out@;
    push_ty_refs(&p.ty, out);
    let ghost s1 = out@;
    if let Some(v) = &p.default {
        push_numeric_refs(v, out);
        assert forall|d: DefId| out@.contains(d) == (s0.contains(d) || spec_ann_param_refers(*p, d)) by {
            assert(out@.contains(d) == (s1.contains(d) || spec_numeric_refers(*v, d)));
            assert(s1.contains(d) == (s0.contains(d) || spec_ty_refers(p.ty, d)));
        }
    } else {
        assert forall|d: DefId| out@.contains(d) == (s0.contains(d) || spec_ann_param_refers(*p, d)) by {
            assert(s1.contains(d) == (s0.contains(d) || spec_ty_refers(p.ty, d)));
        }
    }
}

/// Push the ids the parameter types refer to.
fn push_params_refs(items: &Vec<Parameter>, out: &mut Vec<DefId>)
    ensures
        spec_grew(old(out)@, final(out)@, |d: DefId| spec_any(items@, |x: Parameter| spec_ty_refers(x.ty, d))),
{
    let ghost s0 = out@;
    let mut i: usize = 0;
    while i < items.len()
        invariant
            0 <= i <= items@.len(),
            spec_grew(s0, out@, |d: DefId| spec_any(items@.subrange(0, i as int), |x: Parameter| spec_ty_refers(x.ty, d))),
        decreases items@.len() - i,
    {
        let ghost s1 = out@;
        push_ty_refs(&items[i].ty, out);
        assert forall|d: DefId|
            out@.contains(d) == (s0.contains(d) || spec_any(items@.subrange(0, i + 1), |x: Parameter| spec_ty_refers(x.ty, d))) by {
            lemma_any_prefix(items@, i as int, |x: Parameter| spec_ty_refers(x.ty, d));
            assert(out@.contains(d) == (s1.contains(d) || spec_ty_refers(items@[i as int].ty, d)));
        }
        i += 1;
    }
    assert(items@.subrange(0, i as int) =~= items@);
}

/// Push the ids the label values name.
fn push_labels_refs(items: &Vec<Label>, out: &mut Vec<DefId>)
    ensures
        spec_grew(old(out)@, final(out)@, |d: DefId| spec_any(items@, |x: Label| spec_numeric_refers(x.value, d))),
{
    let ghost s0 = out@;
    let mut i: usize = 0;
    while i < items.len()
        invariant
            0 <= i <= items@.len(),
            spec_grew(s0, out@, |d: DefId| spec_any(items@.subrange(0, i as int), |x: Label| spec_numeric_refers(x.value, d))),
        decreases items@.len() - i,
    {
        let ghost s1 = out@;
        push_numeric_refs(&items[i].value, out);
        assert forall|d: DefId|
            out@.contains(d) == (s0.contains(d) || spec_any(items@.subrange(0, i + 1), |x: Label| spec_numeric_refers(x.value, d))) by {
            lemma_any_prefix(items@, i as int, |x: Label| spec_numeric_refers(x.value, d));
            assert(out@.contains(d) == (s1.contains(d) || spec_numeric_refers(items@[i as int].value, d)));
        }
        i += 1;
    }
    assert(items@.subrange(0, i as int) =~= items@);
}

/// Push the ids the attributes refer to.
fn push_attrs_refs(items: &Vec<Attribute>, out: &mut Vec<DefId>)
    ensures
        spec_grew(old(out)@, final(out)@, |d: DefId| spec_any(items@, |x: Attribute| spec_attr_refers(x, d))),
{
    let ghost s0 = out@;
    let mut i: usize = 0;
    while i < items.len()
        invariant
            0 <= i <= items@.len(),
            spec_grew(s0, out@, |d: DefId| spec_any(items@.subrange(0, i as int), |x: Attribute| spec_attr_refers(x, d))),
        decreases items@.len() - i,
    {
        let ghost s1 = out@;
        push_attr_refs(&items[i], out);
        assert forall|d: DefId|
            out@.contains(d) == (s0.contains(d) || spec_any(items@.subrange(0, i + 1), |x: Attribute| spec_attr_refers(x, d))) by {
            lemma_any_prefix(items@, i as int, |x: Attribute| spec_attr_refers(x, d));
            assert(out@.contains(d) == (s1.contains(d) || spec_attr_refers(items@[i as int], d)));
        }
        i += 1;
    }
    assert(items@.subrange(0, i as int) =~= items@);
}

/// Push the ids the operations refer to.
fn push_protos_refs(items: &Vec<ProtoTy>, out: &mut Vec<DefId>)
    ensures
        spec_grew(old(out)@, final(out)@, |d: DefId| spec_any(items@, |x: ProtoTy| spec_proto_refers(x, d))),
{
    let ghost s0 = out@;
    let mut i: usize = 0;
    while i < items.len()
        invariant
            0 <= i <= items@.len(),
            spec_grew(s0, out@, |d: DefId| spec_any(items@.subrange(0, i as int), |x: ProtoTy| spec_proto_refers(x, d))),
        decreases items@.len() - i,
    {
        let ghost s1 = out@;
        push_proto_refs(&items[i], out);
        assert forall|d: DefId|
            out@.contains(d) == (s0.contains(d) || spec_any(items@.subrange(0, i + 1), |x: ProtoTy| spec_proto_refers(x, d))) by {
            lemma_any_prefix(items@, i as int, |x: ProtoTy| spec_proto_refers(x, d));
            assert(out@.contains(d) == (s1.contains(d) || spec_proto_refers(items@[i as int], d)));
        }
        i += 1;
    }
    assert(items@.subrange(0, i as int) =~= items@);
}

/// Push the ids the union cases refer to.
fn push_variants_refs(items: &Vec<Variant>, out: &mut Vec<DefId>)
    ensures
        spec_grew(old(out)@, final(out)@, |d: DefId| spec_any(items@, |x: Variant| spec_variant_refers(x, d))),
{
    let ghost s0 = out@;
    let mut i: usize = 0;
    while i < items.len()
        invariant
            0 <= i <= items@.len(),
            spec_grew(s0, out@, |d: DefId| spec_any(items@.subrange(0, i as int), |x: Variant| spec_variant_refers(x, d))),
        decreases items@.len() - i,
    {
        let ghost s1 = out@;
        push_variant_refs(&items[i], out);
        assert forall|d: DefId|
            out@.contains(d) == (s0.contains(d) || spec_any(items@.subrange(0, i + 1), |x: Variant| spec_variant_refers(x, d))) by {
            lemma_any_prefix(items@, i as int, |x: Variant| spec_variant_refers(x, d));
            assert(out@.contains(d) == (s1.contains(d) || spec_variant_refers(items@[i as int], d)));
        }
        i += 1;
    }
    assert(items@.subrange(0, i as int) =~= items@);
}

/// Push the ids the bitfield types refer to.
fn push_bitset_fields_refs(items: &Vec<BitsetField>, out: &mut Vec<DefId>)
    ensures
        spec_grew(old(out)@, final(out)@, |d: DefId| spec_any(items@, |x: BitsetField| spec_ty_refers(x.ty, d))),
{
    let ghost s0 = out@;
    let mut i: usize = 0;
    while i < items.len()
        invariant
            0 <= i <= items@.len(),
            spec_grew(s0, out@, |d: DefId| spec_any(items@.subrange(0, i as int), |x: BitsetField| spec_ty_refers(x.ty, d))),
        decreases items@.len() - i,
    {
        let ghost s1 = out@;
        push_ty_refs(&items[i].ty, out);
        assert forall|d: DefId|
            out@.contains(d) == (s0.contains(d) || spec_any(items@.subrange(0, i + 1), |x: BitsetField| spec_ty_refers(x.ty, d))) by {
            lemma_any_prefix(items@, i as int, |x: BitsetField| spec_ty_refers(x.ty, d));
            assert(out@.contains(d) == (s1.contains(d) || spec_ty_refers(items@[i as int].ty, d)));
        }
        i += 1;
    }
    assert(items@.subrange(0, i as int) =~= items@);
}

/// Push the ids the annotation parameters refer to.
fn push_ann_params_refs(items: &Vec<AnnParam>, out: &mut Vec<DefId>)
    ensures
        spec_grew(old(out)@, final(out)@, |d: DefId| spec_any(items@, |x: AnnParam| spec_ann_param_refers(x, d))),
{
    let ghost s0 = out@;
    let mut i: usize = 0;
    while i < items.len()
        invariant
            0 <= i <= items@.len(),
            spec_grew(s0, out@, |d: DefId| spec_any(items@.subrange(0, i as int), |x: AnnParam| spec_ann_param_refers(x, d))),
        decreases items@.len() - i,
    {
        let ghost s1 = out@;
        push_ann_param_refs(&items[i], out);
        assert forall|d: DefId|
            out@.contains(d) == (s0.contains(d) || spec_any(items@.subrange(0, i + 1), |x: AnnParam| spec_ann_param_refers(x, d))) by {
            lemma_any_prefix(items@, i as int, |x: AnnParam| spec_ann_param_refers(x, d));
            assert(out@.contains(d) == (s1.contains(d) || spec_ann_param_refers(items@[i as int], d)));
        }
        i += 1;
    }
    assert(items@.subrange(0, i as int) =~= items@);
}

} // verus!

verus! {

/// Two successive growths are one growth by either predicate.
proof fn lemma_grew_trans(s0: Seq<DefId>, s1: Seq<DefId>, s2: Seq<DefId>, p: spec_fn(DefId) -> bool, q: spec_fn(DefId) -> bool)
    requires
        spec_grew(s0, s1, p),
        spec_grew(s1, s2, q),
    ensures
        spec_grew(s0, s2, |d: DefId| p(d) || q(d)),
{
    assert forall|d: DefId| s2.contains(d) == (s0.contains(d) || p(d) || q(d)) by {
        assert(s2.contains(d) == (s1.contains(d) || q(d)));
        assert(s1.contains(d) == (s0.contains(d) || p(d)));
    }
}

fn push_def_refs(kind: &DefKind, out: &mut Vec<DefId>)
    ensures
        spec_grew(old(out)@, final(out)@, |d: DefId| spec_def_refers(*kind, d)),
{
    let ghost s0 = out@;
    match kind {
        DefKind::Struct(st) => {
            push_opt_refs(&st.parent, out);
            let ghost s1 = out@;
            push_members_refs(&st.members, out);
            proof {
                lemma_grew_trans(s0, s1, out@, |d: DefId| spec_opt_refers(st.parent, d), |d: DefId| spec_any(st.members@, |m: Member| spec_ty_refers(m.ty, d)));
            }
        },
        DefKind::Union(u) => {
            push_ty_refs(&u.disc.ty, out);
            let ghost s1 = out@;
            push_variants_refs(&u.variants, out);
            proof {
                lemma_grew_trans(s0, s1, out@, |d: DefId| spec_ty_refers(u.disc.ty, d), |d: DefId| spec_any(u.variants@, |x: Variant| spec_variant_refers(x, d)));
            }
        },
        DefKind::Interface(it) => {
            push_spanned_refs(&it.parents, out);
            let ghost s1 = out@;
            push_attrs_refs(&it.attributes, out);
            let ghost s2 = out@;
            push_protos_refs(&it.prototypes, out);
            proof {
                lemma_grew_trans(s0, s1, s2, |d: DefId| spec_spanned_refer(it.parents@, d), |d: DefId| spec_any(it.attributes@, |x: Attribute| spec_attr_refers(x, d)));
                lemma_grew_trans(s0, s2, out@, |d: DefId| spec_spanned_refer(it.parents@, d) || spec_any(it.attributes@, |x: Attribute| spec_attr_refers(x, d)), |d: DefId| spec_any(it.prototypes@, |x: ProtoTy| spec_proto_refers(x, d)));
            }
        },
        DefKind::Valuetype(v) => {
            push_opt_refs(&v.parent, out);
            let ghost s1 = out@;
            push_opt_refs(&v.supports, out);
            let ghost s2 = out@;
            push_members_refs(&v.members, out);
            let ghost s3 = out@;
            push_attrs_refs(&v.attributes, out);
            let ghost s4 = out@;
            push_protos_refs(&v.prototypes, out);
            proof {
                let p1 = |d: DefId| spec_opt_refers(v.parent, d);
                let p2 = |d: DefId| spec_opt_refers(v.supports, d);
                let p3 = |d: DefId| spec_any(v.members@, |m: Member| spec_ty_refers(m.ty, d));
                let p4 = |d: DefId| spec_any(v.attributes@, |x: Attribute| spec_attr_refers(x, d));
                let p5 = |d: DefId| spec_any(v.prototypes@, |x: ProtoTy| spec_proto_refers(x, d));
                lemma_grew_trans(s0, s1, s2, p1, p2);
                let q2 = |d: DefId| p1(d) || p2(d);
                lemma_grew_trans(s0, s2, s3, q2, p3);
                let q3 = |d: DefId| q2(d) || p3(d);
                lemma_grew_trans(s0, s3, s4, q3, p4);
                let q4 = |d: DefId| q3(d) || p4(d);
                lemma_grew_trans(s0, s4, out@, q4, p5);
                assert forall|d: DefId| out@.contains(d) == (s0.contains(d) || spec_def_refers(*kind, d)) by {
                    assert(out@.contains(d) == (s0.contains(d) || q4(d) || p5(d)));
                }
            }
        },
        DefKind::Except(e) => {
            push_members_refs(&e.members, out);
        },
        DefKind::Alias(a) => {
            push_ty_refs(&a.ty, out);
        },
        DefKind::Const(c) => {
            push_ty_refs(&c.ty, out);
            let ghost s1 = out@;
            push_numeric_refs(&c.value, out);
            proof {
                lemma_grew_trans(s0, s1, out@, |d: DefId| spec_ty_refers(c.ty, d), |d: DefId| spec_numeric_refers(c.value, d));
            }
        },
        DefKind::Bitset(b) => {
            push_opt_refs(&b.parent, out);
            let ghost s1 = out@;
            push_bitset_fields_refs(&b.fields, out);
            proof {
                lemma_grew_trans(s0, s1, out@, |d: DefId| spec_opt_refers(b.parent, d), |d: DefId| spec_any(b.fields@, |x: BitsetField| spec_ty_refers(x.ty, d)));
            }
        },
        DefKind::Annotation(a) => {
            push_ann_params_refs(&a.params, out);
        },
        _ => {
            assert forall|d: DefId| out@.contains(d) == (s0.contains(d) || spec_def_refers(*kind, d)) by {}
        },
    }
    assert forall|d: DefId| out@.contains(d) == (s0.contains(d) || spec_def_refers(*kind, d)) by {}
}

} // verus!

verus! {

impl Context {
    /// Every definition that definition `def_id` refers to: the types used
    /// in members, parent types, interface parents, raised exceptions,
    /// constants named in union labels and values. Children (the
    /// definitions of a module, the fields of an enum) are not included.
    pub fn deps(&self, def_id: DefId) -> (r: std::collections::HashSet<DefId>)
        requires
            def_id < self.definitions@.len(),
            forall|d: DefId| spec_def_refers(self.definitions@[def_id as int].kind, d) ==> d < self.definitions@.len(),
        ensures
            r@ == spec_deps(self.definitions@, def_id),
    {
        broadcast use vstd::std_specs::hash::group_hash_axioms;

        let mut refs: Vec<DefId> = Vec::new();
        push_def_refs(&self.type_of(def_id).kind, &mut refs);
        let mut set: std::collections::HashSet<DefId> = std::collections::HashSet::new();
        let mut i: usize = 0;
        while i < refs.len()
            invariant
                0 <= i <= refs@.len(),
                forall|d: DefId| set@.contains(d) <==> refs@.subrange(0, i as int).contains(d),
            decreases refs@.len() - i,
        {
            let id = refs[i];
            set.insert(id);
            assert forall|d: DefId| set@.contains(d) <==> refs@.subrange(0, i + 1).contains(d) by {
                lemma_any_prefix(refs@, i as int, |x: DefId| x == d);
                assert(refs@.subrange(0, i + 1).contains(d) == spec_any(refs@.subrange(0, i + 1), |x: DefId| x == d));
                assert(refs@.subrange(0, i as int).contains(d) == spec_any(refs@.subrange(0, i as int), |x: DefId| x == d));
            }
            i += 1;
        }
        assert(refs@.subrange(0, i as int) =~= refs@);
        assert(set@ =~= spec_deps(self.definitions@, def_id));
        set
    }

    /// The definitions that definition `def_id` refers to (see
    /// [`Context::deps`]) for which `keep` holds of the referred
    /// definition.
    pub fn deps_where<F: Fn(&Def) -> bool>(&self, def_id: DefId, keep: F) -> (r: std::collections::HashSet<DefId>)
        requires
            def_id < self.definitions@.len(),
            forall|d: DefId| spec_def_refers(self.definitions@[def_id as int].kind, d) ==> d < self.definitions@.len(),
            forall|x: &Def| call_requires(keep, (x,)),
        ensures
            forall|d: DefId|
                r@.contains(d) ==> spec_deps(self.definitions@, def_id).contains(d) && call_ensures(
                    keep,
                    (&self.definitions@[d as int],),
                    true,
                ),
            forall|d: DefId|
                spec_deps(self.definitions@, def_id).contains(d) && (forall|b: bool|
                    call_ensures(keep, (&self.definitions@[d as int],), b) ==> b) ==> r@.contains(d),
            forall|p: spec_fn(Def) -> bool|
                #[trigger] spec_decides(keep, p) ==> r@ == spec_deps(self.definitions@, def_id).filter(
                    |d: DefId| p(self.definitions@[d as int]),
                ),
    {
        broadcast use vstd::std_specs::hash::group_hash_axioms;

        let mut refs: Vec<DefId> = Vec::new();
        push_def_refs(&self.type_of(def_id).kind, &mut refs);
        let ghost deps = spec_deps(self.definitions@, def_id);
        let mut set: std::collections::HashSet<DefId> = std::collections::HashSet::new();
        let mut i: usize = 0;
        while i < refs.len()
            invariant
                0 <= i <= refs@.len(),
                deps == spec_deps(self.definitions@, def_id),
                forall|d: DefId| refs@.contains(d) <==> deps.contains(d),
                forall|d: DefId| deps.contains(d) ==> d < self.definitions@.len(),
                forall|x: &Def| call_requires(keep, (x,)),
                forall|d: DefId|
                    #[trigger] set@.contains(d) ==> deps.contains(d) && call_ensures(
                        keep,
                        (&self.definitions@[d as int],),
                        true,
                    ),
                forall|k: int|
                    0 <= k < i && (forall|b: bool|
                        call_ensures(keep, (&self.definitions@[refs@[k] as int],), b) ==> b) ==> set@.contains(
                        #[trigger] refs@[k],
                    ),
            decreases refs@.len() - i,
        {
            let id = refs[i];
            proof {
                assert(refs@[i as int] == id);
                assert(refs@.contains(id));
                assert(deps.contains(id));
            }
            let def_ref = self.type_of(id);
            let chosen = keep(def_ref);
            proof {
                assert(def_ref == &self.definitions@[id as int]);
                assert(call_ensures(keep, (&self.definitions@[id as int],), chosen));
            }
            if chosen {
                set.insert(id);
            }
            i += 1;
        }
        proof {
            assert forall|d: DefId|
                deps.contains(d) && (forall|b: bool| call_ensures(keep, (&self.definitions@[d as int],), b) ==> b)
                    implies set@.contains(d) by {
                assert(refs@.contains(d));
                let k = choose|k: int| 0 <= k < refs@.len() && refs@[k] == d;
                assert(set@.contains(refs@[k]));
            }
            assert forall|p: spec_fn(Def) -> bool| #[trigger] spec_decides(keep, p) implies set@ == deps.filter(
                |d: DefId| p(self.definitions@[d as int]),
            ) by {
                assert forall|d: DefId| set@.contains(d) == deps.filter(|d: DefId| p(self.definitions@[d as int])).contains(d) by {
                    if set@.contains(d) {
                        assert(call_ensures(keep, (&self.definitions@[d as int],), true));
                    }
                    if deps.contains(d) && p(self.definitions@[d as int]) {
                        assert forall|b: bool| call_ensures(keep, (&self.definitions@[d as int],), b) implies b by {}
                    }
                }
                assert(set@ =~= deps.filter(|d: DefId| p(self.definitions@[d as int])));
            }
        }
        set
    }
}

} // verus!
