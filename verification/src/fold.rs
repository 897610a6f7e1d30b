//! Folding (transforming) HIR nodes.
//!
//! A folder consumes nodes and produces new ones. The functions of this
//! module rebuild a node, handing each node it contains, in order, to the
//! folder, and keep everything else as it was; an implementation of
//! [`Fold`] calls them to get the standard traversal. Their contracts say
//! what each contained node was handed to the folder for, through the spec
//! functions of [`Fold`] that name what each method does.

use vstd::prelude::*;
use crate::hir::{
    AliasTy, Ann, AnnArg, AnnParam, AnnotationTy, Attribute, BitmaskTy, BitsetField, BitsetTy, ConstTy, Decl, Def,
    DefKind, Disc, EnumTy, ExceptTy, InterfaceTy, Label, Member, ModuleTy, Numeric, Parameter, ProtoTy, StructTy, Ty,
    TyKind, UnionTy, ValueTy, Variant,
};

verus! {

/// Trait for folding (transforming) HIR nodes at the type level. Each
/// method may call the function of the same name in this module for the
/// standard traversal.
///
/// Each method has a spec function that names what it does: `s.folds_x(x,
/// r, t)` holds when the folder in state `s`, handed `x`, may return `r`
/// and be left in state `t`. A verified implementation defines them and
/// proves its methods against them; one that does not keeps the default,
/// which says nothing. The functions of this module state their results in
/// terms of them.
pub trait Fold: Sized {
    /// Whether this folder, handed a definition `def`, may return `r` and be left
    /// as `after`.
    open spec fn folds_def(self, def: Def, r: Def, after: Self) -> bool {
        true
    }

    /// Transform a definition.
    fn fold_def(&mut self, def: Def) -> (r: Def)
        ensures
            (*old(self)).folds_def(def, r, *final(self)),
    ;

    /// Whether this folder, handed a declaration `decl`, may return `r` and be left
    /// as `after`.
    open spec fn folds_decl(self, decl: Decl, r: Decl, after: Self) -> bool {
        true
    }

    /// Transform a declaration.
    fn fold_decl(&mut self, decl: Decl) -> (r: Decl)
        ensures
            (*old(self)).folds_decl(decl, r, *final(self)),
    ;

    /// Whether this folder, handed a type `ty`, may return `r` and be left
    /// as `after`.
    open spec fn folds_ty(self, ty: Ty, r: Ty, after: Self) -> bool {
        true
    }

    /// Transform a type.
    fn fold_ty(&mut self, ty: Ty) -> (r: Ty)
        ensures
            (*old(self)).folds_ty(ty, r, *final(self)),
    ;

    /// Whether this folder, handed a numeric value `num`, may return `r` and be left
    /// as `after`.
    open spec fn folds_numeric(self, num: Numeric, r: Numeric, after: Self) -> bool {
        true
    }

    /// Transform a numeric value.
    fn fold_numeric(&mut self, num: Numeric) -> (r: Numeric)
        ensures
            (*old(self)).folds_numeric(num, r, *final(self)),
    ;

    /// Whether this folder, handed a struct type `s`, may return `r` and be left
    /// as `after`.
    open spec fn folds_struct_ty(self, s: StructTy, r: StructTy, after: Self) -> bool {
        true
    }

    /// Transform a struct type.
    fn fold_struct_ty(&mut self, s: StructTy) -> (r: StructTy)
        ensures
            (*old(self)).folds_struct_ty(s, r, *final(self)),
    ;

    /// Whether this folder, handed an enum type `e`, may return `r` and be left
    /// as `after`.
    open spec fn folds_enum_ty(self, e: EnumTy, r: EnumTy, after: Self) -> bool {
        true
    }

    /// Transform an enum type.
    fn fold_enum_ty(&mut self, e: EnumTy) -> (r: EnumTy)
        ensures
            (*old(self)).folds_enum_ty(e, r, *final(self)),
    ;

    /// Whether this folder, handed a union type `u`, may return `r` and be left
    /// as `after`.
    open spec fn folds_union_ty(self, u: UnionTy, r: UnionTy, after: Self) -> bool {
        true
    }

    /// Transform a union type.
    fn fold_union_ty(&mut self, u: UnionTy) -> (r: UnionTy)
        ensures
            (*old(self)).folds_union_ty(u, r, *final(self)),
    ;

    /// Whether this folder, handed an alias type `a`, may return `r` and be left
    /// as `after`.
    open spec fn folds_alias_ty(self, a: AliasTy, r: AliasTy, after: Self) -> bool {
        true
    }

    /// Transform an alias type.
    fn fold_alias_ty(&mut self, a: AliasTy) -> (r: AliasTy)
        ensures
            (*old(self)).folds_alias_ty(a, r, *final(self)),
    ;

    /// Whether this folder, handed a bitmask type `b`, may return `r` and be left
    /// as `after`.
    open spec fn folds_bitmask_ty(self, b: BitmaskTy, r: BitmaskTy, after: Self) -> bool {
        true
    }

    /// Transform a bitmask type.
    fn fold_bitmask_ty(&mut self, b: BitmaskTy) -> (r: BitmaskTy)
        ensures
            (*old(self)).folds_bitmask_ty(b, r, *final(self)),
    ;

    /// Whether this folder, handed a bitset type `b`, may return `r` and be left
    /// as `after`.
    open spec fn folds_bitset_ty(self, b: BitsetTy, r: BitsetTy, after: Self) -> bool {
        true
    }

    /// Transform a bitset type.
    fn fold_bitset_ty(&mut self, b: BitsetTy) -> (r: BitsetTy)
        ensures
            (*old(self)).folds_bitset_ty(b, r, *final(self)),
    ;

    /// Whether this folder, handed a const type `c`, may return `r` and be left
    /// as `after`.
    open spec fn folds_const_ty(self, c: ConstTy, r: ConstTy, after: Self) -> bool {
        true
    }

    /// Transform a const type.
    fn fold_const_ty(&mut self, c: ConstTy) -> (r: ConstTy)
        ensures
            (*old(self)).folds_const_ty(c, r, *final(self)),
    ;

    /// Whether this folder, handed an interface type `i`, may return `r` and be left
    /// as `after`.
    open spec fn folds_interface_ty(self, i: InterfaceTy, r: InterfaceTy, after: Self) -> bool {
        true
    }

    /// Transform an interface type.
    fn fold_interface_ty(&mut self, i: InterfaceTy) -> (r: InterfaceTy)
        ensures
            (*old(self)).folds_interface_ty(i, r, *final(self)),
    ;

    /// Whether this folder, handed a valuetype `v`, may return `r` and be left
    /// as `after`.
    open spec fn folds_valuetype(self, v: ValueTy, r: ValueTy, after: Self) -> bool {
        true
    }

    /// Transform a valuetype.
    fn fold_valuetype(&mut self, v: ValueTy) -> (r: ValueTy)
        ensures
            (*old(self)).folds_valuetype(v, r, *final(self)),
    ;

    /// Whether this folder, handed an except type `e`, may return `r` and be left
    /// as `after`.
    open spec fn folds_except_ty(self, e: ExceptTy, r: ExceptTy, after: Self) -> bool {
        true
    }

    /// Transform an except type.
    fn fold_except_ty(&mut self, e: ExceptTy) -> (r: ExceptTy)
        ensures
            (*old(self)).folds_except_ty(e, r, *final(self)),
    ;

    /// Whether this folder, handed a module type `m`, may return `r` and be left
    /// as `after`.
    open spec fn folds_module_ty(self, m: ModuleTy, r: ModuleTy, after: Self) -> bool {
        true
    }

    /// Transform a module type.
    fn fold_module_ty(&mut self, m: ModuleTy) -> (r: ModuleTy)
        ensures
            (*old(self)).folds_module_ty(m, r, *final(self)),
    ;

    /// Whether this folder, handed an annotation type `a`, may return `r` and be left
    /// as `after`.
    open spec fn folds_annotation_ty(self, a: AnnotationTy, r: AnnotationTy, after: Self) -> bool {
        true
    }

    /// Transform an annotation type.
    fn fold_annotation_ty(&mut self, a: AnnotationTy) -> (r: AnnotationTy)
        ensures
            (*old(self)).folds_annotation_ty(a, r, *final(self)),
    ;

    /// Whether this folder, handed a member `m`, may return `r` and be left
    /// as `after`.
    open spec fn folds_member(self, m: Member, r: Member, after: Self) -> bool {
        true
    }

    /// Transform a member.
    fn fold_member(&mut self, m: Member) -> (r: Member)
        ensures
            (*old(self)).folds_member(m, r, *final(self)),
    ;

    /// Whether this folder, handed a variant `v`, may return `r` and be left
    /// as `after`.
    open spec fn folds_variant(self, v: Variant, r: Variant, after: Self) -> bool {
        true
    }

    /// Transform a variant.
    fn fold_variant(&mut self, v: Variant) -> (r: Variant)
        ensures
            (*old(self)).folds_variant(v, r, *final(self)),
    ;

    /// Whether this folder, handed a parameter `p`, may return `r` and be left
    /// as `after`.
    open spec fn folds_parameter(self, p: Parameter, r: Parameter, after: Self) -> bool {
        true
    }

    /// Transform a parameter.
    fn fold_parameter(&mut self, p: Parameter) -> (r: Parameter)
        ensures
            (*old(self)).folds_parameter(p, r, *final(self)),
    ;

    /// Whether this folder, handed a prototype `p`, may return `r` and be left
    /// as `after`.
    open spec fn folds_proto_ty(self, p: ProtoTy, r: ProtoTy, after: Self) -> bool {
        true
    }

    /// Transform a prototype.
    fn fold_proto_ty(&mut self, p: ProtoTy) -> (r: ProtoTy)
        ensures
            (*old(self)).folds_proto_ty(p, r, *final(self)),
    ;

    /// Whether this folder, handed an annotation `a`, may return `r` and be left
    /// as `after`.
    open spec fn folds_annotation(self, a: Ann, r: Ann, after: Self) -> bool {
        true
    }

    /// Transform an annotation.
    fn fold_annotation(&mut self, a: Ann) -> (r: Ann)
        ensures
            (*old(self)).folds_annotation(a, r, *final(self)),
    ;

    /// Whether this folder, handed an attribute `a`, may return `r` and be left
    /// as `after`.
    open spec fn folds_attribute(self, a: Attribute, r: Attribute, after: Self) -> bool {
        true
    }

    /// Transform an attribute.
    fn fold_attribute(&mut self, a: Attribute) -> (r: Attribute)
        ensures
            (*old(self)).folds_attribute(a, r, *final(self)),
    ;
}

/// Whether `st` are the states a folder passes through when the items of
/// `a` are handed to it one after another, in order, giving the items `b`;
/// `step(s, x, y, t)` says that the folder in state `s`, handed `x`, may
/// give `y` and be left in state `t`.
pub open spec fn spec_states<S, T>(step: spec_fn(S, T, T, S) -> bool, st: Seq<S>, a: Seq<T>, b: Seq<T>) -> bool {
    &&& st.len() == a.len() + 1
    &&& b.len() == a.len()
    &&& forall|i: int| 0 <= i < a.len() ==> #[trigger] step(st[i], a[i], b[i], st[i + 1])
}

/// Whether handing the items of `a` to a folder one after another, in
/// order, starting in state `s0`, may give the items `b` and leave the
/// folder in state `s1`.
pub open spec fn spec_chain<S, T>(step: spec_fn(S, T, T, S) -> bool, s0: S, a: Seq<T>, b: Seq<T>, s1: S) -> bool {
    exists|st: Seq<S>| #[trigger] spec_states(step, st, a, b) && st[0] == s0 && st[a.len() as int] == s1
}

proof fn lemma_chain_empty<S, T>(step: spec_fn(S, T, T, S) -> bool, s: S)
    ensures
        spec_chain(step, s, Seq::<T>::empty(), Seq::<T>::empty(), s),
{
    let st = seq![s];
    assert(spec_states(step, st, Seq::<T>::empty(), Seq::<T>::empty()));
}

proof fn lemma_chain_push<S, T>(
    step: spec_fn(S, T, T, S) -> bool,
    s0: S,
    a: Seq<T>,
    b: Seq<T>,
    mid: S,
    x: T,
    y: T,
    s1: S,
)
    requires
        spec_chain(step, s0, a, b, mid),
        step(mid, x, y, s1),
    ensures
        spec_chain(step, s0, a.push(x), b.push(y), s1),
{
    let st = choose|st: Seq<S>| #[trigger] spec_states(step, st, a, b) && st[0] == s0 && st[a.len() as int] == mid;
    let st2 = st.push(s1);
    let a2 = a.push(x);
    let b2 = b.push(y);
    assert forall|i: int| 0 <= i < a2.len() implies #[trigger] step(st2[i], a2[i], b2[i], st2[i + 1]) by {
        if i < a.len() {
            assert(st2[i] == st[i] && st2[i + 1] == st[i + 1] && a2[i] == a[i] && b2[i] == b[i]);
            assert(step(st[i], a[i], b[i], st[i + 1]));
        } else {
            assert(st2[i] == mid && st2[i + 1] == s1 && a2[i] == x && b2[i] == y);
        }
    }
    assert(spec_states(step, st2, a2, b2));
}

/// One annotation handed to the folder.
pub open spec fn spec_annotation_step<F: Fold>() -> spec_fn(F, Ann, Ann, F) -> bool {
    |s: F, x: Ann, y: Ann, t: F| s.folds_annotation(x, y, t)
}

/// One value handed to the folder.
pub open spec fn spec_value_step<F: Fold>() -> spec_fn(F, Numeric, Numeric, F) -> bool {
    |s: F, x: Numeric, y: Numeric, t: F| s.folds_numeric(x, y, t)
}

/// One map entry: its key, then its value, handed to the folder.
pub open spec fn spec_entry_step<F: Fold>() -> spec_fn(F, (Numeric, Numeric), (Numeric, Numeric), F) -> bool {
    |s: F, x: (Numeric, Numeric), y: (Numeric, Numeric), t: F|
        exists|m: F| #[trigger] s.folds_numeric(x.0, y.0, m) && m.folds_numeric(x.1, y.1, t)
}

/// One member handed to the folder.
pub open spec fn spec_member_step<F: Fold>() -> spec_fn(F, Member, Member, F) -> bool {
    |s: F, x: Member, y: Member, t: F| s.folds_member(x, y, t)
}

/// One union variant handed to the folder.
pub open spec fn spec_variant_step<F: Fold>() -> spec_fn(F, Variant, Variant, F) -> bool {
    |s: F, x: Variant, y: Variant, t: F| s.folds_variant(x, y, t)
}

/// One operation handed to the folder.
pub open spec fn spec_proto_step<F: Fold>() -> spec_fn(F, ProtoTy, ProtoTy, F) -> bool {
    |s: F, x: ProtoTy, y: ProtoTy, t: F| s.folds_proto_ty(x, y, t)
}

/// One attribute handed to the folder.
pub open spec fn spec_attribute_step<F: Fold>() -> spec_fn(F, Attribute, Attribute, F) -> bool {
    |s: F, x: Attribute, y: Attribute, t: F| s.folds_attribute(x, y, t)
}

/// One parameter handed to the folder.
pub open spec fn spec_parameter_step<F: Fold>() -> spec_fn(F, Parameter, Parameter, F) -> bool {
    |s: F, x: Parameter, y: Parameter, t: F| s.folds_parameter(x, y, t)
}

/// One bitset field: its type, then its annotations, handed to the
/// folder; its name and size kept.
pub open spec fn spec_bitset_field_step<F: Fold>() -> spec_fn(F, BitsetField, BitsetField, F) -> bool {
    |s: F, x: BitsetField, y: BitsetField, t: F|
        y.ident == x.ident && y.size == x.size && exists|m: F|
            #[trigger] s.folds_ty(x.ty, y.ty, m) && spec_chain(
                spec_annotation_step::<F>(),
                m,
                x.annotations@,
                y.annotations@,
                t,
            )
}

/// One case label: its value handed to the folder, its span kept.
pub open spec fn spec_label_step<F: Fold>() -> spec_fn(F, Label, Label, F) -> bool {
    |s: F, x: Label, y: Label, t: F| y.span == x.span && s.folds_numeric(x.value, y.value, t)
}

/// One annotation parameter: its type, then its default value if it has
/// one, handed to the folder; its name and annotations kept.
pub open spec fn spec_ann_param_step<F: Fold>() -> spec_fn(F, AnnParam, AnnParam, F) -> bool {
    |s: F, x: AnnParam, y: AnnParam, t: F|
        y.ident == x.ident && y.annotations == x.annotations && exists|m: F|
            #[trigger] s.folds_ty(x.ty, y.ty, m) && match x.default {
                Some(d) => y.default matches Some(e) && m.folds_numeric(d, e, t),
                None => y.default is None && t == m,
            }
}

/// One annotation argument: its value, then its type if it has one, handed
/// to the folder; its name kept.
pub open spec fn spec_arg_step<F: Fold>() -> spec_fn(F, AnnArg, AnnArg, F) -> bool {
    |s: F, x: AnnArg, y: AnnArg, t: F|
        y.ident == x.ident && exists|m: F|
            #[trigger] s.folds_numeric(x.value, y.value, m) && match x.ty {
                Some(a) => y.ty matches Some(b) && m.folds_ty(a, b, t),
                None => y.ty is None && t == m,
            }
}

/// The node of definition kind `a` handed to the matching method of the
/// folder, giving kind `b` of the same variant.
pub open spec fn spec_kind_folded<F: Fold>(s: F, a: DefKind, b: DefKind, t: F) -> bool {
    match a {
        DefKind::Annotation(x) => b matches DefKind::Annotation(y) && s.folds_annotation_ty(x, y, t),
        DefKind::Module(x) => b matches DefKind::Module(y) && s.folds_module_ty(x, y, t),
        DefKind::Struct(x) => b matches DefKind::Struct(y) && s.folds_struct_ty(x, y, t),
        DefKind::Except(x) => b matches DefKind::Except(y) && s.folds_except_ty(x, y, t),
        DefKind::Union(x) => b matches DefKind::Union(y) && s.folds_union_ty(x, y, t),
        DefKind::Enum(x) => b matches DefKind::Enum(y) && s.folds_enum_ty(x, y, t),
        DefKind::Const(x) => b matches DefKind::Const(y) && s.folds_const_ty(x, y, t),
        DefKind::Bitmask(x) => b matches DefKind::Bitmask(y) && s.folds_bitmask_ty(x, y, t),
        DefKind::Bitset(x) => b matches DefKind::Bitset(y) && s.folds_bitset_ty(x, y, t),
        DefKind::Alias(x) => b matches DefKind::Alias(y) && s.folds_alias_ty(x, y, t),
        DefKind::Interface(x) => b matches DefKind::Interface(y) && s.folds_interface_ty(x, y, t),
        DefKind::Valuetype(x) => b matches DefKind::Valuetype(y) && s.folds_valuetype(x, y, t),
        DefKind::Decl(x) => b matches DefKind::Decl(y) && s.folds_decl(x, y, t),
    }
}

/// The standard traversal of a definition: its annotations, then the node
/// of its kind, handed to the folder; its identity, name, parent, span and
/// flags kept.
pub open spec fn spec_def_folded<F: Fold>(s: F, a: Def, b: Def, t: F) -> bool {
    &&& b.id == a.id
    &&& b.ident == a.ident
    &&& b.parent == a.parent
    &&& b.span == a.span
    &&& b.flags == a.flags
    &&& exists|m: F|
        #[trigger] spec_chain(spec_annotation_step::<F>(), s, a.annotations@, b.annotations@, m)
            && spec_kind_folded(m, a.kind, b.kind, t)
}

/// The standard traversal of a type: the element type, or the key then the
/// value type, handed to the folder; everything else kept. A type without
/// contained types is returned as it is and the folder is left alone.
pub open spec fn spec_ty_folded<F: Fold>(s: F, a: Ty, b: Ty, t: F) -> bool {
    &&& b.span == a.span
    &&& match a.kind {
        TyKind::Array { ty: inner, len, len_span } => b.kind matches TyKind::Array { ty: i2, len: l, len_span: ls }
            && l == len && ls == len_span && s.folds_ty(*inner, *i2, t),
        TyKind::Sequence { ty: inner, bound, bound_span } => b.kind matches TyKind::Sequence {
            ty: i2,
            bound: l,
            bound_span: ls,
        } && l == bound && ls == bound_span && s.folds_ty(*inner, *i2, t),
        TyKind::Mapping { key, elem, bound, bound_span } => b.kind matches TyKind::Mapping {
            key: k2,
            elem: e2,
            bound: l,
            bound_span: ls,
        } && l == bound && ls == bound_span && exists|m: F| #[trigger] s.folds_ty(*key, *k2, m) && m.folds_ty(*elem, *e2, t),
        _ => b.kind == a.kind && t == s,
    }
}

/// The standard traversal of a constant value: elements, entries (key
/// then value) and fields in order, then the types an aggregate carries;
/// a union's discriminant, then its value. Anything else is returned as it
/// is and the folder is left alone.
pub open spec fn spec_numeric_folded<F: Fold>(s: F, a: Numeric, b: Numeric, t: F) -> bool {
    match a {
        Numeric::Array { values, ty } => b matches Numeric::Array { values: v2, ty: t2 } && exists|m: F|
            #[trigger] spec_chain(spec_value_step::<F>(), s, values@, v2@, m) && m.folds_ty(ty, t2, t),
        Numeric::Sequence { values, ty } => b matches Numeric::Sequence { values: v2, ty: t2 } && exists|m: F|
            #[trigger] spec_chain(spec_value_step::<F>(), s, values@, v2@, m) && m.folds_ty(ty, t2, t),
        Numeric::Mapping { entries, key, value } => b matches Numeric::Mapping { entries: e2, key: k2, value: v2 }
            && exists|m1: F, m2: F|
            #[trigger] spec_chain(spec_entry_step::<F>(), s, entries@, e2@, m1) && #[trigger] m1.folds_ty(key, k2, m2)
                && m2.folds_ty(value, v2, t),
        Numeric::Struct { ty, fields } => b matches Numeric::Struct { ty: t2, fields: f2 } && t2 == ty && spec_chain(
            spec_value_step::<F>(),
            s,
            fields@,
            f2@,
            t,
        ),
        Numeric::Union { ty, discriminant, field_index, value } => b matches Numeric::Union {
            ty: t2,
            discriminant: d2,
            field_index: i2,
            value: v2,
        } && t2 == ty && i2 == field_index && exists|m: F|
            #[trigger] s.folds_numeric(*discriminant, *d2, m) && m.folds_numeric(*value, *v2, t),
        _ => b == a && t == s,
    }
}

fn fold_annotations<F: Fold>(folder: &mut F, src: Vec<Ann>) -> (r: Vec<Ann>)
    ensures
        spec_chain(spec_annotation_step::<F>(), *old(folder), src@, r@, *final(folder)),
{
    let ghost orig = src@;
    let ghost s0 = *folder;
    let mut src = src;
    let mut out: Vec<Ann> = Vec::new();
    assert(orig.subrange(0, 0) =~= Seq::<Ann>::empty());
    proof {
        lemma_chain_empty::<F, Ann>(spec_annotation_step::<F>(), *folder);
    }
    while src.len() > 0
        invariant
            out@.len() + src@.len() == orig.len(),
            src@ == orig.subrange(out@.len() as int, orig.len() as int),
            spec_chain(spec_annotation_step::<F>(), s0, orig.subrange(0, out@.len() as int), out@, *folder),
        decreases src@.len(),
    {
        let ghost k = out@.len() as int;
        let x = src.remove(0);
        assert(x == orig[k]);
        let ghost mid = *folder;
        let y = folder.fold_annotation(x);
        proof {
            lemma_chain_push(spec_annotation_step::<F>(), s0, orig.subrange(0, k), out@, mid, orig[k], y, *folder);
            assert(orig.subrange(0, k).push(orig[k]) =~= orig.subrange(0, k + 1));
        }
        out.push(y);
        assert(src@ =~= orig.subrange(out@.len() as int, orig.len() as int));
    }
    assert(orig.subrange(0, orig.len() as int) =~= orig);
    out
}

fn fold_values<F: Fold>(folder: &mut F, src: Vec<Numeric>) -> (r: Vec<Numeric>)
    ensures
        spec_chain(spec_value_step::<F>(), *old(folder), src@, r@, *final(folder)),
{
    let ghost orig = src@;
    let ghost s0 = *folder;
    let mut src = src;
    let mut out: Vec<Numeric> = Vec::new();
    assert(orig.subrange(0, 0) =~= Seq::<Numeric>::empty());
    proof {
        lemma_chain_empty::<F, Numeric>(spec_value_step::<F>(), *folder);
    }
    while src.len() > 0
        invariant
            out@.len() + src@.len() == orig.len(),
            src@ == orig.subrange(out@.len() as int, orig.len() as int),
            spec_chain(spec_value_step::<F>(), s0, orig.subrange(0, out@.len() as int), out@, *folder),
        decreases src@.len(),
    {
        let ghost k = out@.len() as int;
        let x = src.remove(0);
        assert(x == orig[k]);
        let ghost mid = *folder;
        let y = folder.fold_numeric(x);
        proof {
            lemma_chain_push(spec_value_step::<F>(), s0, orig.subrange(0, k), out@, mid, orig[k], y, *folder);
            assert(orig.subrange(0, k).push(orig[k]) =~= orig.subrange(0, k + 1));
        }
        out.push(y);
        assert(src@ =~= orig.subrange(out@.len() as int, orig.len() as int));
    }
    assert(orig.subrange(0, orig.len() as int) =~= orig);
    out
}

fn fold_members<F: Fold>(folder: &mut F, src: Vec<Member>) -> (r: Vec<Member>)
    ensures
        spec_chain(spec_member_step::<F>(), *old(folder), src@, r@, *final(folder)),
{
    let ghost orig = src@;
    let ghost s0 = *folder;
    let mut src = src;
    let mut out: Vec<Member> = Vec::new();
    assert(orig.subrange(0, 0) =~= Seq::<Member>::empty());
    proof {
        lemma_chain_empty::<F, Member>(spec_member_step::<F>(), *folder);
    }
    while src.len() > 0
        invariant
            out@.len() + src@.len() == orig.len(),
            src@ == orig.subrange(out@.len() as int, orig.len() as int),
            spec_chain(spec_member_step::<F>(), s0, orig.subrange(0, out@.len() as int), out@, *folder),
        decreases src@.len(),
    {
        let ghost k = out@.len() as int;
        let x = src.remove(0);
        assert(x == orig[k]);
        let ghost mid = *folder;
        let y = folder.fold_member(x);
        proof {
            lemma_chain_push(spec_member_step::<F>(), s0, orig.subrange(0, k), out@, mid, orig[k], y, *folder);
            assert(orig.subrange(0, k).push(orig[k]) =~= orig.subrange(0, k + 1));
        }
        out.push(y);
        assert(src@ =~= orig.subrange(out@.len() as int, orig.len() as int));
    }
    assert(orig.subrange(0, orig.len() as int) =~= orig);
    out
}

fn fold_protos<F: Fold>(folder: &mut F, src: Vec<ProtoTy>) -> (r: Vec<ProtoTy>)
    ensures
        spec_chain(spec_proto_step::<F>(), *old(folder), src@, r@, *final(folder)),
{
    let ghost orig = src@;
    let ghost s0 = *folder;
    let mut src = src;
    let mut out: Vec<ProtoTy> = Vec::new();
    assert(orig.subrange(0, 0) =~= Seq::<ProtoTy>::empty());
    proof {
        lemma_chain_empty::<F, ProtoTy>(spec_proto_step::<F>(), *folder);
    }
    while src.len() > 0
        invariant
            out@.len() + src@.len() == orig.len(),
            src@ == orig.subrange(out@.len() as int, orig.len() as int),
            spec_chain(spec_proto_step::<F>(), s0, orig.subrange(0, out@.len() as int), out@, *folder),
        decreases src@.len(),
    {
        let ghost k = out@.len() as int;
        let x = src.remove(0);
        assert(x == orig[k]);
        let ghost mid = *folder;
        let y = folder.fold_proto_ty(x);
        proof {
            lemma_chain_push(spec_proto_step::<F>(), s0, orig.subrange(0, k), out@, mid, orig[k], y, *folder);
            assert(orig.subrange(0, k).push(orig[k]) =~= orig.subrange(0, k + 1));
        }
        out.push(y);
        assert(src@ =~= orig.subrange(out@.len() as int, orig.len() as int));
    }
    assert(orig.subrange(0, orig.len() as int) =~= orig);
    out
}

fn fold_attributes<F: Fold>(folder: &mut F, src: Vec<Attribute>) -> (r: Vec<Attribute>)
    ensures
        spec_chain(spec_attribute_step::<F>(), *old(folder), src@, r@, *final(folder)),
{
    let ghost orig = src@;
    let ghost s0 = *folder;
    let mut src = src;
    let mut out: Vec<Attribute> = Vec::new();
    assert(orig.subrange(0, 0) =~= Seq::<Attribute>::empty());
    proof {
        lemma_chain_empty::<F, Attribute>(spec_attribute_step::<F>(), *folder);
    }
    while src.len() > 0
        invariant
            out@.len() + src@.len() == orig.len(),
            src@ == orig.subrange(out@.len() as int, orig.len() as int),
            spec_chain(spec_attribute_step::<F>(), s0, orig.subrange(0, out@.len() as int), out@, *folder),
        decreases src@.len(),
    {
        let ghost k = out@.len() as int;
        let x = src.remove(0);
        assert(x == orig[k]);
        let ghost mid = *folder;
        let y = folder.fold_attribute(x);
        proof {
            lemma_chain_push(spec_attribute_step::<F>(), s0, orig.subrange(0, k), out@, mid, orig[k], y, *folder);
            assert(orig.subrange(0, k).push(orig[k]) =~= orig.subrange(0, k + 1));
        }
        out.push(y);
        assert(src@ =~= orig.subrange(out@.len() as int, orig.len() as int));
    }
    assert(orig.subrange(0, orig.len() as int) =~= orig);
    out
}

fn fold_variants<F: Fold>(folder: &mut F, src: Vec<Variant>) -> (r: Vec<Variant>)
    ensures
        spec_chain(spec_variant_step::<F>(), *old(folder), src@, r@, *final(folder)),
{
    let ghost orig = src@;
    let ghost s0 = *folder;
    let mut src = src;
    let mut out: Vec<Variant> = Vec::new();
    assert(orig.subrange(0, 0) =~= Seq::<Variant>::empty());
    proof {
        lemma_chain_empty::<F, Variant>(spec_variant_step::<F>(), *folder);
    }
    while src.len() > 0
        invariant
            out@.len() + src@.len() == orig.len(),
            src@ == orig.subrange(out@.len() as int, orig.len() as int),
            spec_chain(spec_variant_step::<F>(), s0, orig.subrange(0, out@.len() as int), out@, *folder),
        decreases src@.len(),
    {
        let ghost k = out@.len() as int;
        let x = src.remove(0);
        assert(x == orig[k]);
        let ghost mid = *folder;
        let y = folder.fold_variant(x);
        proof {
            lemma_chain_push(spec_variant_step::<F>(), s0, orig.subrange(0, k), out@, mid, orig[k], y, *folder);
            assert(orig.subrange(0, k).push(orig[k]) =~= orig.subrange(0, k + 1));
        }
        out.push(y);
        assert(src@ =~= orig.subrange(out@.len() as int, orig.len() as int));
    }
    assert(orig.subrange(0, orig.len() as int) =~= orig);
    out
}

fn fold_parameters<F: Fold>(folder: &mut F, src: Vec<Parameter>) -> (r: Vec<Parameter>)
    ensures
        spec_chain(spec_parameter_step::<F>(), *old(folder), src@, r@, *final(folder)),
{
    let ghost orig = src@;
    let ghost s0 = *folder;
    let mut src = src;
    let mut out: Vec<Parameter> = Vec::new();
    assert(orig.subrange(0, 0) =~= Seq::<Parameter>::empty());
    proof {
        lemma_chain_empty::<F, Parameter>(spec_parameter_step::<F>(), *folder);
    }
    while src.len() > 0
        invariant
            out@.len() + src@.len() == orig.len(),
            src@ == orig.subrange(out@.len() as int, orig.len() as int),
            spec_chain(spec_parameter_step::<F>(), s0, orig.subrange(0, out@.len() as int), out@, *folder),
        decreases src@.len(),
    {
        let ghost k = out@.len() as int;
        let x = src.remove(0);
        assert(x == orig[k]);
        let ghost mid = *folder;
        let y = folder.fold_parameter(x);
        proof {
            lemma_chain_push(spec_parameter_step::<F>(), s0, orig.subrange(0, k), out@, mid, orig[k], y, *folder);
            assert(orig.subrange(0, k).push(orig[k]) =~= orig.subrange(0, k + 1));
        }
        out.push(y);
        assert(src@ =~= orig.subrange(out@.len() as int, orig.len() as int));
    }
    assert(orig.subrange(0, orig.len() as int) =~= orig);
    out
}

/// Rebuild a definition: its annotations, then the node of its kind, go to
/// the folder; its identity, name, parent, span and flags stay.
pub fn fold_def<F: Fold>(folder: &mut F, def: Def) -> (r: Def)
    ensures
        spec_def_folded(*old(folder), def, r, *final(folder)),
{
    let ghost d0 = def;
    let annotations = fold_annotations(folder, def.annotations);
    let ghost m = *folder;
    let kind = match def.kind {
        DefKind::Annotation(a) => DefKind::Annotation(folder.fold_annotation_ty(a)),
        DefKind::Module(m) => DefKind::Module(folder.fold_module_ty(m)),
        DefKind::Struct(s) => DefKind::Struct(folder.fold_struct_ty(s)),
        DefKind::Except(e) => DefKind::Except(folder.fold_except_ty(e)),
        DefKind::Union(u) => DefKind::Union(folder.fold_union_ty(u)),
        DefKind::Enum(e) => DefKind::Enum(folder.fold_enum_ty(e)),
        DefKind::Const(c) => DefKind::Const(folder.fold_const_ty(c)),
        DefKind::Bitmask(b) => DefKind::Bitmask(folder.fold_bitmask_ty(b)),
        DefKind::Bitset(b) => DefKind::Bitset(folder.fold_bitset_ty(b)),
        DefKind::Alias(a) => DefKind::Alias(folder.fold_alias_ty(a)),
        DefKind::Interface(i) => DefKind::Interface(folder.fold_interface_ty(i)),
        DefKind::Valuetype(v) => DefKind::Valuetype(folder.fold_valuetype(v)),
        DefKind::Decl(d) => DefKind::Decl(folder.fold_decl(d)),
    };
    let r = Def {
        id: def.id,
        ident: def.ident,
        parent: def.parent,
        annotations,
        span: def.span,
        kind,
        flags: def.flags,
    };
    proof {
        assert(spec_chain(spec_annotation_step::<F>(), *old(folder), d0.annotations@, r.annotations@, m));
        assert(spec_kind_folded(m, d0.kind, r.kind, *folder));
    }
    r
}

/// Rebuild a type: the element type, or the key then the value type, goes
/// to the folder.
pub fn fold_ty<F: Fold>(folder: &mut F, ty: Ty) -> (r: Ty)
    ensures
        spec_ty_folded(*old(folder), ty, r, *final(folder)),
{
    let ghost t0 = ty;
    let ghost s0 = *folder;
    let kind = match ty.kind {
        TyKind::Array { ty: inner, len, len_span } => TyKind::Array {
            ty: Box::new(folder.fold_ty(*inner)),
            len,
            len_span,
        },
        TyKind::Sequence { ty: inner, bound, bound_span } => TyKind::Sequence {
            ty: Box::new(folder.fold_ty(*inner)),
            bound,
            bound_span,
        },
        TyKind::Mapping { key, elem, bound, bound_span } => {
            let k2 = folder.fold_ty(*key);
            let ghost m = *folder;
            let e2 = folder.fold_ty(*elem);
            proof {
                assert(s0.folds_ty(*t0.kind->Mapping_key, k2, m));
            }
            TyKind::Mapping { key: Box::new(k2), elem: Box::new(e2), bound, bound_span }
        },
        k => k,
    };
    Ty { span: ty.span, kind }
}

/// Rebuild a constant value: elements, entries (key then value) and fields
/// go to the folder in order, then the types an aggregate carries; a
/// union's discriminant, then its value. Other values stay as they are and
/// the folder is not called.
pub fn fold_numeric<F: Fold>(folder: &mut F, num: Numeric) -> (r: Numeric)
    ensures
        spec_numeric_folded(*old(folder), num, r, *final(folder)),
{
    let ghost n0 = num;
    let ghost s0 = *folder;
    match num {
        Numeric::Array { values, ty } => {
            let values = fold_values(folder, values);
            let ghost m = *folder;
            let r = Numeric::Array { values, ty: folder.fold_ty(ty) };
            proof {
                assert(spec_chain(spec_value_step::<F>(), s0, n0->Array_values@, r->Array_values@, m));
            }
            r
        },
        Numeric::Sequence { values, ty } => {
            let values = fold_values(folder, values);
            let ghost m = *folder;
            let r = Numeric::Sequence { values, ty: folder.fold_ty(ty) };
            proof {
                assert(spec_chain(spec_value_step::<F>(), s0, n0->Sequence_values@, r->Sequence_values@, m));
            }
            r
        },
        Numeric::Mapping { entries, key, value } => {
            let ghost orig = entries@;
            let mut src = entries;
            let mut out: Vec<(Numeric, Numeric)> = Vec::new();
            assert(orig.subrange(0, 0) =~= Seq::<(Numeric, Numeric)>::empty());
            proof {
                lemma_chain_empty::<F, (Numeric, Numeric)>(spec_entry_step::<F>(), *folder);
            }
            while src.len() > 0
                invariant
                    out@.len() + src@.len() == orig.len(),
                    src@ == orig.subrange(out@.len() as int, orig.len() as int),
                    spec_chain(spec_entry_step::<F>(), s0, orig.subrange(0, out@.len() as int), out@, *folder),
                decreases src@.len(),
            {
                let ghost k = out@.len() as int;
                let (kx, vx) = src.remove(0);
                assert((kx, vx) == orig[k]);
                let ghost m0 = *folder;
                let k2 = folder.fold_numeric(kx);
                let ghost m1 = *folder;
                let v2 = folder.fold_numeric(vx);
                proof {
                    assert(m0.folds_numeric(orig[k].0, k2, m1));
                    assert(m1.folds_numeric(orig[k].1, v2, *folder));
                    assert(m0.folds_numeric(orig[k].0, (k2, v2).0, m1) && m1.folds_numeric(orig[k].1, (k2, v2).1, *folder));
                    assert(spec_entry_step::<F>()(m0, orig[k], (k2, v2), *folder));
                    lemma_chain_push(spec_entry_step::<F>(), s0, orig.subrange(0, k), out@, m0, orig[k], (k2, v2), *folder);
                    assert(orig.subrange(0, k).push(orig[k]) =~= orig.subrange(0, k + 1));
                }
                out.push((k2, v2));
                assert(src@ =~= orig.subrange(out@.len() as int, orig.len() as int));
            }
            assert(orig.subrange(0, orig.len() as int) =~= orig);
            let ghost m1 = *folder;
            let key2 = folder.fold_ty(key);
            let ghost m2 = *folder;
            let value2 = folder.fold_ty(value);
            let r = Numeric::Mapping { entries: out, key: key2, value: value2 };
            proof {
                assert(spec_chain(spec_entry_step::<F>(), s0, n0->Mapping_entries@, r->Mapping_entries@, m1));
                assert(m1.folds_ty(n0->Mapping_key, r->Mapping_key, m2));
            }
            r
        },
        Numeric::Struct { ty, fields } => Numeric::Struct { ty, fields: fold_values(folder, fields) },
        Numeric::Union { ty, discriminant, field_index, value } => {
            let d2 = folder.fold_numeric(*discriminant);
            let ghost m = *folder;
            let v2 = folder.fold_numeric(*value);
            proof {
                assert(s0.folds_numeric(*n0->Union_discriminant, d2, m));
            }
            Numeric::Union { ty, discriminant: Box::new(d2), field_index, value: Box::new(v2) }
        },
        n => n,
    }
}

/// Rebuild a struct type: its members go to the folder.
pub fn fold_struct_ty<F: Fold>(folder: &mut F, s: StructTy) -> (r: StructTy)
    ensures
        r.parent == s.parent,
        spec_chain(spec_member_step::<F>(), *old(folder), s.members@, r.members@, *final(folder)),
{
    StructTy { members: fold_members(folder, s.members), parent: s.parent }
}

/// An enum type has nothing to fold.
pub fn fold_enum_ty<F: Fold>(folder: &mut F, e: EnumTy) -> (r: EnumTy)
    ensures
        r == e,
        *final(folder) == *old(folder),
{
    e
}

/// Rebuild a union type: the discriminator's type, then its annotations,
/// then the variants go to the folder.
pub fn fold_union_ty<F: Fold>(folder: &mut F, u: UnionTy) -> (r: UnionTy)
    ensures
        exists|m1: F, m2: F|
            #[trigger] (*old(folder)).folds_ty(u.disc.ty, r.disc.ty, m1) && #[trigger] spec_chain(
                spec_annotation_step::<F>(),
                m1,
                u.disc.annotations@,
                r.disc.annotations@,
                m2,
            ) && spec_chain(spec_variant_step::<F>(), m2, u.variants@, r.variants@, *final(folder)),
{
    let ghost u0 = u;
    let ty = folder.fold_ty(u.disc.ty);
    let ghost m1 = *folder;
    let annotations = fold_annotations(folder, u.disc.annotations);
    let ghost m2 = *folder;
    let variants = fold_variants(folder, u.variants);
    let r = UnionTy { disc: Disc { annotations, ty }, variants };
    proof {
        assert((*old(folder)).folds_ty(u0.disc.ty, r.disc.ty, m1));
        assert(spec_chain(spec_annotation_step::<F>(), m1, u0.disc.annotations@, r.disc.annotations@, m2));
    }
    r
}

/// Rebuild a typedef: the aliased type goes to the folder.
pub fn fold_alias_ty<F: Fold>(folder: &mut F, a: AliasTy) -> (r: AliasTy)
    ensures
        (*old(folder)).folds_ty(a.ty, r.ty, *final(folder)),
{
    AliasTy { ty: folder.fold_ty(a.ty) }
}

/// A bitmask type has nothing to fold.
pub fn fold_bitmask_ty<F: Fold>(folder: &mut F, b: BitmaskTy) -> (r: BitmaskTy)
    ensures
        r == b,
        *final(folder) == *old(folder),
{
    b
}

/// Rebuild a bitset type: each field's type, then its annotations, go to
/// the folder; the parent and each field's name and size stay.
pub fn fold_bitset_ty<F: Fold>(folder: &mut F, b: BitsetTy) -> (r: BitsetTy)
    ensures
        r.parent == b.parent,
        spec_chain(spec_bitset_field_step::<F>(), *old(folder), b.fields@, r.fields@, *final(folder)),
{
    let ghost orig = b.fields@;
    let ghost s0 = *folder;
    let mut src = b.fields;
    let mut fields: Vec<BitsetField> = Vec::new();
    assert(orig.subrange(0, 0) =~= Seq::<BitsetField>::empty());
    proof {
        lemma_chain_empty::<F, BitsetField>(spec_bitset_field_step::<F>(), *folder);
    }
    while src.len() > 0
        invariant
            fields@.len() + src@.len() == orig.len(),
            src@ == orig.subrange(fields@.len() as int, orig.len() as int),
            spec_chain(spec_bitset_field_step::<F>(), s0, orig.subrange(0, fields@.len() as int), fields@, *folder),
        decreases src@.len(),
    {
        let ghost k = fields@.len() as int;
        let f = src.remove(0);
        assert(f == orig[k]);
        let ghost m0 = *folder;
        let ty = folder.fold_ty(f.ty);
        let ghost m1 = *folder;
        let annotations = fold_annotations(folder, f.annotations);
        let nf = BitsetField { ident: f.ident, size: f.size, ty, annotations };
        proof {
            assert(m0.folds_ty(orig[k].ty, nf.ty, m1));
            assert(spec_bitset_field_step::<F>()(m0, orig[k], nf, *folder));
            lemma_chain_push(spec_bitset_field_step::<F>(), s0, orig.subrange(0, k), fields@, m0, orig[k], nf, *folder);
            assert(orig.subrange(0, k).push(orig[k]) =~= orig.subrange(0, k + 1));
        }
        fields.push(nf);
        assert(src@ =~= orig.subrange(fields@.len() as int, orig.len() as int));
    }
    assert(orig.subrange(0, orig.len() as int) =~= orig);
    BitsetTy { parent: b.parent, fields }
}

/// Rebuild a constant definition: its type, then its value, go to the
/// folder.
pub fn fold_const_ty<F: Fold>(folder: &mut F, c: ConstTy) -> (r: ConstTy)
    ensures
        exists|m: F|
            #[trigger] (*old(folder)).folds_ty(c.ty, r.ty, m) && m.folds_numeric(c.value, r.value, *final(folder)),
{
    let ghost c0 = c;
    let ty = folder.fold_ty(c.ty);
    let ghost m = *folder;
    let value = folder.fold_numeric(c.value);
    let r = ConstTy { value, ty };
    proof {
        assert((*old(folder)).folds_ty(c0.ty, r.ty, m));
    }
    r
}

/// Rebuild an interface: its operations, then its attributes, go to the
/// folder.
pub fn fold_interface_ty<F: Fold>(folder: &mut F, i: InterfaceTy) -> (r: InterfaceTy)
    ensures
        r.parents == i.parents,
        r.definitions == i.definitions,
        r.is_local == i.is_local,
        exists|m: F|
            #[trigger] spec_chain(spec_proto_step::<F>(), *old(folder), i.prototypes@, r.prototypes@, m) && spec_chain(
                spec_attribute_step::<F>(),
                m,
                i.attributes@,
                r.attributes@,
                *final(folder),
            ),
{
    let ghost i0 = i;
    let prototypes = fold_protos(folder, i.prototypes);
    let ghost m = *folder;
    let attributes = fold_attributes(folder, i.attributes);
    let r = InterfaceTy { parents: i.parents, prototypes, attributes, definitions: i.definitions, is_local: i.is_local };
    proof {
        assert(spec_chain(spec_proto_step::<F>(), *old(folder), i0.prototypes@, r.prototypes@, m));
    }
    r
}

/// Rebuild a valuetype: its operations, then its attributes, then its
/// members go to the folder.
pub fn fold_valuetype<F: Fold>(folder: &mut F, v: ValueTy) -> (r: ValueTy)
    ensures
        r.parent == v.parent,
        r.supports == v.supports,
        r.definitions == v.definitions,
        exists|m1: F, m2: F|
            #[trigger] spec_chain(spec_proto_step::<F>(), *old(folder), v.prototypes@, r.prototypes@, m1)
                && #[trigger] spec_chain(spec_attribute_step::<F>(), m1, v.attributes@, r.attributes@, m2)
                && spec_chain(spec_member_step::<F>(), m2, v.members@, r.members@, *final(folder)),
{
    let ghost v0 = v;
    let prototypes = fold_protos(folder, v.prototypes);
    let ghost m1 = *folder;
    let attributes = fold_attributes(folder, v.attributes);
    let ghost m2 = *folder;
    let members = fold_members(folder, v.members);
    let r = ValueTy { parent: v.parent, supports: v.supports, prototypes, attributes, members, definitions: v.definitions };
    proof {
        assert(spec_chain(spec_proto_step::<F>(), *old(folder), v0.prototypes@, r.prototypes@, m1));
        assert(spec_chain(spec_attribute_step::<F>(), m1, v0.attributes@, r.attributes@, m2));
    }
    r
}

/// Rebuild an exception: its members go to the folder.
pub fn fold_except_ty<F: Fold>(folder: &mut F, e: ExceptTy) -> (r: ExceptTy)
    ensures
        spec_chain(spec_member_step::<F>(), *old(folder), e.members@, r.members@, *final(folder)),
{
    ExceptTy { members: fold_members(folder, e.members) }
}

/// A module has nothing to fold.
pub fn fold_module_ty<F: Fold>(folder: &mut F, m: ModuleTy) -> (r: ModuleTy)
    ensures
        r == m,
        *final(folder) == *old(folder),
{
    m
}

/// Rebuild an annotation definition: each parameter's type, then its
/// default value if it has one, go to the folder; the types defined inside
/// and each parameter's name and annotations stay.
pub fn fold_annotation_ty<F: Fold>(folder: &mut F, a: AnnotationTy) -> (r: AnnotationTy)
    ensures
        r.types == a.types,
        spec_chain(spec_ann_param_step::<F>(), *old(folder), a.params@, r.params@, *final(folder)),
{
    let ghost orig = a.params@;
    let ghost s0 = *folder;
    let mut src = a.params;
    let mut params: Vec<AnnParam> = Vec::new();
    assert(orig.subrange(0, 0) =~= Seq::<AnnParam>::empty());
    proof {
        lemma_chain_empty::<F, AnnParam>(spec_ann_param_step::<F>(), *folder);
    }
    while src.len() > 0
        invariant
            params@.len() + src@.len() == orig.len(),
            src@ == orig.subrange(params@.len() as int, orig.len() as int),
            spec_chain(spec_ann_param_step::<F>(), s0, orig.subrange(0, params@.len() as int), params@, *folder),
        decreases src@.len(),
    {
        let ghost k = params@.len() as int;
        let p = src.remove(0);
        assert(p == orig[k]);
        let ghost m0 = *folder;
        let ty = folder.fold_ty(p.ty);
        let ghost m1 = *folder;
        let default = match p.default {
            Some(d) => Some(folder.fold_numeric(d)),
            None => None,
        };
        let np = AnnParam { ident: p.ident, ty, default, annotations: p.annotations };
        proof {
            assert(m0.folds_ty(orig[k].ty, np.ty, m1));
            assert(spec_ann_param_step::<F>()(m0, orig[k], np, *folder));
            lemma_chain_push(spec_ann_param_step::<F>(), s0, orig.subrange(0, k), params@, m0, orig[k], np, *folder);
            assert(orig.subrange(0, k).push(orig[k]) =~= orig.subrange(0, k + 1));
        }
        params.push(np);
        assert(src@ =~= orig.subrange(params@.len() as int, orig.len() as int));
    }
    assert(orig.subrange(0, orig.len() as int) =~= orig);
    AnnotationTy { params, types: a.types }
}

/// Rebuild a member: its type, then its annotations, go to the folder.
pub fn fold_member<F: Fold>(folder: &mut F, m: Member) -> (r: Member)
    ensures
        r.ident == m.ident,
        exists|mid: F|
            #[trigger] (*old(folder)).folds_ty(m.ty, r.ty, mid) && spec_chain(
                spec_annotation_step::<F>(),
                mid,
                m.annotations@,
                r.annotations@,
                *final(folder),
            ),
{
    let ghost m0 = m;
    let ty = folder.fold_ty(m.ty);
    let ghost mid = *folder;
    let annotations = fold_annotations(folder, m.annotations);
    let r = Member { ident: m.ident, ty, annotations };
    proof {
        assert((*old(folder)).folds_ty(m0.ty, r.ty, mid));
    }
    r
}

/// Rebuild a union variant: its type, then its case labels' values, then
/// its annotations go to the folder.
pub fn fold_variant<F: Fold>(folder: &mut F, v: Variant) -> (r: Variant)
    ensures
        r.ident == v.ident,
        r.is_default == v.is_default,
        exists|m1: F, m2: F|
            #[trigger] (*old(folder)).folds_ty(v.ty, r.ty, m1) && #[trigger] spec_chain(
                spec_label_step::<F>(),
                m1,
                v.labels@,
                r.labels@,
                m2,
            ) && spec_chain(spec_annotation_step::<F>(), m2, v.annotations@, r.annotations@, *final(folder)),
{
    let ghost v0 = v;
    let ty = folder.fold_ty(v.ty);
    let ghost m1 = *folder;
    let ghost orig = v.labels@;
    let mut src = v.labels;
    let mut labels: Vec<Label> = Vec::new();
    assert(orig.subrange(0, 0) =~= Seq::<Label>::empty());
    proof {
        lemma_chain_empty::<F, Label>(spec_label_step::<F>(), *folder);
    }
    while src.len() > 0
        invariant
            labels@.len() + src@.len() == orig.len(),
            src@ == orig.subrange(labels@.len() as int, orig.len() as int),
            spec_chain(spec_label_step::<F>(), m1, orig.subrange(0, labels@.len() as int), labels@, *folder),
        decreases src@.len(),
    {
        let ghost k = labels@.len() as int;
        let l = src.remove(0);
        assert(l == orig[k]);
        let ghost m0 = *folder;
        let nl = Label { value: folder.fold_numeric(l.value), span: l.span };
        proof {
            lemma_chain_push(spec_label_step::<F>(), m1, orig.subrange(0, k), labels@, m0, orig[k], nl, *folder);
            assert(orig.subrange(0, k).push(orig[k]) =~= orig.subrange(0, k + 1));
        }
        labels.push(nl);
        assert(src@ =~= orig.subrange(labels@.len() as int, orig.len() as int));
    }
    assert(orig.subrange(0, orig.len() as int) =~= orig);
    let ghost m2 = *folder;
    let annotations = fold_annotations(folder, v.annotations);
    let r = Variant { annotations, ident: v.ident, ty, labels, is_default: v.is_default };
    proof {
        assert((*old(folder)).folds_ty(v0.ty, r.ty, m1));
        assert(spec_chain(spec_label_step::<F>(), m1, v0.labels@, r.labels@, m2));
    }
    r
}

/// Rebuild a parameter: its type goes to the folder.
pub fn fold_parameter<F: Fold>(folder: &mut F, p: Parameter) -> (r: Parameter)
    ensures
        r.ident == p.ident,
        r.kind == p.kind,
        (*old(folder)).folds_ty(p.ty, r.ty, *final(folder)),
{
    Parameter { ident: p.ident, ty: folder.fold_ty(p.ty), kind: p.kind }
}

/// Rebuild an operation: its return type, then its parameters, go to the
/// folder.
pub fn fold_proto_ty<F: Fold>(folder: &mut F, p: ProtoTy) -> (r: ProtoTy)
    ensures
        r.ident == p.ident,
        r.raises == p.raises,
        r.annotations == p.annotations,
        exists|m: F|
            #[trigger] (*old(folder)).folds_ty(p.ty, r.ty, m) && spec_chain(
                spec_parameter_step::<F>(),
                m,
                p.params@,
                r.params@,
                *final(folder),
            ),
{
    let ghost p0 = p;
    let ty = folder.fold_ty(p.ty);
    let ghost m = *folder;
    let params = fold_parameters(folder, p.params);
    let r = ProtoTy { ident: p.ident, ty, params, raises: p.raises, annotations: p.annotations };
    proof {
        assert((*old(folder)).folds_ty(p0.ty, r.ty, m));
    }
    r
}

/// Rebuild an applied annotation: each argument's value, then its type if
/// it has one, go to the folder.
pub fn fold_annotation<F: Fold>(folder: &mut F, a: Ann) -> (r: Ann)
    ensures
        r.ident == a.ident,
        r.def_id == a.def_id,
        spec_chain(spec_arg_step::<F>(), *old(folder), a.args@, r.args@, *final(folder)),
{
    let ghost orig = a.args@;
    let ghost s0 = *folder;
    let mut src = a.args;
    let mut args: Vec<AnnArg> = Vec::new();
    assert(orig.subrange(0, 0) =~= Seq::<AnnArg>::empty());
    proof {
        lemma_chain_empty::<F, AnnArg>(spec_arg_step::<F>(), *folder);
    }
    while src.len() > 0
        invariant
            args@.len() + src@.len() == orig.len(),
            src@ == orig.subrange(args@.len() as int, orig.len() as int),
            spec_chain(spec_arg_step::<F>(), s0, orig.subrange(0, args@.len() as int), args@, *folder),
        decreases src@.len(),
    {
        let ghost k = args@.len() as int;
        let x = src.remove(0);
        assert(x == orig[k]);
        let ghost m0 = *folder;
        let value = folder.fold_numeric(x.value);
        let ghost m1 = *folder;
        let ty = match x.ty {
            Some(t) => Some(folder.fold_ty(t)),
            None => None,
        };
        let nx = AnnArg { ident: x.ident, value, ty };
        proof {
            assert(m0.folds_numeric(orig[k].value, nx.value, m1));
            assert(spec_arg_step::<F>()(m0, orig[k], nx, *folder));
            lemma_chain_push(spec_arg_step::<F>(), s0, orig.subrange(0, k), args@, m0, orig[k], nx, *folder);
            assert(orig.subrange(0, k).push(orig[k]) =~= orig.subrange(0, k + 1));
        }
        args.push(nx);
        assert(src@ =~= orig.subrange(args@.len() as int, orig.len() as int));
    }
    assert(orig.subrange(0, orig.len() as int) =~= orig);
    Ann { ident: a.ident, def_id: a.def_id, args }
}

/// Rebuild an attribute: its type goes to the folder.
pub fn fold_attribute<F: Fold>(folder: &mut F, a: Attribute) -> (r: Attribute)
    ensures
        r.ident == a.ident,
        r.is_readonly == a.is_readonly,
        r.getraises == a.getraises,
        r.setraises == a.setraises,
        r.annotations == a.annotations,
        (*old(folder)).folds_ty(a.ty, r.ty, *final(folder)),
{
    Attribute {
        ident: a.ident,
        ty: folder.fold_ty(a.ty),
        is_readonly: a.is_readonly,
        getraises: a.getraises,
        setraises: a.setraises,
        annotations: a.annotations,
    }
}

} // verus!
