//! Bookkeeping of the enclosing scopes while definitions are collected.

use vstd::prelude::*;
use crate::ctx::Context;
use crate::diag::{Diag, DiagView, Severity, diag, spec_diag, spec_diag_views, spec_with_label};
use crate::hir::{
    AliasTy, AnnotationTy, BitmaskTy, ConstTy, Decl, Def, DefFlags, DefId, DefKind, Disc, EnumTy, ExceptTy, Ident,
    InterfaceTy, IS_EMIT, IS_INCOMPLETE, ModuleTy, Numeric, PrimitiveTy, Span, StructTy, Ty, TyKind, UnionTy, ValueTy,
};
use crate::text::{lemma_first_index, lemma_first_index_is, lemma_first_index_pointwise, lemma_first_index_push, owned, spec_first_index, str_eq};

verus! {

/// The scopes enclosing the current position, outermost first. The first
/// entry is the global scope, which is never left.
pub struct ScopeStack {
    scopes: Vec<(String, Option<DefId>)>,
}

impl ScopeStack {
    /// The names and definitions of the enclosing scopes, outermost first.
    pub closed spec fn frames(&self) -> Seq<(Seq<char>, Option<DefId>)> {
        self.scopes@.map_values(|f: (String, Option<DefId>)| (f.0@, f.1))
    }

    /// The global scope is always the first frame.
    pub closed spec fn wf(&self) -> bool {
        self.scopes@.len() >= 1 && self.scopes@[0].1 is None
    }

    /// A stack holding only the global scope.
    pub fn new() -> (s: Self)
        ensures
            s.wf(),
            s.frames() == seq![("<global>"@, None::<DefId>)],
    {
        let mut scopes: Vec<(String, Option<DefId>)> = Vec::new();
        scopes.push((owned("<global>"), None));
        let s = ScopeStack { scopes };
        assert(s.frames() =~= seq![("<global>"@, None::<DefId>)]);
        s
    }

    /// Enter the scope of definition `id`, named `name`.
    pub fn push(&mut self, name: String, id: DefId)
        requires
            old(self).wf(),
        ensures
            final(self).wf(),
            final(self).frames() == old(self).frames().push((name@, Some(id))),
    {
        let ghost before = self.frames();
        self.scopes.push((name, Some(id)));
        assert(self.frames() =~= before.push((name@, Some(id))));
    }

    /// Leave the innermost scope; the global scope is never left.
    pub fn pop(&mut self)
        requires
            old(self).wf(),
        ensures
            final(self).wf(),
            final(self).frames() == if old(self).frames().len() > 1 {
                old(self).frames().drop_last()
            } else {
                old(self).frames()
            },
    {
        if self.scopes.len() > 1 {
            let ghost before = self.frames();
            self.scopes.pop();
            assert(self.frames() =~= before.drop_last());
        }
    }

    /// The definition of the innermost scope, `None` at the global scope.
    pub fn current_parent(&self) -> (r: Option<DefId>)
        requires
            self.wf(),
        ensures
            r == self.frames().last().1,
    {
        self.scopes[self.scopes.len() - 1].1
    }

    /// `name` qualified by the names of the enclosing scopes other than the
    /// global one, joined with `::`.
    pub fn qualified_name(&self, name: &str) -> (r: String)
        requires
            self.wf(),
        ensures
            r@ == crate::lower::duplicates::spec_scoped_name(
                self.frames().subrange(1, self.frames().len() as int).map_values(
                    |f: (Seq<char>, Option<DefId>)| f.0,
                ),
                name@,
            ),
    {
        let ghost path = self.frames().subrange(1, self.frames().len() as int).map_values(
            |f: (Seq<char>, Option<DefId>)| f.0,
        );
        let mut acc = owned(name);
        let mut i: usize = self.scopes.len();
        assert(path.subrange(0, (i - 1) as int) =~= path);
        while i > 1
            invariant
                1 <= i <= self.scopes@.len(),
                self.wf(),
                path == self.frames().subrange(1, self.frames().len() as int).map_values(
                    |f: (Seq<char>, Option<DefId>)| f.0,
                ),
                crate::lower::duplicates::spec_scoped_name(path.subrange(0, (i - 1) as int), acc@)
                    == crate::lower::duplicates::spec_scoped_name(path, name@),
            decreases i,
        {
            let mut next = self.scopes[i - 1].0.clone();
            next.append("::");
            next.append(acc.as_str());
            proof {
                let p = path.subrange(0, (i - 1) as int);
                assert(p.drop_last() =~= path.subrange(0, (i - 2) as int));
                assert(p.last() == self.scopes@[i - 1].0@);
            }
            acc = next;
            i -= 1;
        }
        proof {
            assert(path.subrange(0, 0) =~= Seq::<Seq<char>>::empty());
        }
        acc
    }
}

/// The type a definition has before its real type is resolved: `any`,
/// written at `span`.
pub fn placeholder_type(span: Span) -> (t: Ty)
    ensures
        t == (Ty { kind: TyKind::Any, span }),
{
    Ty { kind: TyKind::Any, span }
}

} // verus!

verus! {

/// What the collection of names sees of an item of the syntax tree: its
/// name (or names), where it was written, whether it has a body, and the
/// items nested in it.
#[derive(Debug)]
pub enum ItemSyntax {
    Module { ident: Ident, span: Span, items: Vec<ItemSyntax> },
    Interface { ident: Ident, span: Span, local: bool, has_members: bool, items: Vec<ItemSyntax> },
    Annotation { ident: Ident, span: Span, items: Vec<ItemSyntax> },
    Valuetype { ident: Ident, span: Span, has_members: bool, items: Vec<ItemSyntax> },
    Struct { ident: Ident, span: Span, has_members: bool },
    Union { ident: Ident, span: Span, has_fields: bool },
    Enum { ident: Ident, span: Span },
    Except { ident: Ident, span: Span, has_members: bool },
    Bitmask { ident: Ident, span: Span },
    Const { ident: Ident, span: Span },
    Alias { names: Vec<Ident>, span: Span },
    Decl { ident: Ident, span: Span, kind: Decl },
    Bitset,
}

/// The flags a definition of this kind starts with: the kinds that can be
/// declared ahead of their definition start incomplete.
pub open spec fn spec_initial_flags(kind: DefKind) -> u32 {
    match kind {
        DefKind::Decl(_) | DefKind::Struct(_) | DefKind::Union(_) | DefKind::Interface(_) | DefKind::Valuetype(_)
        | DefKind::Except(_) => IS_INCOMPLETE,
        _ => IS_EMIT,
    }
}

/// Whether two definitions are both real definitions, not forward
/// declarations.
pub open spec fn spec_both_defined(a: DefKind, b: DefKind) -> bool {
    !(a is Decl) && !(b is Decl)
}

/// The error for a name defined twice in one scope.
pub open spec fn spec_duplicate_diag(name: Seq<char>, span: Span, first: Span) -> DiagView {
    spec_with_label(
        spec_diag(Severity::Error, "duplicate definition of `"@ + name + "`"@, span, "redefined here"@),
        first,
        "first defined here"@,
    )
}

/// Whether a (qualified name, definition) pair is for `name`.
pub open spec fn spec_has_name(name: Seq<char>) -> spec_fn((String, DefId)) -> bool {
    |e: (String, DefId)| e.0@ == name
}

/// The entry of a name in a list of (qualified name, definition) pairs:
/// the first that has it.
pub open spec fn spec_name_lookup(names: Seq<(String, DefId)>, name: Seq<char>) -> Option<DefId> {
    match spec_first_index(names, spec_has_name(name)) {
        Some(i) => Some(names[i].1),
        None => None,
    }
}

/// Whether `d` is the placeholder definition `id` made for a name: no
/// annotations yet, the kind given, and the flags that kind starts with.
pub open spec fn spec_placeholder(d: Def, id: DefId, ident: Ident, parent: Option<DefId>, span: Span, kind: DefKind) -> bool {
    &&& d.id == id
    &&& d.ident == ident
    &&& d.parent == parent
    &&& d.annotations@.len() == 0
    &&& d.span == span
    &&& d.kind == kind
    &&& d.flags.bits == spec_initial_flags(kind)
}

/// The number of definitions an item makes at its own level.
pub open spec fn spec_item_count(item: ItemSyntax) -> nat {
    match item {
        ItemSyntax::Alias { names, .. } => names@.len(),
        ItemSyntax::Bitset => 0,
        _ => 1,
    }
}

/// The names of the definitions an item makes at its own level, in order.
pub open spec fn spec_item_idents(item: ItemSyntax) -> Seq<Ident> {
    match item {
        ItemSyntax::Module { ident, .. } | ItemSyntax::Interface { ident, .. } | ItemSyntax::Annotation { ident, .. }
        | ItemSyntax::Valuetype { ident, .. } | ItemSyntax::Struct { ident, .. } | ItemSyntax::Union { ident, .. }
        | ItemSyntax::Enum { ident, .. } | ItemSyntax::Except { ident, .. } | ItemSyntax::Bitmask { ident, .. }
        | ItemSyntax::Const { ident, .. } | ItemSyntax::Decl { ident, .. } => seq![ident],
        ItemSyntax::Alias { names, .. } => names@,
        ItemSyntax::Bitset => seq![],
    }
}

/// The flags a definition made by an item ends with: a struct, union,
/// exception, interface or value type is incomplete exactly when it has
/// no body, a forward declaration always is, and anything else has the
/// default flags.
pub open spec fn spec_item_flags(item: ItemSyntax) -> u32 {
    match item {
        ItemSyntax::Struct { has_members, .. } | ItemSyntax::Except { has_members, .. }
        | ItemSyntax::Interface { has_members, .. } => if has_members { 0 } else { IS_INCOMPLETE },
        ItemSyntax::Union { has_fields, .. } => if has_fields { 0 } else { IS_INCOMPLETE },
        ItemSyntax::Valuetype { has_members, items, .. } => if has_members || items@.len() > 0 {
            0
        } else {
            IS_INCOMPLETE
        },
        ItemSyntax::Decl { .. } => IS_INCOMPLETE,
        _ => IS_EMIT,
    }
}

/// The items nested in a scoped item.
pub open spec fn spec_nested(item: ItemSyntax) -> Seq<ItemSyntax> {
    match item {
        ItemSyntax::Module { items, .. } | ItemSyntax::Interface { items, .. } | ItemSyntax::Annotation { items, .. }
        | ItemSyntax::Valuetype { items, .. } => items@,
        _ => seq![],
    }
}

/// The definitions a scoped definition lists as its children.
pub open spec fn spec_children(kind: DefKind) -> Seq<DefId> {
    match kind {
        DefKind::Module(m) => m.definitions@,
        DefKind::Interface(i) => i.definitions@,
        DefKind::Annotation(a) => a.types@,
        DefKind::Valuetype(v) => v.definitions@,
        _ => seq![],
    }
}

/// Whether `kind` is the kind of definition `item` makes.
pub open spec fn spec_kind_of_item(item: ItemSyntax, kind: DefKind) -> bool {
    match item {
        ItemSyntax::Module { .. } => kind is Module,
        ItemSyntax::Interface { local, .. } => kind matches DefKind::Interface(i) && i.is_local == local,
        ItemSyntax::Annotation { .. } => kind is Annotation,
        ItemSyntax::Valuetype { .. } => kind is Valuetype,
        ItemSyntax::Struct { .. } => kind is Struct,
        ItemSyntax::Union { .. } => kind is Union,
        ItemSyntax::Enum { .. } => kind is Enum,
        ItemSyntax::Except { .. } => kind is Except,
        ItemSyntax::Bitmask { .. } => kind is Bitmask,
        ItemSyntax::Const { .. } => kind is Const,
        ItemSyntax::Alias { .. } => kind is Alias,
        ItemSyntax::Decl { kind: d, .. } => kind == DefKind::Decl(d),
        ItemSyntax::Bitset => false,
    }
}

/// Whether `b` holds the items of `a` first.
pub open spec fn spec_grows<T>(a: Seq<T>, b: Seq<T>) -> bool {
    a.len() <= b.len() && forall|i: int| 0 <= i < a.len() ==> b[i] == a[i]
}

/// The number of definitions an item makes, its nested items included.
pub open spec fn spec_total(item: ItemSyntax) -> nat
    decreases item,
{
    match item {
        ItemSyntax::Module { items, .. } | ItemSyntax::Interface { items, .. } | ItemSyntax::Annotation { items, .. }
        | ItemSyntax::Valuetype { items, .. } => 1 + spec_total_items(items@),
        ItemSyntax::Alias { names, .. } => names@.len(),
        ItemSyntax::Bitset => 0,
        _ => 1,
    }
}

/// The number of definitions a list of items makes.
pub open spec fn spec_total_items(s: Seq<ItemSyntax>) -> nat
    decreases s,
{
    if s.len() == 0 {
        0
    } else {
        spec_total_items(s.drop_last()) + spec_total(s.last())
    }
}

/// The number of definitions a list of items makes at its own level.
pub open spec fn spec_count_items(s: Seq<ItemSyntax>) -> nat
    decreases s.len(),
{
    if s.len() == 0 {
        0
    } else {
        spec_count_items(s.drop_last()) + spec_item_count(s.last())
    }
}

proof fn lemma_total_prefix(s: Seq<ItemSyntax>, i: int)
    requires
        0 <= i <= s.len(),
    ensures
        spec_total_items(s.subrange(0, i)) <= spec_total_items(s),
    decreases s.len(),
{
    if i < s.len() {
        assert(s.drop_last().subrange(0, i) =~= s.subrange(0, i));
        lemma_total_prefix(s.drop_last(), i);
    } else {
        assert(s.subrange(0, i) =~= s);
    }
}

/// The span an item was written at.
pub open spec fn spec_item_span(item: ItemSyntax) -> Span {
    match item {
        ItemSyntax::Module { span, .. } | ItemSyntax::Interface { span, .. } | ItemSyntax::Annotation { span, .. }
        | ItemSyntax::Valuetype { span, .. } | ItemSyntax::Struct { span, .. } | ItemSyntax::Union { span, .. }
        | ItemSyntax::Enum { span, .. } | ItemSyntax::Except { span, .. } | ItemSyntax::Bitmask { span, .. }
        | ItemSyntax::Const { span, .. } | ItemSyntax::Alias { span, .. } | ItemSyntax::Decl { span, .. } => span,
        ItemSyntax::Bitset => Span { start: 0, end: 0 },
    }
}

/// A copy of a name.
fn clone_ident(i: &Ident) -> (r: Ident)
    ensures
        r == *i,
{
    Ident { name: i.name.clone(), span: i.span }
}

/// The qualified name of definition `d`: the names of the definitions
/// enclosing it, outermost first, and its own, joined with `::`.
pub open spec fn spec_def_qname(defs: Seq<Def>, d: int) -> Seq<char>
    decreases d,
{
    if 0 <= d < defs.len() {
        match defs[d].parent {
            Some(p) => if p < d {
                spec_def_qname(defs, p as int) + "::"@ + defs[d].ident.name@
            } else {
                defs[d].ident.name@
            },
            None => defs[d].ident.name@,
        }
    } else {
        seq![]
    }
}

/// The definition the name table records for `name` once the first `n`
/// definitions are collected: the last real definition of that qualified
/// name, or, where there is none, the first forward declaration of it.
pub open spec fn spec_table(defs: Seq<Def>, n: int, name: Seq<char>) -> Option<DefId>
    decreases n,
{
    if n <= 0 {
        None
    } else {
        let prev = spec_table(defs, n - 1, name);
        if spec_def_qname(defs, n - 1) == name && (!(defs[n - 1].kind is Decl) || prev is None) {
            Some((n - 1) as DefId)
        } else {
            prev
        }
    }
}

/// The errors the collection of the first `n` definitions reports: one for
/// each real definition whose qualified name already stands in the table
/// for a real definition, in the order they were collected.
pub open spec fn spec_dup_errors(defs: Seq<Def>, n: int) -> Seq<DiagView>
    decreases n,
{
    if n <= 0 {
        seq![]
    } else {
        let prev = spec_dup_errors(defs, n - 1);
        let d = defs[n - 1];
        match spec_table(defs, n - 1, spec_def_qname(defs, n - 1)) {
            Some(e) => if spec_both_defined(defs[e as int].kind, d.kind) {
                prev.push(spec_duplicate_diag(d.ident.name@, d.span, defs[e as int].span))
            } else {
                prev
            },
            None => prev,
        }
    }
}

/// Whether the first `n` definitions of `a` and `b` agree on what naming
/// reads of them: name, parent, span and whether they are forward
/// declarations.
pub open spec fn spec_same_names(a: Seq<Def>, b: Seq<Def>, n: int) -> bool {
    &&& n <= a.len()
    &&& n <= b.len()
    &&& forall|j: int|
        0 <= j < n ==> (#[trigger] a[j]).ident == b[j].ident && a[j].parent == b[j].parent && a[j].span == b[j].span
            && (a[j].kind is Decl) == (b[j].kind is Decl)
}

proof fn lemma_same_qname(a: Seq<Def>, b: Seq<Def>, n: int, d: int)
    requires
        spec_same_names(a, b, n),
        0 <= d < n,
    ensures
        spec_def_qname(a, d) == spec_def_qname(b, d),
    decreases d,
{
    assert(a[d].parent == b[d].parent && a[d].ident == b[d].ident);
    if let Some(p) = a[d].parent {
        if p < d {
            lemma_same_qname(a, b, n, p as int);
        }
    }
}

proof fn lemma_same_table(a: Seq<Def>, b: Seq<Def>, n: int, m: int, name: Seq<char>)
    requires
        spec_same_names(a, b, n),
        0 <= m <= n,
    ensures
        spec_table(a, m, name) == spec_table(b, m, name),
    decreases m,
{
    if m > 0 {
        lemma_same_table(a, b, n, m - 1, name);
        lemma_same_qname(a, b, n, m - 1);
        assert(a[m - 1].kind is Decl == b[m - 1].kind is Decl);
    }
}

proof fn lemma_same_errors(a: Seq<Def>, b: Seq<Def>, n: int, m: int)
    requires
        spec_same_names(a, b, n),
        0 <= m <= n,
    ensures
        spec_dup_errors(a, m) == spec_dup_errors(b, m),
    decreases m,
{
    if m > 0 {
        lemma_same_errors(a, b, n, m - 1);
        lemma_same_qname(a, b, n, m - 1);
        lemma_same_table(a, b, n, m - 1, spec_def_qname(a, m - 1));
        lemma_table_below(a, m - 1, spec_def_qname(a, m - 1));
        if let Some(e) = spec_table(a, m - 1, spec_def_qname(a, m - 1)) {
            assert(a[e as int].kind is Decl == b[e as int].kind is Decl);
            assert(a[e as int].span == b[e as int].span);
        }
        assert(a[m - 1].ident == b[m - 1].ident && a[m - 1].span == b[m - 1].span);
    }
}

proof fn lemma_table_below(defs: Seq<Def>, n: int, name: Seq<char>)
    ensures
        spec_table(defs, n, name) matches Some(e) ==> 0 <= e < n,
    decreases n,
{
    if n > 0 {
        lemma_table_below(defs, n - 1, name);
    }
}

/// The name table records every collected definition's qualified name; a
/// real definition stays recorded until another real definition of the
/// same name comes (forward declarations after it do not replace it); and
/// while a name has only forward declarations, the first of them stays
/// recorded.
pub proof fn lemma_table_records(defs: Seq<Def>, n: int, d: int)
    requires
        0 <= d < n <= defs.len(),
    ensures
        spec_table(defs, n, spec_def_qname(defs, d)) is Some,
        !(defs[d].kind is Decl) && (forall|j: int|
            d < j < n && spec_def_qname(defs, j) == spec_def_qname(defs, d) ==> (#[trigger] defs[j]).kind is Decl)
            ==> spec_table(defs, n, spec_def_qname(defs, d)) == Some(d as DefId),
        (forall|j: int|
            0 <= j < n && spec_def_qname(defs, j) == spec_def_qname(defs, d) ==> (#[trigger] defs[j]).kind is Decl)
            && (forall|j: int| 0 <= j < d ==> spec_def_qname(defs, j) != spec_def_qname(defs, d))
            ==> spec_table(defs, n, spec_def_qname(defs, d)) == Some(d as DefId),
    decreases n,
{
    let q = spec_def_qname(defs, d);
    if n - 1 > d {
        lemma_table_records(defs, n - 1, d);
        assert(defs[n - 1] == defs[n - 1]);
    } else {
        lemma_table_none_before(defs, d, q);
    }
}

proof fn lemma_table_none_before(defs: Seq<Def>, m: int, q: Seq<char>)
    requires
        0 <= m <= defs.len(),
    ensures
        (forall|j: int| 0 <= j < m ==> spec_def_qname(defs, j) != q) ==> spec_table(defs, m, q) is None,
    decreases m,
{
    if m > 0 {
        lemma_table_none_before(defs, m - 1, q);
    }
}

/// Whether frame `i` of the enclosing scopes is a definition of `defs`
/// named as the frame, nested in the frame before and allocated after it.
pub open spec fn spec_frame_ok(frames: Seq<(Seq<char>, Option<DefId>)>, defs: Seq<Def>, i: int) -> bool {
    match frames[i].1 {
        Some(d) => {
            &&& d < defs.len()
            &&& defs[d as int].ident.name@ == frames[i].0
            &&& defs[d as int].parent == frames[i - 1].1
            &&& match frames[i - 1].1 {
                Some(p) => p < d,
                None => true,
            }
        },
        None => false,
    }
}

/// Whether the enclosing scopes, below the global one, are definitions of
/// `defs`, each nested in the one before.
pub open spec fn spec_frames_ok(frames: Seq<(Seq<char>, Option<DefId>)>, defs: Seq<Def>) -> bool {
    &&& frames.len() >= 1
    &&& frames[0].1 is None
    &&& forall|i: int| 1 <= i < frames.len() ==> #[trigger] spec_frame_ok(frames, defs, i)
}

proof fn lemma_seq_assoc(a: Seq<char>, b: Seq<char>, c: Seq<char>, d: Seq<char>)
    ensures
        a + b + c + b + d == a + b + (c + b + d),
{
    assert(a + b + c + b + d =~= a + b + (c + b + d));
}

/// A name qualified by the enclosing scopes is the qualified name of the
/// innermost one, `::` and the name.
proof fn lemma_qualified_by_frames(frames: Seq<(Seq<char>, Option<DefId>)>, defs: Seq<Def>, name: Seq<char>)
    requires
        spec_frames_ok(frames, defs),
    ensures
        crate::lower::duplicates::spec_scoped_name(
            frames.subrange(1, frames.len() as int).map_values(|f: (Seq<char>, Option<DefId>)| f.0),
            name,
        ) == if frames.len() == 1 {
            name
        } else {
            spec_def_qname(defs, frames.last().1->Some_0 as int) + "::"@ + name
        },
    decreases frames.len(),
{
    let path = frames.subrange(1, frames.len() as int).map_values(|f: (Seq<char>, Option<DefId>)| f.0);
    if frames.len() > 1 {
        let k = frames.len() - 1;
        let f = frames.drop_last();
        assert(spec_frame_ok(frames, defs, k));
        let t = frames[k].1->Some_0;
        let name2 = frames[k].0 + "::"@ + name;
        assert(path.drop_last() =~= f.subrange(1, f.len() as int).map_values(|g: (Seq<char>, Option<DefId>)| g.0));
        assert(path.last() == frames[k].0);
        assert(spec_frames_ok(f, defs)) by {
            assert forall|i: int| 1 <= i < f.len() implies #[trigger] spec_frame_ok(f, defs, i) by {
                assert(f[i] == frames[i] && f[i - 1] == frames[i - 1]);
                assert(spec_frame_ok(frames, defs, i));
            }
        }
        lemma_qualified_by_frames(f, defs, name2);
        if f.len() > 1 {
            assert(f.last() == frames[k - 1]);
            assert(spec_frame_ok(frames, defs, k - 1));
            let t2 = f.last().1->Some_0;
            assert(defs[t as int].parent == Some(t2));
            assert(t2 < t);
            lemma_seq_assoc(spec_def_qname(defs, t2 as int), "::"@, defs[t as int].ident.name@, name);
        }
    }
}

/// Collects the definitions of a syntax tree: each item gets a placeholder
/// definition whose parent is the enclosing scope, names are recorded by
/// their qualified form, and a name defined twice in one scope is reported
/// (forward declarations aside).
pub struct NameCollector {
    ctx: Context,
    names: Vec<(String, DefId)>,
    scope_stack: ScopeStack,
    order: Vec<DefId>,
    errors: Vec<Diag>,
}

impl NameCollector {
    /// The scope stack is well formed and every recorded name is of a
    /// collected definition.
    pub closed spec fn wf(&self) -> bool {
        &&& self.scope_stack.wf()
        &&& forall|i: int| 0 <= i < self.names@.len() ==> (#[trigger] self.names@[i]).1 < self.ctx.definitions@.len()
    }

    /// The definitions collected so far.
    pub closed spec fn defs(&self) -> Seq<Def> {
        self.ctx.definitions@
    }

    /// The top-level definitions, in the order they were collected.
    pub closed spec fn order(&self) -> Seq<DefId> {
        self.order@
    }

    /// The errors reported so far.
    pub closed spec fn diags(&self) -> Seq<DiagView> {
        spec_diag_views(self.errors@)
    }

    /// The enclosing scopes, outermost first.
    pub closed spec fn frames(&self) -> Seq<(Seq<char>, Option<DefId>)> {
        self.scope_stack.frames()
    }

    /// The definition recorded for each qualified name.
    pub closed spec fn lookup(&self, name: Seq<char>) -> Option<DefId> {
        spec_name_lookup(self.names@, name)
    }

    /// The enclosing scopes are collected definitions, the name table is
    /// [`spec_table`] of the definitions collected and the errors are
    /// [`spec_dup_errors`] of them.
    pub open spec fn named(&self) -> bool {
        &&& spec_frames_ok(self.frames(), self.defs())
        &&& forall|n: Seq<char>| #[trigger] self.lookup(n) == spec_table(self.defs(), self.defs().len() as int, n)
        &&& self.diags() == spec_dup_errors(self.defs(), self.defs().len() as int)
    }

    proof fn lemma_same_named(c0: NameCollector, c1: NameCollector)
        requires
            c0.named(),
            c1.defs().len() == c0.defs().len(),
            spec_same_names(c1.defs(), c0.defs(), c0.defs().len() as int),
            spec_frames_ok(c1.frames(), c0.defs()),
            c1.diags() == c0.diags(),
            forall|n: Seq<char>| c1.lookup(n) == c0.lookup(n),
        ensures
            c1.named(),
    {
        let d0 = c0.defs();
        let d1 = c1.defs();
        let len0 = d0.len() as int;
        assert forall|n: Seq<char>| #[trigger] c1.lookup(n) == spec_table(d1, d1.len() as int, n) by {
            lemma_same_table(d1, d0, len0, len0, n);
        }
        lemma_same_errors(d1, d0, len0, len0);
        let f = c1.frames();
        assert forall|i: int| 1 <= i < f.len() implies #[trigger] spec_frame_ok(f, d1, i) by {
            assert(spec_frame_ok(f, d0, i));
            let d = f[i].1->Some_0;
            assert(d1[d as int].ident == d0[d as int].ident && d1[d as int].parent == d0[d as int].parent);
        }
    }

    proof fn lemma_alloc_named(c0: NameCollector, c1: NameCollector, ident: Ident, kind: DefKind, span: Span)
        requires
            c0.named(),
            c0.wf(),
            c1.frames() == c0.frames(),
            c1.defs() == c0.defs().push(c1.defs()[c0.defs().len() as int]),
            spec_placeholder(c1.defs()[c0.defs().len() as int], c0.defs().len() as DefId, ident, c0.parent(), span, kind),
            ({
                let qn = c0.qualified(ident.name@);
                &&& c1.diags() == c0.diags() + match c0.lookup(qn) {
                    Some(e) => if spec_both_defined(c0.defs()[e as int].kind, kind) {
                        seq![spec_duplicate_diag(ident.name@, span, c0.defs()[e as int].span)]
                    } else {
                        seq![]
                    },
                    None => seq![],
                }
                &&& c1.lookup(qn) == if !(kind is Decl) || c0.lookup(qn) is None {
                    Some(c0.defs().len() as DefId)
                } else {
                    c0.lookup(qn)
                }
                &&& forall|n: Seq<char>| n != qn ==> c1.lookup(n) == c0.lookup(n)
            }),
        ensures
            c1.named(),
    {
        let d0 = c0.defs();
        let d1 = c1.defs();
        let len0 = d0.len() as int;
        let frames = c0.frames();
        let qn = c0.qualified(ident.name@);
        assert(spec_same_names(d1, d0, len0)) by {
            assert forall|j: int| 0 <= j < len0 implies d1[j] == d0[j] by {}
        }
        lemma_qualified_by_frames(frames, d0, ident.name@);
        if frames.len() > 1 {
            let k = frames.len() - 1;
            assert(spec_frame_ok(frames, d0, k));
            lemma_same_qname(d1, d0, len0, frames.last().1->Some_0 as int);
        }
        assert(spec_def_qname(d1, len0) == qn);
        assert forall|n: Seq<char>| #[trigger] c1.lookup(n) == spec_table(d1, d1.len() as int, n) by {
            lemma_same_table(d1, d0, len0, len0, n);
        }
        lemma_same_errors(d1, d0, len0, len0);
        lemma_same_table(d1, d0, len0, len0, qn);
        lemma_table_below(d0, len0, qn);
        assert(c1.diags() =~= spec_dup_errors(d1, d1.len() as int));
        assert forall|i: int| 1 <= i < frames.len() implies #[trigger] spec_frame_ok(frames, d1, i) by {
            assert(spec_frame_ok(frames, d0, i));
        }
    }

    /// A collector with an empty context, at the global scope.
    pub fn new() -> (c: Self)
        ensures
            c.wf(),
            c.frames() == seq![("<global>"@, None::<DefId>)],
            c.defs().len() == 0,
            c.order().len() == 0,
            c.diags().len() == 0,
            forall|n: Seq<char>| c.lookup(n) is None,
            c.named(),
    {
        let c = NameCollector {
            ctx: Context::new(),
            names: Vec::new(),
            scope_stack: ScopeStack::new(),
            order: Vec::new(),
            errors: Vec::new(),
        };
        proof {
            assert forall|n: Seq<char>| c.lookup(n) is None by {
                lemma_first_index(c.names@, spec_has_name(n));
            }
            assert(c.diags() =~= spec_dup_errors(c.defs(), 0));
        }
        c
    }

    fn find_name(&self, name: &str) -> (r: Option<usize>)
        ensures
            r matches Some(i) ==> spec_first_index(self.names@, spec_has_name(name@)) == Some(i as int) && i
                < self.names@.len(),
            r is None ==> spec_first_index(self.names@, spec_has_name(name@)) is None,
    {
        let ghost p = spec_has_name(name@);
        let mut i: usize = 0;
        while i < self.names.len()
            invariant
                0 <= i <= self.names@.len(),
                p == spec_has_name(name@),
                forall|j: int| 0 <= j < i ==> !p(#[trigger] self.names@[j]),
            decreases self.names@.len() - i,
        {
            if str_eq(self.names[i].0.as_str(), name) {
                proof {
                    lemma_first_index_is(self.names@, p, i as int);
                }
                return Some(i);
            }
            i += 1;
        }
        proof {
            lemma_first_index(self.names@, p);
        }
        None
    }

    fn record_name(&mut self, name: String, id: DefId)
        requires
            id < old(self).ctx.definitions@.len(),
            forall|i: int| 0 <= i < old(self).names@.len() ==> (#[trigger] old(self).names@[i]).1 < old(self).ctx.definitions@.len(),
        ensures
            forall|i: int| 0 <= i < final(self).names@.len() ==> (#[trigger] final(self).names@[i]).1 < final(self).ctx.definitions@.len(),
            final(self).lookup(name@) == Some(id),
            forall|n: Seq<char>| n != name@ ==> final(self).lookup(n) == old(self).lookup(n),
            final(self).ctx == old(self).ctx,
            final(self).scope_stack == old(self).scope_stack,
            final(self).order == old(self).order,
            final(self).errors == old(self).errors,
    {
        let ghost before = self.names@;
        let ghost key = name@;
        let ghost p = spec_has_name(key);
        match self.find_name(name.as_str()) {
            Some(i) => {
                proof {
                    lemma_first_index(before, p);
                    assert(p(before[i as int]));
                }
                self.names.set(i, (name, id));
                proof {
                    let after = self.names@;
                    assert forall|j: int| 0 <= j < after.len() implies (#[trigger] after[j]).1 < self.ctx.definitions@.len() by {
                        if j != i {
                            assert(after[j] == before[j]);
                        }
                    }
                    assert forall|j: int| 0 <= j < i implies !p(#[trigger] after[j]) by {
                        assert(after[j] == before[j]);
                    }
                    lemma_first_index_is(after, p, i as int);
                    assert forall|n: Seq<char>| n != key implies spec_name_lookup(after, n) == spec_name_lookup(
                        before,
                        n,
                    ) by {
                        let q = spec_has_name(n);
                        assert forall|j: int| 0 <= j < after.len() implies q(#[trigger] after[j]) == q(before[j]) by {
                            if j == i {
                                assert(p(before[j]));
                            }
                        }
                        lemma_first_index_pointwise(after, q, before, q);
                        lemma_first_index(before, q);
                        lemma_first_index(after, q);
                        if let Some(k) = spec_first_index(after, q) {
                            if k == i {
                                assert(p(before[k]));
                            }
                        }
                    }
                }
            },
            None => {
                let ghost e = (name, id);
                self.names.push((name, id));
                proof {
                    lemma_first_index_push(before, e, p);
                    assert(self.names@ == before.push(e));
                    assert forall|j: int| 0 <= j < self.names@.len() implies (#[trigger] self.names@[j]).1 < self.ctx.definitions@.len() by {
                        if j < before.len() {
                            assert(self.names@[j] == before[j]);
                        }
                    }
                    assert forall|n: Seq<char>| n != key implies spec_name_lookup(self.names@, n) == spec_name_lookup(
                        before,
                        n,
                    ) by {
                        lemma_first_index_push(before, e, spec_has_name(n));
                        lemma_first_index(before, spec_has_name(n));
                    }
                }
            },
        }
    }

    /// `name` qualified by the enclosing scopes.
    pub open spec fn qualified(&self, name: Seq<char>) -> Seq<char> {
        crate::lower::duplicates::spec_scoped_name(
            self.frames().subrange(1, self.frames().len() as int).map_values(|f: (Seq<char>, Option<DefId>)| f.0),
            name,
        )
    }

    /// The definition of the innermost enclosing scope.
    pub open spec fn parent(&self) -> Option<DefId> {
        self.frames().last().1
    }

    /// Allocates a placeholder definition in the current scope, records its
    /// qualified name (a forward declaration does not replace a recorded
    /// name) and reports a name defined twice.
    fn alloc_definition(&mut self, ident: Ident, kind: DefKind, span: Span) -> (id: DefId)
        requires
            old(self).wf(),
            old(self).named(),
            old(self).defs().len() < usize::MAX,
        ensures
            final(self).wf(),
            final(self).named(),
            final(self).frames() == old(self).frames(),
            id == old(self).defs().len(),
            final(self).defs() == old(self).defs().push(final(self).defs()[id as int]),
            spec_placeholder(final(self).defs()[id as int], id, ident, old(self).parent(), span, kind),
            final(self).order() == old(self).order(),
            ({
                let qn = old(self).qualified(ident.name@);
                &&& final(self).diags() == old(self).diags() + match old(self).lookup(qn) {
                    Some(e) => if spec_both_defined(old(self).defs()[e as int].kind, kind) {
                        seq![spec_duplicate_diag(ident.name@, span, old(self).defs()[e as int].span)]
                    } else {
                        seq![]
                    },
                    None => seq![],
                }
                &&& final(self).lookup(qn) == if !(kind is Decl) || old(self).lookup(qn) is None {
                    Some(id)
                } else {
                    old(self).lookup(qn)
                }
                &&& forall|n: Seq<char>| n != qn ==> final(self).lookup(n) == old(self).lookup(n)
            }),
    {
        let parent = self.scope_stack.current_parent();
        let qn = self.scope_stack.qualified_name(ident.name.as_str());
        let ghost qv = qn@;
        let new_is_decl = match &kind {
            DefKind::Decl(_) => true,
            _ => false,
        };
        let flags = match &kind {
            DefKind::Decl(_) | DefKind::Struct(_) | DefKind::Union(_) | DefKind::Interface(_) | DefKind::Valuetype(_)
            | DefKind::Except(_) => DefFlags { bits: IS_INCOMPLETE },
            _ => DefFlags { bits: IS_EMIT },
        };
        let id = self.ctx.definitions.len();
        let name_copy = ident.name.clone();
        let ghost before = self.errors@;
        let ghost old_defs = self.ctx.definitions@;
        let existing = self.find_name(qn.as_str());
        let mut found = false;
        match existing {
            Some(i) => {
                found = true;
                let e = self.names[i].1;
                proof {
                    assert(self.names@[i as int].1 < self.ctx.definitions@.len());
                }
                let existing_is_decl = match &self.ctx.definitions[e].kind {
                    DefKind::Decl(_) => true,
                    _ => false,
                };
                if !existing_is_decl && !new_is_decl {
                    let mut msg = owned("duplicate definition of `");
                    msg.append(name_copy.as_str());
                    msg.append("`");
                    let d = diag(Severity::Error, msg, span, owned("redefined here")).label(
                        self.ctx.definitions[e].span,
                        owned("first defined here"),
                    );
                    self.errors.push(d);
                    proof {
                        assert(spec_diag_views(self.errors@) =~= spec_diag_views(before) + seq![d@]);
                    }
                } else {
                    proof {
                        assert(spec_diag_views(self.errors@) =~= spec_diag_views(before) + seq![]);
                    }
                }
            },
            None => {
                proof {
                    assert(spec_diag_views(self.errors@) =~= spec_diag_views(before) + seq![]);
                }
            },
        }
        let ghost gident = ident;
        let ghost gkind = kind;
        self.ctx.definitions.push(Def { id, ident, parent, annotations: Vec::new(), span, kind, flags });
        if !new_is_decl || !found {
            self.record_name(qn, id);
        }
        proof {
            Self::lemma_alloc_named(*old(self), *self, gident, gkind, span);
        }
        id
    }

    /// Allocates a definition that opens a scope and enters that scope.
    fn enter_scope(&mut self, ident: Ident, kind: DefKind, span: Span) -> (id: DefId)
        requires
            old(self).wf(),
            old(self).named(),
            old(self).defs().len() < usize::MAX,
        ensures
            final(self).wf(),
            final(self).named(),
            final(self).frames() == old(self).frames().push((ident.name@, Some(id))),
            id == old(self).defs().len(),
            final(self).defs() == old(self).defs().push(final(self).defs()[id as int]),
            spec_placeholder(final(self).defs()[id as int], id, ident, old(self).parent(), span, kind),
            final(self).order() == old(self).order(),
            spec_grows(old(self).diags(), final(self).diags()),
    {
        let name = ident.name.clone();
        let ghost f0 = self.frames();
        let id = self.alloc_definition(ident, kind, span);
        let ghost mid = *self;
        self.scope_stack.push(name, id);
        proof {
            assert(self.defs() == mid.defs());
            assert(self.diags() == mid.diags());
            assert forall|n: Seq<char>| #[trigger] self.lookup(n) == spec_table(self.defs(), self.defs().len() as int, n) by {
                assert(self.lookup(n) == mid.lookup(n));
            }
            let f = self.frames();
            let d = self.defs();
            assert(f == f0.push((name@, Some(id))));
            assert forall|i: int| 1 <= i < f.len() implies #[trigger] spec_frame_ok(f, d, i) by {
                if i < f0.len() {
                    assert(f[i] == f0[i] && f[i - 1] == f0[i - 1]);
                    assert(spec_frame_ok(f0, d, i));
                } else {
                    assert(f[i - 1] == f0.last());
                    if f0.len() > 1 {
                        assert(spec_frame_ok(f0, d, f0.len() - 1));
                    }
                }
            }
        }
        id
    }

    /// Stores the children of the scoped definition `id`, marks it complete
    /// when `complete` holds, and leaves its scope.
    fn leave_scope(&mut self, id: DefId, children: Vec<DefId>, local: bool, complete: bool)
        requires
            old(self).wf(),
            old(self).named(),
            id < old(self).defs().len(),
            old(self).frames().len() > 1,
            old(self).defs()[id as int].kind is Module || old(self).defs()[id as int].kind is Interface
                || old(self).defs()[id as int].kind is Annotation || old(self).defs()[id as int].kind is Valuetype,
            complete ==> old(self).defs()[id as int].flags.bits == IS_INCOMPLETE,
        ensures
            final(self).wf(),
            final(self).named(),
            final(self).frames() == old(self).frames().drop_last(),
            final(self).defs().len() == old(self).defs().len(),
            forall|j: int| 0 <= j < old(self).defs().len() && j != id ==> final(self).defs()[j] == old(self).defs()[j],
            ({
                let o = old(self).defs()[id as int];
                let n = final(self).defs()[id as int];
                &&& n.id == o.id && n.ident == o.ident && n.parent == o.parent && n.span == o.span
                &&& n.flags.bits == if complete { 0 } else { o.flags.bits }
                &&& spec_children(n.kind) == children@
                &&& (o.kind is Module ==> n.kind is Module)
                &&& (o.kind is Interface ==> (n.kind matches DefKind::Interface(i) && i.is_local == local))
                &&& (o.kind is Annotation ==> n.kind is Annotation)
                &&& (o.kind is Valuetype ==> n.kind is Valuetype)
            }),
            final(self).order() == old(self).order(),
            final(self).diags() == old(self).diags(),
            forall|n: Seq<char>| final(self).lookup(n) == old(self).lookup(n),
    {
        let d = self.ctx.definitions.remove(id);
        let Def { id: did, ident, parent, annotations, span, kind, flags } = d;
        let kind = match kind {
            DefKind::Module(_) => DefKind::Module(ModuleTy { definitions: children }),
            DefKind::Interface(i) => DefKind::Interface(InterfaceTy {
                parents: i.parents,
                prototypes: i.prototypes,
                attributes: i.attributes,
                definitions: children,
                is_local: local,
            }),
            DefKind::Annotation(a) => DefKind::Annotation(AnnotationTy { params: a.params, types: children }),
            DefKind::Valuetype(v) => DefKind::Valuetype(ValueTy {
                parent: v.parent,
                supports: v.supports,
                prototypes: v.prototypes,
                attributes: v.attributes,
                members: v.members,
                definitions: children,
            }),
            other => other,
        };
        let flags = if complete {
            let b = flags.bits;
            assert(b == IS_INCOMPLETE ==> b & !IS_INCOMPLETE == 0u32) by (bit_vector);
            DefFlags { bits: b & !IS_INCOMPLETE }
        } else {
            flags
        };
        self.ctx.definitions.insert(id, Def { id: did, ident, parent, annotations, span, kind, flags });
        self.scope_stack.pop();
        proof {
            let d0 = old(self).defs();
            let d1 = self.defs();
            assert forall|j: int| 0 <= j < d0.len() implies (#[trigger] d1[j]).ident == d0[j].ident && d1[j].parent
                == d0[j].parent && d1[j].span == d0[j].span && (d1[j].kind is Decl) == (d0[j].kind is Decl) by {
                if j != id {
                    assert(d1[j] == d0[j]);
                }
            }
            let f0 = old(self).frames();
            let f = self.frames();
            assert forall|i: int| 1 <= i < f.len() implies #[trigger] spec_frame_ok(f, d0, i) by {
                assert(f[i] == f0[i] && f[i - 1] == f0[i - 1]);
                assert(spec_frame_ok(f0, d0, i));
            }
            assert forall|n: Seq<char>| self.lookup(n) == old(self).lookup(n) by {}
            Self::lemma_same_named(*old(self), *self);
        }
    }

    /// Collects the definitions of an item in the current scope (and those
    /// of the items nested in it, in the scope it opens) and gives the
    /// definitions it makes at this level, in order. Each is a placeholder:
    /// no members, annotations or values yet, types `any` (an enum or
    /// bitmask is taken as 32-bit unsigned, a constant as null), each alias
    /// name its own definition; a bit set makes none.
    pub fn collect_item(&mut self, item: &ItemSyntax) -> (ids: Vec<DefId>)
        requires
            old(self).wf(),
            old(self).named(),
            old(self).defs().len() + spec_total(*item) <= usize::MAX,
        ensures
            final(self).wf(),
            final(self).named(),
            final(self).frames() == old(self).frames(),
            final(self).defs().len() == old(self).defs().len() + spec_total(*item),
            forall|j: int| 0 <= j < old(self).defs().len() ==> final(self).defs()[j] == old(self).defs()[j],
            ids@.len() == spec_item_count(*item),
            forall|k: int| 0 <= k < ids@.len() ==> ids@[k] == old(self).defs().len() + k,
            forall|k: int|
                0 <= k < ids@.len() ==> {
                    let d = #[trigger] final(self).defs()[ids@[k] as int];
                    &&& d.id == ids@[k]
                    &&& d.parent == old(self).parent()
                    &&& d.ident == spec_item_idents(*item)[k]
                    &&& d.span == spec_item_span(*item)
                    &&& d.flags.bits == spec_item_flags(*item)
                    &&& spec_kind_of_item(*item, d.kind)
                    &&& spec_children(d.kind).len() == spec_count_items(spec_nested(*item))
                    &&& forall|c: int|
                        0 <= c < spec_children(d.kind).len() ==> {
                            let cid = #[trigger] spec_children(d.kind)[c];
                            &&& old(self).defs().len() < cid < final(self).defs().len()
                            &&& final(self).defs()[cid as int].parent == Some(ids@[k])
                        }
                },
            final(self).order() == old(self).order(),
            spec_grows(old(self).diags(), final(self).diags()),
        decreases item, 2nat,
    {
        let ghost n0 = self.defs().len();
        let ghost d0 = self.diags();
        match item {
            ItemSyntax::Module { ident, span, items } => {
                let id = self.enter_scope(clone_ident(ident), DefKind::Module(ModuleTy { definitions: Vec::new() }), *span);
                let children = self.collect_nested(items, id);
                self.leave_scope(id, children, false, false);
                self.single(id)
            },
            ItemSyntax::Interface { ident, span, local, has_members, items } => {
                let kind = DefKind::Interface(InterfaceTy {
                    parents: Vec::new(),
                    prototypes: Vec::new(),
                    attributes: Vec::new(),
                    definitions: Vec::new(),
                    is_local: false,
                });
                let id = self.enter_scope(clone_ident(ident), kind, *span);
                let children = self.collect_nested(items, id);
                self.leave_scope(id, children, *local, *has_members);
                self.single(id)
            },
            ItemSyntax::Annotation { ident, span, items } => {
                let kind = DefKind::Annotation(AnnotationTy { params: Vec::new(), types: Vec::new() });
                let id = self.enter_scope(clone_ident(ident), kind, *span);
                let children = self.collect_nested(items, id);
                self.leave_scope(id, children, false, false);
                self.single(id)
            },
            ItemSyntax::Valuetype { ident, span, has_members, items } => {
                let kind = DefKind::Valuetype(ValueTy {
                    parent: None,
                    supports: None,
                    prototypes: Vec::new(),
                    attributes: Vec::new(),
                    members: Vec::new(),
                    definitions: Vec::new(),
                });
                let id = self.enter_scope(clone_ident(ident), kind, *span);
                let children = self.collect_nested(items, id);
                let complete = *has_members || items.len() > 0;
                self.leave_scope(id, children, false, complete);
                self.single(id)
            },
            ItemSyntax::Struct { ident, span, has_members } => {
                let kind = DefKind::Struct(StructTy { parent: None, members: Vec::new() });
                let id = self.alloc_definition(clone_ident(ident), kind, *span);
                if *has_members {
                    self.mark_complete(id);
                }
                self.single(id)
            },
            ItemSyntax::Union { ident, span, has_fields } => {
                let disc = Disc { annotations: Vec::new(), ty: placeholder_type(*span) };
                let kind = DefKind::Union(UnionTy { disc, variants: Vec::new() });
                let id = self.alloc_definition(clone_ident(ident), kind, *span);
                if *has_fields {
                    self.mark_complete(id);
                }
                self.single(id)
            },
            ItemSyntax::Enum { ident, span } => {
                let kind = DefKind::Enum(EnumTy { fields: Vec::new(), ty: PrimitiveTy::UInt32 });
                let id = self.alloc_definition(clone_ident(ident), kind, *span);
                self.single(id)
            },
            ItemSyntax::Except { ident, span, has_members } => {
                let kind = DefKind::Except(ExceptTy { members: Vec::new() });
                let id = self.alloc_definition(clone_ident(ident), kind, *span);
                if *has_members {
                    self.mark_complete(id);
                }
                self.single(id)
            },
            ItemSyntax::Bitmask { ident, span } => {
                let kind = DefKind::Bitmask(BitmaskTy { flags: Vec::new(), ty: PrimitiveTy::UInt32 });
                let id = self.alloc_definition(clone_ident(ident), kind, *span);
                self.single(id)
            },
            ItemSyntax::Const { ident, span } => {
                let kind = DefKind::Const(ConstTy { value: Numeric::Null, ty: placeholder_type(*span) });
                let id = self.alloc_definition(clone_ident(ident), kind, *span);
                self.single(id)
            },
            ItemSyntax::Decl { ident, span, kind } => {
                let id = self.alloc_definition(clone_ident(ident), DefKind::Decl(*kind), *span);
                self.single(id)
            },
            ItemSyntax::Alias { names, span } => {
                let mut ids: Vec<DefId> = Vec::new();
                let mut k: usize = 0;
                while k < names.len()
                    invariant
                        0 <= k <= names@.len(),
                        *item == (ItemSyntax::Alias { names: *names, span: *span }),
                        self.wf(),
                        self.named(),
                        self.frames() == old(self).frames(),
                        n0 == old(self).defs().len(),
                        d0 == old(self).diags(),
                        n0 + names@.len() <= usize::MAX,
                        self.defs().len() == n0 + k,
                        forall|j: int| 0 <= j < n0 ==> self.defs()[j] == old(self).defs()[j],
                        ids@.len() == k,
                        forall|q: int| 0 <= q < k ==> ids@[q] == n0 + q,
                        forall|q: int|
                            0 <= q < k ==> {
                                let d = #[trigger] self.defs()[n0 + q];
                                &&& d.id == n0 + q
                                &&& d.parent == old(self).parent()
                                &&& d.ident == names@[q]
                                &&& d.span == *span
                                &&& d.flags.bits == IS_EMIT
                                &&& d.kind is Alias
                            },
                        self.order() == old(self).order(),
                        spec_grows(d0, self.diags()),
                    decreases names@.len() - k,
                {
                    let ghost before = self.defs();
                    let ghost dbefore = self.diags();
                    let kind = DefKind::Alias(AliasTy { ty: placeholder_type(*span) });
                    let id = self.alloc_definition(clone_ident(&names[k]), kind, *span);
                    ids.push(id);
                    proof {
                        assert forall|q: int| 0 <= q < k + 1 implies {
                            let d = #[trigger] self.defs()[n0 + q];
                            &&& d.id == n0 + q
                            &&& d.parent == old(self).parent()
                            &&& d.ident == names@[q]
                            &&& d.span == *span
                            &&& d.flags.bits == IS_EMIT
                            &&& d.kind is Alias
                        } by {
                            if q < k {
                                assert(self.defs()[n0 + q] == before[n0 + q]);
                            }
                        }
                    }
                    k += 1;
                }
                ids
            },
            ItemSyntax::Bitset => Vec::new(),
        }
    }

    /// Appends definitions to the top-level order.
    fn extend_order(&mut self, ids: &Vec<DefId>)
        ensures
            final(self).order() == old(self).order() + ids@,
            final(self).defs() == old(self).defs(),
            final(self).frames() == old(self).frames(),
            final(self).diags() == old(self).diags(),
            final(self).wf() == old(self).wf(),
            final(self).named() == old(self).named(),
    {
        let ghost o0 = self.order@;
        let mut k: usize = 0;
        while k < ids.len()
            invariant
                0 <= k <= ids@.len(),
                self.order@ == o0 + ids@.subrange(0, k as int),
                self.ctx == old(self).ctx,
                self.names == old(self).names,
                self.scope_stack == old(self).scope_stack,
                self.errors == old(self).errors,
            decreases ids@.len() - k,
        {
            self.order.push(ids[k]);
            proof {
                assert(self.order@ =~= o0 + ids@.subrange(0, k + 1));
            }
            k += 1;
        }
        assert(ids@.subrange(0, k as int) =~= ids@);
        assert forall|n: Seq<char>| self.lookup(n) == old(self).lookup(n) by {}
    }

    /// The context holding the definitions collected so far.
    pub fn context(&self) -> (r: &Context)
        ensures
            r.definitions@ == self.defs(),
    {
        &self.ctx
    }

    /// The errors reported so far.
    pub fn error_list(&self) -> (r: &Vec<Diag>)
        ensures
            spec_diag_views(r@) == self.diags(),
    {
        &self.errors
    }

    /// A list holding `id` alone.
    fn single(&self, id: DefId) -> (ids: Vec<DefId>)
        ensures
            ids@ == seq![id],
    {
        let mut ids = Vec::new();
        ids.push(id);
        proof {
            assert(ids@ =~= seq![id]);
        }
        ids
    }

    /// Marks definition `id` complete.
    fn mark_complete(&mut self, id: DefId)
        requires
            old(self).wf(),
            old(self).named(),
            id < old(self).defs().len(),
            old(self).defs()[id as int].flags.bits == IS_INCOMPLETE,
        ensures
            final(self).wf(),
            final(self).named(),
            final(self).frames() == old(self).frames(),
            final(self).defs() == old(self).defs().update(
                id as int,
                Def { flags: DefFlags { bits: 0 }, ..old(self).defs()[id as int] },
            ),
            final(self).order() == old(self).order(),
            final(self).diags() == old(self).diags(),
            forall|n: Seq<char>| final(self).lookup(n) == old(self).lookup(n),
    {
        let d = self.ctx.definitions.remove(id);
        let Def { id: did, ident, parent, annotations, span, kind, flags } = d;
        let b = flags.bits;
        assert(b == IS_INCOMPLETE ==> b & !IS_INCOMPLETE == 0u32) by (bit_vector);
        self.ctx.definitions.insert(
            id,
            Def { id: did, ident, parent, annotations, span, kind, flags: DefFlags { bits: b & !IS_INCOMPLETE } },
        );
        assert(self.ctx.definitions@ =~= old(self).ctx.definitions@.update(
            id as int,
            Def { flags: DefFlags { bits: 0 }, ..old(self).ctx.definitions@[id as int] },
        ));
        proof {
            let d0 = old(self).defs();
            let d1 = self.defs();
            assert forall|j: int| 0 <= j < d0.len() implies (#[trigger] d1[j]).ident == d0[j].ident && d1[j].parent
                == d0[j].parent && d1[j].span == d0[j].span && (d1[j].kind is Decl) == (d0[j].kind is Decl) by {}
            assert forall|n: Seq<char>| self.lookup(n) == old(self).lookup(n) by {}
            Self::lemma_same_named(*old(self), *self);
        }
    }

    /// Collects the definitions of the items nested in the scope of
    /// definition `id` and gives those they make at this level, in order.
    fn collect_nested(&mut self, items: &Vec<ItemSyntax>, id: DefId) -> (children: Vec<DefId>)
        requires
            old(self).wf(),
            old(self).named(),
            old(self).defs().len() + spec_total_items(items@) <= usize::MAX,
            old(self).parent() == Some(id),
            id < old(self).defs().len(),
        ensures
            final(self).wf(),
            final(self).named(),
            final(self).frames() == old(self).frames(),
            final(self).defs().len() == old(self).defs().len() + spec_total_items(items@),
            forall|j: int| 0 <= j < old(self).defs().len() ==> final(self).defs()[j] == old(self).defs()[j],
            children@.len() == spec_count_items(items@),
            forall|c: int|
                0 <= c < children@.len() ==> {
                    let cid = #[trigger] children@[c];
                    &&& old(self).defs().len() <= cid < final(self).defs().len()
                    &&& final(self).defs()[cid as int].parent == Some(id)
                },
            final(self).order() == old(self).order(),
            spec_grows(old(self).diags(), final(self).diags()),
        decreases items, 1nat,
    {
        let ghost n0 = self.defs().len();
        let ghost d0 = self.diags();
        let mut children: Vec<DefId> = Vec::new();
        let mut i: usize = 0;
        while i < items.len()
            invariant
                0 <= i <= items@.len(),
                self.wf(),
                self.named(),
                self.frames() == old(self).frames(),
                self.parent() == Some(id),
                id < n0,
                n0 == old(self).defs().len(),
                d0 == old(self).diags(),
                n0 + spec_total_items(items@) <= usize::MAX,
                self.defs().len() == n0 + spec_total_items(items@.subrange(0, i as int)),
                forall|j: int| 0 <= j < n0 ==> self.defs()[j] == old(self).defs()[j],
                children@.len() == spec_count_items(items@.subrange(0, i as int)),
                forall|c: int|
                    0 <= c < children@.len() ==> {
                        let cid = #[trigger] children@[c];
                        &&& n0 <= cid < self.defs().len()
                        &&& self.defs()[cid as int].parent == Some(id)
                    },
                self.order() == old(self).order(),
                spec_grows(d0, self.diags()),
            decreases items@.len() - i,
        {
            proof {
                lemma_total_prefix(items@, i + 1);
                let p = items@.subrange(0, i + 1);
                assert(p.drop_last() =~= items@.subrange(0, i as int));
                assert(p.last() == items@[i as int]);
            }
            let ghost before = self.defs();
            let ghost dbefore = self.diags();
            let ids = self.collect_item(&items[i]);
            let mut k: usize = 0;
            let ghost c0 = children@;
            while k < ids.len()
                invariant
                    0 <= k <= ids@.len(),
                    children@ == c0 + ids@.subrange(0, k as int),
                decreases ids@.len() - k,
            {
                children.push(ids[k]);
                proof {
                    assert(children@ =~= c0 + ids@.subrange(0, k + 1));
                }
                k += 1;
            }
            proof {
                assert(ids@.subrange(0, k as int) =~= ids@);
                assert forall|c: int| 0 <= c < children@.len() implies {
                    let cid = #[trigger] children@[c];
                    &&& n0 <= cid < self.defs().len()
                    &&& self.defs()[cid as int].parent == Some(id)
                } by {
                    if c < c0.len() {
                        assert(children@[c] == c0[c]);
                        assert(self.defs()[c0[c] as int] == before[c0[c] as int]);
                    } else {
                        let k2 = c - c0.len();
                        assert(children@[c] == ids@[k2]);
                        assert(self.defs()[ids@[k2] as int].parent == Some(id));
                    }
                }
            }
            i += 1;
        }
        proof {
            assert(items@.subrange(0, i as int) =~= items@);
        }
        children
    }
}

} // verus!

verus! {

/// Collects the definitions of a syntax tree's top-level items: the
/// context holding every definition made, the qualified names recorded
/// (each with its definition), the top-level definitions in order, and the
/// errors reported.
pub fn collect_definitions(items: &Vec<ItemSyntax>) -> (r: (Context, Vec<(String, DefId)>, Vec<DefId>, Vec<Diag>))
    requires
        spec_total_items(items@) <= usize::MAX,
    ensures
        r.0.definitions@.len() == spec_total_items(items@),
        r.2@.len() == spec_count_items(items@),
        forall|k: int|
            0 <= k < r.2@.len() ==> r.2@[k] < r.0.definitions@.len() && (#[trigger] r.0.definitions@[r.2@[k] as int]).parent
                is None,
        forall|i: int| 0 <= i < r.1@.len() ==> (#[trigger] r.1@[i]).1 < r.0.definitions@.len(),
        forall|n: Seq<char>|
            #[trigger] spec_name_lookup(r.1@, n) == spec_table(r.0.definitions@, r.0.definitions@.len() as int, n),
        spec_diag_views(r.3@) == spec_dup_errors(r.0.definitions@, r.0.definitions@.len() as int),
{
    let mut c = NameCollector::new();
    let mut i: usize = 0;
    while i < items.len()
        invariant
            0 <= i <= items@.len(),
            c.wf(),
            c.named(),
            c.frames() == seq![("<global>"@, None::<DefId>)],
            spec_total_items(items@) <= usize::MAX,
            c.defs().len() == spec_total_items(items@.subrange(0, i as int)),
            c.order().len() == spec_count_items(items@.subrange(0, i as int)),
            forall|k: int|
                0 <= k < c.order().len() ==> c.order()[k] < c.defs().len() && (#[trigger] c.defs()[c.order()[k] as int]).parent
                    is None,
        decreases items@.len() - i,
    {
        proof {
            lemma_total_prefix(items@, i + 1);
            let p = items@.subrange(0, i + 1);
            assert(p.drop_last() =~= items@.subrange(0, i as int));
        }
        let ghost before = c.defs();
        let ghost o0 = c.order();
        let ids = c.collect_item(&items[i]);
        c.extend_order(&ids);
        proof {
            assert forall|q: int| 0 <= q < c.order().len() implies c.order()[q] < c.defs().len()
                && (#[trigger] c.defs()[c.order()[q] as int]).parent is None by {
                if q < o0.len() {
                    assert(c.order()[q] == o0[q]);
                    assert(c.defs()[o0[q] as int] == before[o0[q] as int]);
                } else {
                    let k2 = q - o0.len();
                    assert(c.order()[q] == ids@[k2]);
                    assert(c.defs()[ids@[k2] as int].parent == None::<DefId>);
                }
            }
        }
        i += 1;
    }
    proof {
        assert(items@.subrange(0, i as int) =~= items@);
        assert forall|n: Seq<char>| #[trigger] spec_name_lookup(c.names@, n) == spec_table(
            c.ctx.definitions@,
            c.ctx.definitions@.len() as int,
            n,
        ) by {
            assert(c.lookup(n) == spec_table(c.defs(), c.defs().len() as int, n));
        }
    }
    let NameCollector { ctx, names, scope_stack: _, order, errors } = c;
    (ctx, names, order, errors)
}

} // verus!
