//! Central registry for managing forward declarations and definitions.

use vstd::prelude::*;
use crate::ctx::Context;
use crate::diag::{Diagnostics, Severity, diag, spec_diag, spec_with_label, spec_diag_views, DiagView};
use crate::hir::{Decl, Def, DefId, Ident, Span};
use crate::text::{owned, spec_first_index, lemma_first_index, lemma_first_index_is, lemma_first_index_push, lemma_first_index_pointwise};

verus! {

/// Index of a scope in the scope tree.
pub type ScopeId = usize;

/// A character with ASCII capitals mapped to lower case.
pub open spec fn spec_ascii_lower_char(c: char) -> char {
    if 'A' <= c && c <= 'Z' {
        ((c as u32) + 32) as char
    } else {
        c
    }
}

/// A string with ASCII capitals mapped to lower case; other characters
/// unchanged.
pub open spec fn spec_ascii_lower(s: Seq<char>) -> Seq<char> {
    s.map_values(|c: char| spec_ascii_lower_char(c))
}

/// `str::to_ascii_lowercase`: a copy of the string in which ASCII letters
/// 'A' to 'Z' are mapped to 'a' to 'z' and every other character is
/// unchanged, as std documents.
#[verifier::external_body]
fn to_ascii_lowercase(s: &str) -> (r: String)
    ensures
        r@ == spec_ascii_lower(s@),
{
    s.to_ascii_lowercase()
}

/// Case-folded name for case-insensitive lookup.
#[derive(Clone, Debug, PartialEq, Eq, Hash)]
pub struct NameKey(String);

impl View for NameKey {
    type V = Seq<char>;

    closed spec fn view(&self) -> Seq<char> {
        self.0@
    }
}

impl NameKey {
    pub fn new(name: &str) -> (k: Self)
        ensures
            k@ == spec_ascii_lower(name@),
    {
        NameKey(to_ascii_lowercase(name))
    }

    /// Whether two keys hold the same folded name.
    pub fn same_as(&self, other: &NameKey) -> (r: bool)
        ensures
            r == (self@ == other@),
    {
        self.0 == other.0
    }
}

/// Folding case is idempotent.
pub proof fn lemma_ascii_lower_idempotent(s: Seq<char>)
    ensures
        spec_ascii_lower(spec_ascii_lower(s)) == spec_ascii_lower(s),
{
    assert(spec_ascii_lower(spec_ascii_lower(s)) =~= spec_ascii_lower(s));
}

/// Names that differ only in the case of ASCII letters share a key.
pub proof fn lemma_name_key_case_insensitive(a: Seq<char>, b: Seq<char>)
    requires
        a.len() == b.len(),
        forall|i: int| 0 <= i < a.len() ==> spec_ascii_lower_char(#[trigger] a[i]) == spec_ascii_lower_char(b[i]),
    ensures
        spec_ascii_lower(a) == spec_ascii_lower(b),
{
    assert(spec_ascii_lower(a) =~= spec_ascii_lower(b));
}

/// Tag to distinguish definition kinds in the registry.
#[derive(Clone, Copy, Debug, PartialEq, Eq, Structural, Hash)]
pub enum DefKindTag {
    Struct,
    Union,
    Interface,
    Valuetype,
    Native,
    Enum,
    Bitmask,
    Const,
    Annotation,
}

pub open spec fn spec_def_kind_tag_from_decl(decl: Decl) -> DefKindTag {
    match decl {
        Decl::Struct => DefKindTag::Struct,
        Decl::Union => DefKindTag::Union,
        Decl::Interface => DefKindTag::Interface,
        Decl::Valuetype => DefKindTag::Valuetype,
        Decl::Native => DefKindTag::Native,
    }
}

pub open spec fn spec_decl_type_str(decl: Decl) -> Seq<char> {
    match decl {
        Decl::Struct => "struct"@,
        Decl::Union => "union"@,
        Decl::Interface => "interface"@,
        Decl::Valuetype => "valuetype"@,
        Decl::Native => "native"@,
    }
}

pub open spec fn spec_def_kind_tag_str(kind: DefKindTag) -> Seq<char> {
    match kind {
        DefKindTag::Struct => "struct"@,
        DefKindTag::Union => "union"@,
        DefKindTag::Interface => "interface"@,
        DefKindTag::Valuetype => "valuetype"@,
        DefKindTag::Native => "native"@,
        DefKindTag::Enum => "enum"@,
        DefKindTag::Const => "const"@,
        DefKindTag::Annotation => "annotation"@,
        DefKindTag::Bitmask => "bitmask"@,
    }
}

/// Convert declaration kind to definition kind tag.
fn def_kind_tag_from_decl(decl: Decl) -> (t: DefKindTag)
    ensures
        t == spec_def_kind_tag_from_decl(decl),
{
    match decl {
        Decl::Struct => DefKindTag::Struct,
        Decl::Union => DefKindTag::Union,
        Decl::Interface => DefKindTag::Interface,
        Decl::Valuetype => DefKindTag::Valuetype,
        Decl::Native => DefKindTag::Native,
    }
}

/// Get string representation of a declaration kind.
fn decl_type_str(decl: Decl) -> (s: &'static str)
    ensures
        s@ == spec_decl_type_str(decl),
{
    match decl {
        Decl::Struct => "struct",
        Decl::Union => "union",
        Decl::Interface => "interface",
        Decl::Valuetype => "valuetype",
        Decl::Native => "native",
    }
}

/// Get string representation of a definition kind tag.
fn def_kind_tag_str(kind: DefKindTag) -> (s: &'static str)
    ensures
        s@ == spec_def_kind_tag_str(kind),
{
    match kind {
        DefKindTag::Struct => "struct",
        DefKindTag::Union => "union",
        DefKindTag::Interface => "interface",
        DefKindTag::Valuetype => "valuetype",
        DefKindTag::Native => "native",
        DefKindTag::Enum => "enum",
        DefKindTag::Const => "const",
        DefKindTag::Annotation => "annotation",
        DefKindTag::Bitmask => "bitmask",
    }
}

} // verus!

verus! {

/// Forward declarations recorded under one (scope, folded name).
struct ForwardEntry {
    scope: ScopeId,
    key: NameKey,
    decls: Vec<(Decl, DefId)>,
}

/// The definition recorded under one (scope, folded name).
struct DefinitionEntry {
    scope: ScopeId,
    key: NameKey,
    def_id: DefId,
}

/// A key of the registry: a scope and a case-folded name.
pub type RegistryKey = (ScopeId, Seq<char>);

spec fn fwd_key(e: ForwardEntry) -> RegistryKey {
    (e.scope, e.key@)
}

spec fn def_key(e: DefinitionEntry) -> RegistryKey {
    (e.scope, e.key@)
}

spec fn fwd_match(k: RegistryKey) -> spec_fn(ForwardEntry) -> bool {
    |e: ForwardEntry| fwd_key(e) == k
}

spec fn def_match(k: RegistryKey) -> spec_fn(DefinitionEntry) -> bool {
    |e: DefinitionEntry| def_key(e) == k
}

spec fn fwd_pos(s: Seq<ForwardEntry>, k: RegistryKey) -> Option<int> {
    spec_first_index(s, fwd_match(k))
}

spec fn def_pos(s: Seq<DefinitionEntry>, k: RegistryKey) -> Option<int> {
    spec_first_index(s, def_match(k))
}

spec fn fwd_map(s: Seq<ForwardEntry>) -> Map<RegistryKey, Seq<(Decl, DefId)>> {
    Map::new(|k: RegistryKey| fwd_pos(s, k) is Some, |k: RegistryKey| s[fwd_pos(s, k).unwrap()].decls@)
}

spec fn def_map(s: Seq<DefinitionEntry>) -> Map<RegistryKey, DefId> {
    Map::new(|k: RegistryKey| def_pos(s, k) is Some, |k: RegistryKey| s[def_pos(s, k).unwrap()].def_id)
}

proof fn lemma_fwd_map_push(s: Seq<ForwardEntry>, e: ForwardEntry)
    requires
        fwd_pos(s, fwd_key(e)) is None,
    ensures
        fwd_map(s.push(e)) == fwd_map(s).insert(fwd_key(e), e.decls@),
{
    let t = s.push(e);
    assert forall|k: RegistryKey| #[trigger] fwd_pos(t, k) == (match fwd_pos(s, k) {
        Some(i) => Some(i),
        None => if fwd_match(k)(e) { Some(s.len() as int) } else { None },
    }) by {
        lemma_first_index_push(s, e, fwd_match(k));
    }
    assert forall|k: RegistryKey| fwd_pos(s, k) is Some implies 0 <= fwd_pos(s, k).unwrap() < s.len() && t[fwd_pos(s, k).unwrap()] == s[fwd_pos(s, k).unwrap()] by {
        lemma_first_index(s, fwd_match(k));
    }
    assert(fwd_map(t) =~= fwd_map(s).insert(fwd_key(e), e.decls@));
}

proof fn lemma_fwd_map_update(s: Seq<ForwardEntry>, p: int, e: ForwardEntry)
    requires
        fwd_pos(s, fwd_key(e)) == Some(p),
    ensures
        fwd_map(s.update(p, e)) == fwd_map(s).insert(fwd_key(e), e.decls@),
        forall|i: int| 0 <= i < s.len() ==> fwd_key(#[trigger] s.update(p, e)[i]) == fwd_key(s[i]),
{
    lemma_first_index(s, fwd_match(fwd_key(e)));
    let t = s.update(p, e);
    assert forall|k: RegistryKey| #[trigger] fwd_pos(t, k) == fwd_pos(s, k) by {
        assert forall|i: int| 0 <= i < t.len() implies fwd_match(k)(#[trigger] t[i]) == fwd_match(k)(s[i]) by {
            if i == p {
                assert(fwd_key(t[i]) == fwd_key(s[i]));
            }
        }
        lemma_first_index_pointwise(t, fwd_match(k), s, fwd_match(k));
    }
    assert forall|k: RegistryKey| fwd_pos(s, k) is Some && k != fwd_key(e) implies 0 <= fwd_pos(s, k).unwrap() < s.len() && fwd_pos(s, k).unwrap() != p && t[fwd_pos(s, k).unwrap()] == s[fwd_pos(s, k).unwrap()] by {
        lemma_first_index(s, fwd_match(k));
    }
    assert(fwd_map(t) =~= fwd_map(s).insert(fwd_key(e), e.decls@));
    assert forall|i: int| 0 <= i < s.len() implies fwd_key(#[trigger] t[i]) == fwd_key(s[i]) by {}
}

proof fn lemma_def_map_push(s: Seq<DefinitionEntry>, e: DefinitionEntry)
    requires
        def_pos(s, def_key(e)) is None,
    ensures
        def_map(s.push(e)) == def_map(s).insert(def_key(e), e.def_id),
{
    let t = s.push(e);
    assert forall|k: RegistryKey| #[trigger] def_pos(t, k) == (match def_pos(s, k) {
        Some(i) => Some(i),
        None => if def_match(k)(e) { Some(s.len() as int) } else { None },
    }) by {
        lemma_first_index_push(s, e, def_match(k));
    }
    assert forall|k: RegistryKey| def_pos(s, k) is Some implies 0 <= def_pos(s, k).unwrap() < s.len() && t[def_pos(s, k).unwrap()] == s[def_pos(s, k).unwrap()] by {
        lemma_first_index(s, def_match(k));
    }
    assert(def_map(t) =~= def_map(s).insert(def_key(e), e.def_id));
}

/// Registry of forward declarations and definitions per scope and
/// case-insensitive name.
pub struct DefinitionRegistry {
    forward_decls: Vec<ForwardEntry>,
    definitions: Vec<DefinitionEntry>,
}

impl DefinitionRegistry {
    /// No two entries share a key.
    pub closed spec fn wf(self) -> bool {
        &&& forall|i: int, j: int|
            0 <= i < j < self.forward_decls@.len() ==> fwd_key(#[trigger] self.forward_decls@[i]) != fwd_key(
                #[trigger] self.forward_decls@[j],
            )
        &&& forall|i: int, j: int|
            0 <= i < j < self.definitions@.len() ==> def_key(#[trigger] self.definitions@[i]) != def_key(
                #[trigger] self.definitions@[j],
            )
    }

    /// The forward declarations of each key, in the order they were
    /// registered.
    pub closed spec fn forwards(self) -> Map<RegistryKey, Seq<(Decl, DefId)>> {
        fwd_map(self.forward_decls@)
    }

    /// The definition registered for each key.
    pub closed spec fn defined(self) -> Map<RegistryKey, DefId> {
        def_map(self.definitions@)
    }

    pub fn new() -> (r: Self)
        ensures
            r.wf(),
            r.forwards() == Map::<RegistryKey, Seq<(Decl, DefId)>>::empty(),
            r.defined() == Map::<RegistryKey, DefId>::empty(),
    {
        let r = DefinitionRegistry { forward_decls: Vec::new(), definitions: Vec::new() };
        assert(r.forwards() =~= Map::<RegistryKey, Seq<(Decl, DefId)>>::empty());
        assert(r.defined() =~= Map::<RegistryKey, DefId>::empty());
        r
    }
}

} // verus!

verus! {

impl DefinitionRegistry {
    fn find_forward(&self, scope: ScopeId, key: &NameKey) -> (r: Option<usize>)
        ensures
            r matches Some(i) ==> fwd_pos(self.forward_decls@, (scope, key@)) == Some(i as int),
            r is None ==> fwd_pos(self.forward_decls@, (scope, key@)) is None,
    {
        let ghost k = (scope, key@);
        let mut i: usize = 0;
        while i < self.forward_decls.len()
            invariant
                0 <= i <= self.forward_decls@.len(),
                k == (scope, key@),
                forall|j: int| 0 <= j < i ==> !fwd_match(k)(#[trigger] self.forward_decls@[j]),
            decreases self.forward_decls@.len() - i,
        {
            let e = &self.forward_decls[i];
            if e.scope == scope && e.key.same_as(key) {
                proof {
                    assert(fwd_key(self.forward_decls@[i as int]) == k);
                    assert(fwd_match(k)(self.forward_decls@[i as int]));
                    lemma_first_index_is(self.forward_decls@, fwd_match(k), i as int);
                }
                return Some(i);
            }
            i += 1;
        }
        proof {
            lemma_first_index(self.forward_decls@, fwd_match(k));
        }
        None
    }

    fn find_definition(&self, scope: ScopeId, key: &NameKey) -> (r: Option<usize>)
        ensures
            r matches Some(i) ==> def_pos(self.definitions@, (scope, key@)) == Some(i as int),
            r is None ==> def_pos(self.definitions@, (scope, key@)) is None,
    {
        let ghost k = (scope, key@);
        let mut i: usize = 0;
        while i < self.definitions.len()
            invariant
                0 <= i <= self.definitions@.len(),
                k == (scope, key@),
                forall|j: int| 0 <= j < i ==> !def_match(k)(#[trigger] self.definitions@[j]),
            decreases self.definitions@.len() - i,
        {
            let e = &self.definitions[i];
            if e.scope == scope && e.key.same_as(key) {
                proof {
                    assert(def_key(self.definitions@[i as int]) == k);
                    assert(def_match(k)(self.definitions@[i as int]));
                    lemma_first_index_is(self.definitions@, def_match(k), i as int);
                }
                return Some(i);
            }
            i += 1;
        }
        proof {
            lemma_first_index(self.definitions@, def_match(k));
        }
        None
    }
}

} // verus!

verus! {

/// The key under which `name` is registered in `scope`.
pub open spec fn spec_registry_key(scope: ScopeId, name: Seq<char>) -> RegistryKey {
    (scope, spec_ascii_lower(name))
}

/// The forward declarations recorded under `k`; none when it has none.
pub open spec fn spec_forwards_of(fwd: Map<RegistryKey, Seq<(Decl, DefId)>>, k: RegistryKey) -> Seq<(Decl, DefId)> {
    if fwd.contains_key(k) {
        fwd[k]
    } else {
        Seq::empty()
    }
}

/// Whether a recorded forward declaration is of kind `kind`.
pub open spec fn spec_decl_is(kind: Decl) -> spec_fn((Decl, DefId)) -> bool {
    |p: (Decl, DefId)| p.0 == kind
}

/// The error reported when a name already forward declared as `first` is
/// forward declared again as `kind`.
pub open spec fn spec_forward_kind_conflict(
    name: Seq<char>,
    new_span: Span,
    first: Decl,
    first_span: Span,
    kind: Decl,
) -> DiagView {
    spec_with_label(
        spec_diag(
            Severity::Error,
            "`"@ + name + "` forward declared as both "@ + spec_decl_type_str(first) + " and "@ + spec_decl_type_str(kind),
            first_span,
            "first forward declared as "@ + spec_decl_type_str(first) + " here"@,
        ),
        new_span,
        "forward declared as "@ + spec_decl_type_str(kind) + " here"@,
    )
}

impl DefinitionRegistry {
    /// Register a forward declaration of `name` in `scope`.
    ///
    /// A repeated forward declaration of the same kind yields the id of the
    /// first one of that kind. One of another kind than those already
    /// recorded is recorded, reported as an error, and yields `None`.
    pub fn register_forward_decl(
        &mut self,
        scope: ScopeId,
        name: &Ident,
        kind: Decl,
        def_id: DefId,
        diagnostics: &mut Diagnostics,
        context: &Context,
    ) -> (r: Option<DefId>)
        requires
            old(self).wf(),
            ({
                let fs = spec_forwards_of(old(self).forwards(), spec_registry_key(scope, name.name@));
                fs.len() > 0 && spec_first_index(fs, spec_decl_is(kind)) is None ==> fs[0].1
                    < context.definitions@.len()
            }),
        ensures
            final(self).wf(),
            final(self).defined() == old(self).defined(),
            ({
                let k = spec_registry_key(scope, name.name@);
                let fs = spec_forwards_of(old(self).forwards(), k);
                match spec_first_index(fs, spec_decl_is(kind)) {
                    Some(i) => {
                        &&& r == Some(fs[i].1)
                        &&& final(self).forwards() == old(self).forwards()
                        &&& *final(diagnostics) == *old(diagnostics)
                    },
                    None => {
                        &&& final(self).forwards() == old(self).forwards().insert(k, fs.push((kind, def_id)))
                        &&& fs.len() == 0 ==> r == Some(def_id) && *final(diagnostics) == *old(diagnostics)
                        &&& fs.len() > 0 ==> {
                            &&& r is None
                            &&& final(diagnostics).warnings@ == old(diagnostics).warnings@
                            &&& final(diagnostics).errors@.drop_last() == old(diagnostics).errors@
                            &&& final(diagnostics).errors@.len() == old(diagnostics).errors@.len() + 1
                            &&& final(diagnostics).errors@.last()@ == spec_forward_kind_conflict(
                                name.name@,
                                name.span,
                                fs[0].0,
                                context.definitions@[fs[0].1 as int].ident.span,
                                kind,
                            )
                        }
                    },
                }
            }),
    {
        let key = NameKey::new(&name.name);
        let ghost k = spec_registry_key(scope, name.name@);
        let ghost fs = spec_forwards_of(self.forwards(), k);
        match self.find_forward(scope, &key) {
            None => {
                let mut decls: Vec<(Decl, DefId)> = Vec::new();
                decls.push((kind, def_id));
                let e = ForwardEntry { scope, key, decls };
                proof {
                    assert(fwd_key(e) == k);
                    lemma_fwd_map_push(self.forward_decls@, e);
                    lemma_first_index(self.forward_decls@, fwd_match(k));
                    assert(fs == Seq::<(Decl, DefId)>::empty());
                    assert(e.decls@ =~= fs.push((kind, def_id)));
                    assert(spec_first_index(fs, spec_decl_is(kind)) is None);
                }
                self.forward_decls.push(e);
                proof {
                    assert forall|i: int, j: int|
                        0 <= i < j < self.forward_decls@.len() implies fwd_key(#[trigger] self.forward_decls@[i])
                        != fwd_key(#[trigger] self.forward_decls@[j]) by {
                        if j == self.forward_decls@.len() - 1 {
                            assert(!fwd_match(k)(old(self).forward_decls@[i]));
                        }
                    }
                }
                Some(def_id)
            },
            Some(p) => {
                proof {
                    lemma_first_index(self.forward_decls@, fwd_match(k));
                    assert(fs == self.forward_decls@[p as int].decls@);
                }
                let n = self.forward_decls[p].decls.len();
                let mut j: usize = 0;
                while j < n
                    invariant
                        0 <= j <= n,
                        *self == *old(self),
                        *diagnostics == *old(diagnostics),
                        old(self).wf(),
                        k == spec_registry_key(scope, name.name@),
                        fs == spec_forwards_of(old(self).forwards(), k),
                        p < self.forward_decls@.len(),
                        n == fs.len(),
                        fs == self.forward_decls@[p as int].decls@,
                        forall|m: int| 0 <= m < j ==> !spec_decl_is(kind)(#[trigger] fs[m]),
                    decreases n - j,
                {
                    let pair = self.forward_decls[p].decls[j];
                    if pair.0 == kind {
                        proof {
                            lemma_first_index_is(fs, spec_decl_is(kind), j as int);
                        }
                        return Some(pair.1);
                    }
                    j += 1;
                }
                proof {
                    lemma_first_index(fs, spec_decl_is(kind));
                }
                if n > 0 {
                    let first = self.forward_decls[p].decls[0];
                    let first_span = context.definitions[first.1].ident.span;
                    let a = decl_type_str(first.0);
                    let b = decl_type_str(kind);
                    let mut msg = owned("`");
                    msg.append(name.name.as_str());
                    msg.append("` forward declared as both ");
                    msg.append(a);
                    msg.append(" and ");
                    msg.append(b);
                    let mut first_label = owned("first forward declared as ");
                    first_label.append(a);
                    first_label.append(" here");
                    let mut new_label = owned("forward declared as ");
                    new_label.append(b);
                    new_label.append(" here");
                    let d = diag(Severity::Error, msg, first_span, first_label).label(name.span, new_label);
                    diagnostics.errors.push(d);
                }
                let ghost old_entries = self.forward_decls@;
                self.forward_decls[p].decls.push((kind, def_id));
                proof {
                    let e = self.forward_decls@[p as int];
                    assert(self.forward_decls@ == old_entries.update(p as int, e));
                    assert(fwd_key(e) == k);
                    lemma_fwd_map_update(old_entries, p as int, e);
                    assert(e.decls@ == fs.push((kind, def_id)));
                    assert forall|a: int, b: int|
                        0 <= a < b < self.forward_decls@.len() implies fwd_key(#[trigger] self.forward_decls@[a])
                        != fwd_key(#[trigger] self.forward_decls@[b]) by {
                        assert(fwd_key(self.forward_decls@[a]) == fwd_key(old_entries[a]));
                        assert(fwd_key(self.forward_decls@[b]) == fwd_key(old_entries[b]));
                    }
                }
                if n > 0 {
                    None
                } else {
                    Some(def_id)
                }
            },
        }
    }
}

} // verus!

verus! {

/// The error reported when `name` is defined a second time in a scope.
pub open spec fn spec_duplicate_definition(name: Seq<char>, new_span: Span, original_span: Span) -> DiagView {
    spec_with_label(
        spec_diag(Severity::Error, "duplicate definition of `"@ + name + "`"@, original_span, "originally defined here"@),
        new_span,
        "redefined here"@,
    )
}

/// The error reported when `name`, forward declared as `decl`, is defined
/// as a `kind`.
pub open spec fn spec_forward_definition_conflict(
    name: Seq<char>,
    new_span: Span,
    decl: Decl,
    decl_span: Span,
    kind: DefKindTag,
) -> DiagView {
    spec_with_label(
        spec_diag(
            Severity::Error,
            "forward declaration of `"@ + name + "` as "@ + spec_decl_type_str(decl) + " conflicts with "@
                + spec_def_kind_tag_str(kind) + " definition"@,
            decl_span,
            "forward declared as "@ + spec_decl_type_str(decl) + " here"@,
        ),
        new_span,
        "defined as "@ + spec_def_kind_tag_str(kind) + " here"@,
    )
}

/// Whether a forward declaration does not match a definition of `kind`.
pub open spec fn spec_mismatched(kind: DefKindTag) -> spec_fn((Decl, DefId)) -> bool {
    |p: (Decl, DefId)| spec_def_kind_tag_from_decl(p.0) != kind
}

/// The errors reported, in order, for the forward declarations `fs` whose
/// kind does not match a definition of `kind`.
pub open spec fn spec_mismatch_errors(
    fs: Seq<(Decl, DefId)>,
    name: Seq<char>,
    new_span: Span,
    kind: DefKindTag,
    defs: Seq<Def>,
) -> Seq<DiagView>
    decreases fs.len(),
{
    if fs.len() == 0 {
        Seq::empty()
    } else {
        let rest = spec_mismatch_errors(fs.drop_last(), name, new_span, kind, defs);
        let p = fs.last();
        if spec_mismatched(kind)(p) {
            rest.push(spec_forward_definition_conflict(name, new_span, p.0, defs[p.1 as int].ident.span, kind))
        } else {
            rest
        }
    }
}

impl DefinitionRegistry {
    /// Register a definition of `name` in `scope`.
    ///
    /// A second definition of a name is reported and yields `None`. A first
    /// definition is recorded, and each forward declaration of the name of
    /// another kind is reported.
    pub fn register_definition(
        &mut self,
        scope: ScopeId,
        name: &Ident,
        kind: DefKindTag,
        def_id: DefId,
        diagnostics: &mut Diagnostics,
        context: &Context,
    ) -> (r: Option<DefId>)
        requires
            old(self).wf(),
            ({
                let k = spec_registry_key(scope, name.name@);
                let fs = spec_forwards_of(old(self).forwards(), k);
                &&& old(self).defined().contains_key(k) ==> old(self).defined()[k] < context.definitions@.len()
                &&& !old(self).defined().contains_key(k) ==> forall|j: int|
                    0 <= j < fs.len() && spec_mismatched(kind)(#[trigger] fs[j]) ==> fs[j].1
                        < context.definitions@.len()
            }),
        ensures
            final(self).wf(),
            final(self).forwards() == old(self).forwards(),
            final(diagnostics).warnings@ == old(diagnostics).warnings@,
            ({
                let k = spec_registry_key(scope, name.name@);
                let fs = spec_forwards_of(old(self).forwards(), k);
                if old(self).defined().contains_key(k) {
                    &&& r is None
                    &&& final(self).defined() == old(self).defined()
                    &&& spec_diag_views(final(diagnostics).errors@) == spec_diag_views(old(diagnostics).errors@).push(
                        spec_duplicate_definition(
                            name.name@,
                            name.span,
                            context.definitions@[old(self).defined()[k] as int].ident.span,
                        ),
                    )
                } else {
                    &&& r == Some(def_id)
                    &&& final(self).defined() == old(self).defined().insert(k, def_id)
                    &&& spec_diag_views(final(diagnostics).errors@) == spec_diag_views(old(diagnostics).errors@)
                        + spec_mismatch_errors(fs, name.name@, name.span, kind, context.definitions@)
                }
            }),
    {
        let key = NameKey::new(&name.name);
        let ghost k = spec_registry_key(scope, name.name@);
        let ghost fs = spec_forwards_of(self.forwards(), k);
        proof {
            lemma_first_index(self.definitions@, def_match(k));
            lemma_first_index(self.forward_decls@, fwd_match(k));
        }
        if let Some(q) = self.find_definition(scope, &key) {
            let existing = self.definitions[q].def_id;
            let original_span = context.definitions[existing].ident.span;
            let mut msg = owned("duplicate definition of `");
            msg.append(name.name.as_str());
            msg.append("`");
            let d = diag(Severity::Error, msg, original_span, owned("originally defined here")).label(
                name.span,
                owned("redefined here"),
            );
            let ghost before = diagnostics.errors@;
            diagnostics.errors.push(d);
            proof {
                assert(spec_diag_views(diagnostics.errors@) =~= spec_diag_views(before).push(d@));
            }
            return None;
        }
        if let Some(p) = self.find_forward(scope, &key) {
            let n = self.forward_decls[p].decls.len();
            let mut j: usize = 0;
            while j < n
                invariant
                    0 <= j <= n,
                    *self == *old(self),
                    k == spec_registry_key(scope, name.name@),
                    fs == spec_forwards_of(old(self).forwards(), k),
                    !old(self).defined().contains_key(k),
                    p < self.forward_decls@.len(),
                    n == fs.len(),
                    fs == self.forward_decls@[p as int].decls@,
                    forall|m: int|
                        0 <= m < fs.len() && spec_mismatched(kind)(#[trigger] fs[m]) ==> fs[m].1
                            < context.definitions@.len(),
                    diagnostics.warnings@ == old(diagnostics).warnings@,
                    spec_diag_views(diagnostics.errors@) == spec_diag_views(old(diagnostics).errors@)
                        + spec_mismatch_errors(fs.subrange(0, j as int), name.name@, name.span, kind, context.definitions@),
                decreases n - j,
            {
                let pair = self.forward_decls[p].decls[j];
                let expected = def_kind_tag_from_decl(pair.0);
                let ghost before = diagnostics.errors@;
                proof {
                    assert(fs.subrange(0, j + 1).drop_last() =~= fs.subrange(0, j as int));
                    assert(fs.subrange(0, j + 1).last() == fs[j as int]);
                }
                if expected != kind {
                    let decl_span = context.definitions[pair.1].ident.span;
                    let a = decl_type_str(pair.0);
                    let b = def_kind_tag_str(kind);
                    let mut msg = owned("forward declaration of `");
                    msg.append(name.name.as_str());
                    msg.append("` as ");
                    msg.append(a);
                    msg.append(" conflicts with ");
                    msg.append(b);
                    msg.append(" definition");
                    let mut decl_label = owned("forward declared as ");
                    decl_label.append(a);
                    decl_label.append(" here");
                    let mut def_label = owned("defined as ");
                    def_label.append(b);
                    def_label.append(" here");
                    let d = diag(Severity::Error, msg, decl_span, decl_label).label(name.span, def_label);
                    diagnostics.errors.push(d);
                    proof {
                        assert(spec_diag_views(diagnostics.errors@) =~= spec_diag_views(before).push(d@));
                    }
                }
                j += 1;
            }
            proof {
                assert(fs.subrange(0, n as int) =~= fs);
            }
        } else {
            proof {
                assert(fs =~= Seq::<(Decl, DefId)>::empty());
                assert(spec_diag_views(diagnostics.errors@) =~= spec_diag_views(old(diagnostics).errors@)
                    + spec_mismatch_errors(fs, name.name@, name.span, kind, context.definitions@));
            }
        }
        let e = DefinitionEntry { scope, key, def_id };
        proof {
            assert(def_key(e) == k);
            lemma_def_map_push(self.definitions@, e);
        }
        self.definitions.push(e);
        proof {
            assert forall|i: int, j: int|
                0 <= i < j < self.definitions@.len() implies def_key(#[trigger] self.definitions@[i]) != def_key(
                #[trigger] self.definitions@[j],
            ) by {
                if j == self.definitions@.len() - 1 {
                    assert(!def_match(k)(old(self).definitions@[i]));
                }
            }
        }
        Some(def_id)
    }
}

} // verus!

verus! {

/// Whether `d` is the id of a forward declaration recorded under `k`.
pub open spec fn spec_declared_under(fwd: Map<RegistryKey, Seq<(Decl, DefId)>>, k: RegistryKey, d: DefId) -> bool {
    &&& fwd.contains_key(k)
    &&& exists|j: int| 0 <= j < fwd[k].len() && (#[trigger] fwd[k][j]).1 == d
}

spec fn entry_declares(s: Seq<ForwardEntry>, a: int, d: DefId) -> bool {
    exists|j: int| 0 <= j < s[a].decls@.len() && (#[trigger] s[a].decls@[j]).1 == d
}

spec fn prefix_declares(s: Seq<ForwardEntry>, defs: Map<RegistryKey, DefId>, i: int, d: DefId) -> bool {
    exists|a: int| 0 <= a < i && defs.contains_key(fwd_key(s[a])) && #[trigger] entry_declares(s, a, d)
}

impl DefinitionRegistry {
    proof fn lemma_entry_key(self, a: int)
        requires
            self.wf(),
            0 <= a < self.forward_decls@.len(),
        ensures
            fwd_pos(self.forward_decls@, fwd_key(self.forward_decls@[a])) == Some(a),
            self.forwards().contains_key(fwd_key(self.forward_decls@[a])),
            self.forwards()[fwd_key(self.forward_decls@[a])] == self.forward_decls@[a].decls@,
    {
        let s = self.forward_decls@;
        let k = fwd_key(s[a]);
        assert forall|b: int| 0 <= b < a implies !fwd_match(k)(#[trigger] s[b]) by {
            assert(fwd_key(s[b]) != fwd_key(s[a]));
        }
        lemma_first_index_is(s, fwd_match(k), a);
    }

    proof fn lemma_key_entry(self, k: RegistryKey)
        requires
            self.forwards().contains_key(k),
        ensures
            fwd_pos(self.forward_decls@, k) matches Some(a) && 0 <= a < self.forward_decls@.len() && fwd_key(
                self.forward_decls@[a],
            ) == k && self.forwards()[k] == self.forward_decls@[a].decls@,
    {
        lemma_first_index(self.forward_decls@, fwd_match(k));
    }

    /// Each forward declaration that has a definition of its name in the
    /// same scope, mapped to that definition.
    pub fn get_forward_to_def_mapping(&self) -> (r: std::collections::HashMap<DefId, DefId>)
        requires
            self.wf(),
        ensures
            forall|d: DefId|
                r@.contains_key(d) <==> exists|k: RegistryKey|
                    #[trigger] spec_declared_under(self.forwards(), k, d) && self.defined().contains_key(k),
            forall|d: DefId|
                r@.contains_key(d) ==> exists|k: RegistryKey|
                    #[trigger] spec_declared_under(self.forwards(), k, d) && self.defined().contains_key(k) && r@[d]
                        == self.defined()[k],
    {
        broadcast use vstd::std_specs::hash::group_hash_axioms;

        let ghost s = self.forward_decls@;
        let ghost defs = self.defined();
        let mut mapping: std::collections::HashMap<DefId, DefId> = std::collections::HashMap::new();
        let mut i: usize = 0;
        while i < self.forward_decls.len()
            invariant
                0 <= i <= s.len(),
                s == self.forward_decls@,
                defs == self.defined(),
                forall|d: DefId| mapping@.contains_key(d) <==> prefix_declares(s, defs, i as int, d),
                forall|d: DefId|
                    mapping@.contains_key(d) ==> exists|a: int|
                        0 <= a < i && defs.contains_key(fwd_key(s[a])) && #[trigger] entry_declares(s, a, d)
                            && mapping@[d] == defs[fwd_key(s[a])],
            decreases s.len() - i,
        {
            let entry = &self.forward_decls[i];
            if let Some(q) = self.find_definition(entry.scope, &entry.key) {
                proof {
                    lemma_first_index(self.definitions@, def_match((entry.scope, entry.key@)));
                }
                let target = self.definitions[q].def_id;
                proof {
                    assert(fwd_key(s[i as int]) == (entry.scope, entry.key@));
                    assert(defs.contains_key(fwd_key(s[i as int])));
                    assert(defs[fwd_key(s[i as int])] == target);
                }
                let n = entry.decls.len();
                let mut j: usize = 0;
                while j < n
                    invariant
                        0 <= j <= n,
                        i < s.len(),
                        s == self.forward_decls@,
                        *entry == s[i as int],
                        n == entry.decls@.len(),
                        defs.contains_key(fwd_key(s[i as int])),
                        defs[fwd_key(s[i as int])] == target,
                        forall|d: DefId|
                            mapping@.contains_key(d) <==> prefix_declares(s, defs, i as int, d) || exists|m: int|
                                0 <= m < j && (#[trigger] entry.decls@[m]).1 == d,
                        forall|d: DefId|
                            mapping@.contains_key(d) ==> (exists|a: int|
                                0 <= a < i && defs.contains_key(fwd_key(s[a])) && #[trigger] entry_declares(s, a, d)
                                    && mapping@[d] == defs[fwd_key(s[a])]) || ((exists|m: int|
                                0 <= m < j && (#[trigger] entry.decls@[m]).1 == d) && mapping@[d] == target),
                    decreases n - j,
                {
                    let decl_id = entry.decls[j].1;
                    mapping.insert(decl_id, target);
                    proof {
                        assert(entry.decls@[j as int].1 == decl_id);
                    }
                    j += 1;
                }
                proof {
                    assert forall|d: DefId| mapping@.contains_key(d) <==> prefix_declares(s, defs, i + 1, d) by {
                        if mapping@.contains_key(d) && !prefix_declares(s, defs, i as int, d) {
                            let m = choose|m: int| 0 <= m < n && (#[trigger] entry.decls@[m]).1 == d;
                            assert(s[i as int].decls@[m].1 == d);
                            assert(entry_declares(s, i as int, d));
                        }
                        if prefix_declares(s, defs, i + 1, d) && !prefix_declares(s, defs, i as int, d) {
                            let a = choose|a: int|
                                0 <= a < i + 1 && defs.contains_key(fwd_key(s[a])) && #[trigger] entry_declares(s, a, d);
                            assert(a == i);
                            let m = choose|m: int| 0 <= m < s[a].decls@.len() && (#[trigger] s[a].decls@[m]).1 == d;
                            assert(entry.decls@[m].1 == d);
                        }
                    }
                    assert forall|d: DefId| mapping@.contains_key(d) implies exists|a: int|
                        0 <= a < i + 1 && defs.contains_key(fwd_key(s[a])) && #[trigger] entry_declares(s, a, d)
                            && mapping@[d] == defs[fwd_key(s[a])] by {
                        if !(exists|a: int|
                            0 <= a < i && defs.contains_key(fwd_key(s[a])) && #[trigger] entry_declares(s, a, d)
                                && mapping@[d] == defs[fwd_key(s[a])]) {
                            let m = choose|m: int| 0 <= m < n && (#[trigger] entry.decls@[m]).1 == d;
                            assert(s[i as int].decls@[m].1 == d);
                            assert(entry_declares(s, i as int, d));
                        }
                    }
                }
            } else {
                proof {
                    assert(fwd_key(s[i as int]) == (entry.scope, entry.key@));
                    assert(!defs.contains_key(fwd_key(s[i as int])));
                    assert forall|d: DefId| prefix_declares(s, defs, i + 1, d) implies prefix_declares(s, defs, i as int, d) by {
                        let a = choose|a: int|
                            0 <= a < i + 1 && defs.contains_key(fwd_key(s[a])) && #[trigger] entry_declares(s, a, d);
                        assert(a != i);
                    }
                }
            }
            i += 1;
        }
        proof {
            assert forall|d: DefId| mapping@.contains_key(d) <==> exists|k: RegistryKey|
                #[trigger] spec_declared_under(self.forwards(), k, d) && self.defined().contains_key(k) by {
                if mapping@.contains_key(d) {
                    let a = choose|a: int|
                        0 <= a < s.len() && defs.contains_key(fwd_key(s[a])) && #[trigger] entry_declares(s, a, d);
                    self.lemma_entry_key(a);
                    let m = choose|m: int| 0 <= m < s[a].decls@.len() && (#[trigger] s[a].decls@[m]).1 == d;
                    assert(self.forwards()[fwd_key(s[a])][m].1 == d);
                    assert(spec_declared_under(self.forwards(), fwd_key(s[a]), d));
                }
                if exists|k: RegistryKey| #[trigger] spec_declared_under(self.forwards(), k, d) && self.defined().contains_key(k) {
                    let k = choose|k: RegistryKey| #[trigger] spec_declared_under(self.forwards(), k, d) && self.defined().contains_key(k);
                    self.lemma_key_entry(k);
                    let a = fwd_pos(s, k).unwrap();
                    let m = choose|m: int| 0 <= m < self.forwards()[k].len() && (#[trigger] self.forwards()[k][m]).1 == d;
                    assert(s[a].decls@[m].1 == d);
                    assert(entry_declares(s, a, d));
                    assert(prefix_declares(s, defs, s.len() as int, d));
                }
            }
            assert forall|d: DefId| mapping@.contains_key(d) implies exists|k: RegistryKey|
                #[trigger] spec_declared_under(self.forwards(), k, d) && self.defined().contains_key(k) && mapping@[d]
                    == self.defined()[k] by {
                let a = choose|a: int|
                    0 <= a < s.len() && defs.contains_key(fwd_key(s[a])) && #[trigger] entry_declares(s, a, d)
                        && mapping@[d] == defs[fwd_key(s[a])];
                self.lemma_entry_key(a);
                let m = choose|m: int| 0 <= m < s[a].decls@.len() && (#[trigger] s[a].decls@[m]).1 == d;
                assert(self.forwards()[fwd_key(s[a])][m].1 == d);
                assert(spec_declared_under(self.forwards(), fwd_key(s[a]), d));
            }
        }
        mapping
    }
}

} // verus!

verus! {

/// Forward declaring a name again with a kind it was already forward
/// declared as yields the id of that first declaration: after registering
/// `(kind, first)` under a key with no declaration of that kind, a later
/// declaration of the same kind under the same key finds `first`.
pub proof fn lemma_repeat_forward_same_kind(
    fwd: Map<RegistryKey, Seq<(Decl, DefId)>>,
    k: RegistryKey,
    kind: Decl,
    first: DefId,
)
    requires
        spec_first_index(spec_forwards_of(fwd, k), spec_decl_is(kind)) is None,
    ensures
        ({
            let after = fwd.insert(k, spec_forwards_of(fwd, k).push((kind, first)));
            let fs = spec_forwards_of(after, k);
            spec_first_index(fs, spec_decl_is(kind)) matches Some(i) && fs[i].1 == first
        }),
{
    let fs0 = spec_forwards_of(fwd, k);
    let fs = fs0.push((kind, first));
    lemma_first_index_push(fs0, (kind, first), spec_decl_is(kind));
    assert(spec_forwards_of(fwd.insert(k, fs), k) == fs);
}

/// Names that differ only in the case of ASCII letters are one name of the
/// registry: once either is defined in a scope, a definition of the other in
/// that scope is a duplicate.
pub proof fn lemma_definition_case_insensitive(
    defined: Map<RegistryKey, DefId>,
    scope: ScopeId,
    a: Seq<char>,
    b: Seq<char>,
    id: DefId,
)
    requires
        a.len() == b.len(),
        forall|i: int| 0 <= i < a.len() ==> spec_ascii_lower_char(#[trigger] a[i]) == spec_ascii_lower_char(b[i]),
    ensures
        defined.insert(spec_registry_key(scope, a), id).contains_key(spec_registry_key(scope, b)),
{
    lemma_name_key_case_insensitive(a, b);
}

/// A definition is registered once and never replaced: registering a name
/// that is already defined in the scope leaves the recorded definition as
/// it was, and registering a new name adds it without touching the others.
pub proof fn lemma_definitions_only_grow(
    before: Map<RegistryKey, DefId>,
    after: Map<RegistryKey, DefId>,
    k: RegistryKey,
    id: DefId,
)
    requires
        after == (if before.contains_key(k) { before } else { before.insert(k, id) }),
    ensures
        forall|k2: RegistryKey| before.contains_key(k2) ==> after.contains_key(k2) && after[k2] == before[k2],
        after.contains_key(k),
{
}

} // verus!
