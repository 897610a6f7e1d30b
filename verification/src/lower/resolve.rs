//! Resolution of type names written with the IDL4 explicit-width spellings.

use vstd::prelude::*;
use crate::ctx::Context;
use crate::diag::{Diag, DiagView, Severity, diag, spec_diag, spec_diag_views, spec_with_label};
use crate::hir::{
    Ann, Attribute, Def, DefFlags, DefId, DefKind, Ident, IS_EMIT, IS_INCOMPLETE, Member, PrimitiveTy, ProtoTy, Span, Spanned,
    Ty, TyKind, ValueTy, clone_ty,
};
use crate::text::{lemma_first_index, lemma_first_index_is, owned, spec_first_index};
use crate::text::str_eq;

verus! {

/// The primitive type a type name spells, if it spells one.
pub open spec fn spec_resolve_primitive(name: Seq<char>) -> Option<PrimitiveTy> {
    if name == "void"@ {
        Some(PrimitiveTy::Void)
    } else if name == "boolean"@ {
        Some(PrimitiveTy::Bool)
    } else if name == "octet"@ {
        Some(PrimitiveTy::UInt8)
    } else if name == "uint8"@ {
        Some(PrimitiveTy::UInt8)
    } else if name == "int8"@ {
        Some(PrimitiveTy::Int8)
    } else if name == "int16"@ {
        Some(PrimitiveTy::Int16)
    } else if name == "uint16"@ {
        Some(PrimitiveTy::UInt16)
    } else if name == "int32"@ {
        Some(PrimitiveTy::Int32)
    } else if name == "uint32"@ {
        Some(PrimitiveTy::UInt32)
    } else if name == "int64"@ {
        Some(PrimitiveTy::Int64)
    } else if name == "uint64"@ {
        Some(PrimitiveTy::UInt64)
    } else if name == "char"@ {
        Some(PrimitiveTy::Char)
    } else if name == "wchar"@ {
        Some(PrimitiveTy::WChar)
    } else if name == "float"@ {
        Some(PrimitiveTy::Float32)
    } else if name == "double"@ {
        Some(PrimitiveTy::Float64)
    } else if name == "long double"@ {
        Some(PrimitiveTy::Float128)
    } else {
        None
    }
}

/// Map a primitive type name (IDL4 spellings) to its type.
pub fn resolve_primitive(name: &str) -> (r: Option<PrimitiveTy>)
    ensures
        r == spec_resolve_primitive(name@),
{
    if str_eq(name, "void") {
        Some(PrimitiveTy::Void)
    } else if str_eq(name, "boolean") {
        Some(PrimitiveTy::Bool)
    } else if str_eq(name, "octet") {
        Some(PrimitiveTy::UInt8)
    } else if str_eq(name, "uint8") {
        Some(PrimitiveTy::UInt8)
    } else if str_eq(name, "int8") {
        Some(PrimitiveTy::Int8)
    } else if str_eq(name, "int16") {
        Some(PrimitiveTy::Int16)
    } else if str_eq(name, "uint16") {
        Some(PrimitiveTy::UInt16)
    } else if str_eq(name, "int32") {
        Some(PrimitiveTy::Int32)
    } else if str_eq(name, "uint32") {
        Some(PrimitiveTy::UInt32)
    } else if str_eq(name, "int64") {
        Some(PrimitiveTy::Int64)
    } else if str_eq(name, "uint64") {
        Some(PrimitiveTy::UInt64)
    } else if str_eq(name, "char") {
        Some(PrimitiveTy::Char)
    } else if str_eq(name, "wchar") {
        Some(PrimitiveTy::WChar)
    } else if str_eq(name, "float") {
        Some(PrimitiveTy::Float32)
    } else if str_eq(name, "double") {
        Some(PrimitiveTy::Float64)
    } else if str_eq(name, "long double") {
        Some(PrimitiveTy::Float128)
    } else {
        None
    }
}

/// The definition a user-defined type names, if it is one.
pub fn as_adt(ty: &Ty) -> (r: Option<DefId>)
    ensures
        r == (match ty.kind {
            TyKind::Adt(id) => Some(id),
            _ => None,
        }),
{
    match &ty.kind {
        TyKind::Adt(id) => Some(*id),
        _ => None,
    }
}

} // verus!

verus! {

/// A scoped name as written: optionally rooted at the global scope, and
/// its `::`-separated segments.
pub struct SyntaxPath {
    pub leading_colons: bool,
    pub segments: Vec<String>,
}

/// Names joined with `::`.
pub open spec fn spec_join_colons(s: Seq<Seq<char>>) -> Seq<char>
    decreases s.len(),
{
    if s.len() == 0 {
        Seq::empty()
    } else if s.len() == 1 {
        s[0]
    } else {
        spec_join_colons(s.drop_last()) + "::"@ + s.last()
    }
}

/// The text of a path as written.
pub open spec fn spec_path_text(path: SyntaxPath) -> Seq<char> {
    (if path.leading_colons { "::"@ } else { Seq::empty() }) + spec_join_colons(
        path.segments@.map_values(|s: String| s@),
    )
}

/// Converts a path to its text.
pub fn path_to_string(path: &SyntaxPath) -> (r: String)
    ensures
        r@ == spec_path_text(*path),
{
    let ghost segs = path.segments@.map_values(|s: String| s@);
    let mut joined = crate::text::owned("");
    let mut i: usize = 0;
    proof {
        reveal_strlit("");
        assert(segs.subrange(0, 0) =~= Seq::<Seq<char>>::empty());
    }
    while i < path.segments.len()
        invariant
            0 <= i <= path.segments@.len(),
            segs == path.segments@.map_values(|s: String| s@),
            joined@ == spec_join_colons(segs.subrange(0, i as int)),
        decreases path.segments@.len() - i,
    {
        proof {
            let p = segs.subrange(0, i + 1);
            assert(p.drop_last() =~= segs.subrange(0, i as int));
            assert(p.last() == path.segments@[i as int]@);
            if i == 0 {
                assert(p =~= seq![path.segments@[0]@]);
            }
        }
        if i > 0 {
            joined.append("::");
        }
        joined.append(path.segments[i].as_str());
        proof {
            if i == 0 {
                reveal_strlit("");
                assert(joined@ =~= path.segments@[0]@);
            }
        }
        i += 1;
    }
    proof {
        assert(segs.subrange(0, i as int) =~= segs);
    }
    let mut result = if path.leading_colons {
        crate::text::owned("::")
    } else {
        crate::text::owned("")
    };
    proof {
        reveal_strlit("");
    }
    result.append(joined.as_str());
    result
}

} // verus!

verus! {

/// A type as written, with what lowering needs from outside it already
/// worked out: each bound evaluated (with the span it was written at), and
/// for a named type the definition its path was looked up to, if any.
#[derive(Debug)]
pub enum TypeSyntax {
    Any(Span),
    Fixed(Span),
    Sequence { ty: Box<TypeSyntax>, bound: Option<(usize, Span)>, span: Span },
    String { wide: bool, bound: Option<(usize, Span)>, span: Span },
    Mapping { key: Box<TypeSyntax>, value: Box<TypeSyntax>, bound: Option<(usize, Span)>, span: Span },
    Path { first: Ident, span: Span, resolved: Option<DefId> },
}

/// The primitive type the first segment of a written path names: the
/// spellings of [`spec_resolve_primitive`] but `void`.
pub open spec fn spec_path_primitive(name: Seq<char>) -> Option<PrimitiveTy> {
    if name == "void"@ {
        None
    } else {
        spec_resolve_primitive(name)
    }
}

/// The bound of a written type and the span it was written at.
pub open spec fn spec_bound_parts(b: Option<(usize, Span)>) -> (Option<usize>, Option<Span>) {
    match b {
        Some((v, s)) => (Some(v), Some(s)),
        None => (None, None),
    }
}

/// The HIR type of a written type: a path whose first segment names a
/// primitive type is that primitive, at that segment's span; any other path
/// is the definition it was looked up to (or any type, when the lookup found
/// nothing), at the span of the whole path.
pub open spec fn spec_lower_type(t: TypeSyntax) -> Ty
    decreases t,
{
    match t {
        TypeSyntax::Any(span) => Ty { span, kind: TyKind::Any },
        TypeSyntax::Fixed(span) => Ty { span, kind: TyKind::Fixed },
        TypeSyntax::Sequence { ty, bound, span } => Ty {
            span,
            kind: TyKind::Sequence {
                ty: Box::new(spec_lower_type(*ty)),
                bound: spec_bound_parts(bound).0,
                bound_span: spec_bound_parts(bound).1,
            },
        },
        TypeSyntax::String { wide, bound, span } => Ty {
            span,
            kind: TyKind::String { wide, bound: spec_bound_parts(bound).0, bound_span: spec_bound_parts(bound).1 },
        },
        TypeSyntax::Mapping { key, value, bound, span } => Ty {
            span,
            kind: TyKind::Mapping {
                key: Box::new(spec_lower_type(*key)),
                elem: Box::new(spec_lower_type(*value)),
                bound: spec_bound_parts(bound).0,
                bound_span: spec_bound_parts(bound).1,
            },
        },
        TypeSyntax::Path { first, span, resolved } => match spec_path_primitive(first.name@) {
            Some(p) => Ty { span: first.span, kind: TyKind::Primitive(p) },
            None => match resolved {
                Some(id) => Ty { span, kind: TyKind::Adt(id) },
                None => Ty { span, kind: TyKind::Any },
            },
        },
    }
}

fn bound_parts(b: &Option<(usize, Span)>) -> (r: (Option<usize>, Option<Span>))
    ensures
        r == spec_bound_parts(*b),
{
    match b {
        Some((v, s)) => (Some(*v), Some(*s)),
        None => (None, None),
    }
}

/// Lowers a written type to its HIR type (see [`spec_lower_type`]).
pub fn lower_type(t: &TypeSyntax) -> (r: Ty)
    ensures
        r == spec_lower_type(*t),
    decreases t,
{
    match t {
        TypeSyntax::Any(span) => Ty { span: *span, kind: TyKind::Any },
        TypeSyntax::Fixed(span) => Ty { span: *span, kind: TyKind::Fixed },
        TypeSyntax::Sequence { ty, bound, span } => {
            let inner = lower_type(ty);
            let (b, bs) = bound_parts(bound);
            Ty { span: *span, kind: TyKind::Sequence { ty: Box::new(inner), bound: b, bound_span: bs } }
        },
        TypeSyntax::String { wide, bound, span } => {
            let (b, bs) = bound_parts(bound);
            Ty { span: *span, kind: TyKind::String { wide: *wide, bound: b, bound_span: bs } }
        },
        TypeSyntax::Mapping { key, value, bound, span } => {
            let k = lower_type(key);
            let v = lower_type(value);
            let (b, bs) = bound_parts(bound);
            Ty { span: *span, kind: TyKind::Mapping { key: Box::new(k), elem: Box::new(v), bound: b, bound_span: bs } }
        },
        TypeSyntax::Path { first, span, resolved } => {
            let prim = if str_eq(first.name.as_str(), "void") {
                None
            } else {
                resolve_primitive(first.name.as_str())
            };
            match prim {
                Some(p) => Ty { span: first.span, kind: TyKind::Primitive(p) },
                None => match resolved {
                    Some(id) => Ty { span: *span, kind: TyKind::Adt(*id) },
                    None => Ty { span: *span, kind: TyKind::Any },
                },
            }
        },
    }
}

} // verus!

verus! {

/// A path as written, with the definition looking it up found, if any.
#[derive(Debug)]
pub struct PathRef {
    pub resolved: Option<DefId>,
    pub span: Span,
}

/// The header of a value type as written: its name, where it was written,
/// its annotations (already resolved), and the value type it inherits from
/// and the interface it supports, as looked up.
#[derive(Debug)]
pub struct ValuetypeSyntax {
    pub ident: Ident,
    pub span: Span,
    pub annotations: Vec<Ann>,
    pub inherits: Option<PathRef>,
    pub supports: Option<PathRef>,
}

/// Whether a definition is marked incomplete (declared ahead only).
pub open spec fn spec_is_incomplete(d: Def) -> bool {
    d.flags.bits & IS_INCOMPLETE == IS_INCOMPLETE
}

/// Whether `d` is a complete value type named `name`.
pub open spec fn spec_complete_valuetype_named(name: Seq<char>) -> spec_fn(Def) -> bool {
    |d: Def| d.ident.name@ == name && !spec_is_incomplete(d) && d.kind is Valuetype
}

/// The base a value type inherits from: the definition found, when it is a
/// complete value type; for a forward declaration, the first complete value
/// type of the same name; otherwise none.
pub open spec fn spec_vt_base(defs: Seq<Def>, def: ValuetypeSyntax) -> Option<Spanned> {
    match def.inherits {
        Some(p) => match p.resolved {
            Some(b) => if spec_is_incomplete(defs[b as int]) {
                match spec_first_index(defs, spec_complete_valuetype_named(defs[b as int].ident.name@)) {
                    Some(i) => Some(Spanned { def_id: i as DefId, span: p.span }),
                    None => None,
                }
            } else if defs[b as int].kind is Valuetype {
                Some(Spanned { def_id: b, span: p.span })
            } else {
                None
            },
            None => None,
        },
        None => None,
    }
}

/// The interface a value type supports: the definition found, when it is an
/// interface.
pub open spec fn spec_vt_supports(defs: Seq<Def>, def: ValuetypeSyntax) -> Option<Spanned> {
    match def.supports {
        Some(p) => match p.resolved {
            Some(s) => if defs[s as int].kind is Interface {
                Some(Spanned { def_id: s, span: p.span })
            } else {
                None
            },
            None => None,
        },
        None => None,
    }
}

/// What resolving a value type's header reports: a base that is not
/// defined, only declared ahead with no definition, or not a value type;
/// then a supported interface that is not defined or not an interface.
pub open spec fn spec_valuetype_errors(defs: Seq<Def>, def: ValuetypeSyntax) -> Seq<DiagView> {
    let name = def.ident.name@;
    let base: Seq<DiagView> = match def.inherits {
        Some(p) => match p.resolved {
            Some(b) => if spec_is_incomplete(defs[b as int]) {
                if spec_first_index(defs, spec_complete_valuetype_named(defs[b as int].ident.name@)) is Some {
                    seq![]
                } else {
                    seq![
                        spec_with_label(
                            spec_diag(
                                Severity::Error,
                                "valuetype `"@ + name + "` cannot inherit from incomplete type `"@
                                    + defs[b as int].ident.name@ + "`"@,
                                def.span,
                                "invalid inheritance"@,
                            ),
                            defs[b as int].ident.span,
                            "forward declaration here, but no definition found"@,
                        ),
                    ]
                }
            } else if defs[b as int].kind is Valuetype {
                seq![]
            } else {
                seq![
                    spec_diag(
                        Severity::Error,
                        "valuetype `"@ + name + "` cannot inherit from non-valuetype type `"@
                            + defs[b as int].ident.name@ + "`"@,
                        def.span,
                        "invalid inheritance"@,
                    ),
                ]
            },
            None => seq![
                spec_diag(
                    Severity::Error,
                    "valuetype `"@ + name + "` inherits from type that is not defined"@,
                    p.span,
                    "undefined type"@,
                ),
            ],
        },
        None => seq![],
    };
    let sup: Seq<DiagView> = match def.supports {
        Some(p) => match p.resolved {
            Some(s) => if defs[s as int].kind is Interface {
                seq![]
            } else {
                seq![
                    spec_diag(
                        Severity::Error,
                        "valuetype `"@ + name + "` cannot support non-interface type `"@
                            + defs[s as int].ident.name@ + "`"@,
                        p.span,
                        "not an interface"@,
                    ),
                ]
            },
            None => seq![
                spec_diag(
                    Severity::Error,
                    "valuetype `"@ + name + "` supports interface that is not defined"@,
                    p.span,
                    "undefined interface"@,
                ),
            ],
        },
        None => seq![],
    };
    base + sup
}

/// Whether every definition a header's paths were looked up to exists.
pub open spec fn spec_refs_in(defs: Seq<Def>, def: ValuetypeSyntax) -> bool {
    &&& (def.inherits matches Some(p) ==> (p.resolved matches Some(b) ==> b < defs.len()))
    &&& (def.supports matches Some(p) ==> (p.resolved matches Some(s) ==> s < defs.len()))
}

fn first_complete_valuetype(defs: &Vec<Def>, name: &str) -> (r: Option<usize>)
    ensures
        r matches Some(i) ==> spec_first_index(defs@, spec_complete_valuetype_named(name@)) == Some(i as int) && i
            < defs@.len(),
        r is None ==> spec_first_index(defs@, spec_complete_valuetype_named(name@)) is None,
{
    let ghost p = spec_complete_valuetype_named(name@);
    let mut i: usize = 0;
    while i < defs.len()
        invariant
            0 <= i <= defs@.len(),
            p == spec_complete_valuetype_named(name@),
            forall|j: int| 0 <= j < i ==> !p(#[trigger] defs@[j]),
        decreases defs@.len() - i,
    {
        let d = &defs[i];
        let hit = str_eq(d.ident.name.as_str(), name) && !d.flags.contains(DefFlags { bits: IS_INCOMPLETE })
            && match &d.kind {
            DefKind::Valuetype(_) => true,
            _ => false,
        };
        if hit {
            proof {
                lemma_first_index_is(defs@, p, i as int);
            }
            return Some(i);
        }
        i += 1;
    }
    proof {
        lemma_first_index(defs@, p);
    }
    None
}

fn vt_message(prefix: &str, name: &str, middle: &str, other: &str) -> (r: String)
    ensures
        r@ == prefix@ + name@ + middle@ + other@ + "`"@,
{
    let mut m = owned(prefix);
    m.append(name);
    m.append(middle);
    m.append(other);
    m.append("`");
    m
}

/// Resolves the header of a value type in the scope of definition
/// `parent`: checks what it inherits from and what it supports (see
/// [`spec_vt_base`], [`spec_vt_supports`], [`spec_valuetype_errors`]) and
/// allocates its definition, with no members, operations, attributes or
/// nested definitions yet and the default flags.
pub fn resolve_valuetype(ctx: &mut Context, errors: &mut Vec<Diag>, def: ValuetypeSyntax, parent: Option<DefId>) -> (id: DefId)
    requires
        old(ctx).definitions@.len() < usize::MAX,
        spec_refs_in(old(ctx).definitions@, def),
    ensures
        id == old(ctx).definitions@.len(),
        final(ctx).definitions@ == old(ctx).definitions@.push(final(ctx).definitions@[id as int]),
        ({
            let d = final(ctx).definitions@[id as int];
            &&& d.id == id && d.ident == def.ident && d.parent == parent && d.annotations == def.annotations
            &&& d.span == def.span && d.flags.bits == IS_EMIT
            &&& d.kind matches DefKind::Valuetype(v) && v.parent == spec_vt_base(old(ctx).definitions@, def)
                && v.supports == spec_vt_supports(old(ctx).definitions@, def) && v.prototypes@.len() == 0
                && v.attributes@.len() == 0 && v.members@.len() == 0 && v.definitions@.len() == 0
        }),
        spec_diag_views(final(errors)@) == spec_diag_views(old(errors)@) + spec_valuetype_errors(
            old(ctx).definitions@,
            def,
        ),
{
    let ghost defs0 = ctx.definitions@;
    let ghost e0 = spec_diag_views(errors@);
    let ghost gdef = def;
    let ValuetypeSyntax { ident, span, annotations, inherits, supports } = def;
    let base: Option<Spanned> = match &inherits {
        Some(p) => match p.resolved {
            Some(b) => {
                let bd = &ctx.definitions[b];
                if bd.flags.contains(DefFlags { bits: IS_INCOMPLETE }) {
                    match first_complete_valuetype(&ctx.definitions, bd.ident.name.as_str()) {
                        Some(i) => {
                            proof {
                                assert(spec_diag_views(errors@) =~= e0 + seq![]);
                            }
                            Some(Spanned { def_id: i, span: p.span })
                        },
                        None => {
                            let msg = vt_message(
                                "valuetype `",
                                ident.name.as_str(),
                                "` cannot inherit from incomplete type `",
                                bd.ident.name.as_str(),
                            );
                            let d = diag(Severity::Error, msg, span, owned("invalid inheritance")).label(
                                bd.ident.span,
                                owned("forward declaration here, but no definition found"),
                            );
                            errors.push(d);
                            proof {
                                assert(spec_diag_views(errors@) =~= e0 + seq![d@]);
                            }
                            None
                        },
                    }
                } else if match &bd.kind {
                    DefKind::Valuetype(_) => true,
                    _ => false,
                } {
                    proof {
                        assert(spec_diag_views(errors@) =~= e0 + seq![]);
                    }
                    Some(Spanned { def_id: b, span: p.span })
                } else {
                    let msg = vt_message(
                        "valuetype `",
                        ident.name.as_str(),
                        "` cannot inherit from non-valuetype type `",
                        bd.ident.name.as_str(),
                    );
                    let d = diag(Severity::Error, msg, span, owned("invalid inheritance"));
                    errors.push(d);
                    proof {
                        assert(spec_diag_views(errors@) =~= e0 + seq![d@]);
                    }
                    None
                }
            },
            None => {
                let mut msg = owned("valuetype `");
                msg.append(ident.name.as_str());
                msg.append("` inherits from type that is not defined");
                let d = diag(Severity::Error, msg, p.span, owned("undefined type"));
                errors.push(d);
                proof {
                    assert(spec_diag_views(errors@) =~= e0 + seq![d@]);
                }
                None
            },
        },
        None => {
            proof {
                assert(spec_diag_views(errors@) =~= e0 + seq![]);
            }
            None
        },
    };
    let ghost e1 = spec_diag_views(errors@);
    let sup: Option<Spanned> = match &supports {
        Some(p) => match p.resolved {
            Some(s) => {
                let sd = &ctx.definitions[s];
                if match &sd.kind {
                    DefKind::Interface(_) => true,
                    _ => false,
                } {
                    proof {
                        assert(spec_diag_views(errors@) =~= e1 + seq![]);
                    }
                    Some(Spanned { def_id: s, span: p.span })
                } else {
                    let msg = vt_message(
                        "valuetype `",
                        ident.name.as_str(),
                        "` cannot support non-interface type `",
                        sd.ident.name.as_str(),
                    );
                    let d = diag(Severity::Error, msg, p.span, owned("not an interface"));
                    errors.push(d);
                    proof {
                        assert(spec_diag_views(errors@) =~= e1 + seq![d@]);
                    }
                    None
                }
            },
            None => {
                let mut msg = owned("valuetype `");
                msg.append(ident.name.as_str());
                msg.append("` supports interface that is not defined");
                let d = diag(Severity::Error, msg, p.span, owned("undefined interface"));
                errors.push(d);
                proof {
                    assert(spec_diag_views(errors@) =~= e1 + seq![d@]);
                }
                None
            },
        },
        None => {
            proof {
                assert(spec_diag_views(errors@) =~= e1 + seq![]);
            }
            None
        },
    };
    proof {
        assert(spec_diag_views(errors@) =~= e0 + spec_valuetype_errors(defs0, gdef));
    }
    let id = ctx.definitions.len();
    let kind = DefKind::Valuetype(ValueTy {
        parent: base,
        supports: sup,
        prototypes: Vec::new(),
        attributes: Vec::new(),
        members: Vec::new(),
        definitions: Vec::new(),
    });
    ctx.definitions.push(Def { id, ident, parent, annotations, span, kind, flags: DefFlags { bits: IS_EMIT } });
    id
}

} // verus!

verus! {

/// A declarator of a state member as written.
#[derive(Debug)]
pub enum DeclaratorSyntax {
    Simple(Ident),
    Array(Ident),
}

/// An element of a value type's body, its own parts already resolved: the
/// definitions a nested item made, a state member (public or not, its
/// type, its declarators), an operation, or an attribute.
#[derive(Debug)]
pub enum ValueElement {
    Item(Vec<DefId>),
    State { is_public: bool, ty: Ty, decls: Vec<DeclaratorSyntax> },
    Proto(ProtoTy),
    Attr(Attribute),
}

/// The names declared simply (not as arrays) by a list of declarators.
pub open spec fn spec_simple_names(decls: Seq<DeclaratorSyntax>) -> Seq<Ident>
    decreases decls.len(),
{
    if decls.len() == 0 {
        seq![]
    } else {
        spec_simple_names(decls.drop_last()) + match decls.last() {
            DeclaratorSyntax::Simple(i) => seq![i],
            DeclaratorSyntax::Array(_) => seq![],
        }
    }
}

/// The members of a value type, in order: each simply declared name of a
/// public state member, with that member's type.
pub open spec fn spec_vt_members(els: Seq<ValueElement>) -> Seq<(Ident, Ty)>
    decreases els.len(),
{
    if els.len() == 0 {
        seq![]
    } else {
        spec_vt_members(els.drop_last()) + match els.last() {
            ValueElement::State { is_public, ty, decls } => if is_public {
                spec_simple_names(decls@).map_values(|i: Ident| (i, ty))
            } else {
                seq![]
            },
            _ => seq![],
        }
    }
}

/// The operations of a value type, in order.
pub open spec fn spec_vt_protos(els: Seq<ValueElement>) -> Seq<ProtoTy>
    decreases els.len(),
{
    if els.len() == 0 {
        seq![]
    } else {
        spec_vt_protos(els.drop_last()) + match els.last() {
            ValueElement::Proto(p) => seq![p],
            _ => seq![],
        }
    }
}

/// The attributes of a value type, in order.
pub open spec fn spec_vt_attrs(els: Seq<ValueElement>) -> Seq<Attribute>
    decreases els.len(),
{
    if els.len() == 0 {
        seq![]
    } else {
        spec_vt_attrs(els.drop_last()) + match els.last() {
            ValueElement::Attr(a) => seq![a],
            _ => seq![],
        }
    }
}

/// The definitions nested in a value type, in order.
pub open spec fn spec_vt_children(els: Seq<ValueElement>) -> Seq<DefId>
    decreases els.len(),
{
    if els.len() == 0 {
        seq![]
    } else {
        spec_vt_children(els.drop_last()) + match els.last() {
            ValueElement::Item(ids) => ids@,
            _ => seq![],
        }
    }
}

/// Whether `m` holds, in order, members with the given names and types and
/// no annotations.
pub open spec fn spec_members_are(m: Seq<Member>, parts: Seq<(Ident, Ty)>) -> bool {
    &&& m.len() == parts.len()
    &&& forall|i: int|
        0 <= i < m.len() ==> (#[trigger] m[i]).ident == parts[i].0 && m[i].ty == parts[i].1 && m[i].annotations@.len()
            == 0
}

/// Fills in the body of value type `id` (see [`resolve_valuetype`]) from
/// its elements in declaration order: its nested definitions, its public
/// state members declared simply (array declarators and private state
/// are not members), its operations and its attributes. A definition that
/// is not a value type stays as it is.
pub fn finish_valuetype(ctx: &mut Context, id: DefId, elements: Vec<ValueElement>)
    requires
        id < old(ctx).definitions@.len(),
    ensures
        final(ctx).definitions@.len() == old(ctx).definitions@.len(),
        forall|j: int|
            0 <= j < old(ctx).definitions@.len() && j != id ==> final(ctx).definitions@[j] == old(ctx).definitions@[j],
        ({
            let o = old(ctx).definitions@[id as int];
            let n = final(ctx).definitions@[id as int];
            match o.kind {
                DefKind::Valuetype(v) => {
                    &&& n.id == o.id && n.ident == o.ident && n.parent == o.parent && n.annotations == o.annotations
                    &&& n.span == o.span && n.flags == o.flags
                    &&& n.kind matches DefKind::Valuetype(w) && w.parent == v.parent && w.supports == v.supports
                        && w.definitions@ == spec_vt_children(elements@) && spec_members_are(
                        w.members@,
                        spec_vt_members(elements@),
                    ) && w.prototypes@ == spec_vt_protos(elements@) && w.attributes@ == spec_vt_attrs(elements@)
                },
                _ => n == o,
            }
        }),
{
    let ghost els = elements@;
    let mut rest = elements;
    let mut children: Vec<DefId> = Vec::new();
    let mut members: Vec<Member> = Vec::new();
    let mut protos: Vec<ProtoTy> = Vec::new();
    let mut attrs: Vec<Attribute> = Vec::new();
    let mut k: usize = 0;
    proof {
        assert(els.subrange(0, 0) =~= Seq::<ValueElement>::empty());
        assert(els.len() == rest.len());
    }
    while rest.len() > 0
        invariant
            k + rest@.len() == els.len(),
            els.len() <= usize::MAX,
            rest@ == els.subrange(k as int, els.len() as int),
            children@ == spec_vt_children(els.subrange(0, k as int)),
            spec_members_are(members@, spec_vt_members(els.subrange(0, k as int))),
            protos@ == spec_vt_protos(els.subrange(0, k as int)),
            attrs@ == spec_vt_attrs(els.subrange(0, k as int)),
        decreases rest@.len(),
    {
        let e = rest.remove(0);
        let ghost pre = els.subrange(0, k as int);
        let ghost p = els.subrange(0, k + 1);
        proof {
            assert(e == els[k as int]);
            assert(p.drop_last() =~= pre);
            assert(p.last() == e);
        }
        let ghost m0 = members@;
        match e {
            ValueElement::Item(ids) => {
                let mut j: usize = 0;
                let ghost c0 = children@;
                while j < ids.len()
                    invariant
                        0 <= j <= ids@.len(),
                        children@ == c0 + ids@.subrange(0, j as int),
                    decreases ids@.len() - j,
                {
                    children.push(ids[j]);
                    assert(children@ =~= c0 + ids@.subrange(0, j + 1));
                    j += 1;
                }
                assert(ids@.subrange(0, j as int) =~= ids@);
                assert(spec_vt_members(p) =~= spec_vt_members(pre));
                assert(spec_vt_protos(p) =~= spec_vt_protos(pre));
                assert(spec_vt_attrs(p) =~= spec_vt_attrs(pre));
            },
            ValueElement::State { is_public, ty, decls } => {
                if is_public {
                    let ghost names = spec_simple_names(decls@);
                    let ghost parts0 = spec_vt_members(pre);
                    let mut j: usize = 0;
                    proof {
                        assert(decls@.subrange(0, 0) =~= Seq::<DeclaratorSyntax>::empty());
                    }
                    while j < decls.len()
                        invariant
                            0 <= j <= decls@.len(),
                            spec_members_are(
                                members@,
                                parts0 + spec_simple_names(decls@.subrange(0, j as int)).map_values(|i: Ident| (i, ty)),
                            ),
                        decreases decls@.len() - j,
                    {
                        let ghost q = decls@.subrange(0, j + 1);
                        proof {
                            assert(q.drop_last() =~= decls@.subrange(0, j as int));
                            assert(q.last() == decls@[j as int]);
                        }
                        match &decls[j] {
                            DeclaratorSyntax::Simple(i) => {
                                let ni = Ident { name: i.name.clone(), span: i.span };
                                members.push(Member { ident: ni, ty: clone_ty(&ty), annotations: Vec::new() });
                                proof {
                                    let t = parts0 + spec_simple_names(q).map_values(|i: Ident| (i, ty));
                                    assert(t =~= (parts0 + spec_simple_names(decls@.subrange(0, j as int)).map_values(
                                        |i: Ident| (i, ty),
                                    )).push((*i, ty)));
                                }
                            },
                            DeclaratorSyntax::Array(_) => {
                                proof {
                                    assert(spec_simple_names(q) =~= spec_simple_names(decls@.subrange(0, j as int)));
                                }
                            },
                        }
                        j += 1;
                    }
                    proof {
                        assert(decls@.subrange(0, j as int) =~= decls@);
                        assert(spec_vt_members(p) =~= parts0 + names.map_values(|i: Ident| (i, ty)));
                    }
                } else {
                    assert(spec_vt_members(p) =~= spec_vt_members(pre));
                }
                assert(spec_vt_children(p) =~= spec_vt_children(pre));
                assert(spec_vt_protos(p) =~= spec_vt_protos(pre));
                assert(spec_vt_attrs(p) =~= spec_vt_attrs(pre));
            },
            ValueElement::Proto(pr) => {
                protos.push(pr);
                assert(spec_vt_children(p) =~= spec_vt_children(pre));
                assert(spec_vt_members(p) =~= spec_vt_members(pre));
                assert(spec_vt_attrs(p) =~= spec_vt_attrs(pre));
            },
            ValueElement::Attr(a) => {
                attrs.push(a);
                assert(spec_vt_children(p) =~= spec_vt_children(pre));
                assert(spec_vt_members(p) =~= spec_vt_members(pre));
                assert(spec_vt_protos(p) =~= spec_vt_protos(pre));
            },
        }
        proof {
            assert(rest@ =~= els.subrange(k + 1, els.len() as int));
        }
        k += 1;
    }
    proof {
        assert(els.subrange(0, k as int) =~= els);
    }
    let d = ctx.definitions.remove(id);
    let Def { id: did, ident, parent, annotations, span, kind, flags } = d;
    let kind = match kind {
        DefKind::Valuetype(v) => DefKind::Valuetype(ValueTy {
            parent: v.parent,
            supports: v.supports,
            prototypes: protos,
            attributes: attrs,
            members,
            definitions: children,
        }),
        other => other,
    };
    ctx.definitions.insert(id, Def { id: did, ident, parent, annotations, span, kind, flags });
}

} // verus!
