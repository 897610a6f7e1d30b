//! Step-by-step construction of definitions.

use vstd::prelude::*;
use crate::hir::{Ann, Def, DefFlags, DefId, DefKind, Ident, IS_BUILTIN, IS_INCOMPLETE, Span};

verus! {

/// The id a definition has until it is allocated: it names no definition.
pub const UNALLOCATED: DefId = usize::MAX;

/// A definition under construction.
pub struct DefBuilder {
    id: DefId,
    ident: Ident,
    parent: Option<DefId>,
    annotations: Vec<Ann>,
    span: Span,
    kind: Option<DefKind>,
    flags: DefFlags,
}

impl DefBuilder {
    pub closed spec fn spec_id(&self) -> DefId {
        self.id
    }

    pub closed spec fn spec_ident(&self) -> Ident {
        self.ident
    }

    pub closed spec fn spec_parent(&self) -> Option<DefId> {
        self.parent
    }

    pub closed spec fn spec_annotations(&self) -> Seq<Ann> {
        self.annotations@
    }

    pub closed spec fn spec_span(&self) -> Span {
        self.span
    }

    pub closed spec fn spec_kind(&self) -> Option<DefKind> {
        self.kind
    }

    pub closed spec fn spec_flags(&self) -> DefFlags {
        self.flags
    }

    /// A builder for a definition named `ident`, with no parent, no
    /// annotations, an empty span, no kind yet and the default flags.
    pub fn new(ident: Ident) -> (b: Self)
        ensures
            b.spec_id() == UNALLOCATED,
            b.spec_ident() == ident,
            b.spec_parent() is None,
            b.spec_annotations() == Seq::<Ann>::empty(),
            b.spec_span() == (Span { start: 0, end: 0 }),
            b.spec_kind() is None,
            b.spec_flags().bits == crate::hir::IS_EMIT,
    {
        DefBuilder {
            id: UNALLOCATED,
            ident,
            parent: None,
            annotations: Vec::new(),
            span: Span { start: 0, end: 0 },
            kind: None,
            flags: DefFlags::default(),
        }
    }

    /// Sets the span.
    pub fn span(self, span: Span) -> (b: Self)
        ensures
            b.spec_id() == self.spec_id(),
            b.spec_ident() == self.spec_ident(),
            b.spec_parent() == self.spec_parent(),
            b.spec_annotations() == self.spec_annotations(),
            b.spec_span() == span,
            b.spec_kind() == self.spec_kind(),
            b.spec_flags() == self.spec_flags(),
    {
        DefBuilder { span, ..self }
    }

    /// Sets the parent definition.
    pub fn parent(self, parent: Option<DefId>) -> (b: Self)
        ensures
            b.spec_id() == self.spec_id(),
            b.spec_ident() == self.spec_ident(),
            b.spec_parent() == parent,
            b.spec_annotations() == self.spec_annotations(),
            b.spec_span() == self.spec_span(),
            b.spec_kind() == self.spec_kind(),
            b.spec_flags() == self.spec_flags(),
    {
        DefBuilder { parent, ..self }
    }

    /// Sets the annotations.
    pub fn annotations(self, annotations: Vec<Ann>) -> (b: Self)
        ensures
            b.spec_id() == self.spec_id(),
            b.spec_ident() == self.spec_ident(),
            b.spec_parent() == self.spec_parent(),
            b.spec_annotations() == annotations@,
            b.spec_span() == self.spec_span(),
            b.spec_kind() == self.spec_kind(),
            b.spec_flags() == self.spec_flags(),
    {
        DefBuilder { annotations, ..self }
    }

    /// Sets the definition kind.
    pub fn kind(self, kind: DefKind) -> (b: Self)
        ensures
            b.spec_id() == self.spec_id(),
            b.spec_ident() == self.spec_ident(),
            b.spec_parent() == self.spec_parent(),
            b.spec_annotations() == self.spec_annotations(),
            b.spec_span() == self.spec_span(),
            b.spec_kind() == Some(kind),
            b.spec_flags() == self.spec_flags(),
    {
        DefBuilder { kind: Some(kind), ..self }
    }

    /// Adds a flag to the definition.
    pub fn flag(self, flag: DefFlags) -> (b: Self)
        ensures
            b.spec_id() == self.spec_id(),
            b.spec_ident() == self.spec_ident(),
            b.spec_parent() == self.spec_parent(),
            b.spec_annotations() == self.spec_annotations(),
            b.spec_span() == self.spec_span(),
            b.spec_kind() == self.spec_kind(),
            b.spec_flags() == (DefFlags { bits: self.spec_flags().bits | flag.bits }),
    {
        let bits = self.flags.bits | flag.bits;
        DefBuilder { flags: DefFlags { bits }, ..self }
    }

    /// Sets all flags of the definition.
    pub fn flags(self, flags: DefFlags) -> (b: Self)
        ensures
            b.spec_id() == self.spec_id(),
            b.spec_ident() == self.spec_ident(),
            b.spec_parent() == self.spec_parent(),
            b.spec_annotations() == self.spec_annotations(),
            b.spec_span() == self.spec_span(),
            b.spec_kind() == self.spec_kind(),
            b.spec_flags() == flags,
    {
        DefBuilder { flags, ..self }
    }

    /// Marks the definition as incomplete (forward declaration).
    pub fn incomplete(self) -> (b: Self)
        ensures
            b.spec_id() == self.spec_id(),
            b.spec_ident() == self.spec_ident(),
            b.spec_parent() == self.spec_parent(),
            b.spec_annotations() == self.spec_annotations(),
            b.spec_span() == self.spec_span(),
            b.spec_kind() == self.spec_kind(),
            b.spec_flags() == (DefFlags { bits: self.spec_flags().bits | IS_INCOMPLETE }),
    {
        let bits = self.flags.bits | IS_INCOMPLETE;
        DefBuilder { flags: DefFlags { bits }, ..self }
    }

    /// Marks the definition as built in.
    pub fn builtin(self) -> (b: Self)
        ensures
            b.spec_id() == self.spec_id(),
            b.spec_ident() == self.spec_ident(),
            b.spec_parent() == self.spec_parent(),
            b.spec_annotations() == self.spec_annotations(),
            b.spec_span() == self.spec_span(),
            b.spec_kind() == self.spec_kind(),
            b.spec_flags() == (DefFlags { bits: self.spec_flags().bits | IS_BUILTIN }),
    {
        let bits = self.flags.bits | IS_BUILTIN;
        DefBuilder { flags: DefFlags { bits }, ..self }
    }

    /// Builds the definition; its kind must have been set.
    pub fn build(self) -> (d: Def)
        requires
            self.spec_kind() is Some,
        ensures
            d.id == self.spec_id(),
            d.ident == self.spec_ident(),
            d.parent == self.spec_parent(),
            d.annotations@ == self.spec_annotations(),
            d.span == self.spec_span(),
            d.kind == self.spec_kind().unwrap(),
            d.flags == self.spec_flags(),
    {
        let DefBuilder { id, ident, parent, annotations, span, kind, flags } = self;
        let kind = match kind {
            Some(k) => k,
            None => {
                assert(false);
                DefKind::Decl(crate::hir::Decl::Native)
            },
        };
        Def { id, ident, parent, annotations, span, kind, flags }
    }

    /// Builds the definition with a specific id.
    pub fn build_with_id(self, id: DefId) -> (d: Def)
        requires
            self.spec_kind() is Some,
        ensures
            d.id == id,
            d.ident == self.spec_ident(),
            d.parent == self.spec_parent(),
            d.annotations@ == self.spec_annotations(),
            d.span == self.spec_span(),
            d.kind == self.spec_kind().unwrap(),
            d.flags == self.spec_flags(),
    {
        DefBuilder { id, ..self }.build()
    }
}

} // verus!
