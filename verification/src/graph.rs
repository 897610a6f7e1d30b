//! The result of resolution: the definition store, the order in which
//! definitions appeared, and the diagnostics collected on the way.

use vstd::prelude::*;
use crate::ctx::Context;
use crate::diag::Diag;
use crate::hir::{Def, DefId};

verus! {

/// The resolved definitions together with their order of appearance.
pub struct ResolvedGraph {
    /// The primary data structure that owns all the types.
    pub context: Context,
    /// The order in which the top-level types appeared in the syntax tree.
    pub order: Vec<DefId>,
    /// The order in which built-in types were defined; empty if no
    /// built-ins were loaded.
    pub builtin_order: Vec<DefId>,
    /// Errors accumulated during resolution and checking.
    pub errors: Vec<Diag>,
    /// Warnings accumulated during resolution and checking.
    pub warnings: Vec<Diag>,
}

/// Every id of `order` names a definition of `ctx`.
pub open spec fn spec_order_valid(ctx: Context, order: Seq<DefId>) -> bool {
    forall|i: int| 0 <= i < order.len() ==> order[i] < ctx.definitions@.len()
}

/// A walk over definitions in a given order.
pub struct DefIter<'a> {
    ctx: &'a Context,
    order: &'a [DefId],
    pos: usize,
}

impl<'a> DefIter<'a> {
    /// The definitions this walk has still to give, in order.
    pub closed spec fn remaining(&self) -> Seq<Def> {
        self.order@.subrange(self.pos as int, self.order@.len() as int).map_values(
            |id: DefId| self.ctx.definitions@[id as int],
        )
    }

    /// Every id the walk has still to look up names a definition.
    pub closed spec fn valid(&self) -> bool {
        &&& self.pos <= self.order@.len()
        &&& spec_order_valid(*self.ctx, self.order@)
    }

    /// A walk over the top-level definitions of `hir`, in the order they
    /// appeared.
    pub fn new(hir: &'a ResolvedGraph) -> (it: Self)
        requires
            spec_order_valid(hir.context, hir.order@),
        ensures
            it.valid(),
            it.remaining() == hir.order@.map_values(|id: DefId| hir.context.definitions@[id as int]),
    {
        let it = Self::with_order(&hir.context, hir.order.as_slice());
        it
    }

    /// A walk over the definitions of `ctx` named by `order`.
    pub fn with_order(ctx: &'a Context, order: &'a [DefId]) -> (it: Self)
        requires
            spec_order_valid(*ctx, order@),
        ensures
            it.valid(),
            it.remaining() == order@.map_values(|id: DefId| ctx.definitions@[id as int]),
    {
        let it = DefIter { ctx, order, pos: 0 };
        assert(order@.subrange(0, order@.len() as int) =~= order@);
        it
    }

    /// The next definition of the walk, if any.
    pub fn next(&mut self) -> (r: Option<&'a Def>)
        requires
            old(self).valid(),
        ensures
            final(self).valid(),
            old(self).remaining().len() == 0 ==> r is None && final(self).remaining() == old(self).remaining(),
            old(self).remaining().len() > 0 ==> r == Some(&old(self).remaining()[0]) && final(self).remaining()
                == old(self).remaining().drop_first(),
    {
        if self.pos < self.order.len() {
            let id = self.order[self.pos];
            let d = self.ctx.type_of(id);
            let ghost before = self.remaining();
            self.pos = self.pos + 1;
            proof {
                assert(self.remaining() =~= before.drop_first());
            }
            Some(d)
        } else {
            None
        }
    }
}

impl ResolvedGraph {
    /// A walk over the top-level definitions, in the order they were
    /// defined.
    pub fn iter(&self) -> (it: DefIter<'_>)
        requires
            spec_order_valid(self.context, self.order@),
        ensures
            it.valid(),
            it.remaining() == self.order@.map_values(|id: DefId| self.context.definitions@[id as int]),
    {
        DefIter::new(self)
    }
}

} // verus!
