//! Lowering support: definition bookkeeping, the rules for names declared
//! more than once, checks of inheritance and the parts of evaluation that
//! work on the HIR alone.

use vstd::prelude::*;
use crate::hir::DefId;

pub mod collect;
pub mod definition_builder;
pub mod duplicates;
pub mod evaluate;
pub mod forward_refs;
pub mod parent_validator;
pub mod registry;
pub mod resolve;
pub mod single_pass;

verus! {

/// Whether no id occurs twice in `types`.
pub fn all_unique(types: &[DefId]) -> (r: bool)
    ensures
        r == (forall|i: int, j: int| 0 <= i < j < types@.len() ==> types@[i] != types@[j]),
{
    let mut j: usize = 0;
    while j < types.len()
        invariant
            0 <= j <= types@.len(),
            forall|a: int, b: int| 0 <= a < b < j ==> types@[a] != types@[b],
        decreases types@.len() - j,
    {
        let mut i: usize = 0;
        while i < j
            invariant
                0 <= i <= j < types@.len(),
                forall|a: int| 0 <= a < i ==> types@[a] != types@[j as int],
            decreases j - i,
        {
            if types[i] == types[j] {
                return false;
            }
            i += 1;
        }
        j += 1;
    }
    true
}

} // verus!
