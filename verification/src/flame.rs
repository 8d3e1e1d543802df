//! Pieces of the flame data model that do not depend on how coordinates and
//! weights are represented.
use vstd::prelude::*;
use crate::variations::Variation;

verus! {

/// One term of a branch's weighted sum of variations.  The weight type is a
/// parameter: the renderer instantiates it with its scalar type.
#[derive(Clone, Copy, Debug, PartialEq)]
pub struct VariEntry<W> {
    pub variation: Variation,
    pub weight: W,
}

impl<W> VariEntry<W> {
    pub fn new(variation: Variation, weight: W) -> (r: Self)
        ensures
            r.variation == variation,
            r.weight == weight,
    {
        VariEntry { variation, weight }
    }

    /// The same term with another weight.
    pub fn with_weight(self, weight: W) -> (r: Self)
        ensures
            r.variation == self.variation,
            r.weight == weight,
    {
        VariEntry { variation: self.variation, weight }
    }
}

/// Replace the branch at `index`; `None` when there is no such branch.
pub fn with_branch_at<B>(branches: Vec<B>, index: usize, branch: B) -> (r: Option<Vec<B>>)
    ensures
        index < branches@.len() ==> (r matches Some(v) && v@ == branches@.update(
            index as int,
            branch,
        )),
        index >= branches@.len() ==> r is None,
{
    if index < branches.len() {
        let mut branches = branches;
        branches.set(index, branch);
        Some(branches)
    } else {
        None
    }
}

} // verus!
