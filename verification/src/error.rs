//! The error taxonomy. Every error is local and recoverable: no operation
//! leaves the tree partially mutated.

use vstd::prelude::*;

verus! {

/// What can go wrong when inserting, sealing, ending a block or an epoch, or
/// witnessing.
#[derive(Clone, Copy, PartialEq, Eq, Structural, Debug)]
pub enum TreeError {
    /// Capacity exhausted at one tier: fatal for that insertion, not for the
    /// tree.
    TierFull,
    /// Insertion attempted after sealing: an ordering error by the caller.
    TierSealed,
    /// No open structure for the operation: the prerequisite block or epoch
    /// is missing.
    NoOpenTier,
    /// The whole tree's capacity is exhausted: no further position exists.
    Full,
    /// The addressed position holds no retained leaf: it was pruned on
    /// insertion, forgotten since, or never inserted.
    NotWitnessed,
}

} // verus!
