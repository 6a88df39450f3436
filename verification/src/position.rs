//! Positions and forgetting generations.

use vstd::prelude::*;

verus! {

/// The address of one leaf: the epoch it was inserted in, the block within
/// that epoch, and the commitment slot within that block. Each component is
/// bounded by its tier's capacity. A position is assigned once, in insertion
/// order, and never reused: forgetting changes retention, never position.
#[derive(Clone, Copy, PartialEq, Eq, Structural, Debug)]
pub struct Position {
    pub epoch: u16,
    pub block: u16,
    pub commitment: u16,
}

impl Position {
    /// Build a position from its three tier indices.
    pub fn new(epoch: u16, block: u16, commitment: u16) -> (p: Position)
        ensures
            p == (Position { epoch, block, commitment }),
    {
        Position { epoch, block, commitment }
    }
}

/// A generation of forgetting: a monotonically increasing token attached to a
/// pruned leaf, so that repeated forgetting is distinguishable from "never
/// forgotten". An absent token means the leaf was never forgotten.
#[derive(Clone, Copy, PartialEq, Eq, Structural, Debug)]
pub struct Forgotten {
    pub index: u64,
}

impl Forgotten {
    /// The first generation of forgetting.
    pub fn first() -> (f: Forgotten)
        ensures
            f == (Forgotten { index: 0u64 }),
    {
        Forgotten { index: 0 }
    }

    /// The generation after this one; the last representable generation is
    /// its own successor.
    pub fn next(&self) -> (f: Forgotten)
        ensures
            f.index == if self.index < u64::MAX {
                self.index + 1
            } else {
                self.index as int
            },
    {
        if self.index < u64::MAX {
            Forgotten { index: self.index + 1 }
        } else {
            Forgotten { index: self.index }
        }
    }
}

} // verus!
