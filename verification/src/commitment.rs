//! The leaf payload: an opaque note commitment.

use vstd::prelude::*;

use crate::hash::{Digest, GetHash};

verus! {

/// An opaque cryptographic commitment, the tree's leaf payload.
///
/// A commitment is already digest-sized, so its own digest is definitionally
/// known: hashing a commitment never computes anything, and its cached digest
/// is always available.
#[derive(Clone, Copy, PartialEq, Eq, Structural, Debug)]
pub struct Commitment {
    pub w0: u64,
    pub w1: u64,
    pub w2: u64,
    pub w3: u64,
}

impl Commitment {
    /// Build a commitment from its four words.
    pub fn new(w0: u64, w1: u64, w2: u64, w3: u64) -> (c: Commitment)
        ensures
            c == (Commitment { w0, w1, w2, w3 }),
    {
        Commitment { w0, w1, w2, w3 }
    }
}

impl GetHash for Commitment {
    open spec fn hash_spec(&self) -> Digest {
        Digest { w0: self.w0, w1: self.w1, w2: self.w2, w3: self.w3 }
    }

    open spec fn cached_spec(&self) -> Option<Digest> {
        Some(self.hash_spec())
    }

    open spec fn hash_wf(&self) -> bool {
        true
    }

    fn hash(&self) -> (h: Digest)
    {
        Digest { w0: self.w0, w1: self.w1, w2: self.w2, w3: self.w3 }
    }

    fn cached_hash(&self) -> (c: Option<Digest>)
    {
        Some(Digest { w0: self.w0, w1: self.w1, w2: self.w2, w3: self.w3 })
    }
}

} // verus!
