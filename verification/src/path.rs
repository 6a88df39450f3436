//! Inclusion proofs: an authentication path from a retained commitment to
//! the global root, and its stateless verification.

use vstd::prelude::*;

use crate::commitment::Commitment;
use crate::hash::{Digest, GetHash};
use crate::merkle::{digit, digit_exec, rebuild_tier, rebuild_tier_exec, PathStep};
use crate::position::Position;
use crate::tier::{LEVEL_BLOCK, LEVEL_COMMITMENT, LEVEL_EPOCH};

verus! {

/// Rebuild a whole path: eight steps within the commitment tier, eight
/// within the tier of blocks, eight within the tier of epochs, leaf to root.
pub open spec fn rebuild_path(steps: Seq<PathStep>, leaf: Digest) -> Digest {
    rebuild_tier(
        LEVEL_EPOCH,
        steps.subrange(16, 24),
        rebuild_tier(
            LEVEL_BLOCK,
            steps.subrange(8, 16),
            rebuild_tier(LEVEL_COMMITMENT, steps.subrange(0, 8), leaf),
        ),
    )
}

/// A witness of one commitment's inclusion: the retained value, its
/// position, and the sibling digests along the path to the root. Verification
/// is pure and needs no access to the live tree.
pub struct AuthPath {
    /// The position the commitment was inserted at.
    pub position: Position,
    /// The retained commitment itself.
    pub commitment: Commitment,
    /// The twenty-four path steps, leaf to root.
    pub steps: Vec<PathStep>,
}

impl AuthPath {
    /// The step at `j` passes through the child slot that the position's
    /// radix digits dictate.
    pub open spec fn step_ok(self, j: int) -> bool {
        if 0 <= j < 8 {
            self.steps@[j].index as nat == digit(self.position.commitment as nat, j as nat)
        } else if 8 <= j < 16 {
            self.steps@[j].index as nat == digit(self.position.block as nat, (j - 8) as nat)
        } else if 16 <= j < 24 {
            self.steps@[j].index as nat == digit(self.position.epoch as nat, (j - 16) as nat)
        } else {
            true
        }
    }

    /// The proof is well-shaped, follows its position, and rebuilds to the
    /// given root.
    pub open spec fn valid_for(self, root: Digest) -> bool {
        &&& self.steps@.len() == 24
        &&& forall|j: int| 0 <= j < 24 ==> #[trigger] self.step_ok(j)
        &&& rebuild_path(self.steps@, self.commitment.hash_spec()) == root
    }

    /// Check this proof against a claimed root: recompute each tier's
    /// digests bottom-up from the commitment and the sibling digests, check
    /// the step indices against the position, and compare the final
    /// recombination with the root.
    pub fn verify(&self, root: Digest) -> (b: bool)
        ensures
            b == self.valid_for(root),
    {
        if self.steps.len() != 24 {
            return false;
        }
        let mut ok = true;
        let mut k: usize = 0;
        while k < 24
            invariant
                0 <= k <= 24,
                self.steps@.len() == 24,
                ok == (forall|j: int| 0 <= j < k ==> #[trigger] self.step_ok(j)),
            decreases 24 - k,
        {
            let p: u16;
            let off: usize;
            if k < 8 {
                p = self.position.commitment;
                off = 0;
            } else if k < 16 {
                p = self.position.block;
                off = 8;
            } else {
                p = self.position.epoch;
                off = 16;
            }
            let expect = digit_exec(p, (k - off) as u8);
            proof {
                assert(self.step_ok(k as int) <==> self.steps@[k as int].index == expect);
            }
            if self.steps[k].index != expect {
                ok = false;
            }
            k = k + 1;
        }
        if !ok {
            return false;
        }
        let r0 = rebuild_tier_exec(LEVEL_COMMITMENT, &self.steps, 0, self.commitment.hash());
        let r1 = rebuild_tier_exec(LEVEL_BLOCK, &self.steps, 8, r0);
        let r2 = rebuild_tier_exec(LEVEL_EPOCH, &self.steps, 16, r1);
        r2 == root
    }
}

} // verus!
