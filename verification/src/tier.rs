//! The three tiers: commitments within a block, blocks within an epoch,
//! epochs within the chain.
//!
//! Each tier is a bounded-arity, bounded-depth tree filled strictly left to
//! right. Beside its children a tier keeps the digest of each filled slot,
//! so that its root is computable from the digest row alone; forgetting
//! rewrites a child but never its digest, which is what makes pruning
//! observationally transparent. A tier is open (accepting the next slot) or
//! sealed (root frozen, insertion refused); the root digest of a sealed tier
//! is cached, and caches are never invalidated because sealed tiers are
//! immutable and open tiers only ever grow at the next free slot.

use vstd::prelude::*;

use crate::commitment::Commitment;
use crate::error::TreeError;
use crate::hash::{Digest, GetHash};
use crate::insert::{insert_hash, Insert};
use crate::merkle::{
    compute_tier_path, compute_tier_root, digit, pow4, rebuild_tier, tier_root, PathStep,
};
use crate::position::Forgotten;

verus! {

/// The domain-separation level of commitment tiers.
pub const LEVEL_COMMITMENT: u64 = 0;

/// The domain-separation level of the tier of blocks within one epoch.
pub const LEVEL_BLOCK: u64 = 1;

/// The domain-separation level of the tier of epochs.
pub const LEVEL_EPOCH: u64 = 2;

/// Copy a row of digests.
pub fn clone_digests(v: &Vec<Digest>) -> (r: Vec<Digest>)
    ensures
        r@ == v@,
{
    let mut r: Vec<Digest> = Vec::new();
    let mut i: usize = 0;
    while i < v.len()
        invariant
            0 <= i <= v@.len(),
            r@ == v@.subrange(0, i as int),
        decreases v@.len() - i,
    {
        r.push(v[i]);
        i = i + 1;
    }
    proof {
        assert(r@ =~= v@);
    }
    r
}

/// One block's worth of commitments: the innermost tier. Leaves are either
/// retained commitments or their digests, each with its forgetting mark.
pub struct CommitmentTier {
    /// The filled leaf slots, in insertion order.
    pub slots: Vec<Insert<Commitment>>,
    /// The forgetting generation of each slot, absent if never forgotten.
    pub marks: Vec<Option<Forgotten>>,
    /// The digest of each filled slot; forgetting never rewrites this row.
    pub hashes: Vec<Digest>,
    /// Whether the tier has been sealed against further insertion.
    pub sealed: bool,
    /// The root digest, once computed; set at the latest by sealing.
    pub cached: Option<Digest>,
}

impl CommitmentTier {
    /// Internal consistency: the digest row mirrors the slots, and a cached
    /// root is the true root.
    pub open spec fn wf(self) -> bool {
        &&& self.hashes@.len() == self.slots@.len()
        &&& self.marks@.len() == self.slots@.len()
        &&& self.slots@.len() <= pow4(8)
        &&& forall|i: int|
            0 <= i < self.slots@.len() ==> self.hashes@[i] == insert_hash(#[trigger] self.slots@[i])
        &&& self.cached matches Some(h) ==> h == tier_root(LEVEL_COMMITMENT, self.hashes@)
        &&& self.sealed ==> self.cached is Some
    }

    /// The tier's root digest, as a mathematical value.
    pub open spec fn root_spec(self) -> Digest {
        tier_root(LEVEL_COMMITMENT, self.hashes@)
    }

    /// A fresh, open, empty tier.
    pub fn new() -> (t: CommitmentTier)
        ensures
            t.wf(),
            t.slots@.len() == 0,
            t.marks@.len() == 0,
            t.hashes@.len() == 0,
            !t.sealed,
            t.cached is None,
    {
        CommitmentTier {
            slots: Vec::new(),
            marks: Vec::new(),
            hashes: Vec::new(),
            sealed: false,
            cached: None,
        }
    }

    /// The number of filled leaf slots.
    pub fn len(&self) -> (n: usize)
        ensures
            n == self.slots@.len(),
    {
        self.slots.len()
    }

    /// Append an item at the next unused slot, left to right. Fails with
    /// [`TreeError::TierSealed`] after sealing and [`TreeError::TierFull`]
    /// when every slot is occupied; either failure leaves the tier unchanged.
    pub fn insert(&mut self, item: Insert<Commitment>) -> (r: Result<(), TreeError>)
        requires
            old(self).wf(),
        ensures
            final(self).wf(),
            match r {
                Ok(()) => {
                    &&& !old(self).sealed
                    &&& old(self).slots@.len() < pow4(8)
                    &&& final(self).slots@ == old(self).slots@.push(item)
                    &&& final(self).marks@ == old(self).marks@.push(None::<Forgotten>)
                    &&& final(self).hashes@ == old(self).hashes@.push(insert_hash(item))
                    &&& final(self).sealed == false
                    &&& final(self).cached is None
                },
                Err(e) => {
                    &&& ct_same(*final(self), *old(self))
                    &&& (e == TreeError::TierSealed <==> old(self).sealed)
                    &&& (e == TreeError::TierFull <==> !old(self).sealed && old(self).slots@.len()
                        == pow4(8))
                    &&& (e == TreeError::TierSealed || e == TreeError::TierFull)
                },
            },
    {
        if self.sealed {
            return Err(TreeError::TierSealed);
        }
        proof {
            reveal_with_fuel(pow4, 9);
        }
        if self.slots.len() >= 65536 {
            return Err(TreeError::TierFull);
        }
        let h = item.hash();
        self.slots.push(item);
        self.marks.push(None);
        self.hashes.push(h);
        self.cached = None;
        Ok(())
    }

    /// Freeze the tier: further insertion is refused, and the root digest is
    /// cached. Sealing an already sealed tier changes nothing and returns the
    /// same root.
    pub fn seal(&mut self) -> (h: Digest)
        requires
            old(self).wf(),
        ensures
            final(self).wf(),
            ct_seal_rel(*old(self), *final(self), h),
    {
        let h = match self.cached {
            Some(h) => h,
            None => compute_tier_root(LEVEL_COMMITMENT, &self.hashes),
        };
        self.sealed = true;
        self.cached = Some(h);
        h
    }

    /// The tier's root digest, open or sealed: unfilled slots hash as the
    /// canonical empty digest.
    pub fn root_hash(&self) -> (h: Digest)
        requires
            self.wf(),
        ensures
            h == self.root_spec(),
    {
        match self.cached {
            Some(h) => h,
            None => compute_tier_root(LEVEL_COMMITMENT, &self.hashes),
        }
    }

    /// Forget the leaf at `index`: if it is retained, replace it by its
    /// digest, mark it with the given generation, and return `true`; if it is
    /// already pruned or the slot is unfilled, change nothing and return
    /// `false`. The digest row is never touched, so no digest anywhere in the
    /// tree changes.
    pub fn forget(&mut self, gen: Forgotten, index: usize) -> (r: bool)
        requires
            old(self).wf(),
        ensures
            final(self).wf(),
            final(self).hashes@ == old(self).hashes@,
            final(self).sealed == old(self).sealed,
            final(self).cached == old(self).cached,
            r == (index < old(self).slots@.len() && old(self).slots@[index as int] matches Insert::Keep(_)),
            r ==> final(self).slots@ == old(self).slots@.update(
                index as int,
                Insert::Hash(insert_hash(old(self).slots@[index as int])),
            ) && final(self).marks@ == old(self).marks@.update(index as int, Some(gen)),
            !r ==> ct_same(*final(self), *old(self)),
    {
        if index >= self.slots.len() {
            return false;
        }
        let pruned: Insert<Commitment> = match &self.slots[index] {
            Insert::Keep(c) => Insert::Hash(c.hash()),
            Insert::Hash(_) => {
                return false;
            },
        };
        self.slots[index] = pruned;
        self.marks[index] = Some(gen);
        true
    }

    /// The authentication path of the retained leaf at `index`: the
    /// commitment itself plus the eight steps to the tier root. Returns
    /// nothing when the slot is unfilled or pruned.
    pub fn witness_path(&self, index: usize) -> (r: Option<(Commitment, Vec<PathStep>)>)
        requires
            self.wf(),
        ensures
            match r {
                Some((c, steps)) => {
                    &&& index < self.slots@.len()
                    &&& self.slots@[index as int] == Insert::<Commitment>::Keep(c)
                    &&& steps@.len() == 8
                    &&& rebuild_tier(LEVEL_COMMITMENT, steps@, c.hash_spec()) == self.root_spec()
                    &&& forall|k: int|
                        0 <= k < 8 ==> (#[trigger] steps@[k]).index as nat == digit(
                            index as nat,
                            k as nat,
                        )
                },
                None => !(index < self.slots@.len() && self.slots@[index as int] matches Insert::Keep(_)),
            },
    {
        if index >= self.slots.len() {
            return None;
        }
        let c = match &self.slots[index] {
            Insert::Keep(c) => *c,
            Insert::Hash(_) => {
                return None;
            },
        };
        let steps = compute_tier_path(LEVEL_COMMITMENT, &self.hashes, index);
        Some((c, steps))
    }
}

/// What sealing a commitment tier promises: the returned digest is the
/// tier's root over its contents as they stood, nothing but the seal mark
/// and the cache changes, and the cache holds exactly that root.
pub open spec fn ct_seal_rel(pre: CommitmentTier, post: CommitmentTier, h: Digest) -> bool {
    &&& h == pre.root_spec()
    &&& post.slots@ == pre.slots@
    &&& post.marks@ == pre.marks@
    &&& post.hashes@ == pre.hashes@
    &&& post.sealed
    &&& post.cached == Some(h)
}

/// Field-for-field sameness of two commitment tiers.
pub open spec fn ct_same(a: CommitmentTier, b: CommitmentTier) -> bool {
    &&& a.slots@ == b.slots@
    &&& a.marks@ == b.marks@
    &&& a.hashes@ == b.hashes@
    &&& a.sealed == b.sealed
    &&& a.cached == b.cached
}

impl GetHash for CommitmentTier {
    open spec fn hash_spec(&self) -> Digest {
        self.root_spec()
    }

    open spec fn cached_spec(&self) -> Option<Digest> {
        self.cached
    }

    open spec fn hash_wf(&self) -> bool {
        self.wf()
    }

    fn hash(&self) -> (h: Digest)
    {
        self.root_hash()
    }

    fn cached_hash(&self) -> (c: Option<Digest>)
    {
        self.cached
    }
}

/// Replace a leaf by the digest that is all that remains of it.
pub open spec fn prune_leaf(l: Insert<Commitment>) -> Insert<Commitment> {
    Insert::Hash(insert_hash(l))
}

/// One epoch's worth of blocks: the middle tier. Children are sealed
/// commitment tiers, each wrapped in [`Insert`].
pub struct BlockTier {
    /// The filled child slots, in insertion order.
    pub children: Vec<Insert<CommitmentTier>>,
    /// The digest of each filled slot; forgetting never rewrites this row.
    pub hashes: Vec<Digest>,
    /// Whether the tier has been sealed against further insertion.
    pub sealed: bool,
    /// The root digest, once computed; set at the latest by sealing.
    pub cached: Option<Digest>,
}

/// The leaf of a block tier at child `b`, slot `c`, when both are present
/// and the child is retained.
pub open spec fn block_leaf(t: BlockTier, b: int, c: int) -> Option<Insert<Commitment>> {
    if 0 <= b < t.children@.len() {
        match t.children@[b] {
            Insert::Keep(ct) => if 0 <= c < ct.slots@.len() {
                Some(ct.slots@[c])
            } else {
                None
            },
            Insert::Hash(_) => None,
        }
    } else {
        None
    }
}

/// Sameness of two wrapped commitment tiers, compared by contents.
pub open spec fn ct_insert_same(a: Insert<CommitmentTier>, b: Insert<CommitmentTier>) -> bool {
    match (a, b) {
        (Insert::Keep(x), Insert::Keep(y)) => ct_same(x, y),
        (Insert::Hash(h1), Insert::Hash(h2)) => h1 == h2,
        _ => false,
    }
}

/// Field-for-field sameness of two block tiers, children compared by
/// contents.
pub open spec fn bt_same(a: BlockTier, b: BlockTier) -> bool {
    &&& a.children@.len() == b.children@.len()
    &&& forall|i: int|
        0 <= i < a.children@.len() ==> ct_insert_same(
            #[trigger] a.children@[i],
            b.children@[i],
        )
    &&& a.hashes@ == b.hashes@
    &&& a.sealed == b.sealed
    &&& a.cached == b.cached
}

impl BlockTier {
    /// Internal consistency: the digest row mirrors the children, every
    /// retained child is a well-formed sealed commitment tier, and a cached
    /// root is the true root.
    pub open spec fn wf(self) -> bool {
        &&& self.hashes@.len() == self.children@.len()
        &&& self.children@.len() <= pow4(8)
        &&& forall|i: int|
            0 <= i < self.children@.len() ==> self.hashes@[i] == insert_hash(
                #[trigger] self.children@[i],
            )
        &&& forall|i: int|
            0 <= i < self.children@.len() ==> match #[trigger] self.children@[i] {
                Insert::Keep(ct) => ct.wf() && ct.sealed,
                Insert::Hash(_) => true,
            }
        &&& self.cached matches Some(h) ==> h == tier_root(LEVEL_BLOCK, self.hashes@)
        &&& self.sealed ==> self.cached is Some
    }

    /// The tier's root digest, as a mathematical value.
    pub open spec fn root_spec(self) -> Digest {
        tier_root(LEVEL_BLOCK, self.hashes@)
    }

    /// A fresh, open, empty tier.
    pub fn new() -> (t: BlockTier)
        ensures
            t.wf(),
            t.children@.len() == 0,
            t.hashes@.len() == 0,
            !t.sealed,
            t.cached is None,
    {
        BlockTier { children: Vec::new(), hashes: Vec::new(), sealed: false, cached: None }
    }

    /// The number of filled child slots.
    pub fn len(&self) -> (n: usize)
        ensures
            n == self.children@.len(),
    {
        self.children.len()
    }

    /// Append a child tier at the next unused slot. Fails with
    /// [`TreeError::TierSealed`] after sealing and [`TreeError::TierFull`]
    /// when every slot is occupied; either failure leaves the tier unchanged.
    pub fn insert(&mut self, item: Insert<CommitmentTier>) -> (r: Result<(), TreeError>)
        requires
            old(self).wf(),
            item matches Insert::Keep(ct) ==> ct.wf() && ct.sealed,
        ensures
            final(self).wf(),
            match r {
                Ok(()) => {
                    &&& !old(self).sealed
                    &&& old(self).children@.len() < pow4(8)
                    &&& final(self).children@ == old(self).children@.push(item)
                    &&& final(self).hashes@ == old(self).hashes@.push(insert_hash(item))
                    &&& final(self).sealed == false
                    &&& final(self).cached is None
                },
                Err(e) => {
                    &&& bt_same(*final(self), *old(self))
                    &&& (e == TreeError::TierSealed <==> old(self).sealed)
                    &&& (e == TreeError::TierFull <==> !old(self).sealed
                        && old(self).children@.len() == pow4(8))
                    &&& (e == TreeError::TierSealed || e == TreeError::TierFull)
                },
            },
    {
        if self.sealed {
            return Err(TreeError::TierSealed);
        }
        proof {
            reveal_with_fuel(pow4, 9);
        }
        if self.children.len() >= 65536 {
            return Err(TreeError::TierFull);
        }
        let h = item.hash();
        self.children.push(item);
        self.hashes.push(h);
        self.cached = None;
        Ok(())
    }

    /// Freeze the tier; idempotent, and always returns the root digest.
    pub fn seal(&mut self) -> (h: Digest)
        requires
            old(self).wf(),
        ensures
            final(self).wf(),
            h == old(self).root_spec(),
            final(self).children@ == old(self).children@,
            final(self).hashes@ == old(self).hashes@,
            final(self).sealed,
            final(self).cached == Some(h),
    {
        let h = match self.cached {
            Some(h) => h,
            None => compute_tier_root(LEVEL_BLOCK, &self.hashes),
        };
        self.sealed = true;
        self.cached = Some(h);
        h
    }

    /// The tier's root digest, open or sealed.
    pub fn root_hash(&self) -> (h: Digest)
        requires
            self.wf(),
        ensures
            h == self.root_spec(),
    {
        match self.cached {
            Some(h) => h,
            None => compute_tier_root(LEVEL_BLOCK, &self.hashes),
        }
    }

    /// Forget the leaf at child `block`, slot `commitment`. Routing passes
    /// through retained children only; a pruned child holds nothing left to
    /// forget. No digest anywhere changes.
    pub fn forget(&mut self, gen: Forgotten, block: usize, commitment: usize) -> (r: bool)
        requires
            old(self).wf(),
        ensures
            final(self).wf(),
            final(self).hashes@ == old(self).hashes@,
            final(self).sealed == old(self).sealed,
            final(self).cached == old(self).cached,
            final(self).children@.len() == old(self).children@.len(),
            r == (block_leaf(*old(self), block as int, commitment as int) matches Some(
                Insert::Keep(_),
            )),
            r ==> block_leaf(*final(self), block as int, commitment as int) == Some(
                prune_leaf(block_leaf(*old(self), block as int, commitment as int)->Some_0),
            ),
            forall|b2: int, c2: int|
                !(b2 == block && c2 == commitment) ==> block_leaf(*final(self), b2, c2)
                    == block_leaf(*old(self), b2, c2),
            !r ==> bt_same(*final(self), *old(self)),
    {
        if block >= self.children.len() {
            return false;
        }
        let child = &mut self.children[block];
        let r = match child {
            Insert::Keep(ct) => ct.forget(gen, commitment),
            Insert::Hash(_) => false,
        };
        proof {
            assert(self.children@ == old(self).children@.update(
                block as int,
                self.children@[block as int],
            ));
        }
        r
    }
}

/// The sealed epochs of the chain: the outermost tier. Children are sealed
/// block tiers, one per concluded epoch, each wrapped in [`Insert`].
pub struct EpochTier {
    /// The filled child slots, in insertion order.
    pub children: Vec<Insert<BlockTier>>,
    /// The digest of each filled slot; forgetting never rewrites this row.
    pub hashes: Vec<Digest>,
    /// Whether the tier has been sealed against further insertion.
    pub sealed: bool,
    /// The root digest, once computed; set at the latest by sealing.
    pub cached: Option<Digest>,
}

/// The leaf of an epoch tier at child `e`, block `b`, slot `c`, when the
/// whole path down is present and retained.
pub open spec fn epoch_leaf(t: EpochTier, e: int, b: int, c: int) -> Option<Insert<Commitment>> {
    if 0 <= e < t.children@.len() {
        match t.children@[e] {
            Insert::Keep(bt) => block_leaf(bt, b, c),
            Insert::Hash(_) => None,
        }
    } else {
        None
    }
}

/// Sameness of two wrapped block tiers, compared by contents.
pub open spec fn bt_insert_same(a: Insert<BlockTier>, b: Insert<BlockTier>) -> bool {
    match (a, b) {
        (Insert::Keep(x), Insert::Keep(y)) => bt_same(x, y),
        (Insert::Hash(h1), Insert::Hash(h2)) => h1 == h2,
        _ => false,
    }
}

/// Field-for-field sameness of two epoch tiers, children compared by
/// contents.
pub open spec fn et_same(a: EpochTier, b: EpochTier) -> bool {
    &&& a.children@.len() == b.children@.len()
    &&& forall|i: int|
        0 <= i < a.children@.len() ==> bt_insert_same(
            #[trigger] a.children@[i],
            b.children@[i],
        )
    &&& a.hashes@ == b.hashes@
    &&& a.sealed == b.sealed
    &&& a.cached == b.cached
}

impl EpochTier {
    /// Internal consistency: the digest row mirrors the children, every
    /// retained child is a well-formed sealed block tier, and a cached root
    /// is the true root.
    pub open spec fn wf(self) -> bool {
        &&& self.hashes@.len() == self.children@.len()
        &&& self.children@.len() <= pow4(8)
        &&& forall|i: int|
            0 <= i < self.children@.len() ==> self.hashes@[i] == insert_hash(
                #[trigger] self.children@[i],
            )
        &&& forall|i: int|
            0 <= i < self.children@.len() ==> match #[trigger] self.children@[i] {
                Insert::Keep(bt) => bt.wf() && bt.sealed,
                Insert::Hash(_) => true,
            }
        &&& self.cached matches Some(h) ==> h == tier_root(LEVEL_EPOCH, self.hashes@)
        &&& self.sealed ==> self.cached is Some
    }

    /// The tier's root digest, as a mathematical value.
    pub open spec fn root_spec(self) -> Digest {
        tier_root(LEVEL_EPOCH, self.hashes@)
    }

    /// A fresh, open, empty tier.
    pub fn new() -> (t: EpochTier)
        ensures
            t.wf(),
            t.children@.len() == 0,
            t.hashes@.len() == 0,
            !t.sealed,
            t.cached is None,
    {
        EpochTier { children: Vec::new(), hashes: Vec::new(), sealed: false, cached: None }
    }

    /// The number of filled child slots.
    pub fn len(&self) -> (n: usize)
        ensures
            n == self.children@.len(),
    {
        self.children.len()
    }

    /// Append a child tier at the next unused slot. Fails with
    /// [`TreeError::TierSealed`] after sealing and [`TreeError::TierFull`]
    /// when every slot is occupied; either failure leaves the tier unchanged.
    pub fn insert(&mut self, item: Insert<BlockTier>) -> (r: Result<(), TreeError>)
        requires
            old(self).wf(),
            item matches Insert::Keep(bt) ==> bt.wf() && bt.sealed,
        ensures
            final(self).wf(),
            match r {
                Ok(()) => {
                    &&& !old(self).sealed
                    &&& old(self).children@.len() < pow4(8)
                    &&& final(self).children@ == old(self).children@.push(item)
                    &&& final(self).hashes@ == old(self).hashes@.push(insert_hash(item))
                    &&& final(self).sealed == false
                    &&& final(self).cached is None
                },
                Err(e) => {
                    &&& et_same(*final(self), *old(self))
                    &&& (e == TreeError::TierSealed <==> old(self).sealed)
                    &&& (e == TreeError::TierFull <==> !old(self).sealed
                        && old(self).children@.len() == pow4(8))
                    &&& (e == TreeError::TierSealed || e == TreeError::TierFull)
                },
            },
    {
        if self.sealed {
            return Err(TreeError::TierSealed);
        }
        proof {
            reveal_with_fuel(pow4, 9);
        }
        if self.children.len() >= 65536 {
            return Err(TreeError::TierFull);
        }
        let h = item.hash();
        self.children.push(item);
        self.hashes.push(h);
        self.cached = None;
        Ok(())
    }

    /// The tier's root digest, open or sealed.
    pub fn root_hash(&self) -> (h: Digest)
        requires
            self.wf(),
        ensures
            h == self.root_spec(),
    {
        match self.cached {
            Some(h) => h,
            None => compute_tier_root(LEVEL_EPOCH, &self.hashes),
        }
    }

    /// Forget the leaf at child `epoch`, block `block`, slot `commitment`.
    /// Routing passes through retained children only. No digest anywhere
    /// changes.
    pub fn forget(&mut self, gen: Forgotten, epoch: usize, block: usize, commitment: usize) -> (r:
        bool)
        requires
            old(self).wf(),
        ensures
            final(self).wf(),
            final(self).hashes@ == old(self).hashes@,
            final(self).sealed == old(self).sealed,
            final(self).cached == old(self).cached,
            final(self).children@.len() == old(self).children@.len(),
            r == (epoch_leaf(*old(self), epoch as int, block as int, commitment as int) matches Some(
                Insert::Keep(_),
            )),
            r ==> epoch_leaf(*final(self), epoch as int, block as int, commitment as int) == Some(
                prune_leaf(
                    epoch_leaf(*old(self), epoch as int, block as int, commitment as int)->Some_0,
                ),
            ),
            forall|e2: int, b2: int, c2: int|
                !(e2 == epoch && b2 == block && c2 == commitment) ==> epoch_leaf(
                    *final(self),
                    e2,
                    b2,
                    c2,
                ) == epoch_leaf(*old(self), e2, b2, c2),
            !r ==> et_same(*final(self), *old(self)),
    {
        if epoch >= self.children.len() {
            return false;
        }
        let child = &mut self.children[epoch];
        let r = match child {
            Insert::Keep(bt) => bt.forget(gen, block, commitment),
            Insert::Hash(_) => false,
        };
        proof {
            assert(self.children@ == old(self).children@.update(
                epoch as int,
                self.children@[epoch as int],
            ));
        }
        r
    }
}

impl GetHash for EpochTier {
    open spec fn hash_spec(&self) -> Digest {
        self.root_spec()
    }

    open spec fn cached_spec(&self) -> Option<Digest> {
        self.cached
    }

    open spec fn hash_wf(&self) -> bool {
        self.wf()
    }

    fn hash(&self) -> (h: Digest)
    {
        self.root_hash()
    }

    fn cached_hash(&self) -> (c: Option<Digest>)
    {
        self.cached
    }
}

impl GetHash for BlockTier {
    open spec fn hash_spec(&self) -> Digest {
        self.root_spec()
    }

    open spec fn cached_spec(&self) -> Option<Digest> {
        self.cached
    }

    open spec fn hash_wf(&self) -> bool {
        self.wf()
    }

    fn hash(&self) -> (h: Digest)
    {
        self.root_hash()
    }

    fn cached_hash(&self) -> (c: Option<Digest>)
    {
        self.cached
    }
}

} // verus!
