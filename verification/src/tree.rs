//! The tree aggregator: all sealed epochs plus the in-progress epoch and
//! block, with position assignment, forgetting, witnessing, and the global
//! root.

use vstd::prelude::*;

use crate::commitment::Commitment;
use crate::error::TreeError;
use crate::hash::{Digest, GetHash};
use crate::insert::Insert;
use crate::merkle::{
    compute_tier_path, compute_tier_root, digit, pow4, rebuild_tier, tier_root, PathStep,
};
use crate::path::AuthPath;
use crate::position::{Forgotten, Position};
use crate::tier::{
    block_leaf, bt_same, clone_digests, ct_same, epoch_leaf, et_same, prune_leaf, BlockTier,
    CommitmentTier, EpochTier, LEVEL_BLOCK, LEVEL_COMMITMENT, LEVEL_EPOCH,
};

verus! {

/// The tiered commitment tree: an ordered sequence of sealed epochs, the
/// open epoch and block if the chain still has room, and the generation the
/// next forgetting will carry.
pub struct Tree {
    /// Every concluded epoch, sealed, in order.
    pub epochs: EpochTier,
    /// The open epoch: its sealed blocks. Absent only when every epoch slot
    /// of the chain is used up.
    pub current_epoch: Option<BlockTier>,
    /// The open block: the commitments inserted since the last block ended.
    /// Absent when the open epoch's block slots are used up, or the chain's.
    pub current_block: Option<CommitmentTier>,
    /// The generation that the next successful forgetting will mark its leaf
    /// with.
    pub forgotten: Forgotten,
}

/// The leaf that an insertion stores: the commitment itself when retained,
/// its digest alone when not.
pub open spec fn inserted_leaf(c: Commitment, retain: bool) -> Insert<Commitment> {
    if retain {
        Insert::Keep(c)
    } else {
        Insert::Hash(c.hash_spec())
    }
}

/// The digest row of the open epoch: its sealed blocks' digests, plus the
/// open block's root if the open block holds anything yet. An empty open
/// block contributes nothing, so opening one leaves every digest unchanged.
pub open spec fn mid_hashes(e: BlockTier, cb: Option<CommitmentTier>) -> Seq<Digest> {
    e.hashes@ + match cb {
        Some(b) => if b.slots@.len() > 0 {
            seq![b.root_spec()]
        } else {
            Seq::<Digest>::empty()
        },
        None => Seq::<Digest>::empty(),
    }
}

/// The root digest of the open epoch, over its sealed blocks and the open
/// block.
pub open spec fn open_epoch_root(e: BlockTier, cb: Option<CommitmentTier>) -> Digest {
    tier_root(LEVEL_BLOCK, mid_hashes(e, cb))
}

/// Whether the open epoch holds anything at all.
pub open spec fn epoch_nonempty(e: BlockTier, cb: Option<CommitmentTier>) -> bool {
    e.children@.len() > 0 || (cb matches Some(b) && b.slots@.len() > 0)
}

/// The digest row of the tier of epochs: the sealed epochs' digests, plus
/// the open epoch's root if it holds anything yet.
pub open spec fn top_hashes(t: Tree) -> Seq<Digest> {
    t.epochs.hashes@ + match t.current_epoch {
        Some(e) => if epoch_nonempty(e, t.current_block) {
            seq![open_epoch_root(e, t.current_block)]
        } else {
            Seq::<Digest>::empty()
        },
        None => Seq::<Digest>::empty(),
    }
}

/// The leaf stored at a position: present only if every tier on the way down
/// is present and retained.
pub open spec fn tree_leaf(t: Tree, e: int, b: int, c: int) -> Option<Insert<Commitment>> {
    if 0 <= e < t.epochs.children@.len() {
        epoch_leaf(t.epochs, e, b, c)
    } else if e == t.epochs.children@.len() && t.current_epoch is Some {
        let ce = t.current_epoch->Some_0;
        if 0 <= b < ce.children@.len() {
            block_leaf(ce, b, c)
        } else if b == ce.children@.len() && t.current_block is Some {
            let cb = t.current_block->Some_0;
            if 0 <= c < cb.slots@.len() {
                Some(cb.slots@[c])
            } else {
                None
            }
        } else {
            None
        }
    } else {
        None
    }
}

/// The generation after `f`; the last representable generation is its own
/// successor.
pub open spec fn forgotten_next(f: Forgotten) -> Forgotten {
    if f.index < u64::MAX {
        Forgotten { index: (f.index + 1) as u64 }
    } else {
        f
    }
}

/// What forgetting promises, relating the tree before to the tree after.
/// Forgetting succeeds exactly on a currently retained leaf; it never
/// changes any digest, so the root survives; on failure the whole tree is
/// untouched; and a forgotten leaf is no longer retained.
pub open spec fn forget_rel(pre: Tree, post: Tree, p: Position, r: bool) -> bool {
    &&& r == pre.witnessed_at(p)
    &&& top_hashes(post) == top_hashes(pre)
    &&& post.root_spec() == pre.root_spec()
    &&& (r ==> !post.witnessed_at(p))
    &&& (!r ==> tree_same(post, pre))
}

/// Field-for-field sameness of two trees, compared by contents.
pub open spec fn tree_same(a: Tree, b: Tree) -> bool {
    &&& et_same(a.epochs, b.epochs)
    &&& match (a.current_epoch, b.current_epoch) {
        (Some(x), Some(y)) => bt_same(x, y),
        (None, None) => true,
        _ => false,
    }
    &&& match (a.current_block, b.current_block) {
        (Some(x), Some(y)) => ct_same(x, y),
        (None, None) => true,
        _ => false,
    }
    &&& a.forgotten == b.forgotten
}

impl Tree {
    /// Internal consistency: every tier is well-formed, open tiers are open,
    /// and absence of an open tier means the enclosing capacity is used up.
    pub open spec fn wf(self) -> bool {
        &&& self.epochs.wf()
        &&& !self.epochs.sealed
        &&& match self.current_epoch {
            Some(e) => {
                &&& e.wf()
                &&& !e.sealed
                &&& self.epochs.children@.len() < pow4(8)
                &&& (self.current_block is Some ==> e.children@.len() < pow4(8))
                &&& (self.current_block is None ==> e.children@.len() == pow4(8))
            },
            None => self.current_block is None && self.epochs.children@.len() == pow4(8),
        }
        &&& (self.current_block matches Some(b) ==> b.wf() && !b.sealed)
    }

    /// The global root digest, as a mathematical value: the tier-of-epochs
    /// combination over every epoch's digest.
    pub open spec fn root_spec(self) -> Digest {
        tier_root(LEVEL_EPOCH, top_hashes(self))
    }

    /// The position the next accepted insertion will receive.
    pub open spec fn next_position(self) -> Position {
        Position {
            epoch: self.epochs.children@.len() as u16,
            block: self.current_epoch->Some_0.children@.len() as u16,
            commitment: self.current_block->Some_0.slots@.len() as u16,
        }
    }

    /// Whether the leaf at a position is currently retained: inserted with
    /// retention and not forgotten since.
    pub open spec fn witnessed_at(self, p: Position) -> bool {
        tree_leaf(self, p.epoch as int, p.block as int, p.commitment as int) matches Some(
            Insert::Keep(_),
        )
    }

    /// A fresh, empty tree, ready to accept the commitment at position
    /// (0, 0, 0).
    pub fn new() -> (t: Tree)
        ensures
            t.wf(),
            t.epochs.children@.len() == 0,
            t.current_epoch matches Some(e) && e.children@.len() == 0,
            t.current_block matches Some(b) && b.slots@.len() == 0,
            t.forgotten == (Forgotten { index: 0u64 }),
    {
        proof {
            reveal_with_fuel(pow4, 9);
        }
        Tree {
            epochs: EpochTier::new(),
            current_epoch: Some(BlockTier::new()),
            current_block: Some(CommitmentTier::new()),
            forgotten: Forgotten::first(),
        }
    }

    /// Insert a commitment at the next position. With `retain` the
    /// commitment is kept as a witnessed leaf; without it only its digest is
    /// stored, as if it were inserted and immediately forgotten, and the
    /// digests produced are identical either way. Fails with
    /// [`TreeError::Full`] when the chain's whole capacity is exhausted,
    /// [`TreeError::NoOpenTier`] when no commitment slot can open before the
    /// next epoch, and [`TreeError::TierFull`] when the open block is full;
    /// every failure leaves the tree unchanged.
    pub fn insert(&mut self, commitment: Commitment, retain: bool) -> (r: Result<
        Position,
        TreeError,
    >)
        requires
            old(self).wf(),
        ensures
            final(self).wf(),
            (r is Ok) == (old(self).current_block is Some && old(
                self,
            ).current_block->Some_0.slots@.len() < pow4(8)),
            match r {
                Ok(pos) => {
                    &&& old(self).current_block matches Some(cb)
                    &&& old(self).current_block->Some_0.slots@.len() < pow4(8)
                    &&& pos == old(self).next_position()
                    &&& et_same(final(self).epochs, old(self).epochs)
                    &&& final(self).current_epoch is Some
                    &&& old(self).current_epoch is Some
                    &&& bt_same(
                        final(self).current_epoch->Some_0,
                        old(self).current_epoch->Some_0,
                    )
                    &&& final(self).current_block matches Some(cb2)
                    &&& final(self).current_block->Some_0.slots@ == old(
                        self,
                    ).current_block->Some_0.slots@.push(inserted_leaf(commitment, retain))
                    &&& final(self).current_block->Some_0.marks@ == old(
                        self,
                    ).current_block->Some_0.marks@.push(None::<Forgotten>)
                    &&& final(self).current_block->Some_0.hashes@ == old(
                        self,
                    ).current_block->Some_0.hashes@.push(commitment.hash_spec())
                    &&& !final(self).current_block->Some_0.sealed
                    &&& final(self).forgotten == old(self).forgotten
                    &&& final(self).witnessed_at(pos) == retain
                    &&& tree_leaf(
                        *final(self),
                        pos.epoch as int,
                        pos.block as int,
                        pos.commitment as int,
                    ) == Some(inserted_leaf(commitment, retain))
                    &&& forall|e2: int, b2: int, c2: int|
                        !(e2 == pos.epoch as int && b2 == pos.block as int && c2
                            == pos.commitment as int) ==> tree_leaf(*final(self), e2, b2, c2)
                            == tree_leaf(*old(self), e2, b2, c2)
                },
                Err(e) => {
                    &&& tree_same(*final(self), *old(self))
                    &&& (e == TreeError::Full <==> old(self).current_epoch is None)
                    &&& (e == TreeError::NoOpenTier <==> old(self).current_epoch is Some && old(
                        self,
                    ).current_block is None)
                    &&& (e == TreeError::TierFull <==> old(self).current_block is Some && old(
                        self,
                    ).current_block->Some_0.slots@.len() == pow4(8))
                    &&& (e == TreeError::Full || e == TreeError::NoOpenTier || e
                        == TreeError::TierFull)
                },
            },
    {
        let e_idx: usize = self.epochs.len();
        let b_idx: usize;
        match &self.current_epoch {
            Some(e) => {
                b_idx = e.len();
            },
            None => {
                return Err(TreeError::Full);
            },
        }
        let item = if retain {
            Insert::Keep(commitment)
        } else {
            Insert::Hash(commitment.hash())
        };
        let c_idx: usize;
        let res: Result<(), TreeError>;
        match &mut self.current_block {
            Some(cb) => {
                c_idx = cb.len();
                res = cb.insert(item);
            },
            None => {
                return Err(TreeError::NoOpenTier);
            },
        }
        match res {
            Ok(()) => {
                proof {
                    reveal_with_fuel(pow4, 9);
                }
                Ok(Position::new(e_idx as u16, b_idx as u16, c_idx as u16))
            },
            Err(e) => Err(e),
        }
    }

    /// Conclude the open block: seal it, file it as the next child of the
    /// open epoch, and open a fresh block if the epoch has room. Returns the
    /// sealed block's root digest; an empty block seals to the canonical
    /// zero digest. Fails with [`TreeError::NoOpenTier`] when no block is
    /// open, leaving the tree unchanged. Sealing a block that holds anything
    /// never changes the global root.
    pub fn end_block(&mut self) -> (r: Result<Digest, TreeError>)
        requires
            old(self).wf(),
        ensures
            final(self).wf(),
            (r is Err) <==> old(self).current_block is None,
            match r {
                Ok(h) => {
                    &&& old(self).current_block is Some
                    &&& old(self).current_epoch is Some
                    &&& h == old(self).current_block->Some_0.root_spec()
                    &&& et_same(final(self).epochs, old(self).epochs)
                    &&& final(self).forgotten == old(self).forgotten
                    &&& final(self).current_epoch is Some
                    &&& final(self).current_epoch->Some_0.hashes@ == old(
                        self,
                    ).current_epoch->Some_0.hashes@.push(h)
                    &&& final(self).current_epoch->Some_0.children@.len() == old(
                        self,
                    ).current_epoch->Some_0.children@.len() + 1
                    &&& final(self).current_epoch->Some_0.children@.subrange(
                        0,
                        old(self).current_epoch->Some_0.children@.len() as int,
                    ) == old(self).current_epoch->Some_0.children@
                    &&& final(self).current_epoch->Some_0.children@.last() matches Insert::Keep(ctx)
                    &&& ctx.slots@ == old(self).current_block->Some_0.slots@
                    &&& ctx.marks@ == old(self).current_block->Some_0.marks@
                    &&& ctx.hashes@ == old(self).current_block->Some_0.hashes@
                    &&& ctx.sealed
                    &&& (old(self).current_epoch->Some_0.children@.len() + 1 < pow4(8) ==> (
                    final(self).current_block matches Some(nb) && nb.slots@.len() == 0
                        && nb.marks@.len() == 0 && nb.hashes@.len() == 0 && !nb.sealed))
                    &&& (old(self).current_epoch->Some_0.children@.len() + 1 == pow4(8) ==> final(
                        self).current_block is None)
                    &&& (old(self).current_block->Some_0.slots@.len() > 0 ==> final(
                        self).root_spec() == old(self).root_spec())
                    &&& forall|e2: int, b2: int, c2: int|
                        tree_leaf(*final(self), e2, b2, c2) == tree_leaf(*old(self), e2, b2, c2)
                },
                Err(e) => e == TreeError::NoOpenTier && tree_same(*final(self), *old(self)),
            },
    {
        let cb_opt = self.current_block.take();
        let mut cb = match cb_opt {
            Some(cb) => cb,
            None => {
                return Err(TreeError::NoOpenTier);
            },
        };
        let ghost old_mid = mid_hashes(
            old(self).current_epoch->Some_0,
            old(self).current_block,
        );
        let h = cb.seal();
        match &mut self.current_epoch {
            Some(ce) => {
                let res = ce.insert(Insert::Keep(cb));
                match res {
                    Ok(()) => {},
                    Err(_) => {
                        proof {
                            assert(false);
                        }
                        return Err(TreeError::NoOpenTier);
                    },
                }
                if ce.len() < 65536 {
                    self.current_block = Some(CommitmentTier::new());
                } else {
                    self.current_block = None;
                }
            },
            None => {
                proof {
                    assert(false);
                }
                return Err(TreeError::NoOpenTier);
            },
        }
        proof {
            reveal_with_fuel(pow4, 9);
            if old(self).current_block->Some_0.slots@.len() > 0 {
                assert(mid_hashes(self.current_epoch->Some_0, self.current_block) =~= old_mid);
                assert(top_hashes(*self) =~= top_hashes(*old(self)));
            }
        }
        Ok(h)
    }

    /// Conclude the open epoch: fold the open block in if it holds anything,
    /// seal the epoch, file it as the next sealed epoch, and open a fresh
    /// epoch and block if the chain has room. Returns the sealed epoch's
    /// root digest, exactly the digest the open epoch contributed to the
    /// global root; an empty epoch seals to the canonical zero digest. Fails
    /// with [`TreeError::NoOpenTier`] when no epoch is open, leaving the
    /// tree unchanged. Sealing an epoch that holds anything never changes
    /// the global root.
    pub fn end_epoch(&mut self) -> (r: Result<Digest, TreeError>)
        requires
            old(self).wf(),
        ensures
            final(self).wf(),
            (r is Err) <==> old(self).current_epoch is None,
            match r {
                Ok(h) => {
                    &&& old(self).current_epoch is Some
                    &&& h == open_epoch_root(
                        old(self).current_epoch->Some_0,
                        old(self).current_block,
                    )
                    &&& final(self).forgotten == old(self).forgotten
                    &&& final(self).epochs.children@.len() == old(self).epochs.children@.len() + 1
                    &&& final(self).epochs.hashes@ == old(self).epochs.hashes@.push(h)
                    &&& final(self).epochs.children@.subrange(
                        0,
                        old(self).epochs.children@.len() as int,
                    ) == old(self).epochs.children@
                    &&& final(self).epochs.children@.last() matches Insert::Keep(btx)
                    &&& btx.hashes@ == mid_hashes(
                        old(self).current_epoch->Some_0,
                        old(self).current_block,
                    )
                    &&& btx.sealed
                    &&& (old(self).epochs.children@.len() + 1 < pow4(8) ==> (
                    final(self).current_epoch matches Some(ne) && ne.children@.len() == 0
                        && ne.hashes@.len() == 0 && !ne.sealed))
                    &&& (old(self).epochs.children@.len() + 1 < pow4(8) ==> (
                    final(self).current_block matches Some(nb) && nb.slots@.len() == 0
                        && !nb.sealed))
                    &&& (old(self).epochs.children@.len() + 1 == pow4(8) ==> final(
                        self).current_epoch is None && final(self).current_block is None)
                    &&& (epoch_nonempty(old(self).current_epoch->Some_0, old(self).current_block)
                        ==> final(self).root_spec() == old(self).root_spec())
                    &&& forall|e2: int, b2: int, c2: int|
                        tree_leaf(*final(self), e2, b2, c2) == tree_leaf(*old(self), e2, b2, c2)
                },
                Err(e) => e == TreeError::NoOpenTier && tree_same(*final(self), *old(self)),
            },
    {
        let ce_opt = self.current_epoch.take();
        let mut ce = match ce_opt {
            Some(ce) => ce,
            None => {
                return Err(TreeError::NoOpenTier);
            },
        };
        // fold the open block in, unless it holds nothing
        let cb_opt = self.current_block.take();
        match cb_opt {
            Some(mut cb) => {
                if cb.len() > 0 {
                    let hb = cb.seal();
                    let res = ce.insert(Insert::Keep(cb));
                    match res {
                        Ok(()) => {},
                        Err(_) => {
                            proof {
                                assert(false);
                            }
                            return Err(TreeError::NoOpenTier);
                        },
                    }
                }
            },
            None => {},
        }
        proof {
            assert(ce.hashes@ =~= mid_hashes(
                old(self).current_epoch->Some_0,
                old(self).current_block,
            ));
        }
        let h = ce.seal();
        let res = self.epochs.insert(Insert::Keep(ce));
        match res {
            Ok(()) => {},
            Err(_) => {
                proof {
                    assert(false);
                }
                return Err(TreeError::NoOpenTier);
            },
        }
        proof {
            reveal_with_fuel(pow4, 9);
        }
        if self.epochs.len() < 65536 {
            self.current_epoch = Some(BlockTier::new());
            self.current_block = Some(CommitmentTier::new());
        } else {
            self.current_epoch = None;
            self.current_block = None;
        }
        proof {
            if epoch_nonempty(old(self).current_epoch->Some_0, old(self).current_block) {
                assert(top_hashes(*self) =~= top_hashes(*old(self)));
            }
        }
        Ok(h)
    }

    /// Forget the leaf at a position: if it is currently retained, replace
    /// it by its digest, mark it with the next forgetting generation, and
    /// return `true`; otherwise — pruned on insertion, forgotten already, or
    /// never inserted — change nothing and return `false`. Forgetting never
    /// changes any digest: the global root and every other position's
    /// witness survive it untouched.
    pub fn forget(&mut self, pos: Position) -> (r: bool)
        requires
            old(self).wf(),
        ensures
            final(self).wf(),
            forget_rel(*old(self), *final(self), pos, r),
            r ==> tree_leaf(
                *final(self),
                pos.epoch as int,
                pos.block as int,
                pos.commitment as int,
            ) == Some(
                prune_leaf(
                    tree_leaf(
                        *old(self),
                        pos.epoch as int,
                        pos.block as int,
                        pos.commitment as int,
                    )->Some_0,
                ),
            ),
            forall|e2: int, b2: int, c2: int|
                !(e2 == pos.epoch as int && b2 == pos.block as int && c2 == pos.commitment as int)
                    ==> tree_leaf(*final(self), e2, b2, c2) == tree_leaf(*old(self), e2, b2, c2),
            r ==> final(self).forgotten == forgotten_next(old(self).forgotten),
    {
        let gen = self.forgotten;
        let e = pos.epoch as usize;
        let b = pos.block as usize;
        let c = pos.commitment as usize;
        let n_epochs = self.epochs.len();
        let r: bool;
        if e < n_epochs {
            r = self.epochs.forget(gen, e, b, c);
        } else if e == n_epochs {
            match &mut self.current_epoch {
                Some(ce) => {
                    let nb = ce.len();
                    if b < nb {
                        r = ce.forget(gen, b, c);
                    } else if b == nb {
                        match &mut self.current_block {
                            Some(cb) => {
                                r = cb.forget(gen, c);
                            },
                            None => {
                                r = false;
                            },
                        }
                    } else {
                        r = false;
                    }
                },
                None => {
                    r = false;
                },
            }
        } else {
            r = false;
        }
        if r {
            let g2 = self.forgotten.next();
            self.forgotten = g2;
        }
        proof {
            assert(top_hashes(*self) =~= top_hashes(*old(self)));
        }
        r
    }

    /// Witness the leaf at a position: the retained commitment plus the
    /// ordered sibling digests from the leaf to the global root, enough to
    /// recompute the root independently. Fails with
    /// [`TreeError::NotWitnessed`] exactly when the position holds no
    /// retained leaf: pruned on insertion, forgotten since, or never
    /// inserted.
    pub fn witness(&self, pos: Position) -> (r: Result<AuthPath, TreeError>)
        requires
            self.wf(),
        ensures
            (r is Ok) == self.witnessed_at(pos),
            r matches Ok(path) ==> ({
                &&& path.position == pos
                &&& tree_leaf(*self, pos.epoch as int, pos.block as int, pos.commitment as int)
                    == Some(Insert::<Commitment>::Keep(path.commitment))
                &&& path.valid_for(self.root_spec())
            }),
            r matches Err(e) ==> e == TreeError::NotWitnessed,
    {
        let e = pos.epoch as usize;
        let b = pos.block as usize;
        let c = pos.commitment as usize;
        let n_epochs = self.epochs.len();
        proof {
            reveal_with_fuel(pow4, 9);
        }
        if e < n_epochs {
            // a sealed epoch
            let bt = match &self.epochs.children[e] {
                Insert::Keep(bt) => bt,
                Insert::Hash(_) => {
                    return Err(TreeError::NotWitnessed);
                },
            };
            if b >= bt.children.len() {
                return Err(TreeError::NotWitnessed);
            }
            let ct = match &bt.children[b] {
                Insert::Keep(ct) => ct,
                Insert::Hash(_) => {
                    return Err(TreeError::NotWitnessed);
                },
            };
            let (cm, s0) = match ct.witness_path(c) {
                Some(pair) => pair,
                None => {
                    return Err(TreeError::NotWitnessed);
                },
            };
            let s1 = compute_tier_path(LEVEL_BLOCK, &bt.hashes, b);
            let top = self.top_row();
            proof {
                assert(top@[e as int] == self.epochs.hashes@[e as int]);
                assert(self.epochs.hashes@[e as int] == tier_root(LEVEL_BLOCK, bt.hashes@));
                assert(bt.hashes@[b as int] == tier_root(LEVEL_COMMITMENT, ct.hashes@));
            }
            let s2 = compute_tier_path(LEVEL_EPOCH, &top, e);
            Ok(assemble_path(pos, cm, s0, s1, s2, Ghost(self.root_spec())))
        } else if e == n_epochs {
            let ce = match &self.current_epoch {
                Some(ce) => ce,
                None => {
                    return Err(TreeError::NotWitnessed);
                },
            };
            let n_blocks = ce.children.len();
            let cm: Commitment;
            let s0: Vec<PathStep>;
            let ghost ct_root: Digest;
            if b < n_blocks {
                let ct = match &ce.children[b] {
                    Insert::Keep(ct) => ct,
                    Insert::Hash(_) => {
                        return Err(TreeError::NotWitnessed);
                    },
                };
                match ct.witness_path(c) {
                    Some(pair) => {
                        cm = pair.0;
                        s0 = pair.1;
                    },
                    None => {
                        return Err(TreeError::NotWitnessed);
                    },
                }
                proof {
                    ct_root = tier_root(LEVEL_COMMITMENT, ct.hashes@);
                    assert(ce.hashes@[b as int] == ct_root);
                }
            } else if b == n_blocks {
                let cb = match &self.current_block {
                    Some(cb) => cb,
                    None => {
                        return Err(TreeError::NotWitnessed);
                    },
                };
                match cb.witness_path(c) {
                    Some(pair) => {
                        cm = pair.0;
                        s0 = pair.1;
                    },
                    None => {
                        return Err(TreeError::NotWitnessed);
                    },
                }
                proof {
                    ct_root = tier_root(LEVEL_COMMITMENT, cb.hashes@);
                }
            } else {
                return Err(TreeError::NotWitnessed);
            }
            let mid = mid_row(ce, &self.current_block);
            proof {
                assert(mid@[b as int] == ct_root);
            }
            let s1 = compute_tier_path(LEVEL_BLOCK, &mid, b);
            let top = self.top_row();
            proof {
                assert(epoch_nonempty(*ce, self.current_block));
                assert(top@[e as int] == tier_root(LEVEL_BLOCK, mid@));
            }
            let s2 = compute_tier_path(LEVEL_EPOCH, &top, e);
            Ok(assemble_path(pos, cm, s0, s1, s2, Ghost(self.root_spec())))
        } else {
            Err(TreeError::NotWitnessed)
        }
    }

    /// The global root digest, combining every sealed epoch's digest with
    /// the open epoch's.
    pub fn root(&self) -> (h: Digest)
        requires
            self.wf(),
        ensures
            h == self.root_spec(),
    {
        let top = self.top_row();
        compute_tier_root(LEVEL_EPOCH, &top)
    }

    /// Materialise the digest row of the tier of epochs.
    fn top_row(&self) -> (v: Vec<Digest>)
        requires
            self.wf(),
        ensures
            v@ == top_hashes(*self),
    {
        let mut top = clone_digests(&self.epochs.hashes);
        match &self.current_epoch {
            Some(e) => {
                let nonempty = e.len() > 0 || (match &self.current_block {
                    Some(b) => b.len() > 0,
                    None => false,
                });
                if nonempty {
                    let mid = mid_row(e, &self.current_block);
                    top.push(compute_tier_root(LEVEL_BLOCK, &mid));
                }
            },
            None => {},
        }
        proof {
            assert(top@ =~= top_hashes(*self));
        }
        top
    }
}

/// Join the three tiers' path steps into one proof, leaf to root.
fn assemble_path(
    pos: Position,
    cm: Commitment,
    s0: Vec<PathStep>,
    s1: Vec<PathStep>,
    s2: Vec<PathStep>,
    Ghost(root): Ghost<Digest>,
) -> (path: AuthPath)
    requires
        s0@.len() == 8,
        s1@.len() == 8,
        s2@.len() == 8,
        rebuild_tier(
            LEVEL_EPOCH,
            s2@,
            rebuild_tier(LEVEL_BLOCK, s1@, rebuild_tier(LEVEL_COMMITMENT, s0@, cm.hash_spec())),
        ) == root,
        forall|k: int|
            0 <= k < 8 ==> (#[trigger] s0@[k]).index as nat == digit(pos.commitment as nat, k as nat),
        forall|k: int|
            0 <= k < 8 ==> (#[trigger] s1@[k]).index as nat == digit(pos.block as nat, k as nat),
        forall|k: int|
            0 <= k < 8 ==> (#[trigger] s2@[k]).index as nat == digit(pos.epoch as nat, k as nat),
    ensures
        path.position == pos,
        path.commitment == cm,
        path.valid_for(root),
{
    let mut steps = s0;
    let mut s1m = s1;
    let mut s2m = s2;
    steps.append(&mut s1m);
    steps.append(&mut s2m);
    let path = AuthPath { position: pos, commitment: cm, steps };
    proof {
        assert(path.steps@.subrange(0, 8) =~= s0@);
        assert(path.steps@.subrange(8, 16) =~= s1@);
        assert(path.steps@.subrange(16, 24) =~= s2@);
        assert forall|j: int| 0 <= j < 24 implies #[trigger] path.step_ok(j) by {
            if 0 <= j < 8 {
                assert(path.steps@[j] == s0@[j]);
            } else if 8 <= j < 16 {
                assert(path.steps@[j] == s1@[j - 8]);
            } else {
                assert(path.steps@[j] == s2@[j - 16]);
            }
        }
    }
    path
}

/// Materialise the digest row of the open epoch.
fn mid_row(e: &BlockTier, cb: &Option<CommitmentTier>) -> (v: Vec<Digest>)
    requires
        e.wf(),
        cb matches Some(b) ==> b.wf(),
        (cb matches Some(b) && b.slots@.len() > 0) ==> e.children@.len() < pow4(8),
    ensures
        v@ == mid_hashes(*e, *cb),
        v@.len() <= pow4(8),
{
    let mut mid = clone_digests(&e.hashes);
    match cb {
        Some(b) => {
            if b.len() > 0 {
                mid.push(b.root_hash());
            }
        },
        None => {},
    }
    proof {
        assert(mid@ =~= mid_hashes(*e, *cb));
    }
    mid
}

} // verus!
