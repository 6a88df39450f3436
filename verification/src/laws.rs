//! The library's laws, stated over the same spec model that the operations'
//! contracts use, and proved once and for all.

use vstd::prelude::*;

use crate::hash::Digest;
use crate::hash::GetHash;
use crate::insert::{insert_hash, Insert};
use crate::merkle::{lemma_empty_tier_root, tier_root};
use crate::position::Position;
use crate::tier::{
    bt_insert_same, ct_insert_same, ct_same, ct_seal_rel, BlockTier, CommitmentTier,
    LEVEL_BLOCK, LEVEL_COMMITMENT,
};
use crate::tree::{forget_rel, mid_hashes, open_epoch_root, tree_leaf, tree_same, Tree};

verus! {

/// The two variants of [`Insert`] are interchangeable for every
/// digest-dependent computation: a kept item and its bare digest hash
/// identically, so retention is a local storage policy, never a
/// proof-relevant fact.
pub proof fn lemma_keep_prune_hash_equal<T: GetHash>(t: T)
    ensures
        insert_hash(Insert::Keep(t)) == insert_hash(Insert::<T>::Hash(t.hash_spec())),
{
}

/// Two trees with the same contents hold the same leaf at every position.
pub proof fn lemma_tree_same_leaf(a: Tree, b: Tree, e: int, bl: int, c: int)
    requires
        tree_same(a, b),
    ensures
        tree_leaf(a, e, bl, c) == tree_leaf(b, e, bl, c),
{
    if 0 <= e < a.epochs.children@.len() {
        assert(bt_insert_same(a.epochs.children@[e], b.epochs.children@[e]));
        match (a.epochs.children@[e], b.epochs.children@[e]) {
            (Insert::Keep(x), Insert::Keep(y)) => {
                if 0 <= bl < x.children@.len() {
                    assert(ct_insert_same(x.children@[bl], y.children@[bl]));
                }
            },
            _ => {},
        }
    } else if e == a.epochs.children@.len() && a.current_epoch is Some {
        let x = a.current_epoch->Some_0;
        let y = b.current_epoch->Some_0;
        if 0 <= bl < x.children@.len() {
            assert(ct_insert_same(x.children@[bl], y.children@[bl]));
        }
    }
}

/// Forgetting never changes the root: any sequence of forgettings leaves
/// every published root digest, and every other holder's proof, intact.
pub proof fn lemma_forget_preserves_root(pre: Tree, post: Tree, p: Position, r: bool)
    requires
        forget_rel(pre, post, p, r),
    ensures
        post.root_spec() == pre.root_spec(),
{
}

/// Forgetting is idempotent: once a position has been forgotten — or never
/// held a retained leaf — forgetting it again returns `false` and leaves the
/// tree exactly as it stood.
pub proof fn lemma_forget_idempotent(
    t0: Tree,
    t1: Tree,
    t2: Tree,
    p: Position,
    r1: bool,
    r2: bool,
)
    requires
        forget_rel(t0, t1, p, r1),
        forget_rel(t1, t2, p, r2),
    ensures
        r2 == false,
        tree_same(t2, t1),
{
    if !r1 {
        lemma_tree_same_leaf(t1, t0, p.epoch as int, p.block as int, p.commitment as int);
    }
}

/// A forgotten position is no longer witnessed: after a successful
/// forgetting, witnessing it must fail.
pub proof fn lemma_forgotten_not_witnessed(pre: Tree, post: Tree, p: Position)
    requires
        forget_rel(pre, post, p, true),
    ensures
        !post.witnessed_at(p),
{
}

/// Sealing freezes the digest: sealing twice returns the same root both
/// times, and the second sealing changes nothing at all.
pub proof fn lemma_seal_idempotent(
    t0: CommitmentTier,
    t1: CommitmentTier,
    t2: CommitmentTier,
    h1: Digest,
    h2: Digest,
)
    requires
        ct_seal_rel(t0, t1, h1),
        ct_seal_rel(t1, t2, h2),
    ensures
        h2 == h1,
        ct_same(t2, t1),
{
}

/// A block with no commitments seals to the canonical zero digest, whatever
/// came before it.
pub proof fn lemma_empty_block_root(t: CommitmentTier)
    requires
        t.wf(),
        t.slots@.len() == 0,
    ensures
        t.root_spec() == Digest::zero_spec(),
{
    lemma_empty_tier_root(LEVEL_COMMITMENT);
    assert(t.hashes@ =~= Seq::<Digest>::empty());
}

/// An epoch with no blocks and no commitments seals to the canonical zero
/// digest, whatever came before it.
pub proof fn lemma_empty_epoch_root(e: BlockTier, cb: Option<CommitmentTier>)
    requires
        e.wf(),
        e.children@.len() == 0,
        cb matches Some(b) ==> b.slots@.len() == 0,
    ensures
        open_epoch_root(e, cb) == Digest::zero_spec(),
{
    assert(mid_hashes(e, cb) =~= Seq::<Digest>::empty());
    assert(tier_root(LEVEL_BLOCK, Seq::<Digest>::empty()) == Digest::zero_spec());
}

} // verus!
