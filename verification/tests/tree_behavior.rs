use tct::commitment::Commitment;
use tct::error::TreeError;
use tct::hash::{combine, domain_tag_exec, Digest, GetHash};
use tct::insert::Insert;
use tct::merkle::compute_tier_root;
use tct::position::{Forgotten, Position};
use tct::tier::{CommitmentTier, LEVEL_BLOCK, LEVEL_COMMITMENT, LEVEL_EPOCH};
use tct::tree::Tree;

fn cm(x: u64) -> Commitment {
    Commitment::new(x, x ^ 0x5555, x.wrapping_mul(7), 1)
}

#[test]
fn empty_tree_root_is_deterministic() {
    let t1 = Tree::new();
    let t2 = Tree::new();
    assert_eq!(t1.root(), t2.root());
    assert_eq!(t1.root(), Digest::zero());
}

#[test]
fn insert_assigns_positions_in_order() {
    let mut t = Tree::new();
    let p0 = t.insert(cm(1), true).unwrap();
    let p1 = t.insert(cm(2), false).unwrap();
    assert_eq!(p0, Position::new(0, 0, 0));
    assert_eq!(p1, Position::new(0, 0, 1));
    t.end_block().unwrap();
    let p2 = t.insert(cm(3), true).unwrap();
    assert_eq!(p2, Position::new(0, 1, 0));
    t.end_epoch().unwrap();
    let p3 = t.insert(cm(4), true).unwrap();
    assert_eq!(p3, Position::new(1, 0, 0));
}

#[test]
fn retain_and_prune_hash_identically() {
    let mut a = Tree::new();
    let mut b = Tree::new();
    a.insert(cm(9), true).unwrap();
    b.insert(cm(9), false).unwrap();
    assert_eq!(a.root(), b.root());
}

#[test]
fn forget_preserves_root_and_is_idempotent() {
    let mut t = Tree::new();
    let p0 = t.insert(cm(10), true).unwrap();
    let p1 = t.insert(cm(11), true).unwrap();
    t.end_block().unwrap();
    let p2 = t.insert(cm(12), true).unwrap();
    let root = t.root();

    assert!(t.forget(p0));
    assert_eq!(t.root(), root);
    assert!(!t.forget(p0));
    assert_eq!(t.root(), root);

    assert!(t.forget(p2));
    assert_eq!(t.root(), root);
    assert!(t.forget(p1));
    assert_eq!(t.root(), root);
    assert!(!t.forget(p1));
}

#[test]
fn forget_marks_generations_monotonically() {
    let mut t = Tree::new();
    let p0 = t.insert(cm(20), true).unwrap();
    let p1 = t.insert(cm(21), true).unwrap();
    assert_eq!(t.forgotten, Forgotten { index: 0 });
    assert!(t.forget(p1));
    assert_eq!(t.forgotten, Forgotten { index: 1 });
    assert!(t.forget(p0));
    assert_eq!(t.forgotten, Forgotten { index: 2 });
    let cb = t.current_block.as_ref().unwrap();
    assert_eq!(cb.marks[0], Some(Forgotten { index: 1 }));
    assert_eq!(cb.marks[1], Some(Forgotten { index: 0 }));
}

#[test]
fn forget_unknown_positions_returns_false() {
    let mut t = Tree::new();
    t.insert(cm(30), false).unwrap();
    // pruned on insertion
    assert!(!t.forget(Position::new(0, 0, 0)));
    // never inserted
    assert!(!t.forget(Position::new(0, 0, 7)));
    assert!(!t.forget(Position::new(0, 3, 0)));
    assert!(!t.forget(Position::new(9, 0, 0)));
}

#[test]
fn witness_verifies_against_root() {
    let mut t = Tree::new();
    let p0 = t.insert(cm(40), true).unwrap();
    let p1 = t.insert(cm(41), false).unwrap();
    let p2 = t.insert(cm(42), true).unwrap();
    let root = t.root();

    let path = t.witness(p0).unwrap();
    assert_eq!(path.commitment, cm(40));
    assert_eq!(path.position, p0);
    assert_eq!(path.steps.len(), 24);
    assert!(path.verify(root));

    // an unretained position has no witness
    assert!(matches!(t.witness(p1), Err(TreeError::NotWitnessed)));

    // a forgotten position loses its witness, other witnesses survive
    assert!(t.forget(p0));
    assert!(matches!(t.witness(p0), Err(TreeError::NotWitnessed)));
    let path2 = t.witness(p2).unwrap();
    assert!(path2.verify(t.root()));
    assert_eq!(t.root(), root);
}

#[test]
fn witness_survives_block_and_epoch_boundaries() {
    let mut t = Tree::new();
    let p0 = t.insert(cm(50), true).unwrap();
    t.end_block().unwrap();
    let p1 = t.insert(cm(51), true).unwrap();
    t.end_epoch().unwrap();
    let p2 = t.insert(cm(52), true).unwrap();

    let root = t.root();
    for p in [p0, p1, p2] {
        let path = t.witness(p).unwrap();
        assert!(path.verify(root));
        assert!(!path.verify(Digest::zero()));
    }
}

#[test]
fn witness_in_sealed_block_of_open_epoch() {
    let mut t = Tree::new();
    let p0 = t.insert(cm(55), true).unwrap();
    t.end_block().unwrap();
    let p1 = t.insert(cm(56), true).unwrap();
    let root = t.root();
    assert!(t.witness(p0).unwrap().verify(root));
    assert!(t.witness(p1).unwrap().verify(root));
    // forgetting inside the sealed block keeps the root
    assert!(t.forget(p0));
    assert_eq!(t.root(), root);
    assert!(matches!(t.witness(p0), Err(TreeError::NotWitnessed)));
    assert!(t.witness(p1).unwrap().verify(root));
}

#[test]
fn forget_in_sealed_epoch() {
    let mut t = Tree::new();
    let p0 = t.insert(cm(57), true).unwrap();
    t.end_block().unwrap();
    t.end_epoch().unwrap();
    let p1 = t.insert(cm(58), true).unwrap();
    let root = t.root();
    assert!(t.forget(p0));
    assert_eq!(t.root(), root);
    assert!(matches!(t.witness(p0), Err(TreeError::NotWitnessed)));
    assert!(t.witness(p1).unwrap().verify(root));
    assert!(!t.forget(p0));
}

#[test]
fn epoch_block_capacity_exhausts() {
    let mut t = Tree::new();
    for _ in 0..65536 {
        t.end_block().unwrap();
    }
    // no commitment slot can open before the next epoch
    assert_eq!(t.insert(cm(1), true), Err(TreeError::NoOpenTier));
    assert!(matches!(t.end_block(), Err(TreeError::NoOpenTier)));
    // concluding the epoch opens room again
    t.end_epoch().unwrap();
    assert_eq!(t.insert(cm(1), true).unwrap(), Position::new(1, 0, 0));
}

#[test]
fn chain_capacity_exhausts() {
    let mut t = Tree::new();
    for _ in 0..65536 {
        t.end_epoch().unwrap();
    }
    assert_eq!(t.insert(cm(1), true), Err(TreeError::Full));
    assert!(matches!(t.end_block(), Err(TreeError::NoOpenTier)));
    assert!(matches!(t.end_epoch(), Err(TreeError::NoOpenTier)));
}

#[test]
fn tampered_proof_fails_verification() {
    let mut t = Tree::new();
    let p0 = t.insert(cm(60), true).unwrap();
    let root = t.root();
    let mut path = t.witness(p0).unwrap();
    assert!(path.verify(root));
    let honest = path.steps[3].s1;
    path.steps[3].s1 = Digest { w0: 1, w1: 2, w2: 3, w3: 4 };
    assert!(!path.verify(root));
    path.steps[3].s1 = honest;
    assert!(path.verify(root));
    path.commitment = cm(61);
    assert!(!path.verify(root));
}

#[test]
fn proof_is_bound_to_its_position() {
    let mut t = Tree::new();
    t.insert(cm(62), true).unwrap();
    let p1 = t.insert(cm(63), true).unwrap();
    let root = t.root();
    let mut path = t.witness(p1).unwrap();
    assert!(path.verify(root));
    // the same siblings do not prove any other position
    path.position = Position::new(0, 0, 0);
    assert!(!path.verify(root));
}

#[test]
fn sealing_freezes_hash_and_rejects_insertion() {
    let mut tier = CommitmentTier::new();
    tier.insert(Insert::Keep(cm(70))).unwrap();
    let h1 = tier.seal();
    let h2 = tier.seal();
    assert_eq!(h1, h2);
    assert_eq!(
        tier.insert(Insert::Keep(cm(71))),
        Err(TreeError::TierSealed)
    );
    assert_eq!(tier.root_hash(), h1);
}

#[test]
fn commitment_tier_capacity_boundary() {
    let mut tier = CommitmentTier::new();
    for i in 0..65536u64 {
        assert!(tier.insert(Insert::Hash(cm(i).hash())).is_ok());
    }
    assert_eq!(
        tier.insert(Insert::Keep(cm(0))),
        Err(TreeError::TierFull)
    );
}

#[test]
fn tree_reports_full_block() {
    let mut t = Tree::new();
    for i in 0..65536u64 {
        assert!(t.insert(cm(i), false).is_ok());
    }
    assert_eq!(t.insert(cm(0), true), Err(TreeError::TierFull));
    // concluding the block opens room again
    t.end_block().unwrap();
    assert_eq!(t.insert(cm(1), true).unwrap(), Position::new(0, 1, 0));
}

#[test]
fn empty_block_and_epoch_seal_to_canonical_digests() {
    let mut t = Tree::new();
    let hb = t.end_block().unwrap();
    assert_eq!(hb, Digest::zero());

    // independent of prior history
    let mut u = Tree::new();
    u.insert(cm(80), true).unwrap();
    u.end_block().unwrap();
    u.end_epoch().unwrap();
    let hb2 = u.end_block().unwrap();
    assert_eq!(hb2, Digest::zero());

    let mut v = Tree::new();
    let he = v.end_epoch().unwrap();
    assert_eq!(he, Digest::zero());
    let he2 = v.end_epoch().unwrap();
    assert_eq!(he2, Digest::zero());
}

#[test]
fn end_block_and_end_epoch_preserve_nonempty_roots() {
    let mut t = Tree::new();
    t.insert(cm(90), true).unwrap();
    t.insert(cm(91), false).unwrap();
    let r0 = t.root();
    t.end_block().unwrap();
    assert_eq!(t.root(), r0);
    t.end_epoch().unwrap();
    assert_eq!(t.root(), r0);
}

#[test]
fn end_to_end_scenario_reproduces_root() {
    // two commitments in the first block of the first epoch
    let c1 = cm(100);
    let c2 = cm(101);
    let mut t = Tree::new();
    let p1 = t.insert(c1, true).unwrap();
    let p2 = t.insert(c2, false).unwrap();
    assert_eq!(p1, Position::new(0, 0, 0));
    assert_eq!(p2, Position::new(0, 0, 1));
    t.end_block().unwrap();
    t.end_epoch().unwrap();
    let root = t.root();

    // the root is recomputable from the kept value, the pruned digest and
    // the canonical empty fillers alone
    let leaves = vec![c1.hash(), c2.hash()];
    let block_root = compute_tier_root(LEVEL_COMMITMENT, &leaves);
    let blocks = vec![block_root];
    let epoch_root = compute_tier_root(LEVEL_BLOCK, &blocks);
    let epochs = vec![epoch_root];
    assert_eq!(compute_tier_root(LEVEL_EPOCH, &epochs), root);

    // the retained position verifies, the pruned one was never witnessed
    let path = t.witness(p1).unwrap();
    assert!(path.verify(root));
    assert!(matches!(t.witness(p2), Err(TreeError::NotWitnessed)));

    // forgetting the retained one keeps the root and removes the witness
    assert!(t.forget(p1));
    assert_eq!(t.root(), root);
    assert!(matches!(t.witness(p1), Err(TreeError::NotWitnessed)));
}

#[test]
fn combiner_is_order_sensitive() {
    let a = cm(1).hash();
    let b = cm(2).hash();
    let z = Digest::zero();
    let tag = domain_tag_exec(0, 1);
    assert_ne!(combine(tag, &a, &b, &z, &z), combine(tag, &b, &a, &z, &z));
    let other_tag = domain_tag_exec(1, 1);
    assert_ne!(
        combine(tag, &a, &b, &z, &z),
        combine(other_tag, &a, &b, &z, &z)
    );
}

#[test]
fn insert_algebra_behaves() {
    let keep: Insert<u32> = Insert::Keep(5);
    let hash: Insert<u32> = Insert::Hash(Digest::zero());
    assert!(keep.is_keep());
    assert!(!keep.is_hash());
    assert!(hash.is_hash());
    assert!(!hash.is_keep());

    assert!(matches!(keep.as_ref(), Insert::Keep(&5)));
    assert!(matches!(hash.as_ref(), Insert::Hash(_)));

    let mut m = keep;
    match m.as_mut() {
        Insert::Keep(v) => *v = 6,
        Insert::Hash(_) => panic!("kept item expected"),
    }
    assert_eq!(m.keep(), Some(6));
    assert_eq!(hash.keep(), None);

    let mapped = keep.map(|x| x + 1);
    assert_eq!(mapped.keep(), Some(6));
    let mapped_hash = hash.map(|x| x + 1);
    assert!(mapped_hash.is_hash());

    let chained = keep.and_then(|x| Insert::<u32>::Hash(cm(x as u64).hash()));
    assert!(chained.is_hash());
    let chained_hash = hash.and_then(|_| Insert::Keep(9u32));
    assert!(chained_hash.is_hash());
}

#[test]
fn get_hash_caching_discipline() {
    let c = cm(7);
    assert_eq!(c.cached_hash(), Some(c.hash()));

    // a pruned node knows its digest definitionally, a kept one asks its payload
    let pruned: Insert<Commitment> = Insert::Hash(cm(8).hash());
    assert_eq!(pruned.cached_hash(), Some(cm(8).hash()));
    let kept: Insert<Commitment> = Insert::Keep(c);
    assert_eq!(kept.cached_hash(), Some(c.hash()));

    let mut tier = CommitmentTier::new();
    tier.insert(Insert::Keep(c)).unwrap();
    // an open tier has not cached its root yet
    assert_eq!(tier.cached_hash(), None);
    let h = tier.seal();
    assert_eq!(tier.cached_hash(), Some(h));
    assert_eq!(tier.hash(), h);

    let wrapped: Insert<Commitment> = Insert::Hash(h);
    assert_eq!(wrapped.cached_hash(), Some(h));
    assert_eq!(wrapped.hash(), h);
}
