//! The fixed-shape perfect-tree digest machinery shared by all tiers.
//!
//! Every tier is a radix-4, depth-8 perfect tree over a left-to-right filled
//! sequence of leaf digests. A slot that no insertion has reached hashes as
//! the canonical empty digest, so a tier's root is a function of the filled
//! prefix alone. Authentication paths are lists of (child index, three
//! sibling digests) steps from the leaf to the root, and rebuilding along a
//! path is proved to reproduce the root.

use vstd::prelude::*;

use crate::hash::{combine, combine_spec, domain_tag, domain_tag_exec, Digest};
use vstd::arithmetic::div_mod::{lemma_div_denominator, lemma_fundamental_div_mod};

verus! {

/// The number of children of each internal node.
pub const RADIX: usize = 4;

/// The depth of each tier: leaves sit this many levels below the tier root.
pub const TIER_DEPTH: u8 = 8;

/// The number of leaf slots of one tier: `RADIX` to the power `TIER_DEPTH`.
pub const TIER_CAPACITY: usize = 65536;

/// Four to the power `n`: the number of leaf slots below one node at height
/// `n`.
pub open spec fn pow4(n: nat) -> nat
    decreases n,
{
    if n == 0 {
        1
    } else {
        4 * pow4((n - 1) as nat)
    }
}

/// `pow4` distributes over addition of exponents.
pub proof fn lemma_pow4_add(a: nat, b: nat)
    ensures
        pow4(a + b) == pow4(a) * pow4(b),
    decreases a,
{
    if a == 0 {
        assert(pow4(0 + b) == pow4(b));
        assert(pow4(0) == 1);
        assert(1 * pow4(b) == pow4(b)) by (nonlinear_arith);
    } else {
        lemma_pow4_add((a - 1) as nat, b);
        assert(pow4(a + b) == 4 * pow4((a - 1) as nat + b));
        assert(4 * (pow4((a - 1) as nat) * pow4(b)) == (4 * pow4((a - 1) as nat)) * pow4(b))
            by (nonlinear_arith);
        assert(pow4(a) == 4 * pow4((a - 1) as nat));
    }
}

/// Compute `pow4` for the heights that occur in a tier.
pub fn pow4_exec(n: u8) -> (r: usize)
    requires
        n <= 8,
    ensures
        r == pow4(n as nat),
{
    proof {
        reveal_with_fuel(pow4, 9);
    }
    match n {
        0 => 1,
        1 => 4,
        2 => 16,
        3 => 64,
        4 => 256,
        5 => 1024,
        6 => 4096,
        7 => 16384,
        _ => 65536,
    }
}

/// The digest of the node at height `h` over leaf slots
/// `[base, base + pow4(h))` of a tier at the given level. A node whose whole
/// slot range lies beyond the filled prefix is an empty subtree and hashes as
/// the canonical zero digest.
pub open spec fn subtree_root(level: u64, h: nat, hs: Seq<Digest>, base: nat) -> Digest
    decreases h,
{
    if base >= hs.len() {
        Digest::zero_spec()
    } else if h == 0 {
        hs[base as int]
    } else {
        let q = pow4((h - 1) as nat);
        combine_spec(
            domain_tag(level, h as u64),
            subtree_root(level, (h - 1) as nat, hs, base),
            subtree_root(level, (h - 1) as nat, hs, base + q),
            subtree_root(level, (h - 1) as nat, hs, base + 2 * q),
            subtree_root(level, (h - 1) as nat, hs, base + 3 * q),
        )
    }
}

/// The root digest of a whole tier at the given level, over the digests of
/// its filled leaf slots in order.
pub open spec fn tier_root(level: u64, hs: Seq<Digest>) -> Digest {
    subtree_root(level, 8, hs, 0)
}

/// An empty tier hashes as the canonical zero digest, at every level.
pub proof fn lemma_empty_tier_root(level: u64)
    ensures
        tier_root(level, Seq::<Digest>::empty()) == Digest::zero_spec(),
{
}

/// Compute the digest of the node at height `h` over leaf slots
/// `[base, base + pow4(h))`.
pub fn compute_subtree_root(level: u64, h: u8, hs: &Vec<Digest>, base: usize) -> (r: Digest)
    requires
        h <= 8,
        base + pow4(h as nat) <= pow4(8),
    ensures
        r == subtree_root(level, h as nat, hs@, base as nat),
    decreases h,
{
    proof {
        reveal_with_fuel(pow4, 9);
    }
    if base >= hs.len() {
        Digest::zero()
    } else if h == 0 {
        hs[base]
    } else {
        let q = pow4_exec(h - 1);
        let tag = domain_tag_exec(level, h as u64);
        let a = compute_subtree_root(level, h - 1, hs, base);
        let b = compute_subtree_root(level, h - 1, hs, base + q);
        let c = compute_subtree_root(level, h - 1, hs, base + 2 * q);
        let d = compute_subtree_root(level, h - 1, hs, base + 3 * q);
        combine(tag, &a, &b, &c, &d)
    }
}

/// Compute the root digest of a whole tier.
pub fn compute_tier_root(level: u64, hs: &Vec<Digest>) -> (r: Digest)
    requires
        hs@.len() <= pow4(8),
    ensures
        r == tier_root(level, hs@),
{
    proof {
        reveal_with_fuel(pow4, 9);
    }
    compute_subtree_root(level, 8, hs, 0)
}

/// One step of an authentication path: the child slot the path passes
/// through, and the digests of the three sibling slots in slot order.
#[derive(Clone, Copy, PartialEq, Eq, Structural, Debug)]
pub struct PathStep {
    /// The slot, below four, that the path's own child occupies.
    pub index: u8,
    /// The sibling digests of the remaining three slots, in slot order.
    pub s0: Digest,
    pub s1: Digest,
    pub s2: Digest,
}

/// Recombine one step: the digest of the node at `height` from the digest of
/// its path child, placed at the step's own slot, and the three siblings
/// filling the remaining slots in order.
pub open spec fn step_up(level: u64, height: nat, step: PathStep, cur: Digest) -> Digest {
    let tag = domain_tag(level, height as u64);
    if step.index == 0 {
        combine_spec(tag, cur, step.s0, step.s1, step.s2)
    } else if step.index == 1 {
        combine_spec(tag, step.s0, cur, step.s1, step.s2)
    } else if step.index == 2 {
        combine_spec(tag, step.s0, step.s1, cur, step.s2)
    } else {
        combine_spec(tag, step.s0, step.s1, step.s2, cur)
    }
}

/// Rebuild the first `k` steps of a path above `leaf`, for heights `1..=k`.
pub open spec fn rebuild_upto(level: u64, steps: Seq<PathStep>, leaf: Digest, k: nat) -> Digest
    decreases k,
{
    if k == 0 {
        leaf
    } else {
        step_up(level, k, steps[k - 1], rebuild_upto(level, steps, leaf, (k - 1) as nat))
    }
}

/// Rebuild a full tier's worth of path steps above `leaf`.
pub open spec fn rebuild_tier(level: u64, steps: Seq<PathStep>, leaf: Digest) -> Digest {
    rebuild_upto(level, steps, leaf, 8)
}

/// Rebuilding reads only the first `k` steps: two paths that agree there
/// rebuild to the same digest.
pub proof fn lemma_rebuild_prefix(
    level: u64,
    s1: Seq<PathStep>,
    s2: Seq<PathStep>,
    leaf: Digest,
    k: nat,
)
    requires
        forall|i: int| 0 <= i < k ==> s1[i] == s2[i],
    ensures
        rebuild_upto(level, s1, leaf, k) == rebuild_upto(level, s2, leaf, k),
    decreases k,
{
    if k > 0 {
        lemma_rebuild_prefix(level, s1, s2, leaf, (k - 1) as nat);
    }
}

/// The radix digit of `pos` at height `k`: which child slot the leaf at
/// `pos` falls under, below the node at height `k + 1` above it.
pub open spec fn digit(pos: nat, k: nat) -> nat {
    (pos / pow4(k)) % 4
}

/// Compute the radix digit of `pos` at height `k`.
pub fn digit_exec(pos: u16, k: u8) -> (d: u8)
    requires
        k <= 8,
    ensures
        d as nat == digit(pos as nat, k as nat),
{
    proof {
        lemma_pow4_pos(k as nat);
    }
    let q = pow4_exec(k);
    ((pos as usize / q) % 4) as u8
}

/// The first leaf slot of the node at height `h` above the leaf at `pos`.
pub open spec fn node_base(pos: nat, h: nat) -> nat {
    (pos / pow4(h)) * pow4(h)
}

/// Descending one level from the node at height `h` above `pos` lands on the
/// child slot given by the digit of `pos` at height `h - 1`.
proof fn lemma_base_step(pos: nat, h: nat)
    requires
        1 <= h,
    ensures
        node_base(pos, h) + digit(pos, (h - 1) as nat) * pow4((h - 1) as nat) == node_base(
            pos,
            (h - 1) as nat,
        ),
{
    let q = pow4((h - 1) as nat);
    assert(q > 0) by {
        lemma_pow4_pos((h - 1) as nat);
    }
    assert(pow4(h) == 4 * q);
    let d = pos / q;
    lemma_div_denominator(pos as int, q as int, 4);
    assert(pos / (q * 4) == d / 4);
    assert(q as int * 4 == 4 * q as int);
    assert(pos as int / (4 * q as int) == d as int / 4);
    lemma_fundamental_div_mod(d as int, 4);
    assert(d == 4 * (d / 4) + d % 4);
    assert((d / 4) * (4 * q) + (d % 4) * q == d * q) by (nonlinear_arith)
        requires
            d == 4 * (d / 4) + d % 4,
    ;
}

/// `pow4` is positive.
pub proof fn lemma_pow4_pos(n: nat)
    ensures
        pow4(n) >= 1,
    decreases n,
{
    if n > 0 {
        lemma_pow4_pos((n - 1) as nat);
    }
}

/// The node base never passes the leaf position itself.
proof fn lemma_node_base_le(pos: nat, h: nat)
    ensures
        node_base(pos, h) <= pos,
{
    lemma_pow4_pos(h);
    let q = pow4(h);
    lemma_fundamental_div_mod(pos as int, q as int);
    assert((pos / q) * q == pos - pos % q) by (nonlinear_arith)
        requires
            q > 0,
            pos as int == q as int * ((pos as int) / (q as int)) + (pos as int) % (q as int),
    ;
}

/// The node at height `h` above a leaf of one tier stays within the tier.
proof fn lemma_node_base_bound(pos: nat, h: nat)
    requires
        h <= 8,
        pos < pow4(8),
    ensures
        node_base(pos, h) + pow4(h) <= pow4(8),
{
    let q = pow4(h);
    lemma_pow4_pos(h);
    lemma_pow4_pos((8 - h) as nat);
    lemma_pow4_add(h, (8 - h) as nat);
    assert(pow4(8) == q * pow4((8 - h) as nat));
    let m = pow4((8 - h) as nat);
    assert(pos / q < m) by (nonlinear_arith)
        requires
            q > 0,
            m > 0,
            pos < q * m,
    ;
    assert((pos / q) * q + q <= m * q) by (nonlinear_arith)
        requires
            q > 0,
            pos / q < m,
    ;
    assert(m * q == q * m) by (nonlinear_arith);
}

/// Compute the authentication path of leaf slot `index` within one tier: the
/// eight steps from the leaf to the tier root. Rebuilding the steps above the
/// leaf's digest reproduces the tier root, and the step indices are the radix
/// digits of the leaf slot.
#[verifier::rlimit(30)]
pub fn compute_tier_path(level: u64, hs: &Vec<Digest>, index: usize) -> (steps: Vec<PathStep>)
    requires
        index < hs@.len(),
        hs@.len() <= pow4(8),
    ensures
        steps@.len() == 8,
        rebuild_tier(level, steps@, hs@[index as int]) == tier_root(level, hs@),
        forall|k: int|
            0 <= k < 8 ==> (#[trigger] steps@[k]).index as nat == digit(index as nat, k as nat),
{
    proof {
        reveal_with_fuel(pow4, 9);
    }
    let ghost leaf = hs@[index as int];
    let mut steps: Vec<PathStep> = Vec::new();
    let mut cur: Digest = hs[index];
    proof {
        assert(pow4(0) == 1);
        assert(index as nat / 1nat == index as nat);
        assert(node_base(index as nat, 0) == index as nat);
    }
    let mut h: u8 = 1;
    while h <= 8
        invariant
            1 <= h <= 9,
            index < hs@.len() <= pow4(8),
            steps@.len() == h - 1,
            leaf == hs@[index as int],
            cur == subtree_root(level, (h - 1) as nat, hs@, node_base(index as nat, (h - 1) as nat)),
            rebuild_upto(level, steps@, leaf, (h - 1) as nat) == cur,
            forall|k: int|
                0 <= k < h - 1 ==> (#[trigger] steps@[k]).index as nat == digit(
                    index as nat,
                    k as nat,
                ),
        decreases 9 - h,
    {
        proof {
            reveal_with_fuel(pow4, 9);
        }
        let q = pow4_exec(h - 1);
        let p4h = pow4_exec(h);
        proof {
            lemma_node_base_bound(index as nat, h as nat);
            lemma_node_base_le(index as nat, h as nat);
            lemma_base_step(index as nat, h as nat);
            lemma_pow4_pos((h - 1) as nat);
        }
        let nb = (index / p4h) * p4h;
        assert(nb == node_base(index as nat, h as nat));
        let dg = (index / q) % 4;
        assert(dg as nat == digit(index as nat, (h - 1) as nat));
        let tag = domain_tag_exec(level, h as u64);
        let a = compute_subtree_root(level, h - 1, hs, nb);
        let b = compute_subtree_root(level, h - 1, hs, nb + q);
        let c = compute_subtree_root(level, h - 1, hs, nb + 2 * q);
        let d = compute_subtree_root(level, h - 1, hs, nb + 3 * q);
        let combined = combine(tag, &a, &b, &c, &d);
        proof {
            // the node is not an empty subtree: its base does not pass the leaf
            assert(nb < hs@.len());
            assert(combined == subtree_root(level, h as nat, hs@, nb as nat));
            // the child at the path's own digit is the digest carried so far
            assert(nb + dg * q == node_base(index as nat, (h - 1) as nat));
        }
        let step: PathStep = if dg == 0 {
            proof {
                assert(dg * q == 0) by (nonlinear_arith)
                    requires
                        dg == 0,
                ;
                assert(cur == a);
            }
            PathStep { index: 0, s0: b, s1: c, s2: d }
        } else if dg == 1 {
            proof {
                assert(dg * q == q) by (nonlinear_arith)
                    requires
                        dg == 1,
                ;
                assert(cur == b);
            }
            PathStep { index: 1, s0: a, s1: c, s2: d }
        } else if dg == 2 {
            proof {
                assert(nb + dg * q == nb + 2 * q);
                assert(cur == c);
            }
            PathStep { index: 2, s0: a, s1: b, s2: d }
        } else {
            proof {
                assert(dg == 3);
                assert(nb + dg * q == nb + 3 * q);
                assert(cur == d);
            }
            PathStep { index: 3, s0: a, s1: b, s2: c }
        };
        proof {
            assert(step_up(level, h as nat, step, cur) == combined);
        }
        let ghost old_steps = steps@;
        steps.push(step);
        proof {
            lemma_rebuild_prefix(level, old_steps, steps@, leaf, (h - 1) as nat);
            assert(rebuild_upto(level, steps@, leaf, h as nat) == step_up(
                level,
                h as nat,
                steps@[h - 1],
                rebuild_upto(level, steps@, leaf, (h - 1) as nat),
            ));
        }
        cur = combined;
        h = h + 1;
    }
    proof {
        assert(node_base(index as nat, 8) == 0) by {
            reveal_with_fuel(pow4, 9);
            assert(pow4(8) == 65536);
            assert(index < 65536);
            assert(index as nat / 65536nat == 0);
            assert(node_base(index as nat, 8) == (index as nat / 65536nat) * 65536nat);
            assert((index as nat / 65536nat) * 65536nat == 0) by (nonlinear_arith)
                requires
                    index as nat / 65536nat == 0,
            ;
        }
    }
    steps
}

/// Rebuild the eight steps `steps[start .. start + 8]` above `leaf`, for one
/// tier at the given level.
pub fn rebuild_tier_exec(level: u64, steps: &Vec<PathStep>, start: usize, leaf: Digest) -> (r:
    Digest)
    requires
        start + 8 <= steps@.len(),
    ensures
        r == rebuild_tier(level, steps@.subrange(start as int, start as int + 8), leaf),
{
    let ghost sub = steps@.subrange(start as int, start as int + 8);
    let n = steps.len();
    let mut cur = leaf;
    let mut k: usize = 0;
    while k < 8
        invariant
            0 <= k <= 8,
            start + 8 <= n,
            n == steps@.len(),
            sub == steps@.subrange(start as int, start as int + 8),
            cur == rebuild_upto(level, sub, leaf, k as nat),
        decreases 8 - k,
    {
        let step = steps[start + k];
        assert(step == sub[k as int]);
        cur = step_up_exec(level, (k + 1) as u64, &step, cur);
        k = k + 1;
    }
    cur
}

/// Recombine one step of a path at the given height.
fn step_up_exec(level: u64, height: u64, step: &PathStep, cur: Digest) -> (r: Digest)
    ensures
        r == step_up(level, height as nat, *step, cur),
{
    let tag = domain_tag_exec(level, height);
    if step.index == 0 {
        combine(tag, &cur, &step.s0, &step.s1, &step.s2)
    } else if step.index == 1 {
        combine(tag, &step.s0, &cur, &step.s1, &step.s2)
    } else if step.index == 2 {
        combine(tag, &step.s0, &step.s1, &cur, &step.s2)
    } else {
        combine(tag, &step.s0, &step.s1, &step.s2, &cur)
    }
}

} // verus!
