//! The digest type and the node-hash combiner.
//!
//! Every addressable node of the tree exposes its digest through [`GetHash`].
//! Internal nodes combine their children's digests with a domain tag derived
//! from the tier level and the node height, so that equal child digests at
//! different places in the tree yield different parent digests.

use vstd::prelude::*;

verus! {

/// Multiplier of the word-mixing step.
pub const MIX_PRIME: u64 = 0x100000001b3;

/// Initial accumulator of the word-mixing fold.
pub const MIX_OFFSET: u64 = 0xcbf29ce484222325;

/// A fixed-width (four 64-bit words) digest with a canonical zero value.
///
/// The zero digest stands for an empty subtree: a slot that no insertion
/// has reached yet hashes as if it held nothing at all.
#[derive(Clone, Copy, PartialEq, Eq, Structural, Debug)]
pub struct Digest {
    pub w0: u64,
    pub w1: u64,
    pub w2: u64,
    pub w3: u64,
}

impl Digest {
    /// The canonical empty-subtree digest.
    pub open spec fn zero_spec() -> Digest {
        Digest { w0: 0, w1: 0, w2: 0, w3: 0 }
    }

    /// Construct the canonical empty-subtree digest.
    pub fn zero() -> (h: Digest)
        ensures
            h == Digest::zero_spec(),
    {
        Digest { w0: 0, w1: 0, w2: 0, w3: 0 }
    }
}

/// One step of the mixing fold: absorb one word into the accumulator.
pub open spec fn mix_word(acc: u64, x: u64) -> u64 {
    (acc ^ x).wrapping_mul(MIX_PRIME)
}

/// Absorb all four words of a digest into the accumulator.
pub open spec fn mix_hash(acc: u64, h: Digest) -> u64 {
    mix_word(mix_word(mix_word(mix_word(acc, h.w0), h.w1), h.w2), h.w3)
}

/// The 64-bit core of the combiner: a fold over the domain tag and the four
/// child digests, in slot order. Order sensitivity comes from the fold:
/// swapping children changes the accumulator sequence.
pub open spec fn combine_core(tag: u64, a: Digest, b: Digest, c: Digest, d: Digest) -> u64 {
    mix_hash(mix_hash(mix_hash(mix_hash(mix_word(MIX_OFFSET, tag), a), b), c), d)
}

/// Widen a 64-bit accumulator back to a full digest.
pub open spec fn widen(x: u64) -> Digest {
    Digest { w0: x, w1: mix_word(x, 1), w2: mix_word(x, 2), w3: mix_word(x, 3) }
}

/// The digest of an internal node, from its domain tag and the digests of its
/// four child slots in order. Opaque: proofs about the tree treat it as an
/// unanalysed combination; only [`combine`] looks inside.
#[verifier::opaque]
pub open spec fn combine_spec(tag: u64, a: Digest, b: Digest, c: Digest, d: Digest) -> Digest {
    widen(combine_core(tag, a, b, c, d))
}

/// Domain tag of an internal node: the tier level in the high byte, the node
/// height above the leaves in the low byte.
pub open spec fn domain_tag(level: u64, height: u64) -> u64 {
    level.wrapping_mul(256).wrapping_add(height)
}

fn mix_word_exec(acc: u64, x: u64) -> (r: u64)
    ensures
        r == mix_word(acc, x),
{
    (acc ^ x).wrapping_mul(MIX_PRIME)
}

fn mix_hash_exec(acc: u64, h: &Digest) -> (r: u64)
    ensures
        r == mix_hash(acc, *h),
{
    let r0 = mix_word_exec(acc, h.w0);
    let r1 = mix_word_exec(r0, h.w1);
    let r2 = mix_word_exec(r1, h.w2);
    mix_word_exec(r2, h.w3)
}

/// Compute the digest of an internal node from its domain tag and the digests
/// of its four child slots in order.
pub fn combine(tag: u64, a: &Digest, b: &Digest, c: &Digest, d: &Digest) -> (r: Digest)
    ensures
        r == combine_spec(tag, *a, *b, *c, *d),
{
    proof {
        reveal(combine_spec);
    }
    let t = mix_word_exec(MIX_OFFSET, tag);
    let m0 = mix_hash_exec(t, a);
    let m1 = mix_hash_exec(m0, b);
    let m2 = mix_hash_exec(m1, c);
    let x = mix_hash_exec(m2, d);
    Digest { w0: x, w1: mix_word_exec(x, 1), w2: mix_word_exec(x, 2), w3: mix_word_exec(x, 3) }
}

/// Compute the domain tag of an internal node.
pub fn domain_tag_exec(level: u64, height: u64) -> (t: u64)
    ensures
        t == domain_tag(level, height),
{
    level.wrapping_mul(256).wrapping_add(height)
}

/// The capability every addressable node exposes: a digest, always available,
/// and a cached digest, available only without recomputation.
pub trait GetHash {
    /// The node's digest, as a mathematical value.
    spec fn hash_spec(&self) -> Digest;

    /// The digest the node already knows without computation: present
    /// exactly when a cache holds it or the node is in pruned form, where
    /// the digest is definitionally known.
    spec fn cached_spec(&self) -> Option<Digest>;

    /// What the node asks of itself before its digest can be computed;
    /// trivial for leaf-like nodes, well-formedness for whole tiers.
    spec fn hash_wf(&self) -> bool;

    /// The node's digest; computes it if it is not cached.
    fn hash(&self) -> (h: Digest)
        requires
            self.hash_wf(),
        ensures
            h == self.hash_spec(),
    ;

    /// The node's digest if it is already known without computation: exactly
    /// the cached digest, which is the true digest whenever it is present.
    fn cached_hash(&self) -> (c: Option<Digest>)
        requires
            self.hash_wf(),
        ensures
            c == self.cached_spec(),
            c matches Some(h) ==> h == self.hash_spec(),
    ;
}

} // verus!
