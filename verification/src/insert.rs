//! Either an item or just its digest, to be used when inserting into a tree.
//!
//! Only items inserted with [`Insert::Keep`] are retained as witnessed leaves
//! of the tree; those inserted with [`Insert::Hash`] are pruned. For every
//! digest-dependent computation the two variants are interchangeable:
//! `Keep(item)` hashes exactly as `Hash(item.hash())` does. The variant is a
//! local retention policy, never a proof-relevant fact.

use vstd::prelude::*;

use crate::hash::{Digest, GetHash};

verus! {

/// An item unto itself, or the digest that is all that remains of one.
///
/// A `Hash` carries no reconstructible substructure: once a subtree is in
/// this form, only the digest survives.
#[derive(Clone, Copy, Debug)]
pub enum Insert<T> {
    /// An item unto itself: keep this witnessed in the tree.
    Keep(T),
    /// The digest of an item: don't keep this witnessed in the tree.
    Hash(Digest),
}

impl<T> Insert<T> {
    /// Transform a `&Insert<T>` into an `Insert<&T>`.
    pub fn as_ref(&self) -> (r: Insert<&T>)
        ensures
            self matches Insert::Keep(t) ==> (r matches Insert::Keep(u) && *u == t),
            self matches Insert::Hash(h) ==> r == Insert::<&T>::Hash(*h),
    {
        match self {
            Insert::Keep(item) => Insert::Keep(item),
            Insert::Hash(hash) => Insert::Hash(*hash),
        }
    }

    /// Transform a `&mut Insert<T>` into an `Insert<&mut T>`.
    pub fn as_mut(&mut self) -> (r: Insert<&mut T>)
        ensures
            (*old(self)) matches Insert::Keep(_) ==> r matches Insert::Keep(_),
            (*old(self)) matches Insert::Hash(h) ==> r == Insert::<&mut T>::Hash(h) && *final(self)
                == *old(self),
    {
        match self {
            Insert::Keep(item) => Insert::Keep(item),
            Insert::Hash(hash) => Insert::Hash(*hash),
        }
    }

    /// Test if this [`Insert`] is an [`Insert::Keep`].
    pub fn is_keep(&self) -> (r: bool)
        ensures
            r == (self matches Insert::Keep(_)),
    {
        matches!(self, Insert::Keep(_))
    }

    /// Test if this [`Insert`] is an [`Insert::Hash`].
    pub fn is_hash(&self) -> (r: bool)
        ensures
            r == (self matches Insert::Hash(_)),
    {
        matches!(self, Insert::Hash(_))
    }

    /// Map a function over the [`Insert::Keep`] part of an `Insert<T>`.
    pub fn map<U, F: FnOnce(T) -> U>(self, f: F) -> (r: Insert<U>)
        requires
            self matches Insert::Keep(t) ==> call_requires(f, (t,)),
        ensures
            self matches Insert::Keep(t) ==> (r matches Insert::Keep(u) && call_ensures(
                f,
                (t,),
                u,
            )),
            self matches Insert::Hash(h) ==> r == Insert::<U>::Hash(h),
    {
        match self {
            Insert::Keep(item) => Insert::Keep(f(item)),
            Insert::Hash(hash) => Insert::Hash(hash),
        }
    }

    /// Map a function returning an `Insert<U>` over the [`Insert::Keep`] part
    /// of an `Insert<T>`, flattening the result.
    pub fn and_then<U, F: FnOnce(T) -> Insert<U>>(self, f: F) -> (r: Insert<U>)
        requires
            self matches Insert::Keep(t) ==> call_requires(f, (t,)),
        ensures
            self matches Insert::Keep(t) ==> call_ensures(f, (t,), r),
            self matches Insert::Hash(h) ==> r == Insert::<U>::Hash(h),
    {
        match self {
            Insert::Keep(item) => f(item),
            Insert::Hash(hash) => Insert::Hash(hash),
        }
    }

    /// Get the kept `T` out of this [`Insert<T>`] or return `None`.
    pub fn keep(self) -> (r: Option<T>)
        ensures
            match self {
                Insert::Keep(t) => r == Some(t),
                Insert::Hash(_) => r == Option::<T>::None,
            },
    {
        match self {
            Insert::Keep(item) => Some(item),
            Insert::Hash(_) => None,
        }
    }
}

/// The digest of either variant: the payload's digest if kept, the stored
/// digest if pruned. This spec is what makes the two variants
/// interchangeable for all digest-dependent computation.
pub open spec fn insert_hash<T: GetHash>(i: Insert<T>) -> Digest {
    match i {
        Insert::Keep(t) => t.hash_spec(),
        Insert::Hash(h) => h,
    }
}

impl<T: GetHash> GetHash for Insert<T> {
    open spec fn hash_spec(&self) -> Digest {
        insert_hash(*self)
    }

    open spec fn cached_spec(&self) -> Option<Digest> {
        match self {
            Insert::Keep(t) => t.cached_spec(),
            Insert::Hash(h) => Some(*h),
        }
    }

    open spec fn hash_wf(&self) -> bool {
        self matches Insert::Keep(t) ==> t.hash_wf()
    }

    fn hash(&self) -> (h: Digest)
    {
        match self {
            Insert::Keep(item) => item.hash(),
            Insert::Hash(hash) => *hash,
        }
    }

    fn cached_hash(&self) -> (c: Option<Digest>)
    {
        match self {
            Insert::Keep(item) => item.cached_hash(),
            Insert::Hash(hash) => Some(*hash),
        }
    }
}

} // verus!
