//! A tiered commitment tree: an append-only authenticated accumulator of note
//! commitments, organised as three nested fixed-arity, fixed-depth tiers
//! (commitments within a block, blocks within an epoch, epochs within the
//! chain). It assigns positions in insertion order, produces succinct
//! inclusion witnesses, and lets retained leaves be forgotten afterwards
//! without changing the root digest or invalidating other holders' proofs.

pub mod commitment;
pub mod error;
pub mod hash;
pub mod insert;
pub mod laws;
pub mod merkle;
pub mod path;
pub mod position;
pub mod testnet;
pub mod tier;
pub mod tree;

pub use commitment::Commitment;
pub use error::TreeError;
pub use hash::{Digest, GetHash};
pub use insert::Insert;
pub use path::AuthPath;
pub use position::{Forgotten, Position};
pub use tree::Tree;
