//! Binary Merkle hash trees over byte-representable items.
//!
//! A tree is built bottom-up from an ordered sequence of items: every item
//! becomes a leaf carrying the digest of its bytes, and neighbouring entries
//! are paired into nodes carrying the digest of the two child digests, left
//! first, until a single root remains. Two trees are equal exactly when
//! their root digests are.
pub mod bytes;
pub mod construct;
pub mod hasher;
pub mod laws;
pub mod tree;

pub use crate::bytes::AsBytes;
pub use crate::construct::MerkleError;
pub use crate::hasher::{Blake2bHasher, ChecksumHasher, Hasher};
pub use crate::tree::{MerkleLeaf, MerkleNode, MerkleTree, Node};
