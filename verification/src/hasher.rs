//! The hash capability that trees are built with.
use vstd::prelude::*;
use blake2::Digest;

verus! {

/// The length in bytes of every BLAKE2b digest produced by this library.
pub const BLAKE2B_DIGEST_LEN: usize = 64;

/// The unkeyed BLAKE2b digest, at 64 bytes of output, of a byte sequence.
pub uninterp spec fn blake2b_digest(data: Seq<u8>) -> Seq<u8>;

/// Runs `blake2::Blake2b` over `data`: a fresh hasher from `Digest::new`,
/// one `Digest::input` with all of `data`, then `Digest::result`.
///
/// Trusted: the returned bytes are the BLAKE2b digest of `data`, a function
/// of the input bytes alone, and there are always 64 of them (the output
/// type of `Blake2b` is an array of that fixed size).
#[verifier::external_body]
pub(crate) fn calculate_hash(data: &[u8]) -> (digest: Vec<u8>)
    ensures
        digest@ == blake2b_digest(data@),
        digest@.len() == BLAKE2B_DIGEST_LEN,
{
    let mut hasher = blake2::Blake2b::new();
    hasher.input(data);
    hasher.result().to_vec()
}

/// A deterministic map from byte sequences to digests of one fixed length.
///
/// A tree is only as binding as its hasher is hard to collide. Nothing
/// here proves that of any hasher; the laws of this library say what holds
/// of a tree short of a collision.
pub trait Hasher {
    /// The digest of `data`.
    spec fn digest(&self, data: Seq<u8>) -> Seq<u8>;

    /// The length of every digest that `hash` returns.
    spec fn digest_len(&self) -> nat;

    /// Computes the digest of `data`.
    fn hash(&self, data: &[u8]) -> (out: Vec<u8>)
        ensures
            out@ == self.digest(data@),
            out@.len() == self.digest_len(),
    ;
}

/// BLAKE2b with 64 bytes of output, the hasher used when none is named.
#[derive(Clone, Copy, Debug, Default)]
pub struct Blake2bHasher;

impl Hasher for Blake2bHasher {
    open spec fn digest(&self, data: Seq<u8>) -> Seq<u8> {
        blake2b_digest(data)
    }

    open spec fn digest_len(&self) -> nat {
        BLAKE2B_DIGEST_LEN as nat
    }

    fn hash(&self, data: &[u8]) -> (out: Vec<u8>) {
        calculate_hash(data)
    }
}

/// The rolling checksum of a byte sequence: starting from 0, every byte in
/// turn replaces the sum by 31 times the sum plus the byte, modulo 256.
pub open spec fn checksum(data: Seq<u8>) -> u8
    decreases data.len(),
{
    if data.len() == 0 {
        0
    } else {
        ((checksum(data.drop_last()) * 31 + data.last()) % 256) as u8
    }
}

/// A hasher whose digest is the one-byte rolling checksum of the input.
///
/// It is sensitive to the order of the bytes but has collisions everywhere:
/// it is meant for examples and for trying out trees with digests that are
/// easy to work out by hand, not for integrity.
#[derive(Clone, Copy, Debug, Default)]
pub struct ChecksumHasher;

impl Hasher for ChecksumHasher {
    open spec fn digest(&self, data: Seq<u8>) -> Seq<u8> {
        seq![checksum(data)]
    }

    open spec fn digest_len(&self) -> nat {
        1
    }

    fn hash(&self, data: &[u8]) -> (out: Vec<u8>) {
        let mut sum: u8 = 0;
        for i in 0..data.len()
            invariant
                sum == checksum(data@.subrange(0, i as int)),
        {
            assert(data@.subrange(0, i + 1).drop_last() =~= data@.subrange(0, i as int));
            sum = ((sum as u32 * 31 + data[i] as u32) % 256) as u8;
        }
        assert(data@.subrange(0, data@.len() as int) =~= data@);
        let mut out: Vec<u8> = Vec::new();
        out.push(sum);
        assert(out@ =~= seq![sum]);
        out
    }
}

} // verus!
