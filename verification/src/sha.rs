//! SHA-256, from the `sha2` crate.
use vstd::prelude::*;
use sha2::Digest;

verus! {

/// A running SHA-256 computation.
#[verifier::external_body]
pub struct Hasher {
    inner: sha2::Sha256,
}

/// The SHA-256 digest of `data`.
pub uninterp spec fn sha256(data: Seq<u8>) -> Seq<u8>;

/// The bytes that a running computation has taken in.
pub uninterp spec fn absorbed(hasher: Hasher) -> Seq<u8>;

/// `Sha256::new` starts a computation that has taken in nothing.
#[verifier::external_body]
pub(crate) fn sha256_new() -> (hasher: Hasher)
    ensures
        absorbed(hasher) == Seq::<u8>::empty(),
{
    Hasher { inner: sha2::Sha256::new() }
}

/// `Sha256::update` takes in `data` after what was taken in before. The
/// algorithm counts its input in bits, in 64 bits: the bound keeps that count
/// from overflowing.
#[verifier::external_body]
pub(crate) fn sha256_update(hasher: &mut Hasher, data: &[u8])
    requires
        absorbed(*old(hasher)).len() + data@.len() < 0x2000_0000_0000_0000,
    ensures
        absorbed(*final(hasher)) == absorbed(*old(hasher)) + data@,
{
    hasher.inner.update(data);
}

/// `Sha256::finalize` gives the digest of all that was taken in, which depends
/// on those bytes alone and not on how they were cut into updates.
#[verifier::external_body]
pub(crate) fn sha256_finalize(hasher: Hasher) -> (digest: [u8; 32])
    requires
        absorbed(hasher).len() < 0x2000_0000_0000_0000,
    ensures
        digest@ == sha256(absorbed(hasher)),
{
    hasher.inner.finalize().into()
}

} // verus!
