//! BLAKE3 digests, as computed by the `blake3` crate.
//!
//! Nothing here is proved: each function states what the crate's own
//! documentation promises of the call it makes. The digest itself is left
//! uninterpreted, so all that the rest of the library knows of it is that the
//! same bytes always give the same digest, 32 bytes long.

use vstd::prelude::*;

verus! {

/// Number of bytes in a digest.
pub const DIGEST_LEN: usize = 32;

/// Most bytes that one incremental hasher takes: BLAKE3 hashes inputs of up
/// to 2^64 bytes, and the hasher keeps room for no more.
pub const MAX_INPUT_LEN: u64 = 0xffff_ffff_ffff_ffff;

/// The incremental hash state of the `blake3` crate.
#[verifier::external_type_specification]
#[verifier::external_body]
pub struct ExHasher(blake3::Hasher);

/// The digest that `blake3::hash` returns for `input`.
pub uninterp spec fn blake3_hash(input: Seq<u8>) -> Seq<u8>;

/// The digest that `blake3::Hasher::finalize` returns once a hasher for the
/// regular hash function has absorbed `input`, in any number of writes.
pub uninterp spec fn blake3_finalize(input: Seq<u8>) -> Seq<u8>;

/// All the bytes written to `hasher` so far, in order.
pub uninterp spec fn hasher_absorbed(hasher: blake3::Hasher) -> Seq<u8>;

/// Whether `hasher` was made for the regular (unkeyed) hash function, to hash
/// a whole input from its first byte.
pub uninterp spec fn hasher_is_regular(hasher: blake3::Hasher) -> bool;

/// `blake3::hash`, with the digest copied out of `Hash::as_bytes`: the
/// 32-byte digest of `input`, a function of the bytes alone.
#[verifier::external_body]
pub(crate) fn hash_bytes(input: &[u8]) -> (digest: Vec<u8>)
    ensures
        digest@ == blake3_hash(input@),
        digest@.len() == DIGEST_LEN,
{
    blake3::hash(input).as_bytes().to_vec()
}

/// `blake3::Hasher::new`: a hasher for the regular hash function that has
/// absorbed nothing yet.
#[verifier::external_body]
pub(crate) fn hasher_new() -> (hasher: blake3::Hasher)
    ensures
        hasher_is_regular(hasher),
        hasher_absorbed(hasher) == Seq::<u8>::empty(),
{
    blake3::Hasher::new()
}

/// `blake3::Hasher::update`: appends `input` to what the hasher has absorbed
/// and leaves its kind alone. The hasher must not be fed more than it has
/// room for.
#[verifier::external_body]
pub(crate) fn hasher_update(hasher: &mut blake3::Hasher, input: &[u8])
    requires
        hasher_is_regular(*old(hasher)),
        hasher_absorbed(*old(hasher)).len() + input@.len() <= MAX_INPUT_LEN,
    ensures
        hasher_is_regular(*final(hasher)),
        hasher_absorbed(*final(hasher)) == hasher_absorbed(*old(hasher)) + input@,
{
    hasher.update(input);
}

/// `blake3::Hasher::finalize`, with the digest copied out of
/// `Hash::as_bytes`: the 32-byte digest of everything absorbed so far. The
/// hasher is left as it was.
#[verifier::external_body]
pub(crate) fn hasher_finalize(hasher: &blake3::Hasher) -> (digest: Vec<u8>)
    requires
        hasher_is_regular(*hasher),
    ensures
        digest@ == blake3_finalize(hasher_absorbed(*hasher)),
        digest@.len() == DIGEST_LEN,
{
    hasher.finalize().as_bytes().to_vec()
}

} // verus!
