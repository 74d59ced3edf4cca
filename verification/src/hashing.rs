use vstd::prelude::*;

verus! {

/// The 128-bit Blake2b digest of `data`, as computed by
/// `sp_io::hashing::blake2_128`.
pub uninterp spec fn blake2_128_of(data: Seq<u8>) -> Seq<u8>;

/// Calls `sp_io::hashing::blake2_128`. Trusted to return the digest that
/// `blake2_128_of` names for the bytes handed in; a digest is always 16 bytes,
/// which the array type already says.
#[verifier::external_body]
pub(crate) fn blake2_128(data: &[u8]) -> (digest: [u8; 16])
    ensures
        digest@ == blake2_128_of(data@),
{
    sp_io::hashing::blake2_128(data)
}

} // verus!
