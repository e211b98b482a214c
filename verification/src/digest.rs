//! The hash by which a script is known.
use vstd::prelude::*;

verus! {

/// What `Hasher::<224>::hash_tagged` returns for bytes and a tag: the Blake2b
/// digest of 224 bits of the tag followed by the bytes.
pub uninterp spec fn tagged_digest(bytes: Seq<u8>, tag: u8) -> Seq<u8>;

/// `amaru_kernel::Hasher::<224>::hash_tagged`: the digest of the tag followed
/// by the bytes.
#[verifier::external_body]
pub(crate) fn hash_tagged(bytes: &[u8], tag: u8) -> (digest: [u8; 28])
    ensures
        digest@ == tagged_digest(bytes@, tag),
{
    *amaru_kernel::Hasher::<224>::hash_tagged(bytes, tag)
}

} // verus!
