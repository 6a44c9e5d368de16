//! The fingerprint of a sample file, computed by OpenSSL.

use openssl::error::ErrorStack;
use openssl::hash::{Hasher, MessageDigest};
use vstd::prelude::*;

verus! {

/// `openssl::hash::Hasher`, which computes a digest piece by piece.
/// Nothing is known of what is inside but what `hasher_input` and
/// `hasher_is_sha1` name.
#[verifier::external_type_specification]
#[verifier::external_body]
pub struct ExHasher(openssl::hash::Hasher);

/// `openssl::error::ErrorStack`, the errors that OpenSSL reports. Nothing
/// is known of what is inside.
#[verifier::external_type_specification]
#[verifier::external_body]
pub struct ExErrorStack(openssl::error::ErrorStack);

/// What a hasher holds: the bytes that it has taken in since it was made or
/// last finished.
pub uninterp spec fn hasher_input(h: Hasher) -> Seq<u8>;

/// What a hasher was made for: whether it computes SHA-1, and is fit for
/// use.
pub uninterp spec fn hasher_is_sha1(h: Hasher) -> bool;

/// The SHA-1 digest of `data`, 20 bytes long.
pub uninterp spec fn sha1(data: Seq<u8>) -> Seq<u8>;

/// `openssl::hash::Hasher::new`, for the digest `MessageDigest::sha1()`.
///
/// Where OpenSSL makes the hasher, it computes SHA-1 and has taken in
/// nothing.
#[verifier::external_body]
pub(crate) fn sha1_hasher() -> (r: Result<Hasher, ErrorStack>)
    ensures
        r is Ok ==> hasher_is_sha1(r->Ok_0) && hasher_input(r->Ok_0) == Seq::<u8>::empty(),
{
    Hasher::new(MessageDigest::sha1())
}

/// `openssl::hash::Hasher::update`.
///
/// Where OpenSSL reports success, the hasher has taken in `data` behind
/// what it held. Nothing is known of a hasher after a failure.
#[verifier::external_body]
pub(crate) fn sha1_update(h: &mut Hasher, data: &[u8]) -> (r: Result<(), ErrorStack>)
    requires
        hasher_is_sha1(*old(h)),
    ensures
        r is Ok ==> hasher_is_sha1(*final(h)) && hasher_input(*final(h)) == hasher_input(*old(h))
            + data@,
{
    h.update(data)
}

/// `openssl::hash::Hasher::finish`.
///
/// Where OpenSSL reports success, the result is the SHA-1 digest of what
/// the hasher had taken in, and the hasher is as new. Nothing is known of
/// a hasher after a failure.
#[verifier::external_body]
pub(crate) fn sha1_finish(h: &mut Hasher) -> (r: Result<[u8; 20], ErrorStack>)
    requires
        hasher_is_sha1(*old(h)),
    ensures
        r is Ok ==> r->Ok_0@ == sha1(hasher_input(*old(h))) && hasher_is_sha1(*final(h))
            && hasher_input(*final(h)) == Seq::<u8>::empty(),
{
    let digest = h.finish()?;
    let mut out = [0u8; 20];
    out.copy_from_slice(&digest);
    Ok(out)
}

} // verus!
