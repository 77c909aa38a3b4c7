//! The 32-byte hash that scalars are derived from.

use vstd::prelude::*;
use miracl_core::hash256::HASH256;
use crate::bytes::zeros;
use crate::params::{DIGEST_LEN, MAX_HASH_INPUT};

verus! {

/// What `HASH256` returns from `hash` after the bytes of `data` were fed to
/// a fresh state: the SHA-256 digest of `data`.
pub uninterp spec fn sha256_spec(data: Seq<u8>) -> Seq<u8>;

/// The digest of `data` as the contracts of this library speak of it: always
/// `DIGEST_LEN` bytes long.
pub open spec fn digest_of(data: Seq<u8>) -> Seq<u8> {
    let d = sha256_spec(data);
    if d.len() == DIGEST_LEN {
        d
    } else {
        zeros(DIGEST_LEN as nat)
    }
}

/// `HASH256::new`, `process_array` and `hash`: the digest of `data`. The
/// hash counts the bits of its input in a 32-bit word, which the bound on
/// the length keeps from overflowing.
#[verifier::external_body]
pub(crate) fn hash256(data: &[u8]) -> (digest: [u8; DIGEST_LEN])
    requires
        data@.len() <= MAX_HASH_INPUT,
    ensures
        digest@ == sha256_spec(data@),
{
    let mut h = HASH256::new();
    h.process_array(data);
    h.hash()
}

/// The digest of `data`.
pub fn sha256(data: &[u8]) -> (digest: [u8; DIGEST_LEN])
    requires
        data@.len() <= MAX_HASH_INPUT,
    ensures
        digest@ == digest_of(data@),
{
    hash256(data)
}

} // verus!
