//! Derivation of scalars from byte strings: a hash, read as a big-endian
//! integer and reduced modulo the group order.

use vstd::prelude::*;
use crate::bytes::{be_nat, lemma_be_nat_left_pad, lemma_be_nat_single, zeros};
use crate::error::MsError;
use crate::hash::{digest_of, sha256};
use crate::params::{BGS, DIGEST_LEN, MAX_BIT_LEN, MAX_HASH_INPUT};
use crate::scalar::{big_rmod, Scalar};

verus! {

/// Whether `ell` is an accepted truncation length: a multiple of 8 that is
/// at most 64.
pub open spec fn valid_bit_len(ell: usize) -> bool {
    ell % 8 == 0 && ell <= MAX_BIT_LEN
}

/// The coefficient of the key `pknow` within the keys `input`: the digest of
/// `pknow` followed by `input`, as an integer modulo `order`.
pub open spec fn hash_pks2big_spec(pknow: Seq<u8>, input: Seq<u8>, order: nat) -> nat {
    be_nat(digest_of(pknow + input)) % order
}

/// The scalar derived from the share `sig2` with truncation length `ell`:
/// zero for `ell == 0`, else the leading `ell / 8` bytes of the digest of
/// `sig2`, as an integer modulo `order`.
pub open spec fn hash_2big_spec(sig2: Seq<u8>, ell: usize, order: nat) -> nat {
    if ell == 0 {
        0
    } else {
        be_nat(digest_of(sig2).take(ell as int / 8)) % order
    }
}

/// With no bits of the digest the derived scalar is zero, whatever the
/// share holds and whatever the modulus.
pub proof fn lemma_hash_2big_no_bits(sig2: Seq<u8>, order: nat)
    ensures
        hash_2big_spec(sig2, 0, order) == 0,
{
}

/// With eight bits the derived scalar is the first byte of the digest of the
/// share, reduced modulo `order`: two shares whose digests start with the
/// same byte give the same scalar.
pub proof fn lemma_hash_2big_one_byte(sig2: Seq<u8>, other: Seq<u8>, order: nat)
    ensures
        hash_2big_spec(sig2, 8, order) == digest_of(sig2)[0] as nat % order,
        digest_of(sig2)[0] == digest_of(other)[0] ==> hash_2big_spec(sig2, 8, order)
            == hash_2big_spec(other, 8, order),
{
    lemma_digest_first_byte(sig2);
    lemma_digest_first_byte(other);
}

/// The first byte of a digest, read as a number.
proof fn lemma_digest_first_byte(sig2: Seq<u8>)
    ensures
        be_nat(digest_of(sig2).take(1)) == digest_of(sig2)[0] as nat,
{
    let d = digest_of(sig2);
    assert(d.take(1) =~= seq![d[0]]);
    lemma_be_nat_single(d[0]);
}

/// The scalar whose encoding is `tail`, left-padded with zero bytes.
fn scalar_from_tail(tail: &[u8]) -> (s: Scalar)
    requires
        tail@.len() <= BGS,
    ensures
        s@ == be_nat(tail@),
        s.bytes@ == zeros((BGS - tail@.len()) as nat) + tail@,
{
    let n: usize = tail.len();
    let extra: usize = BGS - n;
    let mut wide: [u8; BGS] = [0u8; BGS];
    let mut i: usize = 0;
    while i < n
        invariant
            i <= n,
            n == tail@.len(),
            extra == BGS - n,
            forall|j: int| 0 <= j < extra ==> wide@[j] == 0u8,
            forall|j: int| 0 <= j < i ==> wide@[extra + j] == tail@[j],
        decreases n - i,
    {
        wide[extra + i] = tail[i];
        i = i + 1;
    }
    proof {
        assert(wide@ =~= zeros(extra as nat) + tail@);
        lemma_be_nat_left_pad(extra as nat, tail@);
    }
    Scalar { bytes: wide }
}

/// The first `k` bytes of a digest.
fn digest_prefix(digest: &[u8; DIGEST_LEN], k: usize) -> (head: Vec<u8>)
    requires
        k <= DIGEST_LEN,
    ensures
        head@ == digest@.take(k as int),
{
    let mut head: Vec<u8> = Vec::new();
    let mut i: usize = 0;
    while i < k
        invariant
            i <= k <= DIGEST_LEN,
            head@ == digest@.take(i as int),
        decreases k - i,
    {
        head.push(digest[i]);
        i = i + 1;
    }
    head
}

/// `first` followed by `second`.
fn concat(first: &[u8], second: &[u8]) -> (both: Vec<u8>)
    requires
        first@.len() + second@.len() <= usize::MAX,
    ensures
        both@ == first@ + second@,
{
    let mut both: Vec<u8> = Vec::new();
    let mut i: usize = 0;
    while i < first.len()
        invariant
            i <= first@.len(),
            both@ == first@.take(i as int),
        decreases first@.len() - i,
    {
        both.push(first[i]);
        i = i + 1;
    }
    let mut j: usize = 0;
    while j < second.len()
        invariant
            j <= second@.len(),
            both@ == first@ + second@.take(j as int),
        decreases second@.len() - j,
    {
        both.push(second[j]);
        j = j + 1;
    }
    both
}

/// Derives the coefficient of one public key within a set of keys.
///
/// `pknow` is the key and `input` the keys of the whole set, one after the
/// other in set order. The two are hashed as one string, `pknow` first; the
/// digest is read as an unsigned big-endian integer and reduced modulo
/// `order`.
pub fn hash_pks2big(pknow: &[u8], input: &[u8], order: &Scalar) -> (t: Scalar)
    requires
        pknow@.len() + input@.len() <= MAX_HASH_INPUT,
        order@ > 0,
    ensures
        t@ == hash_pks2big_spec(pknow@, input@, order@),
        t@ < order@,
{
    let data = concat(pknow, input);
    let digest = sha256(data.as_slice());
    let wide = scalar_from_tail(digest.as_slice());
    big_rmod(&wide, order)
}

/// Derives the scalar that a share contributes to every coefficient.
///
/// `ell` is the number of leading bits of the digest of `sig2` that are
/// used. It has to be a multiple of 8 and at most 64, else the call is
/// refused before anything is hashed. For `ell == 0` the result is zero
/// whatever `sig2` holds; otherwise the leading `ell / 8` bytes of the
/// digest are read as an unsigned big-endian integer and reduced modulo
/// `order`.
pub fn hash_2big(sig2: &[u8], ell: usize, order: &Scalar) -> (r: Result<Scalar, MsError>)
    requires
        sig2@.len() <= MAX_HASH_INPUT,
        order@ > 0,
    ensures
        !valid_bit_len(ell) <==> r == Err::<Scalar, MsError>(MsError::InvalidBitLength),
        valid_bit_len(ell) ==> r is Ok && r->Ok_0@ == hash_2big_spec(sig2@, ell, order@)
            && r->Ok_0@ < order@,
        valid_bit_len(ell) && ell == 0 ==> r->Ok_0@ == 0,
        valid_bit_len(ell) && ell == 8 ==> r->Ok_0@ == digest_of(sig2@)[0] as nat % order@,
{
    if ell % 8 != 0 || ell > MAX_BIT_LEN {
        return Err(MsError::InvalidBitLength);
    }
    if ell == 0 {
        return Ok(Scalar::zero());
    }
    let digest = sha256(sig2);
    let head = digest_prefix(&digest, ell / 8);
    let wide = scalar_from_tail(head.as_slice());
    proof {
        if ell == 8 {
            assert(digest@.take(1) =~= seq![digest@[0]]);
            lemma_be_nat_single(digest@[0]);
        }
    }
    Ok(big_rmod(&wide, order))
}

} // verus!
