//! The multi-signature scheme whose weights are applied by the combiner.
//!
//! Every signer signs under its own secret. The combiner weights the share
//! of signer `i` by the first signer's secret plus a scalar derived from the
//! first share plus `i + 1`. The aggregate key has two parts: the sum of the
//! public keys, and the sum of the public keys weighted by the derived scalar
//! plus `i + 1`, to which the first signer's key is added once more.

use vstd::prelude::*;
use vstd::arithmetic::div_mod::{lemma_add_mod_noop_right, lemma_small_mod};
use crate::derive::{hash_2big, hash_2big_spec, valid_bit_len};
use crate::error::MsError;
use crate::group::{
    core_sign_spec, g1_add_spec, g1_encodings, g1_mul_spec, g1_neg_spec, g1_sum, g2_add_spec,
    g2_encodings, g2_generator_spec, g2_mul_spec, g2_sum, hash_to_g1_spec, lemma_g1_sum_step,
    lemma_g2_sum_step, read_from, Encoded, G1Point, G2Point,
};
use crate::keys::{all_keygen_ok, generated_from, public_keys, setup, signer_keys, KeyPair};
use crate::pairing::{fresh_accumulator, miller_another_spec, product_is_one, Accumulator};
use crate::params::{group_order, IKM_LEN, MAX_BIT_LEN, MAX_HASH_INPUT};
use crate::scalar::{big_iszilch, big_modadd, big_new_int, Scalar};

verus! {

/// The scalar that the share `sig0` of the first signer contributes to every
/// weight, for the truncation length `bit_len`.
pub open spec fn our_start_spec(sig0: Seq<u8>, bit_len: usize) -> nat {
    hash_2big_spec(sig0, bit_len, group_order())
}

/// The weight of the share of signer `i`: the first signer's secret `sk0`
/// plus `start` plus `i + 1`, modulo the group order.
pub open spec fn our_share_weight(sk0: nat, start: nat, i: int) -> nat {
    ((sk0 + start + i + 1) % (group_order() as int)) as nat
}

/// The weight of the public key of signer `i`: `start` plus `i + 1`, modulo
/// the group order.
pub open spec fn our_key_weight(start: nat, i: int) -> nat {
    ((start + i + 1) % (group_order() as int)) as nat
}

/// The shares, each times its weight.
pub open spec fn our_weighted_shares(shares: Seq<Encoded>, sk0: nat, start: nat) -> Seq<Encoded> {
    Seq::new(shares.len(), |i: int| g1_mul_spec(shares[i], our_share_weight(sk0, start, i)))
}

/// The first part of the aggregate signature: the sum of the weighted
/// shares.
pub open spec fn our_s1_spec(shares: Seq<Encoded>, sk0: nat, start: nat) -> Encoded {
    g1_sum(our_weighted_shares(shares, sk0, start))
}

/// The public keys, each times its weight.
pub open spec fn our_weighted_keys(pks: Seq<Encoded>, start: nat) -> Seq<Encoded> {
    Seq::new(pks.len(), |i: int| g2_mul_spec(pks[i], our_key_weight(start, i)))
}

/// The first part of the aggregate key: the sum of the public keys.
pub open spec fn our_k1_spec(pks: Seq<Encoded>) -> Encoded {
    g2_sum(pks)
}

/// The second part of the aggregate key: the sum of the weighted public
/// keys, plus the key of the first signer.
pub open spec fn our_k2_spec(pks: Seq<Encoded>, start: nat) -> Encoded {
    g2_add_spec(g2_sum(our_weighted_keys(pks, start)), pks[0])
}

/// Whether the aggregate signature `(s1, s2)` on `message` verifies under
/// the aggregate key `(k1, k2)`: whether the product of the pairing of the
/// generator with the inverse of `s1 + s2`, the pairing of `k1` with `s2`
/// and the pairing of `k2` with the point of `message` is the identity.
pub open spec fn our_verify_spec(
    message: Seq<u8>,
    s1: Encoded,
    s2: Encoded,
    k1: Encoded,
    k2: Encoded,
) -> bool {
    product_is_one(
        miller_another_spec(
            miller_another_spec(
                miller_another_spec(
                    fresh_accumulator(),
                    read_from(g2_generator_spec()),
                    g1_neg_spec(g1_add_spec(s1, s2)),
                ),
                k1,
                s2,
            ),
            k2,
            hash_to_g1_spec(message),
        ),
    )
}

/// With the truncation length zero the derived scalar is zero, whatever the
/// first share holds, and the weights are the first signer's secret plus
/// `i + 1` for a share and `i + 1` for a key.
pub proof fn lemma_our_weights_without_hash(sig0: Seq<u8>, sk0: nat, i: int)
    requires
        0 <= i,
    ensures
        our_start_spec(sig0, 0) == 0,
        our_share_weight(sk0, our_start_spec(sig0, 0), i) == (sk0 + i + 1) % (group_order() as int),
        our_key_weight(our_start_spec(sig0, 0), i) == (i + 1) % (group_order() as int),
{
}

/// For a single signer the first part of the aggregate key is the signer's
/// key, and the second part is that key times its weight, plus that key
/// again.
pub proof fn lemma_our_single_signer_keys(pks: Seq<Encoded>, start: nat)
    requires
        pks.len() == 1,
    ensures
        our_k1_spec(pks) == pks[0],
        our_k2_spec(pks, start) == g2_add_spec(
            g2_mul_spec(pks[0], our_key_weight(start, 0)),
            pks[0],
        ),
        our_key_weight(start, 0) == (start + 1) % group_order(),
{
}

/// Signs `message` for every signer of `set`, each under its own secret.
/// An empty set is refused. Otherwise there is one share for each signer, in
/// the order of the set.
pub fn our_sign(set: &Vec<KeyPair>, message: &[u8]) -> (r: Result<Vec<G1Point>, MsError>)
    requires
        message@.len() <= MAX_HASH_INPUT,
    ensures
        set@.len() == 0 ==> r == Err::<Vec<G1Point>, MsError>(MsError::EmptySignerSet),
        set@.len() > 0 ==> r is Ok && r->Ok_0@.len() == set@.len() && forall|i: int|
            0 <= i < set@.len() ==> (#[trigger] r->Ok_0@[i])@ == read_from(
                core_sign_spec(message@, set@[i].secret@),
            ),
{
    if set.len() == 0 {
        return Err(MsError::EmptySignerSet);
    }
    let mut shares: Vec<G1Point> = Vec::new();
    let mut i: usize = 0;
    while i < set.len()
        invariant
            i <= set@.len(),
            message@.len() <= MAX_HASH_INPUT,
            shares@.len() == i,
            forall|j: int|
                0 <= j < i ==> (#[trigger] shares@[j])@ == read_from(
                    core_sign_spec(message@, set@[j].secret@),
                ),
        decreases set@.len() - i,
    {
        let share = G1Point::core_sign(message, &set[i].secret);
        shares.push(share);
        i = i + 1;
    }
    Ok(shares)
}

/// The weight of the share of signer `i`.
fn share_weight(sk: &Scalar, start: &Scalar, order: &Scalar, i: usize) -> (e: Scalar)
    requires
        order@ == group_order(),
        i < isize::MAX,
    ensures
        e@ == our_share_weight(sk@, start@, i as int),
{
    let position = big_new_int(i + 1);
    if big_iszilch(start) {
        big_modadd(sk, &position, order)
    } else {
        let inner = big_modadd(start, &position, order);
        proof {
            lemma_add_mod_noop_right(sk@ as int, start@ + i + 1, group_order() as int);
        }
        big_modadd(sk, &inner, order)
    }
}

/// The weight of the public key of signer `i`.
fn key_weight(start: &Scalar, order: &Scalar, i: usize) -> (e: Scalar)
    requires
        order@ == group_order(),
        i < isize::MAX,
    ensures
        e@ == our_key_weight(start@, i as int),
{
    let position = big_new_int(i + 1);
    if big_iszilch(start) {
        proof {
            lemma_small_mod((i + 1) as nat, group_order());
        }
        position
    } else {
        big_modadd(start, &position, order)
    }
}

/// The weighted sum of the shares `sig`, for the first signer's secret `sk`
/// and the derived scalar `start`: the first part of the aggregate
/// signature. No shares at all are refused.
pub fn our_combiner(sig: &Vec<G1Point>, sk: &Scalar, start: &Scalar) -> (r: Result<
    G1Point,
    MsError,
>)
    requires
        sig@.len() <= isize::MAX,
    ensures
        sig@.len() == 0 ==> r == Err::<G1Point, MsError>(MsError::EmptySignerSet),
        sig@.len() > 0 ==> r is Ok && r->Ok_0@ == our_s1_spec(g1_encodings(sig@), sk@, start@),
{
    if sig.len() == 0 {
        return Err(MsError::EmptySignerSet);
    }
    let order = Scalar::order();
    let ghost terms = our_weighted_shares(g1_encodings(sig@), sk@, start@);
    let first = share_weight(sk, start, &order, 0);
    let mut sigma = sig[0].scale(&first);
    let mut i: usize = 1;
    while i < sig.len()
        invariant
            1 <= i <= sig@.len() <= isize::MAX,
            order@ == group_order(),
            terms == our_weighted_shares(g1_encodings(sig@), sk@, start@),
            sigma@ == g1_sum(terms.take(i as int)),
        decreases sig@.len() - i,
    {
        proof {
            lemma_g1_sum_step(terms, i as int);
        }
        let e = share_weight(sk, start, &order, i);
        let weighted = sig[i].scale(&e);
        sigma = sigma.add_point(&weighted);
        i = i + 1;
    }
    assert(terms.take(sig@.len() as int) =~= terms);
    Ok(sigma)
}

/// Combines the shares into the aggregate signature `(S1, S2)`.
///
/// `S2` is the first share as it stands. `S1` is the weighted sum of all
/// shares, with the first signer's secret taken from `set` and the scalar
/// derived from the first share with the truncation length `bit_len`.
/// No shares or no signers are refused first, then a truncation length that
/// is not a multiple of 8 or exceeds 64.
pub fn our_combine(shares: &Vec<G1Point>, set: &Vec<KeyPair>, bit_len: usize) -> (r: Result<
    (G1Point, G1Point),
    MsError,
>)
    requires
        shares@.len() <= isize::MAX,
    ensures
        shares@.len() == 0 || set@.len() == 0 ==> r == Err::<(G1Point, G1Point), MsError>(
            MsError::EmptySignerSet,
        ),
        shares@.len() > 0 && set@.len() > 0 && !valid_bit_len(bit_len) ==> r == Err::<
            (G1Point, G1Point),
            MsError,
        >(MsError::InvalidBitLength),
        shares@.len() > 0 && set@.len() > 0 && valid_bit_len(bit_len) ==> r is Ok && r->Ok_0.1@
            == shares@[0]@ && r->Ok_0.0@ == our_s1_spec(
            g1_encodings(shares@),
            set@[0].secret@,
            our_start_spec(shares@[0]@.1, bit_len),
        ),
{
    if shares.len() == 0 || set.len() == 0 {
        return Err(MsError::EmptySignerSet);
    }
    let order = Scalar::order();
    let s2 = shares[0];
    let sig0 = s2.to_bytes();
    let start = match hash_2big(sig0.as_slice(), bit_len, &order) {
        Ok(start) => start,
        Err(e) => {
            return Err(e);
        },
    };
    match our_combiner(shares, &set[0].secret, &start) {
        Ok(s1) => Ok((s1, s2)),
        Err(e) => Err(e),
    }
}

/// The two parts of the aggregate key of the public keys `pkvec`, for the
/// derived scalar `start`: the sum of the keys, and the sum of the weighted
/// keys plus the first key. No keys at all are refused.
pub fn our_aggpk(pkvec: &Vec<G2Point>, start: &Scalar) -> (r: Result<(G2Point, G2Point), MsError>)
    requires
        pkvec@.len() <= isize::MAX,
    ensures
        pkvec@.len() == 0 ==> r == Err::<(G2Point, G2Point), MsError>(MsError::EmptySignerSet),
        pkvec@.len() > 0 ==> r is Ok && r->Ok_0.0@ == our_k1_spec(g2_encodings(pkvec@))
            && r->Ok_0.1@ == our_k2_spec(g2_encodings(pkvec@), start@),
{
    if pkvec.len() == 0 {
        return Err(MsError::EmptySignerSet);
    }
    let order = Scalar::order();
    let ghost pks = g2_encodings(pkvec@);
    let ghost terms = our_weighted_keys(pks, start@);
    let first = key_weight(start, &order, 0);
    let mut k1 = pkvec[0];
    let mut k2 = pkvec[0].scale(&first);
    let mut i: usize = 1;
    while i < pkvec.len()
        invariant
            1 <= i <= pkvec@.len() <= isize::MAX,
            order@ == group_order(),
            pks == g2_encodings(pkvec@),
            terms == our_weighted_keys(pks, start@),
            k1@ == g2_sum(pks.take(i as int)),
            k2@ == g2_sum(terms.take(i as int)),
        decreases pkvec@.len() - i,
    {
        proof {
            lemma_g2_sum_step(pks, i as int);
            lemma_g2_sum_step(terms, i as int);
        }
        let e = key_weight(start, &order, i);
        k1 = k1.add_point(&pkvec[i]);
        let weighted = pkvec[i].scale(&e);
        k2 = k2.add_point(&weighted);
        i = i + 1;
    }
    assert(pks.take(pkvec@.len() as int) =~= pks);
    assert(terms.take(pkvec@.len() as int) =~= terms);
    k2 = k2.add_point(&pkvec[0]);
    Ok((k1, k2))
}

/// Aggregates the public keys into the aggregate key `(K1, K2)`, with the
/// scalar derived from the first signer's share `sig0` with the truncation
/// length `bit_len`, as the combiner derives it.
///
/// No keys at all are refused first, then a truncation length that is not a
/// multiple of 8 or exceeds 64.
pub fn our_aggregate_keys(pkvec: &Vec<G2Point>, sig0: &G1Point, bit_len: usize) -> (r: Result<
    (G2Point, G2Point),
    MsError,
>)
    requires
        pkvec@.len() <= isize::MAX,
    ensures
        pkvec@.len() == 0 ==> r == Err::<(G2Point, G2Point), MsError>(MsError::EmptySignerSet),
        pkvec@.len() > 0 && !valid_bit_len(bit_len) ==> r == Err::<(G2Point, G2Point), MsError>(
            MsError::InvalidBitLength,
        ),
        pkvec@.len() > 0 && valid_bit_len(bit_len) ==> r is Ok && r->Ok_0.0@ == our_k1_spec(
            g2_encodings(pkvec@),
        ) && r->Ok_0.1@ == our_k2_spec(g2_encodings(pkvec@), our_start_spec(sig0@.1, bit_len)),
{
    if pkvec.len() == 0 {
        return Err(MsError::EmptySignerSet);
    }
    let order = Scalar::order();
    let encoded = sig0.to_bytes();
    let start = match hash_2big(encoded.as_slice(), bit_len, &order) {
        Ok(start) => start,
        Err(e) => {
            return Err(e);
        },
    };
    our_aggpk(pkvec, &start)
}

/// Verifies the aggregate signature `(s1, s2)` on `message` under the
/// aggregate key `(k1, k2)`. A signature that does not verify gives `false`,
/// never an error.
pub fn our_verify(message: &[u8], s1: &G1Point, s2: &G1Point, k1: &G2Point, k2: &G2Point) -> (ok:
    bool)
    requires
        message@.len() <= MAX_HASH_INPUT,
    ensures
        ok == our_verify_spec(message@, s1@, s2@, k1@, k2@),
{
    let both = s1.add_point(s2);
    let negated = both.negate();
    let mut r = Accumulator::new();
    r.another(&G2Point::generator(), &negated);
    r.another(k1, s2);
    r.another(k2, &G1Point::hash_to_point(message));
    r.is_one()
}

/// What one run of the scheme produced.
pub struct OurRound {
    /// The key pairs of the signers.
    pub signers: Vec<KeyPair>,
    /// The share of each signer.
    pub shares: Vec<G1Point>,
    /// The first part of the aggregate signature.
    pub s1: G1Point,
    /// The second part of the aggregate signature: the first share.
    pub s2: G1Point,
    /// The first part of the aggregate key.
    pub k1: G2Point,
    /// The second part of the aggregate key.
    pub k2: G2Point,
    /// Whether the aggregate signature verified under the aggregate key.
    pub verified: bool,
}

/// Whether `round` is the run of the scheme on `message`, with the
/// truncation length `ell`, by the signers set up from `seeds`.
pub open spec fn our_round_spec(
    round: OurRound,
    seeds: Seq<[u8; IKM_LEN]>,
    message: Seq<u8>,
    ell: usize,
) -> bool {
    let start = our_start_spec(round.shares@[0]@.1, ell);
    &&& round.signers@.len() == seeds.len()
    &&& forall|i: int|
        0 <= i < seeds.len() ==> generated_from(#[trigger] round.signers@[i], seeds[i]@)
    &&& round.shares@.len() == seeds.len()
    &&& forall|i: int|
        0 <= i < seeds.len() ==> (#[trigger] round.shares@[i])@ == read_from(
            core_sign_spec(message, round.signers@[i].secret@),
        )
    &&& round.s2@ == round.shares@[0]@
    &&& round.s1@ == our_s1_spec(g1_encodings(round.shares@), round.signers@[0].secret@, start)
    &&& round.k1@ == our_k1_spec(signer_keys(round.signers@))
    &&& round.k2@ == our_k2_spec(signer_keys(round.signers@), start)
    &&& round.verified == our_verify_spec(
        message,
        round.s1@,
        round.s2@,
        round.k1@,
        round.k2@,
    )
}

/// Runs the scheme once on `message` with the truncation length `ell`: sets
/// up one signer for each of `seeds`, lets each sign, combines the shares,
/// aggregates the public keys and verifies the aggregate signature under
/// the aggregate key.
///
/// No seeds are refused first, then a truncation length that is not a
/// multiple of 8 or exceeds 64, before anything is hashed, then a seed for
/// which key generation fails.
pub fn our_blsms(seeds: &Vec<[u8; IKM_LEN]>, message: &[u8], ell: usize) -> (r: Result<
    OurRound,
    MsError,
>)
    requires
        seeds@.len() <= isize::MAX,
        message@.len() <= MAX_HASH_INPUT,
    ensures
        seeds@.len() == 0 ==> r == Err::<OurRound, MsError>(MsError::EmptySignerSet),
        seeds@.len() > 0 && !valid_bit_len(ell) ==> r == Err::<OurRound, MsError>(
            MsError::InvalidBitLength,
        ),
        seeds@.len() > 0 && valid_bit_len(ell) && !all_keygen_ok(seeds@) ==> r == Err::<
            OurRound,
            MsError,
        >(MsError::KeyGenerationFailed),
        seeds@.len() > 0 && valid_bit_len(ell) && all_keygen_ok(seeds@) ==> r is Ok
            && our_round_spec(r->Ok_0, seeds@, message@, ell),
{
    if seeds.len() == 0 {
        return Err(MsError::EmptySignerSet);
    }
    if ell % 8 != 0 || ell > MAX_BIT_LEN {
        return Err(MsError::InvalidBitLength);
    }
    let signers = match setup(seeds) {
        Ok(signers) => signers,
        Err(e) => {
            return Err(e);
        },
    };
    let shares = match our_sign(&signers, message) {
        Ok(shares) => shares,
        Err(e) => {
            return Err(e);
        },
    };
    let (s1, s2) = match our_combine(&shares, &signers, ell) {
        Ok(pair) => pair,
        Err(e) => {
            return Err(e);
        },
    };
    let pkvec = public_keys(&signers);
    let (k1, k2) = match our_aggregate_keys(&pkvec, &shares[0], ell) {
        Ok(pair) => pair,
        Err(e) => {
            return Err(e);
        },
    };
    let verified = our_verify(message, &s1, &s2, &k1, &k2);
    Ok(OurRound { signers, shares, s1, s2, k1, k2, verified })
}

} // verus!
