//! The multi-signature scheme of Boneh, Drijvers and Neven.
//!
//! Every signer's coefficient is derived from its own public key and the
//! keys of the whole set. A signer signs under its secret times its
//! coefficient; the shares are added up; the aggregate key is the sum of the
//! public keys, each times the same coefficient.

use vstd::prelude::*;
use crate::derive::{hash_pks2big, hash_pks2big_spec};
use crate::error::MsError;
use crate::group::{
    core_sign_spec, g1_encodings, g1_neg_spec, g1_sum, g2_encodings, g2_generator_spec,
    g2_pair_mul_spec, g2_sum, hash_to_g1_spec, lemma_g1_sum_step, lemma_g2_sum_step, read_from,
    Encoded, G1Point, G2Point,
};
use crate::keys::{all_keygen_ok, generated_from, public_keys, setup, signer_keys, KeyPair};
use crate::pairing::{fresh_accumulator, miller_another_spec, product_is_one, Accumulator};
use crate::params::{group_order, G2S, IKM_LEN, MAX_HASH_INPUT, MAX_SIGNERS};
use crate::scalar::{big_modmul, Scalar};

verus! {

/// The keys `pks`, one after the other in their order.
pub open spec fn keyset_bytes(pks: Seq<Encoded>) -> Seq<u8>
    decreases pks.len(),
{
    if pks.len() == 0 {
        Seq::empty()
    } else {
        keyset_bytes(pks.drop_last()) + pks.last().1
    }
}

/// The coefficient of signer `i` among the signers with the public keys
/// `pks`: derived from its key and the keys of the whole set.
pub open spec fn bdn_coefficient(pks: Seq<Encoded>, i: int) -> nat {
    hash_pks2big_spec(pks[i].1, keyset_bytes(pks), group_order())
}

/// The coefficient under which signer `i` of `set` signs.
pub open spec fn bdn_sign_coefficient(set: Seq<KeyPair>, i: int) -> nat {
    bdn_coefficient(signer_keys(set), i)
}

/// The coefficient by which the key of signer `i` enters the aggregate of
/// the public keys `pkvec`.
pub open spec fn bdn_aggregation_coefficient(pkvec: Seq<G2Point>, i: int) -> nat {
    bdn_coefficient(g2_encodings(pkvec), i)
}

/// The share of signer `i` of `set` on `message`: the signature under its
/// secret times its coefficient, modulo the group order.
pub open spec fn bdn_share_spec(set: Seq<KeyPair>, message: Seq<u8>, i: int) -> Encoded {
    read_from(
        core_sign_spec(message, (set[i].secret@ * bdn_sign_coefficient(set, i)) % group_order()),
    )
}

/// The public keys `pks`, each times its coefficient.
pub open spec fn bdn_weighted_keys(pks: Seq<Encoded>) -> Seq<Encoded> {
    Seq::new(pks.len(), |i: int| g2_pair_mul_spec(pks[i], bdn_coefficient(pks, i)))
}

/// The aggregate of the public keys `pks`.
pub open spec fn bdn_aggpk_spec(pks: Seq<Encoded>) -> Encoded {
    g2_sum(bdn_weighted_keys(pks))
}

/// Whether the aggregate signature `sigma` on `message` verifies under the
/// aggregate key `apk`: whether the product of the pairing of the generator
/// with the inverse of `sigma` and the pairing of `apk` with the point of
/// `message` is the identity.
pub open spec fn bdn_verify_spec(message: Seq<u8>, sigma: Encoded, apk: Encoded) -> bool {
    product_is_one(
        miller_another_spec(
            miller_another_spec(
                fresh_accumulator(),
                read_from(g2_generator_spec()),
                g1_neg_spec(sigma),
            ),
            apk,
            hash_to_g1_spec(message),
        ),
    )
}

/// The coefficient under which a signer signs is the coefficient by which
/// its public key enters the aggregate, for every signer of the set.
pub proof fn lemma_bdn_coefficient_symmetry(set: Seq<KeyPair>, pkvec: Seq<G2Point>, i: int)
    requires
        pkvec.len() == set.len(),
        forall|j: int| 0 <= j < set.len() ==> pkvec[j] == set[j].public,
        0 <= i < set.len(),
    ensures
        bdn_sign_coefficient(set, i) == bdn_aggregation_coefficient(pkvec, i),
{
    assert(signer_keys(set) =~= g2_encodings(pkvec));
}

/// Writes the public keys one after the other, in their order.
fn concat_keys(pkvec: &Vec<G2Point>) -> (all: Vec<u8>)
    requires
        pkvec@.len() <= MAX_SIGNERS,
    ensures
        all@ == keyset_bytes(g2_encodings(pkvec@)),
        all@.len() == pkvec@.len() * G2S,
{
    let ghost pks = g2_encodings(pkvec@);
    let mut all: Vec<u8> = Vec::new();
    let mut i: usize = 0;
    while i < pkvec.len()
        invariant
            i <= pkvec@.len() <= MAX_SIGNERS,
            pks == g2_encodings(pkvec@),
            all@ == keyset_bytes(pks.take(i as int)),
            all@.len() == i * G2S,
        decreases pkvec@.len() - i,
    {
        let key = pkvec[i].to_bytes();
        let ghost before = all@;
        let mut j: usize = 0;
        while j < G2S
            invariant
                j <= G2S,
                key@.len() == G2S,
                all@ == before + key@.take(j as int),
            decreases G2S - j,
        {
            all.push(key[j]);
            j = j + 1;
        }
        proof {
            assert(pks.take(i + 1).drop_last() =~= pks.take(i as int));
        }
        i = i + 1;
    }
    assert(pks.take(pkvec@.len() as int) =~= pks);
    all
}

/// The coefficients of all signers with the public keys `pkvec`, in their
/// order. Signing and key aggregation both take them from here.
pub fn bdn_coefficients(pkvec: &Vec<G2Point>) -> (coeffs: Vec<Scalar>)
    requires
        pkvec@.len() <= MAX_SIGNERS,
    ensures
        coeffs@.len() == pkvec@.len(),
        forall|i: int|
            0 <= i < pkvec@.len() ==> (#[trigger] coeffs@[i])@ == bdn_coefficient(
                g2_encodings(pkvec@),
                i,
            ),
{
    let order = Scalar::order();
    let allpk = concat_keys(pkvec);
    let mut coeffs: Vec<Scalar> = Vec::new();
    let mut i: usize = 0;
    while i < pkvec.len()
        invariant
            i <= pkvec@.len() <= MAX_SIGNERS,
            order@ == group_order(),
            allpk@ == keyset_bytes(g2_encodings(pkvec@)),
            allpk@.len() == pkvec@.len() * G2S,
            coeffs@.len() == i,
            forall|j: int|
                0 <= j < i ==> (#[trigger] coeffs@[j])@ == bdn_coefficient(
                    g2_encodings(pkvec@),
                    j,
                ),
        decreases pkvec@.len() - i,
    {
        let key = pkvec[i].to_bytes();
        let t = hash_pks2big(key.as_slice(), allpk.as_slice(), &order);
        coeffs.push(t);
        i = i + 1;
    }
    coeffs
}

/// Signs `message` for every signer of `set`.
///
/// An empty set is refused. Otherwise there is one share for each signer,
/// in the order of the set: the signature of `message` under the signer's
/// secret times its coefficient, modulo the group order.
pub fn bdn_sign(set: &Vec<KeyPair>, message: &[u8]) -> (r: Result<Vec<G1Point>, MsError>)
    requires
        set@.len() <= MAX_SIGNERS,
        message@.len() <= MAX_HASH_INPUT,
    ensures
        set@.len() == 0 ==> r == Err::<Vec<G1Point>, MsError>(MsError::EmptySignerSet),
        set@.len() > 0 ==> r is Ok && r->Ok_0@.len() == set@.len() && forall|i: int|
            0 <= i < set@.len() ==> (#[trigger] r->Ok_0@[i])@ == bdn_share_spec(
                set@,
                message@,
                i,
            ),
{
    if set.len() == 0 {
        return Err(MsError::EmptySignerSet);
    }
    let order = Scalar::order();
    let pkvec = public_keys(set);
    let coeffs = bdn_coefficients(&pkvec);
    let mut shares: Vec<G1Point> = Vec::new();
    let mut i: usize = 0;
    while i < set.len()
        invariant
            i <= set@.len(),
            order@ == group_order(),
            message@.len() <= MAX_HASH_INPUT,
            pkvec@.len() == set@.len(),
            coeffs@.len() == set@.len(),
            g2_encodings(pkvec@) == signer_keys(set@),
            forall|j: int|
                0 <= j < set@.len() ==> (#[trigger] coeffs@[j])@ == bdn_coefficient(
                    g2_encodings(pkvec@),
                    j,
                ),
            shares@.len() == i,
            forall|j: int|
                0 <= j < i ==> (#[trigger] shares@[j])@ == bdn_share_spec(set@, message@, j),
        decreases set@.len() - i,
    {
        let exp = big_modmul(&set[i].secret, &coeffs[i], &order);
        let share = G1Point::core_sign(message, &exp);
        shares.push(share);
        i = i + 1;
    }
    Ok(shares)
}

/// Combines the shares into the aggregate signature: their sum, added up
/// from the first share to the last. No shares at all are refused.
pub fn bdn_combine(shares: &Vec<G1Point>) -> (r: Result<G1Point, MsError>)
    ensures
        shares@.len() == 0 ==> r == Err::<G1Point, MsError>(MsError::EmptySignerSet),
        shares@.len() > 0 ==> r is Ok && r->Ok_0@ == g1_sum(g1_encodings(shares@)),
{
    if shares.len() == 0 {
        return Err(MsError::EmptySignerSet);
    }
    let ghost terms = g1_encodings(shares@);
    let mut sigma = shares[0];
    let mut i: usize = 1;
    while i < shares.len()
        invariant
            1 <= i <= shares@.len(),
            terms == g1_encodings(shares@),
            sigma@ == g1_sum(terms.take(i as int)),
        decreases shares@.len() - i,
    {
        proof {
            lemma_g1_sum_step(terms, i as int);
        }
        sigma = sigma.add_point(&shares[i]);
        i = i + 1;
    }
    assert(terms.take(shares@.len() as int) =~= terms);
    Ok(sigma)
}

/// Aggregates the public keys: the sum of the keys, each times its
/// coefficient, added up from the first signer to the last. No keys at all
/// are refused.
pub fn bdn_aggpk(pkvec: &Vec<G2Point>) -> (r: Result<G2Point, MsError>)
    requires
        pkvec@.len() <= MAX_SIGNERS,
    ensures
        pkvec@.len() == 0 ==> r == Err::<G2Point, MsError>(MsError::EmptySignerSet),
        pkvec@.len() > 0 ==> r is Ok && r->Ok_0@ == bdn_aggpk_spec(g2_encodings(pkvec@)),
{
    if pkvec.len() == 0 {
        return Err(MsError::EmptySignerSet);
    }
    let coeffs = bdn_coefficients(pkvec);
    let ghost terms = bdn_weighted_keys(g2_encodings(pkvec@));
    let mut apk = pkvec[0].pair_scale(&coeffs[0]);
    let mut i: usize = 1;
    while i < pkvec.len()
        invariant
            1 <= i <= pkvec@.len(),
            coeffs@.len() == pkvec@.len(),
            forall|j: int|
                0 <= j < pkvec@.len() ==> (#[trigger] coeffs@[j])@ == bdn_coefficient(
                    g2_encodings(pkvec@),
                    j,
                ),
            terms == bdn_weighted_keys(g2_encodings(pkvec@)),
            apk@ == g2_sum(terms.take(i as int)),
        decreases pkvec@.len() - i,
    {
        proof {
            lemma_g2_sum_step(terms, i as int);
        }
        let weighted = pkvec[i].pair_scale(&coeffs[i]);
        apk = apk.add_point(&weighted);
        i = i + 1;
    }
    assert(terms.take(pkvec@.len() as int) =~= terms);
    Ok(apk)
}

/// Verifies the aggregate signature `sigma` on `message` under the aggregate
/// key `apk`. A signature that does not verify gives `false`, never an
/// error.
pub fn bdn_verify(message: &[u8], sigma: &G1Point, apk: &G2Point) -> (ok: bool)
    requires
        message@.len() <= MAX_HASH_INPUT,
    ensures
        ok == bdn_verify_spec(message@, sigma@, apk@),
{
    let mut r = Accumulator::new();
    let negated = sigma.negate();
    r.another(&G2Point::generator(), &negated);
    r.another(apk, &G1Point::hash_to_point(message));
    r.is_one()
}

/// What one run of the scheme produced.
pub struct BdnRound {
    /// The key pairs of the signers.
    pub signers: Vec<KeyPair>,
    /// The share of each signer.
    pub shares: Vec<G1Point>,
    /// The aggregate signature.
    pub sigma: G1Point,
    /// The aggregate public key.
    pub apk: G2Point,
    /// Whether the aggregate signature verified under the aggregate key.
    pub verified: bool,
}

/// Whether `round` is the run of the scheme on `message` by the signers set
/// up from `seeds`.
pub open spec fn bdn_round_spec(round: BdnRound, seeds: Seq<[u8; IKM_LEN]>, message: Seq<u8>) -> bool {
    &&& round.signers@.len() == seeds.len()
    &&& forall|i: int|
        0 <= i < seeds.len() ==> generated_from(
            #[trigger] round.signers@[i],
            seeds[i]@,
        )
    &&& round.shares@.len() == seeds.len()
    &&& forall|i: int|
        0 <= i < seeds.len() ==> (#[trigger] round.shares@[i])@ == bdn_share_spec(
            round.signers@,
            message,
            i,
        )
    &&& round.sigma@ == g1_sum(g1_encodings(round.shares@))
    &&& round.apk@ == bdn_aggpk_spec(signer_keys(round.signers@))
    &&& round.verified == bdn_verify_spec(message, round.sigma@, round.apk@)
}

/// Runs the scheme once on `message`: sets up one signer for each of
/// `seeds`, lets each sign, combines the shares, aggregates the public keys
/// and verifies the aggregate signature under the aggregate key.
///
/// No seeds are refused, and so is a seed for which key generation fails.
pub fn bdn_blsms(seeds: &Vec<[u8; IKM_LEN]>, message: &[u8]) -> (r: Result<BdnRound, MsError>)
    requires
        seeds@.len() <= MAX_SIGNERS,
        message@.len() <= MAX_HASH_INPUT,
    ensures
        seeds@.len() == 0 ==> r == Err::<BdnRound, MsError>(MsError::EmptySignerSet),
        seeds@.len() > 0 && !all_keygen_ok(seeds@) ==> r == Err::<BdnRound, MsError>(
            MsError::KeyGenerationFailed,
        ),
        seeds@.len() > 0 && all_keygen_ok(seeds@) ==> r is Ok && bdn_round_spec(
            r->Ok_0,
            seeds@,
            message@,
        ),
{
    let signers = match setup(seeds) {
        Ok(signers) => signers,
        Err(e) => {
            return Err(e);
        },
    };
    let shares = match bdn_sign(&signers, message) {
        Ok(shares) => shares,
        Err(e) => {
            return Err(e);
        },
    };
    let sigma = match bdn_combine(&shares) {
        Ok(sigma) => sigma,
        Err(e) => {
            return Err(e);
        },
    };
    let pkvec = public_keys(&signers);
    let apk = match bdn_aggpk(&pkvec) {
        Ok(apk) => apk,
        Err(e) => {
            return Err(e);
        },
    };
    let verified = bdn_verify(message, &sigma, &apk);
    Ok(BdnRound { signers, shares, sigma, apk, verified })
}

} // verus!
