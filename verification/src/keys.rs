//! Key pairs and their setup from fresh keying material.

use vstd::prelude::*;
use miracl_core::bls12381::bls;
use miracl_core::rand::{RAND, RAND_impl};
use rand::rngs::OsRng;
use rand::RngCore;
use crate::error::MsError;
use crate::group::{g2_encodings, read_from, Encoded, G2Point};
use crate::params::{is_compressed_tag, BGS, G2S, IKM_LEN, MAX_HASH_INPUT, RAW_SEED_LEN};
use crate::scalar::Scalar;

verus! {

/// The generator of pseudo-random bytes of `miracl_core`. Nothing is stated
/// of the bytes it gives.
#[verifier::external_type_specification]
#[verifier::external_body]
pub struct ExRandImpl(RAND_impl);

/// What `bls::key_pair_generate` returns and writes for the keying material
/// `ikm`: its status, the secret key and the public key.
pub uninterp spec fn key_pair_generate_spec(ikm: Seq<u8>) -> (int, Seq<u8>, Seq<u8>);

/// `bls::key_pair_generate`: the status, and the key pair that it derives
/// from `ikm`. The public key is written in compressed form and starts with
/// one of the two tags.
#[verifier::external_body]
fn bls_key_pair_generate(ikm: &[u8; IKM_LEN]) -> (r: (isize, [u8; BGS], [u8; G2S]))
    ensures
        (r.0 as int, r.1@, r.2@) == key_pair_generate_spec(ikm@),
        is_compressed_tag(r.2@[0]),
{
    let mut s = [0u8; BGS];
    let mut w = [0u8; G2S];
    let status = bls::key_pair_generate(ikm, &mut s, &mut w);
    (status, s, w)
}

/// What the generator `rng` holds in store: the bytes that `getbyte` of
/// `RAND_impl` will give, each under the number of bytes given before it.
/// The state of a generator fixes every byte to come.
pub uninterp spec fn rand_stream_spec(rng: RAND_impl) -> Map<nat, u8>;

/// What a generator holds in store once `seed` of `RAND_impl` has seeded it
/// from the bytes `raw`, which are not empty.
pub uninterp spec fn seeded_stream_spec(raw: Seq<u8>) -> Map<nat, u8>;

/// `RAND_impl::new`: a generator that is not seeded yet.
pub assume_specification[ RAND_impl::new ]() -> (rng: RAND_impl);

/// `RAND_impl::clean`: wipes the state of a generator.
pub assume_specification[ RAND_impl::clean ](rng: &mut RAND_impl);

/// `seed` of `RAND_impl`: seeds the generator from all of `raw`, which goes
/// through the hash and is bounded as the input of the hash is. Where `raw`
/// is not empty, `seed` sets every part of the state anew from the digest of
/// `raw`, so that what the generator then holds in store depends on `raw`
/// alone.
#[verifier::external_body]
fn rand_seed(rng: &mut RAND_impl, raw: &[u8])
    requires
        raw@.len() <= MAX_HASH_INPUT,
    ensures
        raw@.len() > 0 ==> rand_stream_spec(*final(rng)) == seeded_stream_spec(raw@),
{
    rng.seed(raw.len(), raw);
}

/// `getbyte` of `RAND_impl`: the next byte of the generator, which is then
/// one byte further on.
#[verifier::external_body]
fn rand_getbyte(rng: &mut RAND_impl) -> (b: u8)
    ensures
        b == rand_stream_spec(*old(rng))[0],
        forall|i: nat|
            #![trigger rand_stream_spec(*final(rng))[i]]
            rand_stream_spec(*final(rng))[i] == rand_stream_spec(*old(rng))[i + 1],
{
    rng.getbyte()
}

/// `try_fill_bytes` of `rand::rngs::OsRng`: raw entropy of the operating
/// system, or nothing where it gives none.
#[verifier::external_body]
fn os_entropy() -> (raw: Option<[u8; RAW_SEED_LEN]>) {
    let mut raw = [0u8; RAW_SEED_LEN];
    match OsRng.try_fill_bytes(&mut raw) {
        Ok(()) => Some(raw),
        Err(_) => None,
    }
}

/// The key pair of one signer.
#[derive(Clone, Copy, Debug)]
pub struct KeyPair {
    pub secret: Scalar,
    pub public: G2Point,
}

/// Whether key generation succeeds on the keying material `ikm`.
pub open spec fn keygen_ok(ikm: Seq<u8>) -> bool {
    key_pair_generate_spec(ikm).0 == 0
}

/// Whether `pair` is the key pair generated from the keying material `ikm`.
pub open spec fn generated_from(pair: KeyPair, ikm: Seq<u8>) -> bool {
    &&& pair.secret.bytes@ == key_pair_generate_spec(ikm).1
    &&& pair.public@ == read_from(key_pair_generate_spec(ikm).2)
}

/// Whether every one of `seeds` gives a key pair.
pub open spec fn all_keygen_ok(seeds: Seq<[u8; IKM_LEN]>) -> bool {
    forall|i: int| 0 <= i < seeds.len() ==> keygen_ok(#[trigger] seeds[i]@)
}

impl KeyPair {
    /// Derives the key pair of one signer from its keying material. It fails
    /// exactly where the key-derivation primitive reports a failure.
    pub fn derive(ikm: &[u8; IKM_LEN]) -> (r: Result<KeyPair, MsError>)
        ensures
            keygen_ok(ikm@) ==> r is Ok && generated_from(r->Ok_0, ikm@),
            !keygen_ok(ikm@) ==> r == Err::<KeyPair, MsError>(MsError::KeyGenerationFailed),
    {
        let (status, s, w) = bls_key_pair_generate(ikm);
        if status != 0 {
            return Err(MsError::KeyGenerationFailed);
        }
        Ok(KeyPair { secret: Scalar { bytes: s }, public: G2Point::from_compressed(w) })
    }
}

/// The public keys of the signers `set`, as the contracts speak of them.
pub open spec fn signer_keys(set: Seq<KeyPair>) -> Seq<Encoded> {
    Seq::new(set.len(), |i: int| set[i].public@)
}

/// The public keys of the signers, in the order of the set.
pub fn public_keys(set: &Vec<KeyPair>) -> (pkvec: Vec<G2Point>)
    ensures
        pkvec@.len() == set@.len(),
        forall|i: int| 0 <= i < set@.len() ==> #[trigger] pkvec@[i] == set@[i].public,
        g2_encodings(pkvec@) == signer_keys(set@),
{
    let mut pkvec: Vec<G2Point> = Vec::new();
    let mut i: usize = 0;
    while i < set.len()
        invariant
            i <= set@.len(),
            pkvec@.len() == i,
            forall|j: int| 0 <= j < i ==> #[trigger] pkvec@[j] == set@[j].public,
        decreases set@.len() - i,
    {
        pkvec.push(set[i].public);
        i = i + 1;
    }
    pkvec
}

/// The next `n` bytes that the generator `rng` gives.
pub open spec fn next_bytes(rng: RAND_impl, n: nat) -> Seq<u8> {
    Seq::new(n, |j: int| rand_stream_spec(rng)[j as nat])
}

/// Whether `after` is the generator `before` once `n` bytes were drawn from
/// it: what `after` gives is what `before` gives from its `n`-th byte on.
pub open spec fn advanced_by(before: RAND_impl, after: RAND_impl, n: nat) -> bool {
    forall|i: nat|
        #![trigger rand_stream_spec(after)[i]]
        rand_stream_spec(after)[i] == rand_stream_spec(before)[i + n]
}

/// A generator seeded from the bytes `raw`: wiped, then seeded from all of
/// them. What it gives depends on `raw` alone.
pub fn seeded_rng(raw: &[u8]) -> (rng: RAND_impl)
    requires
        raw@.len() <= MAX_HASH_INPUT,
    ensures
        raw@.len() > 0 ==> rand_stream_spec(rng) == seeded_stream_spec(raw@),
{
    let mut rng = RAND_impl::new();
    rng.clean();
    rand_seed(&mut rng, raw);
    rng
}

/// A generator seeded from `RAW_SEED_LEN` bytes of entropy of the operating
/// system. Where the system gives none, no key can be generated.
pub fn gen_seed() -> (r: Result<RAND_impl, MsError>)
    ensures
        r is Ok ==> exists|raw: Seq<u8>|
            raw.len() == RAW_SEED_LEN && rand_stream_spec(r->Ok_0) == #[trigger] seeded_stream_spec(
                raw,
            ),
        r is Err ==> r->Err_0 == MsError::KeyGenerationFailed,
{
    match os_entropy() {
        Some(raw) => {
            let rng = seeded_rng(raw.as_slice());
            assert(rand_stream_spec(rng) == seeded_stream_spec(raw@));
            Ok(rng)
        },
        None => Err(MsError::KeyGenerationFailed),
    }
}

/// Draws the keying material of one key pair from a generator: its next
/// `IKM_LEN` bytes, in the order in which it gives them.
pub fn draw_ikm(rng: &mut RAND_impl) -> (ikm: [u8; IKM_LEN])
    ensures
        ikm@ == next_bytes(*old(rng), IKM_LEN as nat),
        advanced_by(*old(rng), *final(rng), IKM_LEN as nat),
{
    let mut ikm: [u8; IKM_LEN] = [0u8; IKM_LEN];
    let mut i: usize = 0;
    while i < IKM_LEN
        invariant
            i <= IKM_LEN,
            forall|j: int| 0 <= j < i ==> ikm@[j] == rand_stream_spec(*old(rng))[j as nat],
            advanced_by(*old(rng), *rng, i as nat),
        decreases IKM_LEN - i,
    {
        let ghost before = *rng;
        let b = rand_getbyte(rng);
        ikm[i] = b;
        proof {
            assert(rand_stream_spec(before)[0] == rand_stream_spec(*old(rng))[i as nat]);
            assert forall|k: nat| #![trigger rand_stream_spec(*rng)[k]]
                rand_stream_spec(*rng)[k] == rand_stream_spec(*old(rng))[(k + i + 1) as nat] by {
                assert(rand_stream_spec(before)[k + 1] == rand_stream_spec(*old(rng))[(k + 1
                    + i) as nat]);
            }
        }
        i = i + 1;
    }
    assert(ikm@ =~= next_bytes(*old(rng), IKM_LEN as nat));
    ikm
}

/// Sets up the key pair of one signer from the next `IKM_LEN` bytes of its
/// generator: the key pair generated from them, or the failure that the
/// primitive reports on them. The generator is then `IKM_LEN` bytes further
/// on.
pub fn bls_setup(rng: &mut RAND_impl) -> (r: Result<KeyPair, MsError>)
    ensures
        keygen_ok(next_bytes(*old(rng), IKM_LEN as nat)) ==> r is Ok && generated_from(
            r->Ok_0,
            next_bytes(*old(rng), IKM_LEN as nat),
        ),
        !keygen_ok(next_bytes(*old(rng), IKM_LEN as nat)) ==> r == Err::<KeyPair, MsError>(
            MsError::KeyGenerationFailed,
        ),
        advanced_by(*old(rng), *final(rng), IKM_LEN as nat),
{
    let ikm = draw_ikm(rng);
    KeyPair::derive(&ikm)
}

/// Sets up one key pair for each of `seeds`, in their order.
///
/// An empty list is refused. Otherwise the call fails exactly where the
/// key-derivation primitive reports a failure for some signer, and else
/// gives as many key pairs as there are seeds, the i-th generated from the
/// i-th seed.
pub fn setup(seeds: &Vec<[u8; IKM_LEN]>) -> (r: Result<Vec<KeyPair>, MsError>)
    ensures
        seeds@.len() == 0 ==> r == Err::<Vec<KeyPair>, MsError>(MsError::EmptySignerSet),
        seeds@.len() > 0 && !all_keygen_ok(seeds@) ==> r == Err::<Vec<KeyPair>, MsError>(
            MsError::KeyGenerationFailed,
        ),
        seeds@.len() > 0 && all_keygen_ok(seeds@) ==> r is Ok && r->Ok_0@.len() == seeds@.len()
            && forall|i: int|
            0 <= i < seeds@.len() ==> generated_from(#[trigger] r->Ok_0@[i], seeds@[i]@),
{
    if seeds.len() == 0 {
        return Err(MsError::EmptySignerSet);
    }
    let mut set: Vec<KeyPair> = Vec::new();
    let mut i: usize = 0;
    while i < seeds.len()
        invariant
            i <= seeds@.len(),
            set@.len() == i,
            forall|j: int| 0 <= j < i ==> keygen_ok(#[trigger] seeds@[j]@),
            forall|j: int| 0 <= j < i ==> generated_from(#[trigger] set@[j], seeds@[j]@),
        decreases seeds@.len() - i,
    {
        match KeyPair::derive(&seeds[i]) {
            Ok(pair) => {
                set.push(pair);
            },
            Err(e) => {
                return Err(e);
            },
        }
        i = i + 1;
    }
    Ok(set)
}

/// Draws the keying material of one key pair from each of the generators,
/// in their order: from each its next `IKM_LEN` bytes, after which it is
/// that many bytes further on.
pub fn draw_seeds(rngs: &mut Vec<RAND_impl>) -> (seeds: Vec<[u8; IKM_LEN]>)
    ensures
        seeds@.len() == old(rngs)@.len(),
        final(rngs)@.len() == old(rngs)@.len(),
        forall|k: int|
            0 <= k < old(rngs)@.len() ==> (#[trigger] seeds@[k])@ == next_bytes(
                old(rngs)@[k],
                IKM_LEN as nat,
            ),
        forall|k: int|
            0 <= k < old(rngs)@.len() ==> advanced_by(
                old(rngs)@[k],
                #[trigger] final(rngs)@[k],
                IKM_LEN as nat,
            ),
{
    let mut seeds: Vec<[u8; IKM_LEN]> = Vec::new();
    let mut i: usize = 0;
    while i < rngs.len()
        invariant
            i <= rngs@.len(),
            seeds@.len() == i,
            rngs@.len() == old(rngs)@.len(),
            forall|k: int|
                0 <= k < i ==> (#[trigger] seeds@[k])@ == next_bytes(
                    old(rngs)@[k],
                    IKM_LEN as nat,
                ),
            forall|k: int|
                0 <= k < i ==> advanced_by(old(rngs)@[k], #[trigger] rngs@[k], IKM_LEN as nat),
            forall|k: int| i <= k < rngs@.len() ==> #[trigger] rngs@[k] == old(rngs)@[k],
        decreases rngs@.len() - i,
    {
        let ikm = draw_ikm(&mut rngs[i]);
        seeds.push(ikm);
        i = i + 1;
    }
    seeds
}

} // verus!
