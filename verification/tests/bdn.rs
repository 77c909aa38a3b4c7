use bls_multisig::bdn::{
    bdn_aggpk, bdn_blsms, bdn_coefficients, bdn_combine, bdn_sign, bdn_verify,
};
use bls_multisig::error::MsError;
use bls_multisig::group::{G1Point, G2Point};
use bls_multisig::keys::{public_keys, setup, KeyPair};
use bls_multisig::params::{BGS, G1S, G2S, IKM_LEN};
use miracl_core::bls12381::big::BIG;
use miracl_core::bls12381::bls;
use miracl_core::bls12381::ecp::ECP;
use miracl_core::bls12381::ecp2::ECP2;
use miracl_core::bls12381::pair;
use miracl_core::bls12381::rom;
use miracl_core::hash256::HASH256;

const MESSAGE: &[u8] = b"test message";

fn bdn_seed(i: usize) -> [u8; IKM_LEN] {
    let mut s = [0u8; IKM_LEN];
    for (j, b) in s.iter_mut().enumerate() {
        *b = (29 * i + 5 * j + 2) as u8;
    }
    s
}

fn bdn_seeds(n: usize) -> Vec<[u8; IKM_LEN]> {
    (0..n).map(bdn_seed).collect()
}

fn bdn_signers(n: usize) -> Vec<KeyPair> {
    setup(&bdn_seeds(n)).unwrap()
}

/// The coefficient of key `i`, computed with the curve library alone.
fn direct_coefficient(pks: &[[u8; G2S]], i: usize) -> BIG {
    let mut h = HASH256::new();
    h.process_array(&pks[i]);
    for pk in pks {
        h.process_array(pk);
    }
    let digest = h.hash();
    let mut wide = [0u8; BGS];
    wide[BGS - 32..].copy_from_slice(&digest);
    let mut t = BIG::frombytes(&wide);
    t.rmod(&BIG::new_ints(&rom::CURVE_ORDER));
    t
}

fn key_bytes(set: &[KeyPair]) -> Vec<[u8; G2S]> {
    set.iter().map(|p| p.public.to_bytes()).collect()
}

fn run_bdn(n: usize, message: &[u8]) -> bool {
    let set = bdn_signers(n);
    let shares = bdn_sign(&set, message).unwrap();
    let sigma = bdn_combine(&shares).unwrap();
    let apk = bdn_aggpk(&public_keys(&set)).unwrap();
    bdn_verify(message, &sigma, &apk)
}

#[test]
fn bdn_verifies_for_one_signer() {
    assert!(run_bdn(1, MESSAGE));
}

#[test]
fn bdn_verifies_for_two_signers() {
    assert!(run_bdn(2, MESSAGE));
}

#[test]
fn bdn_verifies_for_three_signers() {
    assert!(run_bdn(3, MESSAGE));
}

#[test]
fn bdn_verifies_for_five_signers() {
    assert!(run_bdn(5, b"another message, somewhat longer than the first"));
}

#[test]
fn bdn_verifies_the_empty_message() {
    assert!(run_bdn(2, b""));
}

#[test]
fn bdn_rejects_another_message() {
    let set = bdn_signers(3);
    let shares = bdn_sign(&set, MESSAGE).unwrap();
    let sigma = bdn_combine(&shares).unwrap();
    let apk = bdn_aggpk(&public_keys(&set)).unwrap();
    assert!(bdn_verify(MESSAGE, &sigma, &apk));
    assert!(!bdn_verify(b"test messagf", &sigma, &apk));
    assert!(!bdn_verify(b"", &sigma, &apk));
}

#[test]
fn bdn_combination_does_not_depend_on_the_order_of_the_shares() {
    let set = bdn_signers(4);
    let shares = bdn_sign(&set, MESSAGE).unwrap();
    let apk = bdn_aggpk(&public_keys(&set)).unwrap();
    let sigma = bdn_combine(&shares).unwrap();
    let reversed: Vec<G1Point> = shares.iter().rev().copied().collect();
    let rotated = vec![shares[2], shares[0], shares[3], shares[1]];
    let sigma_reversed = bdn_combine(&reversed).unwrap();
    let sigma_rotated = bdn_combine(&rotated).unwrap();
    assert!(bdn_verify(MESSAGE, &sigma_reversed, &apk));
    assert!(bdn_verify(MESSAGE, &sigma_rotated, &apk));
    assert_eq!(sigma_reversed.to_bytes(), sigma.to_bytes());
    assert_eq!(sigma_rotated.to_bytes(), sigma.to_bytes());
}

#[test]
fn bdn_coefficients_are_the_same_for_signing_and_aggregation() {
    let set = bdn_signers(3);
    let pks = key_bytes(&set);
    // what aggregation uses
    let coeffs = bdn_coefficients(&public_keys(&set));
    assert_eq!(coeffs.len(), 3);
    let order = BIG::new_ints(&rom::CURVE_ORDER);
    let shares = bdn_sign(&set, MESSAGE).unwrap();
    for i in 0..3 {
        let t = direct_coefficient(&pks, i);
        let mut expected = [0u8; BGS];
        t.tobytes(&mut expected);
        assert_eq!(coeffs[i].to_bytes(), expected);
        // what signing used: the share is the signature under sk * t
        let exp = BIG::modmul(&BIG::frombytes(&set[i].secret.to_bytes()), &t, &order);
        let mut newsk = [0u8; BGS];
        exp.tobytes(&mut newsk);
        let mut sig = [0u8; G1S];
        bls::core_sign(&mut sig, MESSAGE, &newsk);
        assert_eq!(shares[i].to_bytes(), sig);
    }
    assert_ne!(coeffs[0].to_bytes(), coeffs[1].to_bytes());
}

#[test]
fn bdn_coefficients_depend_on_the_whole_set() {
    let three = bdn_coefficients(&public_keys(&bdn_signers(3)));
    let two = bdn_coefficients(&public_keys(&bdn_signers(2)));
    assert_ne!(three[0].to_bytes(), two[0].to_bytes());
    assert!(bdn_coefficients(&Vec::new()).is_empty());
}

#[test]
fn bdn_rejects_a_changed_public_key() {
    let set = bdn_signers(3);
    let shares = bdn_sign(&set, MESSAGE).unwrap();
    let sigma = bdn_combine(&shares).unwrap();
    let mut pkvec = public_keys(&set);
    // the other tag is the inverse of the key: a valid encoding
    let mut changed = pkvec[1].to_bytes();
    changed[0] ^= 0x01;
    pkvec[1] = G2Point::from_bytes(&changed).unwrap();
    let apk = bdn_aggpk(&pkvec).unwrap();
    assert!(!bdn_verify(MESSAGE, &sigma, &apk));
}

#[test]
fn bdn_rejects_or_refuses_any_single_flipped_bit() {
    let set = bdn_signers(2);
    let shares = bdn_sign(&set, MESSAGE).unwrap();
    let sigma = bdn_combine(&shares).unwrap();
    let mut rejected = 0;
    let mut refused = 0;
    for bit in 0..48usize {
        let mut pkvec = public_keys(&set);
        let mut changed = pkvec[0].to_bytes();
        let at = 16 * bit + 3;
        changed[at / 8] ^= 1 << (at % 8);
        match G2Point::from_bytes(&changed) {
            Ok(p) => {
                pkvec[0] = p;
                let apk = bdn_aggpk(&pkvec).unwrap();
                assert!(!bdn_verify(MESSAGE, &sigma, &apk));
                rejected += 1;
            }
            Err(e) => {
                assert_eq!(e, MsError::InvalidEncoding);
                refused += 1;
            }
        }
    }
    assert_eq!(rejected + refused, 48);
    assert!(rejected > 0);
}

#[test]
fn bdn_rejects_a_changed_signature() {
    let set = bdn_signers(2);
    let shares = bdn_sign(&set, MESSAGE).unwrap();
    let sigma = bdn_combine(&shares).unwrap();
    let apk = bdn_aggpk(&public_keys(&set)).unwrap();
    assert!(!bdn_verify(MESSAGE, &sigma.negate(), &apk));
    assert!(!bdn_verify(MESSAGE, &shares[0], &apk));
}

#[test]
fn bdn_scenario_three_signers_fixed_seeds() {
    let seeds = bdn_seeds(3);
    let round = bdn_blsms(&seeds, MESSAGE).unwrap();
    assert!(round.verified);
    assert_eq!(round.signers.len(), 3);
    assert_eq!(round.shares.len(), 3);

    // the same run with the curve library alone
    let order = BIG::new_ints(&rom::CURVE_ORDER);
    let mut sks = Vec::new();
    let mut pks = Vec::new();
    for s in &seeds {
        let mut sk = [0u8; BGS];
        let mut pk = [0u8; G2S];
        bls::key_pair_generate(s, &mut sk, &mut pk);
        sks.push(sk);
        pks.push(pk);
    }
    let mut sigma = ECP::new();
    let mut apk = ECP2::new();
    for i in 0..3 {
        assert_eq!(round.signers[i].secret.to_bytes(), sks[i]);
        assert_eq!(round.signers[i].public.to_bytes(), pks[i]);
        let t = direct_coefficient(&pks, i);
        let exp = BIG::modmul(&BIG::frombytes(&sks[i]), &t, &order);
        let mut newsk = [0u8; BGS];
        exp.tobytes(&mut newsk);
        let mut sig = [0u8; G1S];
        bls::core_sign(&mut sig, MESSAGE, &newsk);
        assert_eq!(round.shares[i].to_bytes(), sig);
        sigma.add(&ECP::frombytes(&sig));
        apk.add(&pair::g2mul(&ECP2::frombytes(&pks[i]), &t));
    }
    let mut sigma_bytes = [0u8; G1S];
    sigma.tobytes(&mut sigma_bytes, true);
    let mut apk_bytes = [0u8; G2S];
    apk.tobytes(&mut apk_bytes, true);
    assert_eq!(round.sigma.to_bytes(), sigma_bytes);
    assert_eq!(round.apk.to_bytes(), apk_bytes);

    // the pairing product is the identity of the target group
    let mut r = pair::initmp();
    sigma.neg();
    pair::another(&mut r, &ECP2::generator(), &sigma);
    pair::another(&mut r, &apk, &bls::bls_hash_to_point(MESSAGE));
    let v = pair::fexp(&pair::miller(&mut r));
    assert!(v.isunity());
    // and the aggregate is an ordinary signature under the aggregate key
    assert_eq!(bls::core_verify(&sigma_bytes, MESSAGE, &apk_bytes), bls::BLS_OK);
}

#[test]
fn bdn_round_is_reproducible() {
    let a = bdn_blsms(&bdn_seeds(2), MESSAGE).unwrap();
    let b = bdn_blsms(&bdn_seeds(2), MESSAGE).unwrap();
    assert_eq!(a.sigma.to_bytes(), b.sigma.to_bytes());
    assert_eq!(a.apk.to_bytes(), b.apk.to_bytes());
    assert!(a.verified && b.verified);
}

#[test]
fn bdn_single_signer_aggregates_are_the_weighted_share_and_key() {
    let set = bdn_signers(1);
    let shares = bdn_sign(&set, MESSAGE).unwrap();
    let sigma = bdn_combine(&shares).unwrap();
    assert_eq!(sigma.to_bytes(), shares[0].to_bytes());
    let pkvec = public_keys(&set);
    let coeffs = bdn_coefficients(&pkvec);
    let apk = bdn_aggpk(&pkvec).unwrap();
    assert_eq!(apk.to_bytes(), pkvec[0].pair_scale(&coeffs[0]).to_bytes());
    assert_ne!(apk.to_bytes(), pkvec[0].to_bytes());
}

#[test]
fn bdn_refuses_empty_inputs() {
    assert!(matches!(bdn_sign(&Vec::new(), MESSAGE), Err(MsError::EmptySignerSet)));
    assert!(matches!(bdn_combine(&Vec::new()), Err(MsError::EmptySignerSet)));
    assert!(matches!(bdn_aggpk(&Vec::new()), Err(MsError::EmptySignerSet)));
    assert!(matches!(bdn_blsms(&Vec::new(), MESSAGE), Err(MsError::EmptySignerSet)));
}

#[test]
fn bdn_scenario_known_answer() {
    let round = bdn_blsms(&bdn_seeds(3), MESSAGE).unwrap();
    let hex = |bytes: &[u8]| -> String { bytes.iter().map(|b| format!("{:02X}", b)).collect() };
    assert_eq!(
        hex(&round.signers[0].secret.to_bytes()),
        "000000000000000000000000000000005680F7F13A7B1CBDDB36CBF12940DFEB906E1DC8CEB61A362088ED5D24423454"
    );
    assert_eq!(
        hex(&round.signers[0].public.to_bytes()),
        "02163CF1F8E90FFEBC3056EEE3CA4FB6A9CED6067EF35DB51C1BD6FC809E14A7A77176952FFC498ECC59A2E6A3B98E196B16CCD6ED47AB6D590A143950270421D1EF7BCEAC9AFD5648DDBDE2D0C06C6AC81EEA8CAC43CB1AFE9694F62CE56A53FF"
    );
    assert_eq!(
        hex(&round.sigma.to_bytes()),
        "0302BF632C66D011BF6070A4FEEEE7C21C615C909035089B1DE233AD391F63F8CCEA01D63388E4ECDCAC32371DD97B1690"
    );
    assert_eq!(
        hex(&round.apk.to_bytes()),
        "03134FFA242D9FD81C44F869092319738FE2F0ABC7C5F808480710D1D7946C4D84CC5EEB199AC78B742417270E4A6A0F8C17114850B3D49EDCCFBA88AED145BBEE549EFDBA167B56BA414A386D7684F294C236DE16BCB854326112BC1CF2871C11"
    );
    assert!(round.verified);
}

#[test]
fn bdn_combine_goes_through_the_identity() {
    // shares that cancel: the partial sum is the identity, and the third
    // share is what is left, as with the curve library's own points
    let set = bdn_signers(2);
    let shares = bdn_sign(&set, MESSAGE).unwrap();
    let cancelling = vec![shares[0], shares[0].negate(), shares[1]];
    let sigma = bdn_combine(&cancelling).unwrap();
    assert!(!sigma.is_identity());
    assert_eq!(sigma.to_bytes(), shares[1].to_bytes());

    let mut direct = ECP::new();
    direct.add(&ECP::frombytes(&shares[0].to_bytes()));
    let mut inverse = ECP::frombytes(&shares[0].to_bytes());
    inverse.neg();
    direct.add(&inverse);
    assert!(direct.is_infinity());
    direct.add(&ECP::frombytes(&shares[1].to_bytes()));
    let mut bytes = [0u8; G1S];
    direct.tobytes(&mut bytes, true);
    assert_eq!(sigma.to_bytes(), bytes);

    let nothing = bdn_combine(&vec![shares[0], shares[0].negate()]).unwrap();
    assert!(nothing.is_identity());
    let apk = bdn_aggpk(&public_keys(&set)).unwrap();
    assert!(!bdn_verify(MESSAGE, &nothing, &apk));
}
