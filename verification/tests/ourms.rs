use bls_multisig::derive::hash_2big;
use bls_multisig::error::MsError;
use bls_multisig::group::{G1Point, G2Point};
use bls_multisig::keys::{public_keys, setup, KeyPair};
use bls_multisig::ourms::{
    our_aggpk, our_aggregate_keys, our_blsms, our_combine, our_combiner, our_sign, our_verify,
};
use bls_multisig::params::{BGS, G1S, G2S, IKM_LEN};
use bls_multisig::scalar::Scalar;
use miracl_core::bls12381::big::BIG;
use miracl_core::bls12381::bls;
use miracl_core::bls12381::ecp::ECP;
use miracl_core::bls12381::ecp2::ECP2;
use miracl_core::bls12381::pair;
use miracl_core::bls12381::rom;
use miracl_core::hash256::HASH256;

const MESSAGE: &[u8] = b"test message";

fn our_seed(i: usize) -> [u8; IKM_LEN] {
    let mut s = [0u8; IKM_LEN];
    for (j, b) in s.iter_mut().enumerate() {
        *b = (41 * i + 7 * j + 3) as u8;
    }
    s
}

fn our_seeds(n: usize) -> Vec<[u8; IKM_LEN]> {
    (0..n).map(our_seed).collect()
}

fn our_signers(n: usize) -> Vec<KeyPair> {
    setup(&our_seeds(n)).unwrap()
}

/// The scalar derived from the first share, computed with the curve library
/// alone.
fn direct_start(sig0: &[u8; G1S], ell: usize) -> BIG {
    if ell == 0 {
        return BIG::new();
    }
    let mut h = HASH256::new();
    h.process_array(sig0);
    let digest = h.hash();
    let k = ell / 8;
    let mut wide = [0u8; BGS];
    wide[BGS - k..].copy_from_slice(&digest[..k]);
    let mut t = BIG::frombytes(&wide);
    t.rmod(&BIG::new_ints(&rom::CURVE_ORDER));
    t
}

fn run_our(n: usize, ell: usize, message: &[u8]) -> bool {
    let set = our_signers(n);
    let shares = our_sign(&set, message).unwrap();
    let (s1, s2) = our_combine(&shares, &set, ell).unwrap();
    let (k1, k2) = our_aggregate_keys(&public_keys(&set), &shares[0], ell).unwrap();
    our_verify(message, &s1, &s2, &k1, &k2)
}

#[test]
fn our_verifies_without_hash_bits() {
    assert!(run_our(1, 0, MESSAGE));
    assert!(run_our(2, 0, MESSAGE));
    assert!(run_our(3, 0, MESSAGE));
}

#[test]
fn our_verifies_with_eight_hash_bits() {
    assert!(run_our(1, 8, MESSAGE));
    assert!(run_our(2, 8, MESSAGE));
    assert!(run_our(3, 8, MESSAGE));
}

#[test]
fn our_verifies_with_sixty_four_hash_bits() {
    assert!(run_our(2, 64, MESSAGE));
    assert!(run_our(4, 64, b"another message"));
}

#[test]
fn our_verifies_with_every_accepted_bit_length() {
    for ell in [16usize, 24, 32, 40, 48, 56] {
        assert!(run_our(2, ell, MESSAGE));
    }
}

#[test]
fn our_rejects_another_message() {
    let set = our_signers(3);
    let shares = our_sign(&set, MESSAGE).unwrap();
    let (s1, s2) = our_combine(&shares, &set, 8).unwrap();
    let (k1, k2) = our_aggregate_keys(&public_keys(&set), &shares[0], 8).unwrap();
    assert!(our_verify(MESSAGE, &s1, &s2, &k1, &k2));
    assert!(!our_verify(b"test messagf", &s1, &s2, &k1, &k2));
}

#[test]
fn our_rejects_a_mismatch_of_bit_lengths() {
    let set = our_signers(2);
    let shares = our_sign(&set, MESSAGE).unwrap();
    let (s1, s2) = our_combine(&shares, &set, 8).unwrap();
    let (k1, k2) = our_aggregate_keys(&public_keys(&set), &shares[0], 16).unwrap();
    assert!(!our_verify(MESSAGE, &s1, &s2, &k1, &k2));
}

#[test]
fn our_start_is_zero_without_hash_bits_and_one_byte_with_eight() {
    let set = our_signers(2);
    let shares = our_sign(&set, MESSAGE).unwrap();
    let order = Scalar::order();
    let sig0 = shares[0].to_bytes();
    let sig1 = shares[1].to_bytes();
    assert_eq!(hash_2big(&sig0, 0, &order).unwrap().to_bytes(), [0u8; BGS]);
    assert_eq!(hash_2big(&sig1, 0, &order).unwrap().to_bytes(), [0u8; BGS]);
    let mut h = HASH256::new();
    h.process_array(&sig0);
    let digest = h.hash();
    let start = hash_2big(&sig0, 8, &order).unwrap().to_bytes();
    assert_eq!(start[..BGS - 1], [0u8; BGS - 1]);
    assert_eq!(start[BGS - 1], digest[0]);
}

#[test]
fn our_shares_are_plain_signatures() {
    let set = our_signers(3);
    let shares = our_sign(&set, MESSAGE).unwrap();
    assert_eq!(shares.len(), 3);
    for i in 0..3 {
        let mut sig = [0u8; G1S];
        bls::core_sign(&mut sig, MESSAGE, &set[i].secret.to_bytes());
        assert_eq!(shares[i].to_bytes(), sig);
        assert_eq!(
            bls::core_verify(&sig, MESSAGE, &set[i].public.to_bytes()),
            bls::BLS_OK
        );
    }
}

#[test]
fn our_rejects_swapped_shares() {
    let set = our_signers(3);
    let shares = our_sign(&set, MESSAGE).unwrap();
    let (k1, k2) = our_aggregate_keys(&public_keys(&set), &shares[0], 8).unwrap();
    let (s1, s2) = our_combine(&shares, &set, 8).unwrap();
    assert!(our_verify(MESSAGE, &s1, &s2, &k1, &k2));
    // the shares of signers 1 and 2 change places, their weights do not
    let swapped = vec![shares[0], shares[2], shares[1]];
    let (s1, s2) = our_combine(&swapped, &set, 8).unwrap();
    assert!(!our_verify(MESSAGE, &s1, &s2, &k1, &k2));
    // and so for signers 0 and 1
    let swapped = vec![shares[1], shares[0], shares[2]];
    let (s1, s2) = our_combine(&swapped, &set, 8).unwrap();
    assert!(!our_verify(MESSAGE, &s1, &s2, &k1, &k2));
}

#[test]
fn our_rejects_swapped_public_keys() {
    let set = our_signers(3);
    let shares = our_sign(&set, MESSAGE).unwrap();
    let (s1, s2) = our_combine(&shares, &set, 0).unwrap();
    let pkvec = public_keys(&set);
    let swapped = vec![pkvec[0], pkvec[2], pkvec[1]];
    let (k1, k2) = our_aggregate_keys(&swapped, &shares[0], 0).unwrap();
    assert!(!our_verify(MESSAGE, &s1, &s2, &k1, &k2));
}

#[test]
fn our_rejects_a_changed_public_key() {
    let set = our_signers(3);
    let shares = our_sign(&set, MESSAGE).unwrap();
    let (s1, s2) = our_combine(&shares, &set, 8).unwrap();
    let mut pkvec = public_keys(&set);
    let mut changed = pkvec[2].to_bytes();
    changed[0] ^= 0x01;
    pkvec[2] = G2Point::from_bytes(&changed).unwrap();
    let (k1, k2) = our_aggregate_keys(&pkvec, &shares[0], 8).unwrap();
    assert!(!our_verify(MESSAGE, &s1, &s2, &k1, &k2));
}

#[test]
fn our_scenario_three_signers_fixed_seeds() {
    for ell in [0usize, 8, 64] {
        let seeds = our_seeds(3);
        let round = our_blsms(&seeds, MESSAGE, ell).unwrap();
        assert!(round.verified);

        // the same run with the curve library alone
        let order = BIG::new_ints(&rom::CURVE_ORDER);
        let mut sks = Vec::new();
        let mut pks = Vec::new();
        let mut sigs = Vec::new();
        for s in &seeds {
            let mut sk = [0u8; BGS];
            let mut pk = [0u8; G2S];
            bls::key_pair_generate(s, &mut sk, &mut pk);
            let mut sig = [0u8; G1S];
            bls::core_sign(&mut sig, MESSAGE, &sk);
            sks.push(sk);
            pks.push(pk);
            sigs.push(sig);
        }
        let start = direct_start(&sigs[0], ell);
        let sk0 = BIG::frombytes(&sks[0]);
        let mut s1 = ECP::new();
        let mut k1 = ECP2::new();
        let mut k2 = ECP2::new();
        for i in 0..3 {
            assert_eq!(round.shares[i].to_bytes(), sigs[i]);
            let position = BIG::new_int(i as isize + 1);
            let w = BIG::modadd(&start, &position, &order);
            let c = BIG::modadd(&sk0, &w, &order);
            s1.add(&pair::g1mul(&ECP::frombytes(&sigs[i]), &c));
            k1.add(&ECP2::frombytes(&pks[i]));
            k2.add(&ECP2::frombytes(&pks[i]).mul(&w));
        }
        k2.add(&ECP2::frombytes(&pks[0]));
        let mut bytes1 = [0u8; G1S];
        s1.tobytes(&mut bytes1, true);
        assert_eq!(round.s1.to_bytes(), bytes1);
        assert_eq!(round.s2.to_bytes(), sigs[0]);
        let mut bytes2 = [0u8; G2S];
        k1.tobytes(&mut bytes2, true);
        assert_eq!(round.k1.to_bytes(), bytes2);
        k2.tobytes(&mut bytes2, true);
        assert_eq!(round.k2.to_bytes(), bytes2);

        // the pairing product is the identity of the target group
        s1.add(&ECP::frombytes(&sigs[0]));
        s1.neg();
        let mut r = pair::initmp();
        pair::another(&mut r, &ECP2::generator(), &s1);
        pair::another(&mut r, &k1, &ECP::frombytes(&sigs[0]));
        pair::another(&mut r, &k2, &bls::bls_hash_to_point(MESSAGE));
        let v = pair::fexp(&pair::miller(&mut r));
        assert!(v.isunity());
    }
}

#[test]
fn our_single_signer_keys() {
    let set = our_signers(1);
    let shares = our_sign(&set, MESSAGE).unwrap();
    let pkvec = public_keys(&set);
    for ell in [0usize, 8] {
        let order = Scalar::order();
        let start = hash_2big(&shares[0].to_bytes(), ell, &order).unwrap();
        let (k1, k2) = our_aggregate_keys(&pkvec, &shares[0], ell).unwrap();
        assert_eq!(k1.to_bytes(), pkvec[0].to_bytes());
        // start + 1
        let w = BIG::modadd(
            &BIG::frombytes(&start.to_bytes()),
            &BIG::new_int(1),
            &BIG::new_ints(&rom::CURVE_ORDER),
        );
        let mut weight = [0u8; BGS];
        w.tobytes(&mut weight);
        let weight = Scalar::from_bytes(&weight).unwrap();
        let expected = pkvec[0].scale(&weight).add_point(&pkvec[0]);
        assert_eq!(k2.to_bytes(), expected.to_bytes());
        let (s1, s2) = our_combine(&shares, &set, ell).unwrap();
        assert_eq!(s2.to_bytes(), shares[0].to_bytes());
        assert!(our_verify(MESSAGE, &s1, &s2, &k1, &k2));
    }
    // without hash bits the weight of the only key is one
    let (_, k2) = our_aggregate_keys(&pkvec, &shares[0], 0).unwrap();
    assert_eq!(k2.to_bytes(), pkvec[0].add_point(&pkvec[0]).to_bytes());
}

#[test]
fn our_combiner_weights_by_secret_start_and_position() {
    let set = our_signers(2);
    let shares = our_sign(&set, MESSAGE).unwrap();
    let order = BIG::new_ints(&rom::CURVE_ORDER);
    for ell in [0usize, 16] {
        let start = hash_2big(&shares[0].to_bytes(), ell, &Scalar::order()).unwrap();
        let s1 = our_combiner(&shares, &set[0].secret, &start).unwrap();
        let sk0 = BIG::frombytes(&set[0].secret.to_bytes());
        let st = direct_start(&shares[0].to_bytes(), ell);
        let mut expected = ECP::new();
        for i in 0..2 {
            let c = BIG::modadd(&sk0, &BIG::modadd(&st, &BIG::new_int(i + 1), &order), &order);
            expected.add(&pair::g1mul(&ECP::frombytes(&shares[i as usize].to_bytes()), &c));
        }
        let mut bytes = [0u8; G1S];
        expected.tobytes(&mut bytes, true);
        assert_eq!(s1.to_bytes(), bytes);
        let (k1, k2) = our_aggpk(&public_keys(&set), &start).unwrap();
        let (a1, a2) = our_aggregate_keys(&public_keys(&set), &shares[0], ell).unwrap();
        assert_eq!(k1.to_bytes(), a1.to_bytes());
        assert_eq!(k2.to_bytes(), a2.to_bytes());
    }
}

#[test]
fn our_refuses_empty_inputs() {
    let set = our_signers(1);
    let shares = our_sign(&set, MESSAGE).unwrap();
    let start = Scalar::zero();
    assert!(matches!(our_sign(&Vec::new(), MESSAGE), Err(MsError::EmptySignerSet)));
    assert!(matches!(
        our_combiner(&Vec::new(), &set[0].secret, &start),
        Err(MsError::EmptySignerSet)
    ));
    assert!(matches!(our_combine(&Vec::new(), &set, 8), Err(MsError::EmptySignerSet)));
    assert!(matches!(our_combine(&shares, &Vec::new(), 8), Err(MsError::EmptySignerSet)));
    assert!(matches!(our_aggpk(&Vec::new(), &start), Err(MsError::EmptySignerSet)));
    assert!(matches!(
        our_aggregate_keys(&Vec::new(), &shares[0], 8),
        Err(MsError::EmptySignerSet)
    ));
    assert!(matches!(our_blsms(&Vec::new(), MESSAGE, 8), Err(MsError::EmptySignerSet)));
    // no signers come before a bad bit length
    assert!(matches!(our_combine(&Vec::new(), &set, 7), Err(MsError::EmptySignerSet)));
    assert!(matches!(our_blsms(&Vec::new(), MESSAGE, 7), Err(MsError::EmptySignerSet)));
}

#[test]
fn our_refuses_bad_bit_lengths() {
    let set = our_signers(2);
    let shares = our_sign(&set, MESSAGE).unwrap();
    for ell in [1usize, 7, 12, 65, 72, 128] {
        assert!(matches!(our_combine(&shares, &set, ell), Err(MsError::InvalidBitLength)));
        assert!(matches!(
            our_aggregate_keys(&public_keys(&set), &shares[0], ell),
            Err(MsError::InvalidBitLength)
        ));
        assert!(matches!(
            our_blsms(&our_seeds(2), MESSAGE, ell),
            Err(MsError::InvalidBitLength)
        ));
    }
}

#[test]
fn our_second_part_is_the_first_share() {
    let set = our_signers(3);
    let shares = our_sign(&set, MESSAGE).unwrap();
    let (s1, s2) = our_combine(&shares, &set, 8).unwrap();
    assert_eq!(s2.to_bytes(), shares[0].to_bytes());
    assert_ne!(s1.to_bytes(), s2.to_bytes());
    let back = G1Point::from_bytes(&s1.to_bytes()).unwrap();
    assert_eq!(back.to_bytes(), s1.to_bytes());
}

#[test]
fn our_scenario_known_answer() {
    let hex = |bytes: &[u8]| -> String { bytes.iter().map(|b| format!("{:02X}", b)).collect() };
    let round = our_blsms(&our_seeds(3), MESSAGE, 8).unwrap();
    assert_eq!(
        hex(&round.s1.to_bytes()),
        "0314A04EB49C5603B733545912E0545096BBB2A3C92207328153105C933645D443197FD353B6CFEF0E8CCFA9575EEB4754"
    );
    assert_eq!(
        hex(&round.s2.to_bytes()),
        "0210127EC5056B19D9B55F2BF78107D5A0A6F6C8A2420A510E1076DD15C1A8D87C5D092F47B26656FB896C91BF7C34504B"
    );
    assert_eq!(
        hex(&round.k1.to_bytes()),
        "03174FD98B81A1E7B97FE943CEC16EC60B8524DACAD5A9100B50D9310C47EC19E2699C8B28079C307DC922142CA93B10D008F53790D7D703DE6569795C835A973F55466FB0634734F7EBA839545507B18402A80DA4BE1AE6109AF526A8FFA96D38"
    );
    assert_eq!(
        hex(&round.k2.to_bytes()),
        "02188BEC20D5E200252C2EA96BC344B637C111E0CFEAE6FE715AFFF54E4CC9D0669022843E8E397BF5F53C900205F194240ECD9627967FAB501265BF56E661C40DD661CB797769F1D0A9C5A90AFBAF63F870687150CE7487A7DEED13698C685C1F"
    );
    assert!(round.verified);

    // without hash bits the first key and the second share stay, the rest changes
    let plain = our_blsms(&our_seeds(3), MESSAGE, 0).unwrap();
    assert_eq!(plain.s2.to_bytes(), round.s2.to_bytes());
    assert_eq!(plain.k1.to_bytes(), round.k1.to_bytes());
    assert_eq!(
        hex(&plain.s1.to_bytes()),
        "0315CF6553E36A8AB57F09FD533F330924EA92F23189430BD7A76444EBE6DAC900BF0B25F30FA102F1D197DDD9F3F49CC1"
    );
    assert_eq!(
        hex(&plain.k2.to_bytes()),
        "021793C018F7101A41862323C4856BF097EC2651EA81B14A25CE99D1C719EB6D03C9952D172B8246B0D8902189FA2F654D1930C01815B5069F3B82EDBD3564482A7EDC571057C3A8D10C28F427BA956DC8829DA93CD57F8C5BB83790FCE1E64378"
    );
    assert!(plain.verified);
}
