use bls::api::{
    aggregate_public_keys, aggregate_signatures, get_public_key, sign, verify_aggregated_signature,
    verify_signature,
};
use bls::errors::CryptoError;
use bls::keys::{parse_secret_key, PublicKey};
use bls::signature::Signature;

const G1_GENERATOR: &str = "97f1d3a73197d7942695638c4fa9ac0fc3688c4f9774b905a14e3a3f171bac586c55e83ff97a1aeffb3af00adb22c6bb";

fn seed(fill: u8) -> Vec<u8> {
    (0..64u32).map(|i| fill.wrapping_add((i * 7) as u8)).collect()
}

fn scalar_one_seed() -> Vec<u8> {
    let mut s = vec![0u8; 64];
    s[0] = 1;
    s
}

/// The group order plus one, as 64 little-endian bytes.
fn order_plus_one_seed() -> Vec<u8> {
    let mut s = Vec::new();
    s.extend_from_slice(&[
        2, 0, 0, 0, 255, 255, 255, 255, 254, 91, 254, 255, 2, 164, 189, 83, 5, 216, 161, 9, 8,
        216, 57, 51, 72, 125, 157, 41, 83, 167, 237, 115,
    ]);
    s.resize(64, 0);
    s
}

fn flip_bit(v: &[u8], byte: usize, bit: u8) -> Vec<u8> {
    let mut w = v.to_vec();
    w[byte] ^= 1 << bit;
    w
}

#[test]
fn public_key_is_deterministic() {
    let s = seed(3);
    let a = get_public_key(&s).unwrap();
    let b = get_public_key(&s).unwrap();
    assert_eq!(a, b);
    assert_eq!(a.len(), 48);
}

#[test]
fn seed_of_scalar_one_gives_the_generator() {
    let pk = get_public_key(&scalar_one_seed()).unwrap();
    assert_eq!(hex::encode(pk), G1_GENERATOR);
}

#[test]
fn seed_is_reduced_modulo_the_order() {
    let pk = get_public_key(&order_plus_one_seed()).unwrap();
    assert_eq!(hex::encode(pk), G1_GENERATOR);
}

#[test]
fn different_seeds_give_different_keys() {
    assert_ne!(get_public_key(&seed(1)).unwrap(), get_public_key(&seed(2)).unwrap());
}

#[test]
fn seed_of_wrong_length_is_refused() {
    assert_eq!(get_public_key(&[0u8; 63]), Err(CryptoError::InvalidSeed));
    assert_eq!(get_public_key(&[0u8; 65]), Err(CryptoError::InvalidSeed));
    assert_eq!(get_public_key(&[]), Err(CryptoError::InvalidSeed));
    assert_eq!(sign(&[1u8; 32], b"m"), Err(CryptoError::InvalidSeed));
    assert!(parse_secret_key(&[0u8; 10]).is_err());
}

#[test]
fn signature_verifies() {
    let s = seed(9);
    let pk = get_public_key(&s).unwrap();
    let sig = sign(&s, b"hello world").unwrap();
    assert_eq!(sig.len(), 96);
    assert_eq!(verify_signature(&pk, b"hello world", &sig), Ok(()));
}

#[test]
fn empty_message_signature_verifies() {
    let s = seed(17);
    let pk = get_public_key(&s).unwrap();
    let sig = sign(&s, b"").unwrap();
    assert_eq!(verify_signature(&pk, b"", &sig), Ok(()));
}

#[test]
fn signing_depends_on_the_message() {
    let s = seed(4);
    assert_ne!(sign(&s, b"a").unwrap(), sign(&s, b"b").unwrap());
}

#[test]
fn tampered_message_is_rejected() {
    let s = seed(5);
    let pk = get_public_key(&s).unwrap();
    let msg = b"transfer 10".to_vec();
    let sig = sign(&s, &msg).unwrap();
    for bit in 0..8u8 {
        let m2 = flip_bit(&msg, 3, bit);
        assert_eq!(verify_signature(&pk, &m2, &sig), Err(CryptoError::InvalidSignature));
    }
}

#[test]
fn tampered_signature_is_rejected() {
    let s = seed(6);
    let pk = get_public_key(&s).unwrap();
    let sig = sign(&s, b"msg").unwrap();
    for byte in [0usize, 1, 47, 95] {
        let sig2 = flip_bit(&sig, byte, 0);
        assert!(verify_signature(&pk, b"msg", &sig2).is_err());
    }
}

#[test]
fn other_key_is_rejected() {
    let sig = sign(&seed(7), b"msg").unwrap();
    let other = get_public_key(&seed(8)).unwrap();
    assert_eq!(verify_signature(&other, b"msg", &sig), Err(CryptoError::InvalidSignature));
}

#[test]
fn encoding_round_trips() {
    let s = seed(10);
    let pk = get_public_key(&s).unwrap();
    let sig = sign(&s, b"x").unwrap();
    assert_eq!(PublicKey::from_bytes(&pk).unwrap().to_bytes(), pk);
    assert_eq!(Signature::from_bytes(&sig).unwrap().to_bytes(), sig);
}

#[test]
fn invalid_points_are_rejected() {
    let mut g1_identity = [0u8; 48];
    g1_identity[0] = 0xc0;
    let mut g2_identity = [0u8; 96];
    g2_identity[0] = 0xc0;
    assert!(matches!(PublicKey::from_bytes(&g1_identity), Err(CryptoError::InvalidPoint)));
    assert!(matches!(Signature::from_bytes(&g2_identity), Err(CryptoError::InvalidPoint)));
    assert!(matches!(PublicKey::from_bytes(&[0u8; 48]), Err(CryptoError::InvalidPoint)));
    assert!(matches!(Signature::from_bytes(&[0u8; 96]), Err(CryptoError::InvalidPoint)));
    assert!(matches!(PublicKey::from_bytes(&[0xffu8; 48]), Err(CryptoError::InvalidPoint)));
    assert!(matches!(PublicKey::from_bytes(&[1u8; 47]), Err(CryptoError::InvalidPoint)));
    assert!(matches!(Signature::from_bytes(&[1u8; 97]), Err(CryptoError::InvalidPoint)));

    let s = seed(11);
    let pk = get_public_key(&s).unwrap();
    let sig = sign(&s, b"m").unwrap();
    assert_eq!(verify_signature(&g1_identity, b"m", &sig), Err(CryptoError::InvalidPoint));
    assert_eq!(verify_signature(&pk, b"m", &g2_identity), Err(CryptoError::InvalidPoint));
    assert_eq!(verify_signature(&pk[..47], b"m", &sig), Err(CryptoError::InvalidPoint));
}

#[test]
fn zero_seed_key_is_the_identity_and_cannot_verify() {
    let s = vec![0u8; 64];
    let pk = get_public_key(&s).unwrap();
    let mut g1_identity = [0u8; 48];
    g1_identity[0] = 0xc0;
    assert_eq!(pk, g1_identity);
    let sig = sign(&s, b"m").unwrap();
    assert_eq!(verify_signature(&pk, b"m", &sig), Err(CryptoError::InvalidPoint));
}

fn three_signers(msg: &[u8]) -> (Vec<Vec<u8>>, Vec<Vec<u8>>) {
    let seeds = [seed(21), seed(22), seed(23)];
    let pks = seeds.iter().map(|s| get_public_key(s).unwrap().to_vec()).collect();
    let sigs = seeds.iter().map(|s| sign(s, msg).unwrap().to_vec()).collect();
    (pks, sigs)
}

#[test]
fn multi_signer_end_to_end() {
    let (pks, sigs) = three_signers(b"block 42");
    let agg = aggregate_signatures(&sigs, &pks).unwrap();
    assert_eq!(verify_aggregated_signature(&pks, b"block 42", &agg), Ok(()));
    let apk = aggregate_public_keys(&pks).unwrap();
    assert_eq!(verify_signature(&apk, b"block 42", &agg), Ok(()));
    assert_eq!(
        verify_aggregated_signature(&pks, b"block 43", &agg),
        Err(CryptoError::InvalidSignature)
    );
}

#[test]
fn aggregation_needs_every_signer() {
    let (pks, sigs) = three_signers(b"m");
    let agg = aggregate_signatures(&sigs[..2], &pks[..2]).unwrap();
    assert_eq!(
        verify_aggregated_signature(&pks, b"m", &agg),
        Err(CryptoError::InvalidSignature)
    );
}

#[test]
fn aggregate_key_differs_from_plain_sum() {
    let (pks, _) = three_signers(b"m");
    let apk = aggregate_public_keys(&pks[..1]).unwrap();
    assert_ne!(apk.to_vec(), pks[0]);
}

#[test]
fn aggregation_is_order_independent() {
    let (pks, sigs) = three_signers(b"m");
    let pks_p = vec![pks[2].clone(), pks[0].clone(), pks[1].clone()];
    let sigs_p = vec![sigs[2].clone(), sigs[0].clone(), sigs[1].clone()];
    assert_eq!(aggregate_public_keys(&pks).unwrap(), aggregate_public_keys(&pks_p).unwrap());
    assert_eq!(
        aggregate_signatures(&sigs, &pks).unwrap(),
        aggregate_signatures(&sigs_p, &pks_p).unwrap()
    );
}

#[test]
fn empty_aggregation_fails() {
    assert_eq!(aggregate_public_keys(&[]), Err(CryptoError::ZeroSizedInput));
    assert_eq!(aggregate_signatures(&[], &[]), Err(CryptoError::ZeroSizedInput));
    assert!(matches!(PublicKey::aggregate(&[]), Err(CryptoError::ZeroSizedInput)));
    assert!(matches!(Signature::aggregate(&[], &[]), Err(CryptoError::ZeroSizedInput)));
}

#[test]
fn mismatched_lengths_fail() {
    let (pks, sigs) = three_signers(b"m");
    assert_eq!(aggregate_signatures(&sigs, &pks[..2]), Err(CryptoError::LengthMismatch));
}

#[test]
fn aggregation_rejects_invalid_inputs() {
    let (mut pks, sigs) = three_signers(b"m");
    let mut g1_identity = vec![0u8; 48];
    g1_identity[0] = 0xc0;
    pks[1] = g1_identity;
    assert_eq!(aggregate_public_keys(&pks), Err(CryptoError::InvalidPoint));
    assert_eq!(aggregate_signatures(&sigs, &pks), Err(CryptoError::InvalidPoint));
    let (pks, mut sigs) = three_signers(b"m");
    sigs[0] = vec![0u8; 96];
    assert_eq!(aggregate_signatures(&sigs, &pks), Err(CryptoError::InvalidPoint));
    assert_eq!(
        verify_aggregated_signature(&pks, b"m", &[0u8; 96]),
        Err(CryptoError::InvalidPoint)
    );
}

#[test]
fn typed_keys_sign_and_verify() {
    let sk = parse_secret_key(&seed(30)).unwrap();
    let pk = sk.public_key();
    let sig = sk.sign(b"typed");
    assert!(pk.is_valid());
    assert!(sig.is_valid());
    assert!(pk.verify(&sig, b"typed").is_ok());
    assert!(matches!(pk.verify(&sig, b"typo"), Err(CryptoError::InvalidSignature)));
    let apk = PublicKey::aggregate(&[pk]).unwrap();
    let asig = Signature::aggregate(&[sig], &[PublicKey::from_bytes(&get_public_key(&seed(30)).unwrap()).unwrap()]).unwrap();
    assert!(apk.verify(&asig, b"typed").is_ok());
}

#[test]
fn error_names() {
    assert_eq!(CryptoError::InvalidPoint.name(), "invalid_point");
    assert_eq!(CryptoError::InvalidSignature.name(), "invalid_signature");
    assert_eq!(CryptoError::ZeroSizedInput.name(), "zero_sized_input");
    assert_eq!(CryptoError::InvalidSeed.name(), "invalid_seed");
    assert_eq!(CryptoError::LengthMismatch.name(), "length_mismatch");
}
