use bls::errors::CryptoError;
use bls::hex_codec::{
    aggregate_public_keys_hex, aggregate_signatures_hex, decode_hex_list, public_key_hex, sign_hex,
    verify_aggregated_hex, verify_hex,
};

const G1_GENERATOR: &str = "97f1d3a73197d7942695638c4fa9ac0fc3688c4f9774b905a14e3a3f171bac586c55e83ff97a1aeffb3af00adb22c6bb";

fn seed_hex(fill: u8) -> String {
    (0..64u32).map(|i| format!("{:02x}", fill.wrapping_add((i * 13) as u8))).collect()
}

#[test]
fn hex_seed_of_scalar_one_gives_the_generator() {
    let seed = format!("01{}", "00".repeat(63));
    assert_eq!(public_key_hex(&seed).unwrap(), G1_GENERATOR);
}

#[test]
fn hex_input_accepts_upper_case() {
    let seed = seed_hex(0xab);
    assert_eq!(
        public_key_hex(&seed).unwrap(),
        public_key_hex(&seed.to_uppercase()).unwrap()
    );
}

#[test]
fn hex_output_is_lower_case_and_sized() {
    let seed = seed_hex(1);
    let pk = public_key_hex(&seed).unwrap();
    let sig = sign_hex(&seed, b"hello").unwrap();
    assert_eq!(pk.len(), 96);
    assert_eq!(sig.len(), 192);
    assert!(pk.chars().all(|c| c.is_ascii_digit() || ('a'..='f').contains(&c)));
}

#[test]
fn bad_hex_seed_is_refused() {
    assert_eq!(public_key_hex("zz"), Err(CryptoError::InvalidSeed));
    assert_eq!(public_key_hex("abc"), Err(CryptoError::InvalidSeed));
    assert_eq!(public_key_hex("abcd"), Err(CryptoError::InvalidSeed));
    assert_eq!(sign_hex("0g", b"m"), Err(CryptoError::InvalidSeed));
}

#[test]
fn hex_sign_and_verify() {
    let seed = seed_hex(2);
    let pk = public_key_hex(&seed).unwrap();
    let sig = sign_hex(&seed, b"data").unwrap();
    assert_eq!(verify_hex(&pk, b"data", &sig), Ok(()));
    assert_eq!(verify_hex(&pk, b"date", &sig), Err(CryptoError::InvalidSignature));
    assert_eq!(verify_hex("xyz", b"data", &sig), Err(CryptoError::InvalidPoint));
}

#[test]
fn hex_aggregation_end_to_end() {
    let seeds = [seed_hex(3), seed_hex(4), seed_hex(5)];
    let pks: Vec<String> = seeds.iter().map(|s| public_key_hex(s).unwrap()).collect();
    let sigs: Vec<String> = seeds.iter().map(|s| sign_hex(s, b"vote").unwrap()).collect();
    let agg = aggregate_signatures_hex(&sigs, &pks).unwrap();
    assert_eq!(verify_aggregated_hex(&pks, b"vote", &agg), Ok(()));
    let apk = aggregate_public_keys_hex(&pks).unwrap();
    assert_eq!(verify_hex(&apk, b"vote", &agg), Ok(()));
    assert_eq!(aggregate_public_keys_hex(&[]), Err(CryptoError::ZeroSizedInput));
    assert_eq!(aggregate_signatures_hex(&[], &[]), Err(CryptoError::ZeroSizedInput));
    let bad = vec!["q".to_string()];
    assert_eq!(aggregate_public_keys_hex(&bad), Err(CryptoError::InvalidPoint));
}

#[test]
fn hex_list_decodes_bytes() {
    let items = vec!["00ff".to_string(), "A0".to_string()];
    let v = decode_hex_list(&items).unwrap();
    assert_eq!(v, vec![vec![0u8, 255], vec![0xa0]]);
    assert!(decode_hex_list(&["0".to_string()]).is_none());
}
