use vstd::prelude::*;

use crate::api::{
    aggregate_public_keys, aggregate_public_keys_outcome, aggregate_signatures,
    aggregate_signatures_outcome, byte_strings, get_public_key, seed_scalar, sign,
    verify_aggregated_outcome, verify_aggregated_signature, verify_signature,
    verify_signature_outcome,
};
use crate::errors::CryptoError;
use crate::group::{g1_enc, g2_enc, order};
use crate::hash::spec_h0;

verus! {

/// A character that hex accepts as a digit, in either case.
pub open spec fn is_hex_char(c: char) -> bool {
    let v = c as u32;
    (0x30 <= v <= 0x39) || (0x61 <= v <= 0x66) || (0x41 <= v <= 0x46)
}

/// The value of a hex digit.
pub open spec fn hex_char_value(c: char) -> int {
    let v = c as u32;
    if 0x30 <= v <= 0x39 {
        v - 0x30
    } else if 0x61 <= v <= 0x66 {
        v - 0x61 + 10
    } else {
        v - 0x41 + 10
    }
}

/// The text is an even number of hex digits.
pub open spec fn is_hex(s: Seq<char>) -> bool {
    s.len() % 2 == 0 && forall|i: int| 0 <= i < s.len() ==> is_hex_char(#[trigger] s[i])
}

/// The bytes that a hex text spells, two digits each, high digit first.
pub open spec fn hex_bytes(s: Seq<char>) -> Seq<u8> {
    Seq::new(
        s.len() / 2,
        |i: int| (hex_char_value(s[2 * i]) * 16 + hex_char_value(s[2 * i + 1])) as u8,
    )
}

/// The lowercase digit of a value below 16.
pub open spec fn hex_digit(v: int) -> char {
    seq!['0', '1', '2', '3', '4', '5', '6', '7', '8', '9', 'a', 'b', 'c', 'd', 'e', 'f'][v]
}

/// The lowercase hex text of bytes, two digits each, high digit first.
pub open spec fn hex_string(b: Seq<u8>) -> Seq<char> {
    Seq::new(
        2 * b.len(),
        |i: int|
            hex_digit(
                if i % 2 == 0 {
                    b[i / 2] as int / 16
                } else {
                    b[i / 2] as int % 16
                },
            ),
    )
}

/// The bytes of each hex text of a list.
pub open spec fn hex_list(items: Seq<String>) -> Seq<Seq<u8>> {
    Seq::new(items.len(), |i: int| hex_bytes(items[i]@))
}

/// Every text of the list is hex.
pub open spec fn all_hex(items: Seq<String>) -> bool {
    forall|i: int| 0 <= i < items.len() ==> is_hex(#[trigger] items[i]@)
}

/// Relies on hex::decode: it accepts an even number of hex digits of either
/// case and gives one byte for each pair, high digit first.
#[verifier::external_body]
fn decode_hex(s: &str) -> (r: Option<Vec<u8>>)
    ensures
        r is Some <==> is_hex(s@),
        r matches Some(b) ==> b@ == hex_bytes(s@),
{
    hex::decode(s).ok()
}

/// Relies on hex::encode: two lowercase digits for each byte, high digit first.
#[verifier::external_body]
fn encode_hex(b: &[u8]) -> (r: String)
    ensures
        r@ == hex_string(b@),
{
    hex::encode(b)
}

/// Decodes every hex text of a list, or none.
pub fn decode_hex_list(items: &[String]) -> (r: Option<Vec<Vec<u8>>>)
    ensures
        r is Some <==> all_hex(items@),
        r matches Some(v) ==> byte_strings(v@) == hex_list(items@),
{
    let mut out: Vec<Vec<u8>> = Vec::new();
    let mut i: usize = 0;
    while i < items.len()
        invariant
            0 <= i <= items@.len(),
            out@.len() == i,
            forall|j: int| 0 <= j < i ==> is_hex(#[trigger] items@[j]@),
            forall|j: int| 0 <= j < i ==> (#[trigger] out@[j])@ == hex_bytes(items@[j]@),
        decreases items@.len() - i,
    {
        match decode_hex(items[i].as_str()) {
            Some(b) => out.push(b),
            None => return None,
        }
        i = i + 1;
    }
    assert(byte_strings(out@) =~= hex_list(items@));
    Some(out)
}

/// The public key of a seed given in hex, in hex.
pub fn public_key_hex(seed: &str) -> (r: Result<String, CryptoError>)
    ensures
        r is Ok <==> is_hex(seed@) && hex_bytes(seed@).len() == 64,
        r matches Err(e) ==> e == CryptoError::InvalidSeed,
        r matches Ok(s) ==> s@ == hex_string(g1_enc(seed_scalar(hex_bytes(seed@)))),
{
    match decode_hex(seed) {
        Some(b) => match get_public_key(b.as_slice()) {
            Ok(pk) => Ok(encode_hex(pk.as_slice())),
            Err(e) => Err(e),
        },
        None => Err(CryptoError::InvalidSeed),
    }
}

/// Signs a message with the key of a seed given in hex; the signature in hex.
pub fn sign_hex(seed: &str, data: &[u8]) -> (r: Result<String, CryptoError>)
    ensures
        r is Ok <==> is_hex(seed@) && hex_bytes(seed@).len() == 64,
        r matches Err(e) ==> e == CryptoError::InvalidSeed,
        r matches Ok(s) ==> s@ == hex_string(
            g2_enc((spec_h0(data@) * seed_scalar(hex_bytes(seed@))) % order()),
        ),
{
    match decode_hex(seed) {
        Some(b) => match sign(b.as_slice(), data) {
            Ok(sig) => Ok(encode_hex(sig.as_slice())),
            Err(e) => Err(e),
        },
        None => Err(CryptoError::InvalidSeed),
    }
}

/// Verifies a signature given in hex under a key given in hex.
pub fn verify_hex(public_key: &str, data: &[u8], signature: &str) -> (r: Result<(), CryptoError>)
    ensures
        !is_hex(public_key@) || !is_hex(signature@) ==> r == Err::<(), CryptoError>(
            CryptoError::InvalidPoint,
        ),
        is_hex(public_key@) && is_hex(signature@) ==> r == verify_signature_outcome(
            hex_bytes(public_key@),
            data@,
            hex_bytes(signature@),
        ),
{
    match (decode_hex(public_key), decode_hex(signature)) {
        (Some(pk), Some(sig)) => verify_signature(pk.as_slice(), data, sig.as_slice()),
        _ => Err(CryptoError::InvalidPoint),
    }
}

/// Aggregates signatures and keys given in hex; the aggregate in hex.
pub fn aggregate_signatures_hex(signatures: &[String], public_keys: &[String]) -> (r: Result<
    String,
    CryptoError,
>)
    ensures
        !all_hex(signatures@) || !all_hex(public_keys@) ==> r == Err::<String, CryptoError>(
            CryptoError::InvalidPoint,
        ),
        all_hex(signatures@) && all_hex(public_keys@) ==> match aggregate_signatures_outcome(
            hex_list(signatures@),
            hex_list(public_keys@),
        ) {
            Ok(b) => r matches Ok(s) && s@ == hex_string(b),
            Err(e) => r == Err::<String, CryptoError>(e),
        },
{
    match (decode_hex_list(signatures), decode_hex_list(public_keys)) {
        (Some(sigs), Some(pks)) => match aggregate_signatures(sigs.as_slice(), pks.as_slice()) {
            Ok(agg) => Ok(encode_hex(agg.as_slice())),
            Err(e) => Err(e),
        },
        _ => Err(CryptoError::InvalidPoint),
    }
}

/// Aggregates keys given in hex; the aggregate in hex.
pub fn aggregate_public_keys_hex(public_keys: &[String]) -> (r: Result<String, CryptoError>)
    ensures
        !all_hex(public_keys@) ==> r == Err::<String, CryptoError>(CryptoError::InvalidPoint),
        all_hex(public_keys@) ==> match aggregate_public_keys_outcome(hex_list(public_keys@)) {
            Ok(b) => r matches Ok(s) && s@ == hex_string(b),
            Err(e) => r == Err::<String, CryptoError>(e),
        },
{
    match decode_hex_list(public_keys) {
        Some(pks) => match aggregate_public_keys(pks.as_slice()) {
            Ok(agg) => Ok(encode_hex(agg.as_slice())),
            Err(e) => Err(e),
        },
        None => Err(CryptoError::InvalidPoint),
    }
}

/// Verifies a signature given in hex under the aggregate of keys given in hex.
pub fn verify_aggregated_hex(public_keys: &[String], data: &[u8], signature: &str) -> (r: Result<
    (),
    CryptoError,
>)
    ensures
        !all_hex(public_keys@) || !is_hex(signature@) ==> r == Err::<(), CryptoError>(
            CryptoError::InvalidPoint,
        ),
        all_hex(public_keys@) && is_hex(signature@) ==> r == verify_aggregated_outcome(
            hex_list(public_keys@),
            data@,
            hex_bytes(signature@),
        ),
{
    match (decode_hex_list(public_keys), decode_hex(signature)) {
        (Some(pks), Some(sig)) => verify_aggregated_signature(pks.as_slice(), data, sig.as_slice()),
        _ => Err(CryptoError::InvalidPoint),
    }
}

} // verus!
