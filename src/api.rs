use vstd::prelude::*;

use crate::errors::CryptoError;
use crate::group::{g1_dlog, g1_enc, g2_dlog, g2_enc, le_value, order};
use crate::hash::{hash_value, spec_h0};
use crate::keys::{
    g1_valid, parse_secret_key, pk_terms, verify_outcome, PublicKey,
};
use crate::signature::{g2_valid, pairs, sig_terms, Signature};
use crate::sums::{lemma_sum_congruent, sum_of};

verus! {

/// The contents of each buffer of a list.
pub open spec fn byte_strings(v: Seq<Vec<u8>>) -> Seq<Seq<u8>> {
    Seq::new(v.len(), |i: int| v[i]@)
}

/// The secret scalar that a 64-byte seed stands for.
pub open spec fn seed_scalar(seed: Seq<u8>) -> int {
    le_value(seed) % order()
}

/// The term that an encoded key adds to an aggregate key.
pub open spec fn key_terms() -> spec_fn(Seq<u8>) -> int {
    |b: Seq<u8>| g1_dlog(b) * hash_value(b)
}

/// The term that an encoded signature, with the encoded key of its signer,
/// adds to an aggregate signature.
pub open spec fn signed_terms() -> spec_fn((Seq<u8>, Seq<u8>)) -> int {
    |p: (Seq<u8>, Seq<u8>)| g2_dlog(p.0) * hash_value(p.1)
}

/// Signatures and keys, as bytes, paired up by position.
pub open spec fn byte_pairs(sigs: Seq<Seq<u8>>, pks: Seq<Seq<u8>>) -> Seq<(Seq<u8>, Seq<u8>)> {
    Seq::new(sigs.len(), |i: int| (sigs[i], pks[i]))
}

/// The encoded aggregate of encoded keys, or the error that refuses them.
pub open spec fn aggregate_public_keys_outcome(pks: Seq<Seq<u8>>) -> Result<Seq<u8>, CryptoError> {
    if pks.len() == 0 {
        Err(CryptoError::ZeroSizedInput)
    } else if exists|i: int| 0 <= i < pks.len() && !g1_valid(#[trigger] pks[i]) {
        Err(CryptoError::InvalidPoint)
    } else {
        Ok(g1_enc(sum_of(pks, key_terms()) % order()))
    }
}

/// An encoded signature or the encoded key paired with it is refused.
pub open spec fn pair_invalid(sig: Seq<u8>, pk: Seq<u8>) -> bool {
    !g2_valid(sig) || !g1_valid(pk)
}

/// The encoded aggregate of encoded signatures, or the error that refuses them.
pub open spec fn aggregate_signatures_outcome(sigs: Seq<Seq<u8>>, pks: Seq<Seq<u8>>) -> Result<
    Seq<u8>,
    CryptoError,
> {
    if sigs.len() == 0 {
        Err(CryptoError::ZeroSizedInput)
    } else if sigs.len() != pks.len() {
        Err(CryptoError::LengthMismatch)
    } else if exists|i: int| 0 <= i < sigs.len() && #[trigger] pair_invalid(sigs[i], pks[i]) {
        Err(CryptoError::InvalidPoint)
    } else {
        Ok(g2_enc(sum_of(byte_pairs(sigs, pks), signed_terms()) % order()))
    }
}

/// What verifying encoded values answers.
pub open spec fn verify_signature_outcome(pk: Seq<u8>, msg: Seq<u8>, sig: Seq<u8>) -> Result<
    (),
    CryptoError,
> {
    if !g1_valid(pk) || !g2_valid(sig) {
        Err(CryptoError::InvalidPoint)
    } else {
        verify_outcome(g1_dlog(pk), g2_dlog(sig), msg)
    }
}

/// The scalar of the aggregate of encoded keys.
pub open spec fn aggregate_key_scalar(pks: Seq<Seq<u8>>) -> int {
    sum_of(pks, key_terms()) % order()
}

/// What verifying an encoded signature against the aggregate of encoded keys answers.
pub open spec fn verify_aggregated_outcome(pks: Seq<Seq<u8>>, msg: Seq<u8>, sig: Seq<u8>) -> Result<
    (),
    CryptoError,
> {
    match aggregate_public_keys_outcome(pks) {
        Err(e) => Err(e),
        Ok(_) => if !g2_valid(sig) {
            Err(CryptoError::InvalidPoint)
        } else {
            verify_outcome(aggregate_key_scalar(pks), g2_dlog(sig), msg)
        },
    }
}

proof fn lemma_invalid_pair(sigs: Seq<Seq<u8>>, pks: Seq<Seq<u8>>, i: int)
    requires
        sigs.len() == pks.len(),
        0 <= i < sigs.len(),
        pair_invalid(sigs[i], pks[i]),
    ensures
        aggregate_signatures_outcome(sigs, pks) == Err::<Seq<u8>, CryptoError>(
            CryptoError::InvalidPoint,
        ),
{
}

/// Decodes every key of the list, or refuses the whole list.
pub fn decode_public_keys(bytes: &[Vec<u8>]) -> (r: Result<Vec<PublicKey>, CryptoError>)
    ensures
        r is Ok <==> forall|i: int| 0 <= i < bytes@.len() ==> g1_valid(#[trigger] bytes@[i]@),
        r matches Err(e) ==> e == CryptoError::InvalidPoint,
        r matches Ok(v) ==> v@.len() == bytes@.len() && forall|i: int|
            0 <= i < v@.len() ==> (#[trigger] v@[i]).wf() && v@[i]@ == bytes@[i]@
                && v@[i].dlog() == g1_dlog(bytes@[i]@) && v@[i].dlog() != 0,
{
    let mut out: Vec<PublicKey> = Vec::new();
    let mut i: usize = 0;
    while i < bytes.len()
        invariant
            0 <= i <= bytes@.len(),
            out@.len() == i,
            forall|j: int| 0 <= j < i ==> g1_valid(#[trigger] bytes@[j]@),
            forall|j: int|
                0 <= j < i ==> (#[trigger] out@[j]).wf() && out@[j]@ == bytes@[j]@
                    && out@[j].dlog() == g1_dlog(bytes@[j]@) && out@[j].dlog() != 0,
        decreases bytes@.len() - i,
    {
        match PublicKey::from_bytes(bytes[i].as_slice()) {
            Ok(pk) => out.push(pk),
            Err(e) => return Err(e),
        }
        i = i + 1;
    }
    Ok(out)
}

/// Decodes every signature of the list, or refuses the whole list.
pub fn decode_signatures(bytes: &[Vec<u8>]) -> (r: Result<Vec<Signature>, CryptoError>)
    ensures
        r is Ok <==> forall|i: int| 0 <= i < bytes@.len() ==> g2_valid(#[trigger] bytes@[i]@),
        r matches Err(e) ==> e == CryptoError::InvalidPoint,
        r matches Ok(v) ==> v@.len() == bytes@.len() && forall|i: int|
            0 <= i < v@.len() ==> (#[trigger] v@[i]).wf() && v@[i]@ == bytes@[i]@
                && v@[i].dlog() == g2_dlog(bytes@[i]@) && v@[i].dlog() != 0,
{
    let mut out: Vec<Signature> = Vec::new();
    let mut i: usize = 0;
    while i < bytes.len()
        invariant
            0 <= i <= bytes@.len(),
            out@.len() == i,
            forall|j: int| 0 <= j < i ==> g2_valid(#[trigger] bytes@[j]@),
            forall|j: int|
                0 <= j < i ==> (#[trigger] out@[j]).wf() && out@[j]@ == bytes@[j]@
                    && out@[j].dlog() == g2_dlog(bytes@[j]@) && out@[j].dlog() != 0,
        decreases bytes@.len() - i,
    {
        match Signature::from_bytes(bytes[i].as_slice()) {
            Ok(sig) => out.push(sig),
            Err(e) => return Err(e),
        }
        i = i + 1;
    }
    Ok(out)
}

/// The public key of a 64-byte seed, compressed.
pub fn get_public_key(seed: &[u8]) -> (r: Result<[u8; 48], CryptoError>)
    ensures
        r is Ok <==> seed@.len() == 64,
        r matches Err(e) ==> e == CryptoError::InvalidSeed,
        r matches Ok(b) ==> b@ == g1_enc(seed_scalar(seed@)),
{
    match parse_secret_key(seed) {
        Ok(sk) => Ok(sk.public_key().to_bytes()),
        Err(e) => Err(e),
    }
}

/// Signs a message with the key of a 64-byte seed; the signature compressed.
pub fn sign(seed: &[u8], data: &[u8]) -> (r: Result<[u8; 96], CryptoError>)
    ensures
        r is Ok <==> seed@.len() == 64,
        r matches Err(e) ==> e == CryptoError::InvalidSeed,
        r matches Ok(b) ==> b@ == g2_enc((spec_h0(data@) * seed_scalar(seed@)) % order()),
{
    match parse_secret_key(seed) {
        Ok(sk) => Ok(sk.sign(data).to_bytes()),
        Err(e) => Err(e),
    }
}

/// Verifies an encoded signature of a message under an encoded key.
pub fn verify_signature(public_key: &[u8], message: &[u8], signature: &[u8]) -> (r: Result<
    (),
    CryptoError,
>)
    ensures
        r == verify_signature_outcome(public_key@, message@, signature@),
{
    match PublicKey::from_bytes(public_key) {
        Ok(pk) => match Signature::from_bytes(signature) {
            Ok(sig) => pk.verify(&sig, message),
            Err(e) => Err(e),
        },
        Err(e) => Err(e),
    }
}

/// Aggregates encoded keys into one encoded key.
pub fn aggregate_public_keys(public_keys: &[Vec<u8>]) -> (r: Result<[u8; 48], CryptoError>)
    ensures
        r is Ok <==> aggregate_public_keys_outcome(byte_strings(public_keys@)) is Ok,
        r matches Err(e) ==> aggregate_public_keys_outcome(byte_strings(public_keys@)) == Err::<
            Seq<u8>,
            CryptoError,
        >(e),
        r matches Ok(b) ==> aggregate_public_keys_outcome(byte_strings(public_keys@)) == Ok::<
            Seq<u8>,
            CryptoError,
        >(b@),
{
    match aggregate_decoded_keys(public_keys) {
        Ok(a) => Ok(a.to_bytes()),
        Err(e) => Err(e),
    }
}

/// Decodes the keys of a list, each of which must be valid, and aggregates them.
fn aggregate_decoded_keys(public_keys: &[Vec<u8>]) -> (r: Result<PublicKey, CryptoError>)
    ensures
        r is Ok <==> aggregate_public_keys_outcome(byte_strings(public_keys@)) is Ok,
        r matches Err(e) ==> aggregate_public_keys_outcome(byte_strings(public_keys@)) == Err::<
            Seq<u8>,
            CryptoError,
        >(e),
        r matches Ok(a) ==> a.wf() && a.dlog() == aggregate_key_scalar(byte_strings(public_keys@))
            && aggregate_public_keys_outcome(byte_strings(public_keys@)) == Ok::<
            Seq<u8>,
            CryptoError,
        >(a@),
{
    let ghost bs = byte_strings(public_keys@);
    if public_keys.len() == 0 {
        return Err(CryptoError::ZeroSizedInput);
    }
    let pks = match decode_public_keys(public_keys) {
        Ok(v) => v,
        Err(e) => {
            proof {
                let i = choose|i: int|
                    0 <= i < public_keys@.len() && !g1_valid(#[trigger] public_keys@[i]@);
                assert(!g1_valid(bs[i]));
            }
            return Err(e);
        },
    };
    proof {
        assert forall|i: int| 0 <= i < bs.len() implies g1_valid(#[trigger] bs[i]) by {
            assert(g1_valid(public_keys@[i]@));
        }
        assert(!exists|i: int| 0 <= i < pks@.len() && #[trigger] pks@[i].dlog() == 0);
        lemma_sum_congruent(pks@, pk_terms(), bs, key_terms());
    }
    PublicKey::aggregate(pks.as_slice())
}

/// Aggregates encoded signatures, paired by position with the encoded keys of
/// their signers, into one encoded signature.
pub fn aggregate_signatures(signatures: &[Vec<u8>], public_keys: &[Vec<u8>]) -> (r: Result<
    [u8; 96],
    CryptoError,
>)
    ensures
        r is Ok <==> aggregate_signatures_outcome(
            byte_strings(signatures@),
            byte_strings(public_keys@),
        ) is Ok,
        r matches Err(e) ==> aggregate_signatures_outcome(
            byte_strings(signatures@),
            byte_strings(public_keys@),
        ) == Err::<Seq<u8>, CryptoError>(e),
        r matches Ok(b) ==> aggregate_signatures_outcome(
            byte_strings(signatures@),
            byte_strings(public_keys@),
        ) == Ok::<Seq<u8>, CryptoError>(b@),
{
    let ghost ss = byte_strings(signatures@);
    let ghost ks = byte_strings(public_keys@);
    if signatures.len() == 0 {
        return Err(CryptoError::ZeroSizedInput);
    }
    if signatures.len() != public_keys.len() {
        return Err(CryptoError::LengthMismatch);
    }
    let sigs = match decode_signatures(signatures) {
        Ok(v) => v,
        Err(e) => {
            proof {
                let i = choose|i: int|
                    0 <= i < signatures@.len() && !g2_valid(#[trigger] signatures@[i]@);
                assert(!g2_valid(ss[i]));
                lemma_invalid_pair(ss, ks, i);
            }
            return Err(e);
        },
    };
    let pks = match decode_public_keys(public_keys) {
        Ok(v) => v,
        Err(e) => {
            proof {
                let i = choose|i: int|
                    0 <= i < public_keys@.len() && !g1_valid(#[trigger] public_keys@[i]@);
                assert(!g1_valid(ks[i]));
                assert(0 <= i < ss.len());
                lemma_invalid_pair(ss, ks, i);
            }
            return Err(e);
        },
    };
    proof {
        assert forall|i: int| 0 <= i < ss.len() implies g2_valid(#[trigger] ss[i]) && g1_valid(
            ks[i],
        ) by {
            assert(g2_valid(signatures@[i]@));
            assert(g1_valid(public_keys@[i]@));
        }
        assert(forall|i: int| 0 <= i < ss.len() ==> !#[trigger] pair_invalid(ss[i], ks[i]));
        assert(!exists|i: int|
            0 <= i < sigs@.len() && ((#[trigger] sigs@[i]).dlog() == 0 || pks@[i].dlog() == 0));
        let ps = pairs(sigs@, pks@);
        let bp = byte_pairs(ss, ks);
        assert forall|i: int| 0 <= i < ps.len() implies sig_terms()(ps[i]) == signed_terms()(
            bp[i],
        ) by {
            assert(ps[i] == (sigs@[i], pks@[i]));
            assert(bp[i] == (ss[i], ks[i]));
        }
        lemma_sum_congruent(ps, sig_terms(), bp, signed_terms());
    }
    match Signature::aggregate(sigs.as_slice(), pks.as_slice()) {
        Ok(a) => Ok(a.to_bytes()),
        Err(e) => Err(e),
    }
}

/// Aggregates encoded keys, then verifies an encoded signature of a message
/// under the aggregate.
pub fn verify_aggregated_signature(public_keys: &[Vec<u8>], message: &[u8], signature: &[u8]) -> (r:
    Result<(), CryptoError>)
    ensures
        r == verify_aggregated_outcome(byte_strings(public_keys@), message@, signature@),
{
    match aggregate_decoded_keys(public_keys) {
        Ok(apk) => match Signature::from_bytes(signature) {
            Ok(sig) => apk.verify(&sig, message),
            Err(e) => Err(e),
        },
        Err(e) => Err(e),
    }
}

} // verus!
