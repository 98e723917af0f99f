use vstd::prelude::*;

use crate::group::{g2_enc, g2_generator, g2_mul, is_scalar, le_value, order};
use crate::keys::PublicKey;

verus! {

/// BLAKE2b-512 of the bytes, read as a little-endian integer and reduced
/// modulo the group order.
pub uninterp spec fn hash_value(m: Seq<u8>) -> int;

/// Relies on dusk-bls12_381's `BlsScalar::hash_to_scalar`, which reduces a
/// BLAKE2b-512 digest modulo the group order, and `BlsScalar::to_bytes`, which
/// gives its canonical little-endian form.
#[verifier::external_body]
pub(crate) fn hash_to_scalar(m: &[u8]) -> (r: [u8; 32])
    ensures
        is_scalar(r@) && le_value(r@) == hash_value(m@),
{
    dusk_bls12_381::BlsScalar::hash_to_scalar(m).to_bytes()
}

/// The element of G2 that a message is hashed to.
pub open spec fn spec_h0(m: Seq<u8>) -> int {
    hash_value(m)
}

/// The coefficient bound to a public key in an aggregate.
pub open spec fn spec_h1(pk: Seq<u8>) -> int {
    hash_value(pk)
}

/// Hashes a message into G2: its hash, as a scalar, times the generator.
pub fn h0(msg: &[u8]) -> (r: [u8; 96])
    ensures
        0 <= spec_h0(msg@) < order(),
        r@ == g2_enc(spec_h0(msg@)),
{
    let g = g2_generator();
    let s = hash_to_scalar(msg);
    let r = g2_mul(&g, &s);
    assert((1 * le_value(s@)) % order() == le_value(s@)) by (nonlinear_arith)
        requires
            0 <= le_value(s@) < order(),
    ;
    r
}

/// The rogue-key coefficient of a public key: the hash of its encoding.
pub fn h1(pk: &PublicKey) -> (r: [u8; 32])
    ensures
        is_scalar(r@),
        le_value(r@) == spec_h1(pk@),
{
    let b = pk.to_bytes();
    hash_to_scalar(b.as_slice())
}

} // verus!
