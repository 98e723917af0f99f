use vstd::prelude::*;

verus! {

/// The order of G1, G2 and the scalar field of BLS12-381.
pub open spec fn order() -> int {
    0x73eda753299d7d483339d80809a1d80553bda402fffe5bfeffffffff00000001int
}

/// The number that a byte string denotes in little-endian order.
pub open spec fn le_value(s: Seq<u8>) -> int
    decreases s.len(),
{
    if s.len() == 0 {
        0
    } else {
        s[0] as int + 256 * le_value(s.subrange(1, s.len() as int))
    }
}

/// A canonical scalar: 32 little-endian bytes below the group order.
pub open spec fn is_scalar(s: Seq<u8>) -> bool {
    s.len() == 32 && 0 <= le_value(s) < order()
}

/// The 48-byte compressed encoding of `k` times the generator of G1.
pub uninterp spec fn g1_enc(k: int) -> Seq<u8>;

/// The 96-byte compressed encoding of `k` times the generator of G2.
pub uninterp spec fn g2_enc(k: int) -> Seq<u8>;

/// The bytes encode an element of G1 (the identity included).
pub open spec fn g1_is_point(b: Seq<u8>) -> bool {
    exists|k: int| 0 <= k < order() && b == #[trigger] g1_enc(k)
}

/// The bytes encode an element of G2 (the identity included).
pub open spec fn g2_is_point(b: Seq<u8>) -> bool {
    exists|k: int| 0 <= k < order() && b == #[trigger] g2_enc(k)
}

/// The discrete logarithm of an encoded element of G1.
pub open spec fn g1_dlog(b: Seq<u8>) -> int {
    choose|k: int| 0 <= k < order() && b == #[trigger] g1_enc(k)
}

/// The discrete logarithm of an encoded element of G2.
pub open spec fn g2_dlog(b: Seq<u8>) -> int {
    choose|k: int| 0 <= k < order() && b == #[trigger] g2_enc(k)
}

pub proof fn lemma_g1_dlog(b: Seq<u8>)
    requires
        g1_is_point(b),
    ensures
        0 <= g1_dlog(b) < order(),
        b == g1_enc(g1_dlog(b)),
{
}

pub proof fn lemma_g2_dlog(b: Seq<u8>)
    requires
        g2_is_point(b),
    ensures
        0 <= g2_dlog(b) < order(),
        b == g2_enc(g2_dlog(b)),
{
}

pub proof fn lemma_g1_point(k: int)
    requires
        0 <= k < order(),
    ensures
        g1_is_point(g1_enc(k)),
{
}

pub proof fn lemma_g2_point(k: int)
    requires
        0 <= k < order(),
    ensures
        g2_is_point(g2_enc(k)),
{
}

/// Relies on bls12_381's `Scalar::from_bytes_wide`, which reduces a 512-bit
/// little-endian integer modulo the group order, and `Scalar::to_bytes`, which
/// gives the canonical little-endian form.
#[verifier::external_body]
pub(crate) fn scalar_from_wide(seed: &[u8; 64]) -> (r: [u8; 32])
    ensures
        le_value(r@) == le_value(seed@) % order(),
{
    bls12_381::Scalar::from_bytes_wide(seed).to_bytes()
}

/// Relies on bls12_381's `G1Affine::generator` and `G1Affine::to_compressed`.
#[verifier::external_body]
pub(crate) fn g1_generator() -> (r: [u8; 48])
    ensures
        r@ == g1_enc(1),
{
    bls12_381::G1Affine::generator().to_compressed()
}

/// Relies on bls12_381's `G2Affine::generator` and `G2Affine::to_compressed`.
#[verifier::external_body]
pub(crate) fn g2_generator() -> (r: [u8; 96])
    ensures
        r@ == g2_enc(1),
{
    bls12_381::G2Affine::generator().to_compressed()
}

/// Relies on bls12_381's `G1Affine::from_compressed`, which accepts exactly the
/// canonical encodings of the elements of the prime-order subgroup.
#[verifier::external_body]
pub(crate) fn g1_decodes(b: &[u8; 48]) -> (r: bool)
    ensures
        r == g1_is_point(b@),
{
    bls12_381::G1Affine::from_compressed(b).is_some().into()
}

/// Relies on bls12_381's `G2Affine::from_compressed`, which accepts exactly the
/// canonical encodings of the elements of the prime-order subgroup.
#[verifier::external_body]
pub(crate) fn g2_decodes(b: &[u8; 96]) -> (r: bool)
    ensures
        r == g2_is_point(b@),
{
    bls12_381::G2Affine::from_compressed(b).is_some().into()
}

/// Relies on bls12_381's `G1Affine::is_identity`: zero times the generator,
/// and nothing else below the order, is the identity.
#[verifier::external_body]
pub(crate) fn g1_is_identity(p: &[u8; 48]) -> (r: bool)
    requires
        g1_is_point(p@),
    ensures
        forall|x: int| 0 <= x < order() && p@ == #[trigger] g1_enc(x) ==> (r <==> x == 0),
{
    bool::from(bls12_381::G1Affine::from_compressed(p).unwrap().is_identity())
}

/// Relies on bls12_381's `G2Affine::is_identity`: zero times the generator,
/// and nothing else below the order, is the identity.
#[verifier::external_body]
pub(crate) fn g2_is_identity(p: &[u8; 96]) -> (r: bool)
    requires
        g2_is_point(p@),
    ensures
        forall|x: int| 0 <= x < order() && p@ == #[trigger] g2_enc(x) ==> (r <==> x == 0),
{
    bool::from(bls12_381::G2Affine::from_compressed(p).unwrap().is_identity())
}

/// Relies on bls12_381's scalar multiplication `G1Affine * Scalar`.
#[verifier::external_body]
pub(crate) fn g1_mul(p: &[u8; 48], k: &[u8; 32]) -> (r: [u8; 48])
    requires
        g1_is_point(p@),
        is_scalar(k@),
    ensures
        forall|x: int|
            0 <= x < order() && p@ == #[trigger] g1_enc(x) ==> r@ == g1_enc(
                (x * le_value(k@)) % order(),
            ),
{
    let p = bls12_381::G1Affine::from_compressed(p).unwrap();
    let k = bls12_381::Scalar::from_bytes(k).unwrap();
    bls12_381::G1Affine::from(p * k).to_compressed()
}

/// Relies on bls12_381's scalar multiplication `G2Affine * Scalar`.
#[verifier::external_body]
pub(crate) fn g2_mul(p: &[u8; 96], k: &[u8; 32]) -> (r: [u8; 96])
    requires
        g2_is_point(p@),
        is_scalar(k@),
    ensures
        forall|x: int|
            0 <= x < order() && p@ == #[trigger] g2_enc(x) ==> r@ == g2_enc(
                (x * le_value(k@)) % order(),
            ),
{
    let p = bls12_381::G2Affine::from_compressed(p).unwrap();
    let k = bls12_381::Scalar::from_bytes(k).unwrap();
    bls12_381::G2Affine::from(p * k).to_compressed()
}

/// Relies on bls12_381's group addition `G1Projective + G1Affine`.
#[verifier::external_body]
pub(crate) fn g1_add(a: &[u8; 48], b: &[u8; 48]) -> (r: [u8; 48])
    requires
        g1_is_point(a@),
        g1_is_point(b@),
    ensures
        forall|x: int, y: int|
            0 <= x < order() && 0 <= y < order() && a@ == #[trigger] g1_enc(x) && b@
                == #[trigger] g1_enc(y) ==> r@ == g1_enc((x + y) % order()),
{
    let a = bls12_381::G1Affine::from_compressed(a).unwrap();
    let b = bls12_381::G1Affine::from_compressed(b).unwrap();
    bls12_381::G1Affine::from(bls12_381::G1Projective::from(a) + b).to_compressed()
}

/// Relies on bls12_381's group addition `G2Projective + G2Affine`.
#[verifier::external_body]
pub(crate) fn g2_add(a: &[u8; 96], b: &[u8; 96]) -> (r: [u8; 96])
    requires
        g2_is_point(a@),
        g2_is_point(b@),
    ensures
        forall|x: int, y: int|
            0 <= x < order() && 0 <= y < order() && a@ == #[trigger] g2_enc(x) && b@
                == #[trigger] g2_enc(y) ==> r@ == g2_enc((x + y) % order()),
{
    let a = bls12_381::G2Affine::from_compressed(a).unwrap();
    let b = bls12_381::G2Affine::from_compressed(b).unwrap();
    bls12_381::G2Affine::from(bls12_381::G2Projective::from(a) + b).to_compressed()
}

/// Relies on bls12_381's `pairing`, which is bilinear and non-degenerate:
/// `e(a·g1, b·g2) == e(c·g1, d·g2)` exactly when `a·b == c·d` modulo the order.
#[verifier::external_body]
pub(crate) fn pairing_equal(p1: &[u8; 48], q1: &[u8; 96], p2: &[u8; 48], q2: &[u8; 96]) -> (r:
    bool)
    requires
        g1_is_point(p1@),
        g2_is_point(q1@),
        g1_is_point(p2@),
        g2_is_point(q2@),
    ensures
        forall|a: int, b: int, c: int, d: int|
            0 <= a < order() && 0 <= b < order() && 0 <= c < order() && 0 <= d < order() && p1@
                == #[trigger] g1_enc(a) && q1@ == #[trigger] g2_enc(b) && p2@ == #[trigger] g1_enc(
                c,
            ) && q2@ == #[trigger] g2_enc(d) ==> (r <==> (a * b) % order() == (c * d) % order()),
{
    let p1 = bls12_381::G1Affine::from_compressed(p1).unwrap();
    let q1 = bls12_381::G2Affine::from_compressed(q1).unwrap();
    let p2 = bls12_381::G1Affine::from_compressed(p2).unwrap();
    let q2 = bls12_381::G2Affine::from_compressed(q2).unwrap();
    bls12_381::pairing(&p1, &q1) == bls12_381::pairing(&p2, &q2)
}

} // verus!
