use vstd::prelude::*;

use crate::errors::CryptoError;
use crate::group::{
    g1_add, g1_decodes, g1_dlog, g1_enc, g1_generator, g1_is_identity, g1_mul, g2_mul, le_value,
    lemma_g1_dlog, lemma_g1_point, lemma_g2_point, order, pairing_equal,
};
use crate::hash::{h0, h1, spec_h0, spec_h1};
use crate::signature::Signature;
use crate::sums::sum_of;

verus! {

/// A scalar of the field, kept only for the time of an operation.
pub struct SecretKey {
    bytes: [u8; 32],
}

/// An element of G1, held as its compressed encoding.
pub struct PublicKey {
    pub(crate) bytes: [u8; 48],
    pub(crate) dlog: Ghost<int>,
}

impl SecretKey {
    /// The scalar that the key stands for.
    pub closed spec fn value(&self) -> int {
        le_value(self.bytes@)
    }

    pub open spec fn wf(&self) -> bool {
        0 <= self.value() < order()
    }

    /// Generates a new [`PublicKey`] from a [`SecretKey`]: `pk = g1 * sk`.
    pub fn public_key(&self) -> (r: PublicKey)
        requires
            self.wf(),
        ensures
            r.wf(),
            r.dlog() == self.value(),
    {
        let g = g1_generator();
        let b = g1_mul(&g, &self.bytes);
        assert((1 * self.value()) % order() == self.value()) by (nonlinear_arith)
            requires
                0 <= self.value() < order(),
        ;
        PublicKey { bytes: b, dlog: Ghost(self.value()) }
    }

    /// Signs a message: its hash in G2 times the secret scalar.
    pub fn sign(&self, msg: &[u8]) -> (r: Signature)
        requires
            self.wf(),
        ensures
            r.wf(),
            r.dlog() == (spec_h0(msg@) * self.value()) % order(),
    {
        let h = h0(msg);
        let b = g2_mul(&h, &self.bytes);
        Signature::new(b, Ghost((spec_h0(msg@) * self.value()) % order()))
    }
}

impl View for PublicKey {
    type V = Seq<u8>;

    closed spec fn view(&self) -> Seq<u8> {
        self.bytes@
    }
}

/// What `verify` answers for a key, a signature and a message, given by the
/// scalars that the key and the signature are multiples of.
pub open spec fn verify_outcome(pk: int, sig: int, msg: Seq<u8>) -> Result<(), CryptoError> {
    if pk == 0 || sig == 0 {
        Err(CryptoError::InvalidPoint)
    } else if sig == (spec_h0(msg) * pk) % order() {
        Ok(())
    } else {
        Err(CryptoError::InvalidSignature)
    }
}

/// The bytes decode to an element of G1 other than the identity.
pub open spec fn g1_valid(b: Seq<u8>) -> bool {
    b.len() == 48 && exists|k: int| 0 < k < order() && b == #[trigger] g1_enc(k)
}

/// The term that a key adds to an aggregate key: itself times its coefficient.
pub open spec fn pk_term(pk: PublicKey) -> int {
    pk.dlog() * spec_h1(pk@)
}

pub open spec fn pk_terms() -> spec_fn(PublicKey) -> int {
    |pk: PublicKey| pk_term(pk)
}

/// What aggregating the keys gives: the scalar of the aggregate key, or the error.
pub open spec fn aggregate_keys_outcome(pks: Seq<PublicKey>) -> Result<int, CryptoError> {
    if pks.len() == 0 {
        Err(CryptoError::ZeroSizedInput)
    } else if exists|i: int| 0 <= i < pks.len() && #[trigger] pks[i].dlog() == 0 {
        Err(CryptoError::InvalidPoint)
    } else {
        Ok(sum_of(pks, pk_terms()) % order())
    }
}

impl PublicKey {
    /// The scalar that the key is the generator's multiple of.
    pub closed spec fn dlog(&self) -> int {
        self.dlog@
    }

    pub open spec fn wf(&self) -> bool {
        &&& 0 <= self.dlog() < order()
        &&& self@.len() == 48
        &&& self@ == g1_enc(self.dlog())
    }

    /// Decodes a compressed encoding; the identity is refused.
    pub fn from_bytes(bytes: &[u8]) -> (r: Result<PublicKey, CryptoError>)
        ensures
            r is Ok <==> g1_valid(bytes@),
            r matches Err(e) ==> e == CryptoError::InvalidPoint,
            r matches Ok(pk) ==> pk.wf() && pk@ == bytes@ && pk.dlog() == g1_dlog(bytes@)
                && pk.dlog() != 0,
    {
        if bytes.len() != 48 {
            return Err(CryptoError::InvalidPoint);
        }
        let mut res = [0u8; 48];
        let mut i: usize = 0;
        while i < 48
            invariant
                bytes@.len() == 48,
                0 <= i <= 48,
                forall|j: int| 0 <= j < i ==> res@[j] == bytes@[j],
            decreases 48 - i,
        {
            res[i] = bytes[i];
            i = i + 1;
        }
        assert(res@ =~= bytes@);
        if !g1_decodes(&res) {
            return Err(CryptoError::InvalidPoint);
        }
        proof {
            lemma_g1_dlog(res@);
        }
        if g1_is_identity(&res) {
            return Err(CryptoError::InvalidPoint);
        }
        Ok(PublicKey { bytes: res, dlog: Ghost(g1_dlog(res@)) })
    }

    /// The key is not the identity; that it lies in the prime-order subgroup
    /// is part of being well formed.
    pub fn is_valid(&self) -> (r: bool)
        requires
            self.wf(),
        ensures
            r <==> self.dlog() != 0,
    {
        proof {
            lemma_g1_point(self.dlog());
        }
        !g1_is_identity(&self.bytes)
    }

    /// Verifies a signature by comparing `e(g1, sig)` with `e(pk, H0(msg))`.
    pub fn verify(&self, sig: &Signature, msg: &[u8]) -> (r: Result<(), CryptoError>)
        requires
            self.wf(),
            sig.wf(),
        ensures
            r == verify_outcome(self.dlog(), sig.dlog(), msg@),
    {
        if !self.is_valid() || !sig.is_valid() {
            return Err(CryptoError::InvalidPoint);
        }
        let h0m = h0(msg);
        let g = g1_generator();
        proof {
            lemma_g1_point(1);
            lemma_g1_point(self.dlog());
            lemma_g2_point(sig.dlog());
            lemma_g2_point(spec_h0(msg@));
            assert((1 * sig.dlog()) % order() == sig.dlog()) by (nonlinear_arith)
                requires
                    0 <= sig.dlog() < order(),
            ;
            assert(self.dlog() * spec_h0(msg@) == spec_h0(msg@) * self.dlog()) by (nonlinear_arith);
        }
        let sb = sig.to_bytes();
        if pairing_equal(&g, &sb, &self.bytes, &h0m) {
            Ok(())
        } else {
            Err(CryptoError::InvalidSignature)
        }
    }

    /// Aggregates keys with rogue-key coefficients: `sum pk_i * H1(pk_i)`.
    pub fn aggregate(pks: &[PublicKey]) -> (r: Result<PublicKey, CryptoError>)
        requires
            forall|i: int| 0 <= i < pks@.len() ==> (#[trigger] pks@[i]).wf(),
        ensures
            r is Ok <==> aggregate_keys_outcome(pks@) is Ok,
            r matches Err(e) ==> aggregate_keys_outcome(pks@) == Err::<int, CryptoError>(e),
            r matches Ok(a) ==> a.wf() && a.dlog() == aggregate_keys_outcome(pks@)->Ok_0,
    {
        if pks.len() == 0 {
            return Err(CryptoError::ZeroSizedInput);
        }
        let mut i: usize = 0;
        while i < pks.len()
            invariant
                0 <= i <= pks@.len(),
                forall|j: int| 0 <= j < pks@.len() ==> (#[trigger] pks@[j]).wf(),
                forall|j: int| 0 <= j < i ==> (#[trigger] pks@[j]).dlog() != 0,
            decreases pks@.len() - i,
        {
            if !pks[i].is_valid() {
                return Err(CryptoError::InvalidPoint);
            }
            i = i + 1;
        }
        let mut acc = [0u8; 48];
        let mut i: usize = 0;
        while i < pks.len()
            invariant
                0 <= i <= pks@.len(),
                forall|j: int| 0 <= j < pks@.len() ==> (#[trigger] pks@[j]).wf(),
                i > 0 ==> acc@ == g1_enc(sum_of(pks@.subrange(0, i as int), pk_terms()) % order()),
            decreases pks@.len() - i,
        {
            let c = h1(&pks[i]);
            let t = g1_mul(&pks[i].bytes, &c);
            let ghost x = pks@[i as int].dlog();
            let ghost tv = (x * spec_h1(pks@[i as int]@)) % order();
            let ghost prev = sum_of(pks@.subrange(0, i as int), pk_terms());
            proof {
                lemma_g1_point(x);
                assert(pks@.subrange(0, i + 1).drop_last() =~= pks@.subrange(0, i as int));
                assert(sum_of(pks@.subrange(0, i + 1), pk_terms()) == prev + pk_terms()(pks@[i as int]));
            }
            assert(pk_terms()(pks@[i as int]) == x * spec_h1(pks@[i as int]@));
            if i == 0 {
                proof {
                    assert(prev == 0);
                }
                acc = t;
            } else {
                proof {
                    lemma_g1_point(prev % order());
                    lemma_g1_point(tv);
                    vstd::arithmetic::div_mod::lemma_add_mod_noop(prev, x * spec_h1(pks@[i as int]@), order());
                    vstd::arithmetic::div_mod::lemma_mod_twice(prev, order());
                    vstd::arithmetic::div_mod::lemma_mod_twice(x * spec_h1(pks@[i as int]@), order());
                }
                acc = g1_add(&acc, &t);
            }
            i = i + 1;
        }
        assert(pks@.subrange(0, pks@.len() as int) =~= pks@);
        Ok(PublicKey { bytes: acc, dlog: Ghost(sum_of(pks@, pk_terms()) % order()) })
    }

    /// The 48-byte compressed encoding of the key.
    pub fn to_bytes(&self) -> (r: [u8; 48])
        ensures
            r@ == self@,
    {
        self.bytes
    }
}

/// Derives a secret key from a 64-byte seed by wide reduction modulo the order.
pub fn parse_secret_key(seed: &[u8]) -> (r: Result<SecretKey, CryptoError>)
    ensures
        seed@.len() == 64 <==> r is Ok,
        r matches Err(e) ==> e == CryptoError::InvalidSeed,
        r matches Ok(sk) ==> sk.wf() && sk.value() == le_value(seed@) % order(),
{
    if seed.len() != 64 {
        return Err(CryptoError::InvalidSeed);
    }
    let mut wide = [0u8; 64];
    let mut i: usize = 0;
    while i < 64
        invariant
            seed@.len() == 64,
            0 <= i <= 64,
            forall|j: int| 0 <= j < i ==> wide@[j] == seed@[j],
        decreases 64 - i,
    {
        wide[i] = seed[i];
        i = i + 1;
    }
    assert(wide@ =~= seed@);
    let b = crate::group::scalar_from_wide(&wide);
    Ok(SecretKey { bytes: b })
}

} // verus!
