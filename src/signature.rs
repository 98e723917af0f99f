use vstd::prelude::*;

use crate::errors::CryptoError;
use crate::group::{
    g2_add, g2_decodes, g2_dlog, g2_enc, g2_is_identity, g2_mul, lemma_g2_dlog,
    lemma_g2_point, order,
};
use crate::hash::{h1, spec_h1};
use crate::keys::PublicKey;
use crate::sums::sum_of;

verus! {

/// An element of G2, held as its compressed encoding.
pub struct Signature {
    pub(crate) bytes: [u8; 96],
    pub(crate) dlog: Ghost<int>,
}

impl View for Signature {
    type V = Seq<u8>;

    closed spec fn view(&self) -> Seq<u8> {
        self.bytes@
    }
}

/// The bytes decode to an element of G2 other than the identity.
pub open spec fn g2_valid(b: Seq<u8>) -> bool {
    b.len() == 96 && exists|k: int| 0 < k < order() && b == #[trigger] g2_enc(k)
}

/// The signatures and keys paired up by position.
pub open spec fn pairs(sigs: Seq<Signature>, pks: Seq<PublicKey>) -> Seq<(Signature, PublicKey)> {
    Seq::new(sigs.len(), |i: int| (sigs[i], pks[i]))
}

/// The term that a signature adds to an aggregate: itself times the
/// coefficient of its signer's key.
pub open spec fn sig_term(p: (Signature, PublicKey)) -> int {
    p.0.dlog() * spec_h1(p.1@)
}

pub open spec fn sig_terms() -> spec_fn((Signature, PublicKey)) -> int {
    |p: (Signature, PublicKey)| sig_term(p)
}

/// What aggregating the signatures gives: the scalar of the aggregate, or the error.
pub open spec fn aggregate_sigs_outcome(sigs: Seq<Signature>, pks: Seq<PublicKey>) -> Result<
    int,
    CryptoError,
> {
    if sigs.len() == 0 {
        Err(CryptoError::ZeroSizedInput)
    } else if sigs.len() != pks.len() {
        Err(CryptoError::LengthMismatch)
    } else if exists|i: int|
        0 <= i < sigs.len() && ((#[trigger] sigs[i]).dlog() == 0 || pks[i].dlog() == 0) {
        Err(CryptoError::InvalidPoint)
    } else {
        Ok(sum_of(pairs(sigs, pks), sig_terms()) % order())
    }
}

impl Signature {
    /// The scalar that the signature is the generator's multiple of.
    pub closed spec fn dlog(&self) -> int {
        self.dlog@
    }

    pub open spec fn wf(&self) -> bool {
        &&& 0 <= self.dlog() < order()
        &&& self@.len() == 96
        &&& self@ == g2_enc(self.dlog())
    }

    /// The signature is not the identity; that it lies in the prime-order
    /// subgroup is part of being well formed.
    pub fn is_valid(&self) -> (r: bool)
        requires
            self.wf(),
        ensures
            r <==> self.dlog() != 0,
    {
        proof {
            lemma_g2_point(self.dlog());
        }
        !g2_is_identity(&self.bytes)
    }

    /// Decodes a compressed encoding; the identity is refused.
    pub fn from_bytes(bytes: &[u8]) -> (r: Result<Signature, CryptoError>)
        ensures
            r is Ok <==> g2_valid(bytes@),
            r matches Err(e) ==> e == CryptoError::InvalidPoint,
            r matches Ok(sig) ==> sig.wf() && sig@ == bytes@ && sig.dlog() == g2_dlog(bytes@)
                && sig.dlog() != 0,
    {
        if bytes.len() != 96 {
            return Err(CryptoError::InvalidPoint);
        }
        let mut res = [0u8; 96];
        let mut i: usize = 0;
        while i < 96
            invariant
                bytes@.len() == 96,
                0 <= i <= 96,
                forall|j: int| 0 <= j < i ==> res@[j] == bytes@[j],
            decreases 96 - i,
        {
            res[i] = bytes[i];
            i = i + 1;
        }
        assert(res@ =~= bytes@);
        if !g2_decodes(&res) {
            return Err(CryptoError::InvalidPoint);
        }
        proof {
            lemma_g2_dlog(res@);
        }
        if g2_is_identity(&res) {
            return Err(CryptoError::InvalidPoint);
        }
        Ok(Signature { bytes: res, dlog: Ghost(g2_dlog(res@)) })
    }

    /// Aggregates signatures, each weighted by the rogue-key coefficient of
    /// the key at the same position: `sum sig_i * H1(pk_i)`.
    pub fn aggregate(sigs: &[Signature], public_keys: &[PublicKey]) -> (r: Result<
        Signature,
        CryptoError,
    >)
        requires
            forall|i: int| 0 <= i < sigs@.len() ==> (#[trigger] sigs@[i]).wf(),
            forall|i: int| 0 <= i < public_keys@.len() ==> (#[trigger] public_keys@[i]).wf(),
        ensures
            r is Ok <==> aggregate_sigs_outcome(sigs@, public_keys@) is Ok,
            r matches Err(e) ==> aggregate_sigs_outcome(sigs@, public_keys@) == Err::<
                int,
                CryptoError,
            >(e),
            r matches Ok(a) ==> a.wf() && a.dlog() == aggregate_sigs_outcome(
                sigs@,
                public_keys@,
            )->Ok_0,
    {
        if sigs.len() == 0 {
            return Err(CryptoError::ZeroSizedInput);
        }
        if sigs.len() != public_keys.len() {
            return Err(CryptoError::LengthMismatch);
        }
        let n = sigs.len();
        let mut i: usize = 0;
        while i < n
            invariant
                n == sigs@.len() == public_keys@.len(),
                0 <= i <= n,
                forall|j: int| 0 <= j < n ==> (#[trigger] sigs@[j]).wf(),
                forall|j: int| 0 <= j < n ==> (#[trigger] public_keys@[j]).wf(),
                forall|j: int| 0 <= j < i ==> (#[trigger] sigs@[j]).dlog() != 0,
                forall|j: int| 0 <= j < i ==> (#[trigger] public_keys@[j]).dlog() != 0,
            decreases n - i,
        {
            let sig_ok = sigs[i].is_valid();
            let pk_ok = public_keys[i].is_valid();
            if !sig_ok || !pk_ok {
                return Err(CryptoError::InvalidPoint);
            }
            i = i + 1;
        }
        let ghost ps = pairs(sigs@, public_keys@);
        let mut acc = [0u8; 96];
        let mut i: usize = 0;
        while i < n
            invariant
                n == sigs@.len() == public_keys@.len(),
                ps == pairs(sigs@, public_keys@),
                0 <= i <= n,
                forall|j: int| 0 <= j < n ==> (#[trigger] sigs@[j]).wf(),
                forall|j: int| 0 <= j < n ==> (#[trigger] public_keys@[j]).wf(),
                i > 0 ==> acc@ == g2_enc(sum_of(ps.subrange(0, i as int), sig_terms()) % order()),
            decreases n - i,
        {
            let c = h1(&public_keys[i]);
            let t = g2_mul(&sigs[i].bytes, &c);
            let ghost x = sigs@[i as int].dlog();
            let ghost hx = x * spec_h1(public_keys@[i as int]@);
            let ghost prev = sum_of(ps.subrange(0, i as int), sig_terms());
            proof {
                lemma_g2_point(x);
                assert(ps.subrange(0, i + 1).drop_last() =~= ps.subrange(0, i as int));
                assert(ps[i as int] == (sigs@[i as int], public_keys@[i as int]));
                assert(sum_of(ps.subrange(0, i + 1), sig_terms()) == prev + sig_terms()(ps[i as int]));
                assert(sig_terms()(ps[i as int]) == hx);
            }
            if i == 0 {
                proof {
                    assert(prev == 0);
                }
                acc = t;
            } else {
                proof {
                    lemma_g2_point(prev % order());
                    lemma_g2_point(hx % order());
                    vstd::arithmetic::div_mod::lemma_add_mod_noop(prev, hx, order());
                }
                acc = g2_add(&acc, &t);
            }
            i = i + 1;
        }
        assert(ps.subrange(0, n as int) =~= ps);
        Ok(Signature { bytes: acc, dlog: Ghost(sum_of(ps, sig_terms()) % order()) })
    }

    /// The 96-byte compressed encoding of the signature.
    pub fn to_bytes(&self) -> (r: [u8; 96])
        ensures
            r@ == self@,
    {
        self.bytes
    }

    pub(crate) fn new(bytes: [u8; 96], dlog: Ghost<int>) -> (r: Signature)
        requires
            0 <= dlog@ < order(),
            bytes@ == g2_enc(dlog@),
        ensures
            r.wf(),
            r.dlog() == dlog@,
            r@ == bytes@,
    {
        Signature { bytes, dlog }
    }
}

} // verus!
