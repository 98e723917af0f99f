use vstd::prelude::*;

use crate::api::{
    aggregate_public_keys_outcome, aggregate_signatures_outcome, byte_pairs, key_terms,
    pair_invalid, signed_terms,
};
use crate::errors::CryptoError;
use crate::group::order;
use crate::hash::{spec_h0, spec_h1};
use crate::keys::{aggregate_keys_outcome, g1_valid, pk_terms, verify_outcome, PublicKey};
use crate::signature::{aggregate_sigs_outcome, g2_valid, pairs, sig_terms, Signature};
use crate::sums::{lemma_sum_permutation, sum_of};
use vstd::arithmetic::div_mod::{
    lemma_add_mod_noop, lemma_mul_mod_noop_left, lemma_mul_mod_noop_right,
};

verus! {

/// Whether some item of a list has a property does not depend on the order
/// of the list.
proof fn lemma_exists_permutation<A>(s: Seq<A>, t: Seq<A>, p: spec_fn(A) -> bool)
    requires
        s.to_multiset() == t.to_multiset(),
    ensures
        (exists|i: int| 0 <= i < s.len() && p(#[trigger] s[i])) <==> (exists|j: int|
            0 <= j < t.len() && p(#[trigger] t[j])),
{
    broadcast use vstd::seq_lib::group_to_multiset_ensures;

    if exists|i: int| 0 <= i < s.len() && p(#[trigger] s[i]) {
        let i = choose|i: int| 0 <= i < s.len() && p(#[trigger] s[i]);
        assert(s.contains(s[i]));
        assert(s.to_multiset().count(s[i]) > 0);
        assert(t.to_multiset().count(s[i]) > 0);
        assert(t.contains(s[i]));
        let j = choose|j: int| 0 <= j < t.len() && t[j] == s[i];
        assert(p(t[j]));
    }
    if exists|j: int| 0 <= j < t.len() && p(#[trigger] t[j]) {
        let j = choose|j: int| 0 <= j < t.len() && p(#[trigger] t[j]);
        assert(t.contains(t[j]));
        assert(t.to_multiset().count(t[j]) > 0);
        assert(s.to_multiset().count(t[j]) > 0);
        assert(s.contains(t[j]));
        let i = choose|i: int| 0 <= i < s.len() && s[i] == t[j];
        assert(p(s[i]));
    }
}

/// A signature made with a secret scalar `sk` over `msg` verifies against
/// `msg` under the public key of `sk`, unless the key or the signature is the
/// identity (`sk · H0(msg)` is zero).
pub proof fn lemma_sign_then_verify(sk: int, msg: Seq<u8>)
    requires
        0 <= sk < order(),
        (spec_h0(msg) * sk) % order() != 0,
    ensures
        verify_outcome(sk, (spec_h0(msg) * sk) % order(), msg) == Ok::<(), CryptoError>(()),
{
    assert(sk != 0) by {
        if sk == 0 {
            assert(spec_h0(msg) * sk == 0) by (nonlinear_arith)
                requires
                    sk == 0,
            ;
        }
    }
}

/// Under one key and one message at most one signature verifies: any other
/// well-formed signature is refused.
pub proof fn lemma_other_signature_rejected(
    pk: PublicKey,
    sig: Signature,
    other: Signature,
    msg: Seq<u8>,
)
    requires
        pk.wf(),
        sig.wf(),
        other.wf(),
        other@ != sig@,
        verify_outcome(pk.dlog(), sig.dlog(), msg) is Ok,
    ensures
        verify_outcome(pk.dlog(), other.dlog(), msg) is Err,
{
}

/// A signature that verifies for two key and message pairs makes the hashes of
/// the messages, times the keys' scalars, collide modulo the order.
pub proof fn lemma_acceptance_binds_key_and_message(
    pk1: int,
    msg1: Seq<u8>,
    pk2: int,
    msg2: Seq<u8>,
    sig: int,
)
    requires
        verify_outcome(pk1, sig, msg1) is Ok,
        verify_outcome(pk2, sig, msg2) is Ok,
    ensures
        (spec_h0(msg1) * pk1) % order() == (spec_h0(msg2) * pk2) % order(),
{
}

/// The encoding of a well-formed key other than the identity is 48 bytes
/// that decoding accepts (and decoding keeps the bytes it accepts).
pub proof fn lemma_public_key_round_trip(pk: PublicKey)
    requires
        pk.wf(),
        pk.dlog() != 0,
    ensures
        g1_valid(pk@),
        pk@.len() == 48,
{
}

/// The encoding of a well-formed signature other than the identity is 96
/// bytes that decoding accepts (and decoding keeps the bytes it accepts).
pub proof fn lemma_signature_round_trip(sig: Signature)
    requires
        sig.wf(),
        sig.dlog() != 0,
    ensures
        g2_valid(sig@),
        sig@.len() == 96,
{
}

/// Aggregating keys does not depend on their order.
pub proof fn lemma_aggregate_keys_order(pks: Seq<PublicKey>, other: Seq<PublicKey>)
    requires
        pks.to_multiset() == other.to_multiset(),
    ensures
        aggregate_keys_outcome(pks) == aggregate_keys_outcome(other),
{
    broadcast use vstd::seq_lib::group_to_multiset_ensures;

    assert(pks.len() == pks.to_multiset().len());
    lemma_exists_permutation(pks, other, |pk: PublicKey| pk.dlog() == 0);
    lemma_sum_permutation(pks, other, pk_terms());
}

/// Aggregating encoded keys does not depend on their order.
pub proof fn lemma_aggregate_public_keys_order(pks: Seq<Seq<u8>>, other: Seq<Seq<u8>>)
    requires
        pks.to_multiset() == other.to_multiset(),
    ensures
        aggregate_public_keys_outcome(pks) == aggregate_public_keys_outcome(other),
{
    broadcast use vstd::seq_lib::group_to_multiset_ensures;

    assert(pks.len() == pks.to_multiset().len());
    lemma_exists_permutation(pks, other, |b: Seq<u8>| !g1_valid(b));
    lemma_sum_permutation(pks, other, key_terms());
}

proof fn lemma_pairs_invalid(sigs: Seq<Seq<u8>>, pks: Seq<Seq<u8>>)
    requires
        sigs.len() == pks.len(),
    ensures
        (exists|i: int|
            0 <= i < sigs.len() && #[trigger] pair_invalid(sigs[i], pks[i])) <==> (exists|i: int|
            0 <= i < byte_pairs(sigs, pks).len() && (|p: (Seq<u8>, Seq<u8>)| pair_invalid(p.0, p.1))(
                #[trigger] byte_pairs(sigs, pks)[i],
            )),
{
    let s = byte_pairs(sigs, pks);
    let bad = |p: (Seq<u8>, Seq<u8>)| pair_invalid(p.0, p.1);
    if exists|i: int| 0 <= i < sigs.len() && #[trigger] pair_invalid(sigs[i], pks[i]) {
        let i = choose|i: int| 0 <= i < sigs.len() && #[trigger] pair_invalid(sigs[i], pks[i]);
        assert(bad(s[i]));
    }
    if exists|i: int| 0 <= i < s.len() && bad(#[trigger] s[i]) {
        let i = choose|i: int| 0 <= i < s.len() && bad(#[trigger] s[i]);
        assert(pair_invalid(sigs[i], pks[i]));
    }
}

/// Aggregating encoded signatures does not depend on the order of the
/// (signature, key) pairs.
pub proof fn lemma_aggregate_signatures_order(
    sigs: Seq<Seq<u8>>,
    pks: Seq<Seq<u8>>,
    other_sigs: Seq<Seq<u8>>,
    other_pks: Seq<Seq<u8>>,
)
    requires
        sigs.len() == pks.len(),
        other_sigs.len() == other_pks.len(),
        byte_pairs(sigs, pks).to_multiset() == byte_pairs(other_sigs, other_pks).to_multiset(),
    ensures
        aggregate_signatures_outcome(sigs, pks) == aggregate_signatures_outcome(
            other_sigs,
            other_pks,
        ),
{
    broadcast use vstd::seq_lib::group_to_multiset_ensures;

    let s = byte_pairs(sigs, pks);
    let t = byte_pairs(other_sigs, other_pks);
    assert(s.len() == s.to_multiset().len());
    assert(t.len() == t.to_multiset().len());
    let bad = |p: (Seq<u8>, Seq<u8>)| pair_invalid(p.0, p.1);
    lemma_exists_permutation(s, t, bad);
    lemma_pairs_invalid(sigs, pks);
    lemma_pairs_invalid(other_sigs, other_pks);
    lemma_sum_permutation(s, t, signed_terms());
}

/// When every signature is its signer's scalar times `H0(msg)`, the weighted
/// sum of the signatures is `H0(msg)` times the weighted sum of the keys.
proof fn lemma_signature_sum(pks: Seq<PublicKey>, sigs: Seq<Signature>, msg: Seq<u8>)
    requires
        pks.len() == sigs.len(),
        forall|i: int|
            0 <= i < pks.len() ==> (#[trigger] sigs[i]).dlog() == (spec_h0(msg) * pks[i].dlog())
                % order(),
    ensures
        sum_of(pairs(sigs, pks), sig_terms()) % order() == (spec_h0(msg) * sum_of(
            pks,
            pk_terms(),
        )) % order(),
    decreases pks.len(),
{
    let h = spec_h0(msg);
    let q = order();
    if pks.len() == 0 {
        assert(h * 0 == 0);
    } else {
        let ps = pairs(sigs, pks);
        let n = pks.len() - 1;
        assert(ps.drop_last() =~= pairs(sigs.drop_last(), pks.drop_last()));
        assert(ps.last() == (sigs[n], pks[n]));
        lemma_signature_sum(pks.drop_last(), sigs.drop_last(), msg);
        let a = sum_of(ps.drop_last(), sig_terms());
        let b = sum_of(pks.drop_last(), pk_terms());
        let k = pks[n].dlog();
        let c = spec_h1(pks[n]@);
        assert(sum_of(ps, sig_terms()) == a + ((h * k) % q) * c);
        assert(sum_of(pks, pk_terms()) == b + k * c);
        lemma_add_mod_noop(a, ((h * k) % q) * c, q);
        lemma_mul_mod_noop_left(h * k, c, q);
        assert(h * (b + k * c) == h * b + (h * k) * c) by (nonlinear_arith);
        lemma_add_mod_noop(h * b, (h * k) * c, q);
    }
}

/// Several signers over one message: the aggregate of their signatures
/// verifies against the message under the aggregate of their keys, unless a
/// key, a signature or either aggregate is the identity.
pub proof fn lemma_multi_signer(pks: Seq<PublicKey>, sigs: Seq<Signature>, msg: Seq<u8>)
    requires
        pks.len() == sigs.len(),
        pks.len() > 0,
        forall|i: int|
            0 <= i < pks.len() ==> (#[trigger] pks[i]).wf() && sigs[i].wf() && pks[i].dlog() != 0
                && sigs[i].dlog() != 0,
        forall|i: int|
            0 <= i < pks.len() ==> (#[trigger] sigs[i]).dlog() == (spec_h0(msg) * pks[i].dlog())
                % order(),
        sum_of(pks, pk_terms()) % order() != 0,
        sum_of(pairs(sigs, pks), sig_terms()) % order() != 0,
    ensures
        aggregate_keys_outcome(pks) == Ok::<int, CryptoError>(sum_of(pks, pk_terms()) % order()),
        aggregate_sigs_outcome(sigs, pks) == Ok::<int, CryptoError>(
            sum_of(pairs(sigs, pks), sig_terms()) % order(),
        ),
        verify_outcome(
            sum_of(pks, pk_terms()) % order(),
            sum_of(pairs(sigs, pks), sig_terms()) % order(),
            msg,
        ) == Ok::<(), CryptoError>(()),
{
    lemma_signature_sum(pks, sigs, msg);
    lemma_mul_mod_noop_right(spec_h0(msg), sum_of(pks, pk_terms()), order());
}

} // verus!
