//! The equations of the two schemes, checked in an ideal bilinear group.
//!
//! The contracts of this library name what the curve library computes and
//! state none of its algebra. This module states that algebra as a predicate
//! on an interpretation of the encodings: a reading of every group element
//! as an exponent modulo the group order. It proves, for every
//! interpretation that satisfies the predicate, that verification accepts
//! what the verifier is handed when every signer followed the scheme.

use vstd::prelude::*;
use vstd::arithmetic::div_mod::{lemma_fundamental_div_mod, lemma_mod_multiples_basic};
use crate::bdn::{
    bdn_aggpk_spec, bdn_coefficient, bdn_round_spec, bdn_share_spec, bdn_verify_spec,
    bdn_weighted_keys, BdnRound,
};
use crate::bytes::be_nat;
use crate::group::{
    core_sign_spec, g1_add_spec, g1_encodings, g1_mul_spec, g1_neg_spec, g1_sum, g2_add_spec,
    g2_generator_spec, g2_mul_spec, g2_pair_mul_spec, g2_sum, hash_to_g1_spec,
    lemma_g1_sum_step, lemma_g2_sum_step, read_from, Encoded,
};
use crate::keys::{
    all_keygen_ok, generated_from, key_pair_generate_spec, keygen_ok, signer_keys, KeyPair,
};
use crate::ourms::{
    our_k1_spec, our_k2_spec, our_key_weight, our_round_spec, our_s1_spec, our_share_weight,
    our_start_spec, our_verify_spec, our_weighted_keys, our_weighted_shares, OurRound,
};
use crate::pairing::{fresh_accumulator, miller_another_spec, product_is_one};
use crate::params::{group_order, IKM_LEN};

verus! {

/// A reading of the encodings as exponents: of an element of the short
/// group, of an element of the long group, and of the product that an
/// accumulator holds.
pub struct Interpretation {
    pub g1: spec_fn(Encoded) -> int,
    pub g2: spec_fn(Encoded) -> int,
    pub gt: spec_fn(Seq<Seq<u8>>) -> int,
}

/// Whether `a` and `b` differ by a multiple of the group order.
pub open spec fn congruent(a: int, b: int) -> bool {
    (a - b) % (group_order() as int) == 0
}

/// The accumulator that holds the pairs `pairs`, each of an element of the
/// long group and one of the short group, multiplied in from the first to
/// the last.
pub open spec fn accumulated(pairs: Seq<(Encoded, Encoded)>) -> Seq<Seq<u8>>
    decreases pairs.len(),
{
    if pairs.len() == 0 {
        fresh_accumulator()
    } else {
        miller_another_spec(accumulated(pairs.drop_last()), pairs.last().0, pairs.last().1)
    }
}

/// Whether the operations of the curve library are, under the reading `m`,
/// those of a bilinear group of the group order: addition, inversion and
/// multiples in both groups, a signature as the multiple of the message
/// point by the secret, and the product of the pairings multiplied into a
/// fresh accumulator as the sum of the products of the exponents, which is
/// the identity exactly where that sum vanishes. Of an accumulator that was
/// not filled from a fresh one nothing is asked.
pub open spec fn bilinear(m: Interpretation) -> bool {
    &&& forall|a: Encoded, b: Encoded|
        congruent((m.g1)(#[trigger] g1_add_spec(a, b)), (m.g1)(a) + (m.g1)(b))
    &&& forall|a: Encoded| congruent((m.g1)(#[trigger] g1_neg_spec(a)), -(m.g1)(a))
    &&& forall|p: Encoded, e: nat|
        congruent((m.g1)(#[trigger] g1_mul_spec(p, e)), e * (m.g1)(p))
    &&& forall|msg: Seq<u8>, sk: nat|
        congruent(
            (m.g1)(read_from(#[trigger] core_sign_spec(msg, sk))),
            sk * (m.g1)(hash_to_g1_spec(msg)),
        )
    &&& forall|a: Encoded, b: Encoded|
        congruent((m.g2)(#[trigger] g2_add_spec(a, b)), (m.g2)(a) + (m.g2)(b))
    &&& forall|p: Encoded, e: nat|
        congruent((m.g2)(#[trigger] g2_mul_spec(p, e)), e * (m.g2)(p))
    &&& forall|p: Encoded, e: nat|
        congruent((m.g2)(#[trigger] g2_pair_mul_spec(p, e)), e * (m.g2)(p))
    &&& congruent((m.gt)(fresh_accumulator()), 0)
    &&& forall|pairs: Seq<(Encoded, Encoded)>, q: Encoded, p: Encoded|
        congruent(
            (m.gt)(#[trigger] miller_another_spec(accumulated(pairs), q, p)),
            (m.gt)(accumulated(pairs)) + (m.g2)(q) * (m.g1)(p),
        )
    &&& forall|pairs: Seq<(Encoded, Encoded)>| #[trigger]
        product_is_one(accumulated(pairs)) <==> congruent((m.gt)(accumulated(pairs)), 0)
}

/// Multiplying one more pair into the accumulator of some pairs gives the
/// accumulator of all of them.
proof fn lemma_accumulated_push(pairs: Seq<(Encoded, Encoded)>, q: Encoded, p: Encoded)
    ensures
        accumulated(pairs.push((q, p))) == miller_another_spec(accumulated(pairs), q, p),
{
    assert(pairs.push((q, p)).drop_last() =~= pairs);
}

/// Whether the public key of `pair` is, under the reading `m`, the multiple
/// of the generator by the secret of `pair`.
pub open spec fn honest_key(m: Interpretation, pair: KeyPair) -> bool {
    congruent((m.g2)(pair.public@), pair.secret@ * (m.g2)(read_from(g2_generator_spec())))
}

/// The sum of `f(0)` to `f(n - 1)`.
pub open spec fn total(f: spec_fn(int) -> int, n: int) -> int
    decreases n,
{
    if n <= 0 {
        0
    } else {
        total(f, n - 1) + f(n - 1)
    }
}

/// Congruent numbers stay congruent when both are multiplied by the same
/// number.
proof fn lemma_congruent_scale(a: int, b: int, c: int)
    requires
        congruent(a, b),
    ensures
        congruent(c * a, c * b),
        congruent(a * c, b * c),
{
    let r = group_order() as int;
    let k = (a - b) / r;
    lemma_fundamental_div_mod(a - b, r);
    assert(c * a - c * b == (c * k) * r) by (nonlinear_arith)
        requires
            a - b == r * k,
    ;
    lemma_mod_multiples_basic(c * k, r);
    assert(a * c - b * c == c * a - c * b) by (nonlinear_arith);
}

/// Every number is congruent to itself.
proof fn lemma_congruent_refl(a: int)
    ensures
        congruent(a, a),
{
}

/// Congruence does not depend on the side.
proof fn lemma_congruent_sym(a: int, b: int)
    requires
        congruent(a, b),
    ensures
        congruent(b, a),
{
}

/// A number is congruent to its remainder modulo the group order.
proof fn lemma_congruent_mod(x: int)
    ensures
        congruent(x % (group_order() as int), x),
{
}

/// Sums of congruent numbers are congruent.
proof fn lemma_congruent_add(a: int, a2: int, b: int, b2: int)
    requires
        congruent(a, a2),
        congruent(b, b2),
    ensures
        congruent(a + b, a2 + b2),
{
}

/// Two numbers congruent to a third are congruent.
proof fn lemma_congruent_trans(a: int, b: int, c: int)
    requires
        congruent(a, b),
        congruent(b, c),
    ensures
        congruent(a, c),
{
}

/// The negatives of congruent numbers are congruent.
proof fn lemma_congruent_neg(a: int, b: int)
    requires
        congruent(a, b),
    ensures
        congruent(-a, -b),
{
}

/// Sums whose terms are congruent to a common factor times the terms of
/// another sum.
proof fn lemma_total_factor(f: spec_fn(int) -> int, c: int, w: spec_fn(int) -> int, n: int)
    requires
        0 <= n,
        forall|i: int| 0 <= i < n ==> congruent(#[trigger] f(i), c * w(i)),
    ensures
        congruent(total(f, n), c * total(w, n)),
    decreases n,
{
    if n > 0 {
        lemma_total_factor(f, c, w, n - 1);
        lemma_congruent_add(total(f, n - 1), c * total(w, n - 1), f(n - 1), c * w(n - 1));
        assert(c * total(w, n - 1) + c * w(n - 1) == c * (total(w, n - 1) + w(n - 1)))
            by (nonlinear_arith);
    } else {
        assert(c * 0 == 0) by (nonlinear_arith);
        lemma_congruent_refl(0);
    }
}

/// The readings of the short-group elements `terms`, by position.
pub open spec fn g1_readings(m: Interpretation, terms: Seq<Encoded>) -> spec_fn(int) -> int {
    |i: int| (m.g1)(terms[i])
}

/// The readings of the long-group elements `terms`, by position.
pub open spec fn g2_readings(m: Interpretation, terms: Seq<Encoded>) -> spec_fn(int) -> int {
    |i: int| (m.g2)(terms[i])
}

/// The reading of a sum in the short group is the sum of the readings.
proof fn lemma_g1_sum_reading(m: Interpretation, terms: Seq<Encoded>, n: int)
    requires
        bilinear(m),
        1 <= n <= terms.len(),
    ensures
        congruent((m.g1)(g1_sum(terms.take(n))), total(g1_readings(m, terms), n)),
    decreases n,
{
    let f = g1_readings(m, terms);
    if n == 1 {
        assert(total(f, 1) == total(f, 0) + f(0));
        lemma_congruent_refl(f(0));
    } else {
        lemma_g1_sum_reading(m, terms, n - 1);
        lemma_g1_sum_step(terms, n - 1);
        let prev = g1_sum(terms.take(n - 1));
        lemma_congruent_refl(f(n - 1));
        lemma_congruent_add((m.g1)(prev), total(f, n - 1), f(n - 1), f(n - 1));
        lemma_congruent_trans(
            (m.g1)(g1_sum(terms.take(n))),
            (m.g1)(prev) + f(n - 1),
            total(f, n),
        );
    }
}

/// The reading of a sum in the long group is the sum of the readings.
proof fn lemma_g2_sum_reading(m: Interpretation, terms: Seq<Encoded>, n: int)
    requires
        bilinear(m),
        1 <= n <= terms.len(),
    ensures
        congruent((m.g2)(g2_sum(terms.take(n))), total(g2_readings(m, terms), n)),
    decreases n,
{
    let f = g2_readings(m, terms);
    if n == 1 {
        assert(total(f, 1) == total(f, 0) + f(0));
        lemma_congruent_refl(f(0));
    } else {
        lemma_g2_sum_reading(m, terms, n - 1);
        lemma_g2_sum_step(terms, n - 1);
        let prev = g2_sum(terms.take(n - 1));
        lemma_congruent_refl(f(n - 1));
        lemma_congruent_add((m.g2)(prev), total(f, n - 1), f(n - 1), f(n - 1));
        lemma_congruent_trans(
            (m.g2)(g2_sum(terms.take(n))),
            (m.g2)(prev) + f(n - 1),
            total(f, n),
        );
    }
}

/// The reading of a whole sum in the short group, where every term reads as
/// a common factor times a weight.
proof fn lemma_g1_sum_factor(
    m: Interpretation,
    terms: Seq<Encoded>,
    c: int,
    w: spec_fn(int) -> int,
)
    requires
        bilinear(m),
        terms.len() >= 1,
        forall|i: int| 0 <= i < terms.len() ==> congruent((m.g1)(#[trigger] terms[i]), c * w(i)),
    ensures
        congruent((m.g1)(g1_sum(terms)), c * total(w, terms.len() as int)),
{
    let n = terms.len() as int;
    let f = g1_readings(m, terms);
    assert(terms.take(n) =~= terms);
    lemma_g1_sum_reading(m, terms, n);
    assert forall|i: int| 0 <= i < n implies congruent(#[trigger] f(i), c * w(i)) by {
    }
    lemma_total_factor(f, c, w, n);
    lemma_congruent_trans((m.g1)(g1_sum(terms)), total(f, n), c * total(w, n));
}

/// The reading of a whole sum in the long group, where every term reads as
/// a common factor times a weight.
proof fn lemma_g2_sum_factor(
    m: Interpretation,
    terms: Seq<Encoded>,
    c: int,
    w: spec_fn(int) -> int,
)
    requires
        bilinear(m),
        terms.len() >= 1,
        forall|i: int| 0 <= i < terms.len() ==> congruent((m.g2)(#[trigger] terms[i]), c * w(i)),
    ensures
        congruent((m.g2)(g2_sum(terms)), c * total(w, terms.len() as int)),
{
    let n = terms.len() as int;
    let f = g2_readings(m, terms);
    assert(terms.take(n) =~= terms);
    lemma_g2_sum_reading(m, terms, n);
    assert forall|i: int| 0 <= i < n implies congruent(#[trigger] f(i), c * w(i)) by {
    }
    lemma_total_factor(f, c, w, n);
    lemma_congruent_trans((m.g2)(g2_sum(terms)), total(f, n), c * total(w, n));
}

/// The sum of the readings `f` of the elements `terms`.
pub open spec fn reading_total(f: spec_fn(Encoded) -> int, terms: Seq<Encoded>) -> int
    decreases terms.len(),
{
    if terms.len() == 0 {
        0
    } else {
        reading_total(f, terms.drop_last()) + f(terms.last())
    }
}

/// Taking one element out of a sequence takes its reading out of the sum.
proof fn lemma_reading_total_remove(f: spec_fn(Encoded) -> int, terms: Seq<Encoded>, j: int)
    requires
        0 <= j < terms.len(),
    ensures
        reading_total(f, terms) == reading_total(f, terms.remove(j)) + f(terms[j]),
    decreases terms.len(),
{
    if j < terms.len() - 1 {
        let shorter = terms.remove(j);
        assert(shorter.drop_last() =~= terms.drop_last().remove(j));
        lemma_reading_total_remove(f, terms.drop_last(), j);
    }
}

/// Two sequences that hold the same elements, in whatever order, have the
/// same sum of readings.
proof fn lemma_reading_total_permutation(
    f: spec_fn(Encoded) -> int,
    first: Seq<Encoded>,
    second: Seq<Encoded>,
)
    requires
        first.to_multiset() == second.to_multiset(),
    ensures
        reading_total(f, first) == reading_total(f, second),
    decreases first.len(),
{
    first.to_multiset_ensures();
    second.to_multiset_ensures();
    if first.len() > 0 {
        let x = first.last();
        assert(second.to_multiset().count(x) > 0);
        let j = choose|j: int| 0 <= j < second.len() && second[j] == x;
        let last = first.len() - 1;
        assert(first.remove(last).to_multiset() == first.to_multiset().remove(x));
        lemma_reading_total_permutation(f, first.drop_last(), second.remove(j));
        lemma_reading_total_remove(f, second, j);
    }
}

/// The sum of the readings of the first `n` elements, written in both ways.
proof fn lemma_g1_total_is_reading_total(m: Interpretation, terms: Seq<Encoded>, n: int)
    requires
        0 <= n <= terms.len(),
    ensures
        total(g1_readings(m, terms), n) == reading_total(m.g1, terms.take(n)),
    decreases n,
{
    let f = g1_readings(m, terms);
    if n > 0 {
        lemma_g1_total_is_reading_total(m, terms, n - 1);
        assert(terms.take(n).drop_last() =~= terms.take(n - 1));
    } else {
    }
}

/// In the first scheme, the order in which the shares are combined does not
/// change what verification says of the combination.
///
/// This is stated of every reading of the encodings under which the
/// operations of the curve library are those of a bilinear group.
pub proof fn lemma_bdn_combination_order(
    m: Interpretation,
    message: Seq<u8>,
    shares: Seq<Encoded>,
    permuted: Seq<Encoded>,
    apk: Encoded,
)
    requires
        bilinear(m),
        shares.len() > 0,
        permuted.to_multiset() == shares.to_multiset(),
    ensures
        bdn_verify_spec(message, g1_sum(permuted), apk) == bdn_verify_spec(
            message,
            g1_sum(shares),
            apk,
        ),
{
    shares.to_multiset_ensures();
    permuted.to_multiset_ensures();
    let n = shares.len() as int;
    let h = (m.g1)(hash_to_g1_spec(message));
    let g = (m.g2)(read_from(g2_generator_spec()));
    let b = (m.g2)(apk);

    // both sums read the same
    let x = (m.g1)(g1_sum(shares));
    let y = (m.g1)(g1_sum(permuted));
    let tx = total(g1_readings(m, shares), n);
    let ty = total(g1_readings(m, permuted), n);
    assert(shares.take(n) =~= shares);
    assert(permuted.take(n) =~= permuted);
    lemma_g1_sum_reading(m, shares, n);
    lemma_g1_sum_reading(m, permuted, n);
    lemma_g1_total_is_reading_total(m, shares, n);
    lemma_g1_total_is_reading_total(m, permuted, n);
    lemma_reading_total_permutation(m.g1, permuted, shares);
    lemma_congruent_sym(y, ty);
    lemma_congruent_trans(x, tx, y);

    // and so do the two products
    let nx = (m.g1)(g1_neg_spec(g1_sum(shares)));
    let ny = (m.g1)(g1_neg_spec(g1_sum(permuted)));
    lemma_congruent_neg(x, y);
    lemma_congruent_sym(ny, -y);
    lemma_congruent_trans(nx, -x, -y);
    lemma_congruent_trans(nx, -y, ny);
    lemma_congruent_scale(nx, ny, g);

    let none = Seq::<(Encoded, Encoded)>::empty();
    let px1 = none.push((read_from(g2_generator_spec()), g1_neg_spec(g1_sum(shares))));
    let py1 = none.push((read_from(g2_generator_spec()), g1_neg_spec(g1_sum(permuted))));
    lemma_accumulated_push(none, read_from(g2_generator_spec()), g1_neg_spec(g1_sum(shares)));
    lemma_accumulated_push(none, read_from(g2_generator_spec()), g1_neg_spec(g1_sum(permuted)));
    lemma_accumulated_push(px1, apk, hash_to_g1_spec(message));
    lemma_accumulated_push(py1, apk, hash_to_g1_spec(message));
    let acc0 = accumulated(none);
    let accx1 = miller_another_spec(acc0, read_from(g2_generator_spec()), g1_neg_spec(g1_sum(shares)));
    let accy1 = miller_another_spec(acc0, read_from(g2_generator_spec()), g1_neg_spec(g1_sum(permuted)));
    let accx2 = miller_another_spec(accx1, apk, hash_to_g1_spec(message));
    let accy2 = miller_another_spec(accy1, apk, hash_to_g1_spec(message));
    assert(accx2 == accumulated(px1.push((apk, hash_to_g1_spec(message)))));
    assert(accy2 == accumulated(py1.push((apk, hash_to_g1_spec(message)))));
    let t0 = (m.gt)(acc0);
    let tx1 = (m.gt)(accx1);
    let ty1 = (m.gt)(accy1);
    let tx2 = (m.gt)(accx2);
    let ty2 = (m.gt)(accy2);
    lemma_congruent_refl(t0);
    lemma_congruent_add(t0, t0, g * nx, g * ny);
    lemma_congruent_trans(tx1, t0 + g * nx, t0 + g * ny);
    lemma_congruent_sym(ty1, t0 + g * ny);
    lemma_congruent_trans(tx1, t0 + g * ny, ty1);
    lemma_congruent_refl(b * h);
    lemma_congruent_add(tx1, ty1, b * h, b * h);
    lemma_congruent_trans(tx2, tx1 + b * h, ty1 + b * h);
    lemma_congruent_sym(ty2, ty1 + b * h);
    lemma_congruent_trans(tx2, ty1 + b * h, ty2);
    if congruent(tx2, 0) {
        lemma_congruent_sym(tx2, ty2);
        lemma_congruent_trans(ty2, tx2, 0);
    }
    if congruent(ty2, 0) {
        lemma_congruent_trans(tx2, ty2, 0);
    }
}

/// The exponent that signer `i` contributes in the first scheme: its secret
/// times its coefficient.
pub open spec fn bdn_exponents(set: Seq<KeyPair>) -> spec_fn(int) -> int {
    |i: int| (set[i].secret@ * bdn_coefficient(signer_keys(set), i)) as int
}

/// In the first scheme, verification accepts the combination of the shares
/// of honest signers under the aggregate of their public keys.
///
/// This is stated of every reading of the encodings under which the
/// operations of the curve library are those of a bilinear group and the
/// public key of every signer is the multiple of the generator by its
/// secret. That the curve library has such a reading is not stated anywhere
/// in this library.
pub proof fn lemma_bdn_accepts(
    m: Interpretation,
    set: Seq<KeyPair>,
    message: Seq<u8>,
    shares: Seq<Encoded>,
)
    requires
        bilinear(m),
        set.len() > 0,
        forall|i: int| 0 <= i < set.len() ==> honest_key(m, #[trigger] set[i]),
        shares.len() == set.len(),
        forall|i: int|
            0 <= i < set.len() ==> #[trigger] shares[i] == bdn_share_spec(set, message, i),
    ensures
        bdn_verify_spec(message, g1_sum(shares), bdn_aggpk_spec(signer_keys(set))),
{
    let n = set.len() as int;
    let pks = signer_keys(set);
    let h = (m.g1)(hash_to_g1_spec(message));
    let g = (m.g2)(read_from(g2_generator_spec()));
    let w = bdn_exponents(set);
    let s = total(w, n);

    // the aggregate signature reads as h * s
    assert forall|i: int| 0 <= i < shares.len() implies congruent(
        (m.g1)(#[trigger] shares[i]),
        h * w(i),
    ) by {
        let sk = set[i].secret@;
        let t = bdn_coefficient(pks, i);
        let e = (sk * t) % group_order();
        lemma_congruent_mod((sk * t) as int);
        lemma_congruent_scale(e as int, (sk * t) as int, h);
        assert((sk * t) * h == h * w(i)) by (nonlinear_arith)
            requires
                w(i) == sk * t,
        ;
        lemma_congruent_trans((m.g1)(shares[i]), e * h, h * w(i));
    }
    lemma_g1_sum_factor(m, shares, h, w);
    let sigma = g1_sum(shares);
    let a = (m.g1)(sigma);

    // the aggregate key reads as g * s
    let keys = bdn_weighted_keys(pks);
    assert forall|i: int| 0 <= i < keys.len() implies congruent(
        (m.g2)(#[trigger] keys[i]),
        g * w(i),
    ) by {
        let sk = set[i].secret@;
        let t = bdn_coefficient(pks, i);
        lemma_congruent_scale((m.g2)(pks[i]), sk * g, t as int);
        assert(t * (sk * g) == g * w(i)) by (nonlinear_arith)
            requires
                w(i) == sk * t,
        ;
        lemma_congruent_trans((m.g2)(keys[i]), t * (m.g2)(pks[i]), g * w(i));
    }
    lemma_g2_sum_factor(m, keys, g, w);
    let apk = bdn_aggpk_spec(pks);
    let b = (m.g2)(apk);

    // the product of the two pairings vanishes
    let negated = g1_neg_spec(sigma);
    let x = (m.g1)(negated);
    lemma_congruent_neg(a, h * s);
    lemma_congruent_trans(x, -a, -(h * s));
    let none = Seq::<(Encoded, Encoded)>::empty();
    let one = none.push((read_from(g2_generator_spec()), negated));
    lemma_accumulated_push(none, read_from(g2_generator_spec()), negated);
    lemma_accumulated_push(one, apk, hash_to_g1_spec(message));
    let acc0 = accumulated(none);
    let acc1 = miller_another_spec(acc0, read_from(g2_generator_spec()), negated);
    let acc2 = miller_another_spec(acc1, apk, hash_to_g1_spec(message));
    assert(acc2 == accumulated(one.push((apk, hash_to_g1_spec(message)))));
    let t0 = (m.gt)(acc0);
    let t1 = (m.gt)(acc1);
    let t2 = (m.gt)(acc2);
    lemma_congruent_scale(x, -(h * s), g);
    lemma_congruent_scale(b, g * s, h);
    lemma_congruent_add(t0, 0, g * x, g * (-(h * s)));
    lemma_congruent_trans(t1, t0 + g * x, 0 + g * (-(h * s)));
    lemma_congruent_add(t1, 0 + g * (-(h * s)), b * h, (g * s) * h);
    lemma_congruent_trans(t2, t1 + b * h, 0 + g * (-(h * s)) + (g * s) * h);
    assert(0 + g * (-(h * s)) + (g * s) * h == 0) by (nonlinear_arith);
}

/// The shares of the signers `set` on `message` in the first scheme, in the
/// order of the set.
pub open spec fn bdn_honest_shares(set: Seq<KeyPair>, message: Seq<u8>) -> Seq<Encoded> {
    Seq::new(set.len(), |i: int| bdn_share_spec(set, message, i))
}

/// In the first scheme, verification accepts the combination of the shares
/// of honest signers in whatever order they are combined.
///
/// This is stated of every reading of the encodings under which the
/// operations of the curve library are those of a bilinear group and the
/// public key of every signer is the multiple of the generator by its
/// secret.
pub proof fn lemma_bdn_accepts_in_any_order(
    m: Interpretation,
    set: Seq<KeyPair>,
    message: Seq<u8>,
    permuted: Seq<Encoded>,
)
    requires
        bilinear(m),
        set.len() > 0,
        forall|i: int| 0 <= i < set.len() ==> honest_key(m, #[trigger] set[i]),
        permuted.to_multiset() == bdn_honest_shares(set, message).to_multiset(),
    ensures
        bdn_verify_spec(message, g1_sum(permuted), bdn_aggpk_spec(signer_keys(set))),
{
    let shares = bdn_honest_shares(set, message);
    lemma_bdn_accepts(m, set, message, shares);
    lemma_bdn_combination_order(m, message, shares, permuted, bdn_aggpk_spec(signer_keys(set)));
}

/// Sums whose terms are congruent to a common factor times the terms of a
/// second sum, plus the terms of a third.
proof fn lemma_total_split(
    f: spec_fn(int) -> int,
    c: int,
    u: spec_fn(int) -> int,
    v: spec_fn(int) -> int,
    n: int,
)
    requires
        0 <= n,
        forall|i: int| 0 <= i < n ==> congruent(#[trigger] f(i), c * u(i) + v(i)),
    ensures
        congruent(total(f, n), c * total(u, n) + total(v, n)),
    decreases n,
{
    if n > 0 {
        lemma_total_split(f, c, u, v, n - 1);
        lemma_congruent_add(
            total(f, n - 1),
            c * total(u, n - 1) + total(v, n - 1),
            f(n - 1),
            c * u(n - 1) + v(n - 1),
        );
        assert(c * total(u, n - 1) + total(v, n - 1) + (c * u(n - 1) + v(n - 1)) == c * (total(
            u,
            n - 1,
        ) + u(n - 1)) + (total(v, n - 1) + v(n - 1))) by (nonlinear_arith);
    } else {
        assert(c * 0 + 0 == 0) by (nonlinear_arith);
        lemma_congruent_refl(0);
    }
}

/// The exponents of the three pairings of the second scheme add up to a
/// multiple of what the weights leave over.
proof fn lemma_three_pairings(g: int, h: int, a: int, b: int, c: int, s0: int)
    ensures
        0 + g * (-(h * a + s0 * h)) + (g * b) * (s0 * h) + (g * c + s0 * g) * h == (g * h) * (s0
            * b + c - a),
{
    let gh = g * h;
    let pa = gh * a;
    let ps = gh * s0;
    let pb = gh * (s0 * b);
    let pc = gh * c;
    assert(g * (-(h * a + s0 * h)) == -pa - ps) by (nonlinear_arith)
        requires
            gh == g * h,
            pa == gh * a,
            ps == gh * s0,
    ;
    assert((g * b) * (s0 * h) == pb) by (nonlinear_arith)
        requires
            gh == g * h,
            pb == gh * (s0 * b),
    ;
    assert((g * c + s0 * g) * h == pc + ps) by (nonlinear_arith)
        requires
            gh == g * h,
            pc == gh * c,
            ps == gh * s0,
    ;
    assert(gh * (s0 * b + c - a) == pb + pc - pa) by (nonlinear_arith)
        requires
            pa == gh * a,
            pb == gh * (s0 * b),
            pc == gh * c,
    ;
}

/// The secrets of the signers, by position.
pub open spec fn our_secrets(set: Seq<KeyPair>) -> spec_fn(int) -> int {
    |i: int| set[i].secret@ as int
}

/// The exponent that signer `i` contributes to the second part of the
/// aggregate key in the second scheme: its secret times the weight of its
/// key.
pub open spec fn our_key_exponents(set: Seq<KeyPair>, start: nat) -> spec_fn(int) -> int {
    |i: int| (our_key_weight(start, i) * set[i].secret@) as int
}

/// The exponent that signer `i` contributes to the first part of the
/// aggregate signature in the second scheme: its secret times the weight of
/// its share.
pub open spec fn our_share_exponents(set: Seq<KeyPair>, start: nat) -> spec_fn(int) -> int {
    |i: int| (our_share_weight(set[0].secret@, start, i) * set[i].secret@) as int
}

/// The weight of a share is the first signer's secret plus the weight of the
/// key of the same signer, modulo the group order: the coupling on which the
/// second scheme rests.
pub proof fn lemma_our_weight_coupling(sk0: nat, start: nat, i: int)
    requires
        0 <= i,
    ensures
        congruent(
            our_share_weight(sk0, start, i) as int,
            (sk0 + our_key_weight(start, i)) as int,
        ),
{
    lemma_congruent_mod(sk0 + start + i + 1);
    lemma_congruent_mod(start + i + 1);
    lemma_congruent_refl(sk0 as int);
    lemma_congruent_add(sk0 as int, sk0 as int, start + i + 1, our_key_weight(start, i) as int);
    lemma_congruent_trans(
        our_share_weight(sk0, start, i) as int,
        sk0 + start + i + 1,
        (sk0 + our_key_weight(start, i)) as int,
    );
}

/// In the second scheme, verification accepts the combination of the shares
/// of honest signers under the aggregate of their public keys, whatever
/// scalar the combiner and the aggregation both start from.
///
/// This is stated of every reading of the encodings under which the
/// operations of the curve library are those of a bilinear group and the
/// public key of every signer is the multiple of the generator by its
/// secret. That the curve library has such a reading is not stated anywhere
/// in this library.
pub proof fn lemma_our_accepts(
    m: Interpretation,
    set: Seq<KeyPair>,
    message: Seq<u8>,
    shares: Seq<Encoded>,
    start: nat,
)
    requires
        bilinear(m),
        set.len() > 0,
        forall|i: int| 0 <= i < set.len() ==> honest_key(m, #[trigger] set[i]),
        shares.len() == set.len(),
        forall|i: int|
            0 <= i < set.len() ==> #[trigger] shares[i] == read_from(
                core_sign_spec(message, set[i].secret@),
            ),
    ensures
        our_verify_spec(
            message,
            our_s1_spec(shares, set[0].secret@, start),
            shares[0],
            our_k1_spec(signer_keys(set)),
            our_k2_spec(signer_keys(set), start),
        ),
{
    let n = set.len() as int;
    let pks = signer_keys(set);
    let h = (m.g1)(hash_to_g1_spec(message));
    let g = (m.g2)(read_from(g2_generator_spec()));
    let sk0 = set[0].secret@;
    let s0 = sk0 as int;
    let aw = our_share_exponents(set, start);
    let bw = our_secrets(set);
    let cw = our_key_exponents(set, start);
    let a = total(aw, n);
    let b = total(bw, n);
    let c = total(cw, n);

    // every share reads as its signer's secret times h
    assert forall|i: int| 0 <= i < n implies congruent(
        (m.g1)(#[trigger] shares[i]),
        set[i].secret@ * h,
    ) by {
    }

    // the first part of the signature reads as h * a
    let weighted = our_weighted_shares(shares, sk0, start);
    assert forall|i: int| 0 <= i < weighted.len() implies congruent(
        (m.g1)(#[trigger] weighted[i]),
        h * aw(i),
    ) by {
        let e = our_share_weight(sk0, start, i);
        let si = set[i].secret@;
        lemma_congruent_scale((m.g1)(shares[i]), si * h, e as int);
        assert(e * (si * h) == h * aw(i)) by (nonlinear_arith)
            requires
                aw(i) == e * si,
        ;
        lemma_congruent_trans((m.g1)(weighted[i]), e * (m.g1)(shares[i]), h * aw(i));
    }
    lemma_g1_sum_factor(m, weighted, h, aw);
    let s1 = our_s1_spec(shares, sk0, start);
    let s2 = shares[0];
    let x1 = (m.g1)(s1);
    let x2 = (m.g1)(s2);

    // the first part of the key reads as g * b
    assert forall|i: int| 0 <= i < pks.len() implies congruent(
        (m.g2)(#[trigger] pks[i]),
        g * bw(i),
    ) by {
        assert(set[i].secret@ * g == g * bw(i)) by (nonlinear_arith)
            requires
                bw(i) == set[i].secret@,
        ;
    }
    lemma_g2_sum_factor(m, pks, g, bw);
    let k1 = our_k1_spec(pks);
    let y1 = (m.g2)(k1);

    // the second part of the key reads as g * c + s0 * g
    let keys = our_weighted_keys(pks, start);
    assert forall|i: int| 0 <= i < keys.len() implies congruent(
        (m.g2)(#[trigger] keys[i]),
        g * cw(i),
    ) by {
        let e = our_key_weight(start, i);
        let si = set[i].secret@;
        lemma_congruent_scale((m.g2)(pks[i]), si * g, e as int);
        assert(e * (si * g) == g * cw(i)) by (nonlinear_arith)
            requires
                cw(i) == e * si,
        ;
        lemma_congruent_trans((m.g2)(keys[i]), e * (m.g2)(pks[i]), g * cw(i));
    }
    lemma_g2_sum_factor(m, keys, g, cw);
    let inner = g2_sum(keys);
    let k2 = our_k2_spec(pks, start);
    let y2 = (m.g2)(k2);
    lemma_congruent_add((m.g2)(inner), g * c, (m.g2)(pks[0]), s0 * g);
    lemma_congruent_trans(y2, (m.g2)(inner) + (m.g2)(pks[0]), g * c + s0 * g);

    // a is congruent to s0 * b + c
    assert forall|i: int| 0 <= i < n implies congruent(#[trigger] aw(i), s0 * bw(i) + cw(i)) by {
        let e = our_share_weight(sk0, start, i) as int;
        let k = our_key_weight(start, i) as int;
        let si = set[i].secret@ as int;
        lemma_our_weight_coupling(sk0, start, i);
        lemma_congruent_scale(e, s0 + k, si);
        assert((s0 + k) * si == s0 * bw(i) + cw(i)) by (nonlinear_arith)
            requires
                bw(i) == si,
                cw(i) == k * si,
        ;
    }
    lemma_total_split(aw, s0, bw, cw, n);
    let rest = s0 * b + c - a;
    lemma_congruent_sym(a, s0 * b + c);
    lemma_congruent_refl(-a);
    lemma_congruent_add(s0 * b + c, a, -a, -a);

    // the product of the three pairings vanishes
    let both = g1_add_spec(s1, s2);
    let negated = g1_neg_spec(both);
    let xb = (m.g1)(both);
    let xn = (m.g1)(negated);
    lemma_congruent_add(x1, h * a, x2, s0 * h);
    lemma_congruent_trans(xb, x1 + x2, h * a + s0 * h);
    lemma_congruent_neg(xb, h * a + s0 * h);
    lemma_congruent_trans(xn, -xb, -(h * a + s0 * h));

    let none = Seq::<(Encoded, Encoded)>::empty();
    let one = none.push((read_from(g2_generator_spec()), negated));
    let two = one.push((k1, s2));
    lemma_accumulated_push(none, read_from(g2_generator_spec()), negated);
    lemma_accumulated_push(one, k1, s2);
    lemma_accumulated_push(two, k2, hash_to_g1_spec(message));
    let acc0 = accumulated(none);
    let acc1 = miller_another_spec(acc0, read_from(g2_generator_spec()), negated);
    let acc2 = miller_another_spec(acc1, k1, s2);
    let acc3 = miller_another_spec(acc2, k2, hash_to_g1_spec(message));
    assert(acc3 == accumulated(two.push((k2, hash_to_g1_spec(message)))));
    let t0 = (m.gt)(acc0);
    let t1 = (m.gt)(acc1);
    let t2 = (m.gt)(acc2);
    let t3 = (m.gt)(acc3);

    let e1 = g * (-(h * a + s0 * h));
    let e2 = (g * b) * (s0 * h);
    let e3 = (g * c + s0 * g) * h;
    lemma_congruent_scale(xn, -(h * a + s0 * h), g);
    lemma_congruent_add(t0, 0, g * xn, e1);
    lemma_congruent_trans(t1, t0 + g * xn, 0 + e1);

    lemma_congruent_scale(y1, g * b, x2);
    lemma_congruent_scale(x2, s0 * h, g * b);
    lemma_congruent_trans(y1 * x2, (g * b) * x2, e2);
    lemma_congruent_add(t1, 0 + e1, y1 * x2, e2);
    lemma_congruent_trans(t2, t1 + y1 * x2, 0 + e1 + e2);

    lemma_congruent_scale(y2, g * c + s0 * g, h);
    lemma_congruent_add(t2, 0 + e1 + e2, y2 * h, e3);
    lemma_congruent_trans(t3, t2 + y2 * h, 0 + e1 + e2 + e3);

    lemma_three_pairings(g, h, a, b, c, s0);
    lemma_congruent_scale(rest, 0, g * h);
    assert((g * h) * 0 == 0) by (nonlinear_arith);
    lemma_congruent_trans(t3, (g * h) * rest, 0);
}

/// Whether every key pair that key generation gives has, under the reading
/// `m`, as its public key the multiple of the generator by its secret.
pub open spec fn honest_generation(m: Interpretation) -> bool {
    forall|ikm: Seq<u8>| #[trigger]
        keygen_ok(ikm) ==> congruent(
            (m.g2)(read_from(key_pair_generate_spec(ikm).2)),
            be_nat(key_pair_generate_spec(ikm).1) * (m.g2)(read_from(g2_generator_spec())),
        )
}

/// A key pair generated from keying material is honest.
proof fn lemma_generated_key_is_honest(m: Interpretation, pair: KeyPair, ikm: Seq<u8>)
    requires
        honest_generation(m),
        keygen_ok(ikm),
        generated_from(pair, ikm),
    ensures
        honest_key(m, pair),
{
}

/// Every run of the first scheme ends with a signature that verifies.
///
/// This is stated of every reading of the encodings under which the
/// operations of the curve library are those of a bilinear group and key
/// generation gives the multiple of the generator by the secret. That the
/// curve library has such a reading is not stated anywhere in this library.
pub proof fn lemma_bdn_round_verifies(
    m: Interpretation,
    round: BdnRound,
    seeds: Seq<[u8; IKM_LEN]>,
    message: Seq<u8>,
)
    requires
        bilinear(m),
        honest_generation(m),
        seeds.len() > 0,
        all_keygen_ok(seeds),
        bdn_round_spec(round, seeds, message),
    ensures
        round.verified,
{
    let set = round.signers@;
    let shares = g1_encodings(round.shares@);
    assert forall|i: int| 0 <= i < set.len() implies honest_key(m, #[trigger] set[i]) by {
        lemma_generated_key_is_honest(m, set[i], seeds[i]@);
    }
    assert forall|i: int| 0 <= i < set.len() implies #[trigger] shares[i] == bdn_share_spec(
        set,
        message,
        i,
    ) by {
    }
    lemma_bdn_accepts(m, set, message, shares);
}

/// Every run of the second scheme ends with a signature that verifies,
/// whatever the truncation length.
///
/// This is stated of every reading of the encodings under which the
/// operations of the curve library are those of a bilinear group and key
/// generation gives the multiple of the generator by the secret. That the
/// curve library has such a reading is not stated anywhere in this library.
pub proof fn lemma_our_round_verifies(
    m: Interpretation,
    round: OurRound,
    seeds: Seq<[u8; IKM_LEN]>,
    message: Seq<u8>,
    ell: usize,
)
    requires
        bilinear(m),
        honest_generation(m),
        seeds.len() > 0,
        all_keygen_ok(seeds),
        our_round_spec(round, seeds, message, ell),
    ensures
        round.verified,
{
    let set = round.signers@;
    let shares = g1_encodings(round.shares@);
    let start = our_start_spec(round.shares@[0]@.1, ell);
    assert forall|i: int| 0 <= i < set.len() implies honest_key(m, #[trigger] set[i]) by {
        lemma_generated_key_is_honest(m, set[i], seeds[i]@);
    }
    assert forall|i: int| 0 <= i < set.len() implies #[trigger] shares[i] == read_from(
        core_sign_spec(message, set[i].secret@),
    ) by {
    }
    lemma_our_accepts(m, set, message, shares, start);
}

} // verus!
