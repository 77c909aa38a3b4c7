//! The product of pairings, computed slot by slot in a multi-pairing
//! accumulator and finished by one final exponentiation.
//!
//! Elements of the target group are held as their `GTS`-byte encodings. What
//! `miracl_core` computes of them is named here, encoding to encoding.

use vstd::prelude::*;
use miracl_core::bls12381::ecp::ECP;
use miracl_core::bls12381::ecp2::ECP2;
use miracl_core::bls12381::fp12::FP12;
use miracl_core::bls12381::pair;
use crate::bytes::{be_nat, lemma_be_nat_zeros, zeros};
use crate::group::{Encoded, G1Point, G2Point};
use crate::params::{field_modulus, is_compressed_tag, ATE_BITS, BFS, G1S, G2S, GTS};

verus! {

/// The slots that `pair::another` leaves, from the slots `acc`, for the pair
/// of the element `q` of the long group and the element `p` of the short
/// group.
pub uninterp spec fn miller_another_spec(acc: Seq<Seq<u8>>, q: Encoded, p: Encoded) -> Seq<
    Seq<u8>,
>;

/// The value that `pair::miller` folds the slots `acc` into.
pub uninterp spec fn miller_spec(acc: Seq<Seq<u8>>) -> Seq<u8>;

/// The value that `pair::fexp`, the final exponentiation, makes of `m`.
pub uninterp spec fn fexp_spec(m: Seq<u8>) -> Seq<u8>;

/// Coordinate `k` of the twelve that the encoding `m` of an element of the
/// target group holds, as a number modulo the field modulus.
pub open spec fn gt_coordinate(m: Seq<u8>, k: int) -> nat {
    be_nat(m.subrange(k * BFS, (k + 1) * BFS)) % field_modulus()
}

/// Whether `m` encodes the identity of the target group: the last of its
/// twelve coordinates is one and the others are zero, modulo the field
/// modulus.
pub open spec fn gt_is_one(m: Seq<u8>) -> bool {
    forall|k: int|
        0 <= k < 12 ==> #[trigger] gt_coordinate(m, k) == if k == 11 {
            1nat
        } else {
            0nat
        }
}

/// The encoding of the identity of the target group: the number one in the
/// last of its twelve coordinates, zero in the others.
pub open spec fn gt_one() -> Seq<u8> {
    zeros((GTS - 1) as nat).push(1u8)
}

/// The encoding of the identity, which every slot of a fresh accumulator
/// holds, is one that the test for the identity accepts.
pub proof fn lemma_gt_one_is_one()
    ensures
        gt_is_one(gt_one()),
{
    assert forall|k: int| 0 <= k < 12 implies #[trigger] gt_coordinate(gt_one(), k) == if k
        == 11 {
        1nat
    } else {
        0nat
    } by {
        let part = gt_one().subrange(k * BFS, (k + 1) * BFS);
        if k < 11 {
            assert(part =~= zeros(BFS as nat));
            lemma_be_nat_zeros(BFS as nat);
        } else {
            assert(part.drop_last() =~= zeros((BFS - 1) as nat));
            lemma_be_nat_zeros((BFS - 1) as nat);
            assert(part.last() == 1u8);
            assert(be_nat(part) == 1);
        }
    }
}

/// The slots of an accumulator that holds no pair yet.
pub open spec fn fresh_accumulator() -> Seq<Seq<u8>> {
    Seq::new(ATE_BITS as nat, |i: int| gt_one())
}

/// The slots of an accumulator, each as its bytes.
pub open spec fn rows(slots: Seq<[u8; GTS]>) -> Seq<Seq<u8>> {
    Seq::new(slots.len(), |i: int| slots[i]@)
}

/// Whether the product of the pairings accumulated in `acc` is the identity
/// of the target group.
pub open spec fn product_is_one(acc: Seq<Seq<u8>>) -> bool {
    gt_is_one(fexp_spec(miller_spec(acc)))
}

/// `pair::initmp`, each slot written by `FP12::tobytes`: `ATE_BITS` slots
/// that each hold the identity, `FP12::new_int(1)`.
#[verifier::external_body]
fn pair_initmp() -> (slots: Vec<[u8; GTS]>)
    ensures
        rows(slots@) == fresh_accumulator(),
{
    let mut r = pair::initmp();
    let mut slots = vec![[0u8; GTS]; ATE_BITS];
    for i in 0..ATE_BITS {
        r[i].tobytes(&mut slots[i]);
    }
    slots
}

/// `pair::another` on slots read by `FP12::frombytes` and two elements, the
/// slots written out by `FP12::tobytes`. An element is read by
/// `ECP2::frombytes` or `ECP::frombytes` and, where it is the identity,
/// replaced through `cmove` by the point at infinity that `new` gives.
/// `pair::another` indexes `ATE_BITS` slots.
#[verifier::external_body]
fn pair_another(
    slots: &Vec<[u8; GTS]>,
    q_inf: bool,
    q: &[u8; G2S],
    p_inf: bool,
    p: &[u8; G1S],
) -> (next: Vec<[u8; GTS]>)
    requires
        slots@.len() == ATE_BITS,
        is_compressed_tag(q@[0]),
        is_compressed_tag(p@[0]),
    ensures
        rows(next@) == miller_another_spec(rows(slots@), (q_inf, q@), (p_inf, p@)),
        next@.len() == ATE_BITS,
{
    let mut r = [FP12::new(); ATE_BITS];
    for i in 0..ATE_BITS {
        r[i] = FP12::frombytes(&slots[i]);
    }
    let mut x = ECP2::frombytes(q);
    x.cmove(&ECP2::new(), q_inf as isize);
    let mut y = ECP::frombytes(p);
    y.cmove(&ECP::new(), p_inf as isize);
    pair::another(&mut r, &x, &y);
    let mut next = vec![[0u8; GTS]; ATE_BITS];
    for i in 0..ATE_BITS {
        r[i].tobytes(&mut next[i]);
    }
    next
}

/// `pair::miller` on slots read by `FP12::frombytes`, its value written by
/// `FP12::tobytes`. It indexes `ATE_BITS` slots.
#[verifier::external_body]
fn pair_miller(slots: &Vec<[u8; GTS]>) -> (m: [u8; GTS])
    requires
        slots@.len() == ATE_BITS,
    ensures
        m@ == miller_spec(rows(slots@)),
{
    let mut r = [FP12::new(); ATE_BITS];
    for i in 0..ATE_BITS {
        r[i] = FP12::frombytes(&slots[i]);
    }
    let mut m = [0u8; GTS];
    pair::miller(&mut r).tobytes(&mut m);
    m
}

/// `pair::fexp` on a value read by `FP12::frombytes`, written back by
/// `FP12::tobytes`.
#[verifier::external_body]
fn pair_fexp(m: &[u8; GTS]) -> (v: [u8; GTS])
    ensures
        v@ == fexp_spec(m@),
{
    let mut v = [0u8; GTS];
    pair::fexp(&FP12::frombytes(m)).tobytes(&mut v);
    v
}

/// `FP12::isunity` on a value read by `FP12::frombytes`, which reads twelve
/// coordinates of `BFS` bytes each and takes each modulo the field modulus:
/// whether the last is one and the others are zero.
#[verifier::external_body]
fn fp12_isunity(m: &[u8; GTS]) -> (one: bool)
    ensures
        one == gt_is_one(m@),
{
    FP12::frombytes(m).isunity()
}

/// A multi-pairing accumulator: the pairs handed to it so far, multiplied
/// into `ATE_BITS` slots of the target group.
pub struct Accumulator {
    slots: Vec<[u8; GTS]>,
}

impl View for Accumulator {
    type V = Seq<Seq<u8>>;

    /// The slots, each as its bytes.
    closed spec fn view(&self) -> Seq<Seq<u8>> {
        rows(self.slots@)
    }
}

impl Accumulator {
    #[verifier::type_invariant]
    spec fn well_formed(self) -> bool {
        self.slots@.len() == ATE_BITS
    }

    /// An accumulator that holds no pair.
    pub fn new() -> (acc: Accumulator)
        ensures
            acc@ == fresh_accumulator(),
    {
        let slots = pair_initmp();
        assert(rows(slots@).len() == ATE_BITS);
        Accumulator { slots }
    }

    /// The slots of the accumulator, each as its bytes.
    pub fn to_rows(&self) -> (slots: Vec<[u8; GTS]>)
        ensures
            rows(slots@) == self@,
    {
        let mut slots: Vec<[u8; GTS]> = Vec::new();
        let mut i: usize = 0;
        while i < self.slots.len()
            invariant
                i <= self.slots@.len(),
                slots@.len() == i,
                forall|j: int| 0 <= j < i ==> slots@[j] == self.slots@[j],
            decreases self.slots@.len() - i,
        {
            slots.push(self.slots[i]);
            i = i + 1;
        }
        slots
    }

    /// Multiplies the pairing of `q` and `p` into the accumulator.
    pub fn another(&mut self, q: &G2Point, p: &G1Point)
        ensures
            final(self)@ == miller_another_spec(old(self)@, q@, p@),
    {
        proof {
            use_type_invariant(&*self);
        }
        let qb = q.to_bytes();
        let pb = p.to_bytes();
        self.slots = pair_another(&self.slots, q.is_identity(), &qb, p.is_identity(), &pb);
    }

    /// Finishes the product with the Miller fold and one final
    /// exponentiation, and tells whether it is the identity.
    pub fn is_one(&self) -> (one: bool)
        ensures
            one == product_is_one(self@),
    {
        proof {
            use_type_invariant(self);
        }
        let m = pair_miller(&self.slots);
        let v = pair_fexp(&m);
        fp12_isunity(&v)
    }
}

} // verus!
