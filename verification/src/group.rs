//! Elements of the two signature groups, held as compressed encodings.
//!
//! The short group holds signatures and message points, the long group
//! public keys. An element is its tag byte, `TAG_EVEN` or `TAG_ODD`, followed
//! by its x-coordinate. The identity has no encoding of its own: an element
//! that the curve library computed says beside its bytes whether it is the
//! identity. The group law is computed by `miracl_core`; what it returns is
//! named here, element to element.

use vstd::prelude::*;
use miracl_core::bls12381::bls;
use miracl_core::bls12381::ecp::ECP;
use miracl_core::bls12381::ecp2::ECP2;
use miracl_core::bls12381::pair;
use miracl_core::bls12381::big::BIG;
use crate::error::MsError;
use crate::bytes::be_nat;
use crate::params::{
    field_modulus, is_compressed_tag, BFS, BGS, G1S, G2S, MAX_HASH_INPUT, TAG_EVEN, TAG_ODD,
};
use crate::scalar::{big_field_modulus, Scalar};

verus! {

/// An element as the contracts speak of it: whether it is the identity, and
/// its compressed encoding, which counts only where it is not.
pub type Encoded = (bool, Seq<u8>);

/// The sum that `ECP::add` computes of the elements `a` and `b` of the short
/// group.
pub uninterp spec fn g1_add_spec(a: Encoded, b: Encoded) -> Encoded;

/// The element that `ECP::neg` makes of the element `a` of the short group.
pub uninterp spec fn g1_neg_spec(a: Encoded) -> Encoded;

/// The multiple that `pair::g1mul` computes of the element `p` of the short
/// group, by the scalar of value `e`.
pub uninterp spec fn g1_mul_spec(p: Encoded, e: nat) -> Encoded;

/// Whether `ECP::frombytes` reads the point at infinity from `a`, which it
/// does where `a` holds no point of the curve.
pub uninterp spec fn g1_reads_infinity_spec(a: Seq<u8>) -> bool;

/// The element of the short group that `bls::bls_hash_to_point` maps `msg`
/// to.
pub uninterp spec fn hash_to_g1_spec(msg: Seq<u8>) -> Encoded;

/// The signature that `bls::core_sign` makes of `msg` under the secret of
/// value `sk`.
pub uninterp spec fn core_sign_spec(msg: Seq<u8>, sk: nat) -> Seq<u8>;

/// The sum that `ECP2::add` computes of the elements `a` and `b` of the long
/// group.
pub uninterp spec fn g2_add_spec(a: Encoded, b: Encoded) -> Encoded;

/// The multiple that `ECP2::mul` computes of the element `p` of the long
/// group, by the scalar of value `e`.
pub uninterp spec fn g2_mul_spec(p: Encoded, e: nat) -> Encoded;

/// The multiple that `pair::g2mul` computes of the element `p` of the long
/// group, by the scalar of value `e`.
pub uninterp spec fn g2_pair_mul_spec(p: Encoded, e: nat) -> Encoded;

/// Whether `ECP2::frombytes` reads the point at infinity from `a`, which it
/// does where `a` holds no point of the curve.
pub uninterp spec fn g2_reads_infinity_spec(a: Seq<u8>) -> bool;

/// The element read from the bytes `b`: not the identity.
pub open spec fn read_from(b: Seq<u8>) -> Encoded {
    (false, b)
}

/// The compressed encoding of the generator of the long group: the tag for
/// an odd y-coordinate, then the imaginary and the real part of the
/// x-coordinate.
pub open spec fn g2_generator_spec() -> Seq<u8> {
    seq![
        0x03u8, 0x13, 0xe0, 0x2b, 0x60, 0x52, 0x71, 0x9f, 0x60, 0x7d, 0xac, 0xd3, 0xa0, 0x88, 0x27,
        0x4f, 0x65, 0x59, 0x6b, 0xd0, 0xd0, 0x99, 0x20, 0xb6, 0x1a, 0xb5, 0xda, 0x61, 0xbb, 0xdc,
        0x7f, 0x50, 0x49, 0x33, 0x4c, 0xf1, 0x12, 0x13, 0x94, 0x5d, 0x57, 0xe5, 0xac, 0x7d, 0x05,
        0x5d, 0x04, 0x2b, 0x7e, 0x02, 0x4a, 0xa2, 0xb2, 0xf0, 0x8f, 0x0a, 0x91, 0x26, 0x08, 0x05,
        0x27, 0x2d, 0xc5, 0x10, 0x51, 0xc6, 0xe4, 0x7a, 0xd4, 0xfa, 0x40, 0x3b, 0x02, 0xb4, 0x51,
        0x0b, 0x64, 0x7a, 0xe3, 0xd1, 0x77, 0x0b, 0xac, 0x03, 0x26, 0xa8, 0x05, 0xbb, 0xef, 0xd4,
        0x80, 0x56, 0xc8, 0xc1, 0x21, 0xbd, 0xb8,
    ]
}

/// `ECP2::generator`, written by `ECP2::tobytes` in compressed form: the
/// fixed generator of the long group, whose coordinates are the constants
/// `CURVE_PXA`, `CURVE_PXB`, `CURVE_PYA` and `CURVE_PYB` of `rom`.
#[verifier::external_body]
fn ecp2_generator() -> (r: [u8; G2S])
    ensures
        r@ == g2_generator_spec(),
        is_compressed_tag(r@[0]),
{
    let mut r = [0u8; G2S];
    ECP2::generator().tobytes(&mut r, true);
    r
}

/// `ECP::add` on two elements, the sum written by `ECP::tobytes` in
/// compressed form, which starts with one of the two tags, and told by
/// `ECP::is_infinity` to be the identity or not. An element is read by
/// `ECP::frombytes` and, where it is the identity, replaced through
/// `ECP::cmove` by the point at infinity that `ECP::new` gives. A tag `0x04`
/// would make `frombytes` read past the 49 bytes.
#[verifier::external_body]
fn ecp_add(a_inf: bool, a: &[u8; G1S], b_inf: bool, b: &[u8; G1S]) -> (r: (bool, [u8; G1S]))
    requires
        is_compressed_tag(a@[0]),
        is_compressed_tag(b@[0]),
    ensures
        (r.0, r.1@) == g1_add_spec((a_inf, a@), (b_inf, b@)),
        is_compressed_tag(r.1@[0]),
{
    let mut x = ECP::frombytes(a);
    x.cmove(&ECP::new(), a_inf as isize);
    let mut y = ECP::frombytes(b);
    y.cmove(&ECP::new(), b_inf as isize);
    x.add(&y);
    let mut r = [0u8; G1S];
    x.tobytes(&mut r, true);
    (x.is_infinity(), r)
}

/// `ECP::neg` on an element, read and written as for `ECP::add`.
#[verifier::external_body]
fn ecp_neg(a_inf: bool, a: &[u8; G1S]) -> (r: (bool, [u8; G1S]))
    requires
        is_compressed_tag(a@[0]),
    ensures
        (r.0, r.1@) == g1_neg_spec((a_inf, a@)),
        is_compressed_tag(r.1@[0]),
{
    let mut x = ECP::frombytes(a);
    x.cmove(&ECP::new(), a_inf as isize);
    x.neg();
    let mut r = [0u8; G1S];
    x.tobytes(&mut r, true);
    (x.is_infinity(), r)
}

/// `pair::g1mul` on an element, read and written as for `ECP::add`, and a
/// scalar read by `BIG::frombytes`.
#[verifier::external_body]
fn pair_g1mul(p_inf: bool, p: &[u8; G1S], e: &Scalar) -> (r: (bool, [u8; G1S]))
    requires
        is_compressed_tag(p@[0]),
    ensures
        (r.0, r.1@) == g1_mul_spec((p_inf, p@), e@),
        is_compressed_tag(r.1@[0]),
{
    let mut x = ECP::frombytes(p);
    x.cmove(&ECP::new(), p_inf as isize);
    let y = pair::g1mul(&x, &BIG::frombytes(&e.bytes));
    let mut r = [0u8; G1S];
    y.tobytes(&mut r, true);
    (y.is_infinity(), r)
}

/// `ECP::is_infinity` on the point that `ECP::frombytes` reads.
#[verifier::external_body]
fn ecp_reads_infinity(a: &[u8; G1S]) -> (inf: bool)
    requires
        is_compressed_tag(a@[0]),
    ensures
        inf == g1_reads_infinity_spec(a@),
{
    ECP::frombytes(a).is_infinity()
}

/// `bls::bls_hash_to_point`, the point written by `ECP::tobytes` in
/// compressed form and told by `ECP::is_infinity` to be the identity or not.
/// The message goes through the hash and is bounded as the input of the hash
/// is.
#[verifier::external_body]
fn bls_hash_to_point(msg: &[u8]) -> (r: (bool, [u8; G1S]))
    requires
        msg@.len() <= MAX_HASH_INPUT,
    ensures
        (r.0, r.1@) == hash_to_g1_spec(msg@),
        is_compressed_tag(r.1@[0]),
{
    let x = bls::bls_hash_to_point(msg);
    let mut r = [0u8; G1S];
    x.tobytes(&mut r, true);
    (x.is_infinity(), r)
}

/// `bls::core_sign`: the signature of `msg` under the secret `sk`, the bytes
/// of a compressed point of the short group. The status that it returns is
/// always `BLS_OK` and is dropped.
#[verifier::external_body]
fn bls_core_sign(msg: &[u8], sk: &Scalar) -> (r: [u8; G1S])
    requires
        msg@.len() <= MAX_HASH_INPUT,
    ensures
        r@ == core_sign_spec(msg@, sk@),
        is_compressed_tag(r@[0]),
{
    let mut r = [0u8; G1S];
    bls::core_sign(&mut r, msg, &sk.bytes);
    r
}

/// `ECP2::add` on two elements, the sum written by `ECP2::tobytes` in
/// compressed form, which starts with one of the two tags, and told by
/// `ECP2::is_infinity` to be the identity or not. An element is read by
/// `ECP2::frombytes` and, where it is the identity, replaced through
/// `ECP2::cmove` by the point at infinity that `ECP2::new` gives. A tag
/// `0x04` would make `frombytes` read past the 97 bytes.
#[verifier::external_body]
fn ecp2_add(a_inf: bool, a: &[u8; G2S], b_inf: bool, b: &[u8; G2S]) -> (r: (bool, [u8; G2S]))
    requires
        is_compressed_tag(a@[0]),
        is_compressed_tag(b@[0]),
    ensures
        (r.0, r.1@) == g2_add_spec((a_inf, a@), (b_inf, b@)),
        is_compressed_tag(r.1@[0]),
{
    let mut x = ECP2::frombytes(a);
    x.cmove(&ECP2::new(), a_inf as isize);
    let mut y = ECP2::frombytes(b);
    y.cmove(&ECP2::new(), b_inf as isize);
    x.add(&y);
    let mut r = [0u8; G2S];
    x.tobytes(&mut r, true);
    (x.is_infinity(), r)
}

/// `ECP2::mul` on an element, read and written as for `ECP2::add`, and a
/// scalar read by `BIG::frombytes`.
#[verifier::external_body]
fn ecp2_mul(p_inf: bool, p: &[u8; G2S], e: &Scalar) -> (r: (bool, [u8; G2S]))
    requires
        is_compressed_tag(p@[0]),
    ensures
        (r.0, r.1@) == g2_mul_spec((p_inf, p@), e@),
        is_compressed_tag(r.1@[0]),
{
    let mut x = ECP2::frombytes(p);
    x.cmove(&ECP2::new(), p_inf as isize);
    let y = x.mul(&BIG::frombytes(&e.bytes));
    let mut r = [0u8; G2S];
    y.tobytes(&mut r, true);
    (y.is_infinity(), r)
}

/// `pair::g2mul` on an element, read and written as for `ECP2::add`, and a
/// scalar read by `BIG::frombytes`.
#[verifier::external_body]
fn pair_g2mul(p_inf: bool, p: &[u8; G2S], e: &Scalar) -> (r: (bool, [u8; G2S]))
    requires
        is_compressed_tag(p@[0]),
    ensures
        (r.0, r.1@) == g2_pair_mul_spec((p_inf, p@), e@),
        is_compressed_tag(r.1@[0]),
{
    let mut x = ECP2::frombytes(p);
    x.cmove(&ECP2::new(), p_inf as isize);
    let y = pair::g2mul(&x, &BIG::frombytes(&e.bytes));
    let mut r = [0u8; G2S];
    y.tobytes(&mut r, true);
    (y.is_infinity(), r)
}

/// `ECP2::is_infinity` on the point that `ECP2::frombytes` reads.
#[verifier::external_body]
fn ecp2_reads_infinity(a: &[u8; G2S]) -> (inf: bool)
    requires
        is_compressed_tag(a@[0]),
    ensures
        inf == g2_reads_infinity_spec(a@),
{
    ECP2::frombytes(a).is_infinity()
}

/// Copies `G1S` bytes of a slice into an array.
fn array_g1(b: &[u8]) -> (a: [u8; G1S])
    requires
        b@.len() == G1S,
    ensures
        a@ == b@,
{
    let mut a: [u8; G1S] = [0u8; G1S];
    let mut i: usize = 0;
    while i < G1S
        invariant
            i <= G1S,
            b@.len() == G1S,
            forall|j: int| 0 <= j < i ==> a@[j] == b@[j],
        decreases G1S - i,
    {
        a[i] = b[i];
        i = i + 1;
    }
    a
}

/// Copies `G2S` bytes of a slice into an array.
fn array_g2(b: &[u8]) -> (a: [u8; G2S])
    requires
        b@.len() == G2S,
    ensures
        a@ == b@,
{
    let mut a: [u8; G2S] = [0u8; G2S];
    let mut i: usize = 0;
    while i < G2S
        invariant
            i <= G2S,
            b@.len() == G2S,
            forall|j: int| 0 <= j < i ==> a@[j] == b@[j],
        decreases G2S - i,
    {
        a[i] = b[i];
        i = i + 1;
    }
    a
}

/// One part of the x-coordinate of an encoding of the long group: the `BFS`
/// bytes from position `from` on.
fn coordinate_g2(bytes: &[u8; G2S], from: usize) -> (part: Scalar)
    requires
        from + BFS <= G2S,
    ensures
        part.bytes@ == bytes@.subrange(from as int, from + BFS),
{
    let mut part: [u8; BGS] = [0u8; BGS];
    let mut i: usize = 0;
    while i < BFS
        invariant
            i <= BFS,
            from + BFS <= G2S,
            forall|j: int| 0 <= j < i ==> part@[j] == bytes@[from + j],
        decreases BFS - i,
    {
        part[i] = bytes[from + i];
        i = i + 1;
    }
    assert(part@ =~= bytes@.subrange(from as int, from + BFS));
    Scalar { bytes: part }
}

/// Whether `b` is accepted as the encoding of an element of the short
/// group: `G1S` bytes that start with a tag and from which a point of the
/// curve is read.
pub open spec fn g1_valid_encoding(b: Seq<u8>) -> bool {
    &&& b.len() == G1S
    &&& is_compressed_tag(b[0])
    &&& !g1_reads_infinity_spec(b)
}

/// Whether `b` is accepted as the encoding of an element of the long group:
/// `G2S` bytes that start with a tag, hold both parts of the x-coordinate
/// below the field modulus, and from which a point of the curve is read.
pub open spec fn g2_valid_encoding(b: Seq<u8>) -> bool {
    &&& b.len() == G2S
    &&& is_compressed_tag(b[0])
    &&& be_nat(b.subrange(1, 1 + BFS)) < field_modulus()
    &&& be_nat(b.subrange(1 + BFS, 1 + 2 * BFS)) < field_modulus()
    &&& !g2_reads_infinity_spec(b)
}

/// The sum of the elements `terms`, added up from the first to the last.
/// It is meant for a sequence that is not empty.
pub open spec fn g1_sum(terms: Seq<Encoded>) -> Encoded
    decreases terms.len(),
{
    if terms.len() <= 1 {
        terms[0]
    } else {
        g1_add_spec(g1_sum(terms.drop_last()), terms.last())
    }
}

/// The sum of the elements `terms`, added up from the first to the last.
/// It is meant for a sequence that is not empty.
pub open spec fn g2_sum(terms: Seq<Encoded>) -> Encoded
    decreases terms.len(),
{
    if terms.len() <= 1 {
        terms[0]
    } else {
        g2_add_spec(g2_sum(terms.drop_last()), terms.last())
    }
}

/// Adding one more term to a sum that is not empty.
pub proof fn lemma_g1_sum_step(terms: Seq<Encoded>, k: int)
    requires
        1 <= k < terms.len(),
    ensures
        g1_sum(terms.take(k + 1)) == g1_add_spec(g1_sum(terms.take(k)), terms[k]),
{
    assert(terms.take(k + 1).drop_last() =~= terms.take(k));
}

/// Adding one more term to a sum that is not empty.
pub proof fn lemma_g2_sum_step(terms: Seq<Encoded>, k: int)
    requires
        1 <= k < terms.len(),
    ensures
        g2_sum(terms.take(k + 1)) == g2_add_spec(g2_sum(terms.take(k)), terms[k]),
{
    assert(terms.take(k + 1).drop_last() =~= terms.take(k));
}

/// The elements `points` as the contracts speak of them, in their order.
pub open spec fn g1_encodings(points: Seq<G1Point>) -> Seq<Encoded> {
    Seq::new(points.len(), |i: int| points[i]@)
}

/// The elements `points` as the contracts speak of them, in their order.
pub open spec fn g2_encodings(points: Seq<G2Point>) -> Seq<Encoded> {
    Seq::new(points.len(), |i: int| points[i]@)
}

/// An element of the short group.
#[derive(Clone, Copy, Debug)]
pub struct G1Point {
    bytes: [u8; G1S],
    infinity: bool,
}

impl View for G1Point {
    type V = Encoded;

    /// Whether the element is the identity, and its encoding.
    closed spec fn view(&self) -> Encoded {
        (self.infinity, self.bytes@)
    }
}

impl G1Point {
    #[verifier::type_invariant]
    spec fn well_formed(self) -> bool {
        is_compressed_tag(self.bytes@[0])
    }

    /// Reads an element from its encoding. A byte string of another length,
    /// one that starts with no tag, or one that holds no point of the curve
    /// is refused. What is read is never the identity.
    pub fn from_bytes(b: &[u8]) -> (r: Result<G1Point, MsError>)
        ensures
            g1_valid_encoding(b@) ==> r is Ok && r->Ok_0@ == read_from(b@),
            !g1_valid_encoding(b@) ==> r == Err::<G1Point, MsError>(MsError::InvalidEncoding),
    {
        if b.len() != G1S {
            return Err(MsError::InvalidEncoding);
        }
        if b[0] != TAG_EVEN && b[0] != TAG_ODD {
            return Err(MsError::InvalidEncoding);
        }
        let bytes = array_g1(b);
        if ecp_reads_infinity(&bytes) {
            return Err(MsError::InvalidEncoding);
        }
        Ok(G1Point { bytes, infinity: false })
    }

    /// The encoding of the element: `G1S` bytes that start with a tag. For
    /// the identity they are what the curve library writes for it, and no
    /// encoding to read it back from.
    pub fn to_bytes(&self) -> (b: [u8; G1S])
        ensures
            b@ == self@.1,
            is_compressed_tag(b@[0]),
    {
        proof {
            use_type_invariant(self);
        }
        self.bytes
    }

    /// Whether the element is the identity.
    pub fn is_identity(&self) -> (identity: bool)
        ensures
            identity == self@.0,
    {
        self.infinity
    }

    /// The sum of `self` and `other`.
    pub fn add_point(&self, other: &G1Point) -> (r: G1Point)
        ensures
            r@ == g1_add_spec(self@, other@),
    {
        proof {
            use_type_invariant(self);
            use_type_invariant(other);
        }
        let (infinity, bytes) = ecp_add(self.infinity, &self.bytes, other.infinity, &other.bytes);
        G1Point { bytes, infinity }
    }

    /// The inverse of `self`.
    pub fn negate(&self) -> (r: G1Point)
        ensures
            r@ == g1_neg_spec(self@),
    {
        proof {
            use_type_invariant(self);
        }
        let (infinity, bytes) = ecp_neg(self.infinity, &self.bytes);
        G1Point { bytes, infinity }
    }

    /// The multiple of `self` by the scalar `e`.
    pub fn scale(&self, e: &Scalar) -> (r: G1Point)
        ensures
            r@ == g1_mul_spec(self@, e@),
    {
        proof {
            use_type_invariant(self);
        }
        let (infinity, bytes) = pair_g1mul(self.infinity, &self.bytes, e);
        G1Point { bytes, infinity }
    }

    /// The point that the message is hashed to.
    pub fn hash_to_point(msg: &[u8]) -> (r: G1Point)
        requires
            msg@.len() <= MAX_HASH_INPUT,
        ensures
            r@ == hash_to_g1_spec(msg@),
    {
        let (infinity, bytes) = bls_hash_to_point(msg);
        G1Point { bytes, infinity }
    }

    /// The signature of the message under the secret `sk`, as read from the
    /// bytes that signing wrote.
    pub fn core_sign(msg: &[u8], sk: &Scalar) -> (r: G1Point)
        requires
            msg@.len() <= MAX_HASH_INPUT,
        ensures
            r@ == read_from(core_sign_spec(msg@, sk@)),
    {
        G1Point { bytes: bls_core_sign(msg, sk), infinity: false }
    }
}

/// An element of the long group.
#[derive(Clone, Copy, Debug)]
pub struct G2Point {
    bytes: [u8; G2S],
    infinity: bool,
}

impl View for G2Point {
    type V = Encoded;

    /// Whether the element is the identity, and its encoding.
    closed spec fn view(&self) -> Encoded {
        (self.infinity, self.bytes@)
    }
}

impl G2Point {
    #[verifier::type_invariant]
    spec fn well_formed(self) -> bool {
        is_compressed_tag(self.bytes@[0])
    }

    /// Reads an element from its encoding. A byte string of another length,
    /// one that starts with no tag, one with a part of the x-coordinate that
    /// is not below the field modulus, or one that holds no point of the
    /// curve is refused. What is read is never the identity.
    pub fn from_bytes(b: &[u8]) -> (r: Result<G2Point, MsError>)
        ensures
            g2_valid_encoding(b@) ==> r is Ok && r->Ok_0@ == read_from(b@),
            !g2_valid_encoding(b@) ==> r == Err::<G2Point, MsError>(MsError::InvalidEncoding),
    {
        if b.len() != G2S {
            return Err(MsError::InvalidEncoding);
        }
        if b[0] != TAG_EVEN && b[0] != TAG_ODD {
            return Err(MsError::InvalidEncoding);
        }
        let bytes = array_g2(b);
        let modulus = big_field_modulus();
        let x_high = coordinate_g2(&bytes, 1);
        let x_low = coordinate_g2(&bytes, 1 + BFS);
        if !x_high.is_below(&modulus) || !x_low.is_below(&modulus) {
            return Err(MsError::InvalidEncoding);
        }
        if ecp2_reads_infinity(&bytes) {
            return Err(MsError::InvalidEncoding);
        }
        Ok(G2Point { bytes, infinity: false })
    }

    /// Wraps a compressed encoding that the curve library has written, to be
    /// read from its bytes.
    pub(crate) fn from_compressed(bytes: [u8; G2S]) -> (r: G2Point)
        requires
            is_compressed_tag(bytes@[0]),
        ensures
            r@ == read_from(bytes@),
    {
        G2Point { bytes, infinity: false }
    }

    /// The encoding of the element: `G2S` bytes that start with a tag. For
    /// the identity they are what the curve library writes for it, and no
    /// encoding to read it back from.
    pub fn to_bytes(&self) -> (b: [u8; G2S])
        ensures
            b@ == self@.1,
            is_compressed_tag(b@[0]),
    {
        proof {
            use_type_invariant(self);
        }
        self.bytes
    }

    /// Whether the element is the identity.
    pub fn is_identity(&self) -> (identity: bool)
        ensures
            identity == self@.0,
    {
        self.infinity
    }

    /// The generator of the long group.
    pub fn generator() -> (r: G2Point)
        ensures
            r@ == read_from(g2_generator_spec()),
    {
        G2Point { bytes: ecp2_generator(), infinity: false }
    }

    /// The sum of `self` and `other`.
    pub fn add_point(&self, other: &G2Point) -> (r: G2Point)
        ensures
            r@ == g2_add_spec(self@, other@),
    {
        proof {
            use_type_invariant(self);
            use_type_invariant(other);
        }
        let (infinity, bytes) = ecp2_add(self.infinity, &self.bytes, other.infinity, &other.bytes);
        G2Point { bytes, infinity }
    }

    /// The multiple of `self` by the scalar `e`, by the plain ladder.
    pub fn scale(&self, e: &Scalar) -> (r: G2Point)
        ensures
            r@ == g2_mul_spec(self@, e@),
    {
        proof {
            use_type_invariant(self);
        }
        let (infinity, bytes) = ecp2_mul(self.infinity, &self.bytes, e);
        G2Point { bytes, infinity }
    }

    /// The multiple of `self` by the scalar `e`, by the method for members
    /// of the group of prime order.
    pub fn pair_scale(&self, e: &Scalar) -> (r: G2Point)
        ensures
            r@ == g2_pair_mul_spec(self@, e@),
    {
        proof {
            use_type_invariant(self);
        }
        let (infinity, bytes) = pair_g2mul(self.infinity, &self.bytes, e);
        G2Point { bytes, infinity }
    }
}

} // verus!
