//! Scalars: integers held as 48 big-endian bytes, and arithmetic on them
//! modulo a given modulus.

use vstd::prelude::*;
use miracl_core::bls12381::big::BIG;
use miracl_core::bls12381::rom;
use crate::bytes::{be_nat, lemma_be_nat_first_difference, lemma_be_nat_zeros, zeros};
use crate::error::MsError;
use crate::params::{field_modulus, group_order, BGS};

verus! {

/// An integer below 2^384, held as its big-endian encoding.
#[derive(Clone, Copy, Debug)]
pub struct Scalar {
    pub bytes: [u8; BGS],
}

impl View for Scalar {
    type V = nat;

    /// The integer that the bytes denote.
    open spec fn view(&self) -> nat {
        be_nat(self.bytes@)
    }
}

/// `BIG::modmul` with its operands read by `BIG::frombytes` and its result
/// written by `BIG::tobytes`: the product of `a` and `b`, reduced modulo `m`.
#[verifier::external_body]
pub(crate) fn big_modmul(a: &Scalar, b: &Scalar, m: &Scalar) -> (r: Scalar)
    requires
        m@ > 0,
    ensures
        r@ == (a@ * b@) % m@,
{
    let x = BIG::modmul(
        &BIG::frombytes(&a.bytes),
        &BIG::frombytes(&b.bytes),
        &BIG::frombytes(&m.bytes),
    );
    let mut r = Scalar { bytes: [0u8; BGS] };
    x.tobytes(&mut r.bytes);
    r
}

/// `BIG::modadd` with its operands read by `BIG::frombytes` and its result
/// written by `BIG::tobytes`: the sum of `a` and `b`, reduced modulo `m`.
#[verifier::external_body]
pub(crate) fn big_modadd(a: &Scalar, b: &Scalar, m: &Scalar) -> (r: Scalar)
    requires
        m@ > 0,
    ensures
        r@ == (a@ + b@) % m@,
{
    let x = BIG::modadd(
        &BIG::frombytes(&a.bytes),
        &BIG::frombytes(&b.bytes),
        &BIG::frombytes(&m.bytes),
    );
    let mut r = Scalar { bytes: [0u8; BGS] };
    x.tobytes(&mut r.bytes);
    r
}

/// `BIG::rmod` on a value read by `BIG::frombytes`, written back by
/// `BIG::tobytes`: `a` reduced modulo `m`.
#[verifier::external_body]
pub(crate) fn big_rmod(a: &Scalar, m: &Scalar) -> (r: Scalar)
    requires
        m@ > 0,
    ensures
        r@ == a@ % m@,
{
    let mut x = BIG::frombytes(&a.bytes);
    x.rmod(&BIG::frombytes(&m.bytes));
    let mut r = Scalar { bytes: [0u8; BGS] };
    x.tobytes(&mut r.bytes);
    r
}

/// `BIG::new_int`, written out by `BIG::tobytes`: the scalar whose value is
/// the machine integer `x`.
#[verifier::external_body]
pub(crate) fn big_new_int(x: usize) -> (r: Scalar)
    requires
        x <= isize::MAX,
    ensures
        r@ == x,
{
    let mut r = Scalar { bytes: [0u8; BGS] };
    BIG::new_int(x as isize).tobytes(&mut r.bytes);
    r
}

/// `BIG::iszilch` on a value read by `BIG::frombytes`: whether `a` is zero.
#[verifier::external_body]
pub(crate) fn big_iszilch(a: &Scalar) -> (z: bool)
    ensures
        z == (a@ == 0),
{
    BIG::frombytes(&a.bytes).iszilch()
}

/// `BIG::new_ints` on the constant `rom::CURVE_ORDER`, written out by
/// `BIG::tobytes`: the order of the signature groups.
#[verifier::external_body]
pub(crate) fn big_curve_order() -> (r: Scalar)
    ensures
        r@ == group_order(),
{
    let mut r = Scalar { bytes: [0u8; BGS] };
    BIG::new_ints(&rom::CURVE_ORDER).tobytes(&mut r.bytes);
    r
}

/// `BIG::new_ints` on the constant `rom::MODULUS`, written out by
/// `BIG::tobytes`: the modulus of the base field.
#[verifier::external_body]
pub(crate) fn big_field_modulus() -> (r: Scalar)
    ensures
        r@ == field_modulus(),
{
    let mut r = Scalar { bytes: [0u8; BGS] };
    BIG::new_ints(&rom::MODULUS).tobytes(&mut r.bytes);
    r
}

impl Scalar {
    /// The scalar zero.
    pub fn zero() -> (r: Scalar)
        ensures
            r@ == 0,
            r.bytes@ == zeros(BGS as nat),
    {
        let r = Scalar { bytes: [0u8; BGS] };
        proof {
            lemma_be_nat_zeros(BGS as nat);
        }
        r
    }

    /// Reads a scalar from exactly `BGS` bytes; any other length is an
    /// invalid encoding.
    pub fn from_bytes(b: &[u8]) -> (r: Result<Scalar, MsError>)
        ensures
            b@.len() == BGS ==> r is Ok && r->Ok_0.bytes@ == b@,
            b@.len() != BGS ==> r == Err::<Scalar, MsError>(MsError::InvalidEncoding),
    {
        if b.len() != BGS {
            return Err(MsError::InvalidEncoding);
        }
        let mut bytes: [u8; BGS] = [0u8; BGS];
        let mut i: usize = 0;
        while i < BGS
            invariant
                i <= BGS,
                b@.len() == BGS,
                forall|j: int| 0 <= j < i ==> bytes@[j] == b@[j],
            decreases BGS - i,
        {
            bytes[i] = b[i];
            i = i + 1;
        }
        Ok(Scalar { bytes })
    }

    /// The encoding of the scalar.
    pub fn to_bytes(&self) -> (b: [u8; BGS])
        ensures
            b@ == self.bytes@,
    {
        self.bytes
    }

    /// Whether the scalar is below `other`.
    pub fn is_below(&self, other: &Scalar) -> (below: bool)
        ensures
            below == (self@ < other@),
    {
        let mut i: usize = 0;
        while i < BGS
            invariant
                i <= BGS,
                forall|j: int| 0 <= j < i ==> self.bytes@[j] == other.bytes@[j],
            decreases BGS - i,
        {
            if self.bytes[i] < other.bytes[i] {
                proof {
                    lemma_be_nat_first_difference(self.bytes@, other.bytes@, i as int);
                }
                return true;
            }
            if self.bytes[i] > other.bytes[i] {
                proof {
                    lemma_be_nat_first_difference(other.bytes@, self.bytes@, i as int);
                }
                return false;
            }
            i = i + 1;
        }
        assert(self.bytes@ =~= other.bytes@);
        false
    }

    /// The order of the signature groups.
    pub fn order() -> (r: Scalar)
        ensures
            r@ == group_order(),
    {
        big_curve_order()
    }
}

} // verus!
