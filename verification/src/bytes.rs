//! Big-endian byte strings as natural numbers.

use vstd::prelude::*;

verus! {

/// The number that `s` denotes when read as big-endian base-256 digits.
pub open spec fn be_nat(s: Seq<u8>) -> nat
    decreases s.len(),
{
    if s.len() == 0 {
        0
    } else {
        be_nat(s.drop_last()) * 256 + s.last() as nat
    }
}

/// `n` zero bytes.
pub open spec fn zeros(n: nat) -> Seq<u8> {
    Seq::new(n, |i: int| 0u8)
}

/// A string of zero bytes denotes zero.
pub proof fn lemma_be_nat_zeros(n: nat)
    ensures
        be_nat(zeros(n)) == 0,
    decreases n,
{
    if n > 0 {
        assert(zeros(n).drop_last() =~= zeros((n - 1) as nat));
        lemma_be_nat_zeros((n - 1) as nat);
    }
}

/// Leading zero bytes do not change the number denoted.
pub proof fn lemma_be_nat_left_pad(n: nat, s: Seq<u8>)
    ensures
        be_nat(zeros(n) + s) == be_nat(s),
    decreases s.len(),
{
    if s.len() == 0 {
        lemma_be_nat_zeros(n);
    } else {
        assert((zeros(n) + s).drop_last() =~= zeros(n) + s.drop_last());
        lemma_be_nat_left_pad(n, s.drop_last());
    }
}

/// A single byte denotes itself.
pub proof fn lemma_be_nat_single(b: u8)
    ensures
        be_nat(seq![b]) == b as nat,
{
    assert(be_nat(seq![b].drop_last()) == 0);
}

/// Of two strings of one length that agree before position `i`, the one with
/// the smaller byte at position `i` denotes the smaller number.
pub proof fn lemma_be_nat_first_difference(x: Seq<u8>, y: Seq<u8>, i: int)
    requires
        x.len() == y.len(),
        0 <= i < x.len(),
        forall|j: int| 0 <= j < i ==> x[j] == y[j],
        x[i] < y[i],
    ensures
        be_nat(x) < be_nat(y),
    decreases x.len(),
{
    if i == x.len() - 1 {
        assert(x.drop_last() =~= y.drop_last());
    } else {
        lemma_be_nat_first_difference(x.drop_last(), y.drop_last(), i);
    }
}

} // verus!
