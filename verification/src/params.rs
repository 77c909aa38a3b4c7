//! Fixed widths of the encodings and limits on input sizes.

use vstd::prelude::*;

verus! {

/// Width in bytes of a base-field element.
pub const BFS: usize = 48;

/// Width in bytes of a scalar.
pub const BGS: usize = 48;

/// Width in bytes of a compressed element of the short group.
pub const G1S: usize = 49;

/// Width in bytes of a compressed element of the long group.
pub const G2S: usize = 97;

/// Width in bytes of an element of the pairing target group.
pub const GTS: usize = 576;

/// Number of slots of a multi-pairing accumulator.
pub const ATE_BITS: usize = 65;

/// Width in bytes of a hash digest.
pub const DIGEST_LEN: usize = 32;

/// Width in bytes of the keying material one key pair is derived from.
pub const IKM_LEN: usize = 32;

/// Width in bytes of the raw entropy a generator is seeded with.
pub const RAW_SEED_LEN: usize = 100;

/// Longest byte string handed to the hash, which counts the bits of its
/// input in a 32-bit word that must not overflow.
pub const MAX_HASH_INPUT: usize = 0x1000_0000;

/// Largest number of signers in one set, so that one key followed by the
/// keys of the whole set stays within `MAX_HASH_INPUT`.
pub const MAX_SIGNERS: usize = 2_000_000;

/// Largest accepted truncation length, in bits.
pub const MAX_BIT_LEN: usize = 64;

/// The prime order of the signature groups.
pub open spec fn group_order() -> nat {
    0x73eda753299d7d483339d80809a1d80553bda402fffe5bfeffffffff00000001nat
}

/// The prime modulus of the base field.
pub open spec fn field_modulus() -> nat {
    0x1a0111ea397fe69a4b1ba7b6434bacd764774b84f38512bf6730d2a0f6b0f6241eabfffeb153ffffb9feffffffffaaabnat
}

/// Tag byte of a compressed point whose y-coordinate is even.
pub const TAG_EVEN: u8 = 0x02;

/// Tag byte of a compressed point whose y-coordinate is odd.
pub const TAG_ODD: u8 = 0x03;

/// Whether `t` is the tag byte of a compressed point.
pub open spec fn is_compressed_tag(t: u8) -> bool {
    t == TAG_EVEN || t == TAG_ODD
}

} // verus!
