//! Pairing-based multi-signatures over BLS12-381.
//!
//! Two schemes are provided, each with key setup, signing, combination,
//! public-key aggregation and verification: the rogue-key-resistant scheme of
//! Boneh, Drijvers and Neven (module [`bdn`]) and a scheme whose combiner
//! weights each share by the first signer's secret, a truncated hash of the
//! first share and the signer's position (module [`ourms`]). Both take their
//! scalars from module [`derive`] and their key pairs from module [`keys`].
//!
//! Scalars, group elements and pairing values are held as their fixed-width
//! encodings. The arithmetic of the curve is done by `miracl_core`; what it
//! returns is named in the modules [`scalar`], [`hash`], [`group`],
//! [`pairing`] and [`keys`], and the contracts of the schemes are stated
//! over those names. Module [`model`] proves that the equations of both
//! schemes balance in every bilinear group. Module [`text`] formats
//! durations and bytes for reports.

pub mod bdn;
pub mod bytes;
pub mod derive;
pub mod error;
pub mod group;
pub mod hash;
pub mod keys;
pub mod model;
pub mod ourms;
pub mod pairing;
pub mod params;
pub mod scalar;
pub mod text;
