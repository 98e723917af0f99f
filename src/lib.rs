//! BLS multi-signatures over BLS12-381: key derivation, signing, pairing-based
//! verification and rogue-key-resistant aggregation, with every step proved
//! against a model in which a group element is a multiple of a fixed generator.

pub mod api;
pub mod errors;
pub mod group;
pub mod hash;
pub mod hex_codec;
pub mod keys;
pub mod laws;
pub mod signature;
pub mod sums;
