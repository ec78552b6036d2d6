//! A shielded-payment client library for the Sapling protocol:
//! key derivation, note commitments and nullifiers over the Jubjub curve,
//! a shielded transaction builder, and a compact-block scanner.

pub mod bytes;
pub mod consts;
pub mod curve;
pub mod hash;
pub mod params;
pub mod pedersen;
pub mod primitives;
pub mod zip32;
pub mod encryption;
pub mod merkle;
pub mod prover;
pub mod builder;
pub mod scanner;
