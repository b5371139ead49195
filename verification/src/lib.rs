//! SimpleSerialize (SSZ) encoding, decoding and Merkle tree hashing for the
//! consensus data structures, driven by runtime type descriptors.

pub mod bits;
pub mod bls;
pub mod canonical;
pub mod config;
pub mod decode;
pub mod dispatch;
pub mod encode;
pub mod from_elx;
pub mod helpers;
pub mod laws;
pub mod merkle;
pub mod roundtrip;
pub mod schema;
pub mod shape;
pub mod stream;
pub mod types;
pub mod uint;

