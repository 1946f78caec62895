//! Codec for the structural unit of the PNG container format: the chunk.
//!
//! A chunk couples a four-byte ASCII type code, whose letter casing encodes
//! four boolean properties, with an opaque payload and a CRC-32 checksum.
//! The library validates type codes, computes and verifies checksums, and
//! serializes chunks to and parses them from the on-wire byte layout.

pub mod chunk;
pub mod chunk_type;
pub mod errors;
pub mod wire;
