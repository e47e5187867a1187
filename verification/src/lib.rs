//! Wire encoding, stream framing, and handshake negotiation for a
//! peer-to-peer protocol.
//!
//! The crate is organised bottom-up: primitive little-endian encoders
//! ([`wire`]), the checksum ([`hashes`]), the typed message model
//! ([`protocol`]), the stream-framing codec ([`codec`]), and the
//! handshake state machine ([`handshake`]).

pub mod codec;
pub mod decode;
pub mod encode;
pub mod errors;
pub mod handshake;
pub mod hashes;
pub mod protocol;
pub mod wire;
