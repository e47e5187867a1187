//! Errors raised by the decode path.

use vstd::prelude::*;

verus! {

/// The wire field a decoder was reading when it ran out of input.
#[derive(Clone, Copy, Debug, PartialEq, Eq, Structural)]
pub enum Field {
    Bool,
    U16,
    U32,
    U64,
    I32,
    I64,
    Ip,
    Port,
    VarInt,
    VarString,
    Command,
}

/// Mathematical model of a [`DecodeError`].
pub ghost enum DecodeErrorV {
    NotEnoughBytes(Field),
    UnknownCommand(Seq<u8>),
    ChecksumMismatch { expected: u32, computed: u32 },
}

/// A failure of the decode path.
///
/// `NotEnoughBytes` is recoverable at the framing boundary (it means
/// "need more input"); the other variants are fatal to the frame that
/// raised them.
#[derive(Clone, Debug, PartialEq, Eq)]
pub enum DecodeError {
    /// A decoder attempted to read past the available input.
    NotEnoughBytes(Field),
    /// The header named a verb absent from the command table; carries
    /// the raw 12 bytes that were read.
    UnknownCommand(Vec<u8>),
    /// The checksum stored in the header does not match the digest of
    /// the payload bytes that were actually read.
    ChecksumMismatch { expected: u32, computed: u32 },
}

impl View for DecodeError {
    type V = DecodeErrorV;

    open spec fn view(&self) -> DecodeErrorV {
        match self {
            DecodeError::NotEnoughBytes(f) => DecodeErrorV::NotEnoughBytes(*f),
            DecodeError::UnknownCommand(raw) => DecodeErrorV::UnknownCommand(raw@),
            DecodeError::ChecksumMismatch { expected, computed } => DecodeErrorV::ChecksumMismatch {
                expected: *expected,
                computed: *computed,
            },
        }
    }
}

} // verus!
