//! Primitive wire types: little-endian integers and one-byte booleans.
//!
//! Every multi-byte integer on the wire is little-endian (the one
//! exception, the big-endian port, lives with the protocol types).
//! Each primitive has a spec-level wire image, a spec-level parser, an
//! executable encoder/decoder pair proved against them, and a
//! round-trip lemma.

use vstd::bytes::*;
use vstd::prelude::*;
use vstd::slice::slice_subrange;

use crate::errors::{DecodeError, DecodeErrorV, Field};

verus! {

// ---------------------------------------------------------------------
// Spec-level wire images
// ---------------------------------------------------------------------

/// Wire image of a signed 32-bit integer: its two's-complement bits,
/// little-endian.
pub open spec fn spec_i32_to_le_bytes(x: i32) -> Seq<u8> {
    spec_u32_to_le_bytes(x as u32)
}

/// Wire image of a signed 64-bit integer: its two's-complement bits,
/// little-endian.
pub open spec fn spec_i64_to_le_bytes(x: i64) -> Seq<u8> {
    spec_u64_to_le_bytes(x as u64)
}

/// Wire image of a boolean: one byte, 0 for false and 1 for true.
pub open spec fn spec_bool_to_byte(b: bool) -> Seq<u8> {
    seq![if b { 1u8 } else { 0u8 }]
}

// ---------------------------------------------------------------------
// Spec-level parsers
//
// Each consumes from the front of `data` and yields the value with the
// number of bytes consumed, or the error the decoder reports.
// ---------------------------------------------------------------------

pub open spec fn parse_u16(data: Seq<u8>) -> Result<(u16, int), DecodeErrorV> {
    if data.len() >= 2 {
        Ok((spec_u16_from_le_bytes(data.subrange(0, 2)), 2))
    } else {
        Err(DecodeErrorV::NotEnoughBytes(Field::U16))
    }
}

pub open spec fn parse_u32(data: Seq<u8>) -> Result<(u32, int), DecodeErrorV> {
    if data.len() >= 4 {
        Ok((spec_u32_from_le_bytes(data.subrange(0, 4)), 4))
    } else {
        Err(DecodeErrorV::NotEnoughBytes(Field::U32))
    }
}

pub open spec fn parse_u64(data: Seq<u8>) -> Result<(u64, int), DecodeErrorV> {
    if data.len() >= 8 {
        Ok((spec_u64_from_le_bytes(data.subrange(0, 8)), 8))
    } else {
        Err(DecodeErrorV::NotEnoughBytes(Field::U64))
    }
}

pub open spec fn parse_i32(data: Seq<u8>) -> Result<(i32, int), DecodeErrorV> {
    if data.len() >= 4 {
        Ok((spec_u32_from_le_bytes(data.subrange(0, 4)) as i32, 4))
    } else {
        Err(DecodeErrorV::NotEnoughBytes(Field::I32))
    }
}

pub open spec fn parse_i64(data: Seq<u8>) -> Result<(i64, int), DecodeErrorV> {
    if data.len() >= 8 {
        Ok((spec_u64_from_le_bytes(data.subrange(0, 8)) as i64, 8))
    } else {
        Err(DecodeErrorV::NotEnoughBytes(Field::I64))
    }
}

/// A boolean is one byte; any nonzero byte reads back as true.
pub open spec fn parse_bool(data: Seq<u8>) -> Result<(bool, int), DecodeErrorV> {
    if data.len() >= 1 {
        Ok((data[0] != 0, 1))
    } else {
        Err(DecodeErrorV::NotEnoughBytes(Field::Bool))
    }
}

// ---------------------------------------------------------------------
// Executable encoders
// ---------------------------------------------------------------------

pub fn encode_u16_le(x: u16, buffer: &mut Vec<u8>) -> (n: usize)
    ensures
        final(buffer)@ == old(buffer)@ + spec_u16_to_le_bytes(x),
        n == 2,
{
    proof {
        lemma_auto_spec_u16_to_from_le_bytes();
    }
    let mut bytes = u16_to_le_bytes(x);
    buffer.append(&mut bytes);
    2
}

pub fn encode_u32_le(x: u32, buffer: &mut Vec<u8>) -> (n: usize)
    ensures
        final(buffer)@ == old(buffer)@ + spec_u32_to_le_bytes(x),
        n == 4,
{
    proof {
        lemma_auto_spec_u32_to_from_le_bytes();
    }
    let mut bytes = u32_to_le_bytes(x);
    buffer.append(&mut bytes);
    4
}

pub fn encode_u64_le(x: u64, buffer: &mut Vec<u8>) -> (n: usize)
    ensures
        final(buffer)@ == old(buffer)@ + spec_u64_to_le_bytes(x),
        n == 8,
{
    proof {
        lemma_auto_spec_u64_to_from_le_bytes();
    }
    let mut bytes = u64_to_le_bytes(x);
    buffer.append(&mut bytes);
    8
}

pub fn encode_i32_le(x: i32, buffer: &mut Vec<u8>) -> (n: usize)
    ensures
        final(buffer)@ == old(buffer)@ + spec_i32_to_le_bytes(x),
        n == 4,
{
    encode_u32_le(x as u32, buffer)
}

pub fn encode_i64_le(x: i64, buffer: &mut Vec<u8>) -> (n: usize)
    ensures
        final(buffer)@ == old(buffer)@ + spec_i64_to_le_bytes(x),
        n == 8,
{
    encode_u64_le(x as u64, buffer)
}

pub fn encode_bool(b: bool, buffer: &mut Vec<u8>) -> (n: usize)
    ensures
        final(buffer)@ == old(buffer)@ + spec_bool_to_byte(b),
        n == 1,
{
    buffer.push(if b { 1u8 } else { 0u8 });
    proof {
        assert(buffer@ =~= old(buffer)@ + spec_bool_to_byte(b));
    }
    1
}

// ---------------------------------------------------------------------
// Executable decoders
// ---------------------------------------------------------------------

pub fn decode_u16_le(buffer: &Vec<u8>, pos: usize) -> (r: Result<(u16, usize), DecodeError>)
    requires
        pos <= buffer@.len(),
    ensures
        match (r, parse_u16(buffer@.skip(pos as int))) {
            (Ok((v, end)), Ok((sv, n))) => v == sv && end == pos + n && end <= buffer@.len(),
            (Err(e), Err(se)) => e@ == se,
            _ => false,
        },
{
    if buffer.len() - pos >= 2 {
        let s = slice_subrange(buffer.as_slice(), pos, pos + 2);
        let v = u16_from_le_bytes(s);
        proof {
            assert(buffer@.skip(pos as int).subrange(0, 2) =~= buffer@.subrange(
                pos as int,
                pos as int + 2,
            ));
        }
        Ok((v, pos + 2))
    } else {
        Err(DecodeError::NotEnoughBytes(Field::U16))
    }
}

pub fn decode_u32_le(buffer: &Vec<u8>, pos: usize) -> (r: Result<(u32, usize), DecodeError>)
    requires
        pos <= buffer@.len(),
    ensures
        match (r, parse_u32(buffer@.skip(pos as int))) {
            (Ok((v, end)), Ok((sv, n))) => v == sv && end == pos + n && end <= buffer@.len(),
            (Err(e), Err(se)) => e@ == se,
            _ => false,
        },
{
    if buffer.len() - pos >= 4 {
        let s = slice_subrange(buffer.as_slice(), pos, pos + 4);
        let v = u32_from_le_bytes(s);
        proof {
            assert(buffer@.skip(pos as int).subrange(0, 4) =~= buffer@.subrange(
                pos as int,
                pos as int + 4,
            ));
        }
        Ok((v, pos + 4))
    } else {
        Err(DecodeError::NotEnoughBytes(Field::U32))
    }
}

pub fn decode_u64_le(buffer: &Vec<u8>, pos: usize) -> (r: Result<(u64, usize), DecodeError>)
    requires
        pos <= buffer@.len(),
    ensures
        match (r, parse_u64(buffer@.skip(pos as int))) {
            (Ok((v, end)), Ok((sv, n))) => v == sv && end == pos + n && end <= buffer@.len(),
            (Err(e), Err(se)) => e@ == se,
            _ => false,
        },
{
    if buffer.len() - pos >= 8 {
        let s = slice_subrange(buffer.as_slice(), pos, pos + 8);
        let v = u64_from_le_bytes(s);
        proof {
            assert(buffer@.skip(pos as int).subrange(0, 8) =~= buffer@.subrange(
                pos as int,
                pos as int + 8,
            ));
        }
        Ok((v, pos + 8))
    } else {
        Err(DecodeError::NotEnoughBytes(Field::U64))
    }
}

pub fn decode_i32_le(buffer: &Vec<u8>, pos: usize) -> (r: Result<(i32, usize), DecodeError>)
    requires
        pos <= buffer@.len(),
    ensures
        match (r, parse_i32(buffer@.skip(pos as int))) {
            (Ok((v, end)), Ok((sv, n))) => v == sv && end == pos + n && end <= buffer@.len(),
            (Err(e), Err(se)) => e@ == se,
            _ => false,
        },
{
    if buffer.len() - pos >= 4 {
        let s = slice_subrange(buffer.as_slice(), pos, pos + 4);
        let v = u32_from_le_bytes(s);
        proof {
            assert(buffer@.skip(pos as int).subrange(0, 4) =~= buffer@.subrange(
                pos as int,
                pos as int + 4,
            ));
        }
        Ok((v as i32, pos + 4))
    } else {
        Err(DecodeError::NotEnoughBytes(Field::I32))
    }
}

pub fn decode_i64_le(buffer: &Vec<u8>, pos: usize) -> (r: Result<(i64, usize), DecodeError>)
    requires
        pos <= buffer@.len(),
    ensures
        match (r, parse_i64(buffer@.skip(pos as int))) {
            (Ok((v, end)), Ok((sv, n))) => v == sv && end == pos + n && end <= buffer@.len(),
            (Err(e), Err(se)) => e@ == se,
            _ => false,
        },
{
    if buffer.len() - pos >= 8 {
        let s = slice_subrange(buffer.as_slice(), pos, pos + 8);
        let v = u64_from_le_bytes(s);
        proof {
            assert(buffer@.skip(pos as int).subrange(0, 8) =~= buffer@.subrange(
                pos as int,
                pos as int + 8,
            ));
        }
        Ok((v as i64, pos + 8))
    } else {
        Err(DecodeError::NotEnoughBytes(Field::I64))
    }
}

pub fn decode_bool(buffer: &Vec<u8>, pos: usize) -> (r: Result<(bool, usize), DecodeError>)
    requires
        pos <= buffer@.len(),
    ensures
        match (r, parse_bool(buffer@.skip(pos as int))) {
            (Ok((v, end)), Ok((sv, n))) => v == sv && end == pos + n && end <= buffer@.len(),
            (Err(e), Err(se)) => e@ == se,
            _ => false,
        },
{
    if buffer.len() - pos >= 1 {
        let b = buffer[pos];
        Ok((b != 0, pos + 1))
    } else {
        Err(DecodeError::NotEnoughBytes(Field::Bool))
    }
}

/// A vector never holds more elements than a usize can count.
pub(crate) proof fn lemma_vec_len_bound<T>(v: &Vec<T>)
    ensures
        v@.len() <= usize::MAX,
{
    broadcast use vstd::std_specs::vec::axiom_spec_len;

    assert(vstd::std_specs::vec::spec_vec_len(v) == v@.len());
}

// ---------------------------------------------------------------------
// Round trips: parsing a value's wire image yields the value back and
// consumes exactly its width, whatever follows it.
// ---------------------------------------------------------------------

pub proof fn lemma_u16_roundtrip(x: u16, rest: Seq<u8>)
    ensures
        parse_u16(spec_u16_to_le_bytes(x) + rest) == Ok::<(u16, int), DecodeErrorV>((x, 2)),
{
    lemma_auto_spec_u16_to_from_le_bytes();
    assert((spec_u16_to_le_bytes(x) + rest).subrange(0, 2) =~= spec_u16_to_le_bytes(x));
}

pub proof fn lemma_u32_roundtrip(x: u32, rest: Seq<u8>)
    ensures
        parse_u32(spec_u32_to_le_bytes(x) + rest) == Ok::<(u32, int), DecodeErrorV>((x, 4)),
{
    lemma_auto_spec_u32_to_from_le_bytes();
    assert((spec_u32_to_le_bytes(x) + rest).subrange(0, 4) =~= spec_u32_to_le_bytes(x));
}

pub proof fn lemma_u64_roundtrip(x: u64, rest: Seq<u8>)
    ensures
        parse_u64(spec_u64_to_le_bytes(x) + rest) == Ok::<(u64, int), DecodeErrorV>((x, 8)),
{
    lemma_auto_spec_u64_to_from_le_bytes();
    assert((spec_u64_to_le_bytes(x) + rest).subrange(0, 8) =~= spec_u64_to_le_bytes(x));
}

pub proof fn lemma_i32_roundtrip(x: i32, rest: Seq<u8>)
    ensures
        parse_i32(spec_i32_to_le_bytes(x) + rest) == Ok::<(i32, int), DecodeErrorV>((x, 4)),
{
    lemma_u32_roundtrip(x as u32, rest);
    assert(((x as u32) as i32) == x) by (bit_vector);
}

pub proof fn lemma_i64_roundtrip(x: i64, rest: Seq<u8>)
    ensures
        parse_i64(spec_i64_to_le_bytes(x) + rest) == Ok::<(i64, int), DecodeErrorV>((x, 8)),
{
    lemma_u64_roundtrip(x as u64, rest);
    assert(((x as u64) as i64) == x) by (bit_vector);
}

pub proof fn lemma_bool_roundtrip(b: bool, rest: Seq<u8>)
    ensures
        parse_bool(spec_bool_to_byte(b) + rest) == Ok::<(bool, int), DecodeErrorV>((b, 1)),
{
}

} // verus!
