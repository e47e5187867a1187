//! The stream-framing adapter: assembling complete messages out of an
//! append-only byte buffer fed by partial deliveries.
//!
//! The adapter never consumes bytes it cannot fully interpret: until
//! the 24-byte header and the payload length it announces have both
//! arrived it reports "need more input" and leaves the buffer
//! untouched. Once the frame is complete it delegates to the envelope
//! decoder and removes exactly one frame from the front.

use vstd::bytes::*;
use vstd::prelude::*;
use vstd::slice::slice_subrange;

use crate::decode::Decode;
use crate::encode::Encode;
use crate::errors::{DecodeError, DecodeErrorV};
use crate::protocol::{
    lemma_message_roundtrip, lemma_message_wire_len, parse_message, Message, MessageV,
};

verus! {

/// The payload length the frame header announces: the little-endian
/// integer at bytes 16..20.
pub open spec fn announced_payload_len(data: Seq<u8>) -> u32
    recommends
        data.len() >= 20,
{
    spec_u32_from_le_bytes(data.subrange(16, 20))
}

/// Whether the buffer holds a complete frame: the 24-byte header plus
/// as many payload bytes as the header announces.
pub open spec fn frame_complete(data: Seq<u8>) -> bool {
    data.len() >= 24 && data.len() >= 24 + announced_payload_len(data)
}

/// Removes the first `n` bytes of a buffer.
fn drop_front(buffer: &mut Vec<u8>, n: usize)
    requires
        n <= old(buffer)@.len(),
    ensures
        final(buffer)@ == old(buffer)@.skip(n as int),
{
    let tail = buffer.split_off(n);
    *buffer = tail;
}

/// The framing codec over the message envelope.
pub struct BitcoinCodec;

impl BitcoinCodec {
    /// Appends one message's frame to the output buffer.
    pub fn encode(&mut self, message: Message, dst: &mut Vec<u8>) -> (r: Result<(), DecodeError>)
        requires
            message.wf(),
        ensures
            r is Ok,
            final(dst)@ == old(dst)@ + message@.wire(),
    {
        let _ = message.encode(dst);
        Ok(())
    }

    /// Tries to take one complete frame from the front of the buffer.
    ///
    /// With no complete frame present it returns `Ok(None)` and
    /// consumes nothing, so it can be re-invoked as more bytes
    /// arrive without losing or duplicating input. With a complete
    /// frame present it removes that frame: on success exactly the
    /// decoded bytes, on a decode error the whole announced frame, so
    /// that one bad frame cannot desynchronise the stream.
    pub fn decode(&mut self, src: &mut Vec<u8>) -> (r: Result<Option<Message>, DecodeError>)
        ensures
            match r {
                Ok(None) => final(src)@ == old(src)@ && !frame_complete(old(src)@),
                Ok(Some(m)) => {
                    &&& frame_complete(old(src)@)
                    &&& match parse_message(old(src)@) {
                        Ok((mv, n)) => m@ == mv && m.wf() && final(src)@ == old(src)@.skip(n),
                        Err(_) => false,
                    }
                },
                Err(e) => {
                    &&& frame_complete(old(src)@)
                    &&& match parse_message(old(src)@) {
                        Ok(_) => false,
                        Err(se) => e@ == se,
                    }
                    &&& final(src)@ == old(src)@.skip(
                        24 + announced_payload_len(old(src)@) as int,
                    )
                },
            },
    {
        let len = src.len();
        if len < 24 {
            return Ok(None);
        }
        let length_bytes = slice_subrange(src.as_slice(), 16, 20);
        let payload_length = u32_from_le_bytes(length_bytes);
        if ((len - 24) as u64) < (payload_length as u64) {
            return Ok(None);
        }
        proof {
            assert(src@.skip(0) =~= src@);
        }
        match Message::decode(src, 0) {
            Ok((message, consumed)) => {
                drop_front(src, consumed);
                Ok(Some(message))
            },
            Err(e) => {
                drop_front(src, 24 + payload_length as usize);
                Err(e)
            },
        }
    }
}

// ---------------------------------------------------------------------
// Partial-delivery framing laws
// ---------------------------------------------------------------------

/// Partial delivery around one frame: however a stream that starts
/// with a valid message's frame is cut, the prefix holds a complete
/// frame exactly when the whole frame has arrived — so every shorter
/// prefix reads as "need more input" — and once complete, parsing
/// yields exactly that message and leaves exactly the bytes that
/// followed its frame.
pub proof fn lemma_partial_delivery(m: MessageV, rest: Seq<u8>, k: int)
    requires
        m.wf(),
        m.valid(),
        0 <= k <= (m.wire() + rest).len(),
    ensures
        frame_complete((m.wire() + rest).take(k)) <==> k >= m.wire().len(),
        parse_message(m.wire() + rest) == Ok::<(MessageV, int), DecodeErrorV>((
            m,
            m.wire().len() as int,
        )),
        (m.wire() + rest).skip(m.wire().len() as int) == rest,
{
    vstd::bytes::lemma_auto_spec_u32_to_from_le_bytes();
    lemma_message_wire_len(m);
    lemma_message_roundtrip(m, rest);
    let data = m.wire() + rest;
    let w = m.wire().len() as int;
    assert(data.skip(w) =~= rest);
    if k >= 24 {
        assert(data.take(k).subrange(16, 20) =~= spec_u32_to_le_bytes(m.length)) by {
            crate::protocol::lemma_command_bijection(m.command, m.command);
            assert(data.take(k).subrange(16, 20) =~= data.subrange(16, 20));
            assert(data.subrange(16, 20) =~= spec_u32_to_le_bytes(m.length));
        }
        assert(announced_payload_len(data.take(k)) == m.length);
    }
}

/// The wire image of a whole stream of messages, back to back.
pub open spec fn stream_wire(msgs: Seq<MessageV>) -> Seq<u8>
    decreases msgs.len(),
{
    if msgs.len() == 0 {
        Seq::empty()
    } else {
        msgs[0].wire() + stream_wire(msgs.drop_first())
    }
}

/// Feeding a stream of N valid back-to-back frames through the
/// parser yields the messages one by one: the head parses out
/// exactly, and what remains is the stream of the tail. Applied
/// repeatedly this yields exactly the N messages and ends on the
/// empty buffer.
pub proof fn lemma_stream_framing(msgs: Seq<MessageV>)
    requires
        msgs.len() > 0,
        forall|i: int| 0 <= i < msgs.len() ==> (#[trigger] msgs[i]).wf() && msgs[i].valid(),
    ensures
        parse_message(stream_wire(msgs)) == Ok::<(MessageV, int), DecodeErrorV>((
            msgs[0],
            msgs[0].wire().len() as int,
        )),
        stream_wire(msgs).skip(msgs[0].wire().len() as int) == stream_wire(msgs.drop_first()),
{
    lemma_partial_delivery(msgs[0], stream_wire(msgs.drop_first()), 0);
}

} // verus!
