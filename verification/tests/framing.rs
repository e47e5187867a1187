use bitcoin_handshake::codec::BitcoinCodec;
use bitcoin_handshake::protocol::{
    Address, Command, IpAddr, Message, Payload, Port, VariableLengthString, VersionMessage,
};

fn sample_version(nonce: u64) -> Message {
    Message::new(
        0xD9B4BEF9,
        Command::Version,
        Payload::Version(VersionMessage {
            version: 70016,
            services: 1,
            timestamp: 1680126222,
            addr_recv: Address {
                services: 0,
                ip: IpAddr::from_octets(vec![0; 16]),
                port: Port(8333),
            },
            addr_from: Address {
                services: 0,
                ip: IpAddr::from_octets(vec![0; 16]),
                port: Port(0),
            },
            nonce,
            user_agent: VariableLengthString::from_text("/Satoshi:23.0.0/"),
            start_height: 1,
            relay: false,
        }),
    )
}

fn sample_verack() -> Message {
    Message::new(0xD9B4BEF9, Command::VerAck, Payload::VerAck)
}

fn sample_stream(n: usize) -> (Vec<u8>, Vec<Message>) {
    let mut codec = BitcoinCodec;
    let mut stream: Vec<u8> = Vec::new();
    let mut messages: Vec<Message> = Vec::new();
    for i in 0..n {
        let message = if i % 2 == 0 { sample_version(i as u64) } else { sample_verack() };
        codec.encode(message.clone(), &mut stream).unwrap();
        messages.push(message);
    }
    (stream, messages)
}

/// Feeds the stream in chunks of the given size and collects every
/// decoded message, checking that a "need more input" result never
/// consumes a byte.
fn feed_in_chunks(stream: &[u8], chunk: usize) -> Vec<Message> {
    let mut codec = BitcoinCodec;
    let mut buffer: Vec<u8> = Vec::new();
    let mut decoded: Vec<Message> = Vec::new();
    let mut offset = 0;
    while offset < stream.len() {
        let end = usize::min(offset + chunk, stream.len());
        buffer.extend_from_slice(&stream[offset..end]);
        offset = end;
        loop {
            let before = buffer.len();
            match codec.decode(&mut buffer).unwrap() {
                Some(message) => decoded.push(message),
                None => {
                    assert_eq!(buffer.len(), before, "need-more-input must consume nothing");
                    break;
                }
            }
        }
    }
    assert!(buffer.is_empty(), "a whole stream must be consumed exactly");
    decoded
}

#[test]
fn partial_delivery_single_message() {
    let (stream, messages) = sample_stream(1);
    // Every split point, including inside the 24-byte header and
    // mid-payload: feed one byte at a time.
    assert_eq!(feed_in_chunks(&stream, 1), messages);
}

#[test]
fn partial_delivery_two_messages() {
    let (stream, messages) = sample_stream(2);
    for chunk in [1, 7, 23, 24, 25, 100] {
        assert_eq!(feed_in_chunks(&stream, chunk), messages);
    }
}

#[test]
fn partial_delivery_five_messages() {
    let (stream, messages) = sample_stream(5);
    for chunk in [1, 3, 13, 26, 101, 1000] {
        assert_eq!(feed_in_chunks(&stream, chunk), messages);
    }
}

#[test]
fn whole_stream_at_once() {
    let (stream, messages) = sample_stream(5);
    assert_eq!(feed_in_chunks(&stream, stream.len()), messages);
}

#[test]
fn incomplete_header_needs_more_input() {
    let (stream, _) = sample_stream(1);
    let mut codec = BitcoinCodec;
    let mut buffer: Vec<u8> = stream[..23].to_vec();
    assert_eq!(codec.decode(&mut buffer).unwrap(), None);
    assert_eq!(buffer.len(), 23);
}

#[test]
fn incomplete_payload_needs_more_input() {
    let (stream, _) = sample_stream(1);
    let mut codec = BitcoinCodec;
    let mut buffer: Vec<u8> = stream[..stream.len() - 1].to_vec();
    assert_eq!(codec.decode(&mut buffer).unwrap(), None);
    assert_eq!(buffer.len(), stream.len() - 1);
}

#[test]
fn bad_frame_is_skipped_and_stream_resumes() {
    // An unknown-command frame followed by a valid verack: the codec
    // reports the error, drops exactly the bad frame, and decodes the
    // next one.
    let mut stream: Vec<u8> = Vec::new();
    stream.extend_from_slice(&0xD9B4BEF9u32.to_le_bytes());
    stream.extend_from_slice(b"bogusverb\0\0\0");
    stream.extend_from_slice(&3u32.to_le_bytes());
    stream.extend_from_slice(&0u32.to_le_bytes());
    stream.extend_from_slice(&[1, 2, 3]);
    let mut codec = BitcoinCodec;
    codec.encode(sample_verack(), &mut stream).unwrap();

    let mut buffer = stream.clone();
    assert!(codec.decode(&mut buffer).is_err());
    let next = codec.decode(&mut buffer).unwrap().unwrap();
    assert_eq!(next, sample_verack());
    assert!(buffer.is_empty());
}
