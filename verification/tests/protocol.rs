use bitcoin_handshake::decode::Decode;
use bitcoin_handshake::encode::Encode;
use bitcoin_handshake::errors::DecodeError;
use bitcoin_handshake::wire::{decode_bool, encode_bool};
use bitcoin_handshake::protocol::{
    Address, Command, IpAddr, Message, Payload, Port, VariableInt, VariableLengthString,
    VersionMessage,
};

const LONG_USER_AGENT: &str = "/Satoshi:23.0.0:Nakamoto//Satoshi:23.0.0:Nakamoto//Satoshi:23.0.0:Nakamoto//Satoshi:23.0.0:Nakamoto//Satoshi:23.0.0:Nakamoto//Satoshi:23.0.0:Nakamoto//Satoshi:23.0.0:Nakamoto//Satoshi:23.0.0:Nakamoto//Satoshi:23.0.0:Nakamoto//Satoshi:23.0.0:Nakamoto//Satoshi:23.0.0:Nakamoto//Satoshi:23.0.0:Nakamoto//Satoshi:23.0.0:Nakamoto//Satoshi:23.0.0:Nakamoto//Satoshi:23.0.0:Nakamoto//Satoshi:23.0.0:Nakamoto//Satoshi:23.0.0:Nakamoto//Satoshi:23.0.0:Nakamoto//Satoshi:23.0.0:Nakamoto//Satoshi:23.0.0:Nakamoto//Satoshi:23.0.0:Nakamoto//Satoshi:23.0.0:Nakamoto//Satoshi:23.0.0:Nakamoto//Satoshi:23.0.0:Nakamoto//Satoshi:23.0.0:Nakamoto//Satoshi:23.0.0:Nakamoto//Satoshi:23.0.0:Nakamoto//Satoshi:23.0.0:Nakamoto//Satoshi:23.0.0:Nakamoto/";

fn reference_ip() -> IpAddr {
    // 2a02:8308:900c:5900:b59b:b551:1c26:2a8
    IpAddr::from_octets(vec![
        0x2a, 0x02, 0x83, 0x08, 0x90, 0x0c, 0x59, 0x00, 0xb5, 0x9b, 0xb5, 0x51, 0x1c, 0x26, 0x02,
        0xa8,
    ])
}

fn any_ip() -> IpAddr {
    // ::
    IpAddr::from_octets(vec![0; 16])
}

fn v4_in_v6_ip() -> IpAddr {
    // ::192.168.0.1
    IpAddr::from_octets(vec![0, 0, 0, 0, 0, 0, 0, 0, 0, 0, 0, 0, 192, 168, 0, 1])
}

fn reference_version_message() -> Message {
    Message::new(
        3652501241,
        Command::Version,
        Payload::Version(VersionMessage {
            version: 70016,
            services: 1033,
            timestamp: 1680126222,
            addr_recv: Address { services: 0, ip: reference_ip(), port: Port(56190) },
            addr_from: Address { services: 1033, ip: any_ip(), port: Port(0) },
            nonce: 6940951773072803923,
            user_agent: VariableLengthString::from_text("/Satoshi:23.0.0/"),
            start_height: 783080,
            relay: true,
        }),
    )
}

#[test]
fn encode() {
    let message_bin = b"\xf9\xbe\xb4\xd9version\0\0\0\0\0f\0\0\0@e\xe2A\x80\x11\x01\0\t\x04\0\0\0\0\0\0\x0e\xb1$d\0\0\0\0\0\0\0\0\0\0\0\0*\x02\x83\x08\x90\x0cY\0\xb5\x9b\xb5Q\x1c&\x02\xa8\xdb~\t\x04\0\0\0\0\0\0\0\0\0\0\0\0\0\0\0\0\0\0\0\0\0\0\0\0SH\x1f\xe5\xdc6S`\x10/Satoshi:23.0.0/\xe8\xf2\x0b\0\x01";
    let message = reference_version_message();
    assert_eq!(message.length(), 102);
    assert_eq!(message.checksum(), 1105356096);

    let mut buffer: Vec<u8> = Vec::new();
    message.encode(&mut buffer);
    assert_eq!(&buffer[..], &message_bin[..]);
}

#[test]
fn decode() {
    let message_bin = b"\xf9\xbe\xb4\xd9version\0\0\0\0\0f\0\0\0@e\xe2A\x80\x11\x01\0\t\x04\0\0\0\0\0\0\x0e\xb1$d\0\0\0\0\0\0\0\0\0\0\0\0*\x02\x83\x08\x90\x0cY\0\xb5\x9b\xb5Q\x1c&\x02\xa8\xdb~\t\x04\0\0\0\0\0\0\0\0\0\0\0\0\0\0\0\0\0\0\0\0\0\0\0\0SH\x1f\xe5\xdc6S`\x10/Satoshi:23.0.0/\xe8\xf2\x0b\0\x01\xf9\xbe\xb4\xd9verack\0\0\0\0\0\0\0\0\0\0]\xf6\xe0\xe2";
    let bytes: Vec<u8> = message_bin.to_vec();
    let (message, consumed) = Message::decode(&bytes, 0).unwrap();
    assert_eq!(message, reference_version_message());
    // The verack frame that follows is untouched.
    assert_eq!(consumed, 126);
    let (verack, end) = Message::decode(&bytes, consumed).unwrap();
    assert_eq!(verack.command(), Command::VerAck);
    assert_eq!(*verack.payload(), Payload::VerAck);
    assert_eq!(end, bytes.len());
}

#[test]
fn encode_decode() {
    let msg = Message::new(
        3652501241,
        Command::Version,
        Payload::Version(VersionMessage {
            version: 70016,
            services: 1033,
            timestamp: 1680126222,
            addr_recv: Address { services: 0, ip: reference_ip(), port: Port(56190) },
            addr_from: Address { services: 1033, ip: v4_in_v6_ip(), port: Port(0) },
            nonce: 6920951773072803923,
            user_agent: VariableLengthString::from_text(LONG_USER_AGENT),
            start_height: 1932515342,
            relay: true,
        }),
    );

    let mut buf: Vec<u8> = Vec::new();
    let _ = msg.encode(&mut buf);
    let (decoded, consumed) = Message::decode(&buf, 0).unwrap();

    assert_eq!(decoded, msg);
    assert_eq!(consumed, buf.len());
}

#[test]
fn test_payload_length() {
    let payload = Payload::Version(VersionMessage {
        version: 70016,
        services: 1033,
        timestamp: 1680126222,
        addr_recv: Address { services: 0, ip: reference_ip(), port: Port(56190) },
        addr_from: Address { services: 1033, ip: v4_in_v6_ip(), port: Port(0) },
        nonce: 6920951773072803923,
        user_agent: VariableLengthString::from_text(LONG_USER_AGENT),
        start_height: 1932515342,
        relay: true,
    });
    assert_eq!(payload.encode(&mut Vec::new()), 813);
}

#[test]
fn command_bijection() {
    let table: [(&[u8; 12], Command); 5] = [
        (b"version\0\0\0\0\0", Command::Version),
        (b"verack\0\0\0\0\0\0", Command::VerAck),
        (b"sendheaders\0", Command::SendHeaders),
        (b"wtxidrelay\0\0", Command::WtxIdRelay),
        (b"sendaddrv2\0\0", Command::SendAddrV2),
    ];
    for (wire_name, command) in table {
        // Every table entry decodes to its command.
        let bytes: Vec<u8> = wire_name.to_vec();
        let (decoded, consumed) = Command::decode(&bytes, 0).unwrap();
        assert_eq!(decoded, command);
        assert_eq!(consumed, 12);
        // Every command re-encodes to the identical 12-byte string.
        let mut out: Vec<u8> = Vec::new();
        assert_eq!(command.encode(&mut out), 12);
        assert_eq!(&out[..], &wire_name[..]);
    }
}

#[test]
fn varint_canonical_widths() {
    let cases: [(u64, Vec<u8>); 6] = [
        (0, vec![0x00]),
        (0xFC, vec![0xFC]),
        (0xFD, vec![0xFD, 0xFD, 0x00]),
        (0xFFFF, vec![0xFD, 0xFF, 0xFF]),
        (0x10000, vec![0xFE, 0x00, 0x00, 0x01, 0x00]),
        (0x100000000, vec![0xFF, 0x00, 0x00, 0x00, 0x00, 0x01, 0x00, 0x00, 0x00]),
    ];
    for (value, wire) in cases {
        let mut out: Vec<u8> = Vec::new();
        assert_eq!(VariableInt(value).encode(&mut out), wire.len());
        assert_eq!(out, wire);
        let (back, consumed) = VariableInt::decode(&wire, 0).unwrap();
        assert_eq!(back, VariableInt(value));
        assert_eq!(consumed, wire.len());
    }
}

#[test]
fn varint_accepts_non_canonical_widths() {
    // The same value in all four widths decodes identically.
    let forms: [Vec<u8>; 4] = [
        vec![0x2A],
        vec![0xFD, 0x2A, 0x00],
        vec![0xFE, 0x2A, 0x00, 0x00, 0x00],
        vec![0xFF, 0x2A, 0x00, 0x00, 0x00, 0x00, 0x00, 0x00, 0x00],
    ];
    for form in forms {
        let (value, consumed) = VariableInt::decode(&form, 0).unwrap();
        assert_eq!(value, VariableInt(0x2A));
        assert_eq!(consumed, form.len());
    }
}

#[test]
fn port_is_big_endian_and_two_bytes_suffice() {
    let mut out: Vec<u8> = Vec::new();
    Port(56190).encode(&mut out);
    assert_eq!(out, vec![0xDB, 0x7E]);
    let (port, consumed) = Port::decode(&out, 0).unwrap();
    assert_eq!(port, Port::from(56190));
    assert_eq!(consumed, 2);
}

#[test]
fn ipv4_is_mapped_into_ipv6() {
    let ip = IpAddr::from_v4(192, 168, 0, 1);
    assert_eq!(
        ip.octets(),
        &vec![0, 0, 0, 0, 0, 0, 0, 0, 0, 0, 0xFF, 0xFF, 192, 168, 0, 1]
    );
}

#[test]
fn decode_error_not_enough_bytes() {
    let bytes: Vec<u8> = vec![0xf9, 0xbe, 0xb4];
    assert!(matches!(
        Message::decode(&bytes, 0),
        Err(DecodeError::NotEnoughBytes(_))
    ));
}

#[test]
fn decode_error_unknown_command() {
    let mut bytes: Vec<u8> = Vec::new();
    bytes.extend_from_slice(&3652501241u32.to_le_bytes());
    bytes.extend_from_slice(b"bogusverb\0\0\0");
    bytes.extend_from_slice(&0u32.to_le_bytes());
    bytes.extend_from_slice(&0u32.to_le_bytes());
    match Message::decode(&bytes, 0) {
        Err(DecodeError::UnknownCommand(raw)) => assert_eq!(&raw[..], b"bogusverb\0\0\0"),
        other => panic!("expected an unknown-command error, got {:?}", other),
    }
}

#[test]
fn decode_error_checksum_mismatch() {
    // A verack frame whose stored checksum is off by one.
    let mut bytes: Vec<u8> = Vec::new();
    bytes.extend_from_slice(&3652501241u32.to_le_bytes());
    bytes.extend_from_slice(b"verack\0\0\0\0\0\0");
    bytes.extend_from_slice(&0u32.to_le_bytes());
    bytes.extend_from_slice(&0xE2E0F65Eu32.to_le_bytes());
    match Message::decode(&bytes, 0) {
        Err(DecodeError::ChecksumMismatch { expected, computed }) => {
            assert_eq!(expected, 0xE2E0F65E);
            assert_eq!(computed, 0xE2E0F65D);
        },
        other => panic!("expected a checksum mismatch, got {:?}", other),
    }
}

#[test]
fn user_agent_text_is_lossy() {
    assert_eq!(VariableLengthString::from_text("/Satoshi:23.0.0/").text(), "/Satoshi:23.0.0/");
    let invalid = VariableLengthString::from_bytes(vec![0xFF, b'/']);
    assert_eq!(invalid.text(), "\u{FFFD}/");
}

#[test]
fn user_agent_bytes_round_through_from_text() {
    let ua = VariableLengthString::from_text("/Satoshi:23.0.0/");
    assert_eq!(ua.as_bytes(), &b"/Satoshi:23.0.0/".to_vec());
}

#[test]
fn round_trip_at_user_agent_width_boundaries() {
    // The user-agent lengths at which the length prefix changes
    // width, and one step past each.
    for ua_len in [0usize, 1, 252, 253, 65535, 65536] {
        let msg = Message::new(
            3652501241,
            Command::Version,
            Payload::Version(VersionMessage {
                version: 70016,
                services: 1033,
                timestamp: 1680126222,
                addr_recv: Address { services: 0, ip: reference_ip(), port: Port(56190) },
                addr_from: Address { services: 1033, ip: any_ip(), port: Port(0) },
                nonce: 6940951773072803923,
                user_agent: VariableLengthString::from_bytes(vec![b'a'; ua_len]),
                start_height: 783080,
                relay: true,
            }),
        );
        let mut buf: Vec<u8> = Vec::new();
        let written = msg.encode(&mut buf);
        assert_eq!(written, buf.len());
        let (decoded, consumed) = Message::decode(&buf, 0).unwrap();
        assert_eq!(decoded, msg);
        assert_eq!(consumed, buf.len());
    }

    let verack = Message::new(3652501241, Command::VerAck, Payload::VerAck);
    let mut buf: Vec<u8> = Vec::new();
    verack.encode(&mut buf);
    let (decoded, consumed) = Message::decode(&buf, 0).unwrap();
    assert_eq!(decoded, verack);
    assert_eq!(consumed, 24);
}

#[test]
fn any_nonzero_byte_reads_as_true() {
    assert_eq!(decode_bool(&vec![0x00], 0).unwrap(), (false, 1));
    assert_eq!(decode_bool(&vec![0x01], 0).unwrap(), (true, 1));
    assert_eq!(decode_bool(&vec![0x02], 0).unwrap(), (true, 1));
    let mut out: Vec<u8> = Vec::new();
    encode_bool(true, &mut out);
    encode_bool(false, &mut out);
    assert_eq!(out, vec![0x01, 0x00]);
}
