use bitcoin_handshake::handshake::{HandshakeMachine, HandshakeState, NETWORK_MAGIC};
use bitcoin_handshake::protocol::{
    Address, Command, IpAddr, Message, Payload, Port, VariableLengthString, VersionMessage,
};

fn peer_version() -> Message {
    Message::new(
        NETWORK_MAGIC,
        Command::Version,
        Payload::Version(VersionMessage {
            version: 70015,
            services: 1,
            timestamp: 1680126222,
            addr_recv: Address {
                services: 0,
                ip: IpAddr::from_octets(vec![0; 16]),
                port: Port(0),
            },
            addr_from: Address {
                services: 1,
                ip: IpAddr::from_octets(vec![0; 16]),
                port: Port(8333),
            },
            nonce: 7,
            user_agent: VariableLengthString::from_text("/peer/"),
            start_height: 1,
            relay: false,
        }),
    )
}

fn peer_verack() -> Message {
    Message::new(NETWORK_MAGIC, Command::VerAck, Payload::VerAck)
}

fn peer_sendheaders() -> Message {
    Message::new(NETWORK_MAGIC, Command::SendHeaders, Payload::SendHeaders)
}

fn peer_empty() -> Message {
    Message::new(NETWORK_MAGIC, Command::WtxIdRelay, Payload::Empty)
}

#[test]
fn start_sends_fixed_version_message() {
    let mut machine = HandshakeMachine::new(NETWORK_MAGIC);
    assert_eq!(machine.state(), HandshakeState::Init);
    let version = machine.start();
    assert_eq!(machine.state(), HandshakeState::AwaitingPeerAck);
    assert_eq!(version.magic(), NETWORK_MAGIC);
    assert_eq!(version.command(), Command::Version);
    match version.payload() {
        Payload::Version(v) => {
            assert_eq!(v.version, 70016);
            assert_eq!(v.services, 0);
            assert_eq!(v.timestamp, 0);
            assert_eq!(v.nonce, 0);
            assert_eq!(v.user_agent.as_bytes(), &b"/ramen/".to_vec());
            assert_eq!(v.start_height, 0);
            assert!(!v.relay);
        }
        other => panic!("expected a version payload, got {:?}", other),
    }
}

#[test]
fn peer_version_is_acknowledged() {
    let mut machine = HandshakeMachine::new(NETWORK_MAGIC);
    let _ = machine.start();
    let acts = machine.on_message(peer_version());
    let reply = acts.reply.expect("the peer's version must be answered");
    assert_eq!(reply.command(), Command::VerAck);
    assert!(!acts.signal_ready);
    assert!(acts.deliver.is_none());
    assert!(!machine.is_ready());
}

#[test]
fn handshake_completes_exactly_once() {
    // A peer that acknowledges, then keeps sending extra
    // acknowledgements and control messages: readiness fires exactly
    // once.
    let mut machine = HandshakeMachine::new(NETWORK_MAGIC);
    let _ = machine.start();
    let mut signals = 0;
    for message in [
        peer_version(),
        peer_verack(),
        peer_verack(),
        peer_sendheaders(),
        peer_verack(),
        peer_empty(),
    ] {
        let acts = machine.on_message(message);
        if acts.signal_ready {
            signals += 1;
        }
    }
    assert_eq!(signals, 1);
    assert!(machine.is_ready());
}

#[test]
fn no_acknowledgement_means_no_completion() {
    // A peer that never acknowledges leaves the handshake pending:
    // no readiness signal, never Ready.
    let mut machine = HandshakeMachine::new(NETWORK_MAGIC);
    let _ = machine.start();
    for message in [peer_version(), peer_sendheaders(), peer_empty(), peer_version()] {
        let acts = machine.on_message(message);
        assert!(!acts.signal_ready);
        assert!(!machine.is_ready());
    }
}

#[test]
fn post_ready_messages_are_delivered_to_the_caller() {
    let mut machine = HandshakeMachine::new(NETWORK_MAGIC);
    let _ = machine.start();
    let _ = machine.on_message(peer_verack());
    assert!(machine.is_ready());

    let inbound = peer_sendheaders();
    let acts = machine.on_message(inbound.clone());
    assert!(!acts.signal_ready);
    assert!(acts.reply.is_none());
    assert_eq!(acts.deliver, Some(inbound));
}
