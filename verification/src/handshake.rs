//! The handshake state machine: version negotiation over a live
//! transport.
//!
//! The machine holds the decision logic alone: it is fed each decoded
//! inbound message and answers with the actions to perform (enqueue a
//! reply, fire the one-shot readiness signal, forward a message to
//! the caller). The surrounding I/O — the transport, the send pump,
//! the channels — lives outside the library and only performs what
//! the machine decides.

use vstd::prelude::*;

use crate::encode::Encode;
use crate::hashes::spec_checksum;
use crate::protocol::{
    lemma_version_wire_len, Address, AddressV, Command, IpAddr, Message, MessageV, Payload,
    PayloadV, Port, VariableLengthString, VersionMessage, VersionMessageV,
};

verus! {

/// The network identifier the handshake stamps on its frames.
pub const NETWORK_MAGIC: u32 = 0xD9B4BEF9;

/// The handshake states. `Ready` is terminal: once reached, every
/// further inbound message is forwarded to the caller unchanged.
#[derive(Clone, Copy, Debug, PartialEq, Eq, Structural)]
pub enum HandshakeState {
    Init,
    AwaitingPeerAck,
    Ready,
}

/// What one step decides, at the spec level.
pub ghost struct StepV {
    pub next: HandshakeState,
    pub signal_ready: bool,
    pub send_verack: bool,
    pub deliver: bool,
}

/// The transition function.
///
/// Before readiness: a Version is answered with an acknowledgement
/// and advances nothing; the peer's acknowledgement is the single
/// transition into `Ready` and fires the readiness signal; the
/// no-data control messages are accepted in any state without a
/// transition. After readiness every message is delivered to the
/// caller and the signal never fires again.
pub open spec fn spec_step(state: HandshakeState, payload: PayloadV) -> StepV {
    if state == HandshakeState::Ready {
        StepV { next: state, signal_ready: false, send_verack: false, deliver: true }
    } else {
        match payload {
            PayloadV::Version(_) => StepV {
                next: state,
                signal_ready: false,
                send_verack: true,
                deliver: false,
            },
            PayloadV::VerAck => StepV {
                next: HandshakeState::Ready,
                signal_ready: true,
                send_verack: false,
                deliver: false,
            },
            _ => StepV { next: state, signal_ready: false, send_verack: false, deliver: false },
        }
    }
}

/// The unspecified peer address the outbound Version carries: no
/// services, the any address, port zero.
pub open spec fn spec_default_address() -> AddressV {
    AddressV {
        services: 0,
        ip: seq![0u8, 0, 0, 0, 0, 0, 0, 0, 0, 0, 0, 0, 0, 0, 0, 0],
        port: 0,
    }
}

/// The fixed identifying user agent, "/ramen/".
pub open spec fn spec_handshake_user_agent() -> Seq<u8> {
    seq![47u8, 114, 97, 109, 101, 110, 47]
}

/// The fixed negotiation parameters of the outbound Version message.
pub open spec fn spec_version_payload() -> VersionMessageV {
    VersionMessageV {
        version: 70016,
        services: 0,
        timestamp: 0,
        addr_recv: spec_default_address(),
        addr_from: spec_default_address(),
        nonce: 0,
        user_agent: spec_handshake_user_agent(),
        start_height: 0,
        relay: false,
    }
}

/// The outbound Version message the handshake opens with.
pub open spec fn spec_version_message(magic: u32) -> MessageV {
    MessageV {
        magic,
        command: Command::Version,
        length: spec_version_payload().wire().len() as u32,
        checksum: spec_checksum(spec_version_payload().wire()),
        payload: PayloadV::Version(spec_version_payload()),
    }
}

/// The acknowledgement sent in reply to the peer's Version.
pub open spec fn spec_verack_message(magic: u32) -> MessageV {
    MessageV {
        magic,
        command: Command::VerAck,
        length: 0,
        checksum: spec_checksum(Seq::empty()),
        payload: PayloadV::VerAck,
    }
}

/// The actions one step asks the surrounding I/O to perform.
pub struct StepActions {
    /// A message to place on the outbound queue.
    pub reply: Option<Message>,
    /// Fire the one-shot readiness signal.
    pub signal_ready: bool,
    /// Forward this message to the caller's inbound channel.
    pub deliver: Option<Message>,
}

/// Mathematical model of a [`HandshakeMachine`].
pub ghost struct HandshakeMachineV {
    pub state: HandshakeState,
    pub magic: u32,
}

/// The handshake decision core.
pub struct HandshakeMachine {
    state: HandshakeState,
    magic: u32,
}

impl View for HandshakeMachine {
    type V = HandshakeMachineV;

    closed spec fn view(&self) -> HandshakeMachineV {
        HandshakeMachineV { state: self.state, magic: self.magic }
    }
}

impl HandshakeMachine {
    pub fn new(magic: u32) -> (r: Self)
        ensures
            r@.state == HandshakeState::Init,
            r@.magic == magic,
    {
        HandshakeMachine { state: HandshakeState::Init, magic }
    }

    pub fn state(&self) -> (s: HandshakeState)
        ensures
            s == self@.state,
    {
        self.state
    }

    pub fn is_ready(&self) -> (b: bool)
        ensures
            b == (self@.state == HandshakeState::Ready),
    {
        match self.state {
            HandshakeState::Ready => true,
            _ => false,
        }
    }

    /// Opens the handshake: hands back the Version message to enqueue
    /// and moves to awaiting the peer's acknowledgement.
    pub fn start(&mut self) -> (m: Message)
        requires
            old(self)@.state == HandshakeState::Init,
        ensures
            final(self)@.state == HandshakeState::AwaitingPeerAck,
            final(self)@.magic == old(self)@.magic,
            m@ == spec_version_message(old(self)@.magic),
            m.wf(),
            m@.valid(),
    {
        let ip_recv = IpAddr::from_octets(vec![0u8, 0, 0, 0, 0, 0, 0, 0, 0, 0, 0, 0, 0, 0, 0, 0]);
        let ip_from = IpAddr::from_octets(vec![0u8, 0, 0, 0, 0, 0, 0, 0, 0, 0, 0, 0, 0, 0, 0, 0]);
        let version = VersionMessage {
            version: 70016,
            services: 0,
            timestamp: 0,
            addr_recv: Address { services: 0, ip: ip_recv, port: Port(0) },
            addr_from: Address { services: 0, ip: ip_from, port: Port(0) },
            nonce: 0,
            user_agent: VariableLengthString::from_bytes(vec![47u8, 114, 97, 109, 101, 110, 47]),
            start_height: 0,
            relay: false,
        };
        let payload = Payload::Version(version);
        proof {
            assert(payload@ =~= PayloadV::Version(spec_version_payload()));
            lemma_version_wire_len(spec_version_payload());
        }
        let message = Message::new(self.magic, Command::Version, payload);
        self.state = HandshakeState::AwaitingPeerAck;
        message
    }

    /// Consumes one decoded inbound message and decides the actions.
    pub fn on_message(&mut self, message: Message) -> (acts: StepActions)
        ensures
            ({
                let step = spec_step(old(self)@.state, message@.payload);
                &&& final(self)@.state == step.next
                &&& final(self)@.magic == old(self)@.magic
                &&& acts.signal_ready == step.signal_ready
                &&& match acts.reply {
                    Some(r) => step.send_verack && r@ == spec_verack_message(old(self)@.magic)
                        && r.wf() && r@.valid(),
                    None => !step.send_verack,
                }
                &&& match acts.deliver {
                    Some(d) => step.deliver && d == message,
                    None => !step.deliver,
                }
            }),
    {
        match self.state {
            HandshakeState::Ready => StepActions {
                reply: None,
                signal_ready: false,
                deliver: Some(message),
            },
            _ => match message.payload() {
                Payload::Version(_) => {
                    let verack = Message::new(self.magic, Command::VerAck, Payload::VerAck);
                    StepActions { reply: Some(verack), signal_ready: false, deliver: None }
                },
                Payload::VerAck => {
                    self.state = HandshakeState::Ready;
                    StepActions { reply: None, signal_ready: true, deliver: None }
                },
                _ => StepActions { reply: None, signal_ready: false, deliver: None },
            },
        }
    }
}

// ---------------------------------------------------------------------
// Completion laws
// ---------------------------------------------------------------------

/// The state after feeding a sequence of inbound payloads.
pub open spec fn spec_run(state: HandshakeState, payloads: Seq<PayloadV>) -> HandshakeState
    decreases payloads.len(),
{
    if payloads.len() == 0 {
        state
    } else {
        spec_run(spec_step(state, payloads[0]).next, payloads.drop_first())
    }
}

/// How many times the readiness signal fires while feeding a
/// sequence of inbound payloads.
pub open spec fn spec_signal_count(state: HandshakeState, payloads: Seq<PayloadV>) -> nat
    decreases payloads.len(),
{
    if payloads.len() == 0 {
        0
    } else {
        (if spec_step(state, payloads[0]).signal_ready {
            1nat
        } else {
            0nat
        }) + spec_signal_count(spec_step(state, payloads[0]).next, payloads.drop_first())
    }
}

/// Whether any payload in the sequence is the peer's acknowledgement.
pub open spec fn contains_verack(payloads: Seq<PayloadV>) -> bool {
    exists|i: int| 0 <= i < payloads.len() && payloads[i] == PayloadV::VerAck
}

/// Once `Ready`, the machine stays there and the signal never fires
/// again.
pub proof fn lemma_ready_absorbing(payloads: Seq<PayloadV>)
    ensures
        spec_run(HandshakeState::Ready, payloads) == HandshakeState::Ready,
        spec_signal_count(HandshakeState::Ready, payloads) == 0,
    decreases payloads.len(),
{
    if payloads.len() > 0 {
        lemma_ready_absorbing(payloads.drop_first());
    }
}

/// From any state short of `Ready`: the machine reaches `Ready`
/// exactly when the peer acknowledges, and the readiness signal fires
/// exactly once on the first acknowledgement — whatever extra
/// acknowledgements and control messages follow — and never without
/// one.
pub proof fn lemma_handshake_completion(state: HandshakeState, payloads: Seq<PayloadV>)
    requires
        state != HandshakeState::Ready,
    ensures
        spec_signal_count(state, payloads) == if contains_verack(payloads) {
            1nat
        } else {
            0nat
        },
        (spec_run(state, payloads) == HandshakeState::Ready) == contains_verack(payloads),
    decreases payloads.len(),
{
    if payloads.len() == 0 {
        assert(!contains_verack(payloads));
    } else {
        let head = payloads[0];
        let tail = payloads.drop_first();
        if head == PayloadV::VerAck {
            lemma_ready_absorbing(tail);
            assert(contains_verack(payloads));
        } else {
            let next = spec_step(state, head).next;
            assert(next == state);
            lemma_handshake_completion(state, tail);
            assert(contains_verack(payloads) == contains_verack(tail)) by {
                if contains_verack(tail) {
                    let j = choose|j: int|
                        0 <= j < tail.len() && tail[j] == PayloadV::VerAck;
                    assert(payloads[j + 1] == PayloadV::VerAck);
                }
                if contains_verack(payloads) {
                    let i = choose|i: int|
                        0 <= i < payloads.len() && payloads[i] == PayloadV::VerAck;
                    assert(i != 0);
                    assert(tail[i - 1] == PayloadV::VerAck);
                }
            }
        }
    }
}

/// The handshake signals readiness exactly once: from the state that
/// awaits the peer's acknowledgement, a peer that acknowledges at
/// least once causes exactly one readiness signal, however many
/// further acknowledgements arrive.
pub proof fn lemma_ready_exactly_once(payloads: Seq<PayloadV>)
    requires
        contains_verack(payloads),
    ensures
        spec_signal_count(HandshakeState::AwaitingPeerAck, payloads) == 1,
        spec_run(HandshakeState::AwaitingPeerAck, payloads) == HandshakeState::Ready,
{
    lemma_handshake_completion(HandshakeState::AwaitingPeerAck, payloads);
}

/// No false completion: a peer that never acknowledges leaves the
/// machine short of `Ready` and the readiness signal never fires.
pub proof fn lemma_no_false_completion(payloads: Seq<PayloadV>)
    requires
        !contains_verack(payloads),
    ensures
        spec_signal_count(HandshakeState::AwaitingPeerAck, payloads) == 0,
        spec_run(HandshakeState::AwaitingPeerAck, payloads) != HandshakeState::Ready,
{
    lemma_handshake_completion(HandshakeState::AwaitingPeerAck, payloads);
}

} // verus!
