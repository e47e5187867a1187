//! The protocol message model: the envelope and every wire type that
//! appears inside it.
//!
//! Each type carries a spec-level wire image and a spec-level parser
//! (through the [`Encode`] and [`Decode`] traits), and a round-trip
//! lemma showing that parsing a value's wire image yields the value
//! back.

use vstd::bytes::*;
use vstd::prelude::*;
use vstd::slice::{slice_subrange, slice_to_vec};
use vstd::string::{StrSliceExecFns, StringSliceAdditionalSpecFns};

use crate::decode::Decode;
use crate::encode::Encode;
use crate::errors::{DecodeError, DecodeErrorV, Field};
use crate::hashes::{checksum_slice, spec_checksum};
use crate::wire::{
    decode_bool, decode_i32_le, decode_i64_le, decode_u16_le, decode_u32_le, decode_u64_le,
    encode_bool, encode_i32_le, encode_i64_le, encode_u16_le, encode_u32_le, encode_u64_le,
    lemma_bool_roundtrip, lemma_i32_roundtrip, lemma_i64_roundtrip, lemma_u16_roundtrip,
    lemma_u32_roundtrip, lemma_u64_roundtrip, lemma_vec_len_bound, parse_bool, parse_i32,
    parse_i64, parse_u16, parse_u32, parse_u64, spec_bool_to_byte, spec_i32_to_le_bytes,
    spec_i64_to_le_bytes,
};

verus! {

/// Skipping `a` bytes and then `b` more is skipping `a + b` at once.
pub(crate) proof fn lemma_skip_skip(s: Seq<u8>, a: int, b: int)
    requires
        0 <= a,
        0 <= b,
        a + b <= s.len(),
    ensures
        s.skip(a).skip(b) == s.skip(a + b),
{
    assert(s.skip(a).skip(b) =~= s.skip(a + b));
}

// ---------------------------------------------------------------------
// Port: the one big-endian integer on the wire
// ---------------------------------------------------------------------

/// Wire image of a port: two bytes in network (big-endian) order.
pub open spec fn spec_port_to_be_bytes(p: u16) -> Seq<u8> {
    seq![(p / 256) as u8, (p % 256) as u8]
}

pub open spec fn parse_port(data: Seq<u8>) -> Result<(u16, int), DecodeErrorV> {
    if data.len() >= 2 {
        Ok((((data[0] as u16) * 256 + (data[1] as u16)) as u16, 2))
    } else {
        Err(DecodeErrorV::NotEnoughBytes(Field::Port))
    }
}

/// A 16-bit port, encoded big-endian unlike every other integer on
/// the wire.
#[derive(Clone, Copy, Debug, Default, PartialEq, Eq, Structural)]
pub struct Port(pub u16);

impl View for Port {
    type V = u16;

    open spec fn view(&self) -> u16 {
        self.0
    }
}

impl From<u16> for Port {
    fn from(port: u16) -> Self {
        Port(port)
    }
}

impl vstd::std_specs::convert::FromSpecImpl<u16> for Port {
    open spec fn obeys_from_spec() -> bool {
        true
    }

    open spec fn from_spec(port: u16) -> Port {
        Port(port)
    }
}

impl Encode for Port {
    open spec fn wf(&self) -> bool {
        true
    }

    open spec fn wire(&self) -> Seq<u8> {
        spec_port_to_be_bytes(self.0)
    }

    fn encode(&self, buffer: &mut Vec<u8>) -> (n: usize) {
        buffer.push((self.0 / 256) as u8);
        buffer.push((self.0 % 256) as u8);
        proof {
            assert(buffer@ =~= old(buffer)@ + self.wire());
        }
        2
    }
}

impl Decode for Port {
    open spec fn parse(data: Seq<u8>) -> Result<(u16, int), DecodeErrorV> {
        parse_port(data)
    }

    fn decode(buffer: &Vec<u8>, pos: usize) -> (r: Result<(Self, usize), DecodeError>) {
        if buffer.len() - pos >= 2 {
            let hi = buffer[pos];
            let lo = buffer[pos + 1];
            Ok((Port((hi as u16) * 256 + (lo as u16)), pos + 2))
        } else {
            Err(DecodeError::NotEnoughBytes(Field::Port))
        }
    }
}

pub proof fn lemma_port_roundtrip(p: u16, rest: Seq<u8>)
    ensures
        parse_port(spec_port_to_be_bytes(p) + rest) == Ok::<(u16, int), DecodeErrorV>((p, 2)),
{
}

// ---------------------------------------------------------------------
// VariableInt: width chosen by magnitude
// ---------------------------------------------------------------------

/// Wire image of a variable-width integer: canonical (minimal width)
/// on encode. One byte up to 0xFC; a 0xFD prefix and two bytes up to
/// 0xFFFF; a 0xFE prefix and four bytes up to 0xFFFFFFFF; a 0xFF
/// prefix and eight bytes beyond.
pub open spec fn spec_varint_wire(v: u64) -> Seq<u8> {
    if v <= 0xFC {
        seq![v as u8]
    } else if v <= 0xFFFF {
        seq![0xFDu8] + spec_u16_to_le_bytes(v as u16)
    } else if v <= 0xFFFFFFFF {
        seq![0xFEu8] + spec_u32_to_le_bytes(v as u32)
    } else {
        seq![0xFFu8] + spec_u64_to_le_bytes(v)
    }
}

/// The parser accepts all four widths, canonical or not.
pub open spec fn parse_varint(data: Seq<u8>) -> Result<(u64, int), DecodeErrorV> {
    if data.len() < 1 {
        Err(DecodeErrorV::NotEnoughBytes(Field::VarInt))
    } else if data[0] == 0xFD {
        match parse_u16(data.skip(1)) {
            Ok((x, n)) => Ok((x as u64, 1 + n)),
            Err(e) => Err(e),
        }
    } else if data[0] == 0xFE {
        match parse_u32(data.skip(1)) {
            Ok((x, n)) => Ok((x as u64, 1 + n)),
            Err(e) => Err(e),
        }
    } else if data[0] == 0xFF {
        match parse_u64(data.skip(1)) {
            Ok((x, n)) => Ok((x, 1 + n)),
            Err(e) => Err(e),
        }
    } else {
        Ok((data[0] as u64, 1))
    }
}

/// An unsigned integer whose encoded width is chosen by magnitude.
#[derive(Clone, Copy, Debug, Default, PartialEq, Eq, Structural)]
pub struct VariableInt(pub u64);

impl View for VariableInt {
    type V = u64;

    open spec fn view(&self) -> u64 {
        self.0
    }
}

impl Encode for VariableInt {
    open spec fn wf(&self) -> bool {
        true
    }

    open spec fn wire(&self) -> Seq<u8> {
        spec_varint_wire(self.0)
    }

    fn encode(&self, buffer: &mut Vec<u8>) -> (n: usize) {
        if self.0 <= 0xFC {
            buffer.push(self.0 as u8);
            proof {
                assert(buffer@ =~= old(buffer)@ + self.wire());
            }
            1
        } else if self.0 <= 0xFFFF {
            buffer.push(0xFD);
            let n = encode_u16_le(self.0 as u16, buffer);
            proof {
                lemma_auto_spec_u16_to_from_le_bytes();
                assert(buffer@ =~= old(buffer)@ + self.wire());
            }
            1 + n
        } else if self.0 <= 0xFFFFFFFF {
            buffer.push(0xFE);
            let n = encode_u32_le(self.0 as u32, buffer);
            proof {
                lemma_auto_spec_u32_to_from_le_bytes();
                assert(buffer@ =~= old(buffer)@ + self.wire());
            }
            1 + n
        } else {
            buffer.push(0xFF);
            let n = encode_u64_le(self.0, buffer);
            proof {
                lemma_auto_spec_u64_to_from_le_bytes();
                assert(buffer@ =~= old(buffer)@ + self.wire());
            }
            1 + n
        }
    }
}

impl Decode for VariableInt {
    open spec fn parse(data: Seq<u8>) -> Result<(u64, int), DecodeErrorV> {
        parse_varint(data)
    }

    fn decode(buffer: &Vec<u8>, pos: usize) -> (r: Result<(Self, usize), DecodeError>) {
        if buffer.len() - pos < 1 {
            return Err(DecodeError::NotEnoughBytes(Field::VarInt));
        }
        let tag = buffer[pos];
        proof {
            lemma_skip_skip(buffer@, pos as int, 1);
        }
        if tag == 0xFD {
            let (x, end) = decode_u16_le(buffer, pos + 1)?;
            Ok((VariableInt(x as u64), end))
        } else if tag == 0xFE {
            let (x, end) = decode_u32_le(buffer, pos + 1)?;
            Ok((VariableInt(x as u64), end))
        } else if tag == 0xFF {
            let (x, end) = decode_u64_le(buffer, pos + 1)?;
            Ok((VariableInt(x), end))
        } else {
            Ok((VariableInt(tag as u64), pos + 1))
        }
    }
}

pub proof fn lemma_varint_roundtrip(v: u64, rest: Seq<u8>)
    ensures
        parse_varint(spec_varint_wire(v) + rest) == Ok::<(u64, int), DecodeErrorV>((
            v,
            spec_varint_wire(v).len() as int,
        )),
{
    let data = spec_varint_wire(v) + rest;
    if v <= 0xFC {
        assert(data[0] == v as u8);
    } else if v <= 0xFFFF {
        lemma_auto_spec_u16_to_from_le_bytes();
        assert(data.skip(1) =~= spec_u16_to_le_bytes(v as u16) + rest);
        lemma_u16_roundtrip(v as u16, rest);
    } else if v <= 0xFFFFFFFF {
        lemma_auto_spec_u32_to_from_le_bytes();
        assert(data.skip(1) =~= spec_u32_to_le_bytes(v as u32) + rest);
        lemma_u32_roundtrip(v as u32, rest);
    } else {
        lemma_auto_spec_u64_to_from_le_bytes();
        assert(data.skip(1) =~= spec_u64_to_le_bytes(v) + rest);
        lemma_u64_roundtrip(v, rest);
    }
}

// ---------------------------------------------------------------------
// IpAddr: sixteen raw bytes
// ---------------------------------------------------------------------

pub open spec fn parse_ip(data: Seq<u8>) -> Result<(Seq<u8>, int), DecodeErrorV> {
    if data.len() >= 16 {
        Ok((data.subrange(0, 16), 16))
    } else {
        Err(DecodeErrorV::NotEnoughBytes(Field::Ip))
    }
}

/// A 16-byte IP address as it stands on the wire. An IPv4 address is
/// carried in the IPv4-mapped IPv6 range.
#[derive(Clone, Debug, PartialEq, Eq)]
pub struct IpAddr {
    octets: Vec<u8>,
}

impl View for IpAddr {
    type V = Seq<u8>;

    closed spec fn view(&self) -> Seq<u8> {
        self.octets@
    }
}

impl IpAddr {
    /// Builds an address from its sixteen bytes.
    pub fn from_octets(octets: Vec<u8>) -> (r: Self)
        requires
            octets@.len() == 16,
        ensures
            r@ == octets@,
            r.wf(),
    {
        IpAddr { octets }
    }

    /// Maps an IPv4 address into the IPv4-mapped IPv6 range.
    pub fn from_v4(a: u8, b: u8, c: u8, d: u8) -> (r: Self)
        ensures
            r@ == seq![0u8, 0, 0, 0, 0, 0, 0, 0, 0, 0, 0xFF, 0xFF, a, b, c, d],
            r.wf(),
    {
        let octets: Vec<u8> = vec![0u8, 0, 0, 0, 0, 0, 0, 0, 0, 0, 0xFF, 0xFF, a, b, c, d];
        IpAddr { octets }
    }

    /// The address's sixteen bytes.
    pub fn octets(&self) -> (r: &Vec<u8>)
        ensures
            r@ == self@,
    {
        &self.octets
    }
}

impl Encode for IpAddr {
    open spec fn wf(&self) -> bool {
        self@.len() == 16
    }

    open spec fn wire(&self) -> Seq<u8> {
        self@
    }

    fn encode(&self, buffer: &mut Vec<u8>) -> (n: usize) {
        buffer.extend_from_slice(self.octets.as_slice());
        self.octets.len()
    }
}

impl Decode for IpAddr {
    open spec fn parse(data: Seq<u8>) -> Result<(Seq<u8>, int), DecodeErrorV> {
        parse_ip(data)
    }

    fn decode(buffer: &Vec<u8>, pos: usize) -> (r: Result<(Self, usize), DecodeError>) {
        if buffer.len() - pos >= 16 {
            let octets = slice_to_vec(slice_subrange(buffer.as_slice(), pos, pos + 16));
            proof {
                assert(buffer@.skip(pos as int).subrange(0, 16) =~= buffer@.subrange(
                    pos as int,
                    pos as int + 16,
                ));
            }
            Ok((IpAddr { octets }, pos + 16))
        } else {
            Err(DecodeError::NotEnoughBytes(Field::Ip))
        }
    }
}

pub proof fn lemma_ip_roundtrip(ip: Seq<u8>, rest: Seq<u8>)
    requires
        ip.len() == 16,
    ensures
        parse_ip(ip + rest) == Ok::<(Seq<u8>, int), DecodeErrorV>((ip, 16)),
{
    assert((ip + rest).subrange(0, 16) =~= ip);
}

// ---------------------------------------------------------------------
// VariableLengthString: a VariableInt length prefix and that many
// bytes
// ---------------------------------------------------------------------

/// Wire image of a length-prefixed byte string.
pub open spec fn spec_varstring_wire(bytes: Seq<u8>) -> Seq<u8> {
    spec_varint_wire(bytes.len() as u64) + bytes
}

pub open spec fn parse_varstring(data: Seq<u8>) -> Result<(Seq<u8>, int), DecodeErrorV> {
    match parse_varint(data) {
        Err(e) => Err(e),
        Ok((n, c)) => {
            if data.len() - c < n {
                Err(DecodeErrorV::NotEnoughBytes(Field::VarString))
            } else {
                Ok((data.subrange(c, c + n), c + n))
            }
        },
    }
}

/// A length-prefixed string.
///
/// The contents are held as the raw bytes that stood on the wire, so
/// a decoded value re-encodes to the exact frame it came from; the
/// lossy text reading (invalid sequences replaced, never rejected)
/// is available through [`VariableLengthString::text`].
#[derive(Clone, Debug, Default, PartialEq, Eq)]
pub struct VariableLengthString {
    bytes: Vec<u8>,
}

impl View for VariableLengthString {
    type V = Seq<u8>;

    closed spec fn view(&self) -> Seq<u8> {
        self.bytes@
    }
}

impl VariableLengthString {
    /// Wraps raw content bytes.
    pub fn from_bytes(bytes: Vec<u8>) -> (r: Self)
        ensures
            r@ == bytes@,
    {
        VariableLengthString { bytes }
    }

    /// Takes a string's UTF-8 bytes as the content.
    pub fn from_text(text: &str) -> (r: Self)
        ensures
            r@ == text.spec_bytes(),
    {
        VariableLengthString { bytes: text.as_bytes_vec() }
    }

    /// The raw content bytes.
    pub fn as_bytes(&self) -> (r: &Vec<u8>)
        ensures
            r@ == self@,
    {
        &self.bytes
    }

    /// The contents read as text: valid UTF-8 decodes unchanged,
    /// invalid sequences are replaced, never rejected.
    pub fn text(&self) -> (r: String)
        ensures
            r@ == utf8_lossy_of(self@),
            vstd::utf8::valid_utf8(self@) ==> r@ == vstd::utf8::decode_utf8(self@),
    {
        utf8_lossy(self.bytes.as_slice())
    }
}

/// What `String::from_utf8_lossy` makes of a byte sequence: a pure
/// function of the bytes alone.
pub uninterp spec fn utf8_lossy_of(bytes: Seq<u8>) -> Seq<char>;

/// Relies on String::from_utf8_lossy: the result depends on the
/// bytes alone, and valid UTF-8 comes back as exactly its decoded
/// characters (invalid sequences are replaced instead).
#[verifier::external_body]
fn utf8_lossy(bytes: &[u8]) -> (r: String)
    ensures
        r@ == utf8_lossy_of(bytes@),
        vstd::utf8::valid_utf8(bytes@) ==> r@ == vstd::utf8::decode_utf8(bytes@),
{
    String::from_utf8_lossy(bytes).into_owned()
}

impl Encode for VariableLengthString {
    open spec fn wf(&self) -> bool {
        true
    }

    open spec fn wire(&self) -> Seq<u8> {
        spec_varstring_wire(self@)
    }

    fn encode(&self, buffer: &mut Vec<u8>) -> (n: usize) {
        let prefix = VariableInt(self.bytes.len() as u64).encode(buffer);
        buffer.extend_from_slice(self.bytes.as_slice());
        proof {
            lemma_vec_len_bound(buffer);
            assert(buffer@ =~= old(buffer)@ + self.wire());
        }
        prefix + self.bytes.len()
    }
}

impl Decode for VariableLengthString {
    open spec fn parse(data: Seq<u8>) -> Result<(Seq<u8>, int), DecodeErrorV> {
        parse_varstring(data)
    }

    fn decode(buffer: &Vec<u8>, pos: usize) -> (r: Result<(Self, usize), DecodeError>) {
        let (prefix, start) = VariableInt::decode(buffer, pos)?;
        let n = prefix.0;
        if ((buffer.len() - start) as u64) < n {
            return Err(DecodeError::NotEnoughBytes(Field::VarString));
        }
        let len = n as usize;
        let bytes = slice_to_vec(slice_subrange(buffer.as_slice(), start, start + len));
        proof {
            let data = buffer@.skip(pos as int);
            let c = (start - pos) as int;
            assert(data.subrange(c, c + n) =~= buffer@.subrange(start as int, start as int + n));
        }
        Ok((VariableLengthString { bytes }, start + len))
    }
}

pub proof fn lemma_varstring_roundtrip(bytes: Seq<u8>, rest: Seq<u8>)
    requires
        bytes.len() <= u64::MAX,
    ensures
        parse_varstring(spec_varstring_wire(bytes) + rest) == Ok::<(Seq<u8>, int), DecodeErrorV>((
            bytes,
            spec_varstring_wire(bytes).len() as int,
        )),
{
    let n = bytes.len() as u64;
    let data = spec_varstring_wire(bytes) + rest;
    assert(data =~= spec_varint_wire(n) + (bytes + rest));
    lemma_varint_roundtrip(n, bytes + rest);
    let c = spec_varint_wire(n).len() as int;
    assert(data.subrange(c, c + n) =~= bytes);
}

// ---------------------------------------------------------------------
// Address: a peer-address record inside a Version payload
// ---------------------------------------------------------------------

/// Mathematical model of an [`Address`].
#[verifier::ext_equal]
pub ghost struct AddressV {
    pub services: u64,
    pub ip: Seq<u8>,
    pub port: u16,
}

impl AddressV {
    pub open spec fn wf(self) -> bool {
        self.ip.len() == 16
    }

    pub open spec fn wire(self) -> Seq<u8> {
        spec_u64_to_le_bytes(self.services) + self.ip + spec_port_to_be_bytes(self.port)
    }
}

pub open spec fn parse_address(data: Seq<u8>) -> Result<(AddressV, int), DecodeErrorV> {
    match parse_u64(data) {
        Err(e) => Err(e),
        Ok((services, p1)) => match parse_ip(data.skip(p1)) {
            Err(e) => Err(e),
            Ok((ip, n2)) => match parse_port(data.skip(p1 + n2)) {
                Err(e) => Err(e),
                Ok((port, n3)) => Ok((AddressV { services, ip, port }, p1 + n2 + n3)),
            },
        },
    }
}

/// A peer-address record: a services bitfield, a 16-byte IP address,
/// and a big-endian port. As embedded in a Version payload it carries
/// no per-address timestamp.
#[derive(Clone, Debug, PartialEq, Eq)]
pub struct Address {
    pub services: u64,
    pub ip: IpAddr,
    pub port: Port,
}

impl View for Address {
    type V = AddressV;

    open spec fn view(&self) -> AddressV {
        AddressV { services: self.services, ip: self.ip@, port: self.port@ }
    }
}

impl Encode for Address {
    open spec fn wf(&self) -> bool {
        self@.wf()
    }

    open spec fn wire(&self) -> Seq<u8> {
        self@.wire()
    }

    fn encode(&self, buffer: &mut Vec<u8>) -> (n: usize) {
        let n1 = encode_u64_le(self.services, buffer);
        let n2 = self.ip.encode(buffer);
        let n3 = self.port.encode(buffer);
        proof {
            lemma_auto_spec_u64_to_from_le_bytes();
            assert(buffer@ =~= old(buffer)@ + self.wire());
        }
        n1 + n2 + n3
    }
}

impl Decode for Address {
    open spec fn parse(data: Seq<u8>) -> Result<(AddressV, int), DecodeErrorV> {
        parse_address(data)
    }

    fn decode(buffer: &Vec<u8>, pos: usize) -> (r: Result<(Self, usize), DecodeError>) {
        let (services, p1) = decode_u64_le(buffer, pos)?;
        proof {
            lemma_skip_skip(buffer@, pos as int, p1 - pos);
        }
        let (ip, p2) = IpAddr::decode(buffer, p1)?;
        proof {
            lemma_skip_skip(buffer@, pos as int, p2 - pos);
        }
        let (port, p3) = Port::decode(buffer, p2)?;
        Ok((Address { services, ip, port }, p3))
    }
}

pub proof fn lemma_address_wire_len(a: AddressV)
    requires
        a.wf(),
    ensures
        a.wire().len() == 26,
{
    lemma_auto_spec_u64_to_from_le_bytes();
}

pub proof fn lemma_address_roundtrip(a: AddressV, rest: Seq<u8>)
    requires
        a.wf(),
    ensures
        parse_address(a.wire() + rest) == Ok::<(AddressV, int), DecodeErrorV>((a, 26)),
{
    lemma_auto_spec_u64_to_from_le_bytes();
    let data = a.wire() + rest;
    let port_bytes = spec_port_to_be_bytes(a.port);
    assert(data =~= spec_u64_to_le_bytes(a.services) + (a.ip + (port_bytes + rest)));
    lemma_u64_roundtrip(a.services, a.ip + (port_bytes + rest));
    assert(data.skip(8) =~= a.ip + (port_bytes + rest));
    lemma_ip_roundtrip(a.ip, port_bytes + rest);
    assert(data.skip(24) =~= port_bytes + rest);
    lemma_port_roundtrip(a.port, rest);
}

// ---------------------------------------------------------------------
// VersionMessage: the negotiation payload
// ---------------------------------------------------------------------

/// Mathematical model of a [`VersionMessage`].
#[verifier::ext_equal]
pub ghost struct VersionMessageV {
    pub version: i32,
    pub services: u64,
    pub timestamp: i64,
    pub addr_recv: AddressV,
    pub addr_from: AddressV,
    pub nonce: u64,
    pub user_agent: Seq<u8>,
    pub start_height: i32,
    pub relay: bool,
}

impl VersionMessageV {
    pub open spec fn wf(self) -> bool {
        &&& self.addr_recv.wf()
        &&& self.addr_from.wf()
        &&& self.user_agent.len() <= u64::MAX
    }

    pub open spec fn wire(self) -> Seq<u8> {
        spec_i32_to_le_bytes(self.version) + spec_u64_to_le_bytes(self.services)
            + spec_i64_to_le_bytes(self.timestamp) + self.addr_recv.wire() + self.addr_from.wire()
            + spec_u64_to_le_bytes(self.nonce) + spec_varstring_wire(self.user_agent)
            + spec_i32_to_le_bytes(self.start_height) + spec_bool_to_byte(self.relay)
    }
}

pub open spec fn parse_version(data: Seq<u8>) -> Result<(VersionMessageV, int), DecodeErrorV> {
    match parse_i32(data) {
        Err(e) => Err(e),
        Ok((version, p1)) => match parse_u64(data.skip(p1)) {
            Err(e) => Err(e),
            Ok((services, n2)) => match parse_i64(data.skip(p1 + n2)) {
                Err(e) => Err(e),
                Ok((timestamp, n3)) => match parse_address(data.skip(p1 + n2 + n3)) {
                    Err(e) => Err(e),
                    Ok((addr_recv, n4)) => match parse_address(data.skip(p1 + n2 + n3 + n4)) {
                        Err(e) => Err(e),
                        Ok((addr_from, n5)) => match parse_u64(data.skip(p1 + n2 + n3 + n4 + n5)) {
                            Err(e) => Err(e),
                            Ok((nonce, n6)) => match parse_varstring(
                                data.skip(p1 + n2 + n3 + n4 + n5 + n6),
                            ) {
                                Err(e) => Err(e),
                                Ok((user_agent, n7)) => match parse_i32(
                                    data.skip(p1 + n2 + n3 + n4 + n5 + n6 + n7),
                                ) {
                                    Err(e) => Err(e),
                                    Ok((start_height, n8)) => match parse_bool(
                                        data.skip(p1 + n2 + n3 + n4 + n5 + n6 + n7 + n8),
                                    ) {
                                        Err(e) => Err(e),
                                        Ok((relay, n9)) => Ok((
                                            VersionMessageV {
                                                version,
                                                services,
                                                timestamp,
                                                addr_recv,
                                                addr_from,
                                                nonce,
                                                user_agent,
                                                start_height,
                                                relay,
                                            },
                                            p1 + n2 + n3 + n4 + n5 + n6 + n7 + n8 + n9,
                                        )),
                                    },
                                },
                            },
                        },
                    },
                },
            },
        },
    }
}

/// The version-negotiation payload.
#[derive(Clone, Debug, PartialEq, Eq)]
pub struct VersionMessage {
    pub version: i32,
    pub services: u64,
    pub timestamp: i64,
    pub addr_recv: Address,
    pub addr_from: Address,
    pub nonce: u64,
    pub user_agent: VariableLengthString,
    pub start_height: i32,
    pub relay: bool,
}

impl View for VersionMessage {
    type V = VersionMessageV;

    open spec fn view(&self) -> VersionMessageV {
        VersionMessageV {
            version: self.version,
            services: self.services,
            timestamp: self.timestamp,
            addr_recv: self.addr_recv@,
            addr_from: self.addr_from@,
            nonce: self.nonce,
            user_agent: self.user_agent@,
            start_height: self.start_height,
            relay: self.relay,
        }
    }
}

impl Encode for VersionMessage {
    open spec fn wf(&self) -> bool {
        self@.wf()
    }

    open spec fn wire(&self) -> Seq<u8> {
        self@.wire()
    }

    fn encode(&self, buffer: &mut Vec<u8>) -> (n: usize) {
        let n1 = encode_i32_le(self.version, buffer);
        let n2 = encode_u64_le(self.services, buffer);
        let n3 = encode_i64_le(self.timestamp, buffer);
        let n4 = self.addr_recv.encode(buffer);
        let n5 = self.addr_from.encode(buffer);
        let n6 = encode_u64_le(self.nonce, buffer);
        let n7 = self.user_agent.encode(buffer);
        let n8 = encode_i32_le(self.start_height, buffer);
        let n9 = encode_bool(self.relay, buffer);
        proof {
            lemma_vec_len_bound(buffer);
            lemma_auto_spec_u16_to_from_le_bytes();
            lemma_auto_spec_u32_to_from_le_bytes();
            lemma_auto_spec_u64_to_from_le_bytes();
            assert(buffer@ =~= old(buffer)@ + self.wire());
            assert(buffer@.len() == old(buffer)@.len() + n1 + n2 + n3 + n4 + n5 + n6 + n7 + n8
                + n9);
            assert(n1 + n2 + n3 + n4 + n5 + n6 + n7 + n8 + n9 <= usize::MAX);
        }
        n1 + n2 + n3 + n4 + n5 + n6 + n7 + n8 + n9
    }
}

impl Decode for VersionMessage {
    open spec fn parse(data: Seq<u8>) -> Result<(VersionMessageV, int), DecodeErrorV> {
        parse_version(data)
    }

    fn decode(buffer: &Vec<u8>, pos: usize) -> (r: Result<(Self, usize), DecodeError>) {
        let (version, p1) = decode_i32_le(buffer, pos)?;
        proof {
            lemma_skip_skip(buffer@, pos as int, p1 - pos);
        }
        let (services, p2) = decode_u64_le(buffer, p1)?;
        proof {
            lemma_skip_skip(buffer@, pos as int, p2 - pos);
        }
        let (timestamp, p3) = decode_i64_le(buffer, p2)?;
        proof {
            lemma_skip_skip(buffer@, pos as int, p3 - pos);
        }
        let (addr_recv, p4) = Address::decode(buffer, p3)?;
        proof {
            lemma_skip_skip(buffer@, pos as int, p4 - pos);
        }
        let (addr_from, p5) = Address::decode(buffer, p4)?;
        proof {
            lemma_skip_skip(buffer@, pos as int, p5 - pos);
        }
        let (nonce, p6) = decode_u64_le(buffer, p5)?;
        proof {
            lemma_skip_skip(buffer@, pos as int, p6 - pos);
        }
        let (user_agent, p7) = VariableLengthString::decode(buffer, p6)?;
        proof {
            lemma_skip_skip(buffer@, pos as int, p7 - pos);
        }
        let (start_height, p8) = decode_i32_le(buffer, p7)?;
        proof {
            lemma_skip_skip(buffer@, pos as int, p8 - pos);
        }
        let (relay, p9) = decode_bool(buffer, p8)?;
        Ok((
            VersionMessage {
                version,
                services,
                timestamp,
                addr_recv,
                addr_from,
                nonce,
                user_agent,
                start_height,
                relay,
            },
            p9,
        ))
    }
}

// ---------------------------------------------------------------------
// Command: the closed set of protocol verbs
// ---------------------------------------------------------------------

/// A protocol verb. Each maps bijectively to an exact 12-byte ASCII,
/// NUL-padded wire name.
#[derive(Clone, Copy, Debug, PartialEq, Eq, Structural)]
pub enum Command {
    Version,
    VerAck,
    SendHeaders,
    WtxIdRelay,
    SendAddrV2,
}

/// The command name table: the exact 12-byte wire name of each verb.
pub open spec fn command_name(c: Command) -> Seq<u8> {
    match c {
        // "version", "verack", "sendheaders", "wtxidrelay" and
        // "sendaddrv2", each NUL-padded to 12 bytes.
        Command::Version => seq![118u8, 101, 114, 115, 105, 111, 110, 0, 0, 0, 0, 0],
        Command::VerAck => seq![118u8, 101, 114, 97, 99, 107, 0, 0, 0, 0, 0, 0],
        Command::SendHeaders => seq![115u8, 101, 110, 100, 104, 101, 97, 100, 101, 114, 115, 0],
        Command::WtxIdRelay => seq![119u8, 116, 120, 105, 100, 114, 101, 108, 97, 121, 0, 0],
        Command::SendAddrV2 => seq![115u8, 101, 110, 100, 97, 100, 100, 114, 118, 50, 0, 0],
    }
}

/// Reading a command consumes exactly 12 bytes; a span absent from
/// the table is an unknown-command error carrying those bytes.
pub open spec fn parse_command(data: Seq<u8>) -> Result<(Command, int), DecodeErrorV> {
    if data.len() < 12 {
        Err(DecodeErrorV::NotEnoughBytes(Field::Command))
    } else {
        let name = data.subrange(0, 12);
        if name == command_name(Command::Version) {
            Ok((Command::Version, 12))
        } else if name == command_name(Command::VerAck) {
            Ok((Command::VerAck, 12))
        } else if name == command_name(Command::WtxIdRelay) {
            Ok((Command::WtxIdRelay, 12))
        } else if name == command_name(Command::SendHeaders) {
            Ok((Command::SendHeaders, 12))
        } else if name == command_name(Command::SendAddrV2) {
            Ok((Command::SendAddrV2, 12))
        } else {
            Err(DecodeErrorV::UnknownCommand(name))
        }
    }
}

/// The wire name of a verb, as a fresh vector.
fn command_bytes(c: &Command) -> (r: Vec<u8>)
    ensures
        r@ == command_name(*c),
        r@.len() == 12,
{
    match c {
        Command::Version => vec![118u8, 101, 114, 115, 105, 111, 110, 0, 0, 0, 0, 0],
        Command::VerAck => vec![118u8, 101, 114, 97, 99, 107, 0, 0, 0, 0, 0, 0],
        Command::SendHeaders => vec![115u8, 101, 110, 100, 104, 101, 97, 100, 101, 114, 115, 0],
        Command::WtxIdRelay => vec![119u8, 116, 120, 105, 100, 114, 101, 108, 97, 121, 0, 0],
        Command::SendAddrV2 => vec![115u8, 101, 110, 100, 97, 100, 100, 114, 118, 50, 0, 0],
    }
}

/// Byte-for-byte comparison of two 12-byte names.
fn name_matches(name: &Vec<u8>, pattern: &Vec<u8>) -> (b: bool)
    requires
        name@.len() == 12,
        pattern@.len() == 12,
    ensures
        b <==> name@ == pattern@,
{
    let mut i: usize = 0;
    while i < 12
        invariant
            i <= 12,
            name@.len() == 12,
            pattern@.len() == 12,
            forall|j: int| 0 <= j < i ==> name@[j] == pattern@[j],
        decreases 12 - i,
    {
        if name[i] != pattern[i] {
            return false;
        }
        i += 1;
    }
    proof {
        assert(name@ =~= pattern@);
    }
    true
}

impl View for Command {
    type V = Command;

    open spec fn view(&self) -> Command {
        *self
    }
}

impl Encode for Command {
    open spec fn wf(&self) -> bool {
        true
    }

    open spec fn wire(&self) -> Seq<u8> {
        command_name(*self)
    }

    fn encode(&self, buffer: &mut Vec<u8>) -> (n: usize) {
        let mut name = command_bytes(self);
        buffer.append(&mut name);
        12
    }
}

impl Decode for Command {
    open spec fn parse(data: Seq<u8>) -> Result<(Command, int), DecodeErrorV> {
        parse_command(data)
    }

    fn decode(buffer: &Vec<u8>, pos: usize) -> (r: Result<(Self, usize), DecodeError>) {
        if buffer.len() - pos < 12 {
            return Err(DecodeError::NotEnoughBytes(Field::Command));
        }
        let name = slice_to_vec(slice_subrange(buffer.as_slice(), pos, pos + 12));
        proof {
            assert(name@ =~= buffer@.skip(pos as int).subrange(0, 12));
        }
        let end = pos + 12;
        if name_matches(&name, &command_bytes(&Command::Version)) {
            Ok((Command::Version, end))
        } else if name_matches(&name, &command_bytes(&Command::VerAck)) {
            Ok((Command::VerAck, end))
        } else if name_matches(&name, &command_bytes(&Command::WtxIdRelay)) {
            Ok((Command::WtxIdRelay, end))
        } else if name_matches(&name, &command_bytes(&Command::SendHeaders)) {
            Ok((Command::SendHeaders, end))
        } else if name_matches(&name, &command_bytes(&Command::SendAddrV2)) {
            Ok((Command::SendAddrV2, end))
        } else {
            Err(DecodeError::UnknownCommand(name))
        }
    }
}

// ---------------------------------------------------------------------
// Payload: the tagged union keyed by Command
// ---------------------------------------------------------------------

/// Mathematical model of a [`Payload`].
#[verifier::ext_equal]
pub ghost enum PayloadV {
    Version(VersionMessageV),
    VerAck,
    SendHeaders,
    Empty,
}

impl PayloadV {
    pub open spec fn wf(self) -> bool {
        match self {
            PayloadV::Version(v) => v.wf(),
            _ => true,
        }
    }

    pub open spec fn wire(self) -> Seq<u8> {
        match self {
            PayloadV::Version(v) => v.wire(),
            _ => Seq::empty(),
        }
    }
}

/// Payload reading is dispatched on the already-decoded command.
/// VerAck and SendHeaders carry no data but stay distinct variants;
/// WtxIdRelay and SendAddrV2 read to the explicit empty variant.
pub open spec fn parse_payload(command: Command, data: Seq<u8>) -> Result<
    (PayloadV, int),
    DecodeErrorV,
> {
    match command {
        Command::Version => match parse_version(data) {
            Ok((v, n)) => Ok((PayloadV::Version(v), n)),
            Err(e) => Err(e),
        },
        Command::VerAck => Ok((PayloadV::VerAck, 0)),
        Command::SendHeaders => Ok((PayloadV::SendHeaders, 0)),
        Command::WtxIdRelay => Ok((PayloadV::Empty, 0)),
        Command::SendAddrV2 => Ok((PayloadV::Empty, 0)),
    }
}

/// A message payload.
#[derive(Clone, Debug, PartialEq, Eq)]
pub enum Payload {
    Version(VersionMessage),
    VerAck,
    SendHeaders,
    Empty,
}

impl View for Payload {
    type V = PayloadV;

    open spec fn view(&self) -> PayloadV {
        match self {
            Payload::Version(v) => PayloadV::Version(v@),
            Payload::VerAck => PayloadV::VerAck,
            Payload::SendHeaders => PayloadV::SendHeaders,
            Payload::Empty => PayloadV::Empty,
        }
    }
}

impl Encode for Payload {
    open spec fn wf(&self) -> bool {
        self@.wf()
    }

    open spec fn wire(&self) -> Seq<u8> {
        self@.wire()
    }

    fn encode(&self, buffer: &mut Vec<u8>) -> (n: usize) {
        match self {
            Payload::Version(v) => v.encode(buffer),
            Payload::VerAck => 0,
            Payload::SendHeaders => 0,
            Payload::Empty => 0,
        }
    }
}

impl Payload {
    /// Reads the payload that the given command announces; the no-data
    /// commands consume zero additional bytes.
    pub fn decode_command(command: &Command, buffer: &Vec<u8>, pos: usize) -> (r: Result<
        (Payload, usize),
        DecodeError,
    >)
        requires
            pos <= buffer@.len(),
        ensures
            match (r, parse_payload(*command, buffer@.skip(pos as int))) {
                (Ok((v, end)), Ok((sv, n))) => v@ == sv && v.wf() && end == pos + n && end
                    <= buffer@.len(),
                (Err(e), Err(se)) => e@ == se,
                _ => false,
            },
    {
        match command {
            Command::Version => {
                let (v, end) = VersionMessage::decode(buffer, pos)?;
                Ok((Payload::Version(v), end))
            },
            Command::VerAck => Ok((Payload::VerAck, pos)),
            Command::SendHeaders => Ok((Payload::SendHeaders, pos)),
            Command::WtxIdRelay => Ok((Payload::Empty, pos)),
            Command::SendAddrV2 => Ok((Payload::Empty, pos)),
        }
    }
}

// ---------------------------------------------------------------------
// Message: the checksum-framed envelope
// ---------------------------------------------------------------------

/// Mathematical model of a [`Message`].
#[verifier::ext_equal]
pub ghost struct MessageV {
    pub magic: u32,
    pub command: Command,
    pub length: u32,
    pub checksum: u32,
    pub payload: PayloadV,
}

/// Whether a payload variant is the one its command announces.
pub open spec fn command_payload_agree(command: Command, payload: PayloadV) -> bool {
    match command {
        Command::Version => payload is Version,
        Command::VerAck => payload == PayloadV::VerAck,
        Command::SendHeaders => payload == PayloadV::SendHeaders,
        Command::WtxIdRelay => payload == PayloadV::Empty,
        Command::SendAddrV2 => payload == PayloadV::Empty,
    }
}

impl MessageV {
    pub open spec fn wf(self) -> bool {
        self.payload.wf()
    }

    /// The invariant a freshly constructed message satisfies: the
    /// length is the payload's encoded byte count, the checksum is the
    /// digest of those bytes, and the command announces the payload
    /// variant that is present.
    pub open spec fn valid(self) -> bool {
        &&& self.length == self.payload.wire().len()
        &&& self.checksum == spec_checksum(self.payload.wire())
        &&& command_payload_agree(self.command, self.payload)
    }

    pub open spec fn wire(self) -> Seq<u8> {
        spec_u32_to_le_bytes(self.magic) + command_name(self.command) + spec_u32_to_le_bytes(
            self.length,
        ) + spec_u32_to_le_bytes(self.checksum) + self.payload.wire()
    }
}

/// Reading an envelope: magic, command, length, checksum, then the
/// payload the command announces. The checksum stored in the header
/// must match the recomputed digest of the payload bytes actually
/// read; the length field is stored as announced.
pub open spec fn parse_message(data: Seq<u8>) -> Result<(MessageV, int), DecodeErrorV> {
    match parse_u32(data) {
        Err(e) => Err(e),
        Ok((magic, p1)) => match parse_command(data.skip(p1)) {
            Err(e) => Err(e),
            Ok((command, n2)) => match parse_u32(data.skip(p1 + n2)) {
                Err(e) => Err(e),
                Ok((length, n3)) => match parse_u32(data.skip(p1 + n2 + n3)) {
                    Err(e) => Err(e),
                    Ok((checksum, n4)) => match parse_payload(
                        command,
                        data.skip(p1 + n2 + n3 + n4),
                    ) {
                        Err(e) => Err(e),
                        Ok((payload, n5)) => {
                            let start = p1 + n2 + n3 + n4;
                            let computed = spec_checksum(data.subrange(start, start + n5));
                            if checksum == computed {
                                Ok((
                                    MessageV { magic, command, length, checksum, payload },
                                    start + n5,
                                ))
                            } else {
                                Err(
                                    DecodeErrorV::ChecksumMismatch {
                                        expected: checksum,
                                        computed,
                                    },
                                )
                            }
                        },
                    },
                },
            },
        },
    }
}

/// The message envelope: magic, command, length, checksum, payload.
///
/// The fields are immutable after construction: [`Message::new`]
/// computes the length and checksum from the payload, and the decode
/// path stores exactly what stood on the wire.
#[derive(Clone, Debug, PartialEq, Eq)]
pub struct Message {
    magic: u32,
    command: Command,
    length: u32,
    checksum: u32,
    payload: Payload,
}

impl View for Message {
    type V = MessageV;

    closed spec fn view(&self) -> MessageV {
        MessageV {
            magic: self.magic,
            command: self.command,
            length: self.length,
            checksum: self.checksum,
            payload: self.payload@,
        }
    }
}

impl Message {
    /// Builds an envelope around a payload, computing the length and
    /// checksum fields from the payload's encoded bytes.
    pub fn new(magic: u32, command: Command, payload: Payload) -> (r: Self)
        requires
            payload.wf(),
            payload.wire().len() <= u32::MAX,
        ensures
            r@ == (MessageV {
                magic,
                command,
                length: payload.wire().len() as u32,
                checksum: spec_checksum(payload.wire()),
                payload: payload@,
            }),
            r.wf(),
    {
        let mut payload_encoded: Vec<u8> = Vec::new();
        let length = payload.encode(&mut payload_encoded);
        let checksum = checksum_slice(payload_encoded.as_slice());
        Self { magic, command, length: length as u32, checksum, payload }
    }

    pub fn magic(&self) -> (r: u32)
        ensures
            r == self@.magic,
    {
        self.magic
    }

    pub fn command(&self) -> (r: Command)
        ensures
            r == self@.command,
    {
        self.command
    }

    pub fn length(&self) -> (r: u32)
        ensures
            r == self@.length,
    {
        self.length
    }

    pub fn checksum(&self) -> (r: u32)
        ensures
            r == self@.checksum,
    {
        self.checksum
    }

    pub fn payload(&self) -> (r: &Payload)
        ensures
            r@ == self@.payload,
    {
        &self.payload
    }
}

impl Encode for Message {
    open spec fn wf(&self) -> bool {
        self@.wf()
    }

    open spec fn wire(&self) -> Seq<u8> {
        self@.wire()
    }

    fn encode(&self, buffer: &mut Vec<u8>) -> (n: usize) {
        let n1 = encode_u32_le(self.magic, buffer);
        let n2 = self.command.encode(buffer);
        let n3 = encode_u32_le(self.length, buffer);
        let n4 = encode_u32_le(self.checksum, buffer);
        let n5 = self.payload.encode(buffer);
        proof {
            lemma_vec_len_bound(buffer);
            lemma_auto_spec_u32_to_from_le_bytes();
            assert(buffer@ =~= old(buffer)@ + self.wire());
            assert(buffer@.len() == old(buffer)@.len() + n1 + n2 + n3 + n4 + n5);
            assert(n1 + n2 + n3 + n4 + n5 <= usize::MAX);
        }
        n1 + n2 + n3 + n4 + n5
    }
}

impl Decode for Message {
    open spec fn parse(data: Seq<u8>) -> Result<(MessageV, int), DecodeErrorV> {
        parse_message(data)
    }

    fn decode(buffer: &Vec<u8>, pos: usize) -> (r: Result<(Self, usize), DecodeError>) {
        let (magic, p1) = decode_u32_le(buffer, pos)?;
        proof {
            lemma_skip_skip(buffer@, pos as int, p1 - pos);
        }
        let (command, p2) = Command::decode(buffer, p1)?;
        proof {
            lemma_skip_skip(buffer@, pos as int, p2 - pos);
        }
        let (length, p3) = decode_u32_le(buffer, p2)?;
        proof {
            lemma_skip_skip(buffer@, pos as int, p3 - pos);
        }
        let (checksum, p4) = decode_u32_le(buffer, p3)?;
        proof {
            lemma_skip_skip(buffer@, pos as int, p4 - pos);
        }
        let (payload, end) = Payload::decode_command(&command, buffer, p4)?;
        let payload_bytes = slice_subrange(buffer.as_slice(), p4, end);
        let computed = checksum_slice(payload_bytes);
        proof {
            assert(buffer@.skip(pos as int).subrange(p4 - pos, end - pos) =~= buffer@.subrange(
                p4 as int,
                end as int,
            ));
        }
        if checksum == computed {
            Ok((Message { magic, command, length, checksum, payload }, end))
        } else {
            Err(DecodeError::ChecksumMismatch { expected: checksum, computed })
        }
    }
}

// ---------------------------------------------------------------------
// Wire lengths
// ---------------------------------------------------------------------

/// The encoded width of a variable-width integer.
pub open spec fn spec_varint_len(v: u64) -> int {
    if v <= 0xFC {
        1
    } else if v <= 0xFFFF {
        3
    } else if v <= 0xFFFFFFFF {
        5
    } else {
        9
    }
}

pub proof fn lemma_varint_wire_len(v: u64)
    ensures
        spec_varint_wire(v).len() == spec_varint_len(v),
{
    lemma_auto_spec_u16_to_from_le_bytes();
    lemma_auto_spec_u32_to_from_le_bytes();
    lemma_auto_spec_u64_to_from_le_bytes();
}

/// A version payload is 85 fixed bytes plus the length-prefixed user
/// agent.
pub proof fn lemma_version_wire_len(v: VersionMessageV)
    requires
        v.wf(),
    ensures
        v.wire().len() == 85 + spec_varint_len(v.user_agent.len() as u64) + v.user_agent.len(),
{
    lemma_auto_spec_u32_to_from_le_bytes();
    lemma_auto_spec_u64_to_from_le_bytes();
    lemma_varint_wire_len(v.user_agent.len() as u64);
    lemma_address_wire_len(v.addr_recv);
    lemma_address_wire_len(v.addr_from);
}

/// An envelope is a 24-byte header followed by the payload bytes.
pub proof fn lemma_message_wire_len(m: MessageV)
    ensures
        m.wire().len() == 24 + m.payload.wire().len(),
{
    lemma_auto_spec_u32_to_from_le_bytes();
    assert(command_name(m.command).len() == 12);
}

// ---------------------------------------------------------------------
// Round trips and the command bijection
// ---------------------------------------------------------------------

/// The command table is a bijection: each verb has a 12-byte name, and
/// distinct verbs have distinct names.
pub proof fn lemma_command_bijection(c1: Command, c2: Command)
    ensures
        command_name(c1).len() == 12,
        c1 != c2 ==> command_name(c1) != command_name(c2),
{
    let v = command_name(Command::Version);
    let a = command_name(Command::VerAck);
    let h = command_name(Command::SendHeaders);
    let w = command_name(Command::WtxIdRelay);
    let s = command_name(Command::SendAddrV2);
    assert(v[0] == 118 && a[0] == 118 && h[0] == 115 && w[0] == 119 && s[0] == 115);
    assert(v[3] == 115 && a[3] == 97);
    assert(h[4] == 104 && s[4] == 97);
}

/// Decoding a verb's own table entry yields that verb and consumes
/// exactly the 12 name bytes.
pub proof fn lemma_command_roundtrip(c: Command, rest: Seq<u8>)
    ensures
        parse_command(command_name(c) + rest) == Ok::<(Command, int), DecodeErrorV>((c, 12)),
{
    lemma_command_bijection(c, c);
    let data = command_name(c) + rest;
    assert(data.subrange(0, 12) =~= command_name(c));
    match c {
        Command::Version => {},
        Command::VerAck => {
            lemma_command_bijection(Command::VerAck, Command::Version);
        },
        Command::WtxIdRelay => {
            lemma_command_bijection(Command::WtxIdRelay, Command::Version);
            lemma_command_bijection(Command::WtxIdRelay, Command::VerAck);
        },
        Command::SendHeaders => {
            lemma_command_bijection(Command::SendHeaders, Command::Version);
            lemma_command_bijection(Command::SendHeaders, Command::VerAck);
            lemma_command_bijection(Command::SendHeaders, Command::WtxIdRelay);
        },
        Command::SendAddrV2 => {
            lemma_command_bijection(Command::SendAddrV2, Command::Version);
            lemma_command_bijection(Command::SendAddrV2, Command::VerAck);
            lemma_command_bijection(Command::SendAddrV2, Command::WtxIdRelay);
            lemma_command_bijection(Command::SendAddrV2, Command::SendHeaders);
        },
    }
}

/// Parsing a version payload's wire image yields the payload back.
#[verifier::rlimit(100)]
#[verifier::spinoff_prover]
pub proof fn lemma_version_roundtrip(v: VersionMessageV, rest: Seq<u8>)
    requires
        v.wf(),
    ensures
        parse_version(v.wire() + rest) == Ok::<(VersionMessageV, int), DecodeErrorV>((
            v,
            v.wire().len() as int,
        )),
{
    lemma_auto_spec_u16_to_from_le_bytes();
    lemma_auto_spec_u32_to_from_le_bytes();
    lemma_auto_spec_u64_to_from_le_bytes();
    lemma_address_wire_len(v.addr_recv);
    lemma_address_wire_len(v.addr_from);
    lemma_varint_wire_len(v.user_agent.len() as u64);
    let ua_len = spec_varstring_wire(v.user_agent).len() as int;
    let data = v.wire() + rest;
    let t8 = spec_bool_to_byte(v.relay) + rest;
    let t7 = spec_i32_to_le_bytes(v.start_height) + t8;
    let t6 = spec_varstring_wire(v.user_agent) + t7;
    let t5 = spec_u64_to_le_bytes(v.nonce) + t6;
    let t4 = v.addr_from.wire() + t5;
    let t3 = v.addr_recv.wire() + t4;
    let t2 = spec_i64_to_le_bytes(v.timestamp) + t3;
    let t1 = spec_u64_to_le_bytes(v.services) + t2;
    assert(data =~= spec_i32_to_le_bytes(v.version) + t1);
    lemma_i32_roundtrip(v.version, t1);
    assert(data.skip(4) =~= t1);
    lemma_u64_roundtrip(v.services, t2);
    assert(data.skip(12) =~= t2);
    lemma_i64_roundtrip(v.timestamp, t3);
    assert(data.skip(20) =~= t3);
    lemma_address_roundtrip(v.addr_recv, t4);
    assert(data.skip(46) =~= t4);
    lemma_address_roundtrip(v.addr_from, t5);
    assert(data.skip(72) =~= t5);
    lemma_u64_roundtrip(v.nonce, t6);
    assert(data.skip(80) =~= t6);
    lemma_varstring_roundtrip(v.user_agent, t7);
    assert(data.skip(80 + ua_len) =~= t7);
    lemma_i32_roundtrip(v.start_height, t8);
    assert(data.skip(84 + ua_len) =~= t8);
    lemma_bool_roundtrip(v.relay, rest);
    assert(VersionMessageV {
        version: v.version,
        services: v.services,
        timestamp: v.timestamp,
        addr_recv: v.addr_recv,
        addr_from: v.addr_from,
        nonce: v.nonce,
        user_agent: v.user_agent,
        start_height: v.start_height,
        relay: v.relay,
    } =~= v);
    lemma_version_wire_len(v);
}

/// Parsing the payload a command announces yields the payload back.
pub proof fn lemma_payload_roundtrip(command: Command, p: PayloadV, rest: Seq<u8>)
    requires
        p.wf(),
        command_payload_agree(command, p),
    ensures
        parse_payload(command, p.wire() + rest) == Ok::<(PayloadV, int), DecodeErrorV>((
            p,
            p.wire().len() as int,
        )),
{
    match p {
        PayloadV::Version(v) => {
            lemma_version_roundtrip(v, rest);
        },
        _ => {},
    }
}

/// The round trip: decoding the wire image of any well-formed message
/// that satisfies the construction invariant yields the message back
/// and consumes exactly its frame, whatever bytes follow it.
///
/// Together with the contracts of [`Encode::encode`] and
/// [`Decode::decode`] this states that `decode(encode(m)) == m` for
/// every constructed message.
#[verifier::rlimit(100)]
#[verifier::spinoff_prover]
pub proof fn lemma_message_roundtrip(m: MessageV, rest: Seq<u8>)
    requires
        m.wf(),
        m.valid(),
    ensures
        parse_message(m.wire() + rest) == Ok::<(MessageV, int), DecodeErrorV>((
            m,
            m.wire().len() as int,
        )),
{
    lemma_auto_spec_u32_to_from_le_bytes();
    lemma_command_bijection(m.command, m.command);
    lemma_message_wire_len(m);
    let data = m.wire() + rest;
    let payload_len = m.payload.wire().len() as int;
    let t4 = m.payload.wire() + rest;
    let t3 = spec_u32_to_le_bytes(m.checksum) + t4;
    let t2 = spec_u32_to_le_bytes(m.length) + t3;
    let t1 = command_name(m.command) + t2;
    assert(data =~= spec_u32_to_le_bytes(m.magic) + t1);
    lemma_u32_roundtrip(m.magic, t1);
    assert(data.skip(4) =~= t1);
    lemma_command_roundtrip(m.command, t2);
    assert(data.skip(16) =~= t2);
    lemma_u32_roundtrip(m.length, t3);
    assert(data.skip(20) =~= t3);
    lemma_u32_roundtrip(m.checksum, t4);
    assert(data.skip(24) =~= t4);
    lemma_payload_roundtrip(m.command, m.payload, rest);
    assert(data.subrange(24, 24 + payload_len) =~= m.payload.wire());
    assert(MessageV {
        magic: m.magic,
        command: m.command,
        length: m.length,
        checksum: m.checksum,
        payload: m.payload,
    } =~= m);
}

} // verus!
