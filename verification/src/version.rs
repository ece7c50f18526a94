//! The `version` payload and the network address embedded in it.
//!
//! Layout of the payload, in bytes: protocol version (4, little-endian),
//! services (8), timestamp (8), receiver address (26), sender address (26),
//! nonce (8), user-agent length (1), user agent (UTF-8), start height (4),
//! relay flag (1). An address is services (8, little-endian), IP (16) and
//! port (2, big-endian).

use crate::endian::{
    get_i32_le, get_i64_le, get_u16_be, get_u64_le, lemma_i32_round_trip, lemma_i64_round_trip,
    lemma_u16_round_trip, lemma_u64_round_trip, put_bytes, put_i32_le, put_i64_le, put_u16_be,
    put_u64_le, spec_i32_from_le, spec_i32_le, spec_i64_from_le, spec_i64_le, spec_u16_be,
    spec_u16_from_be, spec_u64_from_le, spec_u64_le,
};
use crate::error::{DecodingError, EncodingError};
use crate::text::string_from_utf8;
use vstd::prelude::*;
use vstd::slice::{slice_subrange, slice_to_vec};
use vstd::utf8::{decode_utf8, encode_utf8, valid_utf8};

verus! {

/// Bytes of an address on the wire.
pub const ADDRESS_LEN: usize = 26;

/// Bytes of a `version` payload with an empty user agent.
pub const VERSION_FIXED_LEN: usize = 86;

/// Longest user agent, in bytes, that the one-byte length prefix can say.
pub const USER_AGENT_MAX_LEN: usize = 255;

/// A peer's address as the protocol carries it. An IPv4 address is held as
/// IPv4-mapped IPv6.
#[derive(Clone, Copy, Debug, PartialEq, Eq)]
pub struct NetworkAddress {
    pub ip: [u8; 16],
    pub services: u64,
    pub port: u16,
}

/// The `version` message that opens a handshake.
#[derive(Clone, Debug, PartialEq, Eq)]
pub struct VersionMessage {
    pub version: i32,
    pub services: u64,
    pub timestamp: i64,
    pub addr_recv: NetworkAddress,
    pub addr_from: NetworkAddress,
    pub nonce: u64,
    pub user_agent: String,
    pub start_height: i32,
    pub relay: bool,
}

/// What a `version` message says: the fields, the user agent as characters.
pub struct VersionPayload {
    pub version: i32,
    pub services: u64,
    pub timestamp: i64,
    pub addr_recv: NetworkAddress,
    pub addr_from: NetworkAddress,
    pub nonce: u64,
    pub user_agent: Seq<char>,
    pub start_height: i32,
    pub relay: bool,
}

impl View for VersionMessage {
    type V = VersionPayload;

    open spec fn view(&self) -> VersionPayload {
        VersionPayload {
            version: self.version,
            services: self.services,
            timestamp: self.timestamp,
            addr_recv: self.addr_recv,
            addr_from: self.addr_from,
            nonce: self.nonce,
            user_agent: self.user_agent@,
            start_height: self.start_height,
            relay: self.relay,
        }
    }
}

/// The 26 bytes of an address: services, IP, port.
pub open spec fn spec_address_bytes(a: NetworkAddress) -> Seq<u8> {
    spec_u64_le(a.services) + a.ip@ + spec_u16_be(a.port)
}

/// The address held in the first 26 bytes of `s`.
pub open spec fn spec_address_from(s: Seq<u8>) -> NetworkAddress
    recommends
        s.len() >= 26,
{
    NetworkAddress {
        ip: [
            s[8],
            s[9],
            s[10],
            s[11],
            s[12],
            s[13],
            s[14],
            s[15],
            s[16],
            s[17],
            s[18],
            s[19],
            s[20],
            s[21],
            s[22],
            s[23],
        ],
        services: spec_u64_from_le(s.subrange(0, 8)),
        port: spec_u16_from_be(s.subrange(24, 26)),
    }
}

/// The sixteen bytes that hold an IPv4 address as IPv4-mapped IPv6: ten zero
/// bytes, two bytes `0xff`, then the four octets.
pub open spec fn spec_ipv4_mapped(octets: Seq<u8>) -> Seq<u8>
    recommends
        octets.len() == 4,
{
    seq![
        0u8,
        0u8,
        0u8,
        0u8,
        0u8,
        0u8,
        0u8,
        0u8,
        0u8,
        0u8,
        0xffu8,
        0xffu8,
        octets[0],
        octets[1],
        octets[2],
        octets[3],
    ]
}

/// Whether a payload fits the wire format: its user agent takes at most 255 bytes.
pub open spec fn spec_encodable(p: VersionPayload) -> bool {
    encode_utf8(p.user_agent).len() <= USER_AGENT_MAX_LEN
}

/// The byte of the relay flag.
pub open spec fn spec_relay_byte(relay: bool) -> u8 {
    if relay {
        1
    } else {
        0
    }
}

/// The canonical bytes of a `version` payload.
pub open spec fn spec_encode_version(p: VersionPayload) -> Seq<u8> {
    spec_i32_le(p.version) + spec_u64_le(p.services) + spec_i64_le(p.timestamp)
        + spec_address_bytes(p.addr_recv) + spec_address_bytes(p.addr_from) + spec_u64_le(p.nonce)
        + seq![encode_utf8(p.user_agent).len() as u8] + encode_utf8(p.user_agent) + spec_i32_le(
        p.start_height,
    ) + seq![spec_relay_byte(p.relay)]
}

/// What `b` decodes to. Bytes after the relay flag are not read, and any
/// non-zero relay byte means `true`.
pub open spec fn spec_decode_version(b: Seq<u8>) -> Result<VersionPayload, DecodingError> {
    if b.len() < VERSION_FIXED_LEN {
        Err(DecodingError::Truncated)
    } else {
        let n = b[80] as int;
        if b.len() < VERSION_FIXED_LEN + n {
            Err(DecodingError::Truncated)
        } else if !valid_utf8(b.subrange(81, 81 + n)) {
            Err(DecodingError::BadUserAgent)
        } else {
            Ok(
                VersionPayload {
                    version: spec_i32_from_le(b.subrange(0, 4)),
                    services: spec_u64_from_le(b.subrange(4, 12)),
                    timestamp: spec_i64_from_le(b.subrange(12, 20)),
                    addr_recv: spec_address_from(b.subrange(20, 46)),
                    addr_from: spec_address_from(b.subrange(46, 72)),
                    nonce: spec_u64_from_le(b.subrange(72, 80)),
                    user_agent: decode_utf8(b.subrange(81, 81 + n)),
                    start_height: spec_i32_from_le(b.subrange(81 + n, 85 + n)),
                    relay: b[85 + n] != 0,
                },
            )
        }
    }
}

/// The result of decoding, with the message replaced by what it says.
pub open spec fn spec_decoded_view(r: Result<VersionMessage, DecodingError>) -> Result<
    VersionPayload,
    DecodingError,
> {
    match r {
        Ok(m) => Ok(m@),
        Err(e) => Err(e),
    }
}

/// An address reads back from its own 26 bytes.
pub proof fn lemma_address_round_trip(a: NetworkAddress)
    ensures
        spec_address_bytes(a).len() == ADDRESS_LEN,
        spec_address_from(spec_address_bytes(a)) == a,
{
    let s = spec_address_bytes(a);
    lemma_u64_round_trip(a.services);
    lemma_u16_round_trip(a.port);
    assert(s.subrange(0, 8) =~= spec_u64_le(a.services));
    assert(s.subrange(24, 26) =~= spec_u16_be(a.port));
    assert(spec_address_from(s).ip =~= a.ip);
}

/// Where each field lies in the concatenation of ten fields of the lengths
/// that a `version` payload has.
proof fn lemma_fields_layout(
    f0: Seq<u8>,
    f1: Seq<u8>,
    f2: Seq<u8>,
    f3: Seq<u8>,
    f4: Seq<u8>,
    f5: Seq<u8>,
    f6: Seq<u8>,
    f7: Seq<u8>,
    f8: Seq<u8>,
    f9: Seq<u8>,
)
    requires
        f0.len() == 4,
        f1.len() == 8,
        f2.len() == 8,
        f3.len() == 26,
        f4.len() == 26,
        f5.len() == 8,
        f6.len() == 1,
        f8.len() == 4,
        f9.len() == 1,
    ensures
        ({
            let b = f0 + f1 + f2 + f3 + f4 + f5 + f6 + f7 + f8 + f9;
            let n = f7.len() as int;
            &&& b.len() == 86 + n
            &&& b.subrange(0, 4) == f0
            &&& b.subrange(4, 12) == f1
            &&& b.subrange(12, 20) == f2
            &&& b.subrange(20, 46) == f3
            &&& b.subrange(46, 72) == f4
            &&& b.subrange(72, 80) == f5
            &&& b[80] == f6[0]
            &&& b.subrange(81, 81 + n) == f7
            &&& b.subrange(81 + n, 85 + n) == f8
            &&& b[85 + n] == f9[0]
        }),
{
    let b = f0 + f1 + f2 + f3 + f4 + f5 + f6 + f7 + f8 + f9;
    let n = f7.len() as int;
    assert(b.subrange(0, 4) =~= f0);
    assert(b.subrange(4, 12) =~= f1);
    assert(b.subrange(12, 20) =~= f2);
    assert(b.subrange(20, 46) =~= f3);
    assert(b.subrange(46, 72) =~= f4);
    assert(b.subrange(72, 80) =~= f5);
    assert(b.subrange(81, 81 + n) =~= f7);
    assert(b.subrange(81 + n, 85 + n) =~= f8);
}

/// Decoding the bytes of a payload that fits the wire format gives the payload back.
pub proof fn lemma_version_round_trip(p: VersionPayload)
    requires
        spec_encodable(p),
    ensures
        spec_encode_version(p).len() == VERSION_FIXED_LEN + encode_utf8(p.user_agent).len(),
        spec_decode_version(spec_encode_version(p)) == Ok::<VersionPayload, DecodingError>(p),
{
    let agent = encode_utf8(p.user_agent);
    lemma_i32_round_trip(p.version);
    lemma_u64_round_trip(p.services);
    lemma_i64_round_trip(p.timestamp);
    lemma_address_round_trip(p.addr_recv);
    lemma_address_round_trip(p.addr_from);
    lemma_u64_round_trip(p.nonce);
    lemma_i32_round_trip(p.start_height);
    vstd::utf8::encode_utf8_valid_utf8(p.user_agent);
    vstd::utf8::encode_utf8_decode_utf8(p.user_agent);
    lemma_fields_layout(
        spec_i32_le(p.version),
        spec_u64_le(p.services),
        spec_i64_le(p.timestamp),
        spec_address_bytes(p.addr_recv),
        spec_address_bytes(p.addr_from),
        spec_u64_le(p.nonce),
        seq![agent.len() as u8],
        agent,
        spec_i32_le(p.start_height),
        seq![spec_relay_byte(p.relay)],
    );
}

/// Reads the address in the 26 bytes from `at`.
fn read_address(bytes: &[u8], at: usize) -> (a: NetworkAddress)
    requires
        at + ADDRESS_LEN <= bytes@.len(),
    ensures
        a == spec_address_from(bytes@.subrange(at as int, at + ADDRESS_LEN)),
{
    let ghost s = bytes@.subrange(at as int, at + ADDRESS_LEN);
    assert(bytes@.len() == vstd::slice::spec_slice_len(bytes));
    let mut ip: [u8; 16] = [0u8; 16];
    let mut i: usize = 0;
    while i < 16
        invariant
            i <= 16,
            at + ADDRESS_LEN <= bytes@.len() <= usize::MAX,
            s == bytes@.subrange(at as int, at + ADDRESS_LEN),
            forall|j: int| 0 <= j < i ==> ip@[j] == s[8 + j],
        decreases 16 - i,
    {
        ip[i] = bytes[at + 8 + i];
        i += 1;
    }
    let services: u64 = get_u64_le(bytes, at);
    let port: u16 = get_u16_be(bytes, at + 24);
    proof {
        assert(s.subrange(0, 8) =~= bytes@.subrange(at as int, at + 8));
        assert(s.subrange(24, 26) =~= bytes@.subrange(at + 24, at + 26));
        assert(ip =~= spec_address_from(s).ip);
    }
    NetworkAddress { ip, services, port }
}

impl NetworkAddress {
    /// The address of an IPv4 host, held as IPv4-mapped IPv6.
    pub fn from_ipv4(octets: [u8; 4], port: u16, services: u64) -> (a: NetworkAddress)
        ensures
            a.ip@ == spec_ipv4_mapped(octets@),
            a.services == services,
            a.port == port,
    {
        let ip: [u8; 16] = [
            0,
            0,
            0,
            0,
            0,
            0,
            0,
            0,
            0,
            0,
            0xff,
            0xff,
            octets[0],
            octets[1],
            octets[2],
            octets[3],
        ];
        assert(ip@ =~= spec_ipv4_mapped(octets@));
        NetworkAddress { ip, services, port }
    }

    /// The 26 wire bytes of the address.
    pub fn to_bytes(&self) -> (out: Vec<u8>)
        ensures
            out@ == spec_address_bytes(*self),
            out@.len() == ADDRESS_LEN,
    {
        let mut out: Vec<u8> = Vec::with_capacity(ADDRESS_LEN);
        put_u64_le(&mut out, self.services);
        put_bytes(&mut out, self.ip.as_slice());
        put_u16_be(&mut out, self.port);
        assert(out@ =~= spec_address_bytes(*self));
        out
    }

    /// The address in the first 26 bytes of `bytes`; `Truncated` if there are fewer.
    pub fn from_bytes(bytes: &[u8]) -> (r: Result<NetworkAddress, DecodingError>)
        ensures
            bytes@.len() >= ADDRESS_LEN ==> r == Ok::<NetworkAddress, DecodingError>(
                spec_address_from(bytes@),
            ),
            bytes@.len() < ADDRESS_LEN ==> r == Err::<NetworkAddress, DecodingError>(
                DecodingError::Truncated,
            ),
    {
        if bytes.len() < ADDRESS_LEN {
            return Err(DecodingError::Truncated);
        }
        let a: NetworkAddress = read_address(bytes, 0);
        proof {
            let s = bytes@.subrange(0, ADDRESS_LEN as int);
            assert(s.subrange(0, 8) =~= bytes@.subrange(0, 8));
            assert(s.subrange(24, 26) =~= bytes@.subrange(24, 26));
            assert(spec_address_from(s).ip =~= spec_address_from(bytes@).ip);
        }
        Ok(a)
    }
}

impl VersionMessage {
    /// The wire bytes of the message, or `UserAgentTooLong` if the user agent
    /// takes more than 255 bytes.
    pub fn to_bytes(&self) -> (r: Result<Vec<u8>, EncodingError>)
        ensures
            spec_encodable(self@) ==> r is Ok && r->Ok_0@ == spec_encode_version(self@),
            !spec_encodable(self@) ==> r == Err::<Vec<u8>, EncodingError>(
                EncodingError::UserAgentTooLong,
            ),
            r matches Ok(bytes) ==> bytes@.len() == VERSION_FIXED_LEN + encode_utf8(
                self@.user_agent,
            ).len(),
    {
        let agent: &[u8] = self.user_agent.as_str().as_bytes();
        if agent.len() > USER_AGENT_MAX_LEN {
            return Err(EncodingError::UserAgentTooLong);
        }
        let mut out: Vec<u8> = Vec::with_capacity(VERSION_FIXED_LEN + agent.len());
        put_i32_le(&mut out, self.version);
        put_u64_le(&mut out, self.services);
        put_i64_le(&mut out, self.timestamp);
        let recv: Vec<u8> = self.addr_recv.to_bytes();
        put_bytes(&mut out, recv.as_slice());
        let from: Vec<u8> = self.addr_from.to_bytes();
        put_bytes(&mut out, from.as_slice());
        put_u64_le(&mut out, self.nonce);
        let ghost before = out@;
        out.push(agent.len() as u8);
        assert(out@ =~= before + seq![agent@.len() as u8]);
        put_bytes(&mut out, agent);
        put_i32_le(&mut out, self.start_height);
        let ghost front = out@;
        out.push(if self.relay { 1u8 } else { 0u8 });
        proof {
            assert(out@ =~= front + seq![spec_relay_byte(self.relay)]);
            assert(Seq::<u8>::empty() + spec_i32_le(self.version) =~= spec_i32_le(self.version));
        }
        Ok(out)
    }
}

/// The address that says nothing: no services, the IP all zero, port zero.
pub open spec fn spec_unset_address() -> NetworkAddress {
    NetworkAddress {
        ip: [0u8, 0u8, 0u8, 0u8, 0u8, 0u8, 0u8, 0u8, 0u8, 0u8, 0u8, 0u8, 0u8, 0u8, 0u8, 0u8],
        services: 0,
        port: 0,
    }
}

/// What a node announces that tells nothing of itself but its protocol
/// version, its services, the time and a nonce: both addresses unset, no user
/// agent, start height zero, no relay.
pub open spec fn spec_plain_version(
    protocol_version: i32,
    services: u64,
    timestamp: i64,
    nonce: u64,
) -> VersionPayload {
    VersionPayload {
        version: protocol_version,
        services: services,
        timestamp: timestamp,
        addr_recv: spec_unset_address(),
        addr_from: spec_unset_address(),
        nonce: nonce,
        user_agent: Seq::<char>::empty(),
        start_height: 0,
        relay: false,
    }
}

/// The `version` of a node that tells nothing of itself but its protocol
/// version, its services, the time and a nonce.
pub fn plain_version(protocol_version: i32, services: u64, timestamp: i64, nonce: u64) -> (m:
    VersionMessage)
    ensures
        m@ == spec_plain_version(protocol_version, services, timestamp, nonce),
        spec_encodable(m@),
{
    let unset = NetworkAddress { ip: [0u8; 16], services: 0, port: 0 };
    assert(unset.ip =~= spec_unset_address().ip);
    VersionMessage {
        version: protocol_version,
        services,
        timestamp,
        addr_recv: unset,
        addr_from: unset,
        nonce,
        user_agent: String::new(),
        start_height: 0,
        relay: false,
    }
}

/// Encodes a `version` payload.
pub fn encode_version(payload: &VersionMessage) -> (r: Result<Vec<u8>, EncodingError>)
    ensures
        spec_encodable(payload@) ==> r is Ok && r->Ok_0@ == spec_encode_version(payload@),
        !spec_encodable(payload@) ==> r == Err::<Vec<u8>, EncodingError>(
            EncodingError::UserAgentTooLong,
        ),
        r matches Ok(bytes) ==> bytes@.len() == VERSION_FIXED_LEN + encode_utf8(
            payload@.user_agent,
        ).len(),
{
    payload.to_bytes()
}

/// Decodes a `version` payload.
pub fn decode_version(payload: &[u8]) -> (r: Result<VersionMessage, DecodingError>)
    ensures
        spec_decoded_view(r) == spec_decode_version(payload@),
{
    if payload.len() < VERSION_FIXED_LEN {
        return Err(DecodingError::Truncated);
    }
    let n: usize = payload[80] as usize;
    if payload.len() - VERSION_FIXED_LEN < n {
        return Err(DecodingError::Truncated);
    }
    let agent: Vec<u8> = slice_to_vec(slice_subrange(payload, 81, 81 + n));
    let user_agent: String = match string_from_utf8(agent) {
        Some(s) => s,
        None => {
            return Err(DecodingError::BadUserAgent);
        },
    };
    proof {
        vstd::utf8::encode_utf8_decode_utf8(user_agent@);
    }
    let m = VersionMessage {
        version: get_i32_le(payload, 0),
        services: get_u64_le(payload, 4),
        timestamp: get_i64_le(payload, 12),
        addr_recv: read_address(payload, 20),
        addr_from: read_address(payload, 46),
        nonce: get_u64_le(payload, 72),
        user_agent,
        start_height: get_i32_le(payload, 81 + n),
        relay: payload[85 + n] != 0,
    };
    Ok(m)
}

} // verus!
