//! The packets this client speaks: handshake, status request/response and
//! ping on the status path; login start (in its four protocol dialects),
//! disconnect, encryption request, login finished and set-compression on the
//! login path. Each packet pins its exact wire bytes.

use crate::codec::{be_bytes, encode_be, encode_string_bytes, frame_bytes, string_bytes, string_decode};
use crate::varint::{
    decode_varint, encode_varint, i32_of_u32, lemma_varint_len, u32_of_i32, varint_bytes,
    varint_decode,
};
use vstd::prelude::*;
use vstd::utf8::{encode_utf8, valid_utf8};

verus! {



/// The canonical UUID the login probe presents.
pub const PROBE_UUID: u128 = 0x01f6969963dace4643bfa0c99a4db549;

/// The protocol version the status handshake advertises.
pub const STATUS_PROTOCOL: i32 = 765;

/// A string on the wire: VarInt byte length, then the UTF-8 bytes.
pub open spec fn str_wire(s: Seq<char>) -> Seq<u8> {
    string_bytes(encode_utf8(s))
}

/// Relies on std String::from_utf8: succeeds exactly on valid UTF-8 and
/// returns the string those bytes spell.
#[verifier::external_body]
pub(crate) fn string_from_utf8(b: Vec<u8>) -> (r: Option<String>)
    ensures
        match r {
            Some(s) => encode_utf8(s@) == b@ && valid_utf8(b@),
            None => !valid_utf8(b@),
        },
{
    String::from_utf8(b).ok()
}

/// Encode a string with its VarInt length prefix.
pub fn encode_str(s: &str) -> (r: Vec<u8>)
    requires
        encode_utf8(s@).len() <= u32::MAX,
    ensures
        r@ == str_wire(s@),
{
    encode_string_bytes(s.as_bytes())
}

// ------------------------------------------------------------------
// handshaking
// ------------------------------------------------------------------
/// c2s handshake: protocol version, server address, server port, and the
/// intent (1 requests status, 2 login).
pub struct Handshake {
    pub protocol_version: i32,
    pub server_address: String,
    pub server_port: u16,
    pub intent: i32,
}

pub open spec fn handshake_payload(
    protocol_version: i32,
    server_address: Seq<char>,
    server_port: u16,
    intent: i32,
) -> Seq<u8> {
    varint_bytes(u32_of_i32(protocol_version)) + str_wire(server_address) + be_bytes(
        server_port as u128,
        2,
    ) + varint_bytes(u32_of_i32(intent))
}

impl Handshake {
    /// The full wire frame of this handshake (packet id 0).
    pub fn serialize(&self) -> (r: Vec<u8>)
        requires
            encode_utf8(self.server_address@).len() + 32 <= u32::MAX,
        ensures
            r@ == frame_bytes(
                0x00,
                handshake_payload(
                    self.protocol_version,
                    self.server_address@,
                    self.server_port,
                    self.intent,
                ),
            ),
    {
        let mut payload = encode_varint(self.protocol_version);
        proof {
            lemma_varint_len(u32_of_i32(self.protocol_version));
            lemma_varint_len(u32_of_i32(self.intent));
            lemma_varint_len(encode_utf8(self.server_address@).len() as u32);
            crate::codec::lemma_be_len(self.server_port as u128, 2);
        }
        let mut addr = encode_str(self.server_address.as_str());
        payload.append(&mut addr);
        let mut port = encode_be(self.server_port as u128, 2);
        payload.append(&mut port);
        let mut intent = encode_varint(self.intent);
        payload.append(&mut intent);
        crate::codec::encode_frame(0x00, payload.as_slice())
    }
}

// ------------------------------------------------------------------
// status
// ------------------------------------------------------------------
/// c2s status request: an empty payload under packet id 0.
pub struct StatusRequest {}

impl StatusRequest {
    pub fn serialize(&self) -> (r: Vec<u8>)
        ensures
            r@ == frame_bytes(0x00, Seq::empty()),
    {
        let payload: Vec<u8> = Vec::new();
        crate::codec::encode_frame(0x00, payload.as_slice())
    }
}

/// s2c status response: one JSON string.
pub struct StatusResponse {
    pub response: String,
}

impl StatusResponse {
    pub fn serialize(&self) -> (r: Vec<u8>)
        requires
            encode_utf8(self.response@).len() + 10 <= u32::MAX,
        ensures
            r@ == frame_bytes(0x00, str_wire(self.response@)),
    {
        let payload = encode_str(self.response.as_str());
        proof {
            lemma_varint_len(encode_utf8(self.response@).len() as u32);
        }
        crate::codec::encode_frame(0x00, payload.as_slice())
    }

    /// Read the response string out of a status-response payload; `None` on a
    /// truncated payload or bytes that are not UTF-8.
    pub fn deserialize(payload: &[u8]) -> (r: Option<StatusResponse>)
        ensures
            match r {
                Some(p) => string_decode(payload@) matches Some((b, _n)) && encode_utf8(
                    p.response@,
                ) == b && valid_utf8(b),
                None => string_decode(payload@) is None || (string_decode(payload@) matches Some(
                    (b, _n),
                ) && !valid_utf8(b)),
            },
    {
        proof {
            assert(payload@.skip(0) =~= payload@);
        }
        match crate::codec::decode_string_bytes(payload, 0) {
            None => None,
            Some((b, _n)) => match string_from_utf8(b) {
                None => None,
                Some(s) => Some(StatusResponse { response: s }),
            },
        }
    }
}

/// c2s ping request: one big-endian 64-bit timestamp under packet id 1.
pub struct PingRequest {
    pub timestamp: i64,
}

/// A 64-bit timestamp travels as its two's-complement pattern.
pub open spec fn u64_of_i64(x: i64) -> u64 {
    if x >= 0 {
        x as u64
    } else {
        (x + 0x1_0000_0000_0000_0000) as u64
    }
}

impl PingRequest {
    pub fn serialize(&self) -> (r: Vec<u8>)
        ensures
            r@ == frame_bytes(0x01, be_bytes(u64_of_i64(self.timestamp) as u128, 8)),
    {
        let u: u64 = if self.timestamp >= 0 {
            self.timestamp as u64
        } else {
            ((self.timestamp as i128) + 0x1_0000_0000_0000_0000) as u64
        };
        assert(u == u64_of_i64(self.timestamp));
        let payload = encode_be(u as u128, 8);
        proof {
            crate::codec::lemma_be_len(u as u128, 8);
        }
        crate::codec::encode_frame(0x01, payload.as_slice())
    }
}

// ------------------------------------------------------------------
// login
// ------------------------------------------------------------------
/// c2s login start: the probe identity, laid out per protocol dialect.
pub struct LoginStart {
    pub name: String,
    pub uuid: u128,
}

/// The four dialects of the login-start payload:
/// - 764 and later: name, then the 16-byte UUID;
/// - 761 to 763: name, a true has-uuid flag, then the UUID;
/// - 760: name, a false has-signature flag, a true has-uuid flag, the UUID;
/// - 759: name and a false has-uuid flag, no UUID;
/// - earlier: the name alone.
pub open spec fn login_start_payload(name: Seq<char>, uuid: u128, protocol: i32) -> Seq<u8> {
    if protocol >= 764 {
        str_wire(name) + be_bytes(uuid, 16)
    } else if protocol >= 761 {
        str_wire(name) + seq![1u8] + be_bytes(uuid, 16)
    } else if protocol == 760 {
        str_wire(name) + seq![0u8] + seq![1u8] + be_bytes(uuid, 16)
    } else if protocol == 759 {
        str_wire(name) + seq![0u8]
    } else {
        str_wire(name)
    }
}

impl LoginStart {
    /// The dialect table: the payload bytes of this login start for the given
    /// protocol version.
    pub fn raw_by_protocol(&self, protocol: i32) -> (r: Vec<u8>)
        requires
            encode_utf8(self.name@).len() + 32 <= u32::MAX,
        ensures
            r@ == login_start_payload(self.name@, self.uuid, protocol),
    {
        let mut payload = encode_str(self.name.as_str());
        if protocol >= 764 {
            let mut uuid = encode_be(self.uuid, 16);
            payload.append(&mut uuid);
        } else if protocol >= 761 {
            payload.push(1u8);
            let mut uuid = encode_be(self.uuid, 16);
            payload.append(&mut uuid);
            assert(payload@ =~= str_wire(self.name@) + seq![1u8] + be_bytes(self.uuid, 16));
        } else if protocol == 760 {
            payload.push(0u8);
            payload.push(1u8);
            let mut uuid = encode_be(self.uuid, 16);
            payload.append(&mut uuid);
            assert(payload@ =~= str_wire(self.name@) + seq![0u8] + seq![1u8] + be_bytes(
                self.uuid,
                16,
            ));
        } else if protocol == 759 {
            payload.push(0u8);
            assert(payload@ =~= str_wire(self.name@) + seq![0u8]);
        }
        payload
    }

    /// The full wire frame of this login start (packet id 0) for the given
    /// protocol version.
    pub fn serialize(&self, protocol: i32) -> (r: Vec<u8>)
        requires
            encode_utf8(self.name@).len() + 32 <= u32::MAX,
        ensures
            r@ == frame_bytes(0x00, login_start_payload(self.name@, self.uuid, protocol)),
    {
        let payload = self.raw_by_protocol(protocol);
        proof {
            lemma_varint_len(encode_utf8(self.name@).len() as u32);
            crate::codec::lemma_be_len(self.uuid, 16);
        }
        crate::codec::encode_frame(0x00, payload.as_slice())
    }
}

/// s2c login disconnect (packet id 0): one JSON string giving the reason.
pub struct LoginDisconnect {
    pub reason: String,
}

impl LoginDisconnect {
    pub fn serialize(&self) -> (r: Vec<u8>)
        requires
            encode_utf8(self.reason@).len() + 10 <= u32::MAX,
        ensures
            r@ == frame_bytes(0x00, str_wire(self.reason@)),
    {
        let payload = encode_str(self.reason.as_str());
        proof {
            lemma_varint_len(encode_utf8(self.reason@).len() as u32);
        }
        crate::codec::encode_frame(0x00, payload.as_slice())
    }

    /// Read the reason string out of a disconnect payload.
    pub fn deserialize(payload: &[u8]) -> (r: Option<LoginDisconnect>)
        ensures
            match r {
                Some(p) => string_decode(payload@) matches Some((b, _n)) && encode_utf8(p.reason@)
                    == b && valid_utf8(b),
                None => string_decode(payload@) is None || (string_decode(payload@) matches Some(
                    (b, _n),
                ) && !valid_utf8(b)),
            },
    {
        proof {
            assert(payload@.skip(0) =~= payload@);
        }
        match crate::codec::decode_string_bytes(payload, 0) {
            None => None,
            Some((b, _n)) => match string_from_utf8(b) {
                None => None,
                Some(s) => Some(LoginDisconnect { reason: s }),
            },
        }
    }
}

/// s2c encryption request (packet id 1): its arrival alone classifies the
/// server as online-mode, so the payload is never read.
pub struct EncryptionRequest {}

/// s2c login finished (packet id 2): its arrival classifies the server as
/// offline-mode; the payload is never read.
pub struct LoginFinished {}

/// s2c set compression (packet id 3): the compression threshold as a VarInt.
pub struct SetCompression {
    pub threshold: i32,
}

impl SetCompression {
    pub fn serialize(&self) -> (r: Vec<u8>)
        ensures
            r@ == frame_bytes(0x03, varint_bytes(u32_of_i32(self.threshold))),
    {
        let payload = encode_varint(self.threshold);
        proof {
            lemma_varint_len(u32_of_i32(self.threshold));
        }
        crate::codec::encode_frame(0x03, payload.as_slice())
    }

    /// Read the threshold out of a set-compression payload.
    pub fn deserialize(payload: &[u8]) -> (r: Option<SetCompression>)
        ensures
            match r {
                Some(p) => exists|u: u32, n: nat|
                    varint_decode(payload@, 5) == Some((u, n)) && p.threshold == i32_of_u32(u),
                None => varint_decode(payload@, 5) is None,
            },
    {
        proof {
            assert(payload@.skip(0) =~= payload@);
        }
        match decode_varint(payload, 0) {
            None => None,
            Some((t, _n)) => Some(SetCompression { threshold: t }),
        }
    }
}

// ------------------------------------------------------------------
// request builders for the two probe flows
// ------------------------------------------------------------------
/// Everything the status flow sends on connect: the handshake with intent 1,
/// then the empty status request.
pub fn build_status_request(addr: &str, port: u16, protocol: i32) -> (r: Vec<u8>)
    requires
        encode_utf8(addr@).len() + 32 <= u32::MAX,
    ensures
        r@ == frame_bytes(0x00, handshake_payload(protocol, addr@, port, 1)) + frame_bytes(
            0x00,
            Seq::empty(),
        ),
{
    let hs = Handshake {
        protocol_version: protocol,
        server_address: String::from_str(addr),
        server_port: port,
        intent: 1,
    };
    let mut out = hs.serialize();
    let mut req = (StatusRequest {  }).serialize();
    out.append(&mut req);
    out
}

/// Everything the login flow sends on connect: the handshake with intent 2,
/// then the login start in the dialect of the protocol version.
pub fn build_login_request(addr: &str, port: u16, protocol: i32, name: &str, uuid: u128) -> (r:
    Vec<u8>)
    requires
        encode_utf8(addr@).len() + 32 <= u32::MAX,
        encode_utf8(name@).len() + 32 <= u32::MAX,
    ensures
        r@ == frame_bytes(0x00, handshake_payload(protocol, addr@, port, 2)) + frame_bytes(
            0x00,
            login_start_payload(name@, uuid, protocol),
        ),
{
    let hs = Handshake {
        protocol_version: protocol,
        server_address: String::from_str(addr),
        server_port: port,
        intent: 2,
    };
    let mut out = hs.serialize();
    let ls = LoginStart { name: String::from_str(name), uuid };
    let mut req = ls.serialize(protocol);
    out.append(&mut req);
    out
}

/// The ping request frame for one timestamp.
pub fn build_ping_request(timestamp: i64) -> (r: Vec<u8>)
    ensures
        r@ == frame_bytes(0x01, be_bytes(u64_of_i64(timestamp) as u128, 8)),
{
    (PingRequest { timestamp }).serialize()
}

/// The round-trip time a ping measures, saturating at zero if the clock went
/// backwards between the two readings.
pub fn ping_millis(sent_at: i64, received_at: i64) -> (r: i64)
    ensures
        r >= 0,
        received_at >= sent_at ==> received_at - sent_at > i64::MAX || r == received_at - sent_at,
{
    if received_at >= sent_at {
        if sent_at >= 0 || received_at <= i64::MAX + sent_at {
            received_at - sent_at
        } else {
            i64::MAX
        }
    } else {
        0
    }
}

} // verus!
