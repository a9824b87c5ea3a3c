//! Byte-level codec for the protocol framing: big-endian fixed-width
//! integers, length-prefixed strings, and the two frame shapes — plain
//! `VarInt(length) | VarInt(id) | payload`, and the compressed shape
//! `VarInt(total) | VarInt(data_length) | (data_length == 0 ? raw :
//! zlib(raw))` used once a server has sent a compression threshold.

use crate::varint::{
    decode_varint_u32, encode_varint, encode_varint_u32, i32_of_u32, lemma_varint_len,
    lemma_varint_roundtrip, u32_of_i32, varint_bytes, varint_decode,
};
use vstd::arithmetic::div_mod::lemma_fundamental_div_mod;
use vstd::prelude::*;
use vstd::slice::{slice_subrange, slice_to_vec};

verus! {

// ------------------------------------------------------------------
// big-endian fixed-width integers
// ------------------------------------------------------------------
/// The `n` big-endian bytes of `x`.
pub open spec fn be_bytes(x: u128, n: nat) -> Seq<u8>
    decreases n,
{
    if n == 0 {
        Seq::empty()
    } else {
        be_bytes(x / 256, (n - 1) as nat) + seq![(x % 256) as u8]
    }
}

/// The value read back from big-endian bytes.
pub open spec fn from_be(s: Seq<u8>) -> int
    decreases s.len(),
{
    if s.len() == 0 {
        0
    } else {
        from_be(s.drop_last()) * 256 + s.last()
    }
}

pub open spec fn pow256(n: nat) -> int
    decreases n,
{
    if n == 0 {
        1
    } else {
        256 * pow256((n - 1) as nat)
    }
}

/// A big-endian encoding on `n` bytes has length `n`.
pub proof fn lemma_be_len(x: u128, n: nat)
    ensures
        be_bytes(x, n).len() == n,
    decreases n,
{
    if n > 0 {
        lemma_be_len(x / 256, (n - 1) as nat);
    }
}

/// Big-endian round trip: a value below `256^n` written on `n` bytes reads
/// back unchanged.
pub proof fn lemma_be_roundtrip(x: u128, n: nat)
    requires
        x < pow256(n),
    ensures
        be_bytes(x, n).len() == n,
        from_be(be_bytes(x, n)) == x,
    decreases n,
{
    if n > 0 {
        lemma_fundamental_div_mod(x as int, 256);
        assert(x / 256 < pow256((n - 1) as nat)) by (nonlinear_arith)
            requires
                x < 256 * pow256((n - 1) as nat),
                x >= 0,
        ;
        lemma_be_roundtrip(x / 256, (n - 1) as nat);
        let s = be_bytes(x, n);
        assert(s.drop_last() =~= be_bytes(x / 256, (n - 1) as nat));
    }
}

/// Write `x` on `n` big-endian bytes.
pub fn encode_be(x: u128, n: u8) -> (r: Vec<u8>)
    ensures
        r@ == be_bytes(x, n as nat),
    decreases n,
{
    if n == 0 {
        Vec::new()
    } else {
        let mut v = encode_be(x / 256, n - 1);
        v.push((x % 256) as u8);
        assert(v@ =~= be_bytes(x, n as nat));
        v
    }
}

// ------------------------------------------------------------------
// length-prefixed byte strings
// ------------------------------------------------------------------
/// A protocol string: VarInt byte length, then the bytes.
pub open spec fn string_bytes(s: Seq<u8>) -> Seq<u8> {
    varint_bytes(s.len() as u32) + s
}

/// What a decoder reads as a protocol string from the front of `s`.
pub open spec fn string_decode(s: Seq<u8>) -> Option<(Seq<u8>, nat)> {
    match varint_decode(s, 5) {
        None => None,
        Some((len, k)) => {
            if s.len() >= k + len {
                Some((s.subrange(k as int, k + len), (k + len) as nat))
            } else {
                None
            }
        },
    }
}

/// String round trip, with anything at all appended.
pub proof fn lemma_string_roundtrip(b: Seq<u8>, rest: Seq<u8>)
    requires
        b.len() <= u32::MAX,
    ensures
        string_bytes(b).len() == varint_bytes(b.len() as u32).len() + b.len(),
        string_decode(string_bytes(b) + rest) == Some((b, string_bytes(b).len())),
{
    let len = b.len() as u32;
    lemma_varint_roundtrip(len, b + rest);
    let s = string_bytes(b) + rest;
    assert(s =~= varint_bytes(len) + (b + rest));
    let k = varint_bytes(len).len();
    assert(s.subrange(k as int, k + len) =~= b);
}

/// Encode a byte string with its VarInt length prefix.
pub fn encode_string_bytes(b: &[u8]) -> (r: Vec<u8>)
    requires
        b@.len() <= u32::MAX,
    ensures
        r@ == string_bytes(b@),
{
    let mut v = encode_varint_u32(b.len() as u32);
    let mut data = slice_to_vec(b);
    v.append(&mut data);
    v
}

/// Decode a VarInt-length-prefixed byte string starting at `pos`.
pub fn decode_string_bytes(s: &[u8], pos: usize) -> (r: Option<(Vec<u8>, usize)>)
    requires
        pos <= s@.len(),
    ensures
        match r {
            Some((b, n)) => {
                &&& string_decode(s@.skip(pos as int)) == Some((b@, n as nat))
                &&& pos + n <= s@.len()
            },
            None => string_decode(s@.skip(pos as int)) is None,
        },
{
    let t = Ghost(s@.skip(pos as int));
    match decode_varint_u32(s, pos) {
        None => None,
        Some((len, k)) => {
            let have = s.len() - (pos + k);
            if (len as usize) <= have {
                let start = pos + k;
                let end = start + (len as usize);
                let b = slice_to_vec(slice_subrange(s, start, end));
                proof {
                    assert(t@.subrange(k as int, k + len) =~= s@.subrange(
                        start as int,
                        end as int,
                    ));
                }
                Some((b, k + (len as usize)))
            } else {
                None
            }
        },
    }
}

// ------------------------------------------------------------------
// plain (uncompressed) frames
// ------------------------------------------------------------------
/// A plain frame: VarInt total length, VarInt packet id, payload.
pub open spec fn frame_bytes(id: i32, payload: Seq<u8>) -> Seq<u8> {
    let body = varint_bytes(u32_of_i32(id)) + payload;
    varint_bytes(body.len() as u32) + body
}

/// Split a frame body into packet id and payload.
pub open spec fn raw_packet_split(raw: Seq<u8>) -> Option<(i32, Seq<u8>)> {
    match varint_decode(raw, 5) {
        None => None,
        Some((id, j)) => Some((i32_of_u32(id), raw.skip(j as int))),
    }
}

/// What a decoder reads as one plain frame from the front of `s`: packet id,
/// payload, and the bytes consumed.
pub open spec fn frame_decode(s: Seq<u8>) -> Option<(i32, Seq<u8>, nat)> {
    match varint_decode(s, 5) {
        None => None,
        Some((len, k)) => {
            if s.len() >= k + len {
                match raw_packet_split(s.subrange(k as int, k + len)) {
                    None => None,
                    Some((id, payload)) => Some((id, payload, (k + len) as nat)),
                }
            } else {
                None
            }
        },
    }
}

/// Frame round trip: decoding an encoded frame, with anything at all
/// appended, yields the packet id and payload back exactly.
pub proof fn lemma_frame_roundtrip(id: i32, payload: Seq<u8>, rest: Seq<u8>)
    requires
        payload.len() + 5 <= u32::MAX,
    ensures
        frame_decode(frame_bytes(id, payload) + rest) == Some(
            (id, payload, frame_bytes(id, payload).len()),
        ),
{
    let uid = u32_of_i32(id);
    lemma_varint_len(uid);
    let body = varint_bytes(uid) + payload;
    let blen = body.len() as u32;
    lemma_varint_roundtrip(blen, body + rest);
    let s = frame_bytes(id, payload) + rest;
    assert(s =~= varint_bytes(blen) + (body + rest));
    let k = varint_bytes(blen).len();
    assert(s.subrange(k as int, k + blen) =~= body);
    lemma_varint_roundtrip(uid, payload);
    assert(varint_bytes(uid) + payload =~= body);
    let j = varint_bytes(uid).len();
    assert(body.skip(j as int) =~= payload);
}

/// Encode a plain frame.
pub fn encode_frame(id: i32, payload: &[u8]) -> (r: Vec<u8>)
    requires
        payload@.len() + 5 <= u32::MAX,
    ensures
        r@ == frame_bytes(id, payload@),
{
    let mut body = encode_varint(id);
    proof {
        lemma_varint_len(u32_of_i32(id));
    }
    let mut data = slice_to_vec(payload);
    body.append(&mut data);
    let mut out = encode_varint_u32(body.len() as u32);
    out.append(&mut body);
    out
}

/// Decode one plain frame starting at `pos`.
pub fn decode_frame(s: &[u8], pos: usize) -> (r: Option<(i32, Vec<u8>, usize)>)
    requires
        pos <= s@.len(),
    ensures
        match r {
            Some((id, payload, n)) => {
                &&& frame_decode(s@.skip(pos as int)) == Some((id, payload@, n as nat))
                &&& pos + n <= s@.len()
            },
            None => frame_decode(s@.skip(pos as int)) is None,
        },
{
    let t = Ghost(s@.skip(pos as int));
    match decode_varint_u32(s, pos) {
        None => None,
        Some((len, k)) => {
            let have = s.len() - (pos + k);
            if (len as usize) <= have {
                let start = pos + k;
                let end = start + (len as usize);
                let body = slice_subrange(s, start, end);
                proof {
                    assert(t@.subrange(k as int, k + len) =~= s@.subrange(
                        start as int,
                        end as int,
                    ));
                    assert(body@.skip(0) =~= body@);
                }
                match decode_varint_u32(body, 0) {
                    None => None,
                    Some((idu, j)) => {
                        let payload = slice_to_vec(slice_subrange(body, j, body.len()));
                        let id = crate::varint::i32_of_u32_exec(idu);
                        Some((id, payload, k + (len as usize)))
                    },
                }
            } else {
                None
            }
        },
    }
}

// ------------------------------------------------------------------
// zlib, through miniz_oxide
// ------------------------------------------------------------------
/// What the zlib compressor produces for given input at the level this codec
/// uses; a function of the input bytes alone.
pub uninterp spec fn deflate_of(s: Seq<u8>) -> Seq<u8>;

/// What zlib decompression yields for given input: `None` on an invalid
/// stream; a function of the input bytes alone.
pub uninterp spec fn inflate_of(s: Seq<u8>) -> Option<Seq<u8>>;

/// Relies on miniz_oxide::deflate::compress_to_vec_zlib: deterministic zlib
/// compression whose output decompresses back to the input.
#[verifier::external_body]
fn zlib_compress(data: &[u8]) -> (r: Vec<u8>)
    ensures
        r@ == deflate_of(data@),
        inflate_of(r@) == Some(data@),
{
    miniz_oxide::deflate::compress_to_vec_zlib(data, 6)
}

/// Relies on miniz_oxide::inflate::decompress_to_vec_zlib: zlib
/// decompression, failing exactly on invalid streams.
#[verifier::external_body]
fn zlib_decompress(data: &[u8]) -> (r: Option<Vec<u8>>)
    ensures
        match r {
            Some(v) => inflate_of(data@) == Some(v@),
            None => inflate_of(data@) is None,
        },
{
    miniz_oxide::inflate::decompress_to_vec_zlib(data).ok()
}

// ------------------------------------------------------------------
// compressed-format frames
// ------------------------------------------------------------------
/// A frame in the compressed format: the body is compressed exactly when the
/// raw packet reaches the threshold, and otherwise stored with a zero
/// data-length marker.
pub open spec fn compressed_frame_bytes(id: i32, payload: Seq<u8>, threshold: u32) -> Seq<u8> {
    let raw = varint_bytes(u32_of_i32(id)) + payload;
    if raw.len() >= threshold {
        let body = varint_bytes(raw.len() as u32) + deflate_of(raw);
        varint_bytes(body.len() as u32) + body
    } else {
        let body = varint_bytes(0) + raw;
        varint_bytes(body.len() as u32) + body
    }
}

/// What a decoder reads as one compressed-format frame from the front of `s`.
pub open spec fn compressed_frame_decode(s: Seq<u8>) -> Option<(i32, Seq<u8>, nat)> {
    match varint_decode(s, 5) {
        None => None,
        Some((len, k)) => {
            if s.len() >= k + len {
                let body = s.subrange(k as int, k + len);
                match varint_decode(body, 5) {
                    None => None,
                    Some((dlen, j)) => {
                        if dlen == 0 {
                            match raw_packet_split(body.skip(j as int)) {
                                None => None,
                                Some((id, payload)) => Some((id, payload, (k + len) as nat)),
                            }
                        } else {
                            match inflate_of(body.skip(j as int)) {
                                None => None,
                                Some(raw) => {
                                    if raw.len() == dlen {
                                        match raw_packet_split(raw) {
                                            None => None,
                                            Some((id, payload)) => Some(
                                                (id, payload, (k + len) as nat),
                                            ),
                                        }
                                    } else {
                                        None
                                    }
                                },
                            }
                        }
                    },
                }
            } else {
                None
            }
        },
    }
}

/// Round trip for a compressed-format frame whose raw packet stays under the
/// threshold (stored uncompressed with the zero marker).
pub proof fn lemma_compressed_frame_stored_roundtrip(
    id: i32,
    payload: Seq<u8>,
    threshold: u32,
    rest: Seq<u8>,
)
    requires
        payload.len() + 10 <= u32::MAX,
        varint_bytes(u32_of_i32(id)).len() + payload.len() < threshold,
    ensures
        compressed_frame_decode(compressed_frame_bytes(id, payload, threshold) + rest) == Some(
            (id, payload, compressed_frame_bytes(id, payload, threshold).len()),
        ),
{
    let uid = u32_of_i32(id);
    lemma_varint_len(uid);
    let raw = varint_bytes(uid) + payload;
    let body = varint_bytes(0) + raw;
    let blen = body.len() as u32;
    lemma_varint_roundtrip(blen, body + rest);
    let s = compressed_frame_bytes(id, payload, threshold) + rest;
    assert(s =~= varint_bytes(blen) + (body + rest));
    let k = varint_bytes(blen).len();
    assert(s.subrange(k as int, k + blen) =~= body);
    lemma_varint_roundtrip(0, raw);
    assert(varint_bytes(0) =~= seq![0u8]);
    assert(body[0] == 0u8);
    assert(body.skip(1) =~= raw);
    lemma_varint_roundtrip(uid, payload);
    let j = varint_bytes(uid).len();
    assert(raw.skip(j as int) =~= payload);
}

/// Encode a frame in the compressed format, compressing exactly when the raw
/// packet reaches the threshold. `None` only when the compressor output is
/// too large to frame, which cannot happen for the packet sizes this client
/// sends. The second conclusion is the round trip through
/// `compressed_frame_decode`, whatever bytes follow the frame.
pub fn encode_compressed_frame(id: i32, payload: &[u8], threshold: u32) -> (r: Option<Vec<u8>>)
    requires
        payload@.len() + 10 <= u32::MAX,
    ensures
        match r {
            Some(v) => {
                &&& v@ == compressed_frame_bytes(id, payload@, threshold)
                &&& forall|rest: Seq<u8>|
                    compressed_frame_decode(v@ + rest) == Some((id, payload@, v@.len()))
            },
            None => deflate_of(varint_bytes(u32_of_i32(id)) + payload@).len() + 10 > u32::MAX,
        },
{
    let ghost uid = u32_of_i32(id);
    let mut raw = encode_varint(id);
    proof {
        lemma_varint_len(uid);
    }
    let mut data = slice_to_vec(payload);
    raw.append(&mut data);
    if raw.len() >= (threshold as usize) {
        let compressed = zlib_compress(raw.as_slice());
        if compressed.len() > (u32::MAX - 10) as usize {
            return None;
        }
        let mut body = encode_varint_u32(raw.len() as u32);
        proof {
            lemma_varint_len(raw.len() as u32);
        }
        let mut cdata = compressed;
        let ghost cview = cdata@;
        body.append(&mut cdata);
        let mut out = encode_varint_u32(body.len() as u32);
        out.append(&mut body);
        proof {
            let rawv = varint_bytes(uid) + payload@;
            assert(raw@ =~= rawv);
            let bodyv = varint_bytes(rawv.len() as u32) + deflate_of(rawv);
            assert(out@ =~= varint_bytes(bodyv.len() as u32) + bodyv);
            let blen = bodyv.len() as u32;
            let k = varint_bytes(blen).len() as int;
            let j = varint_bytes(rawv.len() as u32).len() as int;
            assert forall|rest: Seq<u8>|
                compressed_frame_decode(out@ + rest) == Some(
                    (id, payload@, out@.len()),
                ) by {
                let s = out@ + rest;
                lemma_varint_roundtrip(blen, bodyv + rest);
                assert(s =~= varint_bytes(blen) + (bodyv + rest));
                assert(s.subrange(k, k + blen) =~= bodyv);
                lemma_varint_roundtrip(rawv.len() as u32, deflate_of(rawv));
                assert(bodyv.skip(j) =~= deflate_of(rawv));
                assert(inflate_of(deflate_of(rawv)) == Some(rawv));
                lemma_varint_roundtrip(uid, payload@);
                assert(rawv.skip(varint_bytes(uid).len() as int) =~= payload@);
                assert(rawv.len() != 0);
            }
        }
        Some(out)
    } else {
        let mut body = encode_varint_u32(0);
        let ghost rawv = raw@;
        let mut rdata = raw;
        body.append(&mut rdata);
        let mut out = encode_varint_u32(body.len() as u32);
        out.append(&mut body);
        proof {
            let rawv2 = varint_bytes(uid) + payload@;
            assert(rawv =~= rawv2);
            let bodyv = varint_bytes(0) + rawv2;
            assert(out@ =~= varint_bytes(bodyv.len() as u32) + bodyv);
            assert forall|rest: Seq<u8>|
                compressed_frame_decode(out@ + rest) == Some(
                    (id, payload@, out@.len()),
                ) by {
                lemma_compressed_frame_stored_roundtrip(id, payload@, threshold, rest);
            }
        }
        Some(out)
    }
}

/// Decode one compressed-format frame starting at `pos`.
pub fn decode_compressed_frame(s: &[u8], pos: usize) -> (r: Option<(i32, Vec<u8>, usize)>)
    requires
        pos <= s@.len(),
    ensures
        match r {
            Some((id, payload, n)) => {
                &&& compressed_frame_decode(s@.skip(pos as int)) == Some((id, payload@, n as nat))
                &&& pos + n <= s@.len()
            },
            None => compressed_frame_decode(s@.skip(pos as int)) is None,
        },
{
    let t = Ghost(s@.skip(pos as int));
    match decode_varint_u32(s, pos) {
        None => None,
        Some((len, k)) => {
            let have = s.len() - (pos + k);
            if (len as usize) <= have {
                let start = pos + k;
                let end = start + (len as usize);
                let body = slice_subrange(s, start, end);
                proof {
                    assert(t@.subrange(k as int, k + len) =~= s@.subrange(
                        start as int,
                        end as int,
                    ));
                    assert(body@.skip(0) =~= body@);
                }
                match decode_varint_u32(body, 0) {
                    None => None,
                    Some((dlen, j)) => {
                        let rest = slice_subrange(body, j, body.len());
                        if dlen == 0 {
                            match split_raw_packet(rest) {
                                None => None,
                                Some((id, payload)) => Some((id, payload, k + (len as usize))),
                            }
                        } else {
                            match zlib_decompress(rest) {
                                None => None,
                                Some(rawv) => {
                                    if rawv.len() == (dlen as usize) && dlen <= u32::MAX {
                                        match split_raw_packet(rawv.as_slice()) {
                                            None => None,
                                            Some((id, payload)) => Some(
                                                (id, payload, k + (len as usize)),
                                            ),
                                        }
                                    } else {
                                        None
                                    }
                                },
                            }
                        }
                    },
                }
            } else {
                None
            }
        },
    }
}

/// Split a raw packet (VarInt id, then payload) into its two parts.
pub fn split_raw_packet(raw: &[u8]) -> (r: Option<(i32, Vec<u8>)>)
    ensures
        match r {
            Some((id, payload)) => raw_packet_split(raw@) == Some((id, payload@)),
            None => raw_packet_split(raw@) is None,
        },
{
    proof {
        assert(raw@.skip(0) =~= raw@);
    }
    match decode_varint_u32(raw, 0) {
        None => None,
        Some((idu, j)) => {
            let payload = slice_to_vec(slice_subrange(raw, j, raw.len()));
            let id = crate::varint::i32_of_u32_exec(idu);
            Some((id, payload))
        },
    }
}

} // verus!
