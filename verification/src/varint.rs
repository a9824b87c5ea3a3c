//! VarInt: the little-endian base-128 encoding of 32-bit values used by the
//! Minecraft Java protocol framing. Seven value bits per byte, the high bit of
//! a byte set while more bytes follow; at most five bytes for 32 bits.

use vstd::arithmetic::div_mod::lemma_fundamental_div_mod;
use vstd::prelude::*;

verus! {

/// The wire bytes of a 32-bit value, least-significant seven bits first.
pub open spec fn varint_bytes(x: u32) -> Seq<u8>
    decreases x,
{
    if x < 128 {
        seq![x as u8]
    } else {
        seq![(x % 128 + 128) as u8] + varint_bytes(x / 128)
    }
}

/// What a decoder reads from the front of `s`, allowed at most `limit` more
/// bytes: the value and how many bytes it spans, or `None` when the input
/// ends early, runs past the byte limit, or encodes more than 32 bits.
pub open spec fn varint_decode(s: Seq<u8>, limit: nat) -> Option<(u32, nat)>
    decreases limit,
{
    if limit == 0 || s.len() == 0 {
        None
    } else if s[0] < 128 {
        Some((s[0] as u32, 1nat))
    } else {
        match varint_decode(s.skip(1), (limit - 1) as nat) {
            None => None,
            Some((v, n)) => {
                if s[0] - 128 + 128 * v <= u32::MAX {
                    Some((((s[0] - 128) + 128 * v) as u32, n + 1))
                } else {
                    None
                }
            },
        }
    }
}

/// A VarInt carries a signed 32-bit value as its two's-complement bit pattern.
pub open spec fn u32_of_i32(x: i32) -> u32 {
    if x >= 0 {
        x as u32
    } else {
        (x + 0x1_0000_0000) as u32
    }
}

pub open spec fn i32_of_u32(x: u32) -> i32 {
    if x < 0x8000_0000 {
        x as i32
    } else {
        (x - 0x1_0000_0000) as i32
    }
}

/// An encoded 32-bit VarInt spans between one and five bytes.
pub proof fn lemma_varint_len(x: u32)
    ensures
        1 <= varint_bytes(x).len() <= 5,
        x < 128 ==> varint_bytes(x).len() == 1,
    decreases x,
{
    if x >= 128 {
        lemma_varint_len(x / 128);
        if x / 128 >= 128 {
            lemma_varint_len(x / 128 / 128);
            if x / 128 / 128 >= 128 {
                lemma_varint_len(x / 128 / 128 / 128);
                if x / 128 / 128 / 128 >= 128 {
                    assert(x / 128 / 128 / 128 / 128 < 128);
                    lemma_varint_len(x / 128 / 128 / 128 / 128);
                }
            }
        }
    }
}

proof fn lemma_varint_roundtrip_rec(x: u32, rest: Seq<u8>, limit: nat)
    requires
        varint_bytes(x).len() <= limit,
    ensures
        varint_decode(varint_bytes(x) + rest, limit) == Some((x, varint_bytes(x).len())),
    decreases x,
{
    let s = varint_bytes(x) + rest;
    if x < 128 {
        assert(s[0] == x as u8);
    } else {
        assert(s[0] == (x % 128 + 128) as u8);
        assert(s.skip(1) =~= varint_bytes(x / 128) + rest);
        lemma_varint_roundtrip_rec(x / 128, rest, (limit - 1) as nat);
        lemma_fundamental_div_mod(x as int, 128);
    }
}

/// Round trip: decoding the encoding of any 32-bit value, with anything at
/// all appended, yields the value back and consumes exactly its bytes.
pub proof fn lemma_varint_roundtrip(x: u32, rest: Seq<u8>)
    ensures
        1 <= varint_bytes(x).len() <= 5,
        varint_decode(varint_bytes(x) + rest, 5) == Some((x, varint_bytes(x).len())),
{
    lemma_varint_len(x);
    lemma_varint_roundtrip_rec(x, rest, 5);
}

/// Round trip stated for signed values: an i32 encoded through its
/// two's-complement pattern decodes to the same i32, in one to five bytes.
pub proof fn lemma_varint_roundtrip_i32(x: i32, rest: Seq<u8>)
    ensures
        1 <= varint_bytes(u32_of_i32(x)).len() <= 5,
        varint_decode(varint_bytes(u32_of_i32(x)) + rest, 5) == Some(
            (u32_of_i32(x), varint_bytes(u32_of_i32(x)).len()),
        ),
        i32_of_u32(u32_of_i32(x)) == x,
{
    lemma_varint_roundtrip(u32_of_i32(x), rest);
}

/// The signed value carried by a 32-bit wire pattern.
pub fn i32_of_u32_exec(x: u32) -> (r: i32)
    ensures
        r == i32_of_u32(x),
{
    if x < 0x8000_0000 {
        x as i32
    } else {
        ((x as i64) - 0x1_0000_0000) as i32
    }
}

/// The 32-bit wire pattern of a signed value.
pub fn u32_of_i32_exec(x: i32) -> (r: u32)
    ensures
        r == u32_of_i32(x),
{
    if x >= 0 {
        x as u32
    } else {
        ((x as i64) + 0x1_0000_0000) as u32
    }
}

/// Encode a 32-bit pattern as a VarInt.
pub fn encode_varint_u32(x: u32) -> (r: Vec<u8>)
    ensures
        r@ == varint_bytes(x),
    decreases x,
{
    let mut v: Vec<u8> = Vec::new();
    if x < 128 {
        v.push(x as u8);
    } else {
        v.push((x % 128 + 128) as u8);
        let mut tail = encode_varint_u32(x / 128);
        v.append(&mut tail);
    }
    v
}

/// Encode a signed 32-bit value as a VarInt (two's-complement pattern).
pub fn encode_varint(x: i32) -> (r: Vec<u8>)
    ensures
        r@ == varint_bytes(u32_of_i32(x)),
{
    let u: u32 = if x >= 0 {
        x as u32
    } else {
        ((x as i64) + 0x1_0000_0000) as u32
    };
    assert(u == u32_of_i32(x));
    encode_varint_u32(u)
}

fn decode_varint_rec(s: &[u8], pos: usize, limit: u8) -> (r: Option<(u32, usize)>)
    requires
        pos <= s@.len(),
    ensures
        match r {
            Some((x, n)) => {
                &&& varint_decode(s@.skip(pos as int), limit as nat) == Some((x, n as nat))
                &&& 1 <= n <= limit
                &&& pos + n <= s@.len()
            },
            None => varint_decode(s@.skip(pos as int), limit as nat) is None,
        },
    decreases limit,
{
    if limit == 0 || pos == s.len() {
        None
    } else {
        let b = s[pos];
        if b < 128 {
            Some((b as u32, 1))
        } else {
            assert(s@.skip(pos as int).skip(1) =~= s@.skip(pos as int + 1));
            match decode_varint_rec(s, pos + 1, limit - 1) {
                None => None,
                Some((v, n)) => {
                    if v <= (u32::MAX - ((b - 128) as u32)) / 128 {
                        Some(((b - 128) as u32 + 128 * v, n + 1))
                    } else {
                        None
                    }
                },
            }
        }
    }
}

/// Decode a VarInt starting at `pos`: the 32-bit pattern and the number of
/// bytes it spans, or `None` on truncated or over-long input.
pub fn decode_varint_u32(s: &[u8], pos: usize) -> (r: Option<(u32, usize)>)
    requires
        pos <= s@.len(),
    ensures
        match r {
            Some((x, n)) => {
                &&& varint_decode(s@.skip(pos as int), 5) == Some((x, n as nat))
                &&& 1 <= n <= 5
                &&& pos + n <= s@.len()
            },
            None => varint_decode(s@.skip(pos as int), 5) is None,
        },
{
    decode_varint_rec(s, pos, 5)
}

/// Decode a VarInt as a signed 32-bit value.
pub fn decode_varint(s: &[u8], pos: usize) -> (r: Option<(i32, usize)>)
    requires
        pos <= s@.len(),
    ensures
        match r {
            Some((x, n)) => {
                &&& exists|u: u32|
                    varint_decode(s@.skip(pos as int), 5) == Some((u, n as nat)) && x == i32_of_u32(
                        u,
                    )
                &&& 1 <= n <= 5
                &&& pos + n <= s@.len()
            },
            None => varint_decode(s@.skip(pos as int), 5) is None,
        },
{
    match decode_varint_u32(s, pos) {
        None => None,
        Some((u, n)) => {
            let x: i32 = if u < 0x8000_0000 {
                u as i32
            } else {
                ((u as i64) - 0x1_0000_0000) as i32
            };
            assert(x == i32_of_u32(u));
            Some((x, n))
        },
    }
}

} // verus!
