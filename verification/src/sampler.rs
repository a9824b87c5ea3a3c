//! Random public-IPv4 sampling: a seeded ChaCha8 generator yields 32-bit
//! draws which are read as four octets and rejected while they fall in any
//! reserved range, so that every address handed out is probe-worthy.

use vstd::prelude::*;

verus! {

/// An IPv4 address as four plain octets.
#[derive(Clone, Copy, PartialEq, Eq, Structural, Debug)]
pub struct Ip4 {
    pub o0: u8,
    pub o1: u8,
    pub o2: u8,
    pub o3: u8,
}

/// The fixed reservation table: an address is skipped when its first octet is
/// 0 or above 223 (non-unicast), or it falls in 10/8, 127/8, 172.16/12,
/// 192.168/16, 192.0.2/24, 169.254/16, 100.64/10, 198.18/15, 198.51.100/24
/// or 203.0.113/24.
pub open spec fn ip_reserved(ip: Ip4) -> bool {
    ||| ip.o0 == 0
    ||| ip.o0 > 223
    ||| ip.o0 == 10
    ||| ip.o0 == 127
    ||| (ip.o0 == 172 && 16 <= ip.o1 <= 31)
    ||| (ip.o0 == 192 && ip.o1 == 168)
    ||| (ip.o0 == 192 && ip.o1 == 0 && ip.o2 == 2)
    ||| (ip.o0 == 169 && ip.o1 == 254)
    ||| (ip.o0 == 100 && 64 <= ip.o1 <= 127)
    ||| (ip.o0 == 198 && (ip.o1 == 18 || ip.o1 == 19))
    ||| (ip.o0 == 198 && ip.o1 == 51 && ip.o2 == 100)
    ||| (ip.o0 == 203 && ip.o1 == 0 && ip.o2 == 113)
}

/// Whether the address falls in the reservation table of `ip_reserved`.
pub fn is_reserved_ip(ip: &Ip4) -> (r: bool)
    ensures
        r == ip_reserved(*ip),
{
    ip.o0 == 0 || ip.o0 > 223 || ip.o0 == 10 || ip.o0 == 127 || (ip.o0 == 172 && 16 <= ip.o1
        && ip.o1 <= 31) || (ip.o0 == 192 && ip.o1 == 168) || (ip.o0 == 192 && ip.o1 == 0 && ip.o2
        == 2) || (ip.o0 == 169 && ip.o1 == 254) || (ip.o0 == 100 && 64 <= ip.o1 && ip.o1 <= 127)
        || (ip.o0 == 198 && (ip.o1 == 18 || ip.o1 == 19)) || (ip.o0 == 198 && ip.o1 == 51 && ip.o2
        == 100) || (ip.o0 == 203 && ip.o1 == 0 && ip.o2 == 113)
}

#[verifier::external_type_specification]
#[verifier::external_body]
pub struct ExChaCha8Rng(rand_chacha::ChaCha8Rng);

/// Relies on rand_core::RngCore::next_u32 for rand_chacha::ChaCha8Rng: one
/// 32-bit draw; nothing can be promised of a random value.
#[verifier::external_body]
fn rng_next_u32(rng: &mut rand_chacha::ChaCha8Rng) -> (r: u32)
{
    rand::RngCore::next_u32(rng)
}

/// Split a 32-bit draw into four octets, most significant first.
fn octets_of_u32(x: u32) -> (r: Ip4)
    ensures
        r.o0 == x / 0x0100_0000,
        r.o1 == (x / 0x1_0000) % 256,
        r.o2 == (x / 256) % 256,
        r.o3 == x % 256,
{
    Ip4 {
        o0: (x / 0x0100_0000) as u8,
        o1: ((x / 0x1_0000) % 256) as u8,
        o2: ((x / 256) % 256) as u8,
        o3: (x % 256) as u8,
    }
}

/// Draw random addresses until one lies outside every reserved range.
///
/// The sampled address is never in the reservation table. After an
/// astronomically unlikely run of reserved draws the first octet of the last
/// draw is replaced by 1, which lies outside every reserved range, so the
/// sampler stays total.
pub fn generate_random_ip(rng: &mut rand_chacha::ChaCha8Rng) -> (r: Ip4)
    ensures
        !ip_reserved(r),
{
    let mut tries: u8 = 0;
    while tries < 64
        decreases 64 - tries,
    {
        let ip = octets_of_u32(rng_next_u32(rng));
        if !is_reserved_ip(&ip) {
            return ip;
        }
        tries = tries + 1;
    }
    let last = octets_of_u32(rng_next_u32(rng));
    Ip4 { o0: 1, o1: last.o1, o2: last.o2, o3: last.o3 }
}

} // verus!
