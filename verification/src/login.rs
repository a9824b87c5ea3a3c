//! The login-phase classification: after sending handshake and login start,
//! read one server packet and classify online-mode behaviour. A
//! `SetCompression` packet records the threshold and the next frame is read
//! in the compressed format; every other known packet is terminal.

use crate::codec::{compressed_frame_decode, decode_compressed_frame, decode_frame, frame_decode, string_decode};
use crate::json::{reason_json, reason_of};
use crate::packets::{LoginDisconnect, SetCompression};
use crate::status::ExtraData;
use crate::varint::{i32_of_u32, varint_decode};
use vstd::prelude::*;
use vstd::utf8::{decode_utf8, encode_utf8_decode_utf8, valid_utf8};

verus! {

/// The reader's state: before the first packet, or after a `SetCompression`
/// with its recorded threshold, when frames arrive in the compressed format.
#[derive(Clone, Copy, Debug, PartialEq, Eq)]
pub enum LoginState {
    AwaitFirst,
    Decompressing { threshold: i32 },
}

/// What one received packet does to the classification.
#[derive(Debug)]
pub enum LoginStep {
    Done(ExtraData),
    Continue(LoginState),
    Failed,
}

/// The abstract outcome of one packet: the server is online-mode
/// (encryption request), offline-mode (login finished), offline-mode with a
/// disconnect reason carrying the reason text, switching to compressed
/// frames, or an unknown packet — a classification failure.
pub enum LoginOutcome {
    Online,
    Offline,
    OfflineWithReason(Seq<char>),
    Decompress,
    Fail,
}

/// The transition table of the login reader, on a packet id and payload.
/// `LoginDisconnect` must carry a well-formed string; `SetCompression` a
/// well-formed VarInt; a second `SetCompression` is an unknown packet.
pub open spec fn login_step_spec(await_first: bool, id: i32, payload: Seq<u8>) -> LoginOutcome {
    if id == 0x01 {
        LoginOutcome::Online
    } else if id == 0x02 {
        LoginOutcome::Offline
    } else if id == 0x00 {
        match string_decode(payload) {
            Some((b, _n)) => if valid_utf8(b) {
                LoginOutcome::OfflineWithReason(decode_utf8(b))
            } else {
                LoginOutcome::Fail
            },
            None => LoginOutcome::Fail,
        }
    } else if id == 0x03 && await_first {
        match varint_decode(payload, 5) {
            Some(_) => LoginOutcome::Decompress,
            None => LoginOutcome::Fail,
        }
    } else {
        LoginOutcome::Fail
    }
}

/// The final outcome of a login exchange laid out in `buf`: one plain frame,
/// and after a `SetCompression` one compressed-format frame.
pub open spec fn classify_spec(buf: Seq<u8>) -> LoginOutcome {
    match frame_decode(buf) {
        None => LoginOutcome::Fail,
        Some((id, payload, n)) => match login_step_spec(true, id, payload) {
            LoginOutcome::Decompress => match compressed_frame_decode(buf.skip(n as int)) {
                None => LoginOutcome::Fail,
                Some((id2, payload2, _n2)) => match login_step_spec(false, id2, payload2) {
                    LoginOutcome::Decompress => LoginOutcome::Fail,
                    o => o,
                },
            },
            o => o,
        },
    }
}

/// Step the login reader on one received packet.
pub fn login_step(state: &LoginState, id: i32, payload: &[u8]) -> (r: LoginStep)
    ensures
        ({
            let o = login_step_spec(*state is AwaitFirst, id, payload@);
            match o {
                LoginOutcome::Online => r == LoginStep::Done(
                    ExtraData { is_online_mode: true, disconnect_reason: None },
                ),
                LoginOutcome::Offline => r == LoginStep::Done(
                    ExtraData { is_online_mode: false, disconnect_reason: None },
                ),
                LoginOutcome::OfflineWithReason(text) => r matches LoginStep::Done(e)
                    && e.is_online_mode == false && (e.disconnect_reason matches Some(v) && v@
                    == reason_of(text)),
                LoginOutcome::Decompress => r matches LoginStep::Continue(s) && s matches
                    LoginState::Decompressing { threshold } && exists|u: u32, n: nat|
                    varint_decode(payload@, 5) == Some((u, n)) && threshold == i32_of_u32(u),
                LoginOutcome::Fail => r == LoginStep::Failed,
            }
        }),
{
    if id == 0x01 {
        LoginStep::Done(ExtraData { is_online_mode: true, disconnect_reason: None })
    } else if id == 0x02 {
        LoginStep::Done(ExtraData { is_online_mode: false, disconnect_reason: None })
    } else if id == 0x00 {
        match LoginDisconnect::deserialize(payload) {
            Some(packet) => {
                proof {
                    encode_utf8_decode_utf8(packet.reason@);
                }
                let reason = reason_json(packet.reason);
                LoginStep::Done(
                    ExtraData { is_online_mode: false, disconnect_reason: Some(reason) },
                )
            },
            None => LoginStep::Failed,
        }
    } else if id == 0x03 {
        match state {
            LoginState::AwaitFirst => match SetCompression::deserialize(payload) {
                Some(packet) => LoginStep::Continue(
                    LoginState::Decompressing { threshold: packet.threshold },
                ),
                None => LoginStep::Failed,
            },
            LoginState::Decompressing { .. } => LoginStep::Failed,
        }
    } else {
        LoginStep::Failed
    }
}

/// Classify a complete login exchange from its received bytes. `None`
/// exactly on a classification failure; otherwise whether the server is
/// online-mode, and when a disconnect was sent, the reason text stored as
/// its parsed JSON document with the JSON-string fallback.
pub fn classify_login(buf: &[u8]) -> (r: Option<ExtraData>)
    ensures
        match classify_spec(buf@) {
            LoginOutcome::Online => r == Some(
                ExtraData { is_online_mode: true, disconnect_reason: None },
            ),
            LoginOutcome::Offline => r == Some(
                ExtraData { is_online_mode: false, disconnect_reason: None },
            ),
            LoginOutcome::OfflineWithReason(text) => r matches Some(e) && e.is_online_mode == false
                && (e.disconnect_reason matches Some(v) && v@ == reason_of(text)),
            LoginOutcome::Decompress => false,
            LoginOutcome::Fail => r is None,
        },
{
    proof {
        assert(buf@.skip(0) =~= buf@);
    }
    match decode_frame(buf, 0) {
        None => None,
        Some((id, payload, n)) => {
            let state = LoginState::AwaitFirst;
            match login_step(&state, id, payload.as_slice()) {
                LoginStep::Done(e) => Some(e),
                LoginStep::Failed => None,
                LoginStep::Continue(next) => {
                    match decode_compressed_frame(buf, n) {
                        None => None,
                        Some((id2, payload2, _n2)) => {
                            match login_step(&next, id2, payload2.as_slice()) {
                                LoginStep::Done(e) => Some(e),
                                _ => None,
                            }
                        },
                    }
                },
            }
        },
    }
}

} // verus!
