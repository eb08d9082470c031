//! Core of a selective forwarding unit for WebRTC conferences.
//!
//! The library holds the control plane of the server: the signaling
//! message model and its JSON codec, the per-peer session state, the
//! room registry with its fan-out rules, the RTP relay plan, and the
//! configuration rules.  Network transport (WebSockets, ICE, DTLS,
//! SRTP) lives outside; the functions here take plain values in and
//! hand plain values out, so every decision the server makes is
//! stated in a contract and proved.

pub mod codec;
pub mod config;
pub mod control;
pub mod errors;
pub mod messages;
pub mod peer;
pub mod relay;
pub mod room;
pub mod signaling;
pub mod state;
pub mod text;
pub mod utils;

use vstd::prelude::*;

verus! {

/// Relies on `alloc::string::String::push`: appends the given
/// character to the end of the string.
pub assume_specification[ String::push ](s: &mut String, ch: char)
    ensures
        final(s)@ == old(s)@.push(ch),
;

} // verus!
