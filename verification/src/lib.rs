//! Peer-to-peer contact exchange and voice/video calling, built around two
//! application-level handshakes (contact introduction and call ring/accept)
//! and a framed media-streaming session.
//!
//! The modules here hold the protocol logic itself: the binary wire codecs,
//! the consent bridge that serializes human yes/no decisions, the handshake
//! state machines, and the media session loops as step functions over
//! events. Network transport, storage and UI plumbing live outside the
//! library and drive these functions with plain values.

use vstd::prelude::*;

pub mod varint;
pub mod call;
pub mod consent;
pub mod contacts;
pub mod framing;
pub mod media;
pub mod session;
pub mod ticket;
pub mod wire;

verus! {

/// What can go wrong in a handshake, sorted by the layer that caused it:
/// the transport (connect, accept or stream failures, reported by the
/// runner), a malformed payload, a consent channel with nobody listening
/// or closed early, or a peer that broke the protocol.
#[derive(Clone, Copy, Debug, PartialEq, Eq, Structural)]
pub enum ProtocolError {
    Transport,
    Codec,
    ConsentChannel,
    Violation,
}

/// Response byte a responder writes to accept a contact request or a ring.
pub const RESPONSE_ACCEPT: u8 = 1;

/// Response byte a responder writes to decline a contact request or a ring.
pub const RESPONSE_DECLINE: u8 = 0;

/// Interpret the single response byte of a handshake: only the exact
/// accept byte counts as acceptance; every other byte is a decline.
pub fn response_accepted(byte: u8) -> (accepted: bool)
    ensures
        accepted == (byte == RESPONSE_ACCEPT),
{
    byte == RESPONSE_ACCEPT
}

} // verus!
