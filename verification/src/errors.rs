//! The error kinds the server distinguishes, and where each one
//! surfaces.  Failures stay local: a peer's failure never escalates
//! to its room, a room's never to the registry.

use vstd::prelude::*;

verus! {

/// A failure of one operation of the core.
#[derive(Debug, Clone, Copy, PartialEq, Eq, Structural)]
pub enum SfuError {
    /// Malformed JSON, an unexpected message type or a missing
    /// field; the message is dropped and the connection continues.
    Protocol,
    /// An SDP parse or negotiation failure; fatal for the peer only
    /// when it happens during the join.
    Signaling,
    /// An ICE, DTLS or SRTP failure; the session is torn down.
    Transport,
    /// The room already holds the configured maximum of
    /// participants; the join is refused.
    RoomFull,
    /// The peer's outbound queue is closed; the participant has
    /// disconnected.
    Send,
    /// Writing RTP to a recipient's local track failed.
    TrackWrite,
}

impl SfuError {
    /// A short stable name for the error kind.
    pub fn as_str(&self) -> (r: &'static str)
        ensures
            r@ == spec_error_name(*self),
    {
        match self {
            SfuError::Protocol => "protocol error",
            SfuError::Signaling => "signaling error",
            SfuError::Transport => "transport error",
            SfuError::RoomFull => "Room is full",
            SfuError::Send => "send error",
            SfuError::TrackWrite => "track write error",
        }
    }
}

/// The name each error kind prints as.
pub open spec fn spec_error_name(e: SfuError) -> Seq<char> {
    match e {
        SfuError::Protocol => "protocol error"@,
        SfuError::Signaling => "signaling error"@,
        SfuError::Transport => "transport error"@,
        SfuError::RoomFull => "Room is full"@,
        SfuError::Send => "send error"@,
        SfuError::TrackWrite => "track write error"@,
    }
}

} // verus!
