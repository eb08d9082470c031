//! The signaling protocol's message model: what clients send, what
//! the server sends back, and the roster entries carried inside.
//! Each type has a mathematical view over which the contracts of the
//! codec and of the room speak.

use vstd::prelude::*;

verus! {

/// A message from a client to the server.
#[derive(Debug, PartialEq, Eq)]
pub enum ClientMessage {
    /// First message on a connection; binds the socket to a room.
    Join { room: String, participant: String, name: String },
    /// SDP offer; the server answers.
    Offer { sdp: String },
    /// SDP answer, accepted as remote description.
    Answer { sdp: String },
    /// A remote ICE candidate in SDP form.
    Candidate { candidate: String },
    /// Atomic replacement of the sender's flag triple.
    StateUpdate { muted: bool, video_on: bool, screen_sharing: bool },
    /// Sets the screen-sharing flag and notifies the room.
    StartScreenShare,
    /// Clears the screen-sharing flag and notifies the room.
    StopScreenShare,
    /// Liveness probe; answered with `Pong`.
    Ping,
    /// Asks for the current roster.
    GetParticipants,
}

/// The mathematical value of a `ClientMessage`.
pub enum ClientMessageView {
    Join { room: Seq<char>, participant: Seq<char>, name: Seq<char> },
    Offer { sdp: Seq<char> },
    Answer { sdp: Seq<char> },
    Candidate { candidate: Seq<char> },
    StateUpdate { muted: bool, video_on: bool, screen_sharing: bool },
    StartScreenShare,
    StopScreenShare,
    Ping,
    GetParticipants,
}

impl View for ClientMessage {
    type V = ClientMessageView;

    open spec fn view(&self) -> ClientMessageView {
        match self {
            ClientMessage::Join { room, participant, name } => ClientMessageView::Join {
                room: room@,
                participant: participant@,
                name: name@,
            },
            ClientMessage::Offer { sdp } => ClientMessageView::Offer { sdp: sdp@ },
            ClientMessage::Answer { sdp } => ClientMessageView::Answer { sdp: sdp@ },
            ClientMessage::Candidate { candidate } => ClientMessageView::Candidate {
                candidate: candidate@,
            },
            ClientMessage::StateUpdate { muted, video_on, screen_sharing } => ClientMessageView::StateUpdate {
                muted: *muted,
                video_on: *video_on,
                screen_sharing: *screen_sharing,
            },
            ClientMessage::StartScreenShare => ClientMessageView::StartScreenShare,
            ClientMessage::StopScreenShare => ClientMessageView::StopScreenShare,
            ClientMessage::Ping => ClientMessageView::Ping,
            ClientMessage::GetParticipants => ClientMessageView::GetParticipants,
        }
    }
}

/// A message from the server to a client.
#[derive(Debug, PartialEq, Eq)]
pub enum ServerMessage {
    /// Confirms a join; carries the caller's id and the prior roster.
    Joined { your_id: String, participants: Vec<ParticipantInfo> },
    /// SDP answer to a client offer.
    Answer { sdp: String },
    /// SDP offer, for renegotiation.
    Offer { sdp: String },
    /// A local ICE candidate in SDP form.
    Candidate { candidate: String },
    /// A new participant entered the room.
    ParticipantJoined { id: String, name: String },
    /// A participant left the room.
    ParticipantLeft { participant_id: String },
    /// A participant replaced its flag triple.
    StateUpdate { participant_id: String, muted: bool, video_on: bool, screen_sharing: bool },
    /// The current roster.
    Participants { participants: Vec<ParticipantInfo> },
    /// A participant started sharing its screen.
    ScreenShareStarted { participant_id: String },
    /// A participant stopped sharing its screen.
    ScreenShareStopped { participant_id: String },
    /// Answer to a `Ping`.
    Pong,
    /// An error report, optionally with a numeric code.
    Error { message: String, code: Option<u32> },
    /// Local ICE candidate gathering ended.
    IceGatheringComplete,
}

/// The mathematical value of a `ServerMessage`.
pub enum ServerMessageView {
    Joined { your_id: Seq<char>, participants: Seq<ParticipantInfoView> },
    Answer { sdp: Seq<char> },
    Offer { sdp: Seq<char> },
    Candidate { candidate: Seq<char> },
    ParticipantJoined { id: Seq<char>, name: Seq<char> },
    ParticipantLeft { participant_id: Seq<char> },
    StateUpdate { participant_id: Seq<char>, muted: bool, video_on: bool, screen_sharing: bool },
    Participants { participants: Seq<ParticipantInfoView> },
    ScreenShareStarted { participant_id: Seq<char> },
    ScreenShareStopped { participant_id: Seq<char> },
    Pong,
    Error { message: Seq<char>, code: Option<u32> },
    IceGatheringComplete,
}

impl View for ServerMessage {
    type V = ServerMessageView;

    open spec fn view(&self) -> ServerMessageView {
        match self {
            ServerMessage::Joined { your_id, participants } => ServerMessageView::Joined {
                your_id: your_id@,
                participants: participants@.map_values(|p: ParticipantInfo| p@),
            },
            ServerMessage::Answer { sdp } => ServerMessageView::Answer { sdp: sdp@ },
            ServerMessage::Offer { sdp } => ServerMessageView::Offer { sdp: sdp@ },
            ServerMessage::Candidate { candidate } => ServerMessageView::Candidate {
                candidate: candidate@,
            },
            ServerMessage::ParticipantJoined { id, name } => ServerMessageView::ParticipantJoined {
                id: id@,
                name: name@,
            },
            ServerMessage::ParticipantLeft { participant_id } => ServerMessageView::ParticipantLeft {
                participant_id: participant_id@,
            },
            ServerMessage::StateUpdate { participant_id, muted, video_on, screen_sharing } => ServerMessageView::StateUpdate {
                participant_id: participant_id@,
                muted: *muted,
                video_on: *video_on,
                screen_sharing: *screen_sharing,
            },
            ServerMessage::Participants { participants } => ServerMessageView::Participants {
                participants: participants@.map_values(|p: ParticipantInfo| p@),
            },
            ServerMessage::ScreenShareStarted { participant_id } => ServerMessageView::ScreenShareStarted {
                participant_id: participant_id@,
            },
            ServerMessage::ScreenShareStopped { participant_id } => ServerMessageView::ScreenShareStopped {
                participant_id: participant_id@,
            },
            ServerMessage::Pong => ServerMessageView::Pong,
            ServerMessage::Error { message, code } => ServerMessageView::Error {
                message: message@,
                code: *code,
            },
            ServerMessage::IceGatheringComplete => ServerMessageView::IceGatheringComplete,
        }
    }
}

/// One roster entry: a participant's identity and flag triple.
#[derive(Debug, PartialEq, Eq)]
pub struct ParticipantInfo {
    pub id: String,
    pub name: String,
    pub muted: bool,
    pub video_on: bool,
    pub screen_sharing: bool,
}

/// The mathematical value of a roster entry.
pub struct ParticipantInfoView {
    pub id: Seq<char>,
    pub name: Seq<char>,
    pub muted: bool,
    pub video_on: bool,
    pub screen_sharing: bool,
}

impl View for ParticipantInfo {
    type V = ParticipantInfoView;

    open spec fn view(&self) -> ParticipantInfoView {
        ParticipantInfoView {
            id: self.id@,
            name: self.name@,
            muted: self.muted,
            video_on: self.video_on,
            screen_sharing: self.screen_sharing,
        }
    }
}

impl ParticipantInfo {
    /// A fresh entry: not muted, camera on, not sharing.
    pub fn new(id: String, name: String) -> (r: Self)
        ensures
            r@ == (ParticipantInfoView {
                id: id@,
                name: name@,
                muted: false,
                video_on: true,
                screen_sharing: false,
            }),
    {
        ParticipantInfo { id, name, muted: false, video_on: true, screen_sharing: false }
    }

    /// An entry with the flag triple given.
    pub fn with_state(id: String, name: String, muted: bool, video_on: bool, screen_sharing: bool) -> (r: Self)
        ensures
            r@ == (ParticipantInfoView { id: id@, name: name@, muted, video_on, screen_sharing }),
    {
        ParticipantInfo { id, name, muted, video_on, screen_sharing }
    }
}

impl Clone for ParticipantInfo {
    fn clone(&self) -> (r: Self)
        ensures
            r == *self,
    {
        ParticipantInfo {
            id: self.id.clone(),
            name: self.name.clone(),
            muted: self.muted,
            video_on: self.video_on,
            screen_sharing: self.screen_sharing,
        }
    }
}

/// Clones a roster element by element.
pub fn clone_participants(v: &Vec<ParticipantInfo>) -> (r: Vec<ParticipantInfo>)
    ensures
        r@ == v@,
{
    let mut r: Vec<ParticipantInfo> = Vec::new();
    let mut i: usize = 0;
    while i < v.len()
        invariant
            i <= v.len(),
            r@ =~= v@.take(i as int),
        decreases v.len() - i,
    {
        r.push(v[i].clone());
        i = i + 1;
    }
    proof {
        assert(r@ =~= v@);
    }
    r
}

impl Clone for ClientMessage {
    fn clone(&self) -> (r: Self)
        ensures
            r@ == self@,
    {
        match self {
            ClientMessage::Join { room, participant, name } => ClientMessage::Join {
                room: room.clone(),
                participant: participant.clone(),
                name: name.clone(),
            },
            ClientMessage::Offer { sdp } => ClientMessage::Offer { sdp: sdp.clone() },
            ClientMessage::Answer { sdp } => ClientMessage::Answer { sdp: sdp.clone() },
            ClientMessage::Candidate { candidate } => ClientMessage::Candidate {
                candidate: candidate.clone(),
            },
            ClientMessage::StateUpdate { muted, video_on, screen_sharing } => ClientMessage::StateUpdate {
                muted: *muted,
                video_on: *video_on,
                screen_sharing: *screen_sharing,
            },
            ClientMessage::StartScreenShare => ClientMessage::StartScreenShare,
            ClientMessage::StopScreenShare => ClientMessage::StopScreenShare,
            ClientMessage::Ping => ClientMessage::Ping,
            ClientMessage::GetParticipants => ClientMessage::GetParticipants,
        }
    }
}

impl Clone for ServerMessage {
    fn clone(&self) -> (r: Self)
        ensures
            r@ == self@,
    {
        let r = match self {
            ServerMessage::Joined { your_id, participants } => ServerMessage::Joined {
                your_id: your_id.clone(),
                participants: clone_participants(participants),
            },
            ServerMessage::Answer { sdp } => ServerMessage::Answer { sdp: sdp.clone() },
            ServerMessage::Offer { sdp } => ServerMessage::Offer { sdp: sdp.clone() },
            ServerMessage::Candidate { candidate } => ServerMessage::Candidate {
                candidate: candidate.clone(),
            },
            ServerMessage::ParticipantJoined { id, name } => ServerMessage::ParticipantJoined {
                id: id.clone(),
                name: name.clone(),
            },
            ServerMessage::ParticipantLeft { participant_id } => ServerMessage::ParticipantLeft {
                participant_id: participant_id.clone(),
            },
            ServerMessage::StateUpdate { participant_id, muted, video_on, screen_sharing } => ServerMessage::StateUpdate {
                participant_id: participant_id.clone(),
                muted: *muted,
                video_on: *video_on,
                screen_sharing: *screen_sharing,
            },
            ServerMessage::Participants { participants } => ServerMessage::Participants {
                participants: clone_participants(participants),
            },
            ServerMessage::ScreenShareStarted { participant_id } => ServerMessage::ScreenShareStarted {
                participant_id: participant_id.clone(),
            },
            ServerMessage::ScreenShareStopped { participant_id } => ServerMessage::ScreenShareStopped {
                participant_id: participant_id.clone(),
            },
            ServerMessage::Pong => ServerMessage::Pong,
            ServerMessage::Error { message, code } => ServerMessage::Error {
                message: message.clone(),
                code: match code {
                    Some(c) => Some(*c),
                    None => None,
                },
            },
            ServerMessage::IceGatheringComplete => ServerMessage::IceGatheringComplete,
        };
        r
    }
}

/// An ICE server entry in the form handed to clients.
#[derive(Debug, PartialEq, Eq)]
pub struct IceServerConfig {
    pub urls: Vec<String>,
    pub username: Option<String>,
    pub credential: Option<String>,
}

impl Clone for IceServerConfig {
    fn clone(&self) -> (r: Self)
        ensures
            r.urls@ == self.urls@,
            r.username == self.username,
            r.credential == self.credential,
    {
        IceServerConfig {
            urls: crate::text::clone_strings(&self.urls),
            username: match &self.username {
                Some(u) => Some(u.clone()),
                None => None,
            },
            credential: match &self.credential {
                Some(c) => Some(c.clone()),
                None => None,
            },
        }
    }
}

/// A room's share of the monitoring statistics.
#[derive(Debug, PartialEq, Eq)]
pub struct RoomStats {
    pub room_id: String,
    pub participant_count: usize,
    pub active_tracks: usize,
}

impl Clone for RoomStats {
    fn clone(&self) -> (r: Self)
        ensures
            r == *self,
    {
        RoomStats {
            room_id: self.room_id.clone(),
            participant_count: self.participant_count,
            active_tracks: self.active_tracks,
        }
    }
}

} // verus!
