//! One participant's session state: identity, the flag triple, the
//! local output tracks, and the outbound message queue.
//!
//! The transport half of a session (the peer connection, the
//! WebSocket) lives outside the library; a peer here carries exactly
//! the values the routing logic reads and writes.  The outbound queue
//! is modelled as a vector of messages that the caller drains to the
//! socket: every notification a peer is owed is visible in it.

use vstd::prelude::*;

use crate::errors::SfuError;
use crate::messages::{ParticipantInfo, ParticipantInfoView, ServerMessage, ServerMessageView};

verus! {

/// The role of a media track: microphone, camera or screen capture.
#[derive(Debug, Clone, Copy, PartialEq, Eq, Hash, Structural)]
pub enum TrackType {
    Camera,
    Screen,
    Audio,
}

/// The transport-level kind of a track: an audio or a video stream.
#[derive(Debug, Clone, Copy, PartialEq, Eq, Hash, Structural)]
pub enum MediaKind {
    Audio,
    Video,
}

/// True when `pat` occurs contiguously inside `s`.
pub open spec fn has_substring(s: Seq<char>, pat: Seq<char>) -> bool {
    exists|i: int|
        0 <= i && i + pat.len() <= s.len() && #[trigger] s.subrange(i, i + pat.len()) == pat
}

/// Checks whether `pat` occurs at position `i` of `s`.
fn matches_at(s: &str, pat: &str, i: usize) -> (r: bool)
    requires
        i + pat@.len() <= s@.len(),
    ensures
        r == (s@.subrange(i as int, i + pat@.len()) == pat@),
{
    let slen = s.unicode_len();
    let plen = pat.unicode_len();
    let mut j: usize = 0;
    while j < plen
        invariant
            j <= plen,
            plen == pat@.len(),
            slen == s@.len(),
            i + plen <= slen,
            forall|k: int| 0 <= k < j ==> s@[i + k] == pat@[k],
        decreases plen - j,
    {
        if s.get_char(i + j) != pat.get_char(j) {
            proof {
                assert(s@.subrange(i as int, i + pat@.len())[j as int] != pat@[j as int]);
            }
            return false;
        }
        j = j + 1;
    }
    proof {
        assert(s@.subrange(i as int, i + pat@.len()) =~= pat@);
    }
    true
}

/// Substring search, stated over the views.
pub fn contains_sub(s: &str, pat: &str) -> (r: bool)
    ensures
        r == has_substring(s@, pat@),
{
    let slen = s.unicode_len();
    let plen = pat.unicode_len();
    if plen > slen {
        proof {
            assert(!has_substring(s@, pat@));
        }
        return false;
    }
    if plen == 0 {
        proof {
            assert(s@.subrange(0, 0 + pat@.len() as int) =~= pat@);
        }
        return true;
    }
    let mut i: usize = 0;
    while i <= slen - plen
        invariant
            1 <= plen <= slen,
            i <= slen - plen + 1,
            slen == s@.len(),
            plen == pat@.len(),
            forall|k: int|
                0 <= k < i ==> #[trigger] s@.subrange(k, k + pat@.len()) != pat@,
        decreases slen - i,
    {
        if matches_at(s, pat, i) {
            return true;
        }
        i = i + 1;
    }
    proof {
        assert(!has_substring(s@, pat@));
    }
    false
}

/// The track role that `from_track_id` assigns to a track id.
pub open spec fn spec_track_type_of(id: Seq<char>) -> TrackType {
    if has_substring(id, "screen"@) {
        TrackType::Screen
    } else if has_substring(id, "audio"@) {
        TrackType::Audio
    } else {
        TrackType::Camera
    }
}

impl TrackType {
    /// Derives the track role from the track id: a substring match on
    /// "screen", then on "audio"; everything else counts as camera.
    /// The id is client-chosen, so this is a heuristic.
    pub fn from_track_id(track_id: &str) -> (r: TrackType)
        ensures
            r == spec_track_type_of(track_id@),
    {
        if contains_sub(track_id, "screen") {
            TrackType::Screen
        } else if contains_sub(track_id, "audio") {
            TrackType::Audio
        } else {
            TrackType::Camera
        }
    }

    /// The transport kind a track of this role is carried as.
    pub fn media_kind(self) -> (r: MediaKind)
        ensures
            r == spec_media_kind(self),
    {
        match self {
            TrackType::Audio => MediaKind::Audio,
            TrackType::Camera => MediaKind::Video,
            TrackType::Screen => MediaKind::Video,
        }
    }
}

/// The transport kind of each track role.
pub open spec fn spec_media_kind(t: TrackType) -> MediaKind {
    match t {
        TrackType::Audio => MediaKind::Audio,
        TrackType::Camera => MediaKind::Video,
        TrackType::Screen => MediaKind::Video,
    }
}

/// One local output track of a peer: carries forwarded RTP of one
/// publisher/role pair.  The transport object behind it is held by
/// the caller under the same index.
#[derive(Debug, PartialEq, Eq)]
pub struct LocalTrack {
    pub track_id: String,
    pub track_type: TrackType,
    pub kind: MediaKind,
}

/// The mathematical value of a local track entry.
pub struct LocalTrackView {
    pub track_id: Seq<char>,
    pub track_type: TrackType,
    pub kind: MediaKind,
}

impl View for LocalTrack {
    type V = LocalTrackView;

    open spec fn view(&self) -> LocalTrackView {
        LocalTrackView { track_id: self.track_id@, track_type: self.track_type, kind: self.kind }
    }
}

impl Clone for LocalTrack {
    fn clone(&self) -> (r: Self)
        ensures
            r@ == self@,
    {
        LocalTrack {
            track_id: self.track_id.clone(),
            track_type: self.track_type,
            kind: self.kind,
        }
    }
}

/// One participant's session state.
#[derive(Debug)]
pub struct Peer {
    pub id: String,
    pub name: String,
    pub muted: bool,
    pub video_on: bool,
    pub screen_sharing: bool,
    pub local_tracks: Vec<LocalTrack>,
    pub outbox: Vec<ServerMessage>,
    pub queue_open: bool,
}

/// The mathematical value of a peer.
pub struct PeerView {
    pub id: Seq<char>,
    pub name: Seq<char>,
    pub muted: bool,
    pub video_on: bool,
    pub screen_sharing: bool,
    pub local_tracks: Seq<LocalTrackView>,
    pub outbox: Seq<ServerMessageView>,
    pub queue_open: bool,
}

impl View for Peer {
    type V = PeerView;

    open spec fn view(&self) -> PeerView {
        PeerView {
            id: self.id@,
            name: self.name@,
            muted: self.muted,
            video_on: self.video_on,
            screen_sharing: self.screen_sharing,
            local_tracks: self.local_tracks@.map_values(|t: LocalTrack| t@),
            outbox: self.outbox@.map_values(|m: ServerMessage| m@),
            queue_open: self.queue_open,
        }
    }
}

/// The flag triple of a peer, in the order `(muted, video_on,
/// screen_sharing)`.
pub open spec fn state_of(p: PeerView) -> (bool, bool, bool) {
    (p.muted, p.video_on, p.screen_sharing)
}

/// A peer with its flag triple replaced and everything else kept.
pub open spec fn with_flags(p: PeerView, muted: bool, video_on: bool, screen_sharing: bool) -> PeerView {
    PeerView { muted, video_on, screen_sharing, ..p }
}

/// A peer with one message appended to its outbound queue.
pub open spec fn with_sent(p: PeerView, m: ServerMessageView) -> PeerView {
    PeerView { outbox: p.outbox.push(m), ..p }
}

impl Peer {
    /// A fresh session: not muted, camera on, not sharing, no
    /// tracks, an empty open outbound queue.
    pub fn new(id: String, name: String) -> (r: Peer)
        ensures
            r@ == (PeerView {
                id: id@,
                name: name@,
                muted: false,
                video_on: true,
                screen_sharing: false,
                local_tracks: Seq::empty(),
                outbox: Seq::empty(),
                queue_open: true,
            }),
    {
        let r = Peer {
            id,
            name,
            muted: false,
            video_on: true,
            screen_sharing: false,
            local_tracks: Vec::new(),
            outbox: Vec::new(),
            queue_open: true,
        };
        proof {
            assert(r@.local_tracks =~= Seq::<LocalTrackView>::empty());
            assert(r@.outbox =~= Seq::<ServerMessageView>::empty());
        }
        r
    }

    /// Atomically replaces the flag triple; nothing else moves.
    pub fn update_state(&mut self, muted: bool, video_on: bool, screen_sharing: bool)
        ensures
            final(self)@ == with_flags(old(self)@, muted, video_on, screen_sharing),
    {
        self.muted = muted;
        self.video_on = video_on;
        self.screen_sharing = screen_sharing;
    }

    /// Atomically reads the flag triple.
    pub fn get_state(&self) -> (r: (bool, bool, bool))
        ensures
            r == state_of(self@),
    {
        (self.muted, self.video_on, self.screen_sharing)
    }

    /// Records a local output track for this peer, of the given role
    /// and the transport kind that the role implies.
    pub fn add_local_track(&mut self, track_id: String, track_type: TrackType)
        ensures
            final(self)@ == (PeerView {
                local_tracks: old(self)@.local_tracks.push(LocalTrackView {
                    track_id: track_id@,
                    track_type,
                    kind: spec_media_kind(track_type),
                }),
                ..old(self)@
            }),
    {
        let kind = track_type.media_kind();
        let ghost idv = track_id@;
        self.local_tracks.push(LocalTrack { track_id, track_type, kind });
        proof {
            assert(self@.local_tracks =~= old(self)@.local_tracks.push(LocalTrackView {
                track_id: idv,
                track_type,
                kind: spec_media_kind(track_type),
            }));
        }
    }

    /// Enqueues a message for this peer.  Succeeds exactly when the
    /// queue is still open; a closed queue means the participant has
    /// disconnected, and the message is dropped.
    pub fn send_message(&mut self, msg: ServerMessage) -> (r: Result<(), SfuError>)
        ensures
            old(self)@.queue_open ==> r is Ok && final(self)@ == with_sent(old(self)@, msg@),
            !old(self)@.queue_open ==> r == Err::<(), SfuError>(SfuError::Send) && final(self)@ == old(self)@,
    {
        if self.queue_open {
            let ghost mv = msg@;
            self.outbox.push(msg);
            proof {
                assert(self@.outbox =~= old(self)@.outbox.push(mv));
            }
            Ok(())
        } else {
            Err(SfuError::Send)
        }
    }

    /// Terminates the session: the outbound queue closes; identity,
    /// flags and queued messages stay readable.
    pub fn close(&mut self)
        ensures
            final(self)@ == (PeerView { queue_open: false, ..old(self)@ }),
    {
        self.queue_open = false;
    }

    /// This peer's roster entry.
    pub fn to_info(&self) -> (r: ParticipantInfo)
        ensures
            r@ == spec_info_of(self@),
    {
        ParticipantInfo::with_state(
            self.id.clone(),
            self.name.clone(),
            self.muted,
            self.video_on,
            self.screen_sharing,
        )
    }
}

/// The roster entry a peer contributes.
pub open spec fn spec_info_of(p: PeerView) -> ParticipantInfoView {
    ParticipantInfoView {
        id: p.id,
        name: p.name,
        muted: p.muted,
        video_on: p.video_on,
        screen_sharing: p.screen_sharing,
    }
}

impl Clone for Peer {
    fn clone(&self) -> (r: Self)
        ensures
            r@ == self@,
    {
        let mut tracks: Vec<LocalTrack> = Vec::new();
        let mut i: usize = 0;
        while i < self.local_tracks.len()
            invariant
                i <= self.local_tracks.len(),
                tracks@.len() == i,
                forall|k: int| 0 <= k < i ==> #[trigger] tracks@[k]@ == self.local_tracks@[k]@,
            decreases self.local_tracks.len() - i,
        {
            tracks.push(self.local_tracks[i].clone());
            i = i + 1;
        }
        let mut outbox: Vec<ServerMessage> = Vec::new();
        let mut j: usize = 0;
        while j < self.outbox.len()
            invariant
                j <= self.outbox.len(),
                outbox@.len() == j,
                forall|k: int| 0 <= k < j ==> #[trigger] outbox@[k]@ == self.outbox@[k]@,
            decreases self.outbox.len() - j,
        {
            outbox.push(self.outbox[j].clone());
            j = j + 1;
        }
        let r = Peer {
            id: self.id.clone(),
            name: self.name.clone(),
            muted: self.muted,
            video_on: self.video_on,
            screen_sharing: self.screen_sharing,
            local_tracks: tracks,
            outbox,
            queue_open: self.queue_open,
        };
        proof {
            assert(r@.local_tracks =~= self@.local_tracks);
            assert(r@.outbox =~= self@.outbox);
        }
        r
    }
}

/// Flag atomicity: around a single `update_state(m, v, s)`, the
/// states of the model are the pre-state and the post-state alone,
/// so any read of the triple yields either the old triple or exactly
/// `(m, v, s)`.  A torn triple mixing old and new fields is not the
/// flag triple of either state.
pub proof fn lemma_flag_atomicity(p: PeerView, m: bool, v: bool, s: bool, q: PeerView)
    requires
        q == p || q == with_flags(p, m, v, s),
    ensures
        state_of(q) == state_of(p) || state_of(q) == (m, v, s),
{
}

} // verus!
