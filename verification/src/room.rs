//! A room: the set of peers sharing one routing domain, and the
//! registry of rooms.
//!
//! Membership is mutated only through `add_peer` and `remove_peer`;
//! every other operation is a snapshot read or a fan-out that leaves
//! membership alone.  Notifications are pushed into the member
//! peers' outbound queues, so each contract states exactly who hears
//! of what, and in what state the room is left.

use vstd::prelude::*;

use crate::errors::SfuError;
use crate::messages::{RoomStats, ServerMessage, ServerMessageView};
use crate::peer::{Peer, PeerView, with_flags, with_sent};
use crate::text::str_eq;

verus! {

/// True when no two peers of the sequence share an id.
pub open spec fn ids_unique(peers: Seq<PeerView>) -> bool {
    forall|i: int, j: int| 0 <= i < j < peers.len() ==> peers[i].id != peers[j].id
}

/// True when some peer of the sequence has the id.
pub open spec fn contains_id(peers: Seq<PeerView>, id: Seq<char>) -> bool {
    exists|i: int| 0 <= i < peers.len() && (#[trigger] peers[i]).id == id
}

/// The index of the peer with the id.
pub open spec fn idx_of(peers: Seq<PeerView>, id: Seq<char>) -> int {
    choose|i: int| 0 <= i < peers.len() && (#[trigger] peers[i]).id == id
}

/// The peer with the id.
pub open spec fn peer_with(peers: Seq<PeerView>, id: Seq<char>) -> PeerView {
    peers[idx_of(peers, id)]
}

/// A peer after a delivery attempt: the message lands in its queue
/// if the queue is still open, and is dropped otherwise.  A failed
/// delivery never disturbs the rest of the fan-out.
pub open spec fn notified(p: PeerView, m: ServerMessageView) -> PeerView {
    if p.queue_open {
        with_sent(p, m)
    } else {
        p
    }
}

/// Every peer of the sequence after a delivery attempt.
pub open spec fn broadcast_all(peers: Seq<PeerView>, m: ServerMessageView) -> Seq<PeerView> {
    peers.map_values(|p: PeerView| notified(p, m))
}

/// Every peer except the sender after a delivery attempt.
pub open spec fn broadcast_except(peers: Seq<PeerView>, from: Seq<char>, m: ServerMessageView) -> Seq<PeerView> {
    peers.map_values(|p: PeerView| if p.id == from { p } else { notified(p, m) })
}

/// The sequence with the peer of that id left out (unchanged when
/// the id is absent).
pub open spec fn remove_id(peers: Seq<PeerView>, id: Seq<char>) -> Seq<PeerView> {
    if contains_id(peers, id) {
        peers.remove(idx_of(peers, id))
    } else {
        peers
    }
}

/// The ids of the peers, in room order.
pub open spec fn ids_of(peers: Seq<PeerView>) -> Seq<Seq<char>> {
    peers.map_values(|p: PeerView| p.id)
}

/// The roster entries the peers contribute, in room order.
pub open spec fn spec_roster(peers: Seq<PeerView>) -> Seq<crate::messages::ParticipantInfoView> {
    peers.map_values(|p: PeerView| crate::peer::spec_info_of(p))
}

/// The total number of local output tracks across the peers; a
/// count that no longer fits a machine word stops growing.
pub open spec fn spec_track_total(peers: Seq<PeerView>) -> int
    decreases peers.len(),
{
    if peers.len() == 0 {
        0
    } else {
        let rest = spec_track_total(peers.drop_last());
        if rest + peers.last().local_tracks.len() <= usize::MAX {
            rest + peers.last().local_tracks.len()
        } else {
            rest
        }
    }
}

/// Room membership: the member count equals the number of distinct
/// ids, and every id of the snapshot names exactly one member, the
/// peer standing at that id.
pub proof fn lemma_room_membership(peers: Seq<PeerView>)
    requires
        ids_unique(peers),
    ensures
        ids_of(peers).to_set().len() == peers.len(),
        forall|i: int| 0 <= i < peers.len() ==> contains_id(peers, (#[trigger] peers[i]).id)
            && peer_with(peers, peers[i].id) == peers[i],
{
    assert(ids_of(peers).no_duplicates());
    ids_of(peers).unique_seq_to_set();
    assert forall|i: int| 0 <= i < peers.len() implies contains_id(peers, (#[trigger] peers[i]).id)
        && peer_with(peers, peers[i].id) == peers[i] by {
        assert(0 <= i < peers.len() && peers[i].id == peers[i].id);
        let j = idx_of(peers, peers[i].id);
        assert(0 <= j < peers.len() && peers[j].id == peers[i].id);
        assert(j == i);
    }
}

/// The mathematical value of a room.
pub struct RoomView {
    pub id: Seq<char>,
    pub peers: Seq<PeerView>,
}

/// A room with a given member sequence.
pub open spec fn with_peers(r: RoomView, peers: Seq<PeerView>) -> RoomView {
    RoomView { id: r.id, peers }
}

/// A room: a set of peers that forward media and notifications to
/// each other.
#[derive(Debug)]
pub struct Room {
    pub id: String,
    pub peers: Vec<Peer>,
}

impl View for Room {
    type V = RoomView;

    open spec fn view(&self) -> RoomView {
        RoomView { id: self.id@, peers: self.peers@.map_values(|p: Peer| p@) }
    }
}

impl Room {
    /// Well-formed: member ids are pairwise distinct.
    pub open spec fn wf(&self) -> bool {
        ids_unique(self@.peers)
    }

    /// An empty room with the given id.
    pub fn new(id: String) -> (r: Room)
        ensures
            r.wf(),
            r@.id == id@,
            r@.peers == Seq::<PeerView>::empty(),
    {
        let r = Room { id, peers: Vec::new() };
        proof {
            assert(r@.peers =~= Seq::<PeerView>::empty());
        }
        r
    }

    /// The index of the member with the id, if any.
    fn find_idx(&self, peer_id: &str) -> (r: Option<usize>)
        ensures
            match r {
                Some(i) => i < self@.peers.len() && self@.peers[i as int].id == peer_id@
                    && contains_id(self@.peers, peer_id@),
                None => !contains_id(self@.peers, peer_id@),
            },
    {
        let mut i: usize = 0;
        while i < self.peers.len()
            invariant
                i <= self.peers.len(),
                forall|k: int| 0 <= k < i ==> (#[trigger] self@.peers[k]).id != peer_id@,
            decreases self.peers.len() - i,
        {
            if str_eq(self.peers[i].id.as_str(), peer_id) {
                proof {
                    assert(self@.peers[i as int] == self.peers@[i as int]@);
                }
                return Some(i);
            }
            i = i + 1;
        }
        None
    }

    /// Adds a participant.  Every existing member with an open queue
    /// first hears `ParticipantJoined`; then the newcomer is
    /// inserted.  The newcomer never receives its own join notice.
    /// A member that already carried the same id is replaced.
    pub fn add_peer(&mut self, peer: Peer) -> (r: Result<(), SfuError>)
        requires
            old(self).wf(),
        ensures
            final(self).wf(),
            r is Ok,
            final(self)@.id == old(self)@.id,
            ({
                let told = broadcast_all(old(self)@.peers, ServerMessageView::ParticipantJoined {
                    id: peer@.id,
                    name: peer@.name,
                });
                if contains_id(old(self)@.peers, peer@.id) {
                    final(self)@.peers == told.update(idx_of(old(self)@.peers, peer@.id), peer@)
                } else {
                    final(self)@.peers == told.push(peer@)
                }
            }),
    {
        let msg_id = peer.id.clone();
        let msg_name = peer.name.clone();
        let ghost peers0 = self@.peers;
        let ghost m = ServerMessageView::ParticipantJoined { id: peer@.id, name: peer@.name };
        let mut i: usize = 0;
        while i < self.peers.len()
            invariant
                old(self).wf(),
                self.id@ == old(self).id@,
                self.peers@.len() == peers0.len(),
                peers0 == old(self)@.peers,
                i <= self.peers.len(),
                m == (ServerMessageView::ParticipantJoined { id: peer@.id, name: peer@.name }),
                msg_id@ == peer@.id,
                msg_name@ == peer@.name,
                forall|k: int| 0 <= k < i ==> #[trigger] self.peers@[k]@ == notified(peers0[k], m),
                forall|k: int| i <= k < peers0.len() ==> #[trigger] self.peers@[k]@ == peers0[k],
            decreases self.peers.len() - i,
        {
            let note = ServerMessage::ParticipantJoined { id: msg_id.clone(), name: msg_name.clone() };
            let target = &mut self.peers[i];
            let _ = target.send_message(note);
            i = i + 1;
        }
        let ghost told = broadcast_all(peers0, m);
        proof {
            assert(self@.peers =~= told);
        }
        match self.find_idx(peer.id.as_str()) {
            Some(at) => {
                proof {
                    assert(contains_id(told, peer@.id));
                    assert(forall|k: int| 0 <= k < peers0.len()
                        ==> (#[trigger] told[k]).id == peers0[k].id);
                    assert(contains_id(peers0, peer@.id));
                    assert(told[idx_of(peers0, peer@.id)].id == peer@.id);
                    assert(at as int == idx_of(peers0, peer@.id));
                }
                self.peers.set(at, peer);
                proof {
                    assert(self@.peers =~= told.update(idx_of(peers0, peer@.id), peer@));
                    assert(ids_unique(self@.peers));
                }
            },
            None => {
                proof {
                    assert(forall|k: int| 0 <= k < peers0.len()
                        ==> (#[trigger] told[k]).id == peers0[k].id);
                    assert forall|k: int| 0 <= k < peers0.len()
                        implies (#[trigger] peers0[k]).id != peer@.id by {
                        assert(told[k].id == peers0[k].id);
                    }
                    assert(!contains_id(peers0, peer@.id));
                }
                self.peers.push(peer);
                proof {
                    assert(self@.peers =~= told.push(peer@));
                    assert(forall|k: int| 0 <= k < told.len()
                        ==> (#[trigger] self@.peers[k]).id == peers0[k].id);
                    assert(ids_unique(self@.peers));
                }
            },
        }
        Ok(())
    }

    /// Removes a participant.  When the id is present, the member
    /// leaves the room and each remaining member with an open queue
    /// hears `ParticipantLeft`; the leaver itself does not.  An
    /// absent id is a no-op.
    pub fn remove_peer(&mut self, peer_id: &str) -> (r: Result<(), SfuError>)
        requires
            old(self).wf(),
        ensures
            final(self).wf(),
            r is Ok,
            final(self)@.id == old(self)@.id,
            contains_id(old(self)@.peers, peer_id@) ==> final(self)@.peers == broadcast_all(
                remove_id(old(self)@.peers, peer_id@),
                ServerMessageView::ParticipantLeft { participant_id: peer_id@ },
            ),
            !contains_id(old(self)@.peers, peer_id@) ==> final(self)@ == old(self)@,
    {
        let at = match self.find_idx(peer_id) {
            Some(at) => at,
            None => {
                return Ok(());
            },
        };
        proof {
            assert(at as int == idx_of(self@.peers, peer_id@));
        }
        let ghost peers0 = self@.peers;
        let ghost removed = remove_id(peers0, peer_id@);
        let mut gone = self.peers.remove(at);
        gone.close();
        proof {
            assert(self@.peers =~= removed);
        }
        let ghost m = ServerMessageView::ParticipantLeft { participant_id: peer_id@ };
        let ghost peers1 = self@.peers;
        let mut i: usize = 0;
        while i < self.peers.len()
            invariant
                i <= self.peers.len(),
                self.peers@.len() == peers1.len(),
                self.id@ == old(self).id@,
                ids_unique(peers1),
                m == (ServerMessageView::ParticipantLeft { participant_id: peer_id@ }),
                forall|k: int| 0 <= k < i ==> #[trigger] self.peers@[k]@ == notified(peers1[k], m),
                forall|k: int| i <= k < peers1.len() ==> #[trigger] self.peers@[k]@ == peers1[k],
            decreases self.peers.len() - i,
        {
            let note = ServerMessage::ParticipantLeft { participant_id: peer_id.to_owned() };
            let target = &mut self.peers[i];
            let _ = target.send_message(note);
            i = i + 1;
        }
        proof {
            assert(self@.peers =~= broadcast_all(removed, m));
            assert(forall|k: int| 0 <= k < peers1.len()
                ==> (#[trigger] self@.peers[k]).id == peers1[k].id);
            assert(ids_unique(self@.peers));
        }
        Ok(())
    }

    /// The member with the id, if present.
    pub fn get_peer(&self, peer_id: &str) -> (r: Option<&Peer>)
        requires
            self.wf(),
        ensures
            match r {
                Some(p) => contains_id(self@.peers, peer_id@)
                    && p@ == peer_with(self@.peers, peer_id@),
                None => !contains_id(self@.peers, peer_id@),
            },
    {
        match self.find_idx(peer_id) {
            Some(i) => {
                proof {
                    assert(i as int == idx_of(self@.peers, peer_id@));
                }
                Some(&self.peers[i])
            },
            None => None,
        }
    }

    /// A snapshot of all members.
    pub fn get_all_peers(&self) -> (r: Vec<Peer>)
        ensures
            r@.map_values(|p: Peer| p@) == self@.peers,
    {
        let mut r: Vec<Peer> = Vec::new();
        let mut i: usize = 0;
        while i < self.peers.len()
            invariant
                i <= self.peers.len(),
                r@.len() == i,
                forall|k: int| 0 <= k < i ==> #[trigger] r@[k]@ == self@.peers[k],
            decreases self.peers.len() - i,
        {
            r.push(self.peers[i].clone());
            i = i + 1;
        }
        proof {
            assert(r@.map_values(|p: Peer| p@) =~= self@.peers);
        }
        r
    }

    /// The roster: every member's entry, in room order.
    pub fn roster(&self) -> (r: Vec<crate::messages::ParticipantInfo>)
        ensures
            r@.map_values(|p: crate::messages::ParticipantInfo| p@) == spec_roster(self@.peers),
    {
        let mut r: Vec<crate::messages::ParticipantInfo> = Vec::new();
        let mut i: usize = 0;
        while i < self.peers.len()
            invariant
                i <= self.peers.len(),
                r@.len() == i,
                forall|k: int| 0 <= k < i ==> #[trigger] r@[k]@
                    == crate::peer::spec_info_of(self@.peers[k]),
            decreases self.peers.len() - i,
        {
            r.push(self.peers[i].to_info());
            i = i + 1;
        }
        proof {
            assert(r@.map_values(|p: crate::messages::ParticipantInfo| p@)
                =~= spec_roster(self@.peers));
        }
        r
    }

    /// The number of members.
    pub fn peer_count(&self) -> (r: usize)
        ensures
            r == self@.peers.len(),
    {
        self.peers.len()
    }

    /// True when the room has no members.
    pub fn is_empty(&self) -> (r: bool)
        ensures
            r == (self@.peers.len() == 0),
    {
        self.peers.len() == 0
    }

    /// Delivers a message to every member except the sender; a
    /// member whose queue is closed is skipped.
    pub fn broadcast_message(&mut self, from_id: &str, msg: ServerMessage)
        ensures
            final(self)@.id == old(self)@.id,
            final(self)@.peers == broadcast_except(old(self)@.peers, from_id@, msg@),
            old(self).wf() ==> final(self).wf(),
    {
        let ghost peers0 = self@.peers;
        let ghost m = msg@;
        let mut i: usize = 0;
        while i < self.peers.len()
            invariant
                i <= self.peers.len(),
                self.peers@.len() == peers0.len(),
                self.id@ == old(self).id@,
                m == msg@,
                forall|k: int| 0 <= k < i ==> #[trigger] self.peers@[k]@
                    == (if peers0[k].id == from_id@ { peers0[k] } else { notified(peers0[k], m) }),
                forall|k: int| i <= k < peers0.len() ==> #[trigger] self.peers@[k]@ == peers0[k],
            decreases self.peers.len() - i,
        {
            if !str_eq(self.peers[i].id.as_str(), from_id) {
                let note = msg.clone();
                let target = &mut self.peers[i];
                let _ = target.send_message(note);
            }
            i = i + 1;
        }
        proof {
            assert(self@.peers =~= broadcast_except(peers0, from_id@, m));
            assert(forall|k: int| 0 <= k < peers0.len()
                ==> (#[trigger] self@.peers[k]).id == peers0[k].id);
        }
    }

    /// Delivers a message to every member, the sender included; a
    /// member whose queue is closed is skipped.
    pub fn broadcast_message_to_all(&mut self, msg: ServerMessage)
        ensures
            final(self)@.id == old(self)@.id,
            final(self)@.peers == broadcast_all(old(self)@.peers, msg@),
            old(self).wf() ==> final(self).wf(),
    {
        let ghost peers0 = self@.peers;
        let ghost m = msg@;
        let mut i: usize = 0;
        while i < self.peers.len()
            invariant
                i <= self.peers.len(),
                self.peers@.len() == peers0.len(),
                self.id@ == old(self).id@,
                m == msg@,
                forall|k: int| 0 <= k < i ==> #[trigger] self.peers@[k]@ == notified(peers0[k], m),
                forall|k: int| i <= k < peers0.len() ==> #[trigger] self.peers@[k]@ == peers0[k],
            decreases self.peers.len() - i,
        {
            let note = msg.clone();
            let target = &mut self.peers[i];
            let _ = target.send_message(note);
            i = i + 1;
        }
        proof {
            assert(self@.peers =~= broadcast_all(peers0, m));
            assert(forall|k: int| 0 <= k < peers0.len()
                ==> (#[trigger] self@.peers[k]).id == peers0[k].id);
        }
    }

    /// Replaces the flag triple of the member with the id; nothing
    /// else moves.  Returns whether the member was found.
    pub fn update_peer_state(&mut self, peer_id: &str, muted: bool, video_on: bool, screen_sharing: bool) -> (found: bool)
        requires
            old(self).wf(),
        ensures
            final(self).wf(),
            final(self)@.id == old(self)@.id,
            contains_id(old(self)@.peers, peer_id@) ==> found && final(self)@.peers
                == old(self)@.peers.update(
                    idx_of(old(self)@.peers, peer_id@),
                    with_flags(peer_with(old(self)@.peers, peer_id@), muted, video_on, screen_sharing),
                ),
            !contains_id(old(self)@.peers, peer_id@) ==> !found && final(self)@ == old(self)@,
    {
        let at = match self.find_idx(peer_id) {
            Some(at) => at,
            None => {
                return false;
            },
        };
        proof {
            assert(at as int == idx_of(self@.peers, peer_id@));
        }
        let target = &mut self.peers[at];
        target.update_state(muted, video_on, screen_sharing);
        proof {
            assert(self@.peers =~= old(self)@.peers.update(
                idx_of(old(self)@.peers, peer_id@),
                with_flags(peer_with(old(self)@.peers, peer_id@), muted, video_on, screen_sharing),
            ));
        }
        true
    }

    /// Delivers a message to the member with the id alone.  The
    /// delivery follows the queue discipline of `notified`; the
    /// result says whether it landed.
    pub fn send_to_peer(&mut self, peer_id: &str, msg: ServerMessage) -> (r: Result<(), SfuError>)
        requires
            old(self).wf(),
        ensures
            final(self).wf(),
            final(self)@.id == old(self)@.id,
            contains_id(old(self)@.peers, peer_id@) ==> final(self)@.peers
                == old(self)@.peers.update(
                    idx_of(old(self)@.peers, peer_id@),
                    notified(peer_with(old(self)@.peers, peer_id@), msg@),
                )
                && (r is Ok <==> peer_with(old(self)@.peers, peer_id@).queue_open),
            !contains_id(old(self)@.peers, peer_id@) ==> final(self)@ == old(self)@
                && r == Err::<(), SfuError>(SfuError::Protocol),
    {
        let at = match self.find_idx(peer_id) {
            Some(at) => at,
            None => {
                return Err(SfuError::Protocol);
            },
        };
        proof {
            assert(at as int == idx_of(self@.peers, peer_id@));
        }
        let target = &mut self.peers[at];
        let r = target.send_message(msg);
        proof {
            assert(self@.peers =~= old(self)@.peers.update(
                idx_of(old(self)@.peers, peer_id@),
                notified(peer_with(old(self)@.peers, peer_id@), msg@),
            ));
        }
        r
    }

    /// Records a local output track on the member with the id.
    pub fn add_local_track_to_peer(&mut self, peer_id: &str, track_id: String, track_type: crate::peer::TrackType) -> (found: bool)
        requires
            old(self).wf(),
        ensures
            final(self).wf(),
            final(self)@.id == old(self)@.id,
            contains_id(old(self)@.peers, peer_id@) ==> found && final(self)@.peers
                == old(self)@.peers.update(
                    idx_of(old(self)@.peers, peer_id@),
                    crate::peer::PeerView {
                        local_tracks: peer_with(old(self)@.peers, peer_id@).local_tracks.push(
                            crate::peer::LocalTrackView {
                                track_id: track_id@,
                                track_type,
                                kind: crate::peer::spec_media_kind(track_type),
                            },
                        ),
                        ..peer_with(old(self)@.peers, peer_id@)
                    },
                ),
            !contains_id(old(self)@.peers, peer_id@) ==> !found && final(self)@ == old(self)@,
    {
        let at = match self.find_idx(peer_id) {
            Some(at) => at,
            None => {
                return false;
            },
        };
        proof {
            assert(at as int == idx_of(self@.peers, peer_id@));
        }
        let ghost idv = track_id@;
        let target = &mut self.peers[at];
        target.add_local_track(track_id, track_type);
        proof {
            assert(self@.peers =~= old(self)@.peers.update(
                idx_of(old(self)@.peers, peer_id@),
                crate::peer::PeerView {
                    local_tracks: peer_with(old(self)@.peers, peer_id@).local_tracks.push(
                        crate::peer::LocalTrackView {
                            track_id: idv,
                            track_type,
                            kind: crate::peer::spec_media_kind(track_type),
                        },
                    ),
                    ..peer_with(old(self)@.peers, peer_id@)
                },
            ));
        }
        true
    }

    /// Classifies an incoming remote track by its id; the caller
    /// then runs the relay loop for it, planning each packet's
    /// fan-out with `relay::plan_fan_out`.
    pub fn handle_incoming_track(&self, _from_peer_id: &str, track_id: &str) -> (r: crate::peer::TrackType)
        ensures
            r == crate::peer::spec_track_type_of(track_id@),
    {
        crate::peer::TrackType::from_track_id(track_id)
    }

    /// This room's share of the statistics: member count and the
    /// total number of local output tracks.
    pub fn get_stats(&self) -> (r: RoomStats)
        ensures
            r.room_id@ == self@.id,
            r.participant_count == self@.peers.len(),
            r.active_tracks == spec_track_total(self@.peers),
    {
        let mut tracks: usize = 0;
        let mut i: usize = 0;
        while i < self.peers.len()
            invariant
                i <= self.peers.len(),
                tracks as int == spec_track_total(self@.peers.take(i as int)),
            decreases self.peers.len() - i,
        {
            proof {
                assert(self@.peers.take(i + 1).drop_last() =~= self@.peers.take(i as int));
                assert(self@.peers.take(i + 1).last() == self@.peers[i as int]);
            }
            let n = self.peers[i].local_tracks.len();
            if tracks <= usize::MAX - n {
                tracks = tracks + n;
            }
            i = i + 1;
        }
        proof {
            assert(self@.peers.take(self.peers@.len() as int) =~= self@.peers);
        }
        RoomStats {
            room_id: self.id.clone(),
            participant_count: self.peers.len(),
            active_tracks: tracks,
        }
    }
}

/// True when no two rooms of the registry share an id.
pub open spec fn room_ids_unique(rooms: Seq<RoomView>) -> bool {
    forall|i: int, j: int| 0 <= i < j < rooms.len() ==> rooms[i].id != rooms[j].id
}

/// True when some room of the registry has the id.
pub open spec fn contains_room(rooms: Seq<RoomView>, id: Seq<char>) -> bool {
    exists|i: int| 0 <= i < rooms.len() && (#[trigger] rooms[i]).id == id
}

/// The index of the room with the id.
pub open spec fn room_idx_of(rooms: Seq<RoomView>, id: Seq<char>) -> int {
    choose|i: int| 0 <= i < rooms.len() && (#[trigger] rooms[i]).id == id
}

/// The room with the id.
pub open spec fn room_with(rooms: Seq<RoomView>, id: Seq<char>) -> RoomView {
    rooms[room_idx_of(rooms, id)]
}

/// What `get_or_create_room` does to the registry, and which slot
/// it hands back: the existing room's when the id is present,
/// otherwise a fresh empty room appended at the end.
pub open spec fn spec_get_or_create(rooms: Seq<RoomView>, id: Seq<char>) -> (Seq<RoomView>, int) {
    if contains_room(rooms, id) {
        (rooms, room_idx_of(rooms, id))
    } else {
        (rooms.push(RoomView { id, peers: Seq::empty() }), rooms.len() as int)
    }
}

/// What `cleanup_empty_room` does to the registry: the room with
/// the id leaves exactly when it is present and has no members.
pub open spec fn spec_cleanup(rooms: Seq<RoomView>, id: Seq<char>) -> Seq<RoomView> {
    if contains_room(rooms, id) && room_with(rooms, id).peers.len() == 0 {
        rooms.remove(room_idx_of(rooms, id))
    } else {
        rooms
    }
}


/// At most one room per id: after one `get_or_create_room`, a second
/// call with the same id finds the registry unchanged and names the
/// same slot, so every caller, in whatever order the calls are
/// serialized, observes one room under that id.
pub proof fn lemma_room_singleton(rooms: Seq<RoomView>, id: Seq<char>)
    requires
        room_ids_unique(rooms),
    ensures
        ({
            let (r1, i1) = spec_get_or_create(rooms, id);
            let (r2, i2) = spec_get_or_create(r1, id);
            r2 == r1 && i2 == i1 && 0 <= i1 < r1.len() && r1[i1].id == id
        }),
{
    let (r1, i1) = spec_get_or_create(rooms, id);
    if contains_room(rooms, id) {
        assert(0 <= i1 < rooms.len() && rooms[i1].id == id);
    } else {
        assert(r1[rooms.len() as int].id == id);
        assert(contains_room(r1, id));
        let j = room_idx_of(r1, id);
        assert(0 <= j < r1.len() && r1[j].id == id);
        assert forall|k: int| 0 <= k < rooms.len() implies (#[trigger] r1[k]).id != id by {
            assert(r1[k] == rooms[k]);
            assert(!contains_room(rooms, id) ==> rooms[k].id != id);
        }
        assert(j == rooms.len());
    }
}

/// Cleanup is idempotent and safe: on an absent or populated room it
/// is a no-op, a populated room is never removed, and sweeping the
/// same id twice is the same as sweeping it once.
pub proof fn lemma_cleanup_idempotent(rooms: Seq<RoomView>, id: Seq<char>)
    requires
        room_ids_unique(rooms),
    ensures
        !(contains_room(rooms, id) && room_with(rooms, id).peers.len() == 0)
            ==> spec_cleanup(rooms, id) == rooms,
        forall|k: int| 0 <= k < rooms.len() && (#[trigger] rooms[k]).peers.len() > 0
            ==> spec_cleanup(rooms, id).contains(rooms[k]),
        spec_cleanup(spec_cleanup(rooms, id), id) == spec_cleanup(rooms, id),
{
    let r1 = spec_cleanup(rooms, id);
    if contains_room(rooms, id) && room_with(rooms, id).peers.len() == 0 {
        let at = room_idx_of(rooms, id);
        assert(0 <= at < rooms.len() && rooms[at].id == id);
        assert forall|k: int| 0 <= k < rooms.len() && (#[trigger] rooms[k]).peers.len() > 0
            implies r1.contains(rooms[k]) by {
            assert(k != at);
            if k < at {
                assert(r1[k] == rooms[k]);
            } else {
                assert(r1[k - 1] == rooms[k]);
            }
        }
        assert forall|k: int| 0 <= k < r1.len() implies (#[trigger] r1[k]).id != id by {
            if k < at {
                assert(r1[k] == rooms[k]);
                assert(rooms[k].id != rooms[at].id);
            } else {
                assert(r1[k] == rooms[k + 1]);
                assert(rooms[k + 1].id != rooms[at].id);
            }
        }
        assert(!contains_room(r1, id));
    } else {
        assert(r1 == rooms);
        assert forall|k: int| 0 <= k < rooms.len() && (#[trigger] rooms[k]).peers.len() > 0
            implies r1.contains(rooms[k]) by {
            assert(r1[k] == rooms[k]);
        }
    }
}

/// The process-wide directory of rooms, created on first join and
/// reclaimed when empty.
#[derive(Debug)]
pub struct RoomManager {
    pub rooms: Vec<Room>,
}

impl View for RoomManager {
    type V = Seq<RoomView>;

    open spec fn view(&self) -> Seq<RoomView> {
        self.rooms@.map_values(|r: Room| r@)
    }
}

impl RoomManager {
    /// Well-formed: room ids are pairwise distinct and every room is
    /// itself well-formed.
    pub open spec fn wf(&self) -> bool {
        room_ids_unique(self@) && forall|i: int|
            0 <= i < self@.len() ==> ids_unique((#[trigger] self@[i]).peers)
    }

    /// An empty registry.
    pub fn new() -> (r: RoomManager)
        ensures
            r.wf(),
            r@ == Seq::<RoomView>::empty(),
    {
        let r = RoomManager { rooms: Vec::new() };
        proof {
            assert(r@ =~= Seq::<RoomView>::empty());
        }
        r
    }

    /// The index of the room with the id, if any.
    pub fn find_room_idx(&self, room_id: &str) -> (r: Option<usize>)
        ensures
            match r {
                Some(i) => i < self@.len() && self@[i as int].id == room_id@
                    && contains_room(self@, room_id@),
                None => !contains_room(self@, room_id@),
            },
    {
        let mut i: usize = 0;
        while i < self.rooms.len()
            invariant
                i <= self.rooms.len(),
                forall|k: int| 0 <= k < i ==> (#[trigger] self@[k]).id != room_id@,
            decreases self.rooms.len() - i,
        {
            if str_eq(self.rooms[i].id.as_str(), room_id) {
                proof {
                    assert(self@[i as int] == self.rooms@[i as int]@);
                }
                return Some(i);
            }
            i = i + 1;
        }
        None
    }

    /// Returns the slot of the room with the id, creating an empty
    /// room under a single critical section when none exists, so
    /// that at most one room ever carries the id.
    pub fn get_or_create_room(&mut self, room_id: String) -> (r: usize)
        requires
            old(self).wf(),
        ensures
            final(self).wf(),
            (final(self)@, r as int) == spec_get_or_create(old(self)@, room_id@),
    {
        match self.find_room_idx(room_id.as_str()) {
            Some(i) => i,
            None => {
                let at = self.rooms.len();
                let room = Room::new(room_id);
                self.rooms.push(room);
                proof {
                    assert(self@ =~= old(self)@.push(RoomView {
                        id: room_id@,
                        peers: Seq::empty(),
                    }));
                    assert(forall|k: int| 0 <= k < old(self)@.len()
                        ==> (#[trigger] self@[k]) == old(self)@[k]);
                    assert(room_ids_unique(self@));
                }
                at
            },
        }
    }

    /// Reads access to the room in a slot.
    pub fn room_at(&self, i: usize) -> (r: &Room)
        requires
            i < self@.len(),
        ensures
            r@ == self@[i as int],
    {
        &self.rooms[i]
    }

    /// Write access to the room in a slot; the registry afterwards
    /// holds whatever the caller leaves in the slot.
    pub fn room_at_mut(&mut self, i: usize) -> (r: &mut Room)
        requires
            i < old(self)@.len(),
        ensures
            *r == old(self).rooms@[i as int],
            final(self).rooms@ == old(self).rooms@.update(i as int, *final(r)),
    {
        &mut self.rooms[i]
    }

    /// The room with the id, if present.
    pub fn get_room(&self, room_id: &str) -> (r: Option<&Room>)
        requires
            self.wf(),
        ensures
            match r {
                Some(room) => contains_room(self@, room_id@)
                    && room@ == room_with(self@, room_id@),
                None => !contains_room(self@, room_id@),
            },
    {
        match self.find_room_idx(room_id) {
            Some(i) => {
                proof {
                    assert(i as int == room_idx_of(self@, room_id@));
                }
                Some(&self.rooms[i])
            },
            None => None,
        }
    }

    /// Removes the room with the id exactly when it is present and
    /// empty; a populated or absent room is left alone.  Returns
    /// whether a room was removed.
    pub fn cleanup_empty_room(&mut self, room_id: &str) -> (r: bool)
        requires
            old(self).wf(),
        ensures
            final(self).wf(),
            final(self)@ == spec_cleanup(old(self)@, room_id@),
            r == (contains_room(old(self)@, room_id@)
                && room_with(old(self)@, room_id@).peers.len() == 0),
    {
        let at = match self.find_room_idx(room_id) {
            Some(at) => at,
            None => {
                return false;
            },
        };
        proof {
            assert(at as int == room_idx_of(self@, room_id@));
        }
        if self.rooms[at].peer_count() == 0 {
            let _ = self.rooms.remove(at);
            proof {
                assert(self@ =~= spec_cleanup(old(self)@, room_id@));
            }
            true
        } else {
            false
        }
    }

    /// The number of rooms.
    pub fn room_count(&self) -> (r: usize)
        ensures
            r == self@.len(),
    {
        self.rooms.len()
    }

    /// Every room's share of the statistics.
    pub fn get_stats(&self) -> (r: Vec<RoomStats>)
        ensures
            r@.len() == self@.len(),
            forall|k: int| 0 <= k < self@.len() ==> (#[trigger] r@[k]).room_id@ == self@[k].id
                && r@[k].participant_count == self@[k].peers.len(),
    {
        let mut r: Vec<RoomStats> = Vec::new();
        let mut i: usize = 0;
        while i < self.rooms.len()
            invariant
                i <= self.rooms.len(),
                r@.len() == i,
                forall|k: int| 0 <= k < i ==> (#[trigger] r@[k]).room_id@ == self@[k].id
                    && r@[k].participant_count == self@[k].peers.len(),
            decreases self.rooms.len() - i,
        {
            r.push(self.rooms[i].get_stats());
            i = i + 1;
        }
        r
    }

    /// Sweeps the registry: every room without members leaves, in
    /// one pass; the populated rooms stay in order.
    pub fn cleanup_all_empty_rooms(&mut self)
        requires
            old(self).wf(),
        ensures
            final(self).wf(),
            final(self)@ == old(self)@.filter(|r: RoomView| r.peers.len() != 0),
    {
        let ghost pred = |r: RoomView| r.peers.len() != 0;
        let mut i: usize = 0;
        let ghost mut j: int = 0;
        while i < self.rooms.len()
            invariant
                i <= self.rooms@.len(),
                0 <= j <= old(self)@.len(),
                self.rooms@.len() - i == old(self)@.len() - j,
                self@.take(i as int) =~= old(self)@.take(j).filter(pred),
                self@.skip(i as int) =~= old(self)@.skip(j),
                pred == (|r: RoomView| r.peers.len() != 0),
            decreases self.rooms.len() - i,
        {
            proof {
                reveal(Seq::filter);
                assert(old(self)@.take(j + 1).drop_last() =~= old(self)@.take(j));
                assert(old(self)@.take(j + 1).last() == old(self)@[j]);
                assert(self@[i as int] == self@.skip(i as int)[0]);
                assert(self@[i as int] == old(self)@[j]);
            }
            let ghost prev = self@;
            let ghost prevr = self.rooms@;
            if self.rooms[i].peer_count() == 0 {
                let _ = self.rooms.remove(i);
                proof {
                    assert(self.rooms@ == prevr.remove(i as int));
                    assert forall|k: int| 0 <= k < self@.len()
                        implies #[trigger] self@[k] == (if k < i { prev[k] } else { prev[k + 1] }) by {
                        if k < i {
                            assert(self.rooms@[k] == prevr[k]);
                        } else {
                            assert(self.rooms@[k] == prevr[k + 1]);
                        }
                    }
                    assert(self@.take(i as int) =~= prev.take(i as int));
                    assert(self@.take(i as int) =~= old(self)@.take(j + 1).filter(pred));
                    assert(self@.skip(i as int) =~= prev.skip(i as int + 1));
                    assert forall|k: int| 0 <= k < self@.skip(i as int).len()
                        implies self@.skip(i as int)[k] == old(self)@.skip(j + 1)[k] by {
                        assert(prev.skip(i as int)[k + 1] == old(self)@.skip(j)[k + 1]);
                    }
                    assert(self@.skip(i as int) =~= old(self)@.skip(j + 1));
                }
            } else {
                i = i + 1;
                proof {
                    assert(self@.take(i as int) =~= self@.take(i - 1).push(self@[i - 1]));
                    assert(self@.take(i as int) =~= old(self)@.take(j + 1).filter(pred));
                    assert forall|k: int| 0 <= k < self@.skip(i as int).len()
                        implies self@.skip(i as int)[k] == old(self)@.skip(j + 1)[k] by {
                        assert(prev.skip(i - 1)[k + 1] == old(self)@.skip(j)[k + 1]);
                    }
                    assert(self@.skip(i as int) =~= old(self)@.skip(j + 1));
                }
            }
            proof {
                j = j + 1;
            }
        }
        proof {
            reveal(Seq::filter);
            assert(old(self)@.take(j) =~= old(self)@);
            assert(self@.take(i as int) =~= self@);
            assert(self@ == old(self)@.filter(pred));
            lemma_filter_rooms_wf(old(self)@, pred);
            assert forall|k: int| 0 <= k < self@.len()
                implies ids_unique((#[trigger] self@[k]).peers) by {
                let w = choose|w: int| 0 <= w < old(self)@.len() && old(self)@[w] == self@[k];
                assert(ids_unique(old(self)@[w].peers));
            }
        }
    }
}

/// Filtering a registry with distinct room ids keeps the ids
/// distinct, and every kept room stands in the registry that was
/// swept.
proof fn lemma_filter_rooms_wf(rooms: Seq<RoomView>, pred: spec_fn(RoomView) -> bool)
    requires
        room_ids_unique(rooms),
    ensures
        room_ids_unique(rooms.filter(pred)),
        forall|a: int| 0 <= a < rooms.filter(pred).len() ==> exists|k: int|
            0 <= k < rooms.len() && rooms[k] == #[trigger] rooms.filter(pred)[a],
    decreases rooms.len(),
{
    reveal(Seq::filter);
    if rooms.len() > 0 {
        let rest = rooms.drop_last();
        assert(room_ids_unique(rest));
        lemma_filter_rooms_wf(rest, pred);
        let fr = rest.filter(pred);
        let fs = rooms.filter(pred);
        assert forall|a: int| 0 <= a < fr.len() implies exists|k: int|
            0 <= k < rooms.len() && rooms[k] == #[trigger] fr[a] by {
            let k = choose|k: int| 0 <= k < rest.len() && rest[k] == fr[a];
            assert(rooms[k] == fr[a]);
        }
        if pred(rooms.last()) {
            assert(fs == fr.push(rooms.last()));
            assert forall|a: int| 0 <= a < fr.len()
                implies (#[trigger] fr[a]).id != rooms.last().id by {
                let k = choose|k: int| 0 <= k < rest.len() && rest[k] == fr[a];
                assert(rooms[k] == fr[a]);
                assert(rooms[k].id != rooms[rooms.len() - 1].id);
            }
            assert forall|a: int, b: int| 0 <= a < b < fs.len()
                implies fs[a].id != fs[b].id by {
                if b < fr.len() {
                    assert(fr[a].id != fr[b].id);
                } else {
                    assert(fs[b] == rooms.last());
                    assert(fr[a].id != rooms.last().id);
                }
            }
            assert forall|a: int| 0 <= a < fs.len() implies exists|k: int|
                0 <= k < rooms.len() && rooms[k] == #[trigger] fs[a] by {
                if a < fr.len() {
                    let k = choose|k: int| 0 <= k < rest.len() && rest[k] == fr[a];
                    assert(rooms[k] == fs[a]);
                } else {
                    assert(rooms[rooms.len() - 1] == fs[a]);
                }
            }
        } else {
            assert(fs == fr);
        }
    }
}

} // verus!
