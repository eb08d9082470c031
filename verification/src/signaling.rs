//! The connection handler's decision layer: what a join does to the
//! registry, what each later client message does to the room, and
//! what a disconnect tears down.
//!
//! The caller owns the socket and the WebRTC transport; it parses
//! frames with the codec, calls these functions, performs the
//! returned transport action, and drains the member outboxes back
//! to the sockets.  Everything the server decides is here and under
//! contract.

use vstd::prelude::*;

use crate::errors::SfuError;
use crate::messages::{ClientMessage, ClientMessageView, ParticipantInfoView, ServerMessage, ServerMessageView};
use crate::peer::{Peer, PeerView, with_flags};
use crate::room::{
    Room, RoomManager, RoomView, broadcast_all, broadcast_except, contains_id, idx_of, ids_unique,
    notified, peer_with, remove_id, room_idx_of, room_with, spec_cleanup, spec_get_or_create,
    spec_roster, with_peers,
};

verus! {

/// What the caller must do with the transport after a dispatch.
#[derive(Debug, PartialEq, Eq)]
pub enum TransportAction {
    /// Nothing; the dispatch was handled entirely in the room.
    Nothing,
    /// Apply the client's SDP offer and send the answer back with
    /// `Room::send_to_peer`.
    ApplyOffer { sdp: String },
    /// Accept the client's SDP answer as the remote description.
    ApplyRemoteAnswer { sdp: String },
    /// Inject the client's remote ICE candidate.
    AddIceCandidate { candidate: String },
}

/// The mathematical value of a transport action.
pub enum TransportActionView {
    Nothing,
    ApplyOffer { sdp: Seq<char> },
    ApplyRemoteAnswer { sdp: Seq<char> },
    AddIceCandidate { candidate: Seq<char> },
}

impl View for TransportAction {
    type V = TransportActionView;

    open spec fn view(&self) -> TransportActionView {
        match self {
            TransportAction::Nothing => TransportActionView::Nothing,
            TransportAction::ApplyOffer { sdp } => TransportActionView::ApplyOffer { sdp: sdp@ },
            TransportAction::ApplyRemoteAnswer { sdp } => TransportActionView::ApplyRemoteAnswer {
                sdp: sdp@,
            },
            TransportAction::AddIceCandidate { candidate } => TransportActionView::AddIceCandidate {
                candidate: candidate@,
            },
        }
    }
}

/// The error sent back when a join finds the room full.
pub fn room_full_message() -> (r: ServerMessage)
    ensures
        r@ == (ServerMessageView::Error {
            message: "Room is full"@,
            code: Some(403u32),
        }),
{
    ServerMessage::Error { message: "Room is full".to_owned(), code: Some(403) }
}

/// The session a join creates: default flags, no tracks, an open
/// queue holding the `Joined` confirmation with the prior roster.
pub open spec fn spec_new_member(pid: Seq<char>, name: Seq<char>, roster: Seq<ParticipantInfoView>) -> PeerView {
    PeerView {
        id: pid,
        name: name,
        muted: false,
        video_on: true,
        screen_sharing: false,
        local_tracks: Seq::empty(),
        outbox: seq![ServerMessageView::Joined { your_id: pid, participants: roster }],
        queue_open: true,
    }
}

/// A room after a successful join: the prior members hear
/// `ParticipantJoined`, then the newcomer stands in the room with
/// its `Joined` confirmation queued; a member that carried the same
/// id is replaced.
pub open spec fn spec_join_room(room: RoomView, pid: Seq<char>, name: Seq<char>) -> RoomView {
    let newcomer = spec_new_member(pid, name, spec_roster(room.peers));
    let told = broadcast_all(room.peers, ServerMessageView::ParticipantJoined { id: pid, name: name });
    if contains_id(room.peers, pid) {
        with_peers(room, told.update(idx_of(room.peers, pid), newcomer))
    } else {
        with_peers(room, told.push(newcomer))
    }
}

/// Binds a fresh connection to a room: resolves or creates the room,
/// refuses it when full, and otherwise registers the participant.
/// On success the slot of the room is returned; the caller sends the
/// messages now queued in the member outboxes.  On a full room the
/// caller sends `room_full_message()` and closes the socket; the
/// registry keeps the (possibly fresh) room.
pub fn handle_join(mgr: &mut RoomManager, max_participants: usize, room_id: &str, participant_id: &str, name: &str) -> (r: Result<usize, SfuError>)
    requires
        old(mgr).wf(),
    ensures
        final(mgr).wf(),
        ({
            let (rooms1, at) = spec_get_or_create(old(mgr)@, room_id@);
            if rooms1[at].peers.len() >= max_participants {
                r == Err::<usize, SfuError>(SfuError::RoomFull) && final(mgr)@ == rooms1
            } else {
                r == Ok::<usize, SfuError>(at as usize) && final(mgr)@ == rooms1.update(
                    at,
                    spec_join_room(rooms1[at], participant_id@, name@),
                )
            }
        }),
{
    let at = mgr.get_or_create_room(room_id.to_owned());
    let ghost rooms1 = mgr@;
    let room = mgr.room_at(at);
    if room.peer_count() >= max_participants {
        return Err(SfuError::RoomFull);
    }
    let roster = room.roster();
    let mut newcomer = Peer::new(participant_id.to_owned(), name.to_owned());
    let _ = newcomer.send_message(ServerMessage::Joined {
        your_id: participant_id.to_owned(),
        participants: roster,
    });
    proof {
        assert(newcomer@.outbox =~= spec_new_member(
            participant_id@,
            name@,
            spec_roster(rooms1[at as int].peers),
        ).outbox);
        assert(newcomer@ == spec_new_member(
            participant_id@,
            name@,
            spec_roster(rooms1[at as int].peers),
        ));
    }
    let room = mgr.room_at_mut(at);
    let _ = room.add_peer(newcomer);
    proof {
        assert(mgr@ =~= rooms1.update(
            at as int,
            spec_join_room(rooms1[at as int], participant_id@, name@),
        ));
        assert forall|k: int| 0 <= k < mgr@.len()
            implies ids_unique((#[trigger] mgr@[k]).peers) by {
            if k != at as int {
                assert(mgr@[k] == rooms1[k]);
            }
        }
        assert forall|a: int, b: int| 0 <= a < b < mgr@.len()
            implies mgr@[a].id != mgr@[b].id by {
            assert(rooms1[a].id != rooms1[b].id);
            assert(mgr@[a].id == rooms1[a].id && mgr@[b].id == rooms1[b].id);
        }
    }
    Ok(at)
}

/// The flags of a member after a client message, the member found.
pub open spec fn upd_member(peers: Seq<PeerView>, pid: Seq<char>, p1: PeerView) -> Seq<PeerView> {
    if contains_id(peers, pid) {
        peers.update(idx_of(peers, pid), p1)
    } else {
        peers
    }
}

/// The room after one client message is dispatched for a member.
pub open spec fn spec_dispatch_room(room: RoomView, pid: Seq<char>, m: ClientMessageView) -> RoomView {
    let peers = room.peers;
    let found = contains_id(peers, pid);
    let p0 = peer_with(peers, pid);
    match m {
        ClientMessageView::StateUpdate { muted, video_on, screen_sharing } => with_peers(
            room,
            broadcast_except(
                upd_member(peers, pid, with_flags(p0, muted, video_on, screen_sharing)),
                pid,
                ServerMessageView::StateUpdate { participant_id: pid, muted, video_on, screen_sharing },
            ),
        ),
        ClientMessageView::StartScreenShare => if found {
            with_peers(
                room,
                broadcast_except(
                    upd_member(peers, pid, with_flags(p0, p0.muted, p0.video_on, true)),
                    pid,
                    ServerMessageView::ScreenShareStarted { participant_id: pid },
                ),
            )
        } else {
            room
        },
        ClientMessageView::StopScreenShare => if found {
            with_peers(
                room,
                broadcast_except(
                    upd_member(peers, pid, with_flags(p0, p0.muted, p0.video_on, false)),
                    pid,
                    ServerMessageView::ScreenShareStopped { participant_id: pid },
                ),
            )
        } else {
            room
        },
        ClientMessageView::Ping => if found {
            with_peers(room, peers.update(idx_of(peers, pid), notified(p0, ServerMessageView::Pong)))
        } else {
            room
        },
        ClientMessageView::GetParticipants => if found {
            with_peers(room, peers.update(
                idx_of(peers, pid),
                notified(p0, ServerMessageView::Participants { participants: spec_roster(peers) }),
            ))
        } else {
            room
        },
        _ => room,
    }
}

/// The transport work a client message asks of the caller.
pub open spec fn spec_dispatch_action(m: ClientMessageView) -> TransportActionView {
    match m {
        ClientMessageView::Offer { sdp } => TransportActionView::ApplyOffer { sdp },
        ClientMessageView::Answer { sdp } => TransportActionView::ApplyRemoteAnswer { sdp },
        ClientMessageView::Candidate { candidate } => TransportActionView::AddIceCandidate { candidate },
        _ => TransportActionView::Nothing,
    }
}

/// Dispatches one client message from an established participant:
/// state updates land atomically and fan out to the other members,
/// probes are answered, roster requests served, and the SDP or ICE
/// payloads are handed back as the transport action to perform.  A
/// message from an id the room does not hold leaves the room alone.
pub fn handle_message(room: &mut Room, participant_id: &str, msg: ClientMessage) -> (r: TransportAction)
    requires
        old(room).wf(),
    ensures
        final(room).wf(),
        final(room)@ == spec_dispatch_room(old(room)@, participant_id@, msg@),
        r@ == spec_dispatch_action(msg@),
{
    match msg {
        ClientMessage::StateUpdate { muted, video_on, screen_sharing } => {
            let _ = room.update_peer_state(participant_id, muted, video_on, screen_sharing);
            room.broadcast_message(participant_id, ServerMessage::StateUpdate {
                participant_id: participant_id.to_owned(),
                muted,
                video_on,
                screen_sharing,
            });
            TransportAction::Nothing
        },
        ClientMessage::StartScreenShare => {
            let flags = match room.get_peer(participant_id) {
                Some(p) => Some(p.get_state()),
                None => None,
            };
            match flags {
                Some((m, v, _)) => {
                    let _ = room.update_peer_state(participant_id, m, v, true);
                    room.broadcast_message(participant_id, ServerMessage::ScreenShareStarted {
                        participant_id: participant_id.to_owned(),
                    });
                },
                None => {},
            }
            TransportAction::Nothing
        },
        ClientMessage::StopScreenShare => {
            let flags = match room.get_peer(participant_id) {
                Some(p) => Some(p.get_state()),
                None => None,
            };
            match flags {
                Some((m, v, _)) => {
                    let _ = room.update_peer_state(participant_id, m, v, false);
                    room.broadcast_message(participant_id, ServerMessage::ScreenShareStopped {
                        participant_id: participant_id.to_owned(),
                    });
                },
                None => {},
            }
            TransportAction::Nothing
        },
        ClientMessage::Ping => {
            let _ = room.send_to_peer(participant_id, ServerMessage::Pong);
            TransportAction::Nothing
        },
        ClientMessage::GetParticipants => {
            let roster = room.roster();
            let _ = room.send_to_peer(participant_id, ServerMessage::Participants {
                participants: roster,
            });
            TransportAction::Nothing
        },
        ClientMessage::Offer { sdp } => TransportAction::ApplyOffer { sdp },
        ClientMessage::Answer { sdp } => TransportAction::ApplyRemoteAnswer { sdp },
        ClientMessage::Candidate { candidate } => TransportAction::AddIceCandidate { candidate },
        ClientMessage::Join { room: _, participant: _, name: _ } => TransportAction::Nothing,
    }
}

/// The registry after the removal step of a disconnect, before the
/// empty-room sweep.
pub open spec fn spec_disconnect_mid(rooms: Seq<RoomView>, rid: Seq<char>, pid: Seq<char>) -> Seq<RoomView> {
    if crate::room::contains_room(rooms, rid) {
        let at = room_idx_of(rooms, rid);
        let room = rooms[at];
        if contains_id(room.peers, pid) {
            rooms.update(at, with_peers(room, broadcast_all(
                remove_id(room.peers, pid),
                ServerMessageView::ParticipantLeft { participant_id: pid },
            )))
        } else {
            rooms
        }
    } else {
        rooms
    }
}

/// The registry after a participant's connection closes: the member
/// leaves its room, the remaining members hear `ParticipantLeft`,
/// and the room itself is reclaimed when that left it empty.
pub open spec fn spec_disconnect(rooms: Seq<RoomView>, rid: Seq<char>, pid: Seq<char>) -> Seq<RoomView> {
    spec_cleanup(spec_disconnect_mid(rooms, rid, pid), rid)
}

/// Tears down a closed connection: removes the participant from the
/// room, notifies the remaining members, and reclaims the room if it
/// is now empty.  Returns whether the room was reclaimed.
pub fn handle_disconnect(mgr: &mut RoomManager, room_id: &str, participant_id: &str) -> (removed: bool)
    requires
        old(mgr).wf(),
    ensures
        final(mgr).wf(),
        final(mgr)@ == spec_disconnect(old(mgr)@, room_id@, participant_id@),
        removed == ({
            let mid = spec_disconnect_mid(old(mgr)@, room_id@, participant_id@);
            crate::room::contains_room(mid, room_id@)
                && room_with(mid, room_id@).peers.len() == 0
        }),
{
    let at = match mgr.find_room_idx(room_id) {
        Some(at) => at,
        None => {
            let r = mgr.cleanup_empty_room(room_id);
            return r;
        },
    };
    proof {
        assert(at as int == room_idx_of(mgr@, room_id@));
    }
    let ghost rooms0 = mgr@;
    let room = mgr.room_at_mut(at);
    let _ = room.remove_peer(participant_id);
    proof {
        let rooms1 = spec_disconnect_mid(rooms0, room_id@, participant_id@);
        assert(mgr@ =~= rooms1);
        assert forall|k: int| 0 <= k < mgr@.len()
            implies ids_unique((#[trigger] mgr@[k]).peers) && mgr@[k].id == rooms0[k].id by {
            if k != at as int {
                assert(mgr@[k] == rooms0[k]);
            }
        }
        assert(mgr.wf());
    }
    mgr.cleanup_empty_room(room_id)
}

/// Join ordering: around a join followed by the newcomer's first
/// state update, every prior member with an open queue holds the
/// `ParticipantJoined` notice strictly before the `StateUpdate`
/// notice in its queue, so it observes the join first.
pub proof fn lemma_join_precedes_state_update(room: RoomView, pid: Seq<char>, name: Seq<char>, m: bool, v: bool, s: bool)
    requires
        ids_unique(room.peers),
        !contains_id(room.peers, pid),
    ensures
        ({
            let joined = spec_join_room(room, pid, name);
            let updated = spec_dispatch_room(joined, pid, ClientMessageView::StateUpdate {
                muted: m,
                video_on: v,
                screen_sharing: s,
            });
            forall|i: int| 0 <= i < room.peers.len() && (#[trigger] room.peers[i]).queue_open
                ==> {
                    let q = updated.peers[i].outbox;
                    let at = room.peers[i].outbox.len();
                    q.len() == at + 2
                        && q[at as int] == (ServerMessageView::ParticipantJoined { id: pid, name: name })
                        && q[at as int + 1] == (ServerMessageView::StateUpdate {
                            participant_id: pid,
                            muted: m,
                            video_on: v,
                            screen_sharing: s,
                        })
                }
        }),
{
    let joined = spec_join_room(room, pid, name);
    let updated = spec_dispatch_room(joined, pid, ClientMessageView::StateUpdate {
        muted: m,
        video_on: v,
        screen_sharing: s,
    });
    let n = room.peers.len() as int;
    assert(joined.peers.len() == n + 1);
    assert(joined.peers[n].id == pid);
    assert forall|k: int| 0 <= k < n
        implies (#[trigger] joined.peers[k]).id == room.peers[k].id
            && joined.peers[k].id != pid by {
        assert(room.peers[k].id != pid);
    }
    assert(contains_id(joined.peers, pid));
    let w = idx_of(joined.peers, pid);
    assert(0 <= w < joined.peers.len() && joined.peers[w].id == pid);
    assert(w == n);
    assert forall|i: int| 0 <= i < room.peers.len() && (#[trigger] room.peers[i]).queue_open
        implies {
            let q = updated.peers[i].outbox;
            let at = room.peers[i].outbox.len();
            q.len() == at + 2
                && q[at as int] == (ServerMessageView::ParticipantJoined { id: pid, name: name })
                && q[at as int + 1] == (ServerMessageView::StateUpdate {
                    participant_id: pid,
                    muted: m,
                    video_on: v,
                    screen_sharing: s,
                })
        } by {
        assert(joined.peers[i] == notified(room.peers[i], ServerMessageView::ParticipantJoined {
            id: pid,
            name: name,
        }));
        let mid = upd_member(joined.peers, pid, with_flags(peer_with(joined.peers, pid), m, v, s));
        assert(mid[i] == joined.peers[i]);
        assert(mid[i].id == room.peers[i].id);
        assert(updated.peers[i] == notified(mid[i], ServerMessageView::StateUpdate {
            participant_id: pid,
            muted: m,
            video_on: v,
            screen_sharing: s,
        }));
    }
}

} // verus!
