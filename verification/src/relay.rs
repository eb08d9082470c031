//! The relay plan: which members receive a forwarded RTP packet,
//! and on which of their local tracks.
//!
//! One relay loop runs per published remote track; each iteration
//! reads one packet and asks `plan_fan_out` where it goes.  The plan
//! never names the publisher, names each recipient at most once, and
//! for each recipient picks the first local track matching the
//! packet's role and transport kind.  The caller performs the
//! writes; a failed write drops the packet for that recipient and
//! never stalls the rest.

use vstd::prelude::*;

use crate::peer::{LocalTrack, LocalTrackView, MediaKind, PeerView, TrackType};
use crate::room::{Room, contains_id, ids_unique};

verus! {

/// One planned write: a recipient and the index of the local track
/// of that recipient to write the packet to.
#[derive(Debug, PartialEq, Eq)]
pub struct ForwardTarget {
    pub peer_id: String,
    pub track_index: usize,
}

/// The mathematical value of a planned write.
pub struct ForwardTargetView {
    pub peer_id: Seq<char>,
    pub track_index: int,
}

impl View for ForwardTarget {
    type V = ForwardTargetView;

    open spec fn view(&self) -> ForwardTargetView {
        ForwardTargetView { peer_id: self.peer_id@, track_index: self.track_index as int }
    }
}

/// The subscription filter: whether a recipient's flags admit a
/// packet of this role.  Audio is dropped for a muted recipient,
/// camera video for one whose video is off, and screen video goes
/// only to a recipient whose screen-sharing flag is set.
pub open spec fn filter_allows(p: PeerView, t: TrackType) -> bool {
    match t {
        TrackType::Audio => !p.muted,
        TrackType::Camera => p.video_on,
        TrackType::Screen => p.screen_sharing,
    }
}

/// True when a local track carries this role and transport kind.
pub open spec fn track_matches(tr: LocalTrackView, t: TrackType, k: MediaKind) -> bool {
    tr.track_type == t && tr.kind == k
}

/// The first local track at or after `i` that matches, if any.
pub open spec fn first_match_from(tracks: Seq<LocalTrackView>, t: TrackType, k: MediaKind, i: int) -> Option<int>
    decreases tracks.len() - i,
{
    if i < 0 || i >= tracks.len() {
        None
    } else if track_matches(tracks[i], t, k) {
        Some(i)
    } else {
        first_match_from(tracks, t, k, i + 1)
    }
}

/// The first matching local track of a peer, if any.
pub open spec fn first_match(tracks: Seq<LocalTrackView>, t: TrackType, k: MediaKind) -> Option<int> {
    first_match_from(tracks, t, k, 0)
}

/// Whether a peer receives a packet of this role and kind published
/// by `from`: it is not the publisher, its flags admit the role, and
/// it has a matching local track.
pub open spec fn wants(p: PeerView, from: Seq<char>, t: TrackType, k: MediaKind) -> bool {
    p.id != from && filter_allows(p, t) && first_match(p.local_tracks, t, k) is Some
}

/// The planned write for a receiving peer.
pub open spec fn target_of(p: PeerView, t: TrackType, k: MediaKind) -> ForwardTargetView {
    ForwardTargetView { peer_id: p.id, track_index: first_match(p.local_tracks, t, k)->Some_0 }
}

/// The whole plan: one write per receiving peer, in room order.
pub open spec fn spec_plan(peers: Seq<PeerView>, from: Seq<char>, t: TrackType, k: MediaKind) -> Seq<ForwardTargetView>
    decreases peers.len(),
{
    if peers.len() == 0 {
        Seq::empty()
    } else {
        let rest = spec_plan(peers.drop_last(), from, t, k);
        if wants(peers.last(), from, t, k) {
            rest.push(target_of(peers.last(), t, k))
        } else {
            rest
        }
    }
}

/// The first matching local track, found as the specification names
/// it.
fn find_track_at(tracks: &Vec<LocalTrack>, t: TrackType, k: MediaKind, i: usize) -> (r: Option<usize>)
    requires
        i <= tracks@.len(),
    ensures
        match r {
            Some(x) => first_match_from(tracks@.map_values(|tr: LocalTrack| tr@), t, k, i as int)
                == Some(x as int) && x < tracks@.len(),
            None => first_match_from(tracks@.map_values(|tr: LocalTrack| tr@), t, k, i as int) is None,
        },
    decreases tracks@.len() - i,
{
    if i == tracks.len() {
        None
    } else if tracks[i].track_type == t && tracks[i].kind == k {
        Some(i)
    } else {
        find_track_at(tracks, t, k, i + 1)
    }
}

/// Plans the fan-out of one packet published by `from_id` with role
/// `t` and transport kind `k`: for every other member whose flags
/// admit the role and who has a matching local track, exactly one
/// write to the first such track.
pub fn plan_fan_out(room: &Room, from_id: &str, t: TrackType, k: MediaKind) -> (plan: Vec<ForwardTarget>)
    ensures
        plan@.map_values(|x: ForwardTarget| x@) == spec_plan(room@.peers, from_id@, t, k),
{
    let mut plan: Vec<ForwardTarget> = Vec::new();
    let mut i: usize = 0;
    while i < room.peers.len()
        invariant
            i <= room.peers.len(),
            plan@.map_values(|x: ForwardTarget| x@)
                =~= spec_plan(room@.peers.take(i as int), from_id@, t, k),
        decreases room.peers.len() - i,
    {
        proof {
            assert(room@.peers.take(i + 1).drop_last() =~= room@.peers.take(i as int));
            assert(room@.peers.take(i + 1).last() == room@.peers[i as int]);
        }
        let p = &room.peers[i];
        let allowed = match t {
            TrackType::Audio => !p.muted,
            TrackType::Camera => p.video_on,
            TrackType::Screen => p.screen_sharing,
        };
        if !crate::text::str_eq(p.id.as_str(), from_id) && allowed {
            match find_track_at(&p.local_tracks, t, k, 0) {
                Some(at) => {
                    let entry = ForwardTarget { peer_id: p.id.clone(), track_index: at };
                    proof {
                        assert(entry@ == target_of(room@.peers[i as int], t, k));
                    }
                    plan.push(entry);
                    proof {
                        assert(plan@.map_values(|x: ForwardTarget| x@)
                            =~= spec_plan(room@.peers.take(i + 1), from_id@, t, k));
                    }
                },
                None => {
                    proof {
                        assert(!wants(room@.peers[i as int], from_id@, t, k));
                    }
                },
            }
        } else {
            proof {
                assert(!wants(room@.peers[i as int], from_id@, t, k));
            }
        }
        i = i + 1;
    }
    proof {
        assert(room@.peers.take(room@.peers.len() as int) =~= room@.peers);
    }
    plan
}

/// No self-forwarding: the plan for a packet published by `from`
/// never names `from` as a recipient.
pub proof fn lemma_no_self_forward(peers: Seq<PeerView>, from: Seq<char>, t: TrackType, k: MediaKind)
    ensures
        forall|j: int| 0 <= j < spec_plan(peers, from, t, k).len()
            ==> (#[trigger] spec_plan(peers, from, t, k)[j]).peer_id != from,
    decreases peers.len(),
{
    if peers.len() > 0 {
        lemma_no_self_forward(peers.drop_last(), from, t, k);
        let plan = spec_plan(peers, from, t, k);
        let rplan = spec_plan(peers.drop_last(), from, t, k);
        assert forall|j: int| 0 <= j < plan.len()
            implies (#[trigger] plan[j]).peer_id != from by {
            if j < rplan.len() {
                assert(plan[j] == rplan[j]);
            } else {
                assert(wants(peers.last(), from, t, k));
                assert(plan[j] == target_of(peers.last(), t, k));
            }
        }
    }
}

/// The entry at `j` of the plan names a member of the room that
/// wants the packet, with that member's first matching track.
pub open spec fn plan_names_member(peers: Seq<PeerView>, from: Seq<char>, t: TrackType, k: MediaKind, j: int) -> bool {
    exists|i: int| 0 <= i < peers.len() && wants(#[trigger] peers[i], from, t, k)
        && target_of(peers[i], t, k) == spec_plan(peers, from, t, k)[j]
}

/// Every planned write names some member of the room that wants the
/// packet, with that member's first matching track.
pub proof fn lemma_plan_sound(peers: Seq<PeerView>, from: Seq<char>, t: TrackType, k: MediaKind)
    ensures
        forall|j: int| 0 <= j < spec_plan(peers, from, t, k).len()
            ==> #[trigger] plan_names_member(peers, from, t, k, j),
    decreases peers.len(),
{
    if peers.len() > 0 {
        let rest = peers.drop_last();
        lemma_plan_sound(rest, from, t, k);
        let plan = spec_plan(peers, from, t, k);
        let rplan = spec_plan(rest, from, t, k);
        assert forall|j: int| 0 <= j < plan.len()
            implies #[trigger] plan_names_member(peers, from, t, k, j) by {
            if j < rplan.len() {
                assert(plan_names_member(rest, from, t, k, j));
                let i = choose|i: int| 0 <= i < rest.len() && wants(#[trigger] rest[i], from, t, k)
                    && target_of(rest[i], t, k) == spec_plan(rest, from, t, k)[j];
                assert(peers[i] == rest[i]);
                assert(wants(peers[i], from, t, k));
                assert(plan[j] == rplan[j]);
                assert(target_of(peers[i], t, k) == plan[j]);
            } else {
                assert(wants(peers.last(), from, t, k));
                assert(peers[peers.len() - 1] == peers.last());
                assert(wants(peers[peers.len() - 1], from, t, k));
                assert(plan[j] == target_of(peers.last(), t, k));
                assert(target_of(peers[peers.len() - 1], t, k) == plan[j]);
            }
        }
    }
}

/// A packet reaches each recipient at most once: with distinct
/// member ids, the planned writes name pairwise distinct peers.
pub proof fn lemma_forward_once(peers: Seq<PeerView>, from: Seq<char>, t: TrackType, k: MediaKind)
    requires
        ids_unique(peers),
    ensures
        forall|a: int, b: int|
            0 <= a < b < spec_plan(peers, from, t, k).len()
                ==> (#[trigger] spec_plan(peers, from, t, k)[a]).peer_id
                    != (#[trigger] spec_plan(peers, from, t, k)[b]).peer_id,
    decreases peers.len(),
{
    if peers.len() > 0 {
        let rest = peers.drop_last();
        assert(ids_unique(rest));
        lemma_forward_once(rest, from, t, k);
        lemma_plan_sound(rest, from, t, k);
        let plan = spec_plan(peers, from, t, k);
        let rplan = spec_plan(rest, from, t, k);
        assert forall|a: int, b: int| 0 <= a < b < plan.len()
            implies (#[trigger] plan[a]).peer_id != (#[trigger] plan[b]).peer_id by {
            if b < rplan.len() {
                assert(plan[a] == rplan[a] && plan[b] == rplan[b]);
            } else if b == rplan.len() && plan.len() == rplan.len() + 1 {
                assert(plan_names_member(rest, from, t, k, a));
                let i = choose|i: int| 0 <= i < rest.len() && wants(#[trigger] rest[i], from, t, k)
                    && target_of(rest[i], t, k) == spec_plan(rest, from, t, k)[a];
                assert(plan[a] == rplan[a]);
                assert(plan[a].peer_id == rest[i].id);
                assert(plan[b].peer_id == peers.last().id);
                assert(peers[i].id != peers[peers.len() - 1].id);
            }
        }
    }
}

/// Fan-out completeness: in a room whose other members all admit
/// the role and hold a matching track, a packet published by a
/// member is planned for exactly the other members: the count of
/// writes is the room size less one.
pub proof fn lemma_fan_out_complete(peers: Seq<PeerView>, from: Seq<char>, t: TrackType, k: MediaKind)
    requires
        ids_unique(peers),
        forall|i: int| 0 <= i < peers.len() && (#[trigger] peers[i]).id != from
            ==> filter_allows(peers[i], t) && first_match(peers[i].local_tracks, t, k) is Some,
    ensures
        spec_plan(peers, from, t, k).len() == if contains_id(peers, from) {
            peers.len() - 1
        } else {
            peers.len() as int
        },
    decreases peers.len(),
{
    if peers.len() == 0 {
        assert(!contains_id(peers, from));
    } else {
        let rest = peers.drop_last();
        assert(ids_unique(rest));
        lemma_fan_out_complete(rest, from, t, k);
        let last = peers.last();
        assert(last == peers[peers.len() - 1]);
        if last.id == from {
            assert(!wants(last, from, t, k));
            assert(contains_id(peers, from));
            assert forall|i: int| 0 <= i < rest.len() implies (#[trigger] rest[i]).id != from by {
                assert(peers[i].id != peers[peers.len() - 1].id);
            }
            assert(!contains_id(rest, from));
        } else {
            assert(wants(last, from, t, k));
            if contains_id(rest, from) {
                let w = choose|i: int| 0 <= i < rest.len() && (#[trigger] rest[i]).id == from;
                assert(peers[w].id == from);
                assert(contains_id(peers, from));
            }
            if contains_id(peers, from) {
                let w = choose|i: int| 0 <= i < peers.len() && (#[trigger] peers[i]).id == from;
                assert(w != peers.len() - 1);
                assert(rest[w].id == from);
                assert(contains_id(rest, from));
            }
        }
    }
}

} // verus!
