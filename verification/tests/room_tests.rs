use sfu_core::messages::ServerMessage;
use sfu_core::peer::{MediaKind, Peer, TrackType};
use sfu_core::relay::plan_fan_out;
use sfu_core::room::{Room, RoomManager};

#[test]
fn test_room_membership_counts() {
    let mut room = Room::new("r1".to_string());
    assert!(room.is_empty());
    room.add_peer(Peer::new("p1".to_string(), "Alice".to_string())).unwrap();
    room.add_peer(Peer::new("p2".to_string(), "Bob".to_string())).unwrap();
    assert_eq!(room.peer_count(), 2);
    let all = room.get_all_peers();
    assert_eq!(all.len(), 2);
    assert!(all.iter().all(|p| room.get_peer(&p.id).is_some()));
    assert!(room.get_peer("p3").is_none());
}

#[test]
fn test_add_peer_notifies_existing_only() {
    let mut room = Room::new("r1".to_string());
    room.add_peer(Peer::new("p1".to_string(), "Alice".to_string())).unwrap();
    room.add_peer(Peer::new("p2".to_string(), "Bob".to_string())).unwrap();
    let p1 = room.get_peer("p1").unwrap();
    assert_eq!(
        p1.outbox,
        vec![ServerMessage::ParticipantJoined { id: "p2".to_string(), name: "Bob".to_string() }]
    );
    let p2 = room.get_peer("p2").unwrap();
    assert!(p2.outbox.is_empty());
}

#[test]
fn test_remove_peer_notifies_rest_and_is_idempotent() {
    let mut room = Room::new("r1".to_string());
    room.add_peer(Peer::new("p1".to_string(), "Alice".to_string())).unwrap();
    room.add_peer(Peer::new("p2".to_string(), "Bob".to_string())).unwrap();
    room.remove_peer("p1").unwrap();
    assert_eq!(room.peer_count(), 1);
    let p2 = room.get_peer("p2").unwrap();
    assert_eq!(
        p2.outbox,
        vec![ServerMessage::ParticipantLeft { participant_id: "p1".to_string() }]
    );
    // Removing an absent id changes nothing.
    room.remove_peer("p1").unwrap();
    assert_eq!(room.peer_count(), 1);
    assert_eq!(room.get_peer("p2").unwrap().outbox.len(), 1);
}

#[test]
fn test_broadcast_skips_sender() {
    let mut room = Room::new("r1".to_string());
    room.add_peer(Peer::new("p1".to_string(), "Alice".to_string())).unwrap();
    room.add_peer(Peer::new("p2".to_string(), "Bob".to_string())).unwrap();
    room.broadcast_message("p1", ServerMessage::Pong);
    assert_eq!(room.get_peer("p1").unwrap().outbox.len(), 1); // only p2's join notice
    assert_eq!(room.get_peer("p2").unwrap().outbox, vec![ServerMessage::Pong]);
    room.broadcast_message_to_all(ServerMessage::IceGatheringComplete);
    assert_eq!(room.get_peer("p1").unwrap().outbox.len(), 2);
    assert_eq!(room.get_peer("p2").unwrap().outbox.len(), 2);
}

#[test]
fn test_get_or_create_room_is_single() {
    let mut mgr = RoomManager::new();
    let a = mgr.get_or_create_room("r1".to_string());
    let b = mgr.get_or_create_room("r1".to_string());
    assert_eq!(a, b);
    assert_eq!(mgr.room_count(), 1);
    let c = mgr.get_or_create_room("r2".to_string());
    assert_ne!(a, c);
    assert_eq!(mgr.room_count(), 2);
    assert!(mgr.get_room("r1").is_some());
    assert!(mgr.get_room("missing").is_none());
}

#[test]
fn test_cleanup_empty_room_is_safe() {
    let mut mgr = RoomManager::new();
    let at = mgr.get_or_create_room("r1".to_string());
    mgr.room_at_mut(at).add_peer(Peer::new("p1".to_string(), "Alice".to_string())).unwrap();
    // A populated room is never removed.
    assert!(!mgr.cleanup_empty_room("r1"));
    assert_eq!(mgr.room_count(), 1);
    // An absent room is a no-op.
    assert!(!mgr.cleanup_empty_room("r9"));
    assert_eq!(mgr.room_count(), 1);
    // An empty room goes, once.
    mgr.room_at_mut(at).remove_peer("p1").unwrap();
    assert!(mgr.cleanup_empty_room("r1"));
    assert!(!mgr.cleanup_empty_room("r1"));
    assert_eq!(mgr.room_count(), 0);
}

#[test]
fn test_cleanup_all_empty_rooms() {
    let mut mgr = RoomManager::new();
    let a = mgr.get_or_create_room("empty1".to_string());
    let b = mgr.get_or_create_room("busy".to_string());
    let _ = mgr.get_or_create_room("empty2".to_string());
    assert_eq!(a, 0);
    mgr.room_at_mut(b).add_peer(Peer::new("p1".to_string(), "Alice".to_string())).unwrap();
    mgr.cleanup_all_empty_rooms();
    assert_eq!(mgr.room_count(), 1);
    assert!(mgr.get_room("busy").is_some());
}

#[test]
fn test_room_stats() {
    let mut room = Room::new("r1".to_string());
    let mut p = Peer::new("p1".to_string(), "Alice".to_string());
    p.add_local_track("audio-p2".to_string(), TrackType::Audio);
    room.add_peer(p).unwrap();
    let stats = room.get_stats();
    assert_eq!(stats.room_id, "r1");
    assert_eq!(stats.participant_count, 1);
    assert_eq!(stats.active_tracks, 1);
}

#[test]
fn test_track_type_from_track_id() {
    assert_eq!(TrackType::from_track_id("screen-share-1"), TrackType::Screen);
    assert_eq!(TrackType::from_track_id("audio-mic"), TrackType::Audio);
    assert_eq!(TrackType::from_track_id("webcam"), TrackType::Camera);
    // "screen" wins over "audio" when both occur.
    assert_eq!(TrackType::from_track_id("audio-screen"), TrackType::Screen);
}

#[test]
fn test_plan_respects_subscription_filter() {
    let mut room = Room::new("r1".to_string());
    let mut p1 = Peer::new("p1".to_string(), "Alice".to_string());
    p1.add_local_track("audio-a".to_string(), TrackType::Audio);
    let mut p2 = Peer::new("p2".to_string(), "Bob".to_string());
    p2.add_local_track("audio-b".to_string(), TrackType::Audio);
    p2.update_state(true, true, false); // muted: audio is filtered out
    let mut p3 = Peer::new("p3".to_string(), "Carol".to_string());
    p3.add_local_track("cam-c".to_string(), TrackType::Camera);
    room.add_peer(p1).unwrap();
    room.add_peer(p2).unwrap();
    room.add_peer(p3).unwrap();

    // p2 is muted and p3 has no audio track: nobody receives.
    let audio_plan = plan_fan_out(&room, "p1", TrackType::Audio, MediaKind::Audio);
    assert!(audio_plan.is_empty());

    // Camera video reaches p3 alone; p1 and p2 have no camera track.
    let video_plan = plan_fan_out(&room, "p1", TrackType::Camera, MediaKind::Video);
    assert_eq!(video_plan.len(), 1);
    assert_eq!(video_plan[0].peer_id, "p3");
    assert_eq!(video_plan[0].track_index, 0);
}

#[test]
fn test_peer_flag_triple_is_atomic() {
    let mut p = Peer::new("p1".to_string(), "Alice".to_string());
    assert_eq!(p.get_state(), (false, true, false));
    p.update_state(true, false, true);
    assert_eq!(p.get_state(), (true, false, true));
}

#[test]
fn test_send_message_fails_after_close() {
    let mut p = Peer::new("p1".to_string(), "Alice".to_string());
    assert!(p.send_message(ServerMessage::Pong).is_ok());
    p.close();
    assert!(p.send_message(ServerMessage::Pong).is_err());
    assert_eq!(p.outbox.len(), 1);
}
