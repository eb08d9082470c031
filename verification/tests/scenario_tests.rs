use sfu_core::codec::encode_server_message;
use sfu_core::errors::SfuError;
use sfu_core::messages::ClientMessage;
use sfu_core::peer::{MediaKind, TrackType};
use sfu_core::relay::plan_fan_out;
use sfu_core::room::RoomManager;
use sfu_core::signaling::{handle_disconnect, handle_join, handle_message, room_full_message, TransportAction};

#[test]
fn test_single_join() {
    let mut mgr = RoomManager::new();
    let at = handle_join(&mut mgr, 50, "r1", "p1", "Alice").unwrap();
    assert_eq!(mgr.room_count(), 1);
    let room = mgr.room_at(at);
    assert_eq!(room.peer_count(), 1);
    let p1 = room.get_peer("p1").unwrap();
    assert_eq!(p1.outbox.len(), 1);
    assert_eq!(
        encode_server_message(&p1.outbox[0]),
        r#"{"type":"joined","your_id":"p1","participants":[]}"#
    );
}

#[test]
fn test_second_join_broadcast() {
    let mut mgr = RoomManager::new();
    let at = handle_join(&mut mgr, 50, "r1", "p1", "Alice").unwrap();
    handle_join(&mut mgr, 50, "r1", "p2", "Bob").unwrap();
    let room = mgr.room_at(at);

    let p1 = room.get_peer("p1").unwrap();
    assert_eq!(
        encode_server_message(&p1.outbox[1]),
        r#"{"type":"participant_joined","id":"p2","name":"Bob"}"#
    );

    let p2 = room.get_peer("p2").unwrap();
    let joined = encode_server_message(&p2.outbox[0]);
    assert!(joined.contains(
        r#"{"id":"p1","name":"Alice","muted":false,"video_on":true,"screen_sharing":false}"#
    ));
}

#[test]
fn test_room_full_rejection() {
    let mut mgr = RoomManager::new();
    let at = handle_join(&mut mgr, 2, "r1", "p1", "Alice").unwrap();
    handle_join(&mut mgr, 2, "r1", "p2", "Bob").unwrap();
    let refused = handle_join(&mut mgr, 2, "r1", "p3", "Carol");
    assert_eq!(refused, Err(SfuError::RoomFull));
    assert_eq!(
        encode_server_message(&room_full_message()),
        r#"{"type":"error","message":"Room is full","code":403}"#
    );
    assert_eq!(mgr.room_at(at).peer_count(), 2);
}

#[test]
fn test_state_update_fan_out() {
    let mut mgr = RoomManager::new();
    let at = handle_join(&mut mgr, 50, "r1", "p1", "Alice").unwrap();
    handle_join(&mut mgr, 50, "r1", "p2", "Bob").unwrap();
    let room = mgr.room_at_mut(at);
    let p1_before = room.get_peer("p1").unwrap().outbox.len();

    let action = handle_message(
        room,
        "p1",
        ClientMessage::StateUpdate { muted: true, video_on: false, screen_sharing: false },
    );
    assert_eq!(action, TransportAction::Nothing);

    let p2 = room.get_peer("p2").unwrap();
    assert_eq!(
        encode_server_message(p2.outbox.last().unwrap()),
        r#"{"type":"state_update","participant_id":"p1","muted":true,"video_on":false,"screen_sharing":false}"#
    );
    // The sender does not hear its own update.
    assert_eq!(room.get_peer("p1").unwrap().outbox.len(), p1_before);
    assert_eq!(room.get_peer("p1").unwrap().get_state(), (true, false, false));
}

#[test]
fn test_relay_sender_isolation() {
    let mut mgr = RoomManager::new();
    let at = handle_join(&mut mgr, 50, "r1", "p1", "Alice").unwrap();
    handle_join(&mut mgr, 50, "r1", "p2", "Bob").unwrap();
    handle_join(&mut mgr, 50, "r1", "p3", "Carol").unwrap();
    let room = mgr.room_at_mut(at);
    for pid in ["p1", "p2", "p3"] {
        let track_id = format!("audio-{}", pid);
        assert!(room.add_local_track_to_peer(pid, track_id, TrackType::Audio));
    }

    let kind = room.handle_incoming_track("p1", "audio-p1");
    assert_eq!(kind, TrackType::Audio);
    let plan = plan_fan_out(room, "p1", kind, MediaKind::Audio);
    let mut receivers: Vec<String> = plan.iter().map(|t| t.peer_id.clone()).collect();
    receivers.sort();
    assert_eq!(receivers, vec!["p2".to_string(), "p3".to_string()]);
    assert!(plan.iter().all(|t| t.track_index == 0));
}

#[test]
fn test_clean_disconnect() {
    let mut mgr = RoomManager::new();
    let at = handle_join(&mut mgr, 50, "r1", "p1", "Alice").unwrap();
    handle_join(&mut mgr, 50, "r1", "p2", "Bob").unwrap();

    handle_disconnect(&mut mgr, "r1", "p1");
    {
        let room = mgr.room_at(at);
        assert_eq!(room.peer_count(), 1);
        let p2 = room.get_peer("p2").unwrap();
        assert_eq!(
            encode_server_message(p2.outbox.last().unwrap()),
            r#"{"type":"participant_left","participant_id":"p1"}"#
        );
    }

    handle_disconnect(&mut mgr, "r1", "p2");
    assert_eq!(mgr.room_count(), 0);
}

#[test]
fn test_ping_and_roster_requests() {
    let mut mgr = RoomManager::new();
    let at = handle_join(&mut mgr, 50, "r1", "p1", "Alice").unwrap();
    let room = mgr.room_at_mut(at);
    handle_message(room, "p1", ClientMessage::Ping);
    assert_eq!(
        encode_server_message(room.get_peer("p1").unwrap().outbox.last().unwrap()),
        r#"{"type":"pong"}"#
    );
    handle_message(room, "p1", ClientMessage::GetParticipants);
    let text = encode_server_message(room.get_peer("p1").unwrap().outbox.last().unwrap());
    assert!(text.starts_with(r#"{"type":"participants","participants":["#));
    assert!(text.contains(r#""id":"p1""#));
}

#[test]
fn test_screen_share_toggles() {
    let mut mgr = RoomManager::new();
    let at = handle_join(&mut mgr, 50, "r1", "p1", "Alice").unwrap();
    handle_join(&mut mgr, 50, "r1", "p2", "Bob").unwrap();
    let room = mgr.room_at_mut(at);
    handle_message(room, "p1", ClientMessage::StartScreenShare);
    assert_eq!(room.get_peer("p1").unwrap().get_state(), (false, true, true));
    assert_eq!(
        encode_server_message(room.get_peer("p2").unwrap().outbox.last().unwrap()),
        r#"{"type":"screen_share_started","participant_id":"p1"}"#
    );
    handle_message(room, "p1", ClientMessage::StopScreenShare);
    assert_eq!(room.get_peer("p1").unwrap().get_state(), (false, true, false));
    assert_eq!(
        encode_server_message(room.get_peer("p2").unwrap().outbox.last().unwrap()),
        r#"{"type":"screen_share_stopped","participant_id":"p1"}"#
    );
}

#[test]
fn test_sdp_and_candidate_actions() {
    let mut mgr = RoomManager::new();
    let at = handle_join(&mut mgr, 50, "r1", "p1", "Alice").unwrap();
    let room = mgr.room_at_mut(at);
    let action = handle_message(room, "p1", ClientMessage::Offer { sdp: "v=0".to_string() });
    assert_eq!(action, TransportAction::ApplyOffer { sdp: "v=0".to_string() });
    let action = handle_message(room, "p1", ClientMessage::Answer { sdp: "v=0a".to_string() });
    assert_eq!(action, TransportAction::ApplyRemoteAnswer { sdp: "v=0a".to_string() });
    let action = handle_message(
        room,
        "p1",
        ClientMessage::Candidate { candidate: "candidate:0".to_string() },
    );
    assert_eq!(
        action,
        TransportAction::AddIceCandidate { candidate: "candidate:0".to_string() }
    );
}
