use sfu_core::codec::{encode_client_message, encode_server_message, parse_client_message};
use sfu_core::errors::SfuError;
use sfu_core::messages::{ClientMessage, ParticipantInfo, ServerMessage};

#[test]
fn test_serialize_join() {
    let msg = ClientMessage::Join {
        room: "room1".to_string(),
        participant: "user123".to_string(),
        name: "John Doe".to_string(),
    };

    let json = encode_client_message(&msg);
    assert!(json.contains("\"type\":\"join\""));
    assert!(json.contains("\"room\":\"room1\""));
}

#[test]
fn test_deserialize_offer() {
    let json = r#"{"type":"offer","sdp":"v=0\r\n..."}"#;
    let msg = parse_client_message(json).unwrap();

    match msg {
        ClientMessage::Offer { sdp } => {
            assert_eq!(sdp, "v=0\r\n...");
        }
        _ => panic!("Wrong message type"),
    }
}

#[test]
fn test_participant_info() {
    let info = ParticipantInfo::new("user1".to_string(), "Alice".to_string());
    assert_eq!(info.id, "user1");
    assert_eq!(info.name, "Alice");
    assert!(!info.muted);
    assert!(info.video_on);
    assert!(!info.screen_sharing);
}

#[test]
fn test_serialize_server_message() {
    let msg = ServerMessage::Joined {
        your_id: "abc123".to_string(),
        participants: vec![],
    };

    let json = encode_server_message(&msg);
    assert!(json.contains("\"type\":\"joined\""));
}

#[test]
fn test_client_round_trips() {
    let cases = vec![
        ClientMessage::Join {
            room: "r".to_string(),
            participant: "p".to_string(),
            name: "n \"quoted\"\\".to_string(),
        },
        ClientMessage::Offer { sdp: "v=0\r\na=x\n\t".to_string() },
        ClientMessage::Answer { sdp: "v=0".to_string() },
        ClientMessage::Candidate { candidate: "candidate:1 1 UDP 1 1.2.3.4 5 typ host".to_string() },
        ClientMessage::StateUpdate { muted: true, video_on: false, screen_sharing: true },
        ClientMessage::StartScreenShare,
        ClientMessage::StopScreenShare,
        ClientMessage::Ping,
        ClientMessage::GetParticipants,
    ];
    for msg in cases {
        let json = encode_client_message(&msg);
        let back = parse_client_message(&json).unwrap();
        assert_eq!(back, msg);
    }
}

#[test]
fn test_parse_rejects_bad_frames() {
    assert_eq!(parse_client_message(""), Err(SfuError::Protocol));
    assert_eq!(parse_client_message("not json"), Err(SfuError::Protocol));
    assert_eq!(parse_client_message("{}"), Err(SfuError::Protocol));
    assert_eq!(parse_client_message(r#"{"type":"nonsense"}"#), Err(SfuError::Protocol));
    assert_eq!(parse_client_message(r#"{"type":"join","room":"r"}"#), Err(SfuError::Protocol));
    assert_eq!(
        parse_client_message(r#"{"type":"state_update","muted":true,"video_on":false}"#),
        Err(SfuError::Protocol)
    );
    assert_eq!(parse_client_message(r#"{"type":"ping"} "#), Err(SfuError::Protocol));
}

#[test]
fn test_parse_unescapes() {
    let json = r#"{"type":"offer","sdp":"a\"b\\c\/d\nXA"}"#;
    let msg = parse_client_message(json).unwrap();
    assert_eq!(msg, ClientMessage::Offer { sdp: "a\"b\\c/d\nXA".to_string() });

    let unicode = r#"{"type":"offer","sdp":"A\u000a\t\b\f\r"}"#;
    let msg = parse_client_message(unicode).unwrap();
    assert_eq!(
        msg,
        ClientMessage::Offer { sdp: "A\n\t\u{0008}\u{000C}\r".to_string() }
    );
}

#[test]
fn test_encode_escapes_control_characters() {
    let msg = ServerMessage::Answer { sdp: "v=0\r\n\u{0001}".to_string() };
    let json = encode_server_message(&msg);
    assert_eq!(json, "{\"type\":\"answer\",\"sdp\":\"v=0\\r\\n\\u0001\"}");
}

#[test]
fn test_encode_error_with_and_without_code() {
    let with_code = ServerMessage::Error { message: "Room is full".to_string(), code: Some(403) };
    assert_eq!(
        encode_server_message(&with_code),
        r#"{"type":"error","message":"Room is full","code":403}"#
    );
    let without = ServerMessage::Error { message: "oops".to_string(), code: None };
    assert_eq!(
        encode_server_message(&without),
        r#"{"type":"error","message":"oops","code":null}"#
    );
}

#[test]
fn test_encode_roster_messages() {
    let roster = vec![
        ParticipantInfo::new("p1".to_string(), "Alice".to_string()),
        ParticipantInfo::with_state("p2".to_string(), "Bob".to_string(), true, false, true),
    ];
    let msg = ServerMessage::Participants { participants: roster };
    let expected = "{\"type\":\"participants\",\"participants\":[\
        {\"id\":\"p1\",\"name\":\"Alice\",\"muted\":false,\"video_on\":true,\"screen_sharing\":false},\
        {\"id\":\"p2\",\"name\":\"Bob\",\"muted\":true,\"video_on\":false,\"screen_sharing\":true}]}";
    assert_eq!(encode_server_message(&msg), expected);
}

#[test]
fn test_error_names() {
    assert_eq!(SfuError::RoomFull.as_str(), "Room is full");
    assert_eq!(SfuError::Protocol.as_str(), "protocol error");
    assert_eq!(SfuError::Signaling.as_str(), "signaling error");
    assert_eq!(SfuError::Transport.as_str(), "transport error");
    assert_eq!(SfuError::Send.as_str(), "send error");
    assert_eq!(SfuError::TrackWrite.as_str(), "track write error");
}
