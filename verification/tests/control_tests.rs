use sfu_core::control::{create_room_flow, join_room_flow, route_signal};
use sfu_core::state::{MediaPortManager, RoomManager, SessionManager};

#[test]
fn test_create_room_flow() {
    let mut rm = RoomManager::new();
    let reply = create_room_flow(&mut rm, "conf");
    assert!(reply.success);
    assert_eq!(reply.message, "Room conf created");
    assert!(rm.room_exists("conf"));
    // Creating it again is a no-op.
    let again = create_room_flow(&mut rm, "conf");
    assert!(again.success);
    assert_eq!(rm.rooms.len(), 1);
}

#[test]
fn test_join_room_flow_unknown_room() {
    let mut rm = RoomManager::new();
    let mut sm = SessionManager::new();
    let mpm = MediaPortManager::new();
    let reply = join_room_flow(&mut rm, &mut sm, &mpm, "missing", "s1").unwrap();
    assert!(!reply.success);
    assert_eq!(reply.message, "Room not found");
}

#[test]
fn test_join_room_flow_no_ports() {
    let mut rm = RoomManager::new();
    rm.create_room("conf".to_string());
    let mut sm = SessionManager::new();
    let mpm = MediaPortManager::new();
    let err = join_room_flow(&mut rm, &mut sm, &mpm, "conf", "s1").unwrap_err();
    assert_eq!(err, "No available media ports");
}

#[test]
fn test_join_room_flow_success() {
    let mut rm = RoomManager::new();
    rm.create_room("conf".to_string());
    let mut sm = SessionManager::new();
    let mut mpm = MediaPortManager::new();
    mpm.register_port(5000);
    let reply = join_room_flow(&mut rm, &mut sm, &mpm, "conf", "s1").unwrap();
    assert!(reply.success);
    assert_eq!(reply.sid, "s1");
    assert_eq!(reply.media_port, 5000);
    assert_eq!(reply.message, "Joined successfully");
    let info = sm.get_session("s1").unwrap();
    assert_eq!(info.room_id, "conf");
    assert_eq!(info.media_port, 5000);
    assert!(!info.has_response_tx);
}

#[test]
fn test_session_lifecycle() {
    let mut sm = SessionManager::new();
    assert!(sm.get_session("s1").is_none());
    sm.create_session("s1".to_string(), "conf".to_string(), 5000).unwrap();
    assert!(sm.set_response_tx("s1").is_ok());
    assert!(sm.set_response_tx("s2").is_err());
    assert!(sm.get_session("s1").unwrap().has_response_tx);
    sm.remove_session("s1");
    assert!(sm.get_session("s1").is_none());
}

#[test]
fn test_route_signal() {
    let mut sm = SessionManager::new();
    let mut mpm = MediaPortManager::new();
    assert_eq!(route_signal(&sm, &mpm, "s1"), None);
    sm.create_session("s1".to_string(), "conf".to_string(), 5000).unwrap();
    // The session's port has no worker yet.
    assert_eq!(route_signal(&sm, &mpm, "s1"), None);
    mpm.register_port(5000);
    assert_eq!(route_signal(&sm, &mpm, "s1"), Some(5000));
}

#[test]
fn test_port_registry() {
    let mut mpm = MediaPortManager::new();
    assert_eq!(mpm.allocate_port(), None);
    mpm.register_port(5000);
    mpm.register_port(5002);
    mpm.register_port(5000);
    assert_eq!(mpm.ports.len(), 2);
    assert_eq!(mpm.allocate_port(), Some(5000));
    assert!(mpm.port_registered(5002));
    assert!(!mpm.port_registered(5004));
}

#[test]
fn test_room_participants_registry() {
    let mut rm = RoomManager::new();
    rm.create_room("conf".to_string());
    assert!(rm.add_participant("conf", "s1".to_string()));
    assert!(rm.add_participant("conf", "s2".to_string()));
    assert!(!rm.add_participant("other", "s3".to_string()));
    assert_eq!(rm.rooms[0].participants, vec!["s1".to_string(), "s2".to_string()]);
}
