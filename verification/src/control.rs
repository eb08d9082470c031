//! The control surface's decisions: creating a room, admitting a
//! session to one, and routing a signaling message to the worker
//! that owns the session's media port.
//!
//! The streaming transport around these calls stays with the
//! caller; it hands the ids in and performs the sends these
//! decisions name.

use vstd::prelude::*;

use crate::state::{MediaPortManager, RoomManager, SessionManager};

verus! {

/// The reply to a create-room request.
#[derive(Debug, PartialEq, Eq)]
pub struct CreateRoomResponse {
    pub success: bool,
    pub message: String,
}

/// The reply to a join-room request.
#[derive(Debug, PartialEq, Eq)]
pub struct JoinRoomResponse {
    pub success: bool,
    pub sid: String,
    pub media_port: u32,
    pub message: String,
}

/// Registers the room and confirms it: always succeeds, and a room
/// that already exists is left as it is.
pub fn create_room_flow(rm: &mut RoomManager, room_id: &str) -> (r: CreateRoomResponse)
    requires
        old(rm).wf(),
    ensures
        final(rm).wf(),
        final(rm).has_room(room_id@),
        r.success,
        r.message@ == "Room "@ + room_id@ + " created"@,
{
    rm.create_room(room_id.to_owned());
    proof {
        if !old(rm).has_room(room_id@) {
            assert(rm.rooms@[rm.rooms@.len() - 1].id@ == room_id@);
        }
    }
    let mut message = "Room ".to_owned();
    message.append(room_id);
    message.append(" created");
    CreateRoomResponse { success: true, message }
}

/// Admits a session to a room: the room must exist and a media
/// worker must be up.  On admission the session is registered on
/// the first worker's port and appended to the room's roster; an
/// unknown room is confirmed as a failure, and a missing worker is
/// an error carrying its reason.
pub fn join_room_flow(rm: &mut RoomManager, sm: &mut SessionManager, mpm: &MediaPortManager, room_id: &str, sid: &str) -> (r: Result<JoinRoomResponse, String>)
    requires
        old(rm).wf(),
        old(sm).wf(),
    ensures
        final(rm).wf(),
        final(sm).wf(),
        !old(rm).has_room(room_id@) ==> ({
            &&& r matches Ok(resp) && !resp.success && resp.message@ == "Room not found"@
            &&& final(rm).rooms@ == old(rm).rooms@
            &&& final(sm).sessions@ == old(sm).sessions@
        }),
        old(rm).has_room(room_id@) && mpm.ports@.len() == 0 ==> ({
            &&& r matches Err(e) && e@ == "No available media ports"@
            &&& final(rm).rooms@ == old(rm).rooms@
            &&& final(sm).sessions@ == old(sm).sessions@
        }),
        old(rm).has_room(room_id@) && mpm.ports@.len() > 0 ==> ({
            let port = mpm.ports@[0];
            &&& (r matches Ok(resp) && resp.success && resp.sid@ == sid@
                && resp.media_port == port as u32 && resp.message@ == "Joined successfully"@)
            &&& final(sm).has_session(sid@)
            &&& ({
                let at = if old(sm).has_session(sid@) {
                    old(sm).session_slot(sid@)
                } else {
                    old(sm).sessions@.len() as int
                };
                final(sm).sessions@[at].sid@ == sid@
                    && final(sm).sessions@[at].info.room_id@ == room_id@
                    && final(sm).sessions@[at].info.media_port == port
                    && !final(sm).sessions@[at].info.has_response_tx
            })
            &&& final(rm).rooms@.len() == old(rm).rooms@.len()
            &&& ({
                let slot = old(rm).room_slot(room_id@);
                final(rm).rooms@[slot].participants@.len()
                    == old(rm).rooms@[slot].participants@.len() + 1
                    && final(rm).rooms@[slot].participants@.last()@ == sid@
                    && final(rm).rooms@[slot].participants@.take(
                    old(rm).rooms@[slot].participants@.len() as int,
                ) =~= old(rm).rooms@[slot].participants@
            })
        }),
{
    if !rm.room_exists(room_id) {
        return Ok(JoinRoomResponse {
            success: false,
            sid: String::new(),
            media_port: 0,
            message: "Room not found".to_owned(),
        });
    }
    let port = match mpm.allocate_port() {
        Some(p) => p,
        None => {
            return Err("No available media ports".to_owned());
        },
    };
    let _ = sm.create_session(sid.to_owned(), room_id.to_owned(), port);
    proof {
        let at = if old(sm).has_session(sid@) {
            old(sm).session_slot(sid@)
        } else {
            old(sm).sessions@.len() as int
        };
        assert(sm.sessions@[at].sid@ == sid@);
        assert(sm.has_session(sid@));
    }
    let _ = rm.add_participant(room_id, sid.to_owned());
    Ok(JoinRoomResponse {
        success: true,
        sid: sid.to_owned(),
        media_port: port as u32,
        message: "Joined successfully".to_owned(),
    })
}

/// Where a signaling message from the session must go: the media
/// port of the session's worker, when the session is known and a
/// worker listens on that port.
pub fn route_signal(sm: &SessionManager, mpm: &MediaPortManager, sid: &str) -> (r: Option<u16>)
    requires
        sm.wf(),
    ensures
        match r {
            Some(port) => sm.has_session(sid@)
                && port == sm.sessions@[sm.session_slot(sid@)].info.media_port
                && mpm.ports@.contains(port),
            None => !sm.has_session(sid@) || !mpm.ports@.contains(
                sm.sessions@[sm.session_slot(sid@)].info.media_port,
            ),
        },
{
    let info = match sm.get_session(sid) {
        Some(info) => info,
        None => {
            return None;
        },
    };
    if mpm.port_registered(info.media_port) {
        Some(info.media_port)
    } else {
        None
    }
}

} // verus!
