//! The registries behind the control surface: room membership by
//! session id, per-session records, and the media ports workers
//! listen on.
//!
//! The channel handles that sit beside these values at runtime are
//! transport objects; the caller keeps them keyed by the same
//! session ids and ports, and this module holds the facts the
//! routing decisions read.

use vstd::prelude::*;

use crate::text::str_eq;

verus! {

/// One room of the control surface: its id and the session ids of
/// its participants.
#[derive(Debug)]
pub struct RoomEntry {
    pub id: String,
    pub participants: Vec<String>,
}

/// Room membership by session id.
#[derive(Debug)]
pub struct RoomManager {
    pub rooms: Vec<RoomEntry>,
}

impl RoomManager {
    /// Well-formed: room ids are pairwise distinct.
    pub open spec fn wf(&self) -> bool {
        forall|i: int, j: int| 0 <= i < j < self.rooms@.len()
            ==> (#[trigger] self.rooms@[i]).id@ != (#[trigger] self.rooms@[j]).id@
    }

    /// True when a room with the id is registered.
    pub open spec fn has_room(&self, id: Seq<char>) -> bool {
        exists|i: int| 0 <= i < self.rooms@.len() && (#[trigger] self.rooms@[i]).id@ == id
    }

    /// The slot of the room with the id.
    pub open spec fn room_slot(&self, id: Seq<char>) -> int {
        choose|i: int| 0 <= i < self.rooms@.len() && (#[trigger] self.rooms@[i]).id@ == id
    }

    /// An empty registry.
    pub fn new() -> (r: RoomManager)
        ensures
            r.wf(),
            r.rooms@.len() == 0,
    {
        RoomManager { rooms: Vec::new() }
    }

    fn find_room(&self, room_id: &str) -> (r: Option<usize>)
        ensures
            match r {
                Some(i) => i < self.rooms@.len() && self.rooms@[i as int].id@ == room_id@,
                None => !self.has_room(room_id@),
            },
    {
        let mut i: usize = 0;
        while i < self.rooms.len()
            invariant
                i <= self.rooms.len(),
                forall|k: int| 0 <= k < i ==> (#[trigger] self.rooms@[k]).id@ != room_id@,
            decreases self.rooms.len() - i,
        {
            if str_eq(self.rooms[i].id.as_str(), room_id) {
                return Some(i);
            }
            i = i + 1;
        }
        None
    }

    /// Registers a room under the id; an already registered room
    /// keeps its participants.
    pub fn create_room(&mut self, room_id: String)
        requires
            old(self).wf(),
        ensures
            final(self).wf(),
            old(self).has_room(room_id@) ==> final(self).rooms@ == old(self).rooms@,
            !old(self).has_room(room_id@) ==> final(self).rooms@.len() == old(self).rooms@.len() + 1
                && final(self).rooms@.last().id@ == room_id@
                && final(self).rooms@.last().participants@.len() == 0
                && final(self).rooms@.take(old(self).rooms@.len() as int) == old(self).rooms@,
    {
        match self.find_room(room_id.as_str()) {
            Some(_) => {},
            None => {
                self.rooms.push(RoomEntry { id: room_id, participants: Vec::new() });
                proof {
                    assert(self.rooms@.take(old(self).rooms@.len() as int) =~= old(self).rooms@);
                }
            },
        }
    }

    /// True when a room with the id is registered.
    pub fn room_exists(&self, room_id: &str) -> (r: bool)
        ensures
            r == self.has_room(room_id@),
    {
        match self.find_room(room_id) {
            Some(i) => {
                proof {
                    assert(self.rooms@[i as int].id@ == room_id@);
                }
                true
            },
            None => false,
        }
    }

    /// Appends a session id to the room's participants; a session
    /// joining an unregistered room is dropped.
    pub fn add_participant(&mut self, room_id: &str, sid: String) -> (added: bool)
        requires
            old(self).wf(),
        ensures
            final(self).wf(),
            old(self).has_room(room_id@) ==> added && ({
                let at = old(self).room_slot(room_id@);
                final(self).rooms@.len() == old(self).rooms@.len()
                    && final(self).rooms@[at].id@ == old(self).rooms@[at].id@
                    && final(self).rooms@[at].participants@ == old(self).rooms@[at].participants@
                        .push(sid)
                    && forall|k: int| 0 <= k < old(self).rooms@.len() && k != at
                        ==> final(self).rooms@[k] == old(self).rooms@[k]
            }),
            !old(self).has_room(room_id@) ==> !added && final(self).rooms@ == old(self).rooms@,
    {
        let at = match self.find_room(room_id) {
            Some(at) => at,
            None => {
                return false;
            },
        };
        let entry = &mut self.rooms[at];
        entry.participants.push(sid);
        true
    }
}

/// One session's record: its room and its media port; whether the
/// response channel has been bound is tracked here, the channel
/// itself lives with the caller.
#[derive(Debug)]
pub struct SessionInfo {
    pub room_id: String,
    pub media_port: u16,
    pub has_response_tx: bool,
}

impl Clone for SessionInfo {
    fn clone(&self) -> (r: Self)
        ensures
            r.room_id@ == self.room_id@,
            r.media_port == self.media_port,
            r.has_response_tx == self.has_response_tx,
    {
        SessionInfo {
            room_id: self.room_id.clone(),
            media_port: self.media_port,
            has_response_tx: self.has_response_tx,
        }
    }
}

/// One registered session.
#[derive(Debug)]
pub struct SessionEntry {
    pub sid: String,
    pub info: SessionInfo,
}

/// The session registry.
#[derive(Debug)]
pub struct SessionManager {
    pub sessions: Vec<SessionEntry>,
}

impl SessionManager {
    /// Well-formed: session ids are pairwise distinct.
    pub open spec fn wf(&self) -> bool {
        forall|i: int, j: int| 0 <= i < j < self.sessions@.len()
            ==> (#[trigger] self.sessions@[i]).sid@ != (#[trigger] self.sessions@[j]).sid@
    }

    /// True when a session with the id is registered.
    pub open spec fn has_session(&self, sid: Seq<char>) -> bool {
        exists|i: int| 0 <= i < self.sessions@.len() && (#[trigger] self.sessions@[i]).sid@ == sid
    }

    /// The slot of the session with the id.
    pub open spec fn session_slot(&self, sid: Seq<char>) -> int {
        choose|i: int| 0 <= i < self.sessions@.len() && (#[trigger] self.sessions@[i]).sid@ == sid
    }

    /// An empty registry.
    pub fn new() -> (r: SessionManager)
        ensures
            r.wf(),
            r.sessions@.len() == 0,
    {
        SessionManager { sessions: Vec::new() }
    }

    fn find_session(&self, sid: &str) -> (r: Option<usize>)
        ensures
            match r {
                Some(i) => i < self.sessions@.len() && self.sessions@[i as int].sid@ == sid@,
                None => !self.has_session(sid@),
            },
    {
        let mut i: usize = 0;
        while i < self.sessions.len()
            invariant
                i <= self.sessions.len(),
                forall|k: int| 0 <= k < i ==> (#[trigger] self.sessions@[k]).sid@ != sid@,
            decreases self.sessions.len() - i,
        {
            if str_eq(self.sessions[i].sid.as_str(), sid) {
                return Some(i);
            }
            i = i + 1;
        }
        None
    }

    /// Registers a session with its room and media port, the
    /// response channel not yet bound; a session re-registering
    /// under its id is replaced.
    pub fn create_session(&mut self, sid: String, room_id: String, media_port: u16) -> (r: Result<(), ()>)
        requires
            old(self).wf(),
        ensures
            final(self).wf(),
            r is Ok,
            ({
                let entry = SessionEntry {
                    sid,
                    info: SessionInfo { room_id, media_port, has_response_tx: false },
                };
                if old(self).has_session(sid@) {
                    final(self).sessions@ == old(self).sessions@.update(
                        old(self).session_slot(sid@),
                        entry,
                    )
                } else {
                    final(self).sessions@ == old(self).sessions@.push(entry)
                }
            }),
    {
        let entry = SessionEntry {
            sid,
            info: SessionInfo { room_id, media_port, has_response_tx: false },
        };
        match self.find_session(entry.sid.as_str()) {
            Some(i) => {
                proof {
                    assert(self.has_session(entry.sid@));
                    assert(i as int == self.session_slot(entry.sid@));
                }
                self.sessions.set(i, entry);
            },
            None => {
                self.sessions.push(entry);
            },
        }
        Ok(())
    }

    /// Marks the session's response channel as bound.  Fails exactly
    /// when the session is unknown.
    pub fn set_response_tx(&mut self, sid: &str) -> (r: Result<(), ()>)
        requires
            old(self).wf(),
        ensures
            final(self).wf(),
            old(self).has_session(sid@) ==> r is Ok && final(self).sessions@
                == old(self).sessions@.update(
                    old(self).session_slot(sid@),
                    SessionEntry {
                        sid: old(self).sessions@[old(self).session_slot(sid@)].sid,
                        info: SessionInfo {
                            room_id: old(self).sessions@[old(self).session_slot(sid@)].info.room_id,
                            media_port: old(self).sessions@[old(self).session_slot(sid@)].info.media_port,
                            has_response_tx: true,
                        },
                    },
                ),
            !old(self).has_session(sid@) ==> r is Err && final(self).sessions@
                == old(self).sessions@,
    {
        let at = match self.find_session(sid) {
            Some(at) => at,
            None => {
                return Err(());
            },
        };
        proof {
            assert(at as int == self.session_slot(sid@));
        }
        let entry = &mut self.sessions[at];
        entry.info.has_response_tx = true;
        Ok(())
    }

    /// The session's record, as a clone.
    pub fn get_session(&self, sid: &str) -> (r: Option<SessionInfo>)
        requires
            self.wf(),
        ensures
            match r {
                Some(info) => self.has_session(sid@)
                    && info.room_id@ == self.sessions@[self.session_slot(sid@)].info.room_id@
                    && info.media_port == self.sessions@[self.session_slot(sid@)].info.media_port
                    && info.has_response_tx == self.sessions@[self.session_slot(
                    sid@,
                )].info.has_response_tx,
                None => !self.has_session(sid@),
            },
    {
        match self.find_session(sid) {
            Some(i) => {
                proof {
                    assert(i as int == self.session_slot(sid@));
                }
                Some(self.sessions[i].info.clone())
            },
            None => None,
        }
    }

    /// Drops the session's record; an unknown id is a no-op.
    pub fn remove_session(&mut self, sid: &str)
        requires
            old(self).wf(),
        ensures
            final(self).wf(),
            old(self).has_session(sid@) ==> final(self).sessions@ == old(self).sessions@.remove(
                old(self).session_slot(sid@),
            ),
            !old(self).has_session(sid@) ==> final(self).sessions@ == old(self).sessions@,
    {
        match self.find_session(sid) {
            Some(i) => {
                proof {
                    assert(i as int == self.session_slot(sid@));
                }
                let _ = self.sessions.remove(i);
            },
            None => {},
        }
    }
}

/// The media ports that workers listen on.  The channel into each
/// worker lives with the caller, keyed by the same port.
#[derive(Debug)]
pub struct MediaPortManager {
    pub ports: Vec<u16>,
}

impl MediaPortManager {
    /// Well-formed: ports are pairwise distinct.
    pub open spec fn wf(&self) -> bool {
        forall|i: int, j: int| 0 <= i < j < self.ports@.len()
            ==> self.ports@[i] != self.ports@[j]
    }

    /// An empty registry.
    pub fn new() -> (r: MediaPortManager)
        ensures
            r.wf(),
            r.ports@.len() == 0,
    {
        MediaPortManager { ports: Vec::new() }
    }

    /// Registers a worker's port; registering a port again is a
    /// no-op on the set.
    pub fn register_port(&mut self, port: u16)
        requires
            old(self).wf(),
        ensures
            final(self).wf(),
            old(self).ports@.contains(port) ==> final(self).ports@ == old(self).ports@,
            !old(self).ports@.contains(port) ==> final(self).ports@ == old(self).ports@.push(port),
    {
        let mut i: usize = 0;
        while i < self.ports.len()
            invariant
                i <= self.ports.len(),
                self.ports@ == old(self).ports@,
                old(self).wf(),
                forall|k: int| 0 <= k < i ==> self.ports@[k] != port,
            decreases self.ports.len() - i,
        {
            if self.ports[i] == port {
                proof {
                    assert(self.ports@.contains(port));
                }
                return;
            }
            i = i + 1;
        }
        proof {
            if self.ports@.contains(port) {
                let w = choose|w: int| 0 <= w < self.ports@.len() && self.ports@[w] == port;
                assert(false);
            }
        }
        self.ports.push(port);
        proof {
            assert forall|a: int, b: int| 0 <= a < b < self.ports@.len()
                implies self.ports@[a] != self.ports@[b] by {
                assert(self.ports@[a] == old(self).ports@[a]);
                if b == self.ports@.len() - 1 {
                    assert(self.ports@[b] == port);
                } else {
                    assert(self.ports@[b] == old(self).ports@[b]);
                }
            }
        }
    }

    /// True when a worker listens on the port.
    pub fn port_registered(&self, port: u16) -> (r: bool)
        ensures
            r == self.ports@.contains(port),
    {
        let mut i: usize = 0;
        while i < self.ports.len()
            invariant
                i <= self.ports.len(),
                forall|k: int| 0 <= k < i ==> self.ports@[k] != port,
            decreases self.ports.len() - i,
        {
            if self.ports[i] == port {
                proof {
                    assert(self.ports@.contains(port));
                }
                return true;
            }
            i = i + 1;
        }
        proof {
            if self.ports@.contains(port) {
                let w = choose|w: int| 0 <= w < self.ports@.len() && self.ports@[w] == port;
                assert(false);
            }
        }
        false
    }

    /// Picks a registered port for a new session: the first one;
    /// none when no worker is up.
    pub fn allocate_port(&self) -> (r: Option<u16>)
        ensures
            match r {
                Some(p) => self.ports@.len() > 0 && p == self.ports@[0],
                None => self.ports@.len() == 0,
            },
    {
        if self.ports.len() > 0 {
            Some(self.ports[0])
        } else {
            None
        }
    }
}

} // verus!
