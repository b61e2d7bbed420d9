use vstd::prelude::*;

verus! {

/// A message between peers of the sync relay. Playlists and schedules are
/// carried as their senders encoded them, without being read.
pub enum SyncMessage {
    Welcome { server_id: String, server_mode: String, connected_client_count: u64 },
    Join { client_mode: String, client_id: String },
    RequestState { want_playlists: bool, want_schedule: bool },
    PlaylistItem { payload: String },
    PlaylistDelete { payload: String },
    Schedule { schedule: String, current_session_index: Option<i64> },
    FullState {
        playlists: Option<String>,
        schedule: Option<String>,
        current_session_index: Option<i64>,
    },
}

/// The last playlists, schedule and current schedule index that peers sent.
pub struct SyncCache {
    pub playlists: Option<String>,
    pub schedule: Option<String>,
    pub current_session_index: Option<i64>,
}

/// The state that the relay answers from: the requested parts of the cache;
/// a part that was not asked for is left out, not sent empty. The current
/// schedule index goes with the schedule.
pub open spec fn full_state(c: SyncCache, want_playlists: bool, want_schedule: bool) -> SyncMessage {
    SyncMessage::FullState {
        playlists: if want_playlists {
            c.playlists
        } else {
            None
        },
        schedule: if want_schedule {
            c.schedule
        } else {
            None
        },
        current_session_index: if want_schedule {
            c.current_session_index
        } else {
            None
        },
    }
}

/// What the relay sends to every peer on a message from one of them: the
/// whole cached state on a join, the requested parts on a request, the message
/// itself for playlist, schedule and state changes, and nothing on a welcome.
pub open spec fn relay_reply(c: SyncCache, msg: SyncMessage) -> Option<SyncMessage> {
    match msg {
        SyncMessage::Welcome { .. } => None,
        SyncMessage::Join { .. } => Some(full_state(c, true, true)),
        SyncMessage::RequestState { want_playlists, want_schedule } => Some(
            full_state(c, want_playlists, want_schedule),
        ),
        _ => Some(msg),
    }
}

/// The cache after a message: a schedule replaces the cached schedule and
/// index; a full state replaces each part that it carries.
pub open spec fn cache_after(c: SyncCache, msg: SyncMessage) -> SyncCache {
    match msg {
        SyncMessage::Schedule { schedule, current_session_index } => SyncCache {
            schedule: Some(schedule),
            current_session_index,
            ..c
        },
        SyncMessage::FullState { playlists, schedule, current_session_index } => SyncCache {
            playlists: if playlists is Some {
                playlists
            } else {
                c.playlists
            },
            schedule: if schedule is Some {
                schedule
            } else {
                c.schedule
            },
            current_session_index: if current_session_index is Some {
                current_session_index
            } else {
                c.current_session_index
            },
        },
        _ => c,
    }
}

fn copy_opt(s: &Option<String>) -> (r: Option<String>)
    ensures
        r == *s,
{
    match s {
        Some(t) => Some(t.clone()),
        None => None,
    }
}

impl SyncCache {
    /// A cache that has seen nothing.
    pub fn new() -> (r: SyncCache)
        ensures
            r.playlists is None,
            r.schedule is None,
            r.current_session_index is None,
    {
        SyncCache { playlists: None, schedule: None, current_session_index: None }
    }

    /// The requested parts of the cache, as a full-state message.
    pub fn full_state(&self, want_playlists: bool, want_schedule: bool) -> (r: SyncMessage)
        ensures
            r == full_state(*self, want_playlists, want_schedule),
    {
        SyncMessage::FullState {
            playlists: if want_playlists {
                copy_opt(&self.playlists)
            } else {
                None
            },
            schedule: if want_schedule {
                copy_opt(&self.schedule)
            } else {
                None
            },
            current_session_index: if want_schedule {
                self.current_session_index
            } else {
                None
            },
        }
    }
}

impl SyncMessage {
    pub fn copy(&self) -> (r: SyncMessage)
        ensures
            r == *self,
    {
        match self {
            SyncMessage::Welcome { server_id, server_mode, connected_client_count } =>
                SyncMessage::Welcome {
                server_id: server_id.clone(),
                server_mode: server_mode.clone(),
                connected_client_count: *connected_client_count,
            },
            SyncMessage::Join { client_mode, client_id } => SyncMessage::Join {
                client_mode: client_mode.clone(),
                client_id: client_id.clone(),
            },
            SyncMessage::RequestState { want_playlists, want_schedule } =>
                SyncMessage::RequestState {
                want_playlists: *want_playlists,
                want_schedule: *want_schedule,
            },
            SyncMessage::PlaylistItem { payload } => SyncMessage::PlaylistItem {
                payload: payload.clone(),
            },
            SyncMessage::PlaylistDelete { payload } => SyncMessage::PlaylistDelete {
                payload: payload.clone(),
            },
            SyncMessage::Schedule { schedule, current_session_index } => SyncMessage::Schedule {
                schedule: schedule.clone(),
                current_session_index: *current_session_index,
            },
            SyncMessage::FullState { playlists, schedule, current_session_index } =>
                SyncMessage::FullState {
                playlists: copy_opt(playlists),
                schedule: copy_opt(schedule),
                current_session_index: *current_session_index,
            },
        }
    }
}

/// What the control surface shows of the relay. The address comes from the
/// machine, and whether the relay runs and on which port from whoever runs it.
pub struct SyncServerInfo {
    pub running: bool,
    pub port: u16,
    pub local_ip: String,
    pub connected_client_count: u64,
}

/// The hub of the peers of one machine: who it is, what it has cached, and
/// how many peers are connected.
pub struct SyncRelay {
    pub server_id: String,
    pub server_mode: String,
    pub cache: SyncCache,
    pub connected_client_count: u64,
}

impl SyncRelay {
    /// A relay with an empty cache and no peer.
    pub fn new(server_id: String, server_mode: String) -> (r: SyncRelay)
        ensures
            r.server_id == server_id,
            r.server_mode == server_mode,
            r.cache == (SyncCache { playlists: None, schedule: None, current_session_index: None }),
            r.connected_client_count == 0,
    {
        SyncRelay { server_id, server_mode, cache: SyncCache::new(), connected_client_count: 0 }
    }

    /// A peer connects: it is counted, and gets the welcome that this returns,
    /// for it alone. The count stops at the largest `u64`.
    pub fn connect(&mut self) -> (r: SyncMessage)
        ensures
            final(self).connected_client_count == (if old(self).connected_client_count
                < u64::MAX {
                old(self).connected_client_count + 1
            } else {
                old(self).connected_client_count as int
            }),
            final(self).server_id == old(self).server_id,
            final(self).server_mode == old(self).server_mode,
            final(self).cache == old(self).cache,
            r == (SyncMessage::Welcome {
                server_id: old(self).server_id,
                server_mode: old(self).server_mode,
                connected_client_count: final(self).connected_client_count,
            }),
    {
        if self.connected_client_count < u64::MAX {
            self.connected_client_count = self.connected_client_count + 1;
        }
        SyncMessage::Welcome {
            server_id: self.server_id.clone(),
            server_mode: self.server_mode.clone(),
            connected_client_count: self.connected_client_count,
        }
    }

    /// The relay as the control surface shows it.
    pub fn info(&self, running: bool, port: u16, local_ip: String) -> (r: SyncServerInfo)
        ensures
            r == (SyncServerInfo {
                running,
                port,
                local_ip,
                connected_client_count: self.connected_client_count,
            }),
    {
        SyncServerInfo {
            running,
            port,
            local_ip,
            connected_client_count: self.connected_client_count,
        }
    }

    /// A peer disconnects. The count stops at zero; it is right only when
    /// every disconnect follows its connect.
    pub fn disconnect(&mut self)
        ensures
            final(self).connected_client_count == (if old(self).connected_client_count > 0 {
                old(self).connected_client_count - 1
            } else {
                0
            }),
            final(self).server_id == old(self).server_id,
            final(self).server_mode == old(self).server_mode,
            final(self).cache == old(self).cache,
    {
        if self.connected_client_count > 0 {
            self.connected_client_count = self.connected_client_count - 1;
        }
    }

    /// Handles a message from a peer: updates the cache, and returns what is
    /// to be sent to every connected peer, the sender too.
    pub fn handle(&mut self, msg: SyncMessage) -> (r: Option<SyncMessage>)
        ensures
            r == relay_reply(old(self).cache, msg),
            final(self).cache == cache_after(old(self).cache, msg),
            final(self).server_id == old(self).server_id,
            final(self).server_mode == old(self).server_mode,
            final(self).connected_client_count == old(self).connected_client_count,
    {
        let reply = match &msg {
            SyncMessage::Welcome { .. } => None,
            SyncMessage::Join { .. } => Some(self.cache.full_state(true, true)),
            SyncMessage::RequestState { want_playlists, want_schedule } => Some(
                self.cache.full_state(*want_playlists, *want_schedule),
            ),
            _ => Some(msg.copy()),
        };
        match msg {
            SyncMessage::Schedule { schedule, current_session_index } => {
                self.cache.schedule = Some(schedule);
                self.cache.current_session_index = current_session_index;
            },
            SyncMessage::FullState { playlists, schedule, current_session_index } => {
                if playlists.is_some() {
                    self.cache.playlists = playlists;
                }
                if schedule.is_some() {
                    self.cache.schedule = schedule;
                }
                if current_session_index.is_some() {
                    self.cache.current_session_index = current_session_index;
                }
            },
            _ => {},
        }
        reply
    }
}

/// A request that asks for neither playlists nor schedule is answered with a
/// full state that has neither: the parts are absent, not empty.
pub proof fn lemma_request_nothing_gives_nothing(c: SyncCache)
    ensures
        relay_reply(c, SyncMessage::RequestState { want_playlists: false, want_schedule: false })
            == Some(
            SyncMessage::FullState { playlists: None, schedule: None, current_session_index: None },
        ),
{
}

} // verus!
