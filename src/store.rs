use vstd::prelude::*;

use crate::records::{
    copy_slides, sessions_view, DisplayState, DisplayView, ScheduleItem, ScheduleState,
    ScheduleView, Session, SessionView, TimerState,
};
use crate::segment::{segment, segmentation, slides_view, Slide, SlideView};

verus! {

/// A join target: the slides of one session, or one of the shared records.
pub enum Topic {
    Session(String),
    Schedule,
    Timer,
    Display,
}

/// What the hub sends to its clients.
pub enum OutEvent {
    SlidesUpdate { session_id: String, slides: Vec<Slide> },
    SessionCreated { session: Session },
    SessionDeleted { session_id: String },
    ScheduleUpdate { schedule: ScheduleState },
    TimerUpdate { timer: TimerState },
    DisplayUpdate { display: DisplayState },
    /// A message relayed as it came, without being read.
    Passthrough { payload: String },
    /// A failure reported to a client. The hub itself sends none: a message
    /// it cannot use is dropped without a reply.
    Error { message: String },
}

pub enum EventView {
    SlidesUpdate { session_id: Seq<char>, slides: Seq<SlideView> },
    SessionCreated { session: SessionView },
    SessionDeleted { session_id: Seq<char> },
    ScheduleUpdate { schedule: ScheduleView },
    TimerUpdate { timer: TimerState },
    DisplayUpdate { display: DisplayView },
    Passthrough { payload: Seq<char> },
    Error { message: Seq<char> },
}

impl View for OutEvent {
    type V = EventView;

    open spec fn view(&self) -> EventView {
        match self {
            OutEvent::SlidesUpdate { session_id, slides } => EventView::SlidesUpdate {
                session_id: session_id@,
                slides: slides_view(slides@),
            },
            OutEvent::SessionCreated { session } => EventView::SessionCreated {
                session: session@,
            },
            OutEvent::SessionDeleted { session_id } => EventView::SessionDeleted {
                session_id: session_id@,
            },
            OutEvent::ScheduleUpdate { schedule } => EventView::ScheduleUpdate { schedule: schedule@ },
            OutEvent::TimerUpdate { timer } => EventView::TimerUpdate { timer: *timer },
            OutEvent::DisplayUpdate { display } => EventView::DisplayUpdate { display: display@ },
            OutEvent::Passthrough { payload } => EventView::Passthrough { payload: payload@ },
            OutEvent::Error { message } => EventView::Error { message: message@ },
        }
    }
}

impl OutEvent {
    pub fn copy(&self) -> (r: OutEvent)
        ensures
            r@ == self@,
    {
        match self {
            OutEvent::SlidesUpdate { session_id, slides } => OutEvent::SlidesUpdate {
                session_id: session_id.clone(),
                slides: copy_slides(slides),
            },
            OutEvent::SessionCreated { session } => OutEvent::SessionCreated {
                session: session.copy(),
            },
            OutEvent::SessionDeleted { session_id } => OutEvent::SessionDeleted {
                session_id: session_id.clone(),
            },
            OutEvent::ScheduleUpdate { schedule } => OutEvent::ScheduleUpdate { schedule: schedule.copy() },
            OutEvent::TimerUpdate { timer } => OutEvent::TimerUpdate { timer: timer.copy() },
            OutEvent::DisplayUpdate { display } => OutEvent::DisplayUpdate { display: display.copy() },
            OutEvent::Passthrough { payload } => OutEvent::Passthrough {
                payload: payload.clone(),
            },
            OutEvent::Error { message } => OutEvent::Error { message: message.clone() },
        }
    }
}

/// No two sessions share an id.
pub open spec fn ids_unique(ss: Seq<SessionView>) -> bool {
    forall|i: int, j: int| 0 <= i < j < ss.len() ==> ss[i].id != ss[j].id
}

pub open spec fn has_session(ss: Seq<SessionView>, id: Seq<char>) -> bool {
    exists|k: int| 0 <= k < ss.len() && ss[k].id == id
}

/// Where the session with `id` stands; meaningful when there is one.
pub open spec fn session_index(ss: Seq<SessionView>, id: Seq<char>) -> int {
    choose|k: int| 0 <= k < ss.len() && ss[k].id == id
}

/// The sessions after an upsert: an existing session with `id` keeps its
/// place, name and creation time and takes the new text and its slides; else
/// a new session, created at `now`, is added at the end.
pub open spec fn upserted(
    ss: Seq<SessionView>,
    id: Seq<char>,
    name: Seq<char>,
    raw_text: Seq<char>,
    now: u64,
) -> Seq<SessionView> {
    if has_session(ss, id) {
        retexted(ss, id, raw_text)
    } else {
        ss.push(
            SessionView { id, name, slides: segmentation(raw_text).0, raw_text, created_at: now },
        )
    }
}

/// The sessions after the one with `id`, if any, takes `raw_text` and the
/// slides made from it, keeping its place, name and creation time.
pub open spec fn retexted(ss: Seq<SessionView>, id: Seq<char>, raw_text: Seq<char>) -> Seq<
    SessionView,
> {
    if has_session(ss, id) {
        let k = session_index(ss, id);
        ss.update(k, SessionView { slides: segmentation(raw_text).0, raw_text, ..ss[k] })
    } else {
        ss
    }
}

/// The sessions after the one with `id`, if any, is deleted.
pub open spec fn deleted(ss: Seq<SessionView>, id: Seq<char>) -> Seq<SessionView> {
    if has_session(ss, id) {
        ss.remove(session_index(ss, id))
    } else {
        ss
    }
}

/// The schedule as stored: an index that does not point into the schedule
/// is cleared.
pub open spec fn schedule_stored(schedule: Seq<ScheduleItem>, current: Option<nat>) -> ScheduleView {
    ScheduleView {
        schedule,
        current_session_index: match current {
            Some(i) => if i < schedule.len() {
                Some(i)
            } else {
                None
            },
            None => None,
        },
    }
}

pub struct StoreView {
    pub sessions: Seq<SessionView>,
    pub schedule: ScheduleView,
    pub timer: TimerState,
    pub display: DisplayView,
    pub running: bool,
    pub port: u16,
}

/// The event that a join on `topic` replays: the current state of the topic,
/// or nothing for a session that does not exist.
pub open spec fn join_snapshot(s: StoreView, topic: Topic) -> Option<EventView> {
    match topic {
        Topic::Session(id) => if has_session(s.sessions, id@) {
            Some(
                EventView::SlidesUpdate {
                    session_id: id@,
                    slides: s.sessions[session_index(s.sessions, id@)].slides,
                },
            )
        } else {
            None
        },
        Topic::Schedule => Some(EventView::ScheduleUpdate { schedule: s.schedule }),
        Topic::Timer => Some(EventView::TimerUpdate { timer: s.timer }),
        Topic::Display => Some(EventView::DisplayUpdate { display: s.display }),
    }
}

/// The authoritative state of the hub: sessions, schedule, timer, display,
/// and whether the server runs and on which port.
pub struct Store {
    sessions: Vec<Session>,
    schedule: ScheduleState,
    timer: TimerState,
    display: DisplayState,
    running: bool,
    port: u16,
}

impl View for Store {
    type V = StoreView;

    closed spec fn view(&self) -> StoreView {
        StoreView {
            sessions: sessions_view(self.sessions@),
            schedule: self.schedule@,
            timer: self.timer,
            display: self.display@,
            running: self.running,
            port: self.port,
        }
    }
}

impl Store {
    /// Session ids are unique, and a current schedule index points into the
    /// schedule.
    pub open spec fn wf(&self) -> bool {
        &&& ids_unique(self@.sessions)
        &&& match self@.schedule.current_session_index {
            Some(i) => i < self@.schedule.schedule.len(),
            None => true,
        }
    }

    /// An empty store of a server that is not running.
    pub fn new() -> (r: Store)
        ensures
            r.wf(),
            r@.sessions.len() == 0,
            r@.schedule.schedule.len() == 0,
            r@.schedule.current_session_index is None,
            !r@.timer.is_running,
            r@.timer.seconds_left == 0,
            r@.timer.label is None,
            r@.timer.end_time is None,
            !r@.timer.is_overrun,
            r@.display.auxiliary_slide_text.len() == 0,
            r@.display.verse_text@.len() == 0,
            r@.display.reference@.len() == 0,
            r@.display.settings@.len() == 0,
            !r@.running,
            r@.port == 0,
    {
        let r = Store {
            sessions: Vec::new(),
            schedule: ScheduleState::new(),
            timer: TimerState::new(),
            display: DisplayState::new(),
            running: false,
            port: 0,
        };
        proof {
            assert(r@.sessions =~= Seq::<SessionView>::empty());
        }
        r
    }

    /// Where the session with `id` stands, if there is one.
    fn find(&self, id: &String) -> (r: Option<usize>)
        requires
            self.wf(),
        ensures
            r is Some <==> has_session(self@.sessions, id@),
            r is Some ==> r->0 == session_index(self@.sessions, id@) && r->0
                < self@.sessions.len(),
    {
        let mut i: usize = 0;
        while i < self.sessions.len()
            invariant
                self.wf(),
                i <= self.sessions@.len() == self@.sessions.len(),
                forall|k: int| 0 <= k < i ==> self@.sessions[k].id != id@,
            decreases self.sessions@.len() - i,
        {
            proof {
                assert(self@.sessions[i as int] == self.sessions@[i as int]@);
            }
            if self.sessions[i].id == *id {
                proof {
                    assert(self@.sessions[i as int].id == id@);
                    assert(has_session(self@.sessions, id@));
                    let k = session_index(self@.sessions, id@);
                    assert(0 <= k < self@.sessions.len() && self@.sessions[k].id == id@);
                    if k < i {
                        assert(self@.sessions[k].id != self@.sessions[i as int].id);
                    } else if k > i {
                        assert(self@.sessions[i as int].id != self@.sessions[k].id);
                    }
                }
                return Some(i);
            }
            i += 1;
        }
        None
    }

    /// Makes or refreshes the session `id` from `raw_text`: the slides are
    /// always made anew from the whole text. Returns the stored session and
    /// whether it is new.
    pub fn upsert_session(&mut self, id: String, name: String, raw_text: String, now: u64) -> (r: (
        Session,
        bool,
    ))
        requires
            old(self).wf(),
        ensures
            final(self).wf(),
            final(self)@ == (StoreView {
                sessions: upserted(old(self)@.sessions, id@, name@, raw_text@, now),
                ..old(self)@
            }),
            r.1 == !has_session(old(self)@.sessions, id@),
            has_session(final(self)@.sessions, id@),
            r.0@ == final(self)@.sessions[session_index(final(self)@.sessions, id@)],
    {
        let slides = segment(raw_text.as_str());
        let ghost ss = self@.sessions;
        match self.find(&id) {
            Some(k) => {
                let mut s = self.sessions.remove(k);
                s.slides = slides;
                s.raw_text = raw_text;
                let out = s.copy();
                self.sessions.insert(k, s);
                proof {
                    let up = upserted(ss, id@, name@, raw_text@, now);
                    assert(sessions_view(self.sessions@) =~= up);
                    assert(up[k as int].id == id@);
                    assert(ids_unique(up));
                    assert(session_index(up, id@) == k);
                }
                (out, false)
            },
            None => {
                let s = Session { id, name, slides, raw_text, created_at: now };
                let out = s.copy();
                self.sessions.push(s);
                proof {
                    let up = upserted(ss, id@, name@, raw_text@, now);
                    assert(sessions_view(self.sessions@) =~= up);
                    assert(up[ss.len() as int].id == id@);
                    assert(ids_unique(up));
                    assert(session_index(up, id@) == ss.len());
                }
                (out, true)
            },
        }
    }

    /// Gives the existing session `id` the text `raw_text` and the slides made
    /// anew from it, and returns a copy of its slides; does nothing when there
    /// is no such session.
    pub fn update_session_text(&mut self, id: &String, raw_text: String) -> (r: Option<Vec<Slide>>)
        requires
            old(self).wf(),
        ensures
            final(self).wf(),
            final(self)@ == (StoreView {
                sessions: retexted(old(self)@.sessions, id@, raw_text@),
                ..old(self)@
            }),
            r is Some <==> has_session(old(self)@.sessions, id@),
            r is Some ==> slides_view(r->0@) == segmentation(raw_text@).0,
    {
        match self.find(id) {
            Some(k) => {
                let ghost ss = self@.sessions;
                let slides = segment(raw_text.as_str());
                let out = copy_slides(&slides);
                let mut s = self.sessions.remove(k);
                s.slides = slides;
                s.raw_text = raw_text;
                self.sessions.insert(k, s);
                proof {
                    let up = retexted(ss, id@, raw_text@);
                    assert(sessions_view(self.sessions@) =~= up);
                    assert(ids_unique(up));
                }
                Some(out)
            },
            None => None,
        }
    }

    /// Deletes the session `id`; says whether there was one.
    pub fn delete_session(&mut self, id: &String) -> (r: bool)
        requires
            old(self).wf(),
        ensures
            final(self).wf(),
            final(self)@ == (StoreView {
                sessions: deleted(old(self)@.sessions, id@),
                ..old(self)@
            }),
            r == has_session(old(self)@.sessions, id@),
    {
        let ghost ss = self@.sessions;
        match self.find(id) {
            Some(k) => {
                let _ = self.sessions.remove(k);
                proof {
                    assert(sessions_view(self.sessions@) =~= ss.remove(k as int));
                }
                true
            },
            None => false,
        }
    }

    /// A copy of the session `id`, if there is one.
    pub fn session(&self, id: &String) -> (r: Option<Session>)
        requires
            self.wf(),
        ensures
            r is Some <==> has_session(self@.sessions, id@),
            r is Some ==> r->0@ == self@.sessions[session_index(self@.sessions, id@)],
    {
        match self.find(id) {
            Some(k) => Some(self.sessions[k].copy()),
            None => None,
        }
    }

    /// Copies of all sessions, in order of creation.
    pub fn list_sessions(&self) -> (r: Vec<Session>)
        ensures
            sessions_view(r@) == self@.sessions,
    {
        let mut out: Vec<Session> = Vec::new();
        let mut i: usize = 0;
        while i < self.sessions.len()
            invariant
                i <= self.sessions@.len(),
                out@.len() == i,
                forall|k: int| 0 <= k < i ==> (#[trigger] out@[k])@ == self.sessions@[k]@,
            decreases self.sessions@.len() - i,
        {
            out.push(self.sessions[i].copy());
            i += 1;
        }
        proof {
            assert(sessions_view(out@) =~= self@.sessions);
        }
        out
    }

    /// Replaces the schedule; an index that does not point into it is cleared.
    pub fn update_schedule(&mut self, schedule: Vec<ScheduleItem>, current: Option<usize>)
        requires
            old(self).wf(),
        ensures
            final(self).wf(),
            final(self)@ == (StoreView {
                schedule: schedule_stored(
                    schedule@,
                    match current {
                        Some(i) => Some(i as nat),
                        None => None,
                    },
                ),
                ..old(self)@
            }),
    {
        let current_session_index = match current {
            Some(i) => if i < schedule.len() {
                Some(i)
            } else {
                None
            },
            None => None,
        };
        self.schedule = ScheduleState { schedule, current_session_index };
    }

    /// Replaces the timer snapshot.
    pub fn update_timer(&mut self, timer: TimerState)
        requires
            old(self).wf(),
        ensures
            final(self).wf(),
            final(self)@ == (StoreView { timer, ..old(self)@ }),
    {
        self.timer = timer;
    }

    /// Replaces the display state.
    pub fn update_display(&mut self, display: DisplayState)
        requires
            old(self).wf(),
        ensures
            final(self).wf(),
            final(self)@ == (StoreView { display: display@, ..old(self)@ }),
    {
        self.display = display;
    }

    /// Records that the server runs on `port`.
    pub fn mark_running(&mut self, port: u16)
        requires
            old(self).wf(),
        ensures
            final(self).wf(),
            final(self)@ == (StoreView { running: true, port, ..old(self)@ }),
    {
        self.running = true;
        self.port = port;
    }

    /// Records that the server has stopped; the port is kept.
    pub fn mark_stopped(&mut self)
        requires
            old(self).wf(),
        ensures
            final(self).wf(),
            final(self)@ == (StoreView { running: false, ..old(self)@ }),
    {
        self.running = false;
    }

    pub fn is_running(&self) -> (r: bool)
        ensures
            r == self@.running,
    {
        self.running
    }

    pub fn port(&self) -> (r: u16)
        ensures
            r == self@.port,
    {
        self.port
    }

    pub fn session_count(&self) -> (r: usize)
        ensures
            r == self@.sessions.len(),
    {
        self.sessions.len()
    }

    pub fn schedule(&self) -> (r: ScheduleState)
        ensures
            r@ == self@.schedule,
    {
        self.schedule.copy()
    }

    pub fn timer(&self) -> (r: TimerState)
        ensures
            r == self@.timer,
    {
        self.timer.copy()
    }

    pub fn display(&self) -> (r: DisplayState)
        ensures
            r@ == self@.display,
    {
        self.display.copy()
    }

    /// The event that replays the current state of `topic` to a client that
    /// joins it; nothing for a session that does not exist.
    pub fn snapshot_for_join(&self, topic: &Topic) -> (r: Option<OutEvent>)
        requires
            self.wf(),
        ensures
            match r {
                Some(e) => join_snapshot(self@, *topic) == Some(e@),
                None => join_snapshot(self@, *topic) is None,
            },
    {
        match topic {
            Topic::Session(id) => match self.find(id) {
                Some(k) => Some(
                    OutEvent::SlidesUpdate {
                        session_id: id.clone(),
                        slides: copy_slides(&self.sessions[k].slides),
                    },
                ),
                None => None,
            },
            Topic::Schedule => Some(OutEvent::ScheduleUpdate { schedule: self.schedule.copy() }),
            Topic::Timer => Some(OutEvent::TimerUpdate { timer: self.timer.copy() }),
            Topic::Display => Some(OutEvent::DisplayUpdate { display: self.display.copy() }),
        }
    }
}

} // verus!
