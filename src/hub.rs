use vstd::prelude::*;

use crate::records::{copy_slides, DisplayState, ScheduleItem, Session, SessionView, TimerState};
use crate::segment::segmentation;
use crate::store::{
    deleted, has_session, ids_unique, join_snapshot, retexted, schedule_stored, session_index,
    upserted, EventView, OutEvent, Store, StoreView, Topic,
};

verus! {

/// How many messages the hub keeps for subscribers that have not read them.
pub const HUB_CAPACITY: usize = 100;

/// A bounded channel that many subscribers read at their own pace. Each
/// message gets the next sequence number; once more than `capacity` are kept,
/// the oldest is dropped, so a subscriber that falls behind loses messages
/// rather than holding up the publisher.
pub struct Broadcast {
    events: Vec<OutEvent>,
    first_seq: u64,
    capacity: usize,
}

pub struct BroadcastView {
    /// The messages still kept, oldest first.
    pub events: Seq<EventView>,
    /// The sequence number of the oldest message kept.
    pub first_seq: nat,
    pub capacity: nat,
}

impl BroadcastView {
    /// The sequence number that the next message will get.
    pub open spec fn next_seq(self) -> nat {
        self.first_seq + self.events.len()
    }
}

/// What a subscriber reads at its cursor.
pub enum Received {
    /// The message at the cursor, and the cursor after it.
    Message { event: OutEvent, next: u64 },
    /// Messages at the cursor were dropped: how many, and the cursor of the
    /// oldest message kept.
    Lagged { missed: u64, next: u64 },
    /// Nothing new.
    Empty,
}

pub enum ReceivedView {
    Message { event: EventView, next: nat },
    Lagged { missed: nat, next: nat },
    Empty,
}

impl View for Received {
    type V = ReceivedView;

    open spec fn view(&self) -> ReceivedView {
        match self {
            Received::Message { event, next } => ReceivedView::Message {
                event: event@,
                next: *next as nat,
            },
            Received::Lagged { missed, next } => ReceivedView::Lagged {
                missed: *missed as nat,
                next: *next as nat,
            },
            Received::Empty => ReceivedView::Empty,
        }
    }
}

/// The channel after `e` is published: it is added last, and the oldest
/// message goes when more than the capacity would be kept.
pub open spec fn published(b: BroadcastView, e: EventView) -> BroadcastView {
    let pushed = b.events.push(e);
    if pushed.len() > b.capacity {
        BroadcastView { events: pushed.drop_first(), first_seq: b.first_seq + 1, ..b }
    } else {
        BroadcastView { events: pushed, ..b }
    }
}

/// What a subscriber whose cursor is `cursor` reads.
pub open spec fn received(b: BroadcastView, cursor: nat) -> ReceivedView {
    if cursor < b.first_seq {
        ReceivedView::Lagged { missed: (b.first_seq - cursor) as nat, next: b.first_seq }
    } else if cursor < b.next_seq() {
        ReceivedView::Message { event: b.events[cursor - b.first_seq], next: cursor + 1 }
    } else {
        ReceivedView::Empty
    }
}

impl View for Broadcast {
    type V = BroadcastView;

    closed spec fn view(&self) -> BroadcastView {
        BroadcastView {
            events: self.events@.map_values(|e: OutEvent| e@),
            first_seq: self.first_seq as nat,
            capacity: self.capacity as nat,
        }
    }
}

impl Broadcast {
    /// At least one message is kept, no more than the capacity are, and every
    /// sequence number fits in a `u64`.
    pub open spec fn wf(&self) -> bool {
        &&& self@.capacity > 0
        &&& self@.events.len() <= self@.capacity
        &&& self@.next_seq() <= u64::MAX
    }

    /// An empty channel that keeps up to `capacity` messages.
    pub fn new(capacity: usize) -> (r: Broadcast)
        requires
            capacity > 0,
        ensures
            r.wf(),
            r@.events.len() == 0,
            r@.first_seq == 0,
            r@.capacity == capacity,
    {
        let r = Broadcast { events: Vec::new(), first_seq: 0, capacity };
        proof {
            assert(r@.events =~= Seq::<EventView>::empty());
        }
        r
    }

    /// The cursor of a new subscriber: it reads what is published from now on.
    pub fn subscribe(&self) -> (r: u64)
        requires
            self.wf(),
        ensures
            r == self@.next_seq(),
    {
        self.first_seq + self.events.len() as u64
    }

    /// Publishes `e` to every subscriber; with none, nothing else happens.
    pub fn publish(&mut self, e: OutEvent)
        requires
            old(self).wf(),
            old(self)@.next_seq() < u64::MAX,
        ensures
            final(self).wf(),
            final(self)@ == published(old(self)@, e@),
    {
        let ghost before = self@;
        let ghost ev = e@;
        self.events.push(e);
        if self.events.len() > self.capacity {
            let _ = self.events.remove(0);
            self.first_seq = self.first_seq + 1;
            proof {
                assert(self@.events =~= before.events.push(ev).drop_first());
            }
        } else {
            proof {
                assert(self@.events =~= before.events.push(ev));
            }
        }
    }

    /// What the subscriber at `cursor` reads next.
    pub fn receive(&self, cursor: u64) -> (r: Received)
        requires
            self.wf(),
        ensures
            r@ == received(self@, cursor as nat),
    {
        let next_seq = self.first_seq + self.events.len() as u64;
        if cursor < self.first_seq {
            Received::Lagged { missed: self.first_seq - cursor, next: self.first_seq }
        } else if cursor < next_seq {
            let k = (cursor - self.first_seq) as usize;
            Received::Message { event: self.events[k].copy(), next: cursor + 1 }
        } else {
            Received::Empty
        }
    }
}

/// A message from a client of the hub.
pub enum Inbound {
    TextUpdate { session_id: String, text: String },
    JoinSession { session_id: String },
    JoinSchedule,
    JoinTimer,
    JoinDisplay,
    /// Transcription data, relayed to everyone as it came.
    TranscriptionStream { raw: String },
}

/// What an inbound message does: the store after it, and the one message it
/// publishes, if any. A text update changes an existing session and publishes
/// its new slides; a join publishes the current state of its topic; a
/// transcription message is relayed unchanged.
pub open spec fn inbound_effect(s: StoreView, msg: Inbound) -> (StoreView, Option<EventView>) {
    match msg {
        Inbound::TextUpdate { session_id, text } => if has_session(s.sessions, session_id@) {
            (
                StoreView { sessions: retexted(s.sessions, session_id@, text@), ..s },
                Some(
                    EventView::SlidesUpdate {
                        session_id: session_id@,
                        slides: segmentation(text@).0,
                    },
                ),
            )
        } else {
            (s, None)
        },
        Inbound::JoinSession { session_id } => (s, join_snapshot(s, Topic::Session(session_id))),
        Inbound::JoinSchedule => (s, join_snapshot(s, Topic::Schedule)),
        Inbound::JoinTimer => (s, join_snapshot(s, Topic::Timer)),
        Inbound::JoinDisplay => (s, join_snapshot(s, Topic::Display)),
        Inbound::TranscriptionStream { raw } => (s, Some(EventView::Passthrough { payload: raw@ })),
    }
}

/// The channel after each event of `es` is published in turn.
pub open spec fn published_all(b: BroadcastView, es: Seq<EventView>) -> BroadcastView
    decreases es.len(),
{
    if es.len() == 0 {
        b
    } else {
        published(published_all(b, es.drop_last()), es.last())
    }
}

/// What an upsert publishes: the new session, when it is new, then the
/// slides made from the text.
pub open spec fn upsert_events(
    ss: Seq<SessionView>,
    id: Seq<char>,
    name: Seq<char>,
    raw_text: Seq<char>,
    now: u64,
) -> Seq<EventView> {
    let up = upserted(ss, id, name, raw_text, now);
    let slides = seq![EventView::SlidesUpdate { session_id: id, slides: segmentation(raw_text).0 }];
    if has_session(ss, id) {
        slides
    } else {
        seq![EventView::SessionCreated { session: up[session_index(up, id)] }] + slides
    }
}

/// After an upsert the session `id` exists, and its slides are those made
/// from the text, whatever the store held before.
pub proof fn lemma_upserted_slides(
    ss: Seq<SessionView>,
    id: Seq<char>,
    name: Seq<char>,
    raw_text: Seq<char>,
    now: u64,
)
    requires
        ids_unique(ss),
    ensures
        has_session(upserted(ss, id, name, raw_text, now), id),
        ids_unique(upserted(ss, id, name, raw_text, now)),
        upserted(ss, id, name, raw_text, now)[session_index(
            upserted(ss, id, name, raw_text, now),
            id,
        )].slides == segmentation(raw_text).0,
        upserted(ss, id, name, raw_text, now)[session_index(
            upserted(ss, id, name, raw_text, now),
            id,
        )].raw_text == raw_text,
{
    let up = upserted(ss, id, name, raw_text, now);
    if has_session(ss, id) {
        let k = session_index(ss, id);
        assert(up[k].id == id);
        assert(ids_unique(up));
        let j = session_index(up, id);
        if j != k {
            assert(up[j].id == up[k].id);
        }
    } else {
        let k = ss.len() as int;
        assert(up[k].id == id);
        assert(ids_unique(up));
        let j = session_index(up, id);
        if j != k {
            assert(up[j].id == up[k].id);
        }
    }
}

/// The slides that an upsert gives a session depend on its text alone: the
/// same text upserted into any two stores, under any ids, names and times,
/// gives the same slides.
pub proof fn lemma_slides_depend_on_text_alone(
    ss1: Seq<SessionView>,
    ss2: Seq<SessionView>,
    id1: Seq<char>,
    id2: Seq<char>,
    name1: Seq<char>,
    name2: Seq<char>,
    raw_text: Seq<char>,
    now1: u64,
    now2: u64,
)
    requires
        ids_unique(ss1),
        ids_unique(ss2),
    ensures
        ({
            let up1 = upserted(ss1, id1, name1, raw_text, now1);
            let up2 = upserted(ss2, id2, name2, raw_text, now2);
            up1[session_index(up1, id1)].slides == up2[session_index(up2, id2)].slides
        }),
{
    lemma_upserted_slides(ss1, id1, name1, raw_text, now1);
    lemma_upserted_slides(ss2, id2, name2, raw_text, now2);
}

/// Upserting the same session twice: the second upsert leaves the sessions as
/// the first left them, announces no new session, and publishes the same
/// slides as the first.
pub proof fn lemma_upsert_idempotent(
    ss: Seq<SessionView>,
    id: Seq<char>,
    name: Seq<char>,
    raw_text: Seq<char>,
    now1: u64,
    now2: u64,
)
    requires
        ids_unique(ss),
    ensures
        ({
            let once = upserted(ss, id, name, raw_text, now1);
            let slides = EventView::SlidesUpdate {
                session_id: id,
                slides: segmentation(raw_text).0,
            };
            &&& upserted(once, id, name, raw_text, now2) == once
            &&& upsert_events(once, id, name, raw_text, now2) == seq![slides]
            &&& upsert_events(ss, id, name, raw_text, now1).last() == slides
        }),
{
    let once = upserted(ss, id, name, raw_text, now1);
    lemma_upserted_slides(ss, id, name, raw_text, now1);
    assert(upserted(once, id, name, raw_text, now2) =~= once);
}

/// Publishing a list of messages numbers each of them, and keeps the
/// capacity.
pub proof fn lemma_published_all_numbering(b: BroadcastView, es: Seq<EventView>)
    ensures
        published_all(b, es).next_seq() == b.next_seq() + es.len(),
        published_all(b, es).capacity == b.capacity,
    decreases es.len(),
{
    if es.len() > 0 {
        lemma_published_all_numbering(b, es.drop_last());
    }
}

/// The events of `e`, none or one.
pub open spec fn opt_events(e: Option<EventView>) -> Seq<EventView> {
    match e {
        Some(v) => seq![v],
        None => Seq::empty(),
    }
}

pub struct HubView {
    pub store: StoreView,
    pub channel: BroadcastView,
}

/// One real-time endpoint: the store and the channel that fans its changes
/// out to every connection.
pub struct Hub {
    store: Store,
    channel: Broadcast,
}

/// A client that joins an existing session and then stays idle gets exactly
/// one message: the slides that the session has at the time of the join,
/// whether or not its text was ever updated. The store is left as it was.
pub proof fn lemma_join_then_idle(s: StoreView, b: BroadcastView, session_id: String)
    requires
        has_session(s.sessions, session_id@),
    ensures
        ({
            let effect = inbound_effect(s, Inbound::JoinSession { session_id });
            let slides = EventView::SlidesUpdate {
                session_id: session_id@,
                slides: s.sessions[session_index(s.sessions, session_id@)].slides,
            };
            &&& effect.0 == s
            &&& opt_events(effect.1) == seq![slides]
            &&& published_all(b, opt_events(effect.1)) == published(b, slides)
        }),
{
    let slides = EventView::SlidesUpdate {
        session_id: session_id@,
        slides: s.sessions[session_index(s.sessions, session_id@)].slides,
    };
    assert(seq![slides].drop_last() =~= Seq::<EventView>::empty());
    assert(published_all(b, Seq::<EventView>::empty()) == b);
}

impl View for Hub {
    type V = HubView;

    closed spec fn view(&self) -> HubView {
        HubView { store: self.store@, channel: self.channel@ }
    }
}

impl Hub {
    pub open spec fn wf(&self) -> bool {
        &&& self.store_wf()
        &&& self@.channel.capacity > 0
        &&& self@.channel.events.len() <= self@.channel.capacity
        &&& self@.channel.next_seq() <= u64::MAX
    }

    pub closed spec fn store_wf(&self) -> bool {
        self.store.wf()
    }

    /// Whether `n` more messages can still be numbered.
    pub open spec fn has_room(&self, n: nat) -> bool {
        self@.channel.next_seq() + n <= u64::MAX
    }

    proof fn lemma_wf(&self)
        requires
            self.wf(),
        ensures
            self.store.wf(),
            self.channel.wf(),
    {
    }

    /// A hub with an empty store and an empty channel of the usual capacity.
    pub fn new() -> (r: Hub)
        ensures
            r.wf(),
            r@.store.sessions.len() == 0,
            r@.store.schedule.schedule.len() == 0,
            r@.store.schedule.current_session_index is None,
            !r@.store.running,
            r@.channel.events.len() == 0,
            r@.channel.first_seq == 0,
            r@.channel.capacity == HUB_CAPACITY,
    {
        Hub { store: Store::new(), channel: Broadcast::new(HUB_CAPACITY) }
    }

    pub fn store(&self) -> (r: &Store)
        ensures
            r@ == self@.store,
            self.wf() ==> r.wf(),
    {
        &self.store
    }

    pub fn channel(&self) -> (r: &Broadcast)
        ensures
            r@ == self@.channel,
            self.wf() ==> r.wf(),
    {
        &self.channel
    }

    fn publish_opt(&mut self, e: Option<OutEvent>)
        requires
            old(self).wf(),
            old(self).has_room(1),
        ensures
            final(self).wf(),
            final(self)@.store == old(self)@.store,
            final(self)@.channel == published_all(
                old(self)@.channel,
                opt_events(
                    match e {
                        Some(v) => Some(v@),
                        None => None,
                    },
                ),
            ),
            final(self)@.channel.next_seq() == old(self)@.channel.next_seq() + (if e is Some {
                1int
            } else {
                0int
            }),
            final(self)@.channel.capacity == old(self)@.channel.capacity,
    {
        proof {
            self.lemma_wf();
        }
        match e {
            Some(v) => {
                let ghost ev = v@;
                let ghost before = self@.channel;
                self.channel.publish(v);
                proof {
                    assert(seq![ev].drop_last() =~= Seq::<EventView>::empty());
                    assert(published_all(before, Seq::<EventView>::empty()) == before);
                    assert(published_all(before, seq![ev]) == published(before, ev));
                }
            },
            None => {},
        }
    }

    /// Handles one message from a client, and publishes what it calls for.
    pub fn handle_inbound(&mut self, msg: Inbound)
        requires
            old(self).wf(),
            old(self).has_room(1),
        ensures
            final(self).wf(),
            final(self)@.store == inbound_effect(old(self)@.store, msg).0,
            final(self)@.channel == published_all(
                old(self)@.channel,
                opt_events(inbound_effect(old(self)@.store, msg).1),
            ),
            final(self)@.channel.next_seq() == old(self)@.channel.next_seq() + opt_events(
                inbound_effect(old(self)@.store, msg).1,
            ).len(),
            final(self)@.channel.capacity == old(self)@.channel.capacity,
    {
        proof {
            lemma_published_all_numbering(self@.channel, opt_events(inbound_effect(self@.store, msg).1));
        }
        proof {
            self.lemma_wf();
        }
        match msg {
            Inbound::TextUpdate { session_id, text } => {
                match self.store.update_session_text(&session_id, text) {
                    Some(slides) => {
                        self.publish_opt(Some(OutEvent::SlidesUpdate { session_id, slides }));
                    },
                    None => {},
                }
            },
            Inbound::JoinSession { session_id } => {
                let e = self.store.snapshot_for_join(&Topic::Session(session_id));
                self.publish_opt(e);
            },
            Inbound::JoinSchedule => {
                let e = self.store.snapshot_for_join(&Topic::Schedule);
                self.publish_opt(e);
            },
            Inbound::JoinTimer => {
                let e = self.store.snapshot_for_join(&Topic::Timer);
                self.publish_opt(e);
            },
            Inbound::JoinDisplay => {
                let e = self.store.snapshot_for_join(&Topic::Display);
                self.publish_opt(e);
            },
            Inbound::TranscriptionStream { raw } => {
                self.publish_opt(Some(OutEvent::Passthrough { payload: raw }));
            },
        }
    }

    /// Makes or refreshes the session `id` (see `Store::upsert_session`), then
    /// announces a new session and publishes its slides. Returns the stored
    /// session and whether it is new.
    pub fn upsert_session(&mut self, id: String, name: String, raw_text: String, now: u64) -> (r: (
        Session,
        bool,
    ))
        requires
            old(self).wf(),
            old(self).has_room(2),
        ensures
            final(self).wf(),
            final(self)@.store == (StoreView {
                sessions: upserted(old(self)@.store.sessions, id@, name@, raw_text@, now),
                ..old(self)@.store
            }),
            final(self)@.channel == published_all(
                old(self)@.channel,
                upsert_events(old(self)@.store.sessions, id@, name@, raw_text@, now),
            ),
            r.1 == !has_session(old(self)@.store.sessions, id@),
            has_session(final(self)@.store.sessions, id@),
            r.0@ == final(self)@.store.sessions[session_index(final(self)@.store.sessions, id@)],
            final(self)@.channel.next_seq() == old(self)@.channel.next_seq() + upsert_events(
                old(self)@.store.sessions,
                id@,
                name@,
                raw_text@,
                now,
            ).len(),
            final(self)@.channel.capacity == old(self)@.channel.capacity,
    {
        proof {
            lemma_published_all_numbering(
                self@.channel,
                upsert_events(self@.store.sessions, id@, name@, raw_text@, now),
            );
        }
        proof {
            self.lemma_wf();
        }
        let ghost ss = self@.store.sessions;
        let ghost before = self@.channel;
        let session_id = id.clone();
        let (session, created) = self.store.upsert_session(id, name, raw_text, now);
        let ghost up = upserted(ss, session_id@, name@, raw_text@, now);
        let ghost slides_event = EventView::SlidesUpdate {
            session_id: session_id@,
            slides: segmentation(raw_text@).0,
        };
        proof {
            lemma_upserted_slides(ss, session_id@, name@, raw_text@, now);
        }
        if created {
            self.channel.publish(OutEvent::SessionCreated { session: session.copy() });
        }
        let ghost mid = self@.channel;
        self.channel.publish(
            OutEvent::SlidesUpdate { session_id, slides: copy_slides(&session.slides) },
        );
        proof {
            let es = upsert_events(ss, session_id@, name@, raw_text@, now);
            assert(es.last() == slides_event);
            if created {
                let c = EventView::SessionCreated { session: up[session_index(up, session_id@)] };
                assert(es =~= seq![c, slides_event]);
                assert(es.drop_last() =~= seq![c]);
                assert(seq![c].drop_last() =~= Seq::<EventView>::empty());
                assert(published_all(before, Seq::<EventView>::empty()) == before);
                assert(published_all(before, seq![c]) == mid);
            } else {
                assert(es =~= seq![slides_event]);
                assert(es.drop_last() =~= Seq::<EventView>::empty());
                assert(published_all(before, Seq::<EventView>::empty()) == before);
            }
        }
        (session, created)
    }

    /// Deletes the session `id` and announces it, if there was one.
    pub fn delete_session(&mut self, id: String) -> (r: bool)
        requires
            old(self).wf(),
            old(self).has_room(1),
        ensures
            final(self).wf(),
            final(self)@.store == (StoreView {
                sessions: deleted(old(self)@.store.sessions, id@),
                ..old(self)@.store
            }),
            final(self)@.channel == published_all(
                old(self)@.channel,
                opt_events(
                    if r {
                        Some(EventView::SessionDeleted { session_id: id@ })
                    } else {
                        None
                    },
                ),
            ),
            r == has_session(old(self)@.store.sessions, id@),
            final(self)@.channel.next_seq() <= old(self)@.channel.next_seq() + 1,
            final(self)@.channel.capacity == old(self)@.channel.capacity,
    {
        proof {
            lemma_published_all_numbering(self@.channel, seq![EventView::SessionDeleted { session_id: id@ }]);
            lemma_published_all_numbering(self@.channel, Seq::empty());
        }
        proof {
            self.lemma_wf();
        }
        let existed = self.store.delete_session(&id);
        if existed {
            self.publish_opt(Some(OutEvent::SessionDeleted { session_id: id }));
        } else {
            self.publish_opt(None);
        }
        existed
    }

    /// Replaces the schedule (see `Store::update_schedule`) and publishes it.
    pub fn update_schedule(&mut self, schedule: Vec<ScheduleItem>, current: Option<usize>)
        requires
            old(self).wf(),
            old(self).has_room(1),
        ensures
            final(self).wf(),
            final(self)@.store == (StoreView {
                schedule: schedule_stored(
                    schedule@,
                    match current {
                        Some(i) => Some(i as nat),
                        None => None,
                    },
                ),
                ..old(self)@.store
            }),
            final(self)@.channel == published_all(
                old(self)@.channel,
                seq![EventView::ScheduleUpdate { schedule: final(self)@.store.schedule }],
            ),
            final(self)@.channel.next_seq() == old(self)@.channel.next_seq() + 1,
            final(self)@.channel.capacity == old(self)@.channel.capacity,
    {
        proof {
            self.lemma_wf();
        }
        self.store.update_schedule(schedule, current);
        let e = OutEvent::ScheduleUpdate { schedule: self.store.schedule() };
        self.publish_opt(Some(e));
    }

    /// Replaces the timer snapshot and publishes it.
    pub fn update_timer(&mut self, timer: TimerState)
        requires
            old(self).wf(),
            old(self).has_room(1),
        ensures
            final(self).wf(),
            final(self)@.store == (StoreView { timer, ..old(self)@.store }),
            final(self)@.channel == published_all(
                old(self)@.channel,
                seq![EventView::TimerUpdate { timer }],
            ),
            final(self)@.channel.next_seq() == old(self)@.channel.next_seq() + 1,
            final(self)@.channel.capacity == old(self)@.channel.capacity,
    {
        proof {
            self.lemma_wf();
        }
        let e = OutEvent::TimerUpdate { timer: timer.copy() };
        self.store.update_timer(timer);
        self.publish_opt(Some(e));
    }

    /// Replaces the display state and publishes it.
    pub fn update_display(&mut self, display: DisplayState)
        requires
            old(self).wf(),
            old(self).has_room(1),
        ensures
            final(self).wf(),
            final(self)@.store == (StoreView { display: display@, ..old(self)@.store }),
            final(self)@.channel == published_all(
                old(self)@.channel,
                seq![EventView::DisplayUpdate { display: display@ }],
            ),
            final(self)@.channel.next_seq() == old(self)@.channel.next_seq() + 1,
            final(self)@.channel.capacity == old(self)@.channel.capacity,
    {
        proof {
            self.lemma_wf();
        }
        let e = OutEvent::DisplayUpdate { display: display.copy() };
        self.store.update_display(display);
        self.publish_opt(Some(e));
    }

    /// Publishes a message that the caller has already encoded, as it is.
    pub fn broadcast_raw(&mut self, message: String)
        requires
            old(self).wf(),
            old(self).has_room(1),
        ensures
            final(self).wf(),
            final(self)@.store == old(self)@.store,
            final(self)@.channel == published_all(
                old(self)@.channel,
                seq![EventView::Passthrough { payload: message@ }],
            ),
            final(self)@.channel.next_seq() == old(self)@.channel.next_seq() + 1,
            final(self)@.channel.capacity == old(self)@.channel.capacity,
    {
        self.publish_opt(Some(OutEvent::Passthrough { payload: message }));
    }

    /// Records that the hub serves on `port`.
    pub fn mark_running(&mut self, port: u16)
        requires
            old(self).wf(),
        ensures
            final(self).wf(),
            final(self)@.store == (StoreView { running: true, port, ..old(self)@.store }),
            final(self)@.channel == old(self)@.channel,
    {
        proof {
            self.lemma_wf();
        }
        self.store.mark_running(port);
    }

    /// Records that the hub has stopped accepting connections.
    pub fn mark_stopped(&mut self)
        requires
            old(self).wf(),
        ensures
            final(self).wf(),
            final(self)@.store == (StoreView { running: false, ..old(self)@.store }),
            final(self)@.channel == old(self)@.channel,
    {
        proof {
            self.lemma_wf();
        }
        self.store.mark_stopped();
    }
}

} // verus!
