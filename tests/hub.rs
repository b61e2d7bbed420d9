use proassist::hub::{Broadcast, Hub, Inbound, Received, HUB_CAPACITY};
use proassist::records::TimerState;
use proassist::store::OutEvent;

fn drain(hub: &Hub, mut cursor: u64) -> Vec<OutEvent> {
    let mut out = Vec::new();
    loop {
        match hub.channel().receive(cursor) {
            Received::Message { event, next } => {
                out.push(event);
                cursor = next;
            }
            Received::Lagged { next, .. } => cursor = next,
            Received::Empty => return out,
        }
    }
}

#[test]
fn join_then_idle_gets_one_slides_update() {
    let mut hub = Hub::new();
    hub.upsert_session("s".to_string(), "S".to_string(), "Heading\n\tA".to_string(), 0);
    let cursor = hub.channel().subscribe();
    hub.handle_inbound(Inbound::JoinSession { session_id: "s".to_string() });
    let got = drain(&hub, cursor);
    assert_eq!(got.len(), 1);
    match &got[0] {
        OutEvent::SlidesUpdate { session_id, slides } => {
            assert_eq!(session_id, "s");
            assert_eq!(slides.len(), 2);
        }
        _ => panic!("expected a slides update"),
    }
}

#[test]
fn join_on_missing_session_publishes_nothing() {
    let mut hub = Hub::new();
    let cursor = hub.channel().subscribe();
    hub.handle_inbound(Inbound::JoinSession { session_id: "none".to_string() });
    assert!(drain(&hub, cursor).is_empty());
}

#[test]
fn second_identical_upsert_announces_no_new_session() {
    let mut hub = Hub::new();
    let cursor = hub.channel().subscribe();
    let text = "Line1\nLine2".to_string();
    let (_, c1) = hub.upsert_session("s".to_string(), "S".to_string(), text.clone(), 5);
    let (_, c2) = hub.upsert_session("s".to_string(), "S".to_string(), text, 6);
    assert!(c1);
    assert!(!c2);
    let got = drain(&hub, cursor);
    assert_eq!(got.len(), 3);
    assert!(matches!(got[0], OutEvent::SessionCreated { .. }));
    assert!(matches!(got[1], OutEvent::SlidesUpdate { .. }));
    assert!(matches!(got[2], OutEvent::SlidesUpdate { .. }));
    let created = got
        .iter()
        .filter(|e| matches!(e, OutEvent::SessionCreated { .. }))
        .count();
    assert_eq!(created, 1);
}

#[test]
fn text_update_publishes_new_slides() {
    let mut hub = Hub::new();
    hub.upsert_session("s".to_string(), "S".to_string(), "old".to_string(), 0);
    let cursor = hub.channel().subscribe();
    hub.handle_inbound(Inbound::TextUpdate {
        session_id: "s".to_string(),
        text: "H\n\tK".to_string(),
    });
    let got = drain(&hub, cursor);
    assert_eq!(got.len(), 1);
    match &got[0] {
        OutEvent::SlidesUpdate { slides, .. } => {
            assert_eq!(slides.len(), 2);
            assert_eq!(slides[1].items[1].text, "K");
        }
        _ => panic!("expected a slides update"),
    }
    assert_eq!(hub.store().session(&"s".to_string()).unwrap().raw_text, "H\n\tK");
}

#[test]
fn text_update_for_unknown_session_is_dropped() {
    let mut hub = Hub::new();
    let cursor = hub.channel().subscribe();
    hub.handle_inbound(Inbound::TextUpdate {
        session_id: "ghost".to_string(),
        text: "x".to_string(),
    });
    assert!(drain(&hub, cursor).is_empty());
    assert_eq!(hub.store().session_count(), 0);
}

#[test]
fn transcription_is_relayed_unchanged() {
    let mut hub = Hub::new();
    let cursor = hub.channel().subscribe();
    let raw = "{\"type\":\"TranscriptionStream\",\"text\":\"hi\",\"extra\":[1,2]}".to_string();
    hub.handle_inbound(Inbound::TranscriptionStream { raw: raw.clone() });
    let got = drain(&hub, cursor);
    assert_eq!(got.len(), 1);
    match &got[0] {
        OutEvent::Passthrough { payload } => assert_eq!(payload, &raw),
        _ => panic!("expected a passthrough"),
    }
}

#[test]
fn joins_on_records_replay_them() {
    let mut hub = Hub::new();
    hub.update_timer(TimerState {
        is_running: true,
        seconds_left: 42,
        label: None,
        end_time: None,
        is_overrun: false,
    });
    let cursor = hub.channel().subscribe();
    hub.handle_inbound(Inbound::JoinTimer);
    hub.handle_inbound(Inbound::JoinSchedule);
    hub.handle_inbound(Inbound::JoinDisplay);
    let got = drain(&hub, cursor);
    assert_eq!(got.len(), 3);
    match &got[0] {
        OutEvent::TimerUpdate { timer } => assert_eq!(timer.seconds_left, 42),
        _ => panic!("expected a timer update"),
    }
    assert!(matches!(got[1], OutEvent::ScheduleUpdate { .. }));
    assert!(matches!(got[2], OutEvent::DisplayUpdate { .. }));
}

#[test]
fn delete_publishes_only_when_there_was_a_session() {
    let mut hub = Hub::new();
    hub.upsert_session("s".to_string(), "S".to_string(), "x".to_string(), 0);
    let cursor = hub.channel().subscribe();
    assert!(hub.delete_session("s".to_string()));
    assert!(!hub.delete_session("s".to_string()));
    let got = drain(&hub, cursor);
    assert_eq!(got.len(), 1);
    match &got[0] {
        OutEvent::SessionDeleted { session_id } => assert_eq!(session_id, "s"),
        _ => panic!("expected a deletion"),
    }
}

#[test]
fn broadcast_raw_and_schedule_updates_are_published() {
    let mut hub = Hub::new();
    let cursor = hub.channel().subscribe();
    hub.broadcast_raw("{\"type\":\"Ping\"}".to_string());
    hub.update_schedule(Vec::new(), Some(3));
    let got = drain(&hub, cursor);
    assert_eq!(got.len(), 2);
    match &got[1] {
        OutEvent::ScheduleUpdate { schedule } => assert_eq!(schedule.current_session_index, None),
        _ => panic!("expected a schedule update"),
    }
}

#[test]
fn slow_subscriber_loses_the_oldest_messages() {
    let mut hub = Hub::new();
    let cursor = hub.channel().subscribe();
    for k in 0..(HUB_CAPACITY + 5) {
        hub.broadcast_raw(format!("m{}", k));
    }
    match hub.channel().receive(cursor) {
        Received::Lagged { missed, next } => {
            assert_eq!(missed, 5);
            assert_eq!(next, 5);
        }
        _ => panic!("expected a lag"),
    }
    match hub.channel().receive(5) {
        Received::Message { event: OutEvent::Passthrough { payload }, next } => {
            assert_eq!(payload, "m5");
            assert_eq!(next, 6);
        }
        _ => panic!("expected the oldest kept message"),
    }
    assert_eq!(drain(&hub, 5).len(), HUB_CAPACITY);
}

#[test]
fn publishing_with_no_subscriber_is_fine() {
    let mut b = Broadcast::new(2);
    assert_eq!(b.subscribe(), 0);
    b.publish(OutEvent::Error { message: "a".to_string() });
    b.publish(OutEvent::Error { message: "b".to_string() });
    b.publish(OutEvent::Error { message: "c".to_string() });
    assert_eq!(b.subscribe(), 3);
    assert!(matches!(b.receive(3), Received::Empty));
    assert!(matches!(b.receive(0), Received::Lagged { missed: 1, next: 1 }));
}

#[test]
fn new_subscriber_sees_only_later_messages() {
    let mut hub = Hub::new();
    hub.broadcast_raw("before".to_string());
    let cursor = hub.channel().subscribe();
    hub.broadcast_raw("after".to_string());
    let got = drain(&hub, cursor);
    assert_eq!(got.len(), 1);
    match &got[0] {
        OutEvent::Passthrough { payload } => assert_eq!(payload, "after"),
        _ => panic!("expected a passthrough"),
    }
}

#[test]
fn running_flag_through_the_hub() {
    let mut hub = Hub::new();
    hub.mark_running(1420);
    assert!(hub.store().is_running());
    assert_eq!(hub.store().port(), 1420);
    hub.mark_stopped();
    assert!(!hub.store().is_running());
}
