use proassist::records::{DisplayState, ScheduleItem, TimerState};
use proassist::store::{OutEvent, Store, Topic};

fn item(id: &str) -> ScheduleItem {
    ScheduleItem {
        id: id.to_string(),
        session_label: format!("Session {}", id),
        start_time: "09:00".to_string(),
        end_time: "09:30".to_string(),
        duration: 30,
        minister: None,
    }
}

#[test]
fn upsert_creates_then_replaces_in_place() {
    let mut store = Store::new();
    let (first, created) =
        store.upsert_session("s1".to_string(), "Morning".to_string(), "A\n\tB".to_string(), 10);
    assert!(created);
    assert_eq!(first.created_at, 10);
    assert_eq!(first.slides.len(), 2);
    let (second, created_again) =
        store.upsert_session("s1".to_string(), "Renamed".to_string(), "X\nY".to_string(), 99);
    assert!(!created_again);
    assert_eq!(second.created_at, 10);
    assert_eq!(second.name, "Morning");
    assert_eq!(second.raw_text, "X\nY");
    assert_eq!(second.slides.len(), 1);
    assert_eq!(store.session_count(), 1);
}

#[test]
fn identical_upserts_give_identical_slides() {
    let mut store = Store::new();
    let text = "Heading\n\tPoint A\n\tPoint B".to_string();
    let (a, created_a) = store.upsert_session("s".to_string(), "n".to_string(), text.clone(), 1);
    let (b, created_b) = store.upsert_session("s".to_string(), "n".to_string(), text, 2);
    assert!(created_a);
    assert!(!created_b);
    assert_eq!(a.slides.len(), b.slides.len());
    for (x, y) in a.slides.iter().zip(b.slides.iter()) {
        assert_eq!(x.color, y.color);
        let tx: Vec<&str> = x.items.iter().map(|i| i.text.as_str()).collect();
        let ty: Vec<&str> = y.items.iter().map(|i| i.text.as_str()).collect();
        assert_eq!(tx, ty);
    }
}

#[test]
fn delete_session_reports_whether_it_existed() {
    let mut store = Store::new();
    store.upsert_session("a".to_string(), "A".to_string(), "x".to_string(), 0);
    store.upsert_session("b".to_string(), "B".to_string(), "y".to_string(), 0);
    assert!(store.delete_session(&"a".to_string()));
    assert!(!store.delete_session(&"a".to_string()));
    let left = store.list_sessions();
    assert_eq!(left.len(), 1);
    assert_eq!(left[0].id, "b");
    assert!(store.session(&"a".to_string()).is_none());
    assert_eq!(store.session(&"b".to_string()).unwrap().raw_text, "y");
}

#[test]
fn update_session_text_needs_an_existing_session() {
    let mut store = Store::new();
    assert!(store.update_session_text(&"nope".to_string(), "A".to_string()).is_none());
    assert_eq!(store.session_count(), 0);
    store.upsert_session("s".to_string(), "S".to_string(), "old".to_string(), 0);
    let slides = store.update_session_text(&"s".to_string(), "new\n\tkid".to_string()).unwrap();
    assert_eq!(slides.len(), 2);
    assert_eq!(store.session(&"s".to_string()).unwrap().raw_text, "new\n\tkid");
}

#[test]
fn schedule_index_out_of_range_is_cleared() {
    let mut store = Store::new();
    store.update_schedule(vec![item("1"), item("2")], Some(1));
    assert_eq!(store.schedule().current_session_index, Some(1));
    store.update_schedule(vec![item("1"), item("2")], Some(2));
    assert_eq!(store.schedule().current_session_index, None);
    assert_eq!(store.schedule().schedule.len(), 2);
    store.update_schedule(Vec::new(), Some(0));
    assert_eq!(store.schedule().current_session_index, None);
}

#[test]
fn timer_and_display_are_replaced_whole() {
    let mut store = Store::new();
    store.update_timer(TimerState {
        is_running: true,
        seconds_left: 300,
        label: Some("Sermon".to_string()),
        end_time: Some(1_700_000_000),
        is_overrun: false,
    });
    let t = store.timer();
    assert!(t.is_running);
    assert_eq!(t.seconds_left, 300);
    assert_eq!(t.label.as_deref(), Some("Sermon"));
    store.update_display(DisplayState {
        verse_text: "In the beginning".to_string(),
        reference: "Genesis 1:1".to_string(),
        auxiliary_slide_text: vec!["one".to_string(), "two".to_string()],
        settings: "{\"font\":32}".to_string(),
    });
    let d = store.display();
    assert_eq!(d.reference, "Genesis 1:1");
    assert_eq!(d.auxiliary_slide_text, vec!["one".to_string(), "two".to_string()]);
    assert_eq!(d.settings, "{\"font\":32}");
}

#[test]
fn join_snapshots_reflect_current_state() {
    let mut store = Store::new();
    assert!(store.snapshot_for_join(&Topic::Session("missing".to_string())).is_none());
    store.upsert_session("s".to_string(), "S".to_string(), "Hello".to_string(), 0);
    match store.snapshot_for_join(&Topic::Session("s".to_string())) {
        Some(OutEvent::SlidesUpdate { session_id, slides }) => {
            assert_eq!(session_id, "s");
            assert_eq!(slides.len(), 1);
            assert_eq!(slides[0].items[0].text, "Hello");
        }
        _ => panic!("expected a slides update"),
    }
    assert!(matches!(
        store.snapshot_for_join(&Topic::Timer),
        Some(OutEvent::TimerUpdate { .. })
    ));
    assert!(matches!(
        store.snapshot_for_join(&Topic::Schedule),
        Some(OutEvent::ScheduleUpdate { .. })
    ));
    assert!(matches!(
        store.snapshot_for_join(&Topic::Display),
        Some(OutEvent::DisplayUpdate { .. })
    ));
}

#[test]
fn running_flag_and_port() {
    let mut store = Store::new();
    assert!(!store.is_running());
    assert_eq!(store.port(), 0);
    store.mark_running(8080);
    assert!(store.is_running());
    assert_eq!(store.port(), 8080);
    store.mark_stopped();
    assert!(!store.is_running());
    assert_eq!(store.port(), 8080);
}
