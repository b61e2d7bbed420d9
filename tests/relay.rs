use proassist::relay::{SyncMessage, SyncRelay};

fn relay() -> SyncRelay {
    SyncRelay::new("srv-1".to_string(), "master".to_string())
}

#[test]
fn request_for_nothing_gets_absent_fields() {
    let mut r = relay();
    r.handle(SyncMessage::Schedule {
        schedule: "[{\"id\":\"1\"}]".to_string(),
        current_session_index: Some(0),
    });
    r.handle(SyncMessage::FullState {
        playlists: Some("[]".to_string()),
        schedule: None,
        current_session_index: None,
    });
    let reply = r.handle(SyncMessage::RequestState { want_playlists: false, want_schedule: false });
    match reply {
        Some(SyncMessage::FullState { playlists, schedule, current_session_index }) => {
            assert!(playlists.is_none());
            assert!(schedule.is_none());
            assert!(current_session_index.is_none());
        }
        _ => panic!("expected a full state"),
    }
}

#[test]
fn request_for_playlists_only() {
    let mut r = relay();
    r.handle(SyncMessage::FullState {
        playlists: Some("[\"p\"]".to_string()),
        schedule: Some("[\"s\"]".to_string()),
        current_session_index: Some(2),
    });
    match r.handle(SyncMessage::RequestState { want_playlists: true, want_schedule: false }) {
        Some(SyncMessage::FullState { playlists, schedule, current_session_index }) => {
            assert_eq!(playlists.as_deref(), Some("[\"p\"]"));
            assert!(schedule.is_none());
            assert!(current_session_index.is_none());
        }
        _ => panic!("expected a full state"),
    }
}

#[test]
fn join_gets_the_whole_cache() {
    let mut r = relay();
    r.handle(SyncMessage::Schedule { schedule: "S".to_string(), current_session_index: Some(4) });
    let reply = r.handle(SyncMessage::Join {
        client_mode: "slave".to_string(),
        client_id: "c1".to_string(),
    });
    match reply {
        Some(SyncMessage::FullState { playlists, schedule, current_session_index }) => {
            assert!(playlists.is_none());
            assert_eq!(schedule.as_deref(), Some("S"));
            assert_eq!(current_session_index, Some(4));
        }
        _ => panic!("expected a full state"),
    }
}

#[test]
fn changes_are_relayed_verbatim() {
    let mut r = relay();
    match r.handle(SyncMessage::PlaylistItem { payload: "{\"id\":7}".to_string() }) {
        Some(SyncMessage::PlaylistItem { payload }) => assert_eq!(payload, "{\"id\":7}"),
        _ => panic!("expected the same playlist item"),
    }
    match r.handle(SyncMessage::PlaylistDelete { payload: "7".to_string() }) {
        Some(SyncMessage::PlaylistDelete { payload }) => assert_eq!(payload, "7"),
        _ => panic!("expected the same deletion"),
    }
    assert!(r.cache.playlists.is_none());
    assert!(r
        .handle(SyncMessage::Welcome {
            server_id: "x".to_string(),
            server_mode: "y".to_string(),
            connected_client_count: 1,
        })
        .is_none());
}

#[test]
fn connect_welcomes_with_the_count() {
    let mut r = relay();
    match r.connect() {
        SyncMessage::Welcome { server_id, server_mode, connected_client_count } => {
            assert_eq!(server_id, "srv-1");
            assert_eq!(server_mode, "master");
            assert_eq!(connected_client_count, 1);
        }
        _ => panic!("expected a welcome"),
    }
    r.connect();
    assert_eq!(r.connected_client_count, 2);
    r.disconnect();
    r.disconnect();
    r.disconnect();
    assert_eq!(r.connected_client_count, 0);
}

#[test]
fn info_reports_the_peer_count() {
    let mut r = relay();
    r.connect();
    r.connect();
    let info = r.info(true, 9001, "192.168.1.20".to_string());
    assert!(info.running);
    assert_eq!(info.port, 9001);
    assert_eq!(info.local_ip, "192.168.1.20");
    assert_eq!(info.connected_client_count, 2);
}
