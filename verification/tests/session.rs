use hive_node::messages::proxy_message::ProxyMessage;
use hive_node::models::tags::{Model, ModelDetails, Tags};
use hive_node::protocol::connection::{
    reconnect_delay, run_protocol, Session, SessionAction, SessionEnd, SessionError, SessionEvent,
    SessionPhase, RECONNECT_SECS,
};
use hive_node::protocol::network_util::{
    authenticate, get_ollama_version, handle_hive_request, handle_ollama_update, poll,
    read_next_message, read_next_message_length, ControlAction, RelayOutcome,
};
use hive_node::frame::FrameError;
use hive_node::protocol::state::{
    advance_refresh, get_last_refresh, get_node_name, get_reboot, get_shutdown, init_local_time,
    local_time_before, notify_refresh, refresh_poll_models, set_node_name, set_reboot, set_shutdown,
    NodeState, DAY_MS,
};

fn tags(names: &[&str]) -> Tags {
    Tags {
        models: names
            .iter()
            .map(|n| Model {
                name: n.to_string(),
                model: n.to_string(),
                modified_at: String::new(),
                size: 0,
                digest: String::new(),
                details: ModelDetails {
                    parent_model: String::new(),
                    format: String::new(),
                    family: String::new(),
                    families: vec![],
                    parameter_size: String::new(),
                    quantization_level: String::new(),
                },
            })
            .collect(),
    }
}

fn exchange(action: SessionAction) -> String {
    match action {
        SessionAction::Exchange(frame) => {
            let announced = u32::from_be_bytes([frame[0], frame[1], frame[2], frame[3]]) as usize;
            assert_eq!(announced, frame.len() - 4);
            String::from_utf8(frame[4..].to_vec()).unwrap()
        }
        other => panic!("expected an exchange, got {:?}", other),
    }
}

fn framed(line: &str) -> Option<Vec<u8>> {
    let mut frame = (line.len() as u32).to_be_bytes().to_vec();
    frame.extend_from_slice(line.as_bytes());
    Some(frame)
}

fn frame(text: &str) -> SessionEvent {
    SessionEvent::Frame(ProxyMessage::from(text.to_string()))
}

fn polling(node: &mut NodeState) -> Session {
    let mut s = Session::new("key".to_string(), 7, "1.2.3".to_string(), 5_000);
    assert!(matches!(run_protocol(&mut s, node, SessionEvent::Start), SessionAction::Connect));
    assert!(matches!(run_protocol(&mut s, node, SessionEvent::Connected), SessionAction::QueryCatalog));
    assert!(matches!(
        run_protocol(&mut s, node, SessionEvent::Catalog(tags(&["llama3:latest", "phi3"]))),
        SessionAction::QueryBackendVersion
    ));
    let auth = exchange(run_protocol(&mut s, node, SessionEvent::BackendVersion(Some("0.6.8".to_string()))));
    assert_eq!(auth, "AUTH key;7;1.2.3;0.6.8 HIVE\r\n");
    let first = exchange(run_protocol(&mut s, node, frame("OK node-17 HIVE")));
    assert_eq!(first, "POLL llama3;llama3:latest;phi3 HIVE\r\n");
    assert_eq!(s.phase(), SessionPhase::Polling);
    s
}

#[test]
fn flags_and_name() {
    let mut n = NodeState::new(1_000);
    assert!(!get_reboot(&n) && !get_shutdown(&n));
    assert_eq!(get_node_name(&n), "Unknown");
    assert_eq!(get_last_refresh(&n), 1_000);
    set_reboot(&mut n, true);
    assert!(get_reboot(&n) && !get_shutdown(&n));
    set_shutdown(&mut n, true);
    set_reboot(&mut n, false);
    assert!(!get_reboot(&n) && get_shutdown(&n));
    set_node_name(&mut n, "worker-3".to_string());
    assert_eq!(get_node_name(&n), "worker-3");
    assert_eq!(get_last_refresh(&n), 1_000);
}

#[test]
fn refresh_epoch_only_advances() {
    let mut n = NodeState::new(1_000);
    advance_refresh(&mut n, 2_000);
    assert_eq!(get_last_refresh(&n), 2_000);
    advance_refresh(&mut n, 1_500);
    assert_eq!(get_last_refresh(&n), 2_001);
    advance_refresh(&mut n, 2_001);
    assert_eq!(get_last_refresh(&n), 2_002);
    let mut n = NodeState::new(i64::MAX);
    advance_refresh(&mut n, 5);
    assert_eq!(get_last_refresh(&n), i64::MAX);
}

#[test]
fn notify_refresh_moves_the_epoch_on() {
    let mut n = NodeState::new(i64::MAX - 1);
    notify_refresh(&mut n);
    assert_eq!(get_last_refresh(&n), i64::MAX);
    let mut n = NodeState::new(0);
    notify_refresh(&mut n);
    assert!(get_last_refresh(&n) > 1_600_000_000_000);
    assert_eq!(get_node_name(&n), "Unknown");
}

#[test]
fn local_time_starts_a_day_back() {
    assert_eq!(DAY_MS, 86_400_000);
    assert_eq!(local_time_before(100_000_000), 13_600_000);
    assert_eq!(local_time_before(i64::MIN + 5), i64::MIN);
    let started = init_local_time();
    assert!(started > 1_600_000_000_000 - DAY_MS);
    assert!(started <= i64::MAX - DAY_MS);
    let mut n = NodeState::new(0);
    notify_refresh(&mut n);
    assert!(started < get_last_refresh(&n));
}

#[test]
fn refresh_poll_models_takes_target_and_epoch() {
    let n = NodeState::new(77);
    let mut local = 0;
    let mut models = String::new();
    refresh_poll_models(&n, tags(&["a", "b:latest"]), &mut local, &mut models);
    assert_eq!(models, "a;b;b:latest");
    assert_eq!(local, 77);
    refresh_poll_models(&n, tags(&[]), &mut local, &mut models);
    assert_eq!(models, "/");
}

#[test]
fn control_lines() {
    assert_eq!(authenticate("k", 18446744073709551615, "0.1.0", "Unknown"), framed("AUTH k;18446744073709551615;0.1.0;Unknown HIVE\r\n"));
    assert_eq!(poll("a;b", false), framed("POLL a;b HIVE\r\n"));
    assert_eq!(poll("a;b", true), framed("POLL - HIVE\r\n"));
    assert_eq!(poll("/", false), framed("POLL / HIVE\r\n"));
    assert_eq!(get_ollama_version(Some("0.6.8".to_string())), "0.6.8");
    assert_eq!(get_ollama_version(None), "Unknown");
    assert_eq!(handle_ollama_update(), "HTTP/1.1 200 OK\r\nTransfer-Encoding: chunked\r\nConnection: close\r\n\r\n0\r\n\r\n");
}

#[test]
fn control_lines_go_out_behind_their_length() {
    let mut expected = vec![0u8, 0, 0, 15];
    expected.extend_from_slice(b"POLL a;b HIVE\r\n");
    assert_eq!(poll("a;b", false), Some(expected));
    let mut expected = vec![0u8, 0, 0, 13];
    expected.extend_from_slice(b"POLL - HIVE\r\n");
    assert_eq!(poll("a;b", true), Some(expected));
    let mut expected = vec![0u8, 0, 0, 22];
    expected.extend_from_slice(b"AUTH k\xc3\xa9y;7;1;2 HIVE\r\n");
    assert_eq!(authenticate("k\u{e9}y", 7, "1", "2"), Some(expected));
    let long = "m".repeat(300);
    let frame = poll(&long, false).unwrap();
    assert_eq!(frame[..4], [0, 0, 1, 56]);
    assert_eq!(frame.len(), 4 + 312);
}

#[test]
fn control_frames_set_flags() {
    let mut n = NodeState::new(0);
    let pong = ProxyMessage::from("PONG / HIVE".to_string());
    assert_eq!(handle_hive_request(&pong, &mut n), ControlAction::Continue);
    assert!(!n.reboot && !n.shutdown);
    let reboot = ProxyMessage::from("REBOOT / HIVE".to_string());
    assert_eq!(handle_hive_request(&reboot, &mut n), ControlAction::Continue);
    assert!(n.reboot && !n.shutdown);
    let shutdown = ProxyMessage::from("SHUTDOWN / HIVE".to_string());
    assert_eq!(handle_hive_request(&shutdown, &mut n), ControlAction::Continue);
    assert!(n.reboot && n.shutdown);
    let update = ProxyMessage::from("UPDATE_OLLAMA / HIVE".to_string());
    assert_eq!(handle_hive_request(&update, &mut n), ControlAction::UpgradeBackend);
    let unknown = ProxyMessage::from("DANCE / HIVE".to_string());
    assert_eq!(handle_hive_request(&unknown, &mut n), ControlAction::Continue);
    assert!(n.reboot && n.shutdown);
}

#[test]
fn reads_frame_from_bytes() {
    let mut bytes = vec![0, 0, 0, 15];
    bytes.extend_from_slice(b"PONG / HIVE\r\n\r\n");
    bytes.extend_from_slice(b"rest");
    assert_eq!(read_next_message_length(&bytes), Ok(15));
    let (m, used) = read_next_message(&bytes).unwrap();
    assert_eq!((m.method.as_str(), m.uri.as_str(), m.protocol.as_str()), ("PONG", "/", "HIVE"));
    assert_eq!(used, 19);
}

#[test]
fn invalid_utf8_in_frame_is_replaced() {
    let bytes = vec![0, 0, 0, 5, b'G', b'E', b'T', b' ', 0xFF];
    let (m, _) = read_next_message(&bytes).unwrap();
    assert_eq!(m.method, "GET");
    assert_eq!(m.uri, "\u{fffd}");
}

#[test]
fn incomplete_frame_is_malformed() {
    assert_eq!(read_next_message(&vec![0, 0]).err(), Some(FrameError::MalformedFrame));
    assert_eq!(read_next_message(&vec![0, 0, 0, 9, b'x']).err(), Some(FrameError::MalformedFrame));
    assert_eq!(read_next_message_length(&vec![1, 2, 3]), Err(FrameError::MalformedFrame));
}

#[test]
fn session_authenticates_and_caches_node_name() {
    let mut n = NodeState::new(1_000);
    let _ = polling(&mut n);
    assert_eq!(get_node_name(&n), "node-17");
}

#[test]
fn unknown_backend_version_is_reported_as_unknown() {
    let mut n = NodeState::new(1_000);
    let mut s = Session::new("key".to_string(), 1, "v".to_string(), 0);
    run_protocol(&mut s, &mut n, SessionEvent::Start);
    run_protocol(&mut s, &mut n, SessionEvent::Connected);
    run_protocol(&mut s, &mut n, SessionEvent::Catalog(tags(&[])));
    let auth = exchange(run_protocol(&mut s, &mut n, SessionEvent::BackendVersion(None)));
    assert_eq!(auth, "AUTH key;1;v;Unknown HIVE\r\n");
    let first = exchange(run_protocol(&mut s, &mut n, frame("OK n HIVE")));
    assert_eq!(first, "POLL / HIVE\r\n");
}

#[test]
fn second_poll_is_optimized() {
    let mut n = NodeState::new(1_000);
    let mut s = polling(&mut n);
    let next = exchange(run_protocol(&mut s, &mut n, frame("PONG / HIVE")));
    assert_eq!(next, "POLL - HIVE\r\n");
}

#[test]
fn data_frame_is_relayed_and_pull_refreshes_catalog() {
    let mut n = NodeState::new(1_000);
    let mut s = polling(&mut n);
    match run_protocol(&mut s, &mut n, frame("POST /api/pull HTTP/1.1\r\n\r\n{}")) {
        SessionAction::Relay(m) => assert_eq!(m.uri, "/api/pull"),
        other => panic!("expected a relay, got {:?}", other),
    }
    let next = run_protocol(&mut s, &mut n, SessionEvent::Relayed(RelayOutcome::Completed { refresh: true }));
    assert!(matches!(next, SessionAction::QueryCatalog));
    assert!(get_last_refresh(&n) > 1_600_000_000_000);
    let line = exchange(run_protocol(&mut s, &mut n, SessionEvent::Catalog(tags(&["new"]))));
    assert_eq!(line, "POLL new HIVE\r\n");
    let next = exchange(run_protocol(&mut s, &mut n, frame("PONG / HIVE")));
    assert_eq!(next, "POLL - HIVE\r\n");
}

#[test]
fn relay_without_refresh_polls_on() {
    let mut n = NodeState::new(1_000);
    let mut s = polling(&mut n);
    run_protocol(&mut s, &mut n, frame("GET /api/tags HTTP/1.1"));
    let next = exchange(run_protocol(&mut s, &mut n, SessionEvent::Relayed(RelayOutcome::Completed { refresh: false })));
    assert_eq!(next, "POLL - HIVE\r\n");
    assert_eq!(get_last_refresh(&n), 1_000);
}

#[test]
fn refresh_by_another_session_is_noticed() {
    let mut n = NodeState::new(1_000);
    let mut s = polling(&mut n);
    advance_refresh(&mut n, 2_000);
    let next = run_protocol(&mut s, &mut n, frame("PONG / HIVE"));
    assert!(matches!(next, SessionAction::QueryCatalog));
    assert_eq!(s.phase(), SessionPhase::Refreshing);
}

#[test]
fn backend_failure_does_not_end_session_but_hub_failure_does() {
    let mut n = NodeState::new(1_000);
    let mut s = polling(&mut n);
    run_protocol(&mut s, &mut n, frame("GET /api/tags HTTP/1.1"));
    let next = exchange(run_protocol(&mut s, &mut n, SessionEvent::Relayed(RelayOutcome::BackendFailed)));
    assert_eq!(next, "POLL - HIVE\r\n");
    run_protocol(&mut s, &mut n, frame("GET /api/tags HTTP/1.1"));
    let end = run_protocol(&mut s, &mut n, SessionEvent::Relayed(RelayOutcome::HubFailed));
    assert!(matches!(end, SessionAction::Close(SessionEnd::Failed(SessionError::Relay))));
    assert_eq!(s.phase(), SessionPhase::Closed);
}

#[test]
fn reboot_and_shutdown_end_session_cleanly() {
    let mut n = NodeState::new(1_000);
    let mut s = polling(&mut n);
    let end = run_protocol(&mut s, &mut n, frame("REBOOT / HIVE"));
    assert!(matches!(end, SessionAction::Close(SessionEnd::Stopped)));
    assert!(get_reboot(&n));
    assert_eq!(reconnect_delay(&mut n), Some(RECONNECT_SECS));
    assert_eq!(RECONNECT_SECS, 10);
    assert!(!get_reboot(&n));
    let mut s = polling(&mut n);
    let end = run_protocol(&mut s, &mut n, frame("SHUTDOWN / HIVE"));
    assert!(matches!(end, SessionAction::Close(SessionEnd::Stopped)));
    assert_eq!(reconnect_delay(&mut n), None);
    assert!(get_shutdown(&n));
}

#[test]
fn upgrade_is_answered_with_200_whatever_happened() {
    let mut n = NodeState::new(1_000);
    let mut s = polling(&mut n);
    assert!(matches!(run_protocol(&mut s, &mut n, frame("UPDATE_OLLAMA / HIVE")), SessionAction::UpgradeBackend));
    match run_protocol(&mut s, &mut n, SessionEvent::Upgraded) {
        SessionAction::Reply(text) => assert_eq!(text, handle_ollama_update()),
        other => panic!("expected a reply, got {:?}", other),
    }
    let next = exchange(run_protocol(&mut s, &mut n, SessionEvent::Replied));
    assert_eq!(next, "POLL - HIVE\r\n");
}

#[test]
fn failures_name_their_phase() {
    let cases: Vec<(Vec<SessionEvent>, SessionError)> = vec![
        (vec![SessionEvent::Start], SessionError::Connect),
        (vec![SessionEvent::Start, SessionEvent::Connected], SessionError::RefreshAvailableModels),
        (vec![SessionEvent::Start, SessionEvent::Connected, SessionEvent::Catalog(tags(&[]))], SessionError::Authenticate),
        (
            vec![SessionEvent::Start, SessionEvent::Connected, SessionEvent::Catalog(tags(&[])), SessionEvent::BackendVersion(None)],
            SessionError::Authenticate,
        ),
        (
            vec![SessionEvent::Start, SessionEvent::Connected, SessionEvent::Catalog(tags(&[])), SessionEvent::BackendVersion(None), frame("OK n HIVE")],
            SessionError::Poll,
        ),
        (vec![], SessionError::OutOfTurn),
    ];
    for (events, error) in cases {
        let mut n = NodeState::new(0);
        let mut s = Session::new("k".to_string(), 0, "v".to_string(), 0);
        for e in events {
            run_protocol(&mut s, &mut n, e);
        }
        match run_protocol(&mut s, &mut n, SessionEvent::Failed) {
            SessionAction::Close(SessionEnd::Failed(e)) => assert_eq!(e, error),
            other => panic!("expected an end, got {:?}", other),
        }
    }
}

#[test]
fn refresh_failure_and_reply_failure_end_session() {
    let mut n = NodeState::new(1_000);
    let mut s = polling(&mut n);
    advance_refresh(&mut n, 2_000);
    run_protocol(&mut s, &mut n, frame("PONG / HIVE"));
    assert!(matches!(
        run_protocol(&mut s, &mut n, SessionEvent::Failed),
        SessionAction::Close(SessionEnd::Failed(SessionError::RefreshModels))
    ));
    let mut n = NodeState::new(1_000);
    let mut s = polling(&mut n);
    run_protocol(&mut s, &mut n, frame("UPDATE_OLLAMA / HIVE"));
    run_protocol(&mut s, &mut n, SessionEvent::Upgraded);
    assert!(matches!(
        run_protocol(&mut s, &mut n, SessionEvent::Failed),
        SessionAction::Close(SessionEnd::Failed(SessionError::Reply))
    ));
}

#[test]
fn event_out_of_turn_ends_session() {
    let mut n = NodeState::new(0);
    let mut s = Session::new("k".to_string(), 0, "v".to_string(), 0);
    assert!(matches!(
        run_protocol(&mut s, &mut n, SessionEvent::Replied),
        SessionAction::Close(SessionEnd::Failed(SessionError::OutOfTurn))
    ));
    assert!(matches!(
        run_protocol(&mut s, &mut n, SessionEvent::Start),
        SessionAction::Close(SessionEnd::Failed(SessionError::OutOfTurn))
    ));
}
