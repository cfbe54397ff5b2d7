use hana_ssh::ssh::outbox::{EventBus, HostAction, Outbox, TaskKind};
use hana_ssh::ssh::terminal::TerminalSessionManager;
use hana_ssh::ssh::types::{SSHEvent, TerminalSession, TerminalSize};

fn closed_pairs(events: &[SSHEvent]) -> Vec<(String, String)> {
    let mut out = Vec::new();
    for e in events {
        if let SSHEvent::TerminalClosed(c, t) = e {
            out.push((c.clone(), t.clone()));
        }
    }
    out
}

#[test]
fn test_terminal_session_creation() {
    let session = TerminalSession::new("test-connection".to_string());

    assert_eq!(session.connection_id, "test-connection");
    assert!(session.is_active);
    assert_eq!(session.size.cols, 80);
    assert_eq!(session.size.rows, 24);
    assert!(!session.id.is_empty());
}

#[test]
fn test_terminal_session_resize() {
    let mut session = TerminalSession::new("test-connection".to_string());

    session.resize(120, 30, 960, 600);

    assert_eq!(session.size.cols, 120);
    assert_eq!(session.size.rows, 30);
    assert_eq!(session.size.pixel_width, 960);
    assert_eq!(session.size.pixel_height, 600);
}

#[test]
fn test_terminal_session_deactivate() {
    let mut session = TerminalSession::new("test-connection".to_string());

    assert!(session.is_active);

    session.deactivate();

    assert!(!session.is_active);
}

#[test]
fn test_terminal_session_manager_creation() {
    let manager = TerminalSessionManager::new();

    assert!(manager.list_sessions_for_connection("test-connection").is_empty());
    assert!(manager.task_should_stop("anything"));
}

#[test]
fn test_terminal_size_default() {
    let size = TerminalSize::default();

    assert_eq!(size.cols, 80);
    assert_eq!(size.rows, 24);
    assert_eq!(size.pixel_width, 640);
    assert_eq!(size.pixel_height, 480);
}

#[test]
fn test_get_nonexistent_session() {
    let manager = TerminalSessionManager::new();

    let session = manager.get_session("nonexistent");
    assert!(session.is_none());
}

#[test]
fn test_close_nonexistent_session() {
    let mut out = Outbox::new(10);
    let mut manager = TerminalSessionManager::new();

    let result = manager.close_session("nonexistent", &mut out);
    assert!(result.is_err());
    assert!(result.unwrap_err().contains("not found"));
    assert!(out.events.is_empty());
    assert!(out.actions.is_empty());
}

#[test]
fn test_send_input_to_nonexistent_session() {
    let mut out = Outbox::new(10);
    let manager = TerminalSessionManager::new();

    let result = manager.send_input("nonexistent", b"test", &mut out);
    assert!(result.is_err());
    assert!(result.unwrap_err().contains("not found"));
    assert!(out.actions.is_empty());
}

#[test]
fn test_resize_nonexistent_session() {
    let mut out = Outbox::new(10);
    let mut manager = TerminalSessionManager::new();

    let result = manager.resize_terminal("nonexistent", 80, 24, 640, 480, &mut out);
    assert!(result.is_err());
    assert!(result.unwrap_err().contains("not found"));
    assert!(out.events.is_empty());
}

#[test]
fn test_list_sessions_for_connection() {
    let manager = TerminalSessionManager::new();

    let sessions = manager.list_sessions_for_connection("nonexistent");
    assert!(sessions.is_empty());
}

#[test]
fn test_close_all_sessions_for_connection() {
    let mut out = Outbox::new(10);
    let mut manager = TerminalSessionManager::new();

    let result = manager.close_all_sessions_for_connection("nonexistent", &mut out);
    assert!(result.is_ok());
    assert!(out.events.is_empty());
    assert!(out.actions.is_empty());
}

#[test]
fn unknown_terminal_is_named_in_the_message() {
    let mut out = Outbox::new(10);
    let mut manager = TerminalSessionManager::new();
    assert_eq!(
        manager.close_session("t-17", &mut out).unwrap_err(),
        "Terminal session t-17 not found"
    );
    assert_eq!(
        manager.send_input("t-17", b"x", &mut out).unwrap_err(),
        "Terminal session t-17 not found"
    );
    assert_eq!(
        manager.resize_terminal("t-17", 1, 2, 3, 4, &mut out).unwrap_err(),
        "Terminal session t-17 not found"
    );
    assert_eq!(manager.attach_channel("t-17", 3).unwrap_err(), "Terminal session t-17 not found");
}

#[test]
fn session_with_identity_is_as_given() {
    let session = TerminalSession::with_identity("t1".to_string(), "c1".to_string(), 99);
    assert_eq!(session.id, "t1");
    assert_eq!(session.connection_id, "c1");
    assert_eq!(session.size, TerminalSize { cols: 80, rows: 24, pixel_width: 640, pixel_height: 480 });
    assert!(session.is_active);
    assert_eq!(session.created_at, 99);
    let copy = session.clone();
    assert_eq!(copy.id, "t1");
    assert_eq!(copy.created_at, 99);
}

#[test]
fn new_sessions_get_random_ids_and_the_time() {
    let a = TerminalSession::new("c".to_string());
    let b = TerminalSession::new("c".to_string());
    assert_eq!(a.id.len(), 36);
    assert_ne!(a.id, b.id);
    assert!(a.created_at > 1_500_000_000_000);
}

#[test]
fn create_session_registers_starts_tasks_and_announces() {
    let mut out = Outbox::new(10);
    let mut manager = TerminalSessionManager::new();

    let id = manager.create_session("conn-1".to_string(), &mut out).unwrap();
    assert_eq!(id.len(), 36);

    let session = manager.get_session(&id).unwrap();
    assert_eq!(session.id, id);
    assert_eq!(session.connection_id, "conn-1");
    assert!(session.is_active);
    assert_eq!(session.size, TerminalSize::default());
    assert!(!manager.task_should_stop(&id));

    let actions = out.take_actions();
    assert_eq!(actions.len(), 2);
    match &actions[0] {
        HostAction::StartTask { terminal_id, kind, poll_millis } => {
            assert_eq!(terminal_id, &id);
            assert_eq!(*kind, TaskKind::Output);
            assert_eq!(*poll_millis, 1000);
        },
        other => panic!("unexpected action {:?}", other),
    }
    match &actions[1] {
        HostAction::StartTask { terminal_id, kind, poll_millis } => {
            assert_eq!(terminal_id, &id);
            assert_eq!(*kind, TaskKind::Input);
            assert_eq!(*poll_millis, 100);
        },
        other => panic!("unexpected action {:?}", other),
    }
    assert!(out.actions.is_empty());

    match out.events.receive() {
        Some(SSHEvent::TerminalCreated(c, t)) => {
            assert_eq!(c, "conn-1");
            assert_eq!(t, id);
        },
        other => panic!("unexpected event {:?}", other),
    }
    assert!(out.events.receive().is_none());
}

#[test]
fn input_needs_an_attached_channel() {
    let mut out = Outbox::new(10);
    let mut manager = TerminalSessionManager::new();
    let id = manager.create_session("conn-1".to_string(), &mut out).unwrap();
    out.take_actions();

    let result = manager.send_input(&id, b"ls\n", &mut out);
    assert_eq!(result.unwrap_err(), "SSH channel not available");
    assert!(out.actions.is_empty());

    assert!(manager.attach_channel(&id, 7).is_ok());
    assert!(manager.send_input(&id, b"ls\n", &mut out).is_ok());
    assert!(manager.send_input(&id, b"", &mut out).is_ok());
    assert!(manager.send_input(&id, b"pwd\n", &mut out).is_ok());

    let actions = out.take_actions();
    assert_eq!(actions.len(), 3);
    let mut sent: Vec<(u32, Vec<u8>)> = Vec::new();
    for a in &actions {
        match a {
            HostAction::SendData { channel, data } => sent.push((*channel, data.clone())),
            other => panic!("unexpected action {:?}", other),
        }
    }
    assert_eq!(sent, vec![(7, b"ls\n".to_vec()), (7, Vec::new()), (7, b"pwd\n".to_vec())]);
}

#[test]
fn resize_is_read_back_exactly() {
    let mut out = Outbox::new(10);
    let mut manager = TerminalSessionManager::new();
    let id = manager.create_session("conn-1".to_string(), &mut out).unwrap();
    let other = manager.create_session("conn-1".to_string(), &mut out).unwrap();
    out.take_actions();
    out.events.drain();

    assert!(manager.resize_terminal(&id, 120, 30, 960, 600, &mut out).is_ok());

    let size = manager.get_session(&id).unwrap().size;
    assert_eq!(size, TerminalSize { cols: 120, rows: 30, pixel_width: 960, pixel_height: 600 });
    assert_eq!(manager.get_session(&other).unwrap().size, TerminalSize::default());
    assert!(out.actions.is_empty());
    match out.events.receive() {
        Some(SSHEvent::TerminalResized(c, t, cols, rows)) => {
            assert_eq!(c, "conn-1");
            assert_eq!(t, id);
            assert_eq!(cols, 120);
            assert_eq!(rows, 30);
        },
        other => panic!("unexpected event {:?}", other),
    }
    assert!(out.events.is_empty());
}

#[test]
fn resize_tells_the_attached_channel() {
    let mut out = Outbox::new(10);
    let mut manager = TerminalSessionManager::new();
    let id = manager.create_session("conn-1".to_string(), &mut out).unwrap();
    manager.attach_channel(&id, 4).unwrap();
    out.take_actions();
    out.events.drain();

    manager.resize_terminal(&id, 65535, 1, 0, 600, &mut out).unwrap();
    let actions = out.take_actions();
    assert_eq!(actions.len(), 1);
    match &actions[0] {
        HostAction::WindowChange { channel, cols, rows, pixel_width, pixel_height } => {
            assert_eq!((*channel, *cols, *rows, *pixel_width, *pixel_height), (4, 65535, 1, 0, 600));
        },
        other => panic!("unexpected action {:?}", other),
    }
    assert!(out.events.is_empty());

    let failed = manager.complete_resize(&id, Err("broken".to_string()), &mut out);
    assert_eq!(failed.unwrap_err(), "Failed to resize SSH channel: broken");
    assert!(out.events.is_empty());
    assert!(out.actions.is_empty());

    assert!(manager.complete_resize(&id, Ok(()), &mut out).is_ok());
    match out.events.receive() {
        Some(SSHEvent::TerminalResized(c, t, cols, rows)) => {
            assert_eq!(c, "conn-1");
            assert_eq!(t, id);
            assert_eq!(cols, 65535);
            assert_eq!(rows, 1);
        },
        other => panic!("unexpected event {:?}", other),
    }
    assert!(out.events.is_empty());

    assert_eq!(
        manager.complete_resize("gone", Ok(()), &mut out).unwrap_err(),
        "Terminal session gone not found"
    );
    assert_eq!(
        manager.complete_resize("gone", Err("x".to_string()), &mut out).unwrap_err(),
        "Failed to resize SSH channel: x"
    );
    assert!(out.events.is_empty());
}

#[test]
fn a_session_opened_with_an_identity_carries_it() {
    let mut out = Outbox::new(10);
    let mut manager = TerminalSessionManager::new();
    let id = manager
        .create_session_with("conn-1".to_string(), "term-1".to_string(), 1234, &mut out)
        .unwrap();
    assert_eq!(id, "term-1");
    let session = manager.get_session("term-1").unwrap();
    assert_eq!(session.created_at, 1234);
    assert_eq!(session.connection_id, "conn-1");
    assert_eq!(session.size, TerminalSize::default());
    assert!(session.is_active);

    manager.resize_terminal("term-1", 120, 30, 960, 600, &mut out).unwrap();
    let resized = manager.get_session("term-1").unwrap();
    assert_eq!(resized.created_at, 1234);
    assert_eq!(resized.id, "term-1");
    assert_eq!(resized.connection_id, "conn-1");
    assert!(resized.is_active);
    assert_eq!(
        resized.size,
        TerminalSize { cols: 120, rows: 30, pixel_width: 960, pixel_height: 600 }
    );
    let listed = manager.list_sessions_for_connection("conn-1");
    assert_eq!(listed.len(), 1);
    assert_eq!(listed[0].created_at, 1234);

    let again = manager
        .create_session_with("conn-2".to_string(), "term-1".to_string(), 99, &mut out)
        .unwrap();
    assert_eq!(again, "term-1");
    assert!(manager.list_sessions_for_connection("conn-1").is_empty());
    assert_eq!(manager.get_session("term-1").unwrap().created_at, 99);
}

#[test]
fn close_session_tears_down_in_order() {
    let mut out = Outbox::new(10);
    let mut manager = TerminalSessionManager::new();
    let id = manager.create_session("conn-1".to_string(), &mut out).unwrap();
    manager.attach_channel(&id, 9).unwrap();
    out.take_actions();
    out.events.drain();

    assert!(manager.close_session(&id, &mut out).is_ok());
    assert!(manager.get_session(&id).is_none());
    assert!(manager.task_should_stop(&id));

    let actions = out.take_actions();
    assert_eq!(actions.len(), 3);
    assert!(matches!(&actions[0], HostAction::CloseChannel { channel: 9 }));
    match &actions[1] {
        HostAction::AbortTask { terminal_id, kind } => {
            assert_eq!(terminal_id, &id);
            assert_eq!(*kind, TaskKind::Input);
        },
        other => panic!("unexpected action {:?}", other),
    }
    match &actions[2] {
        HostAction::AbortTask { terminal_id, kind } => {
            assert_eq!(terminal_id, &id);
            assert_eq!(*kind, TaskKind::Output);
        },
        other => panic!("unexpected action {:?}", other),
    }
    let events = out.events.drain();
    assert_eq!(closed_pairs(&events), vec![("conn-1".to_string(), id.clone())]);
    assert_eq!(events.len(), 1);

    let again = manager.close_session(&id, &mut out);
    assert_eq!(again.unwrap_err(), format!("Terminal session {} not found", id));
    assert!(out.events.is_empty());
    assert!(out.actions.is_empty());
}

#[test]
fn closing_all_sessions_of_a_connection_spares_the_others() {
    let mut out = Outbox::new(100);
    let mut manager = TerminalSessionManager::new();
    let a1 = manager.create_session("a".to_string(), &mut out).unwrap();
    let b1 = manager.create_session("b".to_string(), &mut out).unwrap();
    let a2 = manager.create_session("a".to_string(), &mut out).unwrap();
    let a3 = manager.create_session("a".to_string(), &mut out).unwrap();
    out.take_actions();
    out.events.drain();

    let listed: Vec<String> =
        manager.list_sessions_for_connection("a").iter().map(|s| s.id.clone()).collect();
    assert_eq!(listed, vec![a1.clone(), a2.clone(), a3.clone()]);

    assert!(manager.close_all_sessions_for_connection("a", &mut out).is_ok());

    assert!(manager.list_sessions_for_connection("a").is_empty());
    let left: Vec<String> =
        manager.list_sessions_for_connection("b").iter().map(|s| s.id.clone()).collect();
    assert_eq!(left, vec![b1.clone()]);
    assert!(manager.get_session(&b1).is_some());

    let events = out.events.drain();
    assert_eq!(events.len(), 3);
    assert_eq!(
        closed_pairs(&events),
        vec![("a".to_string(), a1), ("a".to_string(), a2), ("a".to_string(), a3)]
    );
    assert_eq!(out.take_actions().len(), 6);

    assert!(manager.close_all_sessions_for_connection("a", &mut out).is_ok());
    assert!(out.events.is_empty());
    assert!(out.actions.is_empty());
}

#[test]
fn starting_tasks_of_an_unknown_session_only_asks_the_host() {
    let mut out = Outbox::new(10);
    let mut manager = TerminalSessionManager::new();
    assert!(manager.start_io_tasks("ghost", "conn", &mut out).is_ok());
    assert_eq!(out.take_actions().len(), 2);
    assert!(manager.get_session("ghost").is_none());
    assert!(manager.task_should_stop("ghost"));
}

#[test]
fn the_bus_keeps_order_and_discards_when_full() {
    let mut bus = EventBus::new(2);
    assert_eq!(bus.capacity(), 2);
    assert!(bus.is_empty());
    assert!(bus.send(SSHEvent::Connected("a".to_string())));
    assert!(bus.send(SSHEvent::Connected("b".to_string())));
    assert!(!bus.send(SSHEvent::Connected("c".to_string())));
    assert_eq!(bus.len(), 2);

    match bus.receive() {
        Some(SSHEvent::Connected(id)) => assert_eq!(id, "a"),
        other => panic!("unexpected event {:?}", other),
    }
    assert_eq!(bus.len(), 1);
    assert!(bus.send(SSHEvent::Disconnected("d".to_string())));
    let rest = bus.drain();
    assert_eq!(rest.len(), 2);
    assert!(matches!(&rest[0], SSHEvent::Connected(id) if id == "b"));
    assert!(matches!(&rest[1], SSHEvent::Disconnected(id) if id == "d"));
    assert!(bus.is_empty());
    assert!(bus.receive().is_none());
    assert!(bus.drain().is_empty());
}

#[test]
fn a_bus_without_room_discards_everything() {
    let mut bus = EventBus::new(0);
    assert!(!bus.send(SSHEvent::Connected("a".to_string())));
    assert!(bus.is_empty());
}

#[test]
fn only_writes_report_their_failure_through_the_action() {
    let send = HostAction::SendData { channel: 1, data: vec![1, 2] };
    assert_eq!(
        send.failure("broken pipe"),
        Some("Failed to send data to SSH channel: broken pipe".to_string())
    );
    let resize =
        HostAction::WindowChange { channel: 1, cols: 1, rows: 1, pixel_width: 1, pixel_height: 1 };
    assert_eq!(resize.failure("gone"), None);
    assert_eq!(HostAction::CloseChannel { channel: 1 }.failure("x"), None);
    assert_eq!(HostAction::CloseTransport { connection_id: "c".to_string() }.failure("x"), None);
    assert_eq!(
        HostAction::AbortTask { terminal_id: "t".to_string(), kind: TaskKind::Input }.failure("x"),
        None
    );
    assert_eq!(
        HostAction::StartTask {
            terminal_id: "t".to_string(),
            kind: TaskKind::Output,
            poll_millis: 1000
        }
        .failure("x"),
        None
    );
}

#[test]
fn events_can_be_copied() {
    let event = SSHEvent::Data("c".to_string(), vec![0, 255]);
    match event.clone() {
        SSHEvent::Data(c, bytes) => {
            assert_eq!(c, "c");
            assert_eq!(bytes, vec![0, 255]);
        },
        other => panic!("unexpected event {:?}", other),
    }
    let resized = SSHEvent::TerminalResized("c".to_string(), "t".to_string(), 3, 4);
    assert!(matches!(resized.clone(), SSHEvent::TerminalResized(_, _, 3, 4)));
}
