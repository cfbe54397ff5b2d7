use hana_ssh::ssh::connection::{
    validation_failure_message,
    ConnectFailure,
    ConnectOutcome,
    Credentials,
    SSHClient,
    SSHConnection,
    ServerKeyPolicy,
};
use hana_ssh::ssh::outbox::{HostAction, Outbox};
use hana_ssh::ssh::types::{AuthMethod, SSHConnectionConfig, SSHEvent, ValidationError};

fn create_test_config() -> SSHConnectionConfig {
    SSHConnectionConfig {
        id: "test-connection".to_string(),
        name: "Test Connection".to_string(),
        hostname: "localhost".to_string(),
        port: 22,
        username: "testuser".to_string(),
        auth_method: AuthMethod::Password,
        private_key_path: None,
        password: Some("testpass".to_string()),
    }
}

fn create_test_config_pubkey() -> SSHConnectionConfig {
    SSHConnectionConfig {
        id: "test-connection-key".to_string(),
        name: "Test Connection Key".to_string(),
        hostname: "localhost".to_string(),
        port: 22,
        username: "testuser".to_string(),
        auth_method: AuthMethod::PublicKey,
        private_key_path: Some("/tmp/test_key".to_string()),
        password: None,
    }
}

fn connected() -> (SSHConnection, Outbox) {
    let mut out = Outbox::new(100);
    let mut connection = SSHConnection::new(create_test_config());
    connection.connect(&mut out).unwrap();
    connection.complete_connect(ConnectOutcome::Authenticated, &mut out).unwrap();
    out.events.drain();
    out.take_actions();
    (connection, out)
}

fn error_event(out: &mut Outbox) -> (String, String) {
    match out.events.receive() {
        Some(SSHEvent::Error(c, m)) => (c, m),
        other => panic!("unexpected event {:?}", other),
    }
}

#[test]
fn test_ssh_connection_creation() {
    let config = create_test_config();

    let connection = SSHConnection::new(config.clone());

    assert_eq!(connection.id, config.id);
    assert_eq!(connection.config.hostname, config.hostname);
    assert_eq!(connection.config.port, config.port);
    assert_eq!(connection.config.username, config.username);
    assert_eq!(connection.id(), "test-connection");
}

#[test]
fn test_ssh_connection_initial_state() {
    let connection = SSHConnection::new(create_test_config());

    assert!(!connection.is_connected());
}

#[test]
fn test_ssh_connection_validation_failure() {
    let mut config = create_test_config();
    config.hostname = "".to_string();

    let mut out = Outbox::new(10);
    let connection = SSHConnection::new(config);

    let result = connection.connect(&mut out);
    assert!(result.is_err());
    assert!(result.unwrap_err().contains("Configuration validation failed"));
}

#[test]
fn test_ssh_connection_invalid_address() {
    let mut config = create_test_config();
    config.hostname = "invalid-hostname-that-does-not-exist-12345".to_string();

    let mut out = Outbox::new(10);
    let mut connection = SSHConnection::new(config);

    let request = connection.connect(&mut out).unwrap();
    assert_eq!(request.address, "invalid-hostname-that-does-not-exist-12345:22");
    let result = connection
        .complete_connect(ConnectOutcome::Failed(ConnectFailure::InvalidAddress), &mut out);
    assert!(result.is_err());
    assert_eq!(
        result.unwrap_err(),
        "Invalid address format: invalid-hostname-that-does-not-exist-12345:22"
    );
    assert!(!connection.is_connected());
}

#[test]
fn test_ssh_connection_timeout() {
    let mut config = create_test_config();
    config.hostname = "192.0.2.1".to_string();
    config.port = 12345;

    let mut out = Outbox::new(10);
    let mut connection = SSHConnection::new(config);

    let request = connection.connect(&mut out).unwrap();
    assert_eq!(request.address, "192.0.2.1:12345");
    let result = connection.complete_connect(
        ConnectOutcome::Failed(ConnectFailure::Transport("connection timeout".to_string())),
        &mut out,
    );
    assert!(result.is_err());
    let error_msg = result.unwrap_err();
    assert!(
        error_msg.contains("timeout")
            || error_msg.contains("Failed to connect")
            || error_msg.contains("SSH connection failed")
    );
    assert_eq!(error_msg, "SSH connection failed: connection timeout");
}

#[test]
fn test_ssh_connection_missing_password() {
    let mut config = create_test_config();
    config.password = None;

    let mut out = Outbox::new(10);
    let connection = SSHConnection::new(config);

    let result = connection.connect(&mut out);
    assert!(result.is_err());
    assert!(result.unwrap_err().contains("Password is required"));
}

#[test]
fn test_ssh_connection_missing_private_key() {
    let mut config = create_test_config_pubkey();
    config.private_key_path = None;

    let mut out = Outbox::new(10);
    let connection = SSHConnection::new(config);

    let result = connection.connect(&mut out);
    assert!(result.is_err());
    assert!(result.unwrap_err().contains("Private key path is required"));
}

#[test]
fn test_ssh_connection_nonexistent_private_key() {
    let mut config = create_test_config_pubkey();
    config.private_key_path = Some("/nonexistent-directory-for-this-test/test_key".to_string());

    let mut out = Outbox::new(10);
    let connection = SSHConnection::new(config);

    let result = connection.connect(&mut out);
    assert!(result.is_err());
    assert!(result.unwrap_err().contains("Private key file does not exist"));
}

#[test]
fn test_disconnect_without_connection() {
    let mut out = Outbox::new(10);
    let mut connection = SSHConnection::new(create_test_config());

    let result = connection.disconnect(&mut out);
    assert!(result.is_ok());
}

#[test]
fn test_session_info_when_not_connected() {
    let connection = SSHConnection::new(create_test_config());

    let info = connection.get_session_info();
    assert!(info.is_none());
}

#[test]
fn connection_test_connection_state_management() {
    let connection = SSHConnection::new(create_test_config());

    assert!(!connection.is_connected());

    let info = connection.get_session_info();
    assert!(info.is_none());
}

#[test]
fn test_event_sending() {
    let mut out = Outbox::new(10);
    let mut connection = SSHConnection::new(create_test_config());

    if connection.connect(&mut out).is_ok() {
        let _ = connection
            .complete_connect(ConnectOutcome::Failed(ConnectFailure::InvalidAddress), &mut out);
    }

    let event = out.events.receive();
    assert!(event.is_some());
}

#[test]
fn test_auth_method_validation() {
    let mut config = create_test_config();
    config.password = Some("".to_string());

    let validation_result = config.validate();
    assert!(validation_result.is_err());

    let mut config = create_test_config_pubkey();
    config.private_key_path = Some("".to_string());

    let validation_result = config.validate();
    assert!(validation_result.is_err());

    let mut config = create_test_config();
    config.auth_method = AuthMethod::Agent;
    config.password = None;

    let validation_result = config.validate();
    assert!(validation_result.is_ok());
}

#[test]
fn test_terminal_session_methods_without_connection() {
    let mut out = Outbox::new(10);
    let mut connection = SSHConnection::new(create_test_config());

    let result = connection.create_terminal_session(&mut out);
    assert!(result.is_err());
    assert!(result.unwrap_err().contains("SSH session not available"));

    let result = connection.send_terminal_input("test", b"input", &mut out);
    assert!(result.is_err());

    let result = connection.resize_terminal("test", 80, 24, 640, 480, &mut out);
    assert!(result.is_err());

    let result = connection.close_terminal_session("test", &mut out);
    assert!(result.is_err());

    let session = connection.get_terminal_session("test");
    assert!(session.is_none());

    let sessions = connection.list_terminal_sessions();
    assert!(sessions.is_empty());
}

#[test]
fn test_terminal_manager_integration() {
    let connection = SSHConnection::new(create_test_config());

    let sessions = connection.list_terminal_sessions();
    assert!(sessions.is_empty());
}

#[test]
fn connect_answers_with_what_to_dial() {
    let mut out = Outbox::new(10);
    let connection = SSHConnection::new(create_test_config());

    let request = connection.connect(&mut out).unwrap();
    assert_eq!(request.address, "localhost:22");
    assert_eq!(request.username, "testuser");
    assert_eq!(request.inactivity_timeout_secs, 300);
    assert!(matches!(&request.credentials, Credentials::Password(p) if p == "testpass"));
    assert!(out.events.is_empty());
    assert!(out.actions.is_empty());
    assert!(!connection.is_connected());
}

#[test]
fn connect_with_passes_the_key_path_on() {
    let mut out = Outbox::new(10);
    let connection = SSHConnection::new(create_test_config_pubkey());
    let request = connection.connect_with(true, &mut out).unwrap();
    assert!(matches!(&request.credentials, Credentials::PublicKey(p) if p == "/tmp/test_key"));

    let missing = connection.connect_with(false, &mut out).unwrap_err();
    assert_eq!(
        missing,
        "Configuration validation failed: private_key_path: Private key file does not exist"
    );

    let mut agent = create_test_config();
    agent.auth_method = AuthMethod::Agent;
    agent.password = None;
    let request = SSHConnection::new(agent).connect(&mut out).unwrap();
    assert!(matches!(&request.credentials, Credentials::Agent));
}

#[test]
fn validation_failure_is_returned_and_announced_alike() {
    let mut config = create_test_config();
    config.name = String::new();
    config.hostname = String::new();
    let mut out = Outbox::new(10);
    let connection = SSHConnection::new(config);

    let message = connection.connect(&mut out).unwrap_err();
    assert_eq!(
        message,
        "Configuration validation failed: name: Connection name cannot be empty, hostname: Hostname cannot be empty"
    );
    let (id, announced) = error_event(&mut out);
    assert_eq!(id, "test-connection");
    assert_eq!(announced, message);
    assert!(out.events.is_empty());
}

#[test]
fn validation_failure_message_joins_with_commas() {
    let errors: Vec<ValidationError> = Vec::new();
    assert_eq!(validation_failure_message(&errors), "Configuration validation failed: ");
    let one = vec![ValidationError::new("a", "b")];
    assert_eq!(validation_failure_message(&one), "Configuration validation failed: a: b");
    let three = vec![
        ValidationError::new("a", "b"),
        ValidationError::new("c", "d"),
        ValidationError::new("e", "f"),
    ];
    assert_eq!(
        validation_failure_message(&three),
        "Configuration validation failed: a: b, c: d, e: f"
    );
}

#[test]
fn success_makes_the_connection_live() {
    let mut out = Outbox::new(10);
    let mut connection = SSHConnection::new(create_test_config());
    connection.connect(&mut out).unwrap();
    assert!(connection.complete_connect(ConnectOutcome::Authenticated, &mut out).is_ok());

    assert!(connection.is_connected());
    assert_eq!(
        connection.get_session_info(),
        Some("Connected to testuser@localhost:22".to_string())
    );
    match out.events.receive() {
        Some(SSHEvent::Connected(id)) => assert_eq!(id, "test-connection"),
        other => panic!("unexpected event {:?}", other),
    }
    assert!(out.events.is_empty());
}

#[test]
fn every_failure_has_its_message_and_its_event() {
    let cases: Vec<(ConnectOutcome, &str)> = vec![
        (ConnectOutcome::Rejected, "Authentication failed: Invalid credentials"),
        (
            ConnectOutcome::Failed(ConnectFailure::InvalidAddress),
            "Invalid address format: localhost:22",
        ),
        (
            ConnectOutcome::Failed(ConnectFailure::Transport("refused".to_string())),
            "SSH connection failed: refused",
        ),
        (
            ConnectOutcome::Failed(ConnectFailure::Authentication("eof".to_string())),
            "Password authentication failed: eof",
        ),
        (
            ConnectOutcome::Failed(ConnectFailure::KeyFileMissing),
            "Private key file not found: ",
        ),
        (
            ConnectOutcome::Failed(ConnectFailure::KeyUnreadable("bad format".to_string())),
            "Failed to load private key: bad format",
        ),
        (
            ConnectOutcome::Failed(ConnectFailure::NotImplemented),
            "Password authentication not yet implemented",
        ),
    ];
    for (outcome, expected) in cases {
        let mut out = Outbox::new(10);
        let mut connection = SSHConnection::new(create_test_config());
        let message = connection.complete_connect(outcome, &mut out).unwrap_err();
        assert_eq!(message, expected);
        assert!(!connection.is_connected());
        assert!(connection.get_session_info().is_none());
        let (id, announced) = error_event(&mut out);
        assert_eq!(id, "test-connection");
        assert_eq!(announced, expected);
        assert!(out.events.is_empty());
    }
}

#[test]
fn failure_messages_follow_the_method() {
    let key = create_test_config_pubkey();
    assert_eq!(
        key.failure_message(&ConnectFailure::NotImplemented),
        "Public key authentication not yet fully implemented"
    );
    assert_eq!(
        key.failure_message(&ConnectFailure::KeyFileMissing),
        "Private key file not found: /tmp/test_key"
    );
    assert_eq!(
        key.failure_message(&ConnectFailure::Authentication("x".to_string())),
        "Public key authentication failed: x"
    );
    let mut agent = create_test_config();
    agent.auth_method = AuthMethod::Agent;
    assert_eq!(
        agent.failure_message(&ConnectFailure::NotImplemented),
        "SSH agent authentication not yet implemented"
    );
    assert_eq!(
        agent.failure_message(&ConnectFailure::Authentication("x".to_string())),
        "SSH agent authentication failed: x"
    );
}

#[test]
fn credentials_follow_the_method() {
    let mut config = create_test_config();
    assert!(matches!(config.credentials(), Ok(Credentials::Password(p)) if p == "testpass"));
    config.password = None;
    assert_eq!(
        config.credentials().unwrap_err(),
        "Password not provided for password authentication"
    );
    let mut key = create_test_config_pubkey();
    assert!(matches!(key.credentials(), Ok(Credentials::PublicKey(p)) if p == "/tmp/test_key"));
    key.private_key_path = None;
    assert_eq!(
        key.credentials().unwrap_err(),
        "Private key path not provided for public key authentication"
    );
}

#[test]
fn terminal_sessions_need_a_live_connection() {
    let mut out = Outbox::new(10);
    let mut connection = SSHConnection::new(create_test_config());
    let before = connection.list_terminal_sessions().len();

    let result = connection.create_terminal_session(&mut out);
    assert_eq!(result.unwrap_err(), "SSH session not available");
    assert_eq!(connection.list_terminal_sessions().len(), before);
    assert!(out.events.is_empty());
    assert!(out.actions.is_empty());

    let _ = connection.complete_connect(ConnectOutcome::Rejected, &mut out);
    out.events.drain();
    let result = connection.create_terminal_session(&mut out);
    assert_eq!(result.unwrap_err(), "SSH session not available");
    assert!(connection.list_terminal_sessions().is_empty());
    assert!(out.events.is_empty());
}

#[test]
fn terminal_sessions_live_on_a_connected_connection() {
    let (mut connection, mut out) = connected();

    let id = connection.create_terminal_session(&mut out).unwrap();
    let sessions = connection.list_terminal_sessions();
    assert_eq!(sessions.len(), 1);
    assert_eq!(sessions[0].id, id);
    assert_eq!(sessions[0].connection_id, "test-connection");
    assert!(!connection.task_should_stop(&id));

    assert!(connection.resize_terminal(&id, 120, 30, 960, 600, &mut out).is_ok());
    let session = connection.get_terminal_session(&id).unwrap();
    assert_eq!(
        (session.size.cols, session.size.rows, session.size.pixel_width, session.size.pixel_height),
        (120, 30, 960, 600)
    );

    assert_eq!(
        connection.send_terminal_input(&id, b"x", &mut out).unwrap_err(),
        "SSH channel not available"
    );
    connection.attach_channel(&id, 2).unwrap();
    assert!(connection.send_terminal_input(&id, b"x", &mut out).is_ok());

    assert!(connection.close_terminal_session(&id, &mut out).is_ok());
    assert!(connection.get_terminal_session(&id).is_none());
    assert!(connection.list_terminal_sessions().is_empty());
    assert!(connection.task_should_stop(&id));
}

#[test]
fn disconnect_cascades_and_is_idempotent() {
    let (mut connection, mut out) = connected();
    let t1 = connection.create_terminal_session(&mut out).unwrap();
    let t2 = connection.create_terminal_session(&mut out).unwrap();
    connection.attach_channel(&t1, 5).unwrap();
    connection.open_channel(11).unwrap();
    connection.open_channel(12).unwrap();
    connection.open_channel(11).unwrap();
    out.events.drain();
    out.take_actions();

    assert!(connection.disconnect(&mut out).is_ok());
    assert!(!connection.is_connected());
    assert!(connection.get_session_info().is_none());
    assert!(connection.list_terminal_sessions().is_empty());

    let events = out.events.drain();
    assert_eq!(events.len(), 3);
    assert!(matches!(&events[0], SSHEvent::TerminalClosed(c, t) if c == "test-connection" && t == &t1));
    assert!(matches!(&events[1], SSHEvent::TerminalClosed(c, t) if c == "test-connection" && t == &t2));
    assert!(matches!(&events[2], SSHEvent::Disconnected(c) if c == "test-connection"));

    let actions = out.take_actions();
    assert_eq!(actions.len(), 8);
    assert!(matches!(&actions[0], HostAction::CloseChannel { channel: 5 }));
    assert!(matches!(&actions[1], HostAction::AbortTask { terminal_id, .. } if terminal_id == &t1));
    assert!(matches!(&actions[2], HostAction::AbortTask { terminal_id, .. } if terminal_id == &t1));
    assert!(matches!(&actions[3], HostAction::AbortTask { terminal_id, .. } if terminal_id == &t2));
    assert!(matches!(&actions[4], HostAction::AbortTask { terminal_id, .. } if terminal_id == &t2));
    assert!(matches!(&actions[5], HostAction::CloseChannel { channel: 11 }));
    assert!(matches!(&actions[6], HostAction::CloseChannel { channel: 12 }));
    assert!(
        matches!(&actions[7], HostAction::CloseTransport { connection_id } if connection_id == "test-connection")
    );

    assert!(connection.disconnect(&mut out).is_ok());
    assert!(out.events.is_empty());
    assert!(out.actions.is_empty());
    assert_eq!(
        connection.create_terminal_session(&mut out).unwrap_err(),
        "SSH session not available"
    );
}

#[test]
fn disconnecting_a_fresh_connection_announces_nothing() {
    let mut out = Outbox::new(10);
    let mut connection = SSHConnection::new(create_test_config());
    assert!(connection.disconnect(&mut out).is_ok());
    assert!(connection.disconnect(&mut out).is_ok());
    assert!(out.events.is_empty());
    assert!(out.actions.is_empty());
}

#[test]
fn channels_need_a_session() {
    let mut connection = SSHConnection::new(create_test_config());
    assert_eq!(connection.open_channel(1).unwrap_err(), "SSH session not available");
}

#[test]
fn inbound_bytes_become_data_events_verbatim() {
    let mut out = Outbox::new(10);
    let client = SSHClient::new("c-9".to_string());
    assert!(client.check_server_key(b"any key"));
    assert!(client.check_server_key(b""));

    client.data(3, b"hello\r\n", &mut out);
    client.extended_data(3, 1, b"", &mut out);
    client.extended_data(4, 1, &[0, 255, 10], &mut out);

    let events = out.events.drain();
    assert_eq!(events.len(), 3);
    assert!(matches!(&events[0], SSHEvent::Data(c, b) if c == "c-9" && b == b"hello\r\n"));
    assert!(matches!(&events[1], SSHEvent::Data(c, b) if c == "c-9" && b.is_empty()));
    assert!(matches!(&events[2], SSHEvent::Data(c, b) if c == "c-9" && b == &vec![0u8, 255, 10]));
}

#[test]
fn pinned_host_keys_are_the_only_ones_accepted() {
    let policy = ServerKeyPolicy::Pinned(vec![vec![1, 2, 3], Vec::new(), vec![9]]);
    let client = SSHClient::with_policy("c".to_string(), policy);
    assert!(client.check_server_key(&[1, 2, 3]));
    assert!(client.check_server_key(&[]));
    assert!(client.check_server_key(&[9]));
    assert!(!client.check_server_key(&[1, 2]));
    assert!(!client.check_server_key(&[1, 2, 3, 4]));
    assert!(!client.check_server_key(&[3, 2, 1]));

    let nobody = SSHClient::with_policy("c".to_string(), ServerKeyPolicy::Pinned(Vec::new()));
    assert!(!nobody.check_server_key(&[1]));
    let anybody = SSHClient::with_policy("c".to_string(), ServerKeyPolicy::AcceptAny);
    assert!(anybody.check_server_key(&[1]));
}

#[test]
fn the_accessors_hand_out_the_public_fields() {
    let connection = SSHConnection::new(create_test_config());
    assert_eq!(connection.config().hostname, connection.config.hostname);
    assert_eq!(connection.config().id, "test-connection");
    assert_eq!(connection.config().port, 22);
    assert_eq!(connection.id(), connection.id);
}

#[test]
fn a_terminal_opened_with_an_identity_carries_it() {
    let (mut connection, mut out) = connected();
    let id = connection.create_terminal_session_with("t-1".to_string(), 4242, &mut out).unwrap();
    assert_eq!(id, "t-1");
    let session = connection.get_terminal_session("t-1").unwrap();
    assert_eq!(session.created_at, 4242);
    assert_eq!(session.connection_id, "test-connection");

    connection.attach_channel("t-1", 8).unwrap();
    out.events.drain();
    out.take_actions();
    connection.resize_terminal("t-1", 100, 40, 800, 640, &mut out).unwrap();
    assert!(out.events.is_empty());
    assert_eq!(out.take_actions().len(), 1);
    assert_eq!(connection.get_terminal_session("t-1").unwrap().created_at, 4242);
    assert_eq!(
        connection.complete_resize("t-1", Err("no".to_string()), &mut out).unwrap_err(),
        "Failed to resize SSH channel: no"
    );
    assert!(out.events.is_empty());
    connection.complete_resize("t-1", Ok(()), &mut out).unwrap();
    assert!(matches!(
        out.events.receive(),
        Some(SSHEvent::TerminalResized(c, t, 100, 40)) if c == "test-connection" && t == "t-1"
    ));

    let mut fresh = SSHConnection::new(create_test_config());
    assert_eq!(
        fresh.create_terminal_session_with("t".to_string(), 1, &mut out).unwrap_err(),
        "SSH session not available"
    );
}
