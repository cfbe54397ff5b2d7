use hana_ssh::ssh::types::{
    AuthMethod,
    ConnectionStatus,
    Resolution,
    SSHConnectionConfig,
    SSHConnectionState,
    ValidationError,
};

fn agent_config(hostname: &str) -> SSHConnectionConfig {
    SSHConnectionConfig {
        id: "test".to_string(),
        name: "Test".to_string(),
        hostname: hostname.to_string(),
        port: 22,
        username: "user".to_string(),
        auth_method: AuthMethod::Agent,
        private_key_path: None,
        password: None,
    }
}

#[test]
fn test_valid_ssh_config_password_auth() {
    let config = SSHConnectionConfig::new(
        "Test Server".to_string(),
        "example.com".to_string(),
        22,
        "testuser".to_string(),
        AuthMethod::Password,
        None,
        Some("password123".to_string()),
    );

    assert!(config.is_ok());
    let config = config.unwrap();
    assert_eq!(config.name, "Test Server");
    assert_eq!(config.hostname, "example.com");
    assert_eq!(config.port, 22);
    assert_eq!(config.username, "testuser");
    assert_eq!(config.auth_method, AuthMethod::Password);
}

#[test]
fn test_invalid_ssh_config_empty_name() {
    let config = SSHConnectionConfig::new(
        "".to_string(),
        "example.com".to_string(),
        22,
        "testuser".to_string(),
        AuthMethod::Password,
        None,
        Some("password123".to_string()),
    );

    assert!(config.is_err());
    let errors = config.unwrap_err();
    assert!(errors.iter().any(|e| e.field == "name"));
}

#[test]
fn test_invalid_ssh_config_empty_hostname() {
    let config = SSHConnectionConfig::new(
        "Test Server".to_string(),
        "".to_string(),
        22,
        "testuser".to_string(),
        AuthMethod::Password,
        None,
        Some("password123".to_string()),
    );

    assert!(config.is_err());
    let errors = config.unwrap_err();
    assert!(errors.iter().any(|e| e.field == "hostname"));
}

#[test]
fn test_invalid_ssh_config_zero_port() {
    let config = SSHConnectionConfig::new(
        "Test Server".to_string(),
        "example.com".to_string(),
        0,
        "testuser".to_string(),
        AuthMethod::Password,
        None,
        Some("password123".to_string()),
    );

    assert!(config.is_err());
    let errors = config.unwrap_err();
    assert!(errors.iter().any(|e| e.field == "port"));
}

#[test]
fn test_invalid_ssh_config_password_auth_no_password() {
    let config = SSHConnectionConfig::new(
        "Test Server".to_string(),
        "example.com".to_string(),
        22,
        "testuser".to_string(),
        AuthMethod::Password,
        None,
        None,
    );

    assert!(config.is_err());
    let errors = config.unwrap_err();
    assert!(errors.iter().any(|e| e.field == "password"));
}

#[test]
fn test_invalid_ssh_config_publickey_auth_no_key() {
    let config = SSHConnectionConfig::new(
        "Test Server".to_string(),
        "example.com".to_string(),
        22,
        "testuser".to_string(),
        AuthMethod::PublicKey,
        None,
        None,
    );

    assert!(config.is_err());
    let errors = config.unwrap_err();
    assert!(errors.iter().any(|e| e.field == "private_key_path"));
}

#[test]
fn test_valid_hostname_formats() {
    let config = agent_config("192.168.1.1");
    assert!(config.is_valid_hostname("192.168.1.1"));
    assert!(config.is_valid_hostname("example.com"));
    assert!(config.is_valid_hostname("sub.example.com"));
    assert!(config.is_valid_hostname("localhost"));
}

#[test]
fn test_invalid_hostname_formats() {
    let config = agent_config("");
    assert!(!config.is_valid_hostname(""));
    assert!(!config.is_valid_hostname("-invalid.com"));
    assert!(!config.is_valid_hostname("invalid-.com"));
    assert!(!config.is_valid_hostname("toolongdomainname".repeat(20).as_str()));
}

#[test]
fn types_test_connection_state_management() {
    let mut state = SSHConnectionState::new("test-id".to_string());

    assert_eq!(state.id, "test-id");
    assert_eq!(state.status, ConnectionStatus::Disconnected);
    assert!(!state.is_active());
    assert!(!state.has_error());

    state.update_status(ConnectionStatus::Connecting);
    assert_eq!(state.status, ConnectionStatus::Connecting);
    assert!(state.is_active());

    state.update_status(ConnectionStatus::Connected);
    assert_eq!(state.status, ConnectionStatus::Connected);
    assert!(state.is_active());

    state.set_error("Connection failed".to_string());
    assert_eq!(state.status, ConnectionStatus::Error);
    assert!(!state.is_active());
    assert!(state.has_error());
    assert_eq!(state.error, Some("Connection failed".to_string()));
}

#[test]
fn test_auth_method_properties() {
    assert!(AuthMethod::Password.requires_password());
    assert!(!AuthMethod::Password.requires_private_key());

    assert!(!AuthMethod::PublicKey.requires_password());
    assert!(AuthMethod::PublicKey.requires_private_key());

    assert!(!AuthMethod::Agent.requires_password());
    assert!(!AuthMethod::Agent.requires_private_key());
}

#[test]
fn test_connection_status_properties() {
    assert!(ConnectionStatus::Connected.is_active());
    assert!(ConnectionStatus::Connecting.is_active());
    assert!(!ConnectionStatus::Disconnected.is_active());
    assert!(!ConnectionStatus::Error.is_active());

    assert!(ConnectionStatus::Disconnected.is_terminal());
    assert!(ConnectionStatus::Error.is_terminal());
    assert!(!ConnectionStatus::Connected.is_terminal());
    assert!(!ConnectionStatus::Connecting.is_terminal());
}

#[test]
fn descriptions_are_the_documented_texts() {
    assert_eq!(AuthMethod::Password.description(), "Password authentication");
    assert_eq!(AuthMethod::PublicKey.description(), "Public key authentication");
    assert_eq!(AuthMethod::Agent.description(), "SSH agent authentication");
    assert_eq!(ConnectionStatus::Connecting.description(), "Establishing connection...");
    assert_eq!(ConnectionStatus::Connected.description(), "Connected");
    assert_eq!(ConnectionStatus::Disconnected.description(), "Disconnected");
    assert_eq!(ConnectionStatus::Error.description(), "Connection error");
}

#[test]
fn validation_error_reads_field_colon_message() {
    let error = ValidationError::new("port", "Port must be greater than 0");
    assert_eq!(error.field, "port");
    assert_eq!(error.message, "Port must be greater than 0");
    assert_eq!(error.to_string(), "port: Port must be greater than 0");
    let copy = error.clone();
    assert_eq!(copy.to_string(), error.to_string());
}

#[test]
fn validation_reports_every_violation_in_order() {
    let config = SSHConnectionConfig {
        id: String::new(),
        name: "  ".to_string(),
        hostname: "bad_host".to_string(),
        port: 0,
        username: "\t".to_string(),
        auth_method: AuthMethod::Password,
        private_key_path: None,
        password: Some(String::new()),
    };
    let errors = config.validate().unwrap_err();
    let lines: Vec<String> = errors.iter().map(|e| e.to_string()).collect();
    assert_eq!(
        lines,
        vec![
            "name: Connection name cannot be empty".to_string(),
            "hostname: Invalid hostname format".to_string(),
            "port: Port must be greater than 0".to_string(),
            "username: Username cannot be empty".to_string(),
            "password: Password is required for password authentication".to_string(),
        ]
    );
}

#[test]
fn blank_hostname_is_reported_as_empty_not_as_malformed() {
    let errors = agent_config(" \n").validate().unwrap_err();
    assert_eq!(errors.len(), 1);
    assert_eq!(errors[0].field, "hostname");
    assert_eq!(errors[0].message, "Hostname cannot be empty");
}

#[test]
fn agent_authentication_needs_nothing_more() {
    assert!(agent_config("example.com").validate().is_ok());
    assert!(agent_config("example.com").validate_with(false).is_ok());
    assert!(!agent_config("example.com").needs_key_file());
}

#[test]
fn password_may_be_whitespace_but_not_empty() {
    let mut config = agent_config("example.com");
    config.auth_method = AuthMethod::Password;
    config.password = Some(" ".to_string());
    assert!(config.validate().is_ok());
    config.password = Some(String::new());
    let errors = config.validate().unwrap_err();
    assert_eq!(errors.len(), 1);
    assert_eq!(errors[0].field, "password");
}

#[test]
fn public_key_rules_follow_the_key_file() {
    let mut config = agent_config("example.com");
    config.auth_method = AuthMethod::PublicKey;

    config.private_key_path = None;
    let errors = config.validate_with(true).unwrap_err();
    assert_eq!(
        errors[0].to_string(),
        "private_key_path: Private key path is required for public key authentication"
    );
    assert!(!config.needs_key_file());

    config.private_key_path = Some("   ".to_string());
    let errors = config.validate_with(true).unwrap_err();
    assert_eq!(errors[0].to_string(), "private_key_path: Private key path cannot be empty");
    assert!(!config.needs_key_file());

    config.private_key_path = Some("/home/user/.ssh/id_ed25519".to_string());
    assert!(config.needs_key_file());
    assert!(config.validate_with(true).is_ok());
    let errors = config.validate_with(false).unwrap_err();
    assert_eq!(errors.len(), 1);
    assert_eq!(errors[0].to_string(), "private_key_path: Private key file does not exist");
}

#[test]
fn validate_looks_for_the_key_file_on_disk() {
    let mut config = agent_config("example.com");
    config.auth_method = AuthMethod::PublicKey;
    config.private_key_path = Some("/nonexistent-directory-for-this-test/id_rsa".to_string());
    let errors = config.validate().unwrap_err();
    assert_eq!(errors[0].message, "Private key file does not exist");

    config.private_key_path = Some("/".to_string());
    assert!(config.validate().is_ok());
}

#[test]
fn new_assigns_a_random_id() {
    let make = || {
        SSHConnectionConfig::new(
            "Test Server".to_string(),
            "example.com".to_string(),
            22,
            "testuser".to_string(),
            AuthMethod::Agent,
            None,
            None,
        )
        .unwrap()
    };
    let first = make();
    let second = make();
    assert_eq!(first.id.len(), 36);
    assert_eq!(first.id.matches('-').count(), 4);
    assert_ne!(first.id, second.id);
}

#[test]
fn address_joins_host_and_port() {
    let mut config = agent_config("example.com");
    assert_eq!(config.address(), "example.com:22");
    config.port = 65535;
    assert_eq!(config.address(), "example.com:65535");
    config.port = 0;
    assert_eq!(config.address(), "example.com:0");
    config.hostname = "192.0.2.1".to_string();
    config.port = 12345;
    assert_eq!(config.address(), "192.0.2.1:12345");
}

#[test]
fn connectivity_needs_at_least_one_address() {
    let config = agent_config("example.com");
    assert!(config.validate_connectivity(Resolution::Addresses(1)).is_ok());
    assert!(config.validate_connectivity(Resolution::Addresses(3)).is_ok());

    let none = config.validate_connectivity(Resolution::Addresses(0)).unwrap_err();
    assert_eq!(none.field, "hostname");
    assert_eq!(none.message, "Unable to resolve hostname");

    let failed = config.validate_connectivity(Resolution::Failed).unwrap_err();
    assert_eq!(failed.field, "hostname");
    assert_eq!(failed.message, "Invalid hostname or port combination");
}

#[test]
fn state_transitions_keep_error_and_status_together() {
    let mut state = SSHConnectionState::new_at("c1".to_string(), 10);
    assert_eq!(state.last_activity, 10);
    assert_eq!(state.status, ConnectionStatus::Disconnected);
    assert_eq!(state.error, None);

    state.set_error_at("boom".to_string(), 20);
    assert_eq!(state.status, ConnectionStatus::Error);
    assert_eq!(state.error, Some("boom".to_string()));
    assert_eq!(state.last_activity, 20);
    assert!(state.has_error());

    state.update_status_at(ConnectionStatus::Connecting, 30);
    assert_eq!(state.status, ConnectionStatus::Connecting);
    assert_eq!(state.error, None);
    assert_eq!(state.last_activity, 30);
    assert_eq!(state.id, "c1");

    state.update_activity_at(40);
    assert_eq!(state.status, ConnectionStatus::Connecting);
    assert_eq!(state.last_activity, 40);

    let copy = state.clone();
    assert_eq!(copy.id, "c1");
    assert_eq!(copy.status, ConnectionStatus::Connecting);
    assert_eq!(copy.last_activity, 40);
}

#[test]
fn the_clock_stamps_state_changes() {
    let mut state = SSHConnectionState::new("c1".to_string());
    assert!(state.last_activity > 1_500_000_000_000);
    state.last_activity = 0;
    state.update_activity();
    assert!(state.last_activity > 1_500_000_000_000);
    state.last_activity = 0;
    state.update_status(ConnectionStatus::Connected);
    assert!(state.last_activity > 1_500_000_000_000);
    state.last_activity = 0;
    state.set_error("x".to_string());
    assert!(state.last_activity > 1_500_000_000_000);
}
