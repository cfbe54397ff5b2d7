//! The data the engine works on: connection settings and their validation,
//! the externally visible connection state, terminal sessions and events.

use vstd::prelude::*;
use crate::hostname::{hostname_is_valid, is_valid_hostname};
use crate::platform::{current_time_millis, fresh_identifier, path_exists};
use crate::text::{blank, concat2, concat3, decimal, decimal_text, is_blank};

verus! {

/// How a connection authenticates to its host.
#[derive(Debug, Clone, Copy, PartialEq, Eq, Structural)]
pub enum AuthMethod {
    Password,
    PublicKey,
    Agent,
}

impl AuthMethod {
    pub open spec fn description_text(self) -> Seq<char> {
        match self {
            AuthMethod::Password => "Password authentication"@,
            AuthMethod::PublicKey => "Public key authentication"@,
            AuthMethod::Agent => "SSH agent authentication"@,
        }
    }

    /// A human-readable description of the authentication method.
    pub fn description(&self) -> (text: &'static str)
        ensures
            text@ == self.description_text(),
    {
        match self {
            AuthMethod::Password => "Password authentication",
            AuthMethod::PublicKey => "Public key authentication",
            AuthMethod::Agent => "SSH agent authentication",
        }
    }

    /// Whether this method needs a password.
    pub fn requires_password(&self) -> (r: bool)
        ensures
            r == (*self is Password),
    {
        matches!(self, AuthMethod::Password)
    }

    /// Whether this method needs a private key file.
    pub fn requires_private_key(&self) -> (r: bool)
        ensures
            r == (*self is PublicKey),
    {
        matches!(self, AuthMethod::PublicKey)
    }
}

/// Where a connection stands in its lifecycle.
#[derive(Debug, Clone, Copy, PartialEq, Eq, Structural)]
pub enum ConnectionStatus {
    Connecting,
    Connected,
    Disconnected,
    Error,
}

impl ConnectionStatus {
    pub open spec fn description_text(self) -> Seq<char> {
        match self {
            ConnectionStatus::Connecting => "Establishing connection..."@,
            ConnectionStatus::Connected => "Connected"@,
            ConnectionStatus::Disconnected => "Disconnected"@,
            ConnectionStatus::Error => "Connection error"@,
        }
    }

    /// Whether the connection is up or coming up.
    pub fn is_active(&self) -> (r: bool)
        ensures
            r == (*self is Connected || *self is Connecting),
    {
        matches!(self, ConnectionStatus::Connected | ConnectionStatus::Connecting)
    }

    /// Whether the connection has come to rest, failed or closed.
    pub fn is_terminal(&self) -> (r: bool)
        ensures
            r == (*self is Error || *self is Disconnected),
    {
        matches!(self, ConnectionStatus::Error | ConnectionStatus::Disconnected)
    }

    /// A human-readable description of the status.
    pub fn description(&self) -> (text: &'static str)
        ensures
            text@ == self.description_text(),
    {
        match self {
            ConnectionStatus::Connecting => "Establishing connection...",
            ConnectionStatus::Connected => "Connected",
            ConnectionStatus::Disconnected => "Disconnected",
            ConnectionStatus::Error => "Connection error",
        }
    }
}

/// One violated rule of a configuration: the field and what is wrong with it.
#[derive(Debug)]
pub struct ValidationError {
    pub field: String,
    pub message: String,
}

pub struct ValidationErrorView {
    pub field: Seq<char>,
    pub message: Seq<char>,
}

impl ValidationErrorView {
    /// The error as one line: the field, a colon, the message.
    pub open spec fn text(self) -> Seq<char> {
        self.field + ": "@ + self.message
    }
}

impl View for ValidationError {
    type V = ValidationErrorView;

    open spec fn view(&self) -> ValidationErrorView {
        ValidationErrorView { field: self.field@, message: self.message@ }
    }
}

impl Clone for ValidationError {
    fn clone(&self) -> (r: ValidationError)
        ensures
            r@ == self@,
    {
        ValidationError { field: self.field.clone(), message: self.message.clone() }
    }
}

impl ValidationError {
    pub fn new(field: &str, message: &str) -> (e: ValidationError)
        ensures
            e@ == (ValidationErrorView { field: field@, message: message@ }),
    {
        ValidationError { field: field.to_string(), message: message.to_string() }
    }

    /// The error as one line: the field, a colon, the message.
    pub fn to_string(&self) -> (line: String)
        ensures
            line@ == self@.text(),
    {
        concat3(self.field.as_str(), ": ", self.message.as_str())
    }
}

/// The views of a list of errors, in order.
pub open spec fn error_views(errors: Seq<ValidationError>) -> Seq<ValidationErrorView> {
    errors.map_values(|e: ValidationError| e@)
}

/// Some error in the list is about `field`.
pub open spec fn reports(errors: Seq<ValidationErrorView>, field: Seq<char>) -> bool {
    exists|i: int| 0 <= i < errors.len() && (#[trigger] errors[i]).field == field
}

/// How to reach a host and authenticate to it.
#[derive(Debug)]
pub struct SSHConnectionConfig {
    pub id: String,
    pub name: String,
    pub hostname: String,
    pub port: u16,
    pub username: String,
    pub auth_method: AuthMethod,
    pub private_key_path: Option<String>,
    pub password: Option<String>,
}

pub struct ConfigView {
    pub id: Seq<char>,
    pub name: Seq<char>,
    pub hostname: Seq<char>,
    pub port: u16,
    pub username: Seq<char>,
    pub auth_method: AuthMethod,
    pub private_key_path: Option<Seq<char>>,
    pub password: Option<Seq<char>>,
}

/// The text held by an optional string.
pub open spec fn option_text(s: Option<String>) -> Option<Seq<char>> {
    match s {
        Some(t) => Some(t@),
        None => None,
    }
}

pub fn clone_option_text(s: &Option<String>) -> (r: Option<String>)
    ensures
        option_text(r) == option_text(*s),
{
    match s {
        Some(t) => Some(t.clone()),
        None => None,
    }
}

impl View for SSHConnectionConfig {
    type V = ConfigView;

    open spec fn view(&self) -> ConfigView {
        ConfigView {
            id: self.id@,
            name: self.name@,
            hostname: self.hostname@,
            port: self.port,
            username: self.username@,
            auth_method: self.auth_method,
            private_key_path: option_text(self.private_key_path),
            password: option_text(self.password),
        }
    }
}

impl Clone for SSHConnectionConfig {
    fn clone(&self) -> (r: SSHConnectionConfig)
        ensures
            r@ == self@,
    {
        SSHConnectionConfig {
            id: self.id.clone(),
            name: self.name.clone(),
            hostname: self.hostname.clone(),
            port: self.port,
            username: self.username.clone(),
            auth_method: self.auth_method,
            private_key_path: clone_option_text(&self.private_key_path),
            password: clone_option_text(&self.password),
        }
    }
}

pub open spec fn violation(field: &str, message: &str) -> ValidationErrorView {
    ValidationErrorView { field: field@, message: message@ }
}

impl ConfigView {
    pub open spec fn name_errors(self) -> Seq<ValidationErrorView> {
        if blank(self.name) {
            seq![violation("name", "Connection name cannot be empty")]
        } else {
            seq![]
        }
    }

    pub open spec fn hostname_errors(self) -> Seq<ValidationErrorView> {
        if blank(self.hostname) {
            seq![violation("hostname", "Hostname cannot be empty")]
        } else if !is_valid_hostname(self.hostname) {
            seq![violation("hostname", "Invalid hostname format")]
        } else {
            seq![]
        }
    }

    pub open spec fn port_errors(self) -> Seq<ValidationErrorView> {
        if self.port == 0 {
            seq![violation("port", "Port must be greater than 0")]
        } else {
            seq![]
        }
    }

    pub open spec fn username_errors(self) -> Seq<ValidationErrorView> {
        if blank(self.username) {
            seq![violation("username", "Username cannot be empty")]
        } else {
            seq![]
        }
    }

    /// Password authentication without a password, or with an empty one.
    pub open spec fn password_missing(self) -> bool {
        self.auth_method is Password && (self.password matches Some(p) ==> p.len() == 0)
    }

    /// Public key authentication without a key path, or with a blank one.
    pub open spec fn key_path_missing(self) -> bool {
        self.auth_method is PublicKey && (self.private_key_path matches Some(p) ==> blank(p))
    }

    /// Whether validation has to look for the key file on disk.
    pub open spec fn needs_key_file(self) -> bool {
        self.auth_method is PublicKey && !self.key_path_missing()
    }

    pub open spec fn auth_errors(self, key_file_present: bool) -> Seq<ValidationErrorView> {
        match self.auth_method {
            AuthMethod::Password => {
                if self.password_missing() {
                    seq![
                        violation("password", "Password is required for password authentication"),
                    ]
                } else {
                    seq![]
                }
            },
            AuthMethod::PublicKey => {
                match self.private_key_path {
                    Some(path) => {
                        if blank(path) {
                            seq![violation("private_key_path", "Private key path cannot be empty")]
                        } else if !key_file_present {
                            seq![violation("private_key_path", "Private key file does not exist")]
                        } else {
                            seq![]
                        }
                    },
                    None => seq![
                        violation(
                            "private_key_path",
                            "Private key path is required for public key authentication",
                        ),
                    ],
                }
            },
            AuthMethod::Agent => seq![],
        }
    }

    /// Every violated rule, in the order name, hostname, port, username,
    /// authentication. `key_file_present` says whether the private key file
    /// is there; it matters only where `needs_key_file` holds.
    pub open spec fn validation_errors(self, key_file_present: bool) -> Seq<ValidationErrorView> {
        self.name_errors() + self.hostname_errors() + self.port_errors() + self.username_errors()
            + self.auth_errors(key_file_present)
    }

    /// The address to dial: the host name, a colon, the port in decimal.
    pub open spec fn address(self) -> Seq<char> {
        self.hostname + ":"@ + decimal(self.port as nat)
    }
}

/// `r` is what validation returns for `config` when the key file is present
/// or absent as `key_file_present` says: success where no rule is violated,
/// else all violations together.
pub open spec fn validation_outcome(
    r: Result<(), Vec<ValidationError>>,
    config: ConfigView,
    key_file_present: bool,
) -> bool {
    match r {
        Ok(_) => config.validation_errors(key_file_present).len() == 0,
        Err(errors) => errors@.len() > 0 && error_views(errors@) == config.validation_errors(
            key_file_present,
        ),
    }
}

/// What came of resolving a host name and port to socket addresses.
#[derive(Debug, Clone, Copy, PartialEq, Eq, Structural)]
pub enum Resolution {
    /// The lookup succeeded and gave this many addresses.
    Addresses(usize),
    /// The lookup failed.
    Failed,
}

impl SSHConnectionConfig {
    /// Checks every rule given whether the private key file exists, and
    /// reports all violations together.
    pub fn validate_with(&self, key_file_present: bool) -> (r: Result<(), Vec<ValidationError>>)
        ensures
            validation_outcome(r, self@, key_file_present),
    {
        let mut errors: Vec<ValidationError> = Vec::new();
        assert(error_views(errors@) =~= Seq::empty());

        if is_blank(self.name.as_str()) {
            errors.push(ValidationError::new("name", "Connection name cannot be empty"));
        }
        assert(error_views(errors@) =~= self@.name_errors());

        if is_blank(self.hostname.as_str()) {
            errors.push(ValidationError::new("hostname", "Hostname cannot be empty"));
        } else if !self.is_valid_hostname(self.hostname.as_str()) {
            errors.push(ValidationError::new("hostname", "Invalid hostname format"));
        }
        assert(error_views(errors@) =~= self@.name_errors() + self@.hostname_errors());

        if self.port == 0 {
            errors.push(ValidationError::new("port", "Port must be greater than 0"));
        }
        assert(error_views(errors@) =~= self@.name_errors() + self@.hostname_errors()
            + self@.port_errors());

        if is_blank(self.username.as_str()) {
            errors.push(ValidationError::new("username", "Username cannot be empty"));
        }
        let ghost before = self@.name_errors() + self@.hostname_errors() + self@.port_errors()
            + self@.username_errors();
        assert(error_views(errors@) =~= before);

        match self.auth_method {
            AuthMethod::Password => {
                let missing = match &self.password {
                    Some(p) => p.as_str().is_empty(),
                    None => true,
                };
                if missing {
                    errors.push(
                        ValidationError::new(
                            "password",
                            "Password is required for password authentication",
                        ),
                    );
                }
            },
            AuthMethod::PublicKey => {
                match &self.private_key_path {
                    Some(key_path) => {
                        if is_blank(key_path.as_str()) {
                            errors.push(
                                ValidationError::new(
                                    "private_key_path",
                                    "Private key path cannot be empty",
                                ),
                            );
                        } else if !key_file_present {
                            errors.push(
                                ValidationError::new(
                                    "private_key_path",
                                    "Private key file does not exist",
                                ),
                            );
                        }
                    },
                    None => {
                        errors.push(
                            ValidationError::new(
                                "private_key_path",
                                "Private key path is required for public key authentication",
                            ),
                        );
                    },
                }
            },
            AuthMethod::Agent => {},
        }
        assert(error_views(errors@) =~= before + self@.auth_errors(key_file_present));

        if errors.len() == 0 {
            Ok(())
        } else {
            Err(errors)
        }
    }

    /// Whether validation has to look for the private key file on disk.
    pub fn needs_key_file(&self) -> (r: bool)
        ensures
            r == self@.needs_key_file(),
            r ==> self.private_key_path is Some,
    {
        match self.auth_method {
            AuthMethod::PublicKey => match &self.private_key_path {
                Some(key_path) => !is_blank(key_path.as_str()),
                None => false,
            },
            _ => false,
        }
    }

    /// Looks for the private key file on disk where validation needs it.
    /// Nothing is known of the answer but that it is `false` where no file
    /// has to be looked for.
    pub fn key_file_present(&self) -> (present: bool)
        ensures
            !self@.needs_key_file() ==> !present,
    {
        if self.needs_key_file() {
            match &self.private_key_path {
                Some(key_path) => path_exists(key_path.as_str()),
                None => false,
            }
        } else {
            false
        }
    }

    /// Validates the configuration, looking for the private key file on disk
    /// where public key authentication names one. Whatever the disk holds,
    /// the result is the one `validate_with` gives for a present or for an
    /// absent file; where no file has to be looked for, the two agree.
    pub fn validate(&self) -> (r: Result<(), Vec<ValidationError>>)
        ensures
            validation_outcome(r, self@, true) || validation_outcome(r, self@, false),
            !self@.needs_key_file() ==> validation_outcome(r, self@, true) && validation_outcome(
                r,
                self@,
                false,
            ),
            self@.password_missing() ==> r is Err && reports(
                error_views(r->Err_0@),
                "password"@,
            ),
            self@.key_path_missing() ==> r is Err && reports(
                error_views(r->Err_0@),
                "private_key_path"@,
            ),
    {
        let present = self.key_file_present();
        let r = self.validate_with(present);
        proof {
            lemma_key_file_irrelevant(self@);
            if self@.password_missing() {
                lemma_password_required(self@, present);
            }
            if self@.key_path_missing() {
                lemma_key_path_required(self@, present);
            }
        }
        r
    }

    /// Whether `hostname` is an IP literal or a well-formed domain name.
    pub fn is_valid_hostname(&self, hostname: &str) -> (r: bool)
        ensures
            r == is_valid_hostname(hostname@),
    {
        hostname_is_valid(hostname)
    }

    /// The address to resolve and dial: `hostname:port`.
    pub fn address(&self) -> (r: String)
        ensures
            r@ == self@.address(),
    {
        let port = decimal_text(self.port);
        concat3(self.hostname.as_str(), ":", port.as_str())
    }

    /// Judges the outcome of resolving [`address`](Self::address): at least
    /// one address is needed.
    pub fn validate_connectivity(&self, resolution: Resolution) -> (r: Result<(), ValidationError>)
        ensures
            match resolution {
                Resolution::Addresses(n) => if n > 0 {
                    r is Ok
                } else {
                    r is Err && r->Err_0@ == violation("hostname", "Unable to resolve hostname")
                },
                Resolution::Failed => r is Err && r->Err_0@ == violation(
                    "hostname",
                    "Invalid hostname or port combination",
                ),
            },
    {
        match resolution {
            Resolution::Addresses(n) => {
                if n > 0 {
                    Ok(())
                } else {
                    Err(ValidationError::new("hostname", "Unable to resolve hostname"))
                }
            },
            Resolution::Failed => Err(
                ValidationError::new("hostname", "Invalid hostname or port combination"),
            ),
        }
    }

    /// A configuration under a fresh random id, if it is valid.
    pub fn new(
        name: String,
        hostname: String,
        port: u16,
        username: String,
        auth_method: AuthMethod,
        private_key_path: Option<String>,
        password: Option<String>,
    ) -> (r: Result<SSHConnectionConfig, Vec<ValidationError>>)
        ensures
            match r {
                Ok(config) => {
                    &&& config@ == (ConfigView {
                        id: config.id@,
                        name: name@,
                        hostname: hostname@,
                        port: port,
                        username: username@,
                        auth_method: auth_method,
                        private_key_path: option_text(private_key_path),
                        password: option_text(password),
                    })
                    &&& config.id@.len() == 36
                    &&& (config@.validation_errors(true).len() == 0 || config@.validation_errors(
                        false,
                    ).len() == 0)
                    &&& !config@.needs_key_file() ==> config@.validation_errors(false).len() == 0
                },
                Err(errors) => {
                    let config = ConfigView {
                        id: Seq::empty(),
                        name: name@,
                        hostname: hostname@,
                        port: port,
                        username: username@,
                        auth_method: auth_method,
                        private_key_path: option_text(private_key_path),
                        password: option_text(password),
                    };
                    &&& errors@.len() > 0
                    &&& (error_views(errors@) == config.validation_errors(true) || error_views(
                        errors@,
                    ) == config.validation_errors(false))
                    &&& !config.needs_key_file() ==> error_views(errors@)
                        == config.validation_errors(false)
                },
            },
    {
        let config = SSHConnectionConfig {
            id: fresh_identifier(),
            name,
            hostname,
            port,
            username,
            auth_method,
            private_key_path,
            password,
        };
        match config.validate() {
            Ok(_) => Ok(config),
            Err(errors) => Err(errors),
        }
    }
}


/// The externally visible state of one connection.
///
/// `last_activity` counts milliseconds since the Unix epoch.
#[derive(Debug)]
pub struct SSHConnectionState {
    pub id: String,
    pub status: ConnectionStatus,
    pub error: Option<String>,
    pub last_activity: i64,
}

pub struct StateView {
    pub id: Seq<char>,
    pub status: ConnectionStatus,
    pub error: Option<Seq<char>>,
    pub last_activity: i64,
}

impl StateView {
    /// The state of a connection that was never connected, stamped `now`.
    pub open spec fn fresh(id: Seq<char>, now: i64) -> StateView {
        StateView {
            id: id,
            status: ConnectionStatus::Disconnected,
            error: None,
            last_activity: now,
        }
    }

    /// An error message is recorded exactly in the `Error` status.
    pub open spec fn consistent(self) -> bool {
        (self.status is Error) == (self.error is Some)
    }

    /// The state moved to `status` at the time `now`, its error cleared.
    pub open spec fn with_status(self, status: ConnectionStatus, now: i64) -> StateView {
        StateView { id: self.id, status: status, error: None, last_activity: now }
    }

    /// The state moved to `Error` with the message `error` at the time
    /// `now`.
    pub open spec fn with_error(self, error: Seq<char>, now: i64) -> StateView {
        StateView {
            id: self.id,
            status: ConnectionStatus::Error,
            error: Some(error),
            last_activity: now,
        }
    }

    /// The state with its last activity at `now` and nothing else changed.
    pub open spec fn stamped(self, now: i64) -> StateView {
        StateView { last_activity: now, ..self }
    }
}

impl View for SSHConnectionState {
    type V = StateView;

    open spec fn view(&self) -> StateView {
        StateView {
            id: self.id@,
            status: self.status,
            error: option_text(self.error),
            last_activity: self.last_activity,
        }
    }
}

impl Clone for SSHConnectionState {
    fn clone(&self) -> (r: SSHConnectionState)
        ensures
            r@ == self@,
    {
        SSHConnectionState {
            id: self.id.clone(),
            status: self.status,
            error: clone_option_text(&self.error),
            last_activity: self.last_activity,
        }
    }
}

impl SSHConnectionState {
    /// The state of a connection that was never connected, stamped `now`.
    pub fn new_at(id: String, now: i64) -> (state: SSHConnectionState)
        ensures
            state@ == StateView::fresh(id@, now),
    {
        SSHConnectionState {
            id,
            status: ConnectionStatus::Disconnected,
            error: None,
            last_activity: now,
        }
    }

    /// The state of a connection that was never connected, stamped with the
    /// current time: whatever the clock said is the last activity.
    pub fn new(id: String) -> (state: SSHConnectionState)
        ensures
            state@ == StateView::fresh(id@, state.last_activity),
    {
        SSHConnectionState::new_at(id, current_time_millis())
    }

    /// Moves to `status`, clears the error and stamps `now`.
    pub fn update_status_at(&mut self, status: ConnectionStatus, now: i64)
        ensures
            final(self)@ == old(self)@.with_status(status, now),
            !(status is Error) ==> final(self)@.consistent(),
    {
        self.status = status;
        self.error = None;
        self.last_activity = now;
    }

    /// Moves to `status`, clears the error and refreshes the last activity:
    /// whatever the clock said is the new last activity.
    pub fn update_status(&mut self, status: ConnectionStatus)
        ensures
            final(self)@ == old(self)@.with_status(status, final(self).last_activity),
            !(status is Error) ==> final(self)@.consistent(),
    {
        self.update_status_at(status, current_time_millis());
    }

    /// Moves to the `Error` status with `error` as its message, stamped `now`.
    pub fn set_error_at(&mut self, error: String, now: i64)
        ensures
            final(self)@ == old(self)@.with_error(error@, now),
            final(self)@.consistent(),
    {
        self.status = ConnectionStatus::Error;
        self.error = Some(error);
        self.last_activity = now;
    }

    /// Moves to the `Error` status with `error` as its message and refreshes
    /// the last activity: whatever the clock said is the new last activity.
    pub fn set_error(&mut self, error: String)
        ensures
            final(self)@ == old(self)@.with_error(error@, final(self).last_activity),
            final(self)@.consistent(),
    {
        self.set_error_at(error, current_time_millis());
    }

    /// Stamps `now` and changes nothing else.
    pub fn update_activity_at(&mut self, now: i64)
        ensures
            final(self)@ == old(self)@.stamped(now),
    {
        self.last_activity = now;
    }

    /// Refreshes the last activity and changes nothing else: whatever the
    /// clock said is the new last activity.
    pub fn update_activity(&mut self)
        ensures
            final(self)@ == old(self)@.stamped(final(self).last_activity),
    {
        self.update_activity_at(current_time_millis());
    }

    /// Whether the connection is up or coming up.
    pub fn is_active(&self) -> (r: bool)
        ensures
            r == (self.status is Connected || self.status is Connecting),
    {
        matches!(self.status, ConnectionStatus::Connected | ConnectionStatus::Connecting)
    }

    /// Whether the connection has failed.
    pub fn has_error(&self) -> (r: bool)
        ensures
            r == (self.status is Error),
    {
        matches!(self.status, ConnectionStatus::Error)
    }
}

/// The size of a terminal window, in character cells and in pixels.
#[derive(Debug, Clone, Copy, PartialEq, Eq, Structural)]
pub struct TerminalSize {
    pub cols: u16,
    pub rows: u16,
    pub pixel_width: u16,
    pub pixel_height: u16,
}

impl TerminalSize {
    /// 80 columns by 24 rows, 640 by 480 pixels.
    pub open spec fn initial() -> TerminalSize {
        TerminalSize { cols: 80, rows: 24, pixel_width: 640, pixel_height: 480 }
    }
}

impl Default for TerminalSize {
    fn default() -> (size: TerminalSize)
        ensures
            size == TerminalSize::initial(),
    {
        TerminalSize { cols: 80, rows: 24, pixel_width: 640, pixel_height: 480 }
    }
}

/// One interactive terminal opened over a connection.
///
/// `created_at` counts milliseconds since the Unix epoch.
#[derive(Debug)]
pub struct TerminalSession {
    pub id: String,
    pub connection_id: String,
    pub size: TerminalSize,
    pub is_active: bool,
    pub created_at: i64,
}

pub struct SessionView {
    pub id: Seq<char>,
    pub connection_id: Seq<char>,
    pub size: TerminalSize,
    pub is_active: bool,
    pub created_at: i64,
}

impl SessionView {
    /// A session as it is when opened: active, at the initial size.
    pub open spec fn opened(id: Seq<char>, connection_id: Seq<char>, created_at: i64) -> SessionView {
        SessionView {
            id: id,
            connection_id: connection_id,
            size: TerminalSize::initial(),
            is_active: true,
            created_at: created_at,
        }
    }

    pub open spec fn resized(self, size: TerminalSize) -> SessionView {
        SessionView { size: size, ..self }
    }
}

impl View for TerminalSession {
    type V = SessionView;

    open spec fn view(&self) -> SessionView {
        SessionView {
            id: self.id@,
            connection_id: self.connection_id@,
            size: self.size,
            is_active: self.is_active,
            created_at: self.created_at,
        }
    }
}

impl Clone for TerminalSession {
    fn clone(&self) -> (r: TerminalSession)
        ensures
            r@ == self@,
    {
        TerminalSession {
            id: self.id.clone(),
            connection_id: self.connection_id.clone(),
            size: self.size,
            is_active: self.is_active,
            created_at: self.created_at,
        }
    }
}

impl TerminalSession {
    /// An active session of the initial size under the given id.
    pub fn with_identity(id: String, connection_id: String, created_at: i64) -> (session:
        TerminalSession)
        ensures
            session@ == SessionView::opened(id@, connection_id@, created_at),
    {
        TerminalSession {
            id,
            connection_id,
            size: TerminalSize::default(),
            is_active: true,
            created_at,
        }
    }

    /// An active session of the initial size under a fresh random id,
    /// created now: whatever the clock said is the time of creation.
    pub fn new(connection_id: String) -> (session: TerminalSession)
        ensures
            session@ == SessionView::opened(session.id@, connection_id@, session.created_at),
            session.id@.len() == 36,
    {
        TerminalSession::with_identity(fresh_identifier(), connection_id, current_time_millis())
    }

    /// Records a new window size and changes nothing else.
    pub fn resize(&mut self, cols: u16, rows: u16, pixel_width: u16, pixel_height: u16)
        ensures
            final(self)@ == old(self)@.resized(
                TerminalSize { cols, rows, pixel_width, pixel_height },
            ),
    {
        self.size.cols = cols;
        self.size.rows = rows;
        self.size.pixel_width = pixel_width;
        self.size.pixel_height = pixel_height;
    }

    /// Marks the session as no longer active and changes nothing else.
    pub fn deactivate(&mut self)
        ensures
            final(self)@ == (SessionView { is_active: false, ..old(self)@ }),
    {
        self.is_active = false;
    }
}

/// A notification for whoever consumes the engine's events.
#[derive(Debug)]
pub enum SSHEvent {
    Connected(String),
    Disconnected(String),
    Data(String, Vec<u8>),
    Error(String, String),
    /// Connection id, terminal id.
    TerminalCreated(String, String),
    /// Connection id, terminal id.
    TerminalClosed(String, String),
    /// Connection id, terminal id, columns, rows.
    TerminalResized(String, String, u16, u16),
}

pub enum EventView {
    Connected(Seq<char>),
    Disconnected(Seq<char>),
    Data(Seq<char>, Seq<u8>),
    Error(Seq<char>, Seq<char>),
    TerminalCreated(Seq<char>, Seq<char>),
    TerminalClosed(Seq<char>, Seq<char>),
    TerminalResized(Seq<char>, Seq<char>, u16, u16),
}

impl View for SSHEvent {
    type V = EventView;

    open spec fn view(&self) -> EventView {
        match self {
            SSHEvent::Connected(c) => EventView::Connected(c@),
            SSHEvent::Disconnected(c) => EventView::Disconnected(c@),
            SSHEvent::Data(c, bytes) => EventView::Data(c@, bytes@),
            SSHEvent::Error(c, message) => EventView::Error(c@, message@),
            SSHEvent::TerminalCreated(c, t) => EventView::TerminalCreated(c@, t@),
            SSHEvent::TerminalClosed(c, t) => EventView::TerminalClosed(c@, t@),
            SSHEvent::TerminalResized(c, t, cols, rows) => EventView::TerminalResized(
                c@,
                t@,
                *cols,
                *rows,
            ),
        }
    }
}

impl Clone for SSHEvent {
    fn clone(&self) -> (r: SSHEvent)
        ensures
            r@ == self@,
    {
        match self {
            SSHEvent::Connected(c) => SSHEvent::Connected(c.clone()),
            SSHEvent::Disconnected(c) => SSHEvent::Disconnected(c.clone()),
            SSHEvent::Data(c, bytes) => SSHEvent::Data(c.clone(), bytes.clone()),
            SSHEvent::Error(c, message) => SSHEvent::Error(c.clone(), message.clone()),
            SSHEvent::TerminalCreated(c, t) => SSHEvent::TerminalCreated(c.clone(), t.clone()),
            SSHEvent::TerminalClosed(c, t) => SSHEvent::TerminalClosed(c.clone(), t.clone()),
            SSHEvent::TerminalResized(c, t, cols, rows) => SSHEvent::TerminalResized(
                c.clone(),
                t.clone(),
                *cols,
                *rows,
            ),
        }
    }
}

/// Where no key file has to be looked for, validation does not depend on
/// what the disk holds.
pub proof fn lemma_key_file_irrelevant(config: ConfigView)
    ensures
        !config.needs_key_file() ==> config.validation_errors(true) == config.validation_errors(
            false,
        ),
{
}

/// Password authentication with an absent or empty password is always
/// reported under the field `password`.
pub proof fn lemma_password_required(config: ConfigView, key_file_present: bool)
    requires
        config.password_missing(),
    ensures
        reports(config.validation_errors(key_file_present), "password"@),
{
    let errors = config.validation_errors(key_file_present);
    let auth = config.auth_errors(key_file_present);
    let i = errors.len() - 1;
    assert(auth.len() == 1);
    assert(errors[i] == auth[0]);
}

/// Public key authentication with an absent or blank key path, or with a key
/// file that does not exist, is always reported under the field
/// `private_key_path`.
pub proof fn lemma_key_path_required(config: ConfigView, key_file_present: bool)
    requires
        config.auth_method is PublicKey,
        config.key_path_missing() || !key_file_present,
    ensures
        reports(config.validation_errors(key_file_present), "private_key_path"@),
{
    let errors = config.validation_errors(key_file_present);
    let auth = config.auth_errors(key_file_present);
    let i = errors.len() - 1;
    assert(auth.len() == 1);
    assert(errors[i] == auth[0]);
}

} // verus!
