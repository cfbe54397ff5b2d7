//! One SSH connection: its lifecycle and the terminal sessions it owns.
//!
//! The connection decides; the host performs. `connect` answers with what
//! the host has to dial and how to authenticate, `complete_connect` takes
//! what came of it, and `disconnect` leaves the teardown in the outbox.

use vstd::prelude::*;
use crate::ssh::outbox::{ActionView, HostAction, Outbox, OutboxView};
use crate::ssh::terminal::{session_views, TerminalSessionManager, TerminalsView};
use crate::ssh::types::{
    option_text,
    AuthMethod,
    ConfigView,
    EventView,
    SSHConnectionConfig,
    SSHEvent,
    SessionView,
    TerminalSession,
    TerminalSize,
    ValidationError,
    ValidationErrorView,
    error_views,
    validation_outcome,
};
use crate::text::{concat2, concat3, join, ok_text, text_result, unit_result};

verus! {

/// After how many seconds without traffic the transport gives a session up.
pub const INACTIVITY_TIMEOUT_SECS: u64 = 300;

/// What the host authenticates with.
#[derive(Debug)]
pub enum Credentials {
    Password(String),
    /// The path of the private key file.
    PublicKey(String),
    Agent,
}

pub enum CredentialsView {
    Password(Seq<char>),
    PublicKey(Seq<char>),
    Agent,
}

impl View for Credentials {
    type V = CredentialsView;

    open spec fn view(&self) -> CredentialsView {
        match self {
            Credentials::Password(p) => CredentialsView::Password(p@),
            Credentials::PublicKey(p) => CredentialsView::PublicKey(p@),
            Credentials::Agent => CredentialsView::Agent,
        }
    }
}

/// What the host has to do to bring a connection up.
#[derive(Debug)]
pub struct ConnectRequest {
    /// The address to dial, `hostname:port`.
    pub address: String,
    pub username: String,
    pub credentials: Credentials,
    pub inactivity_timeout_secs: u64,
}

pub struct RequestView {
    pub address: Seq<char>,
    pub username: Seq<char>,
    pub credentials: CredentialsView,
    pub inactivity_timeout_secs: u64,
}

impl View for ConnectRequest {
    type V = RequestView;

    open spec fn view(&self) -> RequestView {
        RequestView {
            address: self.address@,
            username: self.username@,
            credentials: self.credentials@,
            inactivity_timeout_secs: self.inactivity_timeout_secs,
        }
    }
}

/// Why the host could not bring a connection up.
#[derive(Debug)]
pub enum ConnectFailure {
    /// The address is not one the transport can dial.
    InvalidAddress,
    /// The handshake with the host failed, for the reason given.
    Transport(String),
    /// The transport failed while authenticating, for the reason given.
    Authentication(String),
    /// There is no file at the private key path.
    KeyFileMissing,
    /// The private key file could not be read, for the reason given.
    KeyUnreadable(String),
    /// The host has no way to authenticate by the configured method.
    NotImplemented,
}

pub enum FailureView {
    InvalidAddress,
    Transport(Seq<char>),
    Authentication(Seq<char>),
    KeyFileMissing,
    KeyUnreadable(Seq<char>),
    NotImplemented,
}

impl View for ConnectFailure {
    type V = FailureView;

    open spec fn view(&self) -> FailureView {
        match self {
            ConnectFailure::InvalidAddress => FailureView::InvalidAddress,
            ConnectFailure::Transport(cause) => FailureView::Transport(cause@),
            ConnectFailure::Authentication(cause) => FailureView::Authentication(cause@),
            ConnectFailure::KeyFileMissing => FailureView::KeyFileMissing,
            ConnectFailure::KeyUnreadable(cause) => FailureView::KeyUnreadable(cause@),
            ConnectFailure::NotImplemented => FailureView::NotImplemented,
        }
    }
}

/// What came of the host's attempt to bring a connection up.
#[derive(Debug)]
pub enum ConnectOutcome {
    /// The host accepted the credentials; the session is live.
    Authenticated,
    /// The host refused the credentials.
    Rejected,
    Failed(ConnectFailure),
}

pub enum OutcomeView {
    Authenticated,
    Rejected,
    Failed(FailureView),
}

impl View for ConnectOutcome {
    type V = OutcomeView;

    open spec fn view(&self) -> OutcomeView {
        match self {
            ConnectOutcome::Authenticated => OutcomeView::Authenticated,
            ConnectOutcome::Rejected => OutcomeView::Rejected,
            ConnectOutcome::Failed(failure) => OutcomeView::Failed(failure@),
        }
    }
}

/// The message for a configuration that does not pass validation: every
/// violation as `field: message`, separated by commas.
pub open spec fn validation_failure(errors: Seq<ValidationErrorView>) -> Seq<char> {
    "Configuration validation failed: "@ + join(
        errors.map_values(|e: ValidationErrorView| e.text()),
        ", "@,
    )
}

/// The message for a method of authentication that the host cannot carry
/// out.
pub open spec fn not_implemented(method: AuthMethod) -> Seq<char> {
    match method {
        AuthMethod::Password => "Password authentication not yet implemented"@,
        AuthMethod::PublicKey => "Public key authentication not yet fully implemented"@,
        AuthMethod::Agent => "SSH agent authentication not yet implemented"@,
    }
}

impl ConfigView {
    /// What to authenticate with, or why that cannot be said.
    pub open spec fn credentials(self) -> Result<CredentialsView, Seq<char>> {
        match self.auth_method {
            AuthMethod::Password => match self.password {
                Some(p) => Ok(CredentialsView::Password(p)),
                None => Err("Password not provided for password authentication"@),
            },
            AuthMethod::PublicKey => match self.private_key_path {
                Some(p) => Ok(CredentialsView::PublicKey(p)),
                None => Err("Private key path not provided for public key authentication"@),
            },
            AuthMethod::Agent => Ok(CredentialsView::Agent),
        }
    }

    /// The human-readable cause of a failed attempt.
    pub open spec fn failure_message(self, failure: FailureView) -> Seq<char> {
        match failure {
            FailureView::InvalidAddress => "Invalid address format: "@ + self.address(),
            FailureView::Transport(cause) => "SSH connection failed: "@ + cause,
            FailureView::Authentication(cause) => self.auth_method.description_text()
                + " failed: "@ + cause,
            FailureView::KeyFileMissing => "Private key file not found: "@ + (
            match self.private_key_path {
                Some(p) => p,
                None => Seq::empty(),
            }),
            FailureView::KeyUnreadable(cause) => "Failed to load private key: "@ + cause,
            FailureView::NotImplemented => not_implemented(self.auth_method),
        }
    }
}

/// The model of a connection.
pub struct ConnectionView {
    pub id: Seq<char>,
    pub config: ConfigView,
    /// Whether the host holds a transport session for this connection.
    pub session: bool,
    /// The open channels that no terminal owns.
    pub channels: Seq<u32>,
    pub connected: bool,
    pub terminals: TerminalsView,
}

impl ConnectionView {
    /// A connection that was never connected.
    pub open spec fn fresh(config: ConfigView) -> ConnectionView {
        ConnectionView {
            id: config.id,
            config: config,
            session: false,
            channels: Seq::empty(),
            connected: false,
            terminals: TerminalsView { entries: Seq::empty() },
        }
    }

    /// No terminal id is registered twice, and a connection that is up
    /// holds a transport session.
    pub open spec fn wf(self) -> bool {
        &&& self.terminals.wf()
        &&& self.connected ==> self.session
    }

    /// The failed attempt as the caller is told and as the bus announces it.
    pub open spec fn fail(self, message: Seq<char>, out: OutboxView) -> OutboxView {
        out.emit(EventView::Error(self.id, message))
    }

    /// The first step of connecting: the configuration is validated again,
    /// and the answer is what the host has to dial.
    pub open spec fn connect(self, key_file_present: bool, out: OutboxView) -> (
        Result<RequestView, Seq<char>>,
        OutboxView,
    ) {
        let errors = self.config.validation_errors(key_file_present);
        if errors.len() > 0 {
            (Err(validation_failure(errors)), self.fail(validation_failure(errors), out))
        } else {
            match self.config.credentials() {
                Ok(credentials) => (
                    Ok(
                        RequestView {
                            address: self.config.address(),
                            username: self.config.username,
                            credentials: credentials,
                            inactivity_timeout_secs: INACTIVITY_TIMEOUT_SECS,
                        },
                    ),
                    out,
                ),
                Err(message) => (Err(message), self.fail(message, out)),
            }
        }
    }

    /// The second step of connecting: what came of the host's attempt.
    pub open spec fn complete_connect(self, outcome: OutcomeView, out: OutboxView) -> (
        ConnectionView,
        Result<(), Seq<char>>,
        OutboxView,
    ) {
        match outcome {
            OutcomeView::Authenticated => (
                ConnectionView { session: true, connected: true, ..self },
                Ok(()),
                out.emit(EventView::Connected(self.id)),
            ),
            OutcomeView::Rejected => (
                self,
                Err("Authentication failed: Invalid credentials"@),
                self.fail("Authentication failed: Invalid credentials"@, out),
            ),
            OutcomeView::Failed(failure) => (
                self,
                Err(self.config.failure_message(failure)),
                self.fail(self.config.failure_message(failure), out),
            ),
        }
    }

    /// The actions that close the channels no terminal owns.
    pub open spec fn channel_closings(self) -> Seq<ActionView> {
        self.channels.map_values(|c: u32| ActionView::CloseChannel { channel: c })
    }

    /// Teardown: the terminal sessions close first; then, if a transport
    /// session is held, its channels and the session itself.
    pub open spec fn disconnect(self, out: OutboxView) -> (ConnectionView, OutboxView) {
        let (terminals, closed) = self.terminals.close_all(self.id, out);
        if self.session {
            (
                ConnectionView {
                    session: false,
                    connected: false,
                    channels: Seq::empty(),
                    terminals: terminals,
                    ..self
                },
                closed.request_all(self.channel_closings()).request(
                    ActionView::CloseTransport { connection_id: self.id },
                ).emit(EventView::Disconnected(self.id)),
            )
        } else {
            (ConnectionView { terminals: terminals, ..self }, closed)
        }
    }

    /// A line about the session, while the connection is up.
    pub open spec fn session_info(self) -> Option<Seq<char>> {
        if self.connected {
            Some("Connected to "@ + self.config.username + "@"@ + self.config.address())
        } else {
            None
        }
    }

    pub open spec fn open_channel(self, channel: u32) -> (ConnectionView, Result<(), Seq<char>>) {
        if !self.session {
            (self, Err("SSH session not available"@))
        } else if self.channels.contains(channel) {
            (self, Ok(()))
        } else {
            (ConnectionView { channels: self.channels.push(channel), ..self }, Ok(()))
        }
    }

    /// A terminal opened under `terminal_id` at the time `created_at`, which
    /// needs a live session on a connection that is up.
    pub open spec fn create_terminal_session(
        self,
        terminal_id: Seq<char>,
        created_at: i64,
        out: OutboxView,
    ) -> (ConnectionView, Result<Seq<char>, Seq<char>>, OutboxView) {
        if !self.session {
            (self, Err("SSH session not available"@), out)
        } else if !self.connected {
            (self, Err("SSH connection is not active"@), out)
        } else {
            let (terminals, announced) = self.terminals.create_session(
                self.id,
                terminal_id,
                created_at,
                out,
            );
            (ConnectionView { terminals: terminals, ..self }, Ok(terminal_id), announced)
        }
    }

    pub open spec fn resize_terminal(
        self,
        terminal_id: Seq<char>,
        size: TerminalSize,
        out: OutboxView,
    ) -> (ConnectionView, Result<(), Seq<char>>, OutboxView) {
        let (terminals, r, notified) = self.terminals.resize(terminal_id, size, out);
        (ConnectionView { terminals: terminals, ..self }, r, notified)
    }

    pub open spec fn complete_resize(
        self,
        terminal_id: Seq<char>,
        outcome: Result<(), Seq<char>>,
        out: OutboxView,
    ) -> (Result<(), Seq<char>>, OutboxView) {
        self.terminals.complete_resize(terminal_id, outcome, out)
    }

    pub open spec fn close_terminal_session(self, terminal_id: Seq<char>, out: OutboxView) -> (
        ConnectionView,
        Result<(), Seq<char>>,
        OutboxView,
    ) {
        let (terminals, r, announced) = self.terminals.close(terminal_id, out);
        (ConnectionView { terminals: terminals, ..self }, r, announced)
    }

    pub open spec fn attach_channel(self, terminal_id: Seq<char>, channel: u32) -> (
        ConnectionView,
        Result<(), Seq<char>>,
    ) {
        let (terminals, r) = self.terminals.attach_channel(terminal_id, channel);
        (ConnectionView { terminals: terminals, ..self }, r)
    }

    /// The sessions of this connection, in the order of opening.
    pub open spec fn sessions(self) -> Seq<SessionView> {
        self.terminals.sessions_of(self.id)
    }
}

/// Which host keys a connection goes on with.
#[derive(Debug)]
pub enum ServerKeyPolicy {
    /// Any key. This is for development only: it protects against nothing.
    AcceptAny,
    /// The keys listed, and no other.
    Pinned(Vec<Vec<u8>>),
}

impl ServerKeyPolicy {
    /// Whether a host that presents `key` is accepted.
    pub open spec fn accepts(self, key: Seq<u8>) -> bool {
        match self {
            ServerKeyPolicy::AcceptAny => true,
            ServerKeyPolicy::Pinned(keys) => exists|i: int|
                0 <= i < keys@.len() && (#[trigger] keys@[i])@ == key,
        }
    }
}

fn bytes_equal(a: &Vec<u8>, b: &[u8]) -> (r: bool)
    ensures
        r == (a@ == b@),
{
    if a.len() != b.len() {
        return false;
    }
    let n: usize = a.len();
    let mut i: usize = 0;
    while i < n
        invariant
            n == a@.len(),
            n == b@.len(),
            i <= n,
            forall|j: int| 0 <= j < i ==> a@[j] == b@[j],
        decreases n - i,
    {
        if a[i] != b[i] {
            return false;
        }
        i = i + 1;
    }
    assert(a@ =~= b@);
    true
}

/// The receiving end of the transport's callbacks for one connection.
pub struct SSHClient {
    connection_id: String,
    policy: ServerKeyPolicy,
}

impl SSHClient {
    pub closed spec fn connection(&self) -> Seq<char> {
        self.connection_id@
    }

    pub closed spec fn policy(&self) -> ServerKeyPolicy {
        self.policy
    }

    /// The handler for the connection `connection_id`, which accepts any
    /// host key.
    pub fn new(connection_id: String) -> (client: SSHClient)
        ensures
            client.connection() == connection_id@,
            client.policy() is AcceptAny,
    {
        SSHClient { connection_id, policy: ServerKeyPolicy::AcceptAny }
    }

    /// The handler for the connection `connection_id`, which accepts host
    /// keys as `policy` says.
    pub fn with_policy(connection_id: String, policy: ServerKeyPolicy) -> (client: SSHClient)
        ensures
            client.connection() == connection_id@,
            client.policy() == policy,
    {
        SSHClient { connection_id, policy }
    }

    /// Whether to go on with a host that presents this key.
    pub fn check_server_key(&self, server_public_key: &[u8]) -> (accept: bool)
        ensures
            accept == self.policy().accepts(server_public_key@),
    {
        match &self.policy {
            ServerKeyPolicy::AcceptAny => true,
            ServerKeyPolicy::Pinned(keys) => {
                let n: usize = keys.len();
                let mut i: usize = 0;
                while i < n
                    invariant
                        n == keys@.len(),
                        i <= n,
                        self.policy() == ServerKeyPolicy::Pinned(*keys),
                        forall|j: int| 0 <= j < i ==> (#[trigger] keys@[j])@ != server_public_key@,
                    decreases n - i,
                {
                    if bytes_equal(&keys[i], server_public_key) {
                        proof {
                            let pinned = self.policy()->Pinned_0;
                            assert(pinned == *keys);
                            assert(0 <= i < pinned@.len() && pinned@[i as int]@
                                == server_public_key@);
                        }
                        return true;
                    }
                    i = i + 1;
                }
                false
            },
        }
    }

    /// Bytes arrived on a channel: they are passed on as they are.
    pub fn data(&self, _channel: u32, data: &[u8], out: &mut Outbox)
        ensures
            final(out)@ == old(out)@.emit(EventView::Data(self.connection(), data@)),
    {
        out.emit(SSHEvent::Data(self.connection_id.clone(), vstd::slice::slice_to_vec(data)));
    }

    /// Bytes arrived on a side stream of a channel: they are passed on as
    /// they are, like those of the main stream.
    pub fn extended_data(&self, _channel: u32, _ext: u32, data: &[u8], out: &mut Outbox)
        ensures
            final(out)@ == old(out)@.emit(EventView::Data(self.connection(), data@)),
    {
        out.emit(SSHEvent::Data(self.connection_id.clone(), vstd::slice::slice_to_vec(data)));
    }
}

/// The text of a result that carries a request on success.
pub open spec fn request_result(r: Result<ConnectRequest, String>) -> Result<RequestView, Seq<char>> {
    match r {
        Ok(request) => Ok(request@),
        Err(message) => Err(message@),
    }
}

/// The text of a result that carries credentials on success.
pub open spec fn credentials_result(r: Result<Credentials, String>) -> Result<
    CredentialsView,
    Seq<char>,
> {
    match r {
        Ok(credentials) => Ok(credentials@),
        Err(message) => Err(message@),
    }
}

/// The message for a configuration that does not pass validation.
pub fn validation_failure_message(errors: &Vec<ValidationError>) -> (message: String)
    ensures
        message@ == validation_failure(error_views(errors@)),
{
    let mut message = "Configuration validation failed: ".to_string();
    let ghost lines = error_views(errors@).map_values(|e: ValidationErrorView| e.text());
    let n: usize = errors.len();
    let mut i: usize = 0;
    assert(lines.take(0) =~= Seq::empty());
    assert(message@ =~= "Configuration validation failed: "@ + join(lines.take(0), ", "@));
    while i < n
        invariant
            n == errors@.len(),
            i <= n,
            lines == error_views(errors@).map_values(|e: ValidationErrorView| e.text()),
            message@ == "Configuration validation failed: "@ + join(lines.take(i as int), ", "@),
        decreases n - i,
    {
        let line = errors[i].to_string();
        proof {
            assert(lines.take(i + 1).drop_last() =~= lines.take(i as int));
            assert(lines.take(i + 1).last() == line@);
        }
        if i > 0 {
            message = concat3(message.as_str(), ", ", line.as_str());
            assert(message@ =~= "Configuration validation failed: "@ + join(
                lines.take(i + 1),
                ", "@,
            ));
        } else {
            message = concat2(message.as_str(), line.as_str());
            assert(message@ =~= "Configuration validation failed: "@ + join(
                lines.take(i + 1),
                ", "@,
            ));
        }
        i = i + 1;
    }
    assert(lines.take(n as int) =~= lines);
    message
}

impl SSHConnectionConfig {
    /// What to authenticate with, or why that cannot be said.
    pub fn credentials(&self) -> (r: Result<Credentials, String>)
        ensures
            credentials_result(r) == self@.credentials(),
    {
        match self.auth_method {
            AuthMethod::Password => match &self.password {
                Some(p) => Ok(Credentials::Password(p.clone())),
                None => Err("Password not provided for password authentication".to_string()),
            },
            AuthMethod::PublicKey => match &self.private_key_path {
                Some(p) => Ok(Credentials::PublicKey(p.clone())),
                None => Err(
                    "Private key path not provided for public key authentication".to_string(),
                ),
            },
            AuthMethod::Agent => Ok(Credentials::Agent),
        }
    }

    /// The human-readable cause of a failed attempt to connect.
    pub fn failure_message(&self, failure: &ConnectFailure) -> (message: String)
        ensures
            message@ == self@.failure_message(failure@),
    {
        match failure {
            ConnectFailure::InvalidAddress => {
                let address = self.address();
                concat2("Invalid address format: ", address.as_str())
            },
            ConnectFailure::Transport(cause) => concat2("SSH connection failed: ", cause.as_str()),
            ConnectFailure::Authentication(cause) => concat3(
                self.auth_method.description(),
                " failed: ",
                cause.as_str(),
            ),
            ConnectFailure::KeyFileMissing => match &self.private_key_path {
                Some(p) => concat2("Private key file not found: ", p.as_str()),
                None => {
                    let message = "Private key file not found: ".to_string();
                    assert(message@ =~= "Private key file not found: "@ + Seq::<char>::empty());
                    message
                },
            },
            ConnectFailure::KeyUnreadable(cause) => concat2(
                "Failed to load private key: ",
                cause.as_str(),
            ),
            ConnectFailure::NotImplemented => match self.auth_method {
                AuthMethod::Password => "Password authentication not yet implemented".to_string(),
                AuthMethod::PublicKey => "Public key authentication not yet fully implemented".to_string(),
                AuthMethod::Agent => "SSH agent authentication not yet implemented".to_string(),
            },
        }
    }
}

/// One connection with its transport state and its terminal sessions.
pub struct SSHConnection {
    pub id: String,
    pub config: SSHConnectionConfig,
    session: bool,
    channels: Vec<u32>,
    connected: bool,
    terminal_manager: TerminalSessionManager,
}

impl View for SSHConnection {
    type V = ConnectionView;

    closed spec fn view(&self) -> ConnectionView {
        ConnectionView {
            id: self.id@,
            config: self.config@,
            session: self.session,
            channels: self.channels@,
            connected: self.connected,
            terminals: self.terminal_manager@,
        }
    }
}

impl SSHConnection {
    pub open spec fn wf(&self) -> bool {
        self@.wf()
    }

    /// A connection for `config` that was never connected.
    pub fn new(config: SSHConnectionConfig) -> (connection: SSHConnection)
        ensures
            connection@ == ConnectionView::fresh(config@),
            connection.wf(),
    {
        let connection = SSHConnection {
            id: config.id.clone(),
            config,
            session: false,
            channels: Vec::new(),
            connected: false,
            terminal_manager: TerminalSessionManager::new(),
        };
        assert(connection.terminal_manager@.entries =~= Seq::empty());
        connection
    }

    fn fail(&self, message: &String, out: &mut Outbox)
        ensures
            final(out)@ == self@.fail(message@, old(out)@),
    {
        out.emit(SSHEvent::Error(self.id.clone(), message.clone()));
    }

    /// The first step of connecting, given whether the private key file is
    /// there: validates the configuration and answers with what the host has
    /// to dial. A failure is announced on the bus and returned.
    pub fn connect_with(&self, key_file_present: bool, out: &mut Outbox) -> (r: Result<
        ConnectRequest,
        String,
    >)
        ensures
            (request_result(r), final(out)@) == self@.connect(key_file_present, old(out)@),
    {
        match self.config.validate_with(key_file_present) {
            Ok(_) => {},
            Err(errors) => {
                let message = validation_failure_message(&errors);
                self.fail(&message, out);
                return Err(message);
            },
        }
        match self.config.credentials() {
            Ok(credentials) => Ok(
                ConnectRequest {
                    address: self.config.address(),
                    username: self.config.username.clone(),
                    credentials,
                    inactivity_timeout_secs: INACTIVITY_TIMEOUT_SECS,
                },
            ),
            Err(message) => {
                self.fail(&message, out);
                Err(message)
            },
        }
    }

    /// The first step of connecting. The private key file is looked for on
    /// disk where the configuration names one; whatever the disk holds, the
    /// outcome is that of `connect_with` for a present or for an absent
    /// file.
    pub fn connect(&self, out: &mut Outbox) -> (r: Result<ConnectRequest, String>)
        ensures
            (request_result(r), final(out)@) == self@.connect(true, old(out)@) || (
                request_result(r),
                final(out)@,
            ) == self@.connect(false, old(out)@),
            !self@.config.needs_key_file() ==> (request_result(r), final(out)@) == self@.connect(
                false,
                old(out)@,
            ),
    {
        let present = self.config.key_file_present();
        self.connect_with(present, out)
    }

    /// The second step of connecting: records what came of the host's
    /// attempt. Success makes the connection live and is announced as
    /// `Connected`; any failure leaves the connection as it was, and is
    /// announced as `Error` with the message that is returned.
    pub fn complete_connect(&mut self, outcome: ConnectOutcome, out: &mut Outbox) -> (r: Result<
        (),
        String,
    >)
        ensures
            (final(self)@, unit_result(r), final(out)@) == old(self)@.complete_connect(
                outcome@,
                old(out)@,
            ),
            old(self).wf() ==> final(self).wf(),
    {
        match outcome {
            ConnectOutcome::Authenticated => {
                self.session = true;
                self.connected = true;
                out.emit(SSHEvent::Connected(self.id.clone()));
                Ok(())
            },
            ConnectOutcome::Rejected => {
                let message = "Authentication failed: Invalid credentials".to_string();
                self.fail(&message, out);
                Err(message)
            },
            ConnectOutcome::Failed(failure) => {
                let message = self.config.failure_message(&failure);
                self.fail(&message, out);
                Err(message)
            },
        }
    }

    /// Tears the connection down: every terminal session closes, then the
    /// open channels and the transport session. Without a transport session
    /// only the terminal sessions close and nothing is announced about the
    /// connection.
    pub fn disconnect(&mut self, out: &mut Outbox) -> (r: Result<(), String>)
        requires
            old(self).wf(),
        ensures
            final(self).wf(),
            r is Ok,
            (final(self)@, final(out)@) == old(self)@.disconnect(old(out)@),
    {
        match self.terminal_manager.close_all_sessions_for_connection(self.id.as_str(), out) {
            Ok(_) => {},
            Err(e) => {
                return Err(e);
            },
        }
        if self.session {
            self.session = false;
            let mut channels: Vec<u32> = Vec::new();
            core::mem::swap(&mut self.channels, &mut channels);
            let ghost closed = out@;
            let n: usize = channels.len();
            let mut i: usize = 0;
            assert(closed.actions + channels@.take(0).map_values(
                |c: u32| ActionView::CloseChannel { channel: c },
            ) =~= closed.actions);
            while i < n
                invariant
                    n == channels@.len(),
                    i <= n,
                    out@ == closed.request_all(
                        channels@.take(i as int).map_values(
                            |c: u32| ActionView::CloseChannel { channel: c },
                        ),
                    ),
                decreases n - i,
            {
                out.request(HostAction::CloseChannel { channel: channels[i] });
                assert(closed.actions + channels@.take(i + 1).map_values(
                    |c: u32| ActionView::CloseChannel { channel: c },
                ) =~= (closed.actions + channels@.take(i as int).map_values(
                    |c: u32| ActionView::CloseChannel { channel: c },
                )).push(ActionView::CloseChannel { channel: channels@[i as int] }));
                i = i + 1;
            }
            assert(channels@.take(n as int) =~= channels@);
            out.request(HostAction::CloseTransport { connection_id: self.id.clone() });
            self.connected = false;
            out.emit(SSHEvent::Disconnected(self.id.clone()));
        }
        Ok(())
    }

    /// Looks for the private key file of the configuration on disk where
    /// validation needs it.
    pub fn key_file_present(&self) -> (present: bool)
        ensures
            !self@.config.needs_key_file() ==> !present,
    {
        self.config.key_file_present()
    }

    /// The configuration of the connection: the field `config`, which is
    /// what the view holds.
    pub fn config(&self) -> (config: &SSHConnectionConfig)
        ensures
            config@ == self@.config,
    {
        &self.config
    }

    /// The id under which the connection is registered: the field `id`,
    /// which is what the view holds.
    pub fn id(&self) -> (id: &str)
        ensures
            id@ == self@.id,
    {
        self.id.as_str()
    }

    /// Whether the connection is up.
    pub fn is_connected(&self) -> (r: bool)
        ensures
            r == self@.connected,
    {
        self.connected
    }

    /// A line about the session while the connection is up, nothing
    /// otherwise.
    pub fn get_session_info(&self) -> (info: Option<String>)
        ensures
            option_text(info) == self@.session_info(),
    {
        if self.connected {
            let address = self.config.address();
            let mut line = concat3("Connected to ", self.config.username.as_str(), "@");
            line = concat2(line.as_str(), address.as_str());
            Some(line)
        } else {
            None
        }
    }

    /// Records a channel that the host opened on the transport session.
    pub fn open_channel(&mut self, channel: u32) -> (r: Result<(), String>)
        ensures
            (final(self)@, unit_result(r)) == old(self)@.open_channel(channel),
            old(self).wf() ==> final(self).wf(),
    {
        if !self.session {
            return Err("SSH session not available".to_string());
        }
        let n: usize = self.channels.len();
        let mut i: usize = 0;
        while i < n
            invariant
                n == self.channels@.len(),
                i <= n,
                self@ == old(self)@,
                self@.session,
                forall|j: int| 0 <= j < i ==> self.channels@[j] != channel,
            decreases n - i,
        {
            if self.channels[i] == channel {
                assert(self@.channels[i as int] == channel);
                return Ok(());
            }
            i = i + 1;
        }
        self.channels.push(channel);
        Ok(())
    }

    /// Opens a terminal session over this connection under the id
    /// `terminal_id`, created at `created_at`, and returns that id.
    pub fn create_terminal_session_with(
        &mut self,
        terminal_id: String,
        created_at: i64,
        out: &mut Outbox,
    ) -> (r: Result<String, String>)
        requires
            old(self).wf(),
        ensures
            final(self).wf(),
            (final(self)@, text_result(r), final(out)@) == old(self)@.create_terminal_session(
                terminal_id@,
                created_at,
                old(out)@,
            ),
    {
        if self.session {
            if self.connected {
                self.terminal_manager.create_session_with(
                    self.id.clone(),
                    terminal_id,
                    created_at,
                    out,
                )
            } else {
                Err("SSH connection is not active".to_string())
            }
        } else {
            Err("SSH session not available".to_string())
        }
    }

    /// Opens a terminal session over this connection under a fresh id and
    /// returns that id. The session is created now: the outcome is that of
    /// `create_terminal_session_with` for the id returned and for whatever
    /// the clock said.
    pub fn create_terminal_session(&mut self, out: &mut Outbox) -> (r: Result<String, String>)
        requires
            old(self).wf(),
        ensures
            final(self).wf(),
            exists|created_at: i64|
                (final(self)@, text_result(r), final(out)@)
                    == #[trigger] old(self)@.create_terminal_session(
                    ok_text(r),
                    created_at,
                    old(out)@,
                ),
            r matches Ok(terminal_id) ==> terminal_id@.len() == 36,
    {
        if self.session {
            if self.connected {
                let r = self.terminal_manager.create_session(self.id.clone(), out);
                proof {
                    let created_at = choose|created_at: i64|
                        (self.terminal_manager@, out@)
                            == #[trigger] old(self)@.terminals.create_session(
                            self.id@,
                            ok_text(r),
                            created_at,
                            old(out)@,
                        );
                    assert((self@, text_result(r), out@) == old(self)@.create_terminal_session(
                        ok_text(r),
                        created_at,
                        old(out)@,
                    ));
                }
                r
            } else {
                let r = Err("SSH connection is not active".to_string());
                assert((self@, text_result(r), out@) == old(self)@.create_terminal_session(
                    ok_text(r),
                    0,
                    old(out)@,
                ));
                r
            }
        } else {
            let r = Err("SSH session not available".to_string());
            assert((self@, text_result(r), out@) == old(self)@.create_terminal_session(
                ok_text(r),
                0,
                old(out)@,
            ));
            r
        }
    }

    /// Attaches the channel that carries a terminal.
    pub fn attach_channel(&mut self, terminal_id: &str, channel: u32) -> (r: Result<(), String>)
        requires
            old(self).wf(),
        ensures
            final(self).wf(),
            (final(self)@, unit_result(r)) == old(self)@.attach_channel(terminal_id@, channel),
    {
        self.terminal_manager.attach_channel(terminal_id, channel)
    }

    /// Sends input to a terminal session.
    pub fn send_terminal_input(&self, terminal_id: &str, data: &[u8], out: &mut Outbox) -> (r:
        Result<(), String>)
        requires
            self.wf(),
        ensures
            (unit_result(r), final(out)@) == self@.terminals.send_input(
                terminal_id@,
                data@,
                old(out)@,
            ),
    {
        self.terminal_manager.send_input(terminal_id, data, out)
    }

    /// The first step of resizing a terminal session: see
    /// `TerminalSessionManager::resize_terminal`.
    pub fn resize_terminal(
        &mut self,
        terminal_id: &str,
        cols: u16,
        rows: u16,
        pixel_width: u16,
        pixel_height: u16,
        out: &mut Outbox,
    ) -> (r: Result<(), String>)
        requires
            old(self).wf(),
        ensures
            final(self).wf(),
            (final(self)@, unit_result(r), final(out)@) == old(self)@.resize_terminal(
                terminal_id@,
                TerminalSize { cols, rows, pixel_width, pixel_height },
                old(out)@,
            ),
    {
        self.terminal_manager.resize_terminal(
            terminal_id,
            cols,
            rows,
            pixel_width,
            pixel_height,
            out,
        )
    }

    /// The second step of resizing a terminal session: takes what came of
    /// the window change that the host carried out.
    pub fn complete_resize(&self, terminal_id: &str, outcome: Result<(), String>, out: &mut Outbox) -> (r:
        Result<(), String>)
        requires
            self.wf(),
        ensures
            (unit_result(r), final(out)@) == self@.complete_resize(
                terminal_id@,
                unit_result(outcome),
                old(out)@,
            ),
    {
        self.terminal_manager.complete_resize(terminal_id, outcome, out)
    }

    /// Closes a terminal session.
    pub fn close_terminal_session(&mut self, terminal_id: &str, out: &mut Outbox) -> (r: Result<
        (),
        String,
    >)
        requires
            old(self).wf(),
        ensures
            final(self).wf(),
            (final(self)@, unit_result(r), final(out)@) == old(self)@.close_terminal_session(
                terminal_id@,
                old(out)@,
            ),
    {
        self.terminal_manager.close_session(terminal_id, out)
    }

    /// The terminal session registered under `terminal_id`, if there is one.
    pub fn get_terminal_session(&self, terminal_id: &str) -> (r: Option<TerminalSession>)
        requires
            self.wf(),
        ensures
            match r {
                Some(session) => self@.terminals.contains(terminal_id@) && session@
                    == self@.terminals.entry(terminal_id@).session,
                None => !self@.terminals.contains(terminal_id@),
            },
    {
        self.terminal_manager.get_session(terminal_id)
    }

    /// The terminal sessions of this connection, in the order of opening.
    pub fn list_terminal_sessions(&self) -> (r: Vec<TerminalSession>)
        ensures
            session_views(r@) == self@.sessions(),
    {
        self.terminal_manager.list_sessions_for_connection(self.id.as_str())
    }

    /// Whether a background task of `terminal_id` has to stop.
    pub fn task_should_stop(&self, terminal_id: &str) -> (stop: bool)
        requires
            self.wf(),
        ensures
            stop == !self@.terminals.contains(terminal_id@),
    {
        self.terminal_manager.task_should_stop(terminal_id)
    }
}

/// Disconnecting is idempotent: after a teardown the connection holds no
/// session and is not connected, and a second teardown changes nothing and
/// announces nothing.
pub proof fn lemma_disconnect_idempotent(connection: ConnectionView, out: OutboxView)
    ensures
        ({
            let (down, after) = connection.disconnect(out);
            &&& !down.session
            &&& connection.wf() ==> !down.connected && down.wf()
            &&& down.sessions() == Seq::<SessionView>::empty()
            &&& down.disconnect(after) == (down, after)
        }),
{
    let (down, after) = connection.disconnect(out);
    crate::ssh::terminal::lemma_close_all_leaves_none(
        connection.terminals,
        connection.id,
        out,
        after,
    );
    if connection.wf() {
        crate::ssh::terminal::lemma_select_distinct(
            connection.terminals.entries,
            connection.id,
            false,
        );
    }
}

/// Disconnecting a connection that was never connected changes nothing and
/// announces nothing.
pub proof fn lemma_disconnect_never_connected(config: ConfigView, out: OutboxView)
    ensures
        ConnectionView::fresh(config).disconnect(out) == (ConnectionView::fresh(config), out),
{
    crate::ssh::terminal::lemma_close_all_of_none(config.id, out);
}

/// A terminal session is opened only on a live connection: without a
/// transport session, or when the connection is not up, the attempt fails,
/// no session is registered and nothing is announced. The two causes are
/// told apart by their messages.
pub proof fn lemma_terminal_needs_live_connection(
    connection: ConnectionView,
    terminal_id: Seq<char>,
    created_at: i64,
    out: OutboxView,
)
    requires
        !(connection.session && connection.connected),
    ensures
        ({
            let (after, r, announced) = connection.create_terminal_session(
                terminal_id,
                created_at,
                out,
            );
            &&& after == connection
            &&& after.sessions() == connection.sessions()
            &&& announced == out
            &&& r == Err::<Seq<char>, Seq<char>>(
                if connection.session {
                    "SSH connection is not active"@
                } else {
                    "SSH session not available"@
                },
            )
        }),
{
}

/// A failed attempt to connect is returned and announced with one and the
/// same message, and leaves the connection as it was.
pub proof fn lemma_failure_is_announced(connection: ConnectionView, outcome: OutcomeView, out: OutboxView)
    requires
        !(outcome is Authenticated),
    ensures
        ({
            let (after, r, announced) = connection.complete_connect(outcome, out);
            &&& after == connection
            &&& r is Err
            &&& announced == out.emit(EventView::Error(connection.id, r->Err_0))
        }),
{
}

} // verus!
