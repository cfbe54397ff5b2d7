//! The registry of connections and of their externally visible states.
//!
//! `ManagerView` is the model: the connections and their states side by
//! side, in the order of registration, and the outbox. Every operation of
//! [`SSHManager`] is stated as a function on that model.

use vstd::prelude::*;
use crate::platform::{current_time_millis, fresh_identifier};
use crate::ssh::connection::{
    request_result,
    validation_failure,
    validation_failure_message,
    ConnectOutcome,
    ConnectRequest,
    ConnectionView,
    OutcomeView,
    RequestView,
    SSHConnection,
};
use crate::ssh::outbox::{action_views, event_views, EventBus, HostAction, Outbox, OutboxView};
use crate::ssh::terminal::session_views;
use crate::ssh::types::{
    ConfigView,
    ConnectionStatus,
    SSHConnectionConfig,
    SSHConnectionState,
    SSHEvent,
    SessionView,
    StateView,
    TerminalSession,
    TerminalSize,
};
use crate::text::{
    concat3,
    lemma_mentions_middle,
    mentions,
    str_equal,
    ok_text,
    text_result,
    unit_result,
};

verus! {

/// How many events the manager's bus holds.
pub const EVENT_CAPACITY: usize = 100;

/// The message for a connection id that is not registered.
pub open spec fn connection_not_found(connection_id: Seq<char>) -> Seq<char> {
    "Connection "@ + connection_id + " not found"@
}

/// The model of the registry.
pub struct ManagerView {
    pub connections: Seq<ConnectionView>,
    /// The state of each connection, at the place of the connection.
    pub states: Seq<StateView>,
    pub outbox: OutboxView,
}

impl ManagerView {
    /// A state and a connection that may stand side by side: they go by the
    /// same id, the state records an error exactly in the `Error` status,
    /// and it says `Connected` only of a connection that is up.
    pub open spec fn paired(connection: ConnectionView, state: StateView) -> bool {
        &&& connection.id == state.id
        &&& state.consistent()
        &&& state.status is Connected ==> connection.connected
    }

    /// Every connection has exactly one state, at the same place, and the
    /// two are paired; no id is registered twice; every connection is well
    /// formed.
    pub open spec fn wf(self) -> bool {
        &&& self.connections.len() == self.states.len()
        &&& forall|i: int|
            0 <= i < self.connections.len() ==> ManagerView::paired(
                #[trigger] self.connections[i],
                self.states[i],
            )
        &&& forall|i: int| 0 <= i < self.connections.len() ==> (#[trigger] self.connections[i]).wf()
        &&& forall|i: int, j: int|
            0 <= i < j < self.connections.len() ==> (#[trigger] self.connections[i]).id != (
            #[trigger] self.connections[j]).id
    }

    pub open spec fn contains(self, connection_id: Seq<char>) -> bool {
        exists|i: int|
            0 <= i < self.connections.len() && (#[trigger] self.connections[i]).id
                == connection_id
    }

    /// Where `connection_id` is registered, if it is.
    pub open spec fn index(self, connection_id: Seq<char>) -> int {
        choose|i: int|
            0 <= i < self.connections.len() && (#[trigger] self.connections[i]).id
                == connection_id
    }

    pub open spec fn connection(self, connection_id: Seq<char>) -> ConnectionView {
        self.connections[self.index(connection_id)]
    }

    pub open spec fn state(self, connection_id: Seq<char>) -> StateView {
        self.states[self.index(connection_id)]
    }

    /// The ids of the registered connections, in the order of registration.
    pub open spec fn ids(self) -> Seq<Seq<char>> {
        self.connections.map_values(|c: ConnectionView| c.id)
    }

    /// The registry with the entry of `connection_id` and the outbox
    /// replaced.
    pub open spec fn replace(
        self,
        connection_id: Seq<char>,
        connection: ConnectionView,
        state: StateView,
        outbox: OutboxView,
    ) -> ManagerView {
        ManagerView {
            connections: self.connections.update(self.index(connection_id), connection),
            states: self.states.update(self.index(connection_id), state),
            outbox: outbox,
        }
    }

    /// A connection and its state registered under the connection's id: in
    /// place of the entry with that id, or behind all others.
    pub open spec fn register(self, connection: ConnectionView, state: StateView) -> ManagerView {
        if self.contains(connection.id) {
            self.replace(connection.id, connection, state, self.outbox)
        } else {
            ManagerView {
                connections: self.connections.push(connection),
                states: self.states.push(state),
                outbox: self.outbox,
            }
        }
    }

    /// A new connection for `config`, registered in the `Connecting` status
    /// at the time `now`. `assigned` is the id that the connection gets if
    /// `config` has none.
    pub open spec fn create_connection(
        self,
        config: ConfigView,
        assigned: Seq<char>,
        key_file_present: bool,
        now: i64,
    ) -> (ManagerView, Result<Seq<char>, Seq<char>>) {
        let errors = config.validation_errors(key_file_present);
        if errors.len() > 0 {
            (self, Err(validation_failure(errors)))
        } else {
            let id = if config.id.len() == 0 {
                assigned
            } else {
                config.id
            };
            (
                self.register(
                    ConnectionView::fresh(ConfigView { id: id, ..config }),
                    StateView::fresh(id, now).with_status(ConnectionStatus::Connecting, now),
                ),
                Ok(id),
            )
        }
    }

    /// The first step of connecting a registered connection at the time
    /// `now`: its state becomes `Connecting`, or `Error` if the attempt ends
    /// here.
    pub open spec fn connect_existing(
        self,
        connection_id: Seq<char>,
        key_file_present: bool,
        now: i64,
    ) -> (ManagerView, Result<RequestView, Seq<char>>) {
        if !self.contains(connection_id) {
            (self, Err(connection_not_found(connection_id)))
        } else {
            let connection = self.connection(connection_id);
            let connecting = self.state(connection_id).with_status(
                ConnectionStatus::Connecting,
                now,
            );
            let (r, outbox) = connection.connect(key_file_present, self.outbox);
            let state = match r {
                Ok(_) => connecting,
                Err(message) => connecting.with_error(message, now),
            };
            (self.replace(connection_id, connection, state, outbox), r)
        }
    }

    /// The second step of connecting a registered connection at the time
    /// `now`: its state becomes `Connected`, or `Error` with the message
    /// that is returned.
    pub open spec fn complete_connect(
        self,
        connection_id: Seq<char>,
        outcome: OutcomeView,
        now: i64,
    ) -> (ManagerView, Result<(), Seq<char>>) {
        if !self.contains(connection_id) {
            (self, Err(connection_not_found(connection_id)))
        } else {
            let (connection, r, outbox) = self.connection(connection_id).complete_connect(
                outcome,
                self.outbox,
            );
            let state = match r {
                Ok(_) => self.state(connection_id).with_status(ConnectionStatus::Connected, now),
                Err(message) => self.state(connection_id).with_error(message, now),
            };
            (self.replace(connection_id, connection, state, outbox), r)
        }
    }

    /// A registered connection torn down at the time `now`: its state
    /// becomes `Disconnected`.
    pub open spec fn disconnect_connection(self, connection_id: Seq<char>, now: i64) -> (
        ManagerView,
        Result<(), Seq<char>>,
    ) {
        if !self.contains(connection_id) {
            (self, Err(connection_not_found(connection_id)))
        } else {
            let (connection, outbox) = self.connection(connection_id).disconnect(self.outbox);
            (
                self.replace(
                    connection_id,
                    connection,
                    self.state(connection_id).with_status(ConnectionStatus::Disconnected, now),
                    outbox,
                ),
                Ok(()),
            )
        }
    }

    /// A registered connection torn down and taken out of the registry with
    /// its state.
    pub open spec fn remove_connection(self, connection_id: Seq<char>) -> (
        ManagerView,
        Result<(), Seq<char>>,
    ) {
        if !self.contains(connection_id) {
            (self, Err(connection_not_found(connection_id)))
        } else {
            let (_connection, outbox) = self.connection(connection_id).disconnect(self.outbox);
            (
                ManagerView {
                    connections: self.connections.remove(self.index(connection_id)),
                    states: self.states.remove(self.index(connection_id)),
                    outbox: outbox,
                },
                Ok(()),
            )
        }
    }

    /// The terminal sessions of a connection; none where there is no such
    /// connection.
    pub open spec fn sessions_of(self, connection_id: Seq<char>) -> Seq<SessionView> {
        if self.contains(connection_id) {
            self.connection(connection_id).sessions()
        } else {
            Seq::empty()
        }
    }

    pub open spec fn create_terminal_session(
        self,
        connection_id: Seq<char>,
        terminal_id: Seq<char>,
        created_at: i64,
    ) -> (ManagerView, Result<Seq<char>, Seq<char>>) {
        if !self.contains(connection_id) {
            (self, Err(connection_not_found(connection_id)))
        } else {
            let (connection, r, outbox) = self.connection(connection_id).create_terminal_session(
                terminal_id,
                created_at,
                self.outbox,
            );
            (self.replace(connection_id, connection, self.state(connection_id), outbox), r)
        }
    }

    pub open spec fn send_terminal_input(
        self,
        connection_id: Seq<char>,
        terminal_id: Seq<char>,
        data: Seq<u8>,
    ) -> (ManagerView, Result<(), Seq<char>>) {
        if !self.contains(connection_id) {
            (self, Err(connection_not_found(connection_id)))
        } else {
            let (r, outbox) = self.connection(connection_id).terminals.send_input(
                terminal_id,
                data,
                self.outbox,
            );
            (ManagerView { outbox: outbox, ..self }, r)
        }
    }

    pub open spec fn resize_terminal(
        self,
        connection_id: Seq<char>,
        terminal_id: Seq<char>,
        size: TerminalSize,
    ) -> (ManagerView, Result<(), Seq<char>>) {
        if !self.contains(connection_id) {
            (self, Err(connection_not_found(connection_id)))
        } else {
            let (connection, r, outbox) = self.connection(connection_id).resize_terminal(
                terminal_id,
                size,
                self.outbox,
            );
            (self.replace(connection_id, connection, self.state(connection_id), outbox), r)
        }
    }

    pub open spec fn complete_resize(
        self,
        connection_id: Seq<char>,
        terminal_id: Seq<char>,
        outcome: Result<(), Seq<char>>,
    ) -> (ManagerView, Result<(), Seq<char>>) {
        if !self.contains(connection_id) {
            (self, Err(connection_not_found(connection_id)))
        } else {
            let (r, outbox) = self.connection(connection_id).complete_resize(
                terminal_id,
                outcome,
                self.outbox,
            );
            (ManagerView { outbox: outbox, ..self }, r)
        }
    }

    pub open spec fn close_terminal_session(
        self,
        connection_id: Seq<char>,
        terminal_id: Seq<char>,
    ) -> (ManagerView, Result<(), Seq<char>>) {
        if !self.contains(connection_id) {
            (self, Err(connection_not_found(connection_id)))
        } else {
            let (connection, r, outbox) = self.connection(connection_id).close_terminal_session(
                terminal_id,
                self.outbox,
            );
            (self.replace(connection_id, connection, self.state(connection_id), outbox), r)
        }
    }

    pub open spec fn attach_channel(
        self,
        connection_id: Seq<char>,
        terminal_id: Seq<char>,
        channel: u32,
    ) -> (ManagerView, Result<(), Seq<char>>) {
        if !self.contains(connection_id) {
            (self, Err(connection_not_found(connection_id)))
        } else {
            let (connection, r) = self.connection(connection_id).attach_channel(
                terminal_id,
                channel,
            );
            (self.replace(connection_id, connection, self.state(connection_id), self.outbox), r)
        }
    }
}

/// The views of a list of connections, in order.
pub open spec fn connection_views(connections: Seq<SSHConnection>) -> Seq<ConnectionView> {
    connections.map_values(|c: SSHConnection| c@)
}

/// The views of a list of states, in order.
pub open spec fn state_views(states: Seq<SSHConnectionState>) -> Seq<StateView> {
    states.map_values(|s: SSHConnectionState| s@)
}

/// The texts of a list of strings, in order.
pub open spec fn texts(strings: Seq<String>) -> Seq<Seq<char>> {
    strings.map_values(|s: String| s@)
}

/// Where an id is registered, it is registered at one place only.
pub proof fn lemma_index_unique(manager: ManagerView, connection_id: Seq<char>, i: int)
    requires
        manager.wf(),
        0 <= i < manager.connections.len(),
        manager.connections[i].id == connection_id,
    ensures
        manager.contains(connection_id),
        manager.index(connection_id) == i,
{
}

/// The message for an unknown connection names that connection.
pub proof fn lemma_not_found_mentions_id(connection_id: Seq<char>)
    ensures
        mentions(connection_not_found(connection_id), connection_id),
{
    lemma_mentions_middle("Connection "@, connection_id, " not found"@);
}

/// The message for an unknown connection id.
pub fn not_found_message(connection_id: &str) -> (message: String)
    ensures
        message@ == connection_not_found(connection_id@),
{
    concat3("Connection ", connection_id, " not found")
}

/// The owner of all connections and of their externally visible states.
pub struct SSHManager {
    connections: Vec<SSHConnection>,
    connection_states: Vec<SSHConnectionState>,
    outbox: Outbox,
}

impl View for SSHManager {
    type V = ManagerView;

    closed spec fn view(&self) -> ManagerView {
        ManagerView {
            connections: connection_views(self.connections@),
            states: state_views(self.connection_states@),
            outbox: self.outbox@,
        }
    }
}

impl SSHManager {
    pub open spec fn wf(&self) -> bool {
        self@.wf()
    }

    /// An empty registry with a bus of [`EVENT_CAPACITY`] events.
    pub fn new() -> (manager: SSHManager)
        ensures
            manager.wf(),
            manager@.connections.len() == 0,
            manager@.outbox == Outbox::new_view(EVENT_CAPACITY),
    {
        let manager = SSHManager {
            connections: Vec::new(),
            connection_states: Vec::new(),
            outbox: Outbox::new(EVENT_CAPACITY),
        };
        assert(connection_views(manager.connections@) =~= Seq::empty());
        assert(state_views(manager.connection_states@) =~= Seq::empty());
        manager
    }

    /// Where `connection_id` is registered.
    fn find(&self, connection_id: &str) -> (r: Option<usize>)
        requires
            self.wf(),
        ensures
            match r {
                Some(i) => {
                    &&& i < self.connections@.len()
                    &&& i < self.connection_states@.len()
                    &&& self@.contains(connection_id@)
                    &&& self@.index(connection_id@) == i
                    &&& self@.connection(connection_id@) == self.connections@[i as int]@
                    &&& self@.state(connection_id@) == self.connection_states@[i as int]@
                    &&& self.connections@[i as int].wf()
                },
                None => !self@.contains(connection_id@),
            },
    {
        let n: usize = self.connections.len();
        let mut i: usize = 0;
        while i < n
            invariant
                self.wf(),
                n == self.connections@.len(),
                i <= n,
                forall|j: int| 0 <= j < i ==> (#[trigger] self@.connections[j]).id != connection_id@,
            decreases n - i,
        {
            assert(self@.connections[i as int] == self.connections@[i as int]@);
            assert(self@.states[i as int] == self.connection_states@[i as int]@);
            if str_equal(self.connections[i].id(), connection_id) {
                proof {
                    lemma_index_unique(self@, connection_id@, i as int);
                }
                return Some(i);
            }
            i = i + 1;
        }
        None
    }

    /// Registers a connection and its state under the connection's id.
    fn register(&mut self, connection: SSHConnection, state: SSHConnectionState)
        requires
            old(self).wf(),
            connection.wf(),
            ManagerView::paired(connection@, state@),
        ensures
            final(self).wf(),
            final(self)@ == old(self)@.register(connection@, state@),
    {
        match self.find(connection.id()) {
            Some(i) => {
                self.connections.set(i, connection);
                self.connection_states.set(i, state);
                assert(self@.connections =~= old(self)@.connections.update(i as int, connection@));
                assert(self@.states =~= old(self)@.states.update(i as int, state@));
                proof {
                    lemma_replace_keeps_wf(old(self)@, connection@.id, connection@, state@, self@.outbox);
                }
            },
            None => {
                self.connections.push(connection);
                self.connection_states.push(state);
                assert(self@.connections =~= old(self)@.connections.push(connection@));
                assert(self@.states =~= old(self)@.states.push(state@));
                assert forall|a: int, b: int| 0 <= a < b < self@.connections.len() implies (
                #[trigger] self@.connections[a]).id != (#[trigger] self@.connections[b]).id by {
                    if b == old(self)@.connections.len() {
                        assert(old(self)@.connections[a].id != connection@.id);
                    }
                }
            },
        }
    }

    /// Registers a connection for `config` in the `Connecting` status at
    /// the time `now` and returns its id: the one `config` has, or a fresh
    /// one if it has none. `key_file_present` says whether the private key
    /// file is there. The host connects the connection with
    /// `connect_existing` and `complete_connect`.
    pub fn create_connection_with(
        &mut self,
        config: SSHConnectionConfig,
        key_file_present: bool,
        now: i64,
    ) -> (r: Result<String, String>)
        requires
            old(self).wf(),
        ensures
            final(self).wf(),
            (final(self)@, text_result(r)) == old(self)@.create_connection(
                config@,
                ok_text(r),
                key_file_present,
                now,
            ),
            r matches Ok(id) ==> id@.len() > 0 && final(self)@.contains(id@),
    {
        let mut config = config;
        let ghost given = config@;
        match config.validate_with(key_file_present) {
            Ok(_) => {},
            Err(errors) => {
                return Err(validation_failure_message(&errors));
            },
        }
        if config.id.as_str().is_empty() {
            config.id = fresh_identifier();
        }
        let mut state = SSHConnectionState::new_at(config.id.clone(), now);
        state.update_status_at(ConnectionStatus::Connecting, now);
        let connection = SSHConnection::new(config.clone());
        let id = config.id.clone();
        assert(config@ == (ConfigView { id: id@, ..given }));
        assert(config@.validation_errors(key_file_present) == given.validation_errors(
            key_file_present,
        ));
        self.register(connection, state);
        proof {
            lemma_register_contains(
                old(self)@,
                ConnectionView::fresh(config@),
                StateView::fresh(id@, now).with_status(ConnectionStatus::Connecting, now),
            );
        }
        Ok(id)
    }

    /// Registers a connection as `create_connection_with` does, now, and
    /// looking for the private key file on disk where `config` names one.
    /// The outcome is the one that `create_connection_with` gives for
    /// whatever the clock said and for a present or an absent file; where no
    /// file has to be looked for, it is the one for an absent file.
    pub fn create_connection(&mut self, config: SSHConnectionConfig) -> (r: Result<String, String>)
        requires
            old(self).wf(),
        ensures
            final(self).wf(),
            exists|key_file_present: bool, now: i64|
                (!config@.needs_key_file() ==> !key_file_present) && (final(self)@, text_result(r))
                    == #[trigger] old(self)@.create_connection(
                    config@,
                    ok_text(r),
                    key_file_present,
                    now,
                ),
            r matches Ok(id) ==> id@.len() > 0 && final(self)@.contains(id@),
    {
        let present = config.key_file_present();
        let now = current_time_millis();
        self.create_connection_with(config, present, now)
    }

    /// The first step of connecting a registered connection at the time
    /// `now`, given whether its private key file is there: marks it as
    /// `Connecting` and answers with what the host has to dial. Where the
    /// attempt ends here, the state becomes `Error` with the message that
    /// is returned.
    pub fn connect_existing_with(&mut self, connection_id: &str, key_file_present: bool, now: i64) -> (r:
        Result<ConnectRequest, String>)
        requires
            old(self).wf(),
        ensures
            final(self).wf(),
            (final(self)@, request_result(r)) == old(self)@.connect_existing(
                connection_id@,
                key_file_present,
                now,
            ),
    {
        let i = match self.find(connection_id) {
            Some(i) => i,
            None => {
                return Err(not_found_message(connection_id));
            },
        };
        self.connection_states[i].update_status_at(ConnectionStatus::Connecting, now);
        let r = self.connections[i].connect_with(key_file_present, &mut self.outbox);
        match &r {
            Ok(_) => {},
            Err(error) => {
                self.connection_states[i].set_error_at(error.clone(), now);
            },
        }
        proof {
            let state = self.connection_states@[i as int]@;
            assert(self@.connections =~= old(self)@.connections.update(
                i as int,
                old(self)@.connection(connection_id@),
            ));
            assert(self@.states =~= old(self)@.states.update(i as int, state));
            lemma_replace_keeps_wf(
                old(self)@,
                connection_id@,
                old(self)@.connection(connection_id@),
                state,
                self@.outbox,
            );
        }
        r
    }

    /// The first step of connecting a registered connection, as
    /// `connect_existing_with` does it, now, and looking for the private key
    /// file on disk where the configuration names one. The outcome is the
    /// one that `connect_existing_with` gives for whatever the clock said
    /// and for a present or an absent file; for a connection that is not
    /// registered, or that needs no key file, it is the one for an absent
    /// file.
    pub fn connect_existing(&mut self, connection_id: &str) -> (r: Result<ConnectRequest, String>)
        requires
            old(self).wf(),
        ensures
            final(self).wf(),
            exists|key_file_present: bool, now: i64|
                (!old(self)@.contains(connection_id@) || !old(self)@.connection(
                    connection_id@,
                ).config.needs_key_file() ==> !key_file_present) && (
                    final(self)@,
                    request_result(r),
                ) == #[trigger] old(self)@.connect_existing(connection_id@, key_file_present, now),
    {
        let present = match self.find(connection_id) {
            Some(i) => self.connections[i].key_file_present(),
            None => false,
        };
        let now = current_time_millis();
        self.connect_existing_with(connection_id, present, now)
    }

    /// The second step of connecting a registered connection at the time
    /// `now`: records what came of the host's attempt. The state becomes
    /// `Connected`, or `Error` with the message that is returned and
    /// announced.
    pub fn complete_connect_at(&mut self, connection_id: &str, outcome: ConnectOutcome, now: i64) -> (r:
        Result<(), String>)
        requires
            old(self).wf(),
        ensures
            final(self).wf(),
            (final(self)@, unit_result(r)) == old(self)@.complete_connect(
                connection_id@,
                outcome@,
                now,
            ),
    {
        let i = match self.find(connection_id) {
            Some(i) => i,
            None => {
                return Err(not_found_message(connection_id));
            },
        };
        let r = self.connections[i].complete_connect(outcome, &mut self.outbox);
        match &r {
            Ok(_) => {
                self.connection_states[i].update_status_at(ConnectionStatus::Connected, now);
            },
            Err(error) => {
                self.connection_states[i].set_error_at(error.clone(), now);
            },
        }
        proof {
            let connection = self.connections@[i as int]@;
            let state = self.connection_states@[i as int]@;
            assert(self@.connections =~= old(self)@.connections.update(i as int, connection));
            assert(self@.states =~= old(self)@.states.update(i as int, state));
            lemma_replace_keeps_wf(old(self)@, connection_id@, connection, state, self@.outbox);
        }
        r
    }

    /// The second step of connecting a registered connection, now: the
    /// outcome is the one that `complete_connect_at` gives for whatever the
    /// clock said.
    pub fn complete_connect(&mut self, connection_id: &str, outcome: ConnectOutcome) -> (r: Result<
        (),
        String,
    >)
        requires
            old(self).wf(),
        ensures
            final(self).wf(),
            exists|now: i64|
                (final(self)@, unit_result(r)) == #[trigger] old(self)@.complete_connect(
                    connection_id@,
                    outcome@,
                    now,
                ),
    {
        let now = current_time_millis();
        self.complete_connect_at(connection_id, outcome, now)
    }

    /// Tears a registered connection down at the time `now` and marks it
    /// `Disconnected`.
    pub fn disconnect_connection_at(&mut self, connection_id: &str, now: i64) -> (r: Result<
        (),
        String,
    >)
        requires
            old(self).wf(),
        ensures
            final(self).wf(),
            (final(self)@, unit_result(r)) == old(self)@.disconnect_connection(
                connection_id@,
                now,
            ),
    {
        let i = match self.find(connection_id) {
            Some(i) => i,
            None => {
                return Err(not_found_message(connection_id));
            },
        };
        match self.connections[i].disconnect(&mut self.outbox) {
            Ok(_) => {},
            Err(e) => {
                return Err(e);
            },
        }
        self.connection_states[i].update_status_at(ConnectionStatus::Disconnected, now);
        proof {
            let connection = self.connections@[i as int]@;
            let state = self.connection_states@[i as int]@;
            assert(self@.connections =~= old(self)@.connections.update(i as int, connection));
            assert(self@.states =~= old(self)@.states.update(i as int, state));
            lemma_replace_keeps_wf(old(self)@, connection_id@, connection, state, self@.outbox);
        }
        Ok(())
    }

    /// Tears a registered connection down, now, and marks it `Disconnected`:
    /// the outcome is the one that `disconnect_connection_at` gives for
    /// whatever the clock said.
    pub fn disconnect_connection(&mut self, connection_id: &str) -> (r: Result<(), String>)
        requires
            old(self).wf(),
        ensures
            final(self).wf(),
            exists|now: i64|
                (final(self)@, unit_result(r)) == #[trigger] old(self)@.disconnect_connection(
                    connection_id@,
                    now,
                ),
    {
        let now = current_time_millis();
        self.disconnect_connection_at(connection_id, now)
    }

    /// The connection registered under `connection_id`, if there is one.
    pub fn get_connection(&self, connection_id: &str) -> (r: Option<&SSHConnection>)
        requires
            self.wf(),
        ensures
            match r {
                Some(connection) => self@.contains(connection_id@) && connection@
                    == self@.connection(connection_id@) && connection.wf(),
                None => !self@.contains(connection_id@),
            },
    {
        match self.find(connection_id) {
            Some(i) => Some(&self.connections[i]),
            None => None,
        }
    }

    /// The state of the connection registered under `connection_id`, if
    /// there is one.
    pub fn get_connection_state(&self, connection_id: &str) -> (r: Option<SSHConnectionState>)
        requires
            self.wf(),
        ensures
            match r {
                Some(state) => self@.contains(connection_id@) && state@ == self@.state(
                    connection_id@,
                ),
                None => !self@.contains(connection_id@),
            },
    {
        match self.find(connection_id) {
            Some(i) => Some(self.connection_states[i].clone()),
            None => None,
        }
    }

    /// Tears a registered connection down, whatever that takes, and takes it
    /// and its state out of the registry.
    pub fn remove_connection(&mut self, connection_id: &str) -> (r: Result<(), String>)
        requires
            old(self).wf(),
        ensures
            final(self).wf(),
            (final(self)@, unit_result(r)) == old(self)@.remove_connection(connection_id@),
    {
        let i = match self.find(connection_id) {
            Some(i) => i,
            None => {
                return Err(not_found_message(connection_id));
            },
        };
        let _ = self.connections[i].disconnect(&mut self.outbox);
        self.connections.remove(i);
        self.connection_states.remove(i);
        proof {
            assert(self@.connections =~= old(self)@.connections.remove(i as int));
            assert(self@.states =~= old(self)@.states.remove(i as int));
        }
        Ok(())
    }

    /// The ids of the registered connections, in the order of registration.
    pub fn list_connections(&self) -> (r: Vec<String>)
        ensures
            texts(r@) == self@.ids(),
    {
        let mut out: Vec<String> = Vec::new();
        let n: usize = self.connections.len();
        let mut i: usize = 0;
        while i < n
            invariant
                n == self.connections@.len(),
                i <= n,
                texts(out@) == self@.ids().take(i as int),
            decreases n - i,
        {
            let ghost before = texts(out@);
            out.push(self.connections[i].id().to_string());
            assert(self@.connections[i as int] == self.connections@[i as int]@);
            assert(texts(out@) =~= before.push(self@.ids()[i as int]));
            assert(self@.ids().take(i + 1) =~= self@.ids().take(i as int).push(
                self@.ids()[i as int],
            ));
            i = i + 1;
        }
        assert(self@.ids().take(n as int) =~= self@.ids());
        out
    }

    /// The states of the registered connections, in the order of
    /// registration.
    pub fn list_connection_states(&self) -> (r: Vec<SSHConnectionState>)
        ensures
            state_views(r@) == self@.states,
    {
        let mut out: Vec<SSHConnectionState> = Vec::new();
        let n: usize = self.connection_states.len();
        let mut i: usize = 0;
        while i < n
            invariant
                n == self.connection_states@.len(),
                i <= n,
                state_views(out@) == self@.states.take(i as int),
            decreases n - i,
        {
            let ghost before = state_views(out@);
            out.push(self.connection_states[i].clone());
            assert(self@.states[i as int] == self.connection_states@[i as int]@);
            assert(state_views(out@) =~= before.push(self@.states[i as int]));
            assert(self@.states.take(i + 1) =~= self@.states.take(i as int).push(
                self@.states[i as int],
            ));
            i = i + 1;
        }
        assert(self@.states.take(n as int) =~= self@.states);
        out
    }

    /// Whether the connection registered under `connection_id` is up; an
    /// unknown connection is not.
    pub fn is_connected(&self, connection_id: &str) -> (r: bool)
        requires
            self.wf(),
        ensures
            r == (self@.contains(connection_id@) && self@.connection(connection_id@).connected),
    {
        match self.find(connection_id) {
            Some(i) => self.connections[i].is_connected(),
            None => false,
        }
    }

    /// Opens a terminal session on a registered connection under the id
    /// `terminal_id`, created at `created_at`, and returns that id.
    pub fn create_terminal_session_with(
        &mut self,
        connection_id: &str,
        terminal_id: String,
        created_at: i64,
    ) -> (r: Result<String, String>)
        requires
            old(self).wf(),
        ensures
            final(self).wf(),
            (final(self)@, text_result(r)) == old(self)@.create_terminal_session(
                connection_id@,
                terminal_id@,
                created_at,
            ),
    {
        let i = match self.find(connection_id) {
            Some(i) => i,
            None => {
                return Err(not_found_message(connection_id));
            },
        };
        let r = self.connections[i].create_terminal_session_with(
            terminal_id,
            created_at,
            &mut self.outbox,
        );
        proof {
            self.lemma_replaced(old(self), connection_id@, i as int);
        }
        r
    }

    /// Opens a terminal session on a registered connection under a fresh id
    /// and returns that id. The session is created now: the outcome is the
    /// one that `create_terminal_session_with` gives for the id returned and
    /// for whatever the clock said.
    pub fn create_terminal_session(&mut self, connection_id: &str) -> (r: Result<String, String>)
        requires
            old(self).wf(),
        ensures
            final(self).wf(),
            exists|created_at: i64|
                (final(self)@, text_result(r)) == #[trigger] old(self)@.create_terminal_session(
                    connection_id@,
                    ok_text(r),
                    created_at,
                ),
    {
        let i = match self.find(connection_id) {
            Some(i) => i,
            None => {
                let r = Err(not_found_message(connection_id));
                assert((self@, text_result(r)) == old(self)@.create_terminal_session(
                    connection_id@,
                    ok_text(r),
                    0,
                ));
                return r;
            },
        };
        let ghost before = self.connections@[i as int]@;
        let ghost outbox = self@.outbox;
        let r = self.connections[i].create_terminal_session(&mut self.outbox);
        proof {
            self.lemma_replaced(old(self), connection_id@, i as int);
            let created_at = choose|created_at: i64|
                (self.connections@[i as int]@, text_result(r), self@.outbox)
                    == #[trigger] before.create_terminal_session(ok_text(r), created_at, outbox);
            assert(before == old(self)@.connection(connection_id@));
            assert((self@, text_result(r)) == old(self)@.create_terminal_session(
                connection_id@,
                ok_text(r),
                created_at,
            ));
        }
        r
    }

    /// Sends input to a terminal session of a registered connection.
    pub fn send_terminal_input(&mut self, connection_id: &str, terminal_id: &str, data: &[u8]) -> (r:
        Result<(), String>)
        requires
            old(self).wf(),
        ensures
            final(self).wf(),
            (final(self)@, unit_result(r)) == old(self)@.send_terminal_input(
                connection_id@,
                terminal_id@,
                data@,
            ),
    {
        let i = match self.find(connection_id) {
            Some(i) => i,
            None => {
                return Err(not_found_message(connection_id));
            },
        };
        self.connections[i].send_terminal_input(terminal_id, data, &mut self.outbox)
    }

    /// The first step of resizing a terminal session of a registered
    /// connection: see `TerminalSessionManager::resize_terminal`.
    pub fn resize_terminal(
        &mut self,
        connection_id: &str,
        terminal_id: &str,
        cols: u16,
        rows: u16,
        pixel_width: u16,
        pixel_height: u16,
    ) -> (r: Result<(), String>)
        requires
            old(self).wf(),
        ensures
            final(self).wf(),
            (final(self)@, unit_result(r)) == old(self)@.resize_terminal(
                connection_id@,
                terminal_id@,
                TerminalSize { cols, rows, pixel_width, pixel_height },
            ),
    {
        let i = match self.find(connection_id) {
            Some(i) => i,
            None => {
                return Err(not_found_message(connection_id));
            },
        };
        let r = self.connections[i].resize_terminal(
            terminal_id,
            cols,
            rows,
            pixel_width,
            pixel_height,
            &mut self.outbox,
        );
        proof {
            self.lemma_replaced(old(self), connection_id@, i as int);
        }
        r
    }

    /// The second step of resizing a terminal session of a registered
    /// connection: takes what came of the window change that the host
    /// carried out.
    pub fn complete_resize(
        &mut self,
        connection_id: &str,
        terminal_id: &str,
        outcome: Result<(), String>,
    ) -> (r: Result<(), String>)
        requires
            old(self).wf(),
        ensures
            final(self).wf(),
            (final(self)@, unit_result(r)) == old(self)@.complete_resize(
                connection_id@,
                terminal_id@,
                unit_result(outcome),
            ),
    {
        let i = match self.find(connection_id) {
            Some(i) => i,
            None => {
                return Err(not_found_message(connection_id));
            },
        };
        self.connections[i].complete_resize(terminal_id, outcome, &mut self.outbox)
    }

    /// Closes a terminal session of a registered connection.
    pub fn close_terminal_session(&mut self, connection_id: &str, terminal_id: &str) -> (r: Result<
        (),
        String,
    >)
        requires
            old(self).wf(),
        ensures
            final(self).wf(),
            (final(self)@, unit_result(r)) == old(self)@.close_terminal_session(
                connection_id@,
                terminal_id@,
            ),
    {
        let i = match self.find(connection_id) {
            Some(i) => i,
            None => {
                return Err(not_found_message(connection_id));
            },
        };
        let r = self.connections[i].close_terminal_session(terminal_id, &mut self.outbox);
        proof {
            self.lemma_replaced(old(self), connection_id@, i as int);
        }
        r
    }

    /// Attaches the channel that carries a terminal of a registered
    /// connection.
    pub fn attach_channel(&mut self, connection_id: &str, terminal_id: &str, channel: u32) -> (r:
        Result<(), String>)
        requires
            old(self).wf(),
        ensures
            final(self).wf(),
            (final(self)@, unit_result(r)) == old(self)@.attach_channel(
                connection_id@,
                terminal_id@,
                channel,
            ),
    {
        let i = match self.find(connection_id) {
            Some(i) => i,
            None => {
                return Err(not_found_message(connection_id));
            },
        };
        let r = self.connections[i].attach_channel(terminal_id, channel);
        proof {
            self.lemma_replaced(old(self), connection_id@, i as int);
        }
        r
    }

    /// A terminal session of a registered connection, if the connection has
    /// one under `terminal_id`.
    pub fn get_terminal_session(&self, connection_id: &str, terminal_id: &str) -> (r: Result<
        Option<TerminalSession>,
        String,
    >)
        requires
            self.wf(),
        ensures
            match r {
                Ok(Some(session)) => {
                    &&& self@.contains(connection_id@)
                    &&& self@.connection(connection_id@).terminals.contains(terminal_id@)
                    &&& session@ == self@.connection(connection_id@).terminals.entry(
                        terminal_id@,
                    ).session
                },
                Ok(None) => self@.contains(connection_id@) && !self@.connection(
                    connection_id@,
                ).terminals.contains(terminal_id@),
                Err(message) => !self@.contains(connection_id@) && message@
                    == connection_not_found(connection_id@),
            },
    {
        match self.find(connection_id) {
            Some(i) => Ok(self.connections[i].get_terminal_session(terminal_id)),
            None => Err(not_found_message(connection_id)),
        }
    }

    /// The terminal sessions of a registered connection, in the order of
    /// opening.
    pub fn list_terminal_sessions(&self, connection_id: &str) -> (r: Result<
        Vec<TerminalSession>,
        String,
    >)
        requires
            self.wf(),
        ensures
            match r {
                Ok(sessions) => self@.contains(connection_id@) && session_views(sessions@)
                    == self@.sessions_of(connection_id@),
                Err(message) => !self@.contains(connection_id@) && message@
                    == connection_not_found(connection_id@),
            },
    {
        match self.find(connection_id) {
            Some(i) => Ok(self.connections[i].list_terminal_sessions()),
            None => Err(not_found_message(connection_id)),
        }
    }

    /// Whether a background task of a terminal has to stop: it has as soon
    /// as its session, or the whole connection, is no longer registered.
    pub fn task_should_stop(&self, connection_id: &str, terminal_id: &str) -> (stop: bool)
        requires
            self.wf(),
        ensures
            stop == !(self@.contains(connection_id@) && self@.connection(
                connection_id@,
            ).terminals.contains(terminal_id@)),
    {
        match self.find(connection_id) {
            Some(i) => self.connections[i].task_should_stop(terminal_id),
            None => true,
        }
    }

    /// After an operation on the connection at place `i` that kept its id:
    /// the registry is the former one with that connection and the outbox
    /// replaced, and it is well formed.
    proof fn lemma_replaced(&self, before: &SSHManager, connection_id: Seq<char>, i: int)
        requires
            before.wf(),
            0 <= i < before.connections@.len(),
            before@.contains(connection_id),
            before@.index(connection_id) == i,
            self.connections@.len() == before.connections@.len(),
            self.connection_states@ == before.connection_states@,
            forall|j: int|
                0 <= j < before.connections@.len() && j != i ==> self.connections@[j]
                    == before.connections@[j],
            self.connections@[i]@.id == connection_id,
            self.connections@[i]@.connected == before.connections@[i]@.connected,
            self.connections@[i].wf(),
        ensures
            self@ == before@.replace(
                connection_id,
                self.connections@[i]@,
                before@.state(connection_id),
                self@.outbox,
            ),
            self.wf(),
    {
        assert(self@.connections =~= before@.connections.update(i, self.connections@[i]@));
        assert(self@.states =~= before@.states.update(i, before@.state(connection_id)));
        assert(ManagerView::paired(before@.connections[i], before@.states[i]));
        lemma_replace_keeps_wf(
            before@,
            connection_id,
            self.connections@[i]@,
            before@.state(connection_id),
            self@.outbox,
        );
    }

    /// The receiving end of the event bus.
    pub fn get_event_receiver(&mut self) -> (bus: &mut EventBus)
        ensures
            bus@ == old(self)@.outbox.events,
            final(self)@ == (ManagerView {
                outbox: OutboxView { events: final(bus)@, ..old(self)@.outbox },
                ..old(self)@
            }),
    {
        &mut self.outbox.events
    }

    /// Sends an event on the bus.
    pub fn send_event(&mut self, event: SSHEvent) -> (r: Result<(), String>)
        ensures
            r is Ok,
            final(self)@ == (ManagerView {
                outbox: old(self)@.outbox.emit(event@),
                ..old(self)@
            }),
    {
        self.outbox.emit(event);
        Ok(())
    }

    /// Takes the actions queued for the host, in the order in which they are
    /// to be carried out.
    pub fn take_actions(&mut self) -> (actions: Vec<HostAction>)
        ensures
            action_views(actions@) == old(self)@.outbox.actions,
            final(self)@ == (ManagerView {
                outbox: OutboxView { actions: Seq::empty(), ..old(self)@.outbox },
                ..old(self)@
            }),
    {
        self.outbox.take_actions()
    }

    /// Takes the events that wait for the consumer, oldest first.
    pub fn drain_events(&mut self) -> (events: Vec<SSHEvent>)
        ensures
            event_views(events@) == old(self)@.outbox.events.pending,
            final(self)@ == (ManagerView {
                outbox: OutboxView {
                    events: crate::ssh::outbox::BusView {
                        pending: Seq::empty(),
                        ..old(self)@.outbox.events
                    },
                    ..old(self)@.outbox
                },
                ..old(self)@
            }),
    {
        self.outbox.events.drain()
    }
}

/// Replacing the entry of a registered id by a well-formed connection and a
/// state under the same id keeps the registry well formed.
pub proof fn lemma_replace_keeps_wf(
    manager: ManagerView,
    connection_id: Seq<char>,
    connection: ConnectionView,
    state: StateView,
    outbox: OutboxView,
)
    requires
        manager.wf(),
        manager.contains(connection_id),
        connection.id == connection_id,
        ManagerView::paired(connection, state),
        connection.wf(),
    ensures
        manager.replace(connection_id, connection, state, outbox).wf(),
        manager.replace(connection_id, connection, state, outbox).contains(connection_id),
        manager.replace(connection_id, connection, state, outbox).index(connection_id)
            == manager.index(connection_id),
{
    let after = manager.replace(connection_id, connection, state, outbox);
    let i = manager.index(connection_id);
    assert forall|a: int, b: int| 0 <= a < b < after.connections.len() implies (
    #[trigger] after.connections[a]).id != (#[trigger] after.connections[b]).id by {
        assert(after.connections[a].id == manager.connections[a].id);
        assert(after.connections[b].id == manager.connections[b].id);
    }
    assert forall|a: int| 0 <= a < after.connections.len() implies ManagerView::paired(
        #[trigger] after.connections[a],
        after.states[a],
    ) by {
        if a != i {
            assert(ManagerView::paired(manager.connections[a], manager.states[a]));
        }
    }
    assert forall|a: int| 0 <= a < after.connections.len() implies (
    #[trigger] after.connections[a]).wf() by {
        if a != i {
            assert(manager.connections[a].wf());
        }
    }
    assert(after.connections[i].id == connection_id);
    lemma_index_unique(after, connection_id, i);
}

/// A registered connection is found under its id.
pub proof fn lemma_register_contains(manager: ManagerView, connection: ConnectionView, state: StateView)
    requires
        manager.wf(),
        connection.wf(),
        ManagerView::paired(connection, state),
    ensures
        manager.register(connection, state).contains(connection.id),
{
    let after = manager.register(connection, state);
    if manager.contains(connection.id) {
        lemma_replace_keeps_wf(manager, connection.id, connection, state, manager.outbox);
    } else {
        assert(after.connections[manager.connections.len() as int].id == connection.id);
    }
}

/// Every operation that names a connection fails for an id that is not
/// registered: it changes nothing and returns the message that names the
/// id.
pub proof fn lemma_unknown_connection_is_reported(
    manager: ManagerView,
    connection_id: Seq<char>,
    terminal_id: Seq<char>,
    key_file_present: bool,
    now: i64,
    outcome: OutcomeView,
    data: Seq<u8>,
    size: TerminalSize,
    resized: Result<(), Seq<char>>,
    channel: u32,
)
    requires
        !manager.contains(connection_id),
    ensures
        mentions(connection_not_found(connection_id), connection_id),
        manager.connect_existing(connection_id, key_file_present, now) == (
            manager,
            Err::<RequestView, Seq<char>>(connection_not_found(connection_id)),
        ),
        manager.complete_connect(connection_id, outcome, now) == (
            manager,
            Err::<(), Seq<char>>(connection_not_found(connection_id)),
        ),
        manager.disconnect_connection(connection_id, now) == (
            manager,
            Err::<(), Seq<char>>(connection_not_found(connection_id)),
        ),
        manager.remove_connection(connection_id) == (
            manager,
            Err::<(), Seq<char>>(connection_not_found(connection_id)),
        ),
        manager.create_terminal_session(connection_id, terminal_id, now) == (
            manager,
            Err::<Seq<char>, Seq<char>>(connection_not_found(connection_id)),
        ),
        manager.send_terminal_input(connection_id, terminal_id, data) == (
            manager,
            Err::<(), Seq<char>>(connection_not_found(connection_id)),
        ),
        manager.resize_terminal(connection_id, terminal_id, size) == (
            manager,
            Err::<(), Seq<char>>(connection_not_found(connection_id)),
        ),
        manager.complete_resize(connection_id, terminal_id, resized) == (
            manager,
            Err::<(), Seq<char>>(connection_not_found(connection_id)),
        ),
        manager.close_terminal_session(connection_id, terminal_id) == (
            manager,
            Err::<(), Seq<char>>(connection_not_found(connection_id)),
        ),
        manager.attach_channel(connection_id, terminal_id, channel) == (
            manager,
            Err::<(), Seq<char>>(connection_not_found(connection_id)),
        ),
        manager.sessions_of(connection_id) == Seq::<SessionView>::empty(),
{
    lemma_not_found_mentions_id(connection_id);
}

/// Removing a connection cascades: the connection is gone with its state,
/// no terminal session of it is left, and the events sent are one
/// `TerminalClosed` for each of its sessions, in the order of opening,
/// followed by `Disconnected` if a transport session was held.
pub proof fn lemma_remove_cascades(manager: ManagerView, connection_id: Seq<char>)
    requires
        manager.wf(),
        manager.contains(connection_id),
    ensures
        ({
            let (after, r) = manager.remove_connection(connection_id);
            let announced = manager.sessions_of(connection_id).map_values(
                |s: SessionView| crate::ssh::terminal::closed_event_of(connection_id, s),
            );
            let farewell = if manager.connection(connection_id).session {
                seq![crate::ssh::types::EventView::Disconnected(connection_id)]
            } else {
                seq![]
            };
            &&& r is Ok
            &&& after.wf()
            &&& !after.contains(connection_id)
            &&& after.sessions_of(connection_id) == Seq::<SessionView>::empty()
            &&& after.connections.len() == manager.connections.len() - 1
            &&& after.outbox.events.emitted == manager.outbox.events.emitted + announced
                + farewell
            &&& forall|i: int, j: int|
                0 <= i < j < announced.len() ==> announced[i] != announced[j]
        }),
{
    let i = manager.index(connection_id);
    let connection = manager.connection(connection_id);
    let (after, r) = manager.remove_connection(connection_id);
    assert(connection.id == connection_id);
    assert(connection.wf());
    crate::ssh::terminal::lemma_close_all_announces_each_once(
        connection.terminals,
        connection_id,
        manager.outbox,
    );
    let announced = manager.sessions_of(connection_id).map_values(
        |s: SessionView| crate::ssh::terminal::closed_event_of(connection_id, s),
    );
    let closed = connection.terminals.close_all(connection_id, manager.outbox).1;
    if connection.session {
        assert(after.outbox.events.emitted =~= manager.outbox.events.emitted + announced
            + seq![crate::ssh::types::EventView::Disconnected(connection_id)]);
    } else {
        assert(after.outbox.events.emitted =~= manager.outbox.events.emitted + announced
            + Seq::<crate::ssh::types::EventView>::empty());
    }
    assert forall|a: int| 0 <= a < after.connections.len() implies (
    #[trigger] after.connections[a]).id != connection_id by {
        if a < i {
            assert(manager.connections[a].id != manager.connections[i].id);
        } else {
            assert(manager.connections[i].id != manager.connections[a + 1].id);
        }
    }
    assert forall|a: int, b: int| 0 <= a < b < after.connections.len() implies (
    #[trigger] after.connections[a]).id != (#[trigger] after.connections[b]).id by {
        let x = if a < i { a } else { a + 1 };
        let y = if b < i { b } else { b + 1 };
        assert(manager.connections[x].id != manager.connections[y].id);
    }
    assert forall|a: int| 0 <= a < after.connections.len() implies ManagerView::paired(
        #[trigger] after.connections[a],
        after.states[a],
    ) && after.connections[a].wf() by {
        let x = if a < i { a } else { a + 1 };
        assert(ManagerView::paired(manager.connections[x], manager.states[x]));
        assert(manager.connections[x].wf());
    }
}

/// Disconnecting a registered connection is idempotent: a second call
/// succeeds, announces nothing and changes nothing but the time of the last
/// activity.
pub proof fn lemma_disconnect_connection_idempotent(
    manager: ManagerView,
    connection_id: Seq<char>,
    now: i64,
    later: i64,
)
    requires
        manager.wf(),
        manager.contains(connection_id),
    ensures
        ({
            let (once, first) = manager.disconnect_connection(connection_id, now);
            let (twice, second) = once.disconnect_connection(connection_id, later);
            &&& first is Ok
            &&& second is Ok
            &&& once.wf()
            &&& once.contains(connection_id)
            &&& once.state(connection_id).status is Disconnected
            &&& !once.connection(connection_id).connected
            &&& !once.connection(connection_id).session
            &&& twice.connections == once.connections
            &&& twice.outbox == once.outbox
            &&& twice.states == once.states.update(
                once.index(connection_id),
                once.state(connection_id).stamped(later),
            )
            &&& later == now ==> twice == once
        }),
{
    let connection = manager.connection(connection_id);
    let (down, after) = connection.disconnect(manager.outbox);
    let state = manager.state(connection_id).with_status(ConnectionStatus::Disconnected, now);
    let (once, first) = manager.disconnect_connection(connection_id, now);
    assert(manager.connections[manager.index(connection_id)].wf());
    crate::ssh::connection::lemma_disconnect_idempotent(connection, manager.outbox);
    assert(ManagerView::paired(
        manager.connections[manager.index(connection_id)],
        manager.states[manager.index(connection_id)],
    ));
    lemma_replace_keeps_wf(manager, connection_id, down, state, after);
    let (twice, second) = once.disconnect_connection(connection_id, later);
    assert(twice.connections =~= once.connections);
    assert(twice.states =~= once.states.update(
        once.index(connection_id),
        once.state(connection_id).stamped(later),
    ));
    if later == now {
        assert(twice.states =~= once.states);
    }
}

/// A failed attempt to connect is recorded in the state of the connection
/// and announced on the bus with the message that is returned.
pub proof fn lemma_failure_is_recorded(
    manager: ManagerView,
    connection_id: Seq<char>,
    outcome: OutcomeView,
    now: i64,
)
    requires
        manager.wf(),
        manager.contains(connection_id),
        !(outcome is Authenticated),
    ensures
        ({
            let (after, r) = manager.complete_connect(connection_id, outcome, now);
            &&& r is Err
            &&& after.wf()
            &&& after.state(connection_id).status is Error
            &&& after.state(connection_id).error == Some(r->Err_0)
            &&& after.state(connection_id).last_activity == now
            &&& after.outbox == manager.outbox.emit(
                crate::ssh::types::EventView::Error(connection_id, r->Err_0),
            )
        }),
{
    let connection = manager.connection(connection_id);
    let (unchanged, r, announced) = connection.complete_connect(outcome, manager.outbox);
    crate::ssh::connection::lemma_failure_is_announced(connection, outcome, manager.outbox);
    let state = manager.state(connection_id).with_error(r->Err_0, now);
    assert(manager.connections[manager.index(connection_id)].wf());
    assert(ManagerView::paired(
        manager.connections[manager.index(connection_id)],
        manager.states[manager.index(connection_id)],
    ));
    lemma_replace_keeps_wf(manager, connection_id, unchanged, state, announced);
}

/// On a registered connection that is not live, opening a terminal session
/// fails and leaves everything as it was: the registry, the sessions of the
/// connection, the outbox.
pub proof fn lemma_terminal_needs_live_connection(
    manager: ManagerView,
    connection_id: Seq<char>,
    terminal_id: Seq<char>,
    created_at: i64,
)
    requires
        manager.wf(),
        manager.contains(connection_id),
        !(manager.connection(connection_id).session && manager.connection(
            connection_id,
        ).connected),
    ensures
        ({
            let (after, r) = manager.create_terminal_session(
                connection_id,
                terminal_id,
                created_at,
            );
            &&& r is Err
            &&& after == manager
            &&& after.sessions_of(connection_id) == manager.sessions_of(connection_id)
        }),
{
    let connection = manager.connection(connection_id);
    crate::ssh::connection::lemma_terminal_needs_live_connection(
        connection,
        terminal_id,
        created_at,
        manager.outbox,
    );
    let (after, r) = manager.create_terminal_session(connection_id, terminal_id, created_at);
    assert(after.connections =~= manager.connections);
    assert(after.states =~= manager.states);
}

/// A resize is read back exactly: after a terminal of a registered
/// connection was resized, its session holds the four values given and is
/// otherwise as it was.
pub proof fn lemma_resize_is_read_back(
    manager: ManagerView,
    connection_id: Seq<char>,
    terminal_id: Seq<char>,
    size: TerminalSize,
)
    requires
        manager.wf(),
        manager.contains(connection_id),
        manager.connection(connection_id).terminals.contains(terminal_id),
    ensures
        ({
            let (after, r) = manager.resize_terminal(connection_id, terminal_id, size);
            &&& r is Ok
            &&& after.wf()
            &&& after.contains(connection_id)
            &&& after.connection(connection_id).terminals.contains(terminal_id)
            &&& after.connection(connection_id).terminals.entry(terminal_id).session == (
            SessionView {
                size: size,
                ..manager.connection(connection_id).terminals.entry(terminal_id).session
            })
            &&& after.states == manager.states
        }),
{
    let i = manager.index(connection_id);
    let connection = manager.connection(connection_id);
    assert(manager.connections[i].wf());
    assert(ManagerView::paired(manager.connections[i], manager.states[i]));
    crate::ssh::terminal::lemma_resize_round_trip(
        connection.terminals,
        terminal_id,
        size,
        manager.outbox,
    );
    let (resized, r, outbox) = connection.resize_terminal(terminal_id, size, manager.outbox);
    lemma_replace_keeps_wf(manager, connection_id, resized, manager.state(connection_id), outbox);
}

} // verus!
