//! The terminal sessions multiplexed over a connection.
//!
//! `TerminalsView` is the model: the registered sessions in the order in
//! which they were opened, each with its channel and the state of its two
//! background tasks. Every operation of [`TerminalSessionManager`] is stated
//! as a function on that model and on the model of the outbox.

use vstd::prelude::*;
use crate::ssh::outbox::{
    ActionView,
    HostAction,
    Outbox,
    OutboxView,
    TaskKind,
    INPUT_POLL_MILLIS,
    OUTPUT_POLL_MILLIS,
};
use crate::platform::{current_time_millis, fresh_identifier};
use crate::ssh::types::{EventView, SSHEvent, SessionView, TerminalSession, TerminalSize};
use crate::text::{concat2, concat3, str_equal, text_result, unit_result};

verus! {

/// A registered session with what the manager keeps beside it.
#[derive(Debug)]
pub struct TerminalSessionData {
    pub session: TerminalSession,
    /// The channel that carries the terminal, once one is attached.
    pub ssh_channel: Option<u32>,
    /// Whether the host runs the input task of this session.
    pub input_task: bool,
    /// Whether the host runs the output task of this session.
    pub output_task: bool,
}

pub struct EntryView {
    pub session: SessionView,
    pub channel: Option<u32>,
    pub input_task: bool,
    pub output_task: bool,
}

impl View for TerminalSessionData {
    type V = EntryView;

    open spec fn view(&self) -> EntryView {
        EntryView {
            session: self.session@,
            channel: self.ssh_channel,
            input_task: self.input_task,
            output_task: self.output_task,
        }
    }
}

impl EntryView {
    /// A session as `create_session` registers it, before its tasks start.
    pub open spec fn opened(id: Seq<char>, connection_id: Seq<char>, created_at: i64) -> EntryView {
        EntryView {
            session: SessionView::opened(id, connection_id, created_at),
            channel: None,
            input_task: false,
            output_task: false,
        }
    }

    /// What the host has to do when this session closes: close its channel
    /// if one is attached, then cancel the tasks that run.
    pub open spec fn close_actions(self) -> Seq<ActionView> {
        let channel = match self.channel {
            Some(c) => seq![ActionView::CloseChannel { channel: c }],
            None => seq![],
        };
        let input = if self.input_task {
            seq![ActionView::AbortTask { terminal_id: self.session.id, kind: TaskKind::Input }]
        } else {
            seq![]
        };
        let output = if self.output_task {
            seq![ActionView::AbortTask { terminal_id: self.session.id, kind: TaskKind::Output }]
        } else {
            seq![]
        };
        channel + input + output
    }

    /// The event that announces that this session closed.
    pub open spec fn closed_event(self) -> EventView {
        EventView::TerminalClosed(self.session.connection_id, self.session.id)
    }
}

/// The message for a terminal id that is not registered.
pub open spec fn session_not_found(terminal_id: Seq<char>) -> Seq<char> {
    "Terminal session "@ + terminal_id + " not found"@
}

/// The entries that belong to `connection_id` (`belonging` true) or to any
/// other connection (`belonging` false), in their order.
pub open spec fn select(entries: Seq<EntryView>, connection_id: Seq<char>, belonging: bool) -> Seq<
    EntryView,
>
    decreases entries.len(),
{
    if entries.len() == 0 {
        Seq::empty()
    } else {
        let before = select(entries.drop_last(), connection_id, belonging);
        if (entries.last().session.connection_id == connection_id) == belonging {
            before.push(entries.last())
        } else {
            before
        }
    }
}

/// The close actions of all `entries`, one entry after the other.
pub open spec fn all_close_actions(entries: Seq<EntryView>) -> Seq<ActionView>
    decreases entries.len(),
{
    if entries.len() == 0 {
        Seq::empty()
    } else {
        all_close_actions(entries.drop_last()) + entries.last().close_actions()
    }
}

/// The model of a terminal manager: its entries in the order of opening.
pub struct TerminalsView {
    pub entries: Seq<EntryView>,
}

impl TerminalsView {
    /// No terminal id is registered twice.
    pub open spec fn wf(self) -> bool {
        forall|i: int, j: int|
            0 <= i < j < self.entries.len() ==> (#[trigger] self.entries[i]).session.id != (
            #[trigger] self.entries[j]).session.id
    }

    pub open spec fn contains(self, terminal_id: Seq<char>) -> bool {
        exists|i: int|
            0 <= i < self.entries.len() && (#[trigger] self.entries[i]).session.id == terminal_id
    }

    /// Where `terminal_id` is registered, if it is.
    pub open spec fn index(self, terminal_id: Seq<char>) -> int {
        choose|i: int|
            0 <= i < self.entries.len() && (#[trigger] self.entries[i]).session.id == terminal_id
    }

    pub open spec fn entry(self, terminal_id: Seq<char>) -> EntryView {
        self.entries[self.index(terminal_id)]
    }

    /// The entry of `terminal_id` replaced by `entry`.
    pub open spec fn replace(self, terminal_id: Seq<char>, entry: EntryView) -> TerminalsView {
        TerminalsView { entries: self.entries.update(self.index(terminal_id), entry) }
    }

    /// `entry` registered under its id: in place of an entry with that id, or
    /// behind all others.
    pub open spec fn register(self, entry: EntryView) -> TerminalsView {
        if self.contains(entry.session.id) {
            self.replace(entry.session.id, entry)
        } else {
            TerminalsView { entries: self.entries.push(entry) }
        }
    }

    /// The sessions of one connection, in the order of opening.
    pub open spec fn sessions_of(self, connection_id: Seq<char>) -> Seq<SessionView> {
        select(self.entries, connection_id, true).map_values(|e: EntryView| e.session)
    }

    /// The manager without the sessions of one connection.
    pub open spec fn without_connection(self, connection_id: Seq<char>) -> TerminalsView {
        TerminalsView { entries: select(self.entries, connection_id, false) }
    }

    pub open spec fn start_io_tasks(self, terminal_id: Seq<char>, out: OutboxView) -> (
        TerminalsView,
        OutboxView,
    ) {
        let started = if self.contains(terminal_id) {
            self.replace(
                terminal_id,
                EntryView { input_task: true, output_task: true, ..self.entry(terminal_id) },
            )
        } else {
            self
        };
        (
            started,
            out.request(
                ActionView::StartTask {
                    terminal_id: terminal_id,
                    kind: TaskKind::Output,
                    poll_millis: OUTPUT_POLL_MILLIS,
                },
            ).request(
                ActionView::StartTask {
                    terminal_id: terminal_id,
                    kind: TaskKind::Input,
                    poll_millis: INPUT_POLL_MILLIS,
                },
            ),
        )
    }

    /// A session opened for `connection_id` under `terminal_id` at the time
    /// `created_at`: registered, its tasks started, its creation announced.
    pub open spec fn create_session(
        self,
        connection_id: Seq<char>,
        terminal_id: Seq<char>,
        created_at: i64,
        out: OutboxView,
    ) -> (TerminalsView, OutboxView) {
        let registered = self.register(
            EntryView::opened(terminal_id, connection_id, created_at),
        );
        let (started, queued) = registered.start_io_tasks(terminal_id, out);
        (started, queued.emit(EventView::TerminalCreated(connection_id, terminal_id)))
    }

    pub open spec fn attach_channel(self, terminal_id: Seq<char>, channel: u32) -> (
        TerminalsView,
        Result<(), Seq<char>>,
    ) {
        if self.contains(terminal_id) {
            (
                self.replace(
                    terminal_id,
                    EntryView { channel: Some(channel), ..self.entry(terminal_id) },
                ),
                Ok(()),
            )
        } else {
            (self, Err(session_not_found(terminal_id)))
        }
    }

    pub open spec fn send_input(self, terminal_id: Seq<char>, data: Seq<u8>, out: OutboxView) -> (
        Result<(), Seq<char>>,
        OutboxView,
    ) {
        if !self.contains(terminal_id) {
            (Err(session_not_found(terminal_id)), out)
        } else {
            match self.entry(terminal_id).channel {
                Some(channel) => (
                    Ok(()),
                    out.request(ActionView::SendData { channel: channel, data: data }),
                ),
                None => (Err("SSH channel not available"@), out),
            }
        }
    }

    /// The event that announces the size that the session holds.
    pub open spec fn resized_event(self, terminal_id: Seq<char>) -> EventView {
        let session = self.entry(terminal_id).session;
        EventView::TerminalResized(
            session.connection_id,
            terminal_id,
            session.size.cols,
            session.size.rows,
        )
    }

    /// The first step of a resize: the session records the new size and
    /// nothing else of it changes. Without a channel that is all, and the
    /// change is announced. With a channel the window change is queued for
    /// the host, and the announcement waits for `complete_resize`.
    pub open spec fn resize(self, terminal_id: Seq<char>, size: TerminalSize, out: OutboxView) -> (
        TerminalsView,
        Result<(), Seq<char>>,
        OutboxView,
    ) {
        if !self.contains(terminal_id) {
            (self, Err(session_not_found(terminal_id)), out)
        } else {
            let entry = self.entry(terminal_id);
            let resized = self.replace(
                terminal_id,
                EntryView { session: entry.session.resized(size), ..entry },
            );
            match entry.channel {
                Some(channel) => (
                    resized,
                    Ok(()),
                    out.request(
                        ActionView::WindowChange {
                            channel: channel,
                            cols: size.cols as u32,
                            rows: size.rows as u32,
                            pixel_width: size.pixel_width as u32,
                            pixel_height: size.pixel_height as u32,
                        },
                    ),
                ),
                None => (
                    resized,
                    Ok(()),
                    out.emit(
                        EventView::TerminalResized(
                            entry.session.connection_id,
                            terminal_id,
                            size.cols,
                            size.rows,
                        ),
                    ),
                ),
            }
        }
    }

    /// The second step of a resize, once the host has told the channel. A
    /// window change that failed for the reason `cause` is returned as an
    /// error and nothing is announced. One that succeeded is announced with
    /// the size that the session holds, if the session is still registered.
    pub open spec fn complete_resize(
        self,
        terminal_id: Seq<char>,
        outcome: Result<(), Seq<char>>,
        out: OutboxView,
    ) -> (Result<(), Seq<char>>, OutboxView) {
        match outcome {
            Err(cause) => (Err("Failed to resize SSH channel: "@ + cause), out),
            Ok(_) => if self.contains(terminal_id) {
                (Ok(()), out.emit(self.resized_event(terminal_id)))
            } else {
                (Err(session_not_found(terminal_id)), out)
            },
        }
    }

    pub open spec fn close(self, terminal_id: Seq<char>, out: OutboxView) -> (
        TerminalsView,
        Result<(), Seq<char>>,
        OutboxView,
    ) {
        if !self.contains(terminal_id) {
            (self, Err(session_not_found(terminal_id)), out)
        } else {
            let entry = self.entry(terminal_id);
            (
                TerminalsView { entries: self.entries.remove(self.index(terminal_id)) },
                Ok(()),
                out.request_all(entry.close_actions()).emit(entry.closed_event()),
            )
        }
    }

    /// Every session of `connection_id` closed, in the order of opening:
    /// the sessions of other connections stay, the close actions of each
    /// closed session are queued, and each closed session is announced once.
    pub open spec fn close_all(self, connection_id: Seq<char>, out: OutboxView) -> (
        TerminalsView,
        OutboxView,
    ) {
        let closed = select(self.entries, connection_id, true);
        (
            self.without_connection(connection_id),
            out.request_all(all_close_actions(closed)).emit_all(
                closed.map_values(|e: EntryView| e.closed_event()),
            ),
        )
    }
}

/// The views of a list of entries, in order.
pub open spec fn entry_views(entries: Seq<TerminalSessionData>) -> Seq<EntryView> {
    entries.map_values(|e: TerminalSessionData| e@)
}

/// The views of a list of sessions, in order.
pub open spec fn session_views(sessions: Seq<TerminalSession>) -> Seq<SessionView> {
    sessions.map_values(|s: TerminalSession| s@)
}

/// The message for a terminal id that is not registered.
pub fn not_found_message(terminal_id: &str) -> (message: String)
    ensures
        message@ == session_not_found(terminal_id@),
{
    concat3("Terminal session ", terminal_id, " not found")
}

/// Where an id is registered, it is registered at one place only.
pub proof fn lemma_index_unique(terminals: TerminalsView, terminal_id: Seq<char>, i: int)
    requires
        terminals.wf(),
        0 <= i < terminals.entries.len(),
        terminals.entries[i].session.id == terminal_id,
    ensures
        terminals.contains(terminal_id),
        terminals.index(terminal_id) == i,
{
}

/// The per-connection registry of terminal sessions.
pub struct TerminalSessionManager {
    sessions: Vec<TerminalSessionData>,
}

impl View for TerminalSessionManager {
    type V = TerminalsView;

    closed spec fn view(&self) -> TerminalsView {
        TerminalsView { entries: entry_views(self.sessions@) }
    }
}

impl TerminalSessionManager {
    /// No terminal id is registered twice.
    pub open spec fn wf(&self) -> bool {
        self@.wf()
    }

    /// A manager without sessions.
    pub fn new() -> (manager: TerminalSessionManager)
        ensures
            manager@.entries == Seq::<EntryView>::empty(),
            manager.wf(),
    {
        let manager = TerminalSessionManager { sessions: Vec::new() };
        assert(entry_views(manager.sessions@) =~= Seq::empty());
        manager
    }

    /// Where `terminal_id` is registered.
    fn find(&self, terminal_id: &str) -> (r: Option<usize>)
        requires
            self.wf(),
        ensures
            match r {
                Some(i) => {
                    &&& i < self.sessions@.len()
                    &&& self@.contains(terminal_id@)
                    &&& self@.index(terminal_id@) == i
                    &&& self@.entry(terminal_id@) == self.sessions@[i as int]@
                },
                None => !self@.contains(terminal_id@),
            },
    {
        let n: usize = self.sessions.len();
        let mut i: usize = 0;
        while i < n
            invariant
                self.wf(),
                n == self.sessions@.len(),
                i <= n,
                forall|j: int| 0 <= j < i ==> (#[trigger] self@.entries[j]).session.id != terminal_id@,
            decreases n - i,
        {
            if str_equal(self.sessions[i].session.id.as_str(), terminal_id) {
                proof {
                    assert(self@.entries[i as int] == self.sessions@[i as int]@);
                    lemma_index_unique(self@, terminal_id@, i as int);
                }
                return Some(i);
            }
            assert(self@.entries[i as int] == self.sessions@[i as int]@);
            i = i + 1;
        }
        None
    }

    /// Whether a background task of `terminal_id` has to stop: it has as
    /// soon as the session is no longer registered.
    pub fn task_should_stop(&self, terminal_id: &str) -> (stop: bool)
        requires
            self.wf(),
        ensures
            stop == !self@.contains(terminal_id@),
    {
        self.find(terminal_id).is_none()
    }

    /// The session registered under `terminal_id`, if there is one.
    pub fn get_session(&self, terminal_id: &str) -> (r: Option<TerminalSession>)
        requires
            self.wf(),
        ensures
            match r {
                Some(session) => self@.contains(terminal_id@) && session@ == self@.entry(
                    terminal_id@,
                ).session,
                None => !self@.contains(terminal_id@),
            },
    {
        match self.find(terminal_id) {
            Some(i) => Some(self.sessions[i].session.clone()),
            None => None,
        }
    }

    /// The sessions of one connection, in the order of opening.
    pub fn list_sessions_for_connection(&self, connection_id: &str) -> (r: Vec<TerminalSession>)
        ensures
            session_views(r@) == self@.sessions_of(connection_id@),
    {
        let mut out: Vec<TerminalSession> = Vec::new();
        let n: usize = self.sessions.len();
        let mut i: usize = 0;
        assert(self@.entries.take(0) =~= Seq::empty());
        assert(session_views(out@) =~= Seq::empty());
        while i < n
            invariant
                n == self.sessions@.len(),
                i <= n,
                session_views(out@) == select(
                    self@.entries.take(i as int),
                    connection_id@,
                    true,
                ).map_values(|e: EntryView| e.session),
            decreases n - i,
        {
            let ghost before = session_views(out@);
            proof {
                assert(self@.entries.take(i + 1).drop_last() =~= self@.entries.take(i as int));
                assert(self@.entries.take(i + 1).last() == self.sessions@[i as int]@);
            }
            if str_equal(self.sessions[i].session.connection_id.as_str(), connection_id) {
                out.push(self.sessions[i].session.clone());
                assert(session_views(out@) =~= before.push(self.sessions@[i as int]@.session));
                assert(select(self@.entries.take(i + 1), connection_id@, true).map_values(
                    |e: EntryView| e.session,
                ) =~= before.push(self.sessions@[i as int]@.session));
            }
            i = i + 1;
        }
        assert(self@.entries.take(n as int) =~= self@.entries);
        out
    }

    /// Attaches the channel that carries the terminal.
    pub fn attach_channel(&mut self, terminal_id: &str, channel: u32) -> (r: Result<(), String>)
        requires
            old(self).wf(),
        ensures
            final(self).wf(),
            (final(self)@, unit_result(r)) == old(self)@.attach_channel(terminal_id@, channel),
    {
        match self.find(terminal_id) {
            Some(i) => {
                self.sessions[i].ssh_channel = Some(channel);
                assert(self@.entries =~= old(self)@.entries.update(
                    i as int,
                    EntryView { channel: Some(channel), ..old(self)@.entry(terminal_id@) },
                ));
                Ok(())
            },
            None => Err(not_found_message(terminal_id)),
        }
    }

    /// Forwards `data` to the channel of a terminal, once and in order.
    pub fn send_input(&self, terminal_id: &str, data: &[u8], out: &mut Outbox) -> (r: Result<
        (),
        String,
    >)
        requires
            self.wf(),
        ensures
            (unit_result(r), final(out)@) == self@.send_input(terminal_id@, data@, old(out)@),
    {
        match self.find(terminal_id) {
            Some(i) => match self.sessions[i].ssh_channel {
                Some(channel) => {
                    out.request(
                        HostAction::SendData { channel, data: vstd::slice::slice_to_vec(data) },
                    );
                    Ok(())
                },
                None => Err("SSH channel not available".to_string()),
            },
            None => Err(not_found_message(terminal_id)),
        }
    }

    /// The first step of a resize: records the new size of a terminal.
    /// Without a channel the change is announced at once; with a channel the
    /// window change is queued for the host, which reports back through
    /// `complete_resize`.
    pub fn resize_terminal(
        &mut self,
        terminal_id: &str,
        cols: u16,
        rows: u16,
        pixel_width: u16,
        pixel_height: u16,
        out: &mut Outbox,
    ) -> (r: Result<(), String>)
        requires
            old(self).wf(),
        ensures
            final(self).wf(),
            (final(self)@, unit_result(r), final(out)@) == old(self)@.resize(
                terminal_id@,
                TerminalSize { cols, rows, pixel_width, pixel_height },
                old(out)@,
            ),
    {
        match self.find(terminal_id) {
            Some(i) => {
                let ghost entry = self@.entry(terminal_id@);
                let ghost size = TerminalSize { cols, rows, pixel_width, pixel_height };
                self.sessions[i].session.resize(cols, rows, pixel_width, pixel_height);
                assert(self@.entries =~= old(self)@.entries.update(
                    i as int,
                    EntryView { session: entry.session.resized(size), ..entry },
                ));
                match self.sessions[i].ssh_channel {
                    Some(channel) => {
                        out.request(
                            HostAction::WindowChange {
                                channel,
                                cols: cols as u32,
                                rows: rows as u32,
                                pixel_width: pixel_width as u32,
                                pixel_height: pixel_height as u32,
                            },
                        );
                    },
                    None => {
                        out.emit(
                            SSHEvent::TerminalResized(
                                self.sessions[i].session.connection_id.clone(),
                                terminal_id.to_string(),
                                cols,
                                rows,
                            ),
                        );
                    },
                }
                Ok(())
            },
            None => Err(not_found_message(terminal_id)),
        }
    }

    /// The second step of a resize: takes what came of the window change
    /// that the host carried out. A failure is returned with its cause and
    /// nothing is announced; a success is announced with the size that the
    /// session holds.
    pub fn complete_resize(&self, terminal_id: &str, outcome: Result<(), String>, out: &mut Outbox) -> (r:
        Result<(), String>)
        requires
            self.wf(),
        ensures
            (unit_result(r), final(out)@) == self@.complete_resize(
                terminal_id@,
                unit_result(outcome),
                old(out)@,
            ),
    {
        match outcome {
            Err(cause) => Err(concat2("Failed to resize SSH channel: ", cause.as_str())),
            Ok(_) => match self.find(terminal_id) {
                Some(i) => {
                    out.emit(
                        SSHEvent::TerminalResized(
                            self.sessions[i].session.connection_id.clone(),
                            terminal_id.to_string(),
                            self.sessions[i].session.size.cols,
                            self.sessions[i].session.size.rows,
                        ),
                    );
                    Ok(())
                },
                None => Err(not_found_message(terminal_id)),
            },
        }
    }

    /// Closes one session: it leaves the registry, its channel is closed and
    /// its tasks are cancelled, and the closing is announced.
    pub fn close_session(&mut self, terminal_id: &str, out: &mut Outbox) -> (r: Result<(), String>)
        requires
            old(self).wf(),
        ensures
            final(self).wf(),
            (final(self)@, unit_result(r), final(out)@) == old(self)@.close(
                terminal_id@,
                old(out)@,
            ),
    {
        match self.find(terminal_id) {
            Some(i) => {
                let data = self.sessions.remove(i);
                assert(self@.entries =~= old(self)@.entries.remove(i as int));
                close_entry(data, out);
                Ok(())
            },
            None => Err(not_found_message(terminal_id)),
        }
    }

    /// Registers `data` under the id of its session.
    fn register(&mut self, data: TerminalSessionData)
        requires
            old(self).wf(),
        ensures
            final(self).wf(),
            final(self)@ == old(self)@.register(data@),
    {
        match self.find(data.session.id.as_str()) {
            Some(i) => {
                self.sessions.set(i, data);
                assert(self@.entries =~= old(self)@.entries.update(i as int, data@));
            },
            None => {
                self.sessions.push(data);
                assert(self@.entries =~= old(self)@.entries.push(data@));
                assert forall|a: int, b: int| 0 <= a < b < self@.entries.len() implies (
                #[trigger] self@.entries[a]).session.id != (#[trigger] self@.entries[b]).session.id by {
                    if b == old(self)@.entries.len() {
                        assert(old(self)@.entries[a].session.id != data@.session.id);
                    }
                }
            },
        }
    }

    /// Starts the input and the output task of a session: both are asked of
    /// the host, and recorded as running if the session is registered.
    pub fn start_io_tasks(&mut self, terminal_id: &str, _connection_id: &str, out: &mut Outbox) -> (r:
        Result<(), String>)
        requires
            old(self).wf(),
        ensures
            final(self).wf(),
            r is Ok,
            (final(self)@, final(out)@) == old(self)@.start_io_tasks(terminal_id@, old(out)@),
    {
        out.request(
            HostAction::StartTask {
                terminal_id: terminal_id.to_string(),
                kind: TaskKind::Output,
                poll_millis: OUTPUT_POLL_MILLIS,
            },
        );
        out.request(
            HostAction::StartTask {
                terminal_id: terminal_id.to_string(),
                kind: TaskKind::Input,
                poll_millis: INPUT_POLL_MILLIS,
            },
        );
        match self.find(terminal_id) {
            Some(i) => {
                self.sessions[i].output_task = true;
                self.sessions[i].input_task = true;
                assert(self@.entries =~= old(self)@.entries.update(
                    i as int,
                    EntryView {
                        input_task: true,
                        output_task: true,
                        ..old(self)@.entry(terminal_id@)
                    },
                ));
            },
            None => {},
        }
        Ok(())
    }

    /// Opens a terminal session for `connection_id` under the id
    /// `terminal_id`, created at `created_at`, and returns that id.
    pub fn create_session_with(
        &mut self,
        connection_id: String,
        terminal_id: String,
        created_at: i64,
        out: &mut Outbox,
    ) -> (r: Result<String, String>)
        requires
            old(self).wf(),
        ensures
            final(self).wf(),
            r matches Ok(id) && id@ == terminal_id@,
            (final(self)@, final(out)@) == old(self)@.create_session(
                connection_id@,
                terminal_id@,
                created_at,
                old(out)@,
            ),
    {
        let terminal_session = TerminalSession::with_identity(
            terminal_id.clone(),
            connection_id.clone(),
            created_at,
        );
        let session_data = TerminalSessionData {
            session: terminal_session,
            ssh_channel: None,
            input_task: false,
            output_task: false,
        };
        self.register(session_data);
        match self.start_io_tasks(terminal_id.as_str(), connection_id.as_str(), out) {
            Ok(_) => {},
            Err(e) => {
                return Err(e);
            },
        }
        out.emit(SSHEvent::TerminalCreated(connection_id, terminal_id.clone()));
        Ok(terminal_id)
    }

    /// Opens a terminal session for `connection_id` under a fresh id and
    /// returns that id. The session is created now: it is the one that
    /// `create_session_with` opens for the id returned and for whatever the
    /// clock said.
    pub fn create_session(&mut self, connection_id: String, out: &mut Outbox) -> (r: Result<
        String,
        String,
    >)
        requires
            old(self).wf(),
        ensures
            final(self).wf(),
            r matches Ok(terminal_id) && terminal_id@.len() == 36 && exists|created_at: i64|
                (final(self)@, final(out)@) == #[trigger] old(self)@.create_session(
                    connection_id@,
                    terminal_id@,
                    created_at,
                    old(out)@,
                ),
    {
        let terminal_id = fresh_identifier();
        let created_at = current_time_millis();
        self.create_session_with(connection_id, terminal_id, created_at, out)
    }

    /// Closes every session of `connection_id`. This never fails: a caller
    /// that wants to know about single sessions closes them one by one.
    pub fn close_all_sessions_for_connection(&mut self, connection_id: &str, out: &mut Outbox) -> (r:
        Result<(), String>)
        requires
            old(self).wf(),
        ensures
            final(self).wf(),
            r is Ok,
            (final(self)@, final(out)@) == old(self)@.close_all(connection_id@, old(out)@),
    {
        let mut all: Vec<TerminalSessionData> = Vec::new();
        core::mem::swap(&mut self.sessions, &mut all);
        let ghost entries = old(self)@.entries;
        let ghost out0 = old(out)@;
        let ghost cid = connection_id@;
        assert(entry_views(all@) == entries);
        assert(entries.take(0) =~= Seq::empty());
        assert(entry_views(self.sessions@) =~= Seq::empty());
        assert(select(entries.take(0), cid, true).map_values(|e: EntryView| e.closed_event())
            =~= Seq::empty());
        assert(out0.request_all(Seq::empty()) =~= out0) by {
            assert(out0.actions + Seq::<ActionView>::empty() =~= out0.actions);
        }
        for data in it: all
            invariant
                cid == connection_id@,
                entry_views(it.seq()) == entries,
                self@.entries == select(entries.take(it.index() as int), cid, false),
                out@ == out0.request_all(
                    all_close_actions(select(entries.take(it.index() as int), cid, true)),
                ).emit_all(
                    select(entries.take(it.index() as int), cid, true).map_values(
                        |e: EntryView| e.closed_event(),
                    ),
                ),
        {
            let ghost k = it.index() as int;
            let ghost kept = select(entries.take(k), cid, false);
            let ghost closed = select(entries.take(k), cid, true);
            proof {
                assert(entries.take(k + 1).drop_last() =~= entries.take(k));
                assert(entries.take(k + 1).last() == data@);
            }
            if str_equal(data.session.connection_id.as_str(), connection_id) {
                close_entry(data, out);
                proof {
                    let events = closed.map_values(|e: EntryView| e.closed_event());
                    let next = closed.push(data@);
                    let next_events = next.map_values(|e: EntryView| e.closed_event());
                    assert(next_events =~= events.push(data@.closed_event()));
                    assert(next_events.drop_last() =~= events);
                    assert(next.drop_last() =~= closed);
                    lemma_emit_all_keeps_actions(out0.request_all(all_close_actions(closed)), events);
                    lemma_emit_all_keeps_actions(
                        out0.request_all(all_close_actions(next)),
                        events,
                    );
                    lemma_emit_all_events(out0.request_all(all_close_actions(closed)), events);
                    lemma_emit_all_events(out0.request_all(all_close_actions(next)), events);
                    assert(out0.actions + all_close_actions(next) =~= (out0.actions
                        + all_close_actions(closed)) + data@.close_actions());
                    assert(out@ =~= out0.request_all(all_close_actions(next)).emit_all(next_events));
                }
            } else {
                self.sessions.push(data);
                assert(self@.entries =~= kept.push(data@));
            }
        }
        assert(entries.take(entries.len() as int) =~= entries);
        proof {
            lemma_select_distinct(entries, cid, false);
        }
        Ok(())
    }
}

/// Carries out the closing of a session that has left the registry.
fn close_entry(data: TerminalSessionData, out: &mut Outbox)
    ensures
        final(out)@ == old(out)@.request_all(data@.close_actions()).emit(data@.closed_event()),
{
    let mut data = data;
    let ghost entry = data@;
    data.session.deactivate();
    match data.ssh_channel {
        Some(channel) => {
            out.request(HostAction::CloseChannel { channel });
        },
        None => {},
    }
    if data.input_task {
        out.request(
            HostAction::AbortTask { terminal_id: data.session.id.clone(), kind: TaskKind::Input },
        );
    }
    if data.output_task {
        out.request(
            HostAction::AbortTask { terminal_id: data.session.id.clone(), kind: TaskKind::Output },
        );
    }
    assert(out@.actions =~= old(out)@.actions + entry.close_actions());
    out.emit(SSHEvent::TerminalClosed(data.session.connection_id.clone(), data.session.id.clone()));
}

/// Sending events leaves the queued actions as they are.
pub proof fn lemma_emit_all_keeps_actions(out: OutboxView, events: Seq<EventView>)
    ensures
        out.emit_all(events).actions == out.actions,
    decreases events.len(),
{
    if events.len() > 0 {
        lemma_emit_all_keeps_actions(out, events.drop_last());
    }
}

/// What the bus holds after a run of events depends on the bus and the
/// events only, and every event of the run is recorded as sent, in order.
pub proof fn lemma_emit_all_events(out: OutboxView, events: Seq<EventView>)
    ensures
        out.emit_all(events).events.emitted == out.events.emitted + events,
        out.emit_all(events).events.capacity == out.events.capacity,
        forall|other: OutboxView|
            other.events == out.events ==> (#[trigger] other.emit_all(events)).events
                == out.emit_all(events).events,
    decreases events.len(),
{
    if events.len() > 0 {
        lemma_emit_all_events(out, events.drop_last());
        assert(out.emit_all(events).events.emitted =~= out.events.emitted + events);
        assert forall|other: OutboxView| other.events == out.events implies (
        #[trigger] other.emit_all(events)).events == out.emit_all(events).events by {
            assert(other.emit_all(events.drop_last()).events == out.emit_all(
                events.drop_last(),
            ).events);
        }
    } else {
        assert(out.events.emitted + events =~= out.events.emitted);
    }
}

/// A selection of entries is a selection of their ids too: where no id
/// occurs twice among the entries, none does among those selected.
pub proof fn lemma_select_distinct(entries: Seq<EntryView>, connection_id: Seq<char>, belonging: bool)
    requires
        (TerminalsView { entries: entries }).wf(),
    ensures
        (TerminalsView { entries: select(entries, connection_id, belonging) }).wf(),
        forall|i: int|
            0 <= i < select(entries, connection_id, belonging).len() ==> exists|j: int|
                0 <= j < entries.len() && entries[j] == #[trigger] select(
                    entries,
                    connection_id,
                    belonging,
                )[i],
    decreases entries.len(),
{
    if entries.len() > 0 {
        let shorter = entries.drop_last();
        assert((TerminalsView { entries: shorter }).wf()) by {
            assert forall|a: int, b: int| 0 <= a < b < shorter.len() implies (
            #[trigger] shorter[a]).session.id != (#[trigger] shorter[b]).session.id by {
                assert(shorter[a] == entries[a]);
                assert(shorter[b] == entries[b]);
            }
        }
        lemma_select_distinct(shorter, connection_id, belonging);
        let picked = select(entries, connection_id, belonging);
        let before = select(shorter, connection_id, belonging);
        assert forall|i: int| 0 <= i < picked.len() implies exists|j: int|
            0 <= j < entries.len() && entries[j] == #[trigger] picked[i] by {
            if i < before.len() {
                let j = choose|j: int| 0 <= j < shorter.len() && shorter[j] == before[i];
                assert(entries[j] == picked[i]);
            } else {
                assert(entries[entries.len() - 1] == picked[i]);
            }
        }
        assert forall|a: int, b: int| 0 <= a < b < picked.len() implies (
        #[trigger] picked[a]).session.id != (#[trigger] picked[b]).session.id by {
            if b < before.len() {
                assert(before[a] == picked[a]);
                assert(before[b] == picked[b]);
            } else {
                let j = choose|j: int| 0 <= j < shorter.len() && shorter[j] == before[a];
                assert(entries[j] == picked[a]);
                assert(entries[entries.len() - 1] == picked[b]);
            }
        }
    }
}

/// Every selected entry belongs to the connection asked for, or to another
/// one, as `belonging` says.
pub proof fn lemma_select_belongs(entries: Seq<EntryView>, connection_id: Seq<char>, belonging: bool)
    ensures
        forall|i: int|
            0 <= i < select(entries, connection_id, belonging).len() ==> ((#[trigger] select(
                entries,
                connection_id,
                belonging,
            )[i]).session.connection_id == connection_id) == belonging,
    decreases entries.len(),
{
    if entries.len() > 0 {
        lemma_select_belongs(entries.drop_last(), connection_id, belonging);
    }
}

/// Selecting from entries that all qualify keeps them all; selecting from
/// entries of which none qualifies keeps none.
pub proof fn lemma_select_uniform(entries: Seq<EntryView>, connection_id: Seq<char>, belonging: bool)
    requires
        forall|i: int|
            0 <= i < entries.len() ==> ((#[trigger] entries[i]).session.connection_id
                == connection_id) == belonging,
    ensures
        select(entries, connection_id, belonging) == entries,
        select(entries, connection_id, !belonging) == Seq::<EntryView>::empty(),
    decreases entries.len(),
{
    if entries.len() > 0 {
        let shorter = entries.drop_last();
        assert forall|i: int| 0 <= i < shorter.len() implies ((
        #[trigger] shorter[i]).session.connection_id == connection_id) == belonging by {
            assert(shorter[i] == entries[i]);
        }
        lemma_select_uniform(shorter, connection_id, belonging);
        assert(entries[entries.len() - 1] == entries.last());
        assert(shorter.push(entries.last()) =~= entries);
    } else {
        assert(select(entries, connection_id, belonging) =~= entries);
    }
}

/// Closing all sessions of a connection leaves none of them registered, and
/// doing it again changes nothing more, whatever the outbox holds by then.
pub proof fn lemma_close_all_leaves_none(
    terminals: TerminalsView,
    connection_id: Seq<char>,
    out: OutboxView,
    later: OutboxView,
)
    ensures
        terminals.close_all(connection_id, out).0.sessions_of(connection_id) == Seq::<
            SessionView,
        >::empty(),
        terminals.close_all(connection_id, out).0.close_all(connection_id, later) == (
            terminals.close_all(connection_id, out).0,
            later,
        ),
{
    let left = select(terminals.entries, connection_id, false);
    lemma_select_belongs(terminals.entries, connection_id, false);
    lemma_select_uniform(left, connection_id, false);
    let none = select(left, connection_id, true);
    assert(none.map_values(|e: EntryView| e.session) =~= Seq::empty());
    assert(none.map_values(|e: EntryView| e.closed_event()) =~= Seq::empty());
    assert(later.actions + all_close_actions(none) =~= later.actions);
}

/// Closing the sessions of a connection that has none changes nothing.
pub proof fn lemma_close_all_of_none(connection_id: Seq<char>, out: OutboxView)
    ensures
        (TerminalsView { entries: Seq::empty() }).close_all(connection_id, out) == (
            TerminalsView { entries: Seq::empty() },
            out,
        ),
{
    let none = Seq::<EntryView>::empty();
    assert(select(none, connection_id, true).map_values(|e: EntryView| e.closed_event())
        =~= Seq::empty());
    assert(out.actions + all_close_actions(select(none, connection_id, true)) =~= out.actions);
}

/// The event that announces the closing of a session of `connection_id`.
pub open spec fn closed_event_of(connection_id: Seq<char>, session: SessionView) -> EventView {
    EventView::TerminalClosed(connection_id, session.id)
}

/// Closing all sessions of a connection announces each of them exactly once:
/// the events sent are one `TerminalClosed` for every session of the
/// connection, in the order of opening, and no session is announced twice.
pub proof fn lemma_close_all_announces_each_once(
    terminals: TerminalsView,
    connection_id: Seq<char>,
    out: OutboxView,
)
    requires
        terminals.wf(),
    ensures
        ({
            let announced = terminals.sessions_of(connection_id).map_values(
                |s: SessionView| closed_event_of(connection_id, s),
            );
            &&& terminals.close_all(connection_id, out).1.events.emitted == out.events.emitted
                + announced
            &&& forall|i: int, j: int|
                0 <= i < j < announced.len() ==> announced[i] != announced[j]
        }),
{
    let closed = select(terminals.entries, connection_id, true);
    let events = closed.map_values(|e: EntryView| e.closed_event());
    let announced = terminals.sessions_of(connection_id).map_values(
        |s: SessionView| closed_event_of(connection_id, s),
    );
    lemma_select_belongs(terminals.entries, connection_id, true);
    lemma_select_distinct(terminals.entries, connection_id, true);
    assert(events =~= announced);
    lemma_emit_all_events(out.request_all(all_close_actions(closed)), events);
    assert forall|i: int, j: int| 0 <= i < j < announced.len() implies announced[i]
        != announced[j] by {
        assert(closed[i].session.id != closed[j].session.id);
    }
}

/// Closing all sessions of one connection leaves the sessions of every other
/// connection as they are.
pub proof fn lemma_close_all_spares_others(
    terminals: TerminalsView,
    connection_id: Seq<char>,
    other: Seq<char>,
    out: OutboxView,
)
    requires
        other != connection_id,
    ensures
        terminals.close_all(connection_id, out).0.sessions_of(other) == terminals.sessions_of(
            other,
        ),
{
    lemma_select_twice(terminals.entries, connection_id, other);
}

proof fn lemma_select_twice(entries: Seq<EntryView>, connection_id: Seq<char>, other: Seq<char>)
    requires
        other != connection_id,
    ensures
        select(select(entries, connection_id, false), other, true) == select(entries, other, true),
    decreases entries.len(),
{
    if entries.len() > 0 {
        lemma_select_twice(entries.drop_last(), connection_id, other);
        let before = select(entries.drop_last(), connection_id, false);
        if entries.last().session.connection_id != connection_id {
            assert(before.push(entries.last()).drop_last() =~= before);
        }
    }
}

/// A resize is read back exactly: after a terminal was resized, its session
/// holds the four values given and is otherwise as it was, with its id, its
/// connection, its activity and its time of creation; every other session is
/// as it was.
pub proof fn lemma_resize_round_trip(
    terminals: TerminalsView,
    terminal_id: Seq<char>,
    size: TerminalSize,
    out: OutboxView,
)
    requires
        terminals.wf(),
        terminals.contains(terminal_id),
    ensures
        ({
            let resized = terminals.resize(terminal_id, size, out).0;
            &&& resized.wf()
            &&& resized.contains(terminal_id)
            &&& resized.entry(terminal_id).session.size == size
            &&& resized.entry(terminal_id) == (EntryView {
                session: SessionView { size: size, ..terminals.entry(terminal_id).session },
                ..terminals.entry(terminal_id)
            })
            &&& terminals.resize(terminal_id, size, out).1 is Ok
            &&& forall|other: Seq<char>|
                other != terminal_id && terminals.contains(other) ==> #[trigger] resized.entry(
                    other,
                ) == terminals.entry(other)
        }),
{
    let i = terminals.index(terminal_id);
    let resized = terminals.resize(terminal_id, size, out).0;
    assert(resized.entries[i].session.id == terminal_id);
    assert forall|a: int, b: int| 0 <= a < b < resized.entries.len() implies (
    #[trigger] resized.entries[a]).session.id != (#[trigger] resized.entries[b]).session.id by {
        assert(resized.entries[a].session.id == terminals.entries[a].session.id);
        assert(resized.entries[b].session.id == terminals.entries[b].session.id);
    }
    lemma_index_unique(resized, terminal_id, i);
    assert forall|other: Seq<char>|
        other != terminal_id && terminals.contains(other) implies #[trigger] resized.entry(other)
        == terminals.entry(other) by {
        let k = terminals.index(other);
        assert(resized.entries[k] == terminals.entries[k]);
        lemma_index_unique(resized, other, k);
    }
}

} // verus!
