//! What the engine hands to its host: a bounded queue of events for the
//! consumer, and the list of actions that the host has to carry out on the
//! transport and on its background tasks.

use vstd::prelude::*;
use crate::ssh::types::{EventView, SSHEvent};
use crate::text::concat2;

verus! {

/// How often the output task of a terminal looks whether its session is
/// still registered, in milliseconds.
pub const OUTPUT_POLL_MILLIS: u64 = 1000;

/// How often the input task of a terminal looks whether its session is still
/// registered, in milliseconds.
pub const INPUT_POLL_MILLIS: u64 = 100;

/// The two background tasks of a terminal session.
#[derive(Debug, Clone, Copy, PartialEq, Eq, Hash, Structural)]
pub enum TaskKind {
    Input,
    Output,
}

/// One piece of work for the host, to be carried out in the order queued.
#[derive(Debug)]
pub enum HostAction {
    /// Start a background task of a terminal. The task asks the terminal
    /// manager every `poll_millis` whether it should stop.
    StartTask { terminal_id: String, kind: TaskKind, poll_millis: u64 },
    /// Cancel a background task of a terminal; harmless if it has ended.
    AbortTask { terminal_id: String, kind: TaskKind },
    /// Write bytes to a channel.
    SendData { channel: u32, data: Vec<u8> },
    /// Tell a channel that the terminal window changed its size, and report
    /// the outcome back with `complete_resize`.
    WindowChange { channel: u32, cols: u32, rows: u32, pixel_width: u32, pixel_height: u32 },
    /// Close a channel.
    CloseChannel { channel: u32 },
    /// Close the transport session of a connection.
    CloseTransport { connection_id: String },
}

pub enum ActionView {
    StartTask { terminal_id: Seq<char>, kind: TaskKind, poll_millis: u64 },
    AbortTask { terminal_id: Seq<char>, kind: TaskKind },
    SendData { channel: u32, data: Seq<u8> },
    WindowChange { channel: u32, cols: u32, rows: u32, pixel_width: u32, pixel_height: u32 },
    CloseChannel { channel: u32 },
    CloseTransport { connection_id: Seq<char> },
}

impl ActionView {
    /// What the caller is told when the host could not carry the action out
    /// for the reason `cause`. Only a failed write is reported this way. The
    /// outcome of a window change goes back to the engine, which completes
    /// the resize with it; the other actions are best effort.
    pub open spec fn failure(self, cause: Seq<char>) -> Option<Seq<char>> {
        match self {
            ActionView::SendData { .. } => Some("Failed to send data to SSH channel: "@ + cause),
            _ => None,
        }
    }
}

impl View for HostAction {
    type V = ActionView;

    open spec fn view(&self) -> ActionView {
        match self {
            HostAction::StartTask { terminal_id, kind, poll_millis } => ActionView::StartTask {
                terminal_id: terminal_id@,
                kind: *kind,
                poll_millis: *poll_millis,
            },
            HostAction::AbortTask { terminal_id, kind } => ActionView::AbortTask {
                terminal_id: terminal_id@,
                kind: *kind,
            },
            HostAction::SendData { channel, data } => ActionView::SendData {
                channel: *channel,
                data: data@,
            },
            HostAction::WindowChange {
                channel,
                cols,
                rows,
                pixel_width,
                pixel_height,
            } => ActionView::WindowChange {
                channel: *channel,
                cols: *cols,
                rows: *rows,
                pixel_width: *pixel_width,
                pixel_height: *pixel_height,
            },
            HostAction::CloseChannel { channel } => ActionView::CloseChannel { channel: *channel },
            HostAction::CloseTransport { connection_id } => ActionView::CloseTransport {
                connection_id: connection_id@,
            },
        }
    }
}

impl HostAction {
    /// The error to return to the caller when the host could not carry this
    /// action out, or nothing where a failure is to be ignored.
    pub fn failure(&self, cause: &str) -> (message: Option<String>)
        ensures
            crate::ssh::types::option_text(message) == self@.failure(cause@),
    {
        match self {
            HostAction::SendData { .. } => Some(
                concat2("Failed to send data to SSH channel: ", cause),
            ),
            _ => None,
        }
    }
}

/// The views of a list of events, in order.
pub open spec fn event_views(events: Seq<SSHEvent>) -> Seq<EventView> {
    events.map_values(|e: SSHEvent| e@)
}

/// The views of a list of actions, in order.
pub open spec fn action_views(actions: Seq<HostAction>) -> Seq<ActionView> {
    actions.map_values(|a: HostAction| a@)
}

/// The ordered channel of events from the engine to its one consumer.
///
/// The bus holds at most `capacity` events. An event sent to a full bus is
/// discarded without notice.
pub struct EventBus {
    pending: Vec<SSHEvent>,
    capacity: usize,
    emitted: Ghost<Seq<EventView>>,
}

pub struct BusView {
    /// Every event ever sent, delivered or not, in the order sent.
    pub emitted: Seq<EventView>,
    /// The events that wait for the consumer, oldest first.
    pub pending: Seq<EventView>,
    pub capacity: nat,
}

impl BusView {
    pub open spec fn send(self, event: EventView) -> BusView {
        BusView {
            emitted: self.emitted.push(event),
            pending: if self.pending.len() < self.capacity {
                self.pending.push(event)
            } else {
                self.pending
            },
            capacity: self.capacity,
        }
    }

    /// Nothing waits beyond the capacity.
    pub open spec fn within_capacity(self) -> bool {
        self.pending.len() <= self.capacity
    }
}

impl View for EventBus {
    type V = BusView;

    closed spec fn view(&self) -> BusView {
        BusView {
            emitted: self.emitted@,
            pending: event_views(self.pending@),
            capacity: self.capacity as nat,
        }
    }
}

impl EventBus {
    /// An empty bus that holds up to `capacity` events.
    pub fn new(capacity: usize) -> (bus: EventBus)
        ensures
            bus@ == (BusView {
                emitted: Seq::empty(),
                pending: Seq::empty(),
                capacity: capacity as nat,
            }),
    {
        let bus = EventBus { pending: Vec::new(), capacity, emitted: Ghost(Seq::empty()) };
        assert(event_views(bus.pending@) =~= Seq::empty());
        bus
    }

    /// Sends an event. It is queued behind those that wait if there is room
    /// and discarded if there is none; the answer says which.
    pub fn send(&mut self, event: SSHEvent) -> (queued: bool)
        ensures
            final(self)@ == old(self)@.send(event@),
            queued == (old(self)@.pending.len() < old(self)@.capacity),
            old(self)@.within_capacity() ==> final(self)@.within_capacity(),
    {
        let ghost before = event_views(self.pending@);
        self.emitted = Ghost(self.emitted@.push(event@));
        if self.pending.len() < self.capacity {
            self.pending.push(event);
            assert(event_views(self.pending@) =~= before.push(event@));
            true
        } else {
            false
        }
    }

    /// Takes the oldest waiting event, if there is one.
    pub fn receive(&mut self) -> (event: Option<SSHEvent>)
        ensures
            match event {
                Some(e) => {
                    &&& old(self)@.pending.len() > 0
                    &&& e@ == old(self)@.pending[0]
                    &&& final(self)@ == (BusView {
                        pending: old(self)@.pending.drop_first(),
                        ..old(self)@
                    })
                },
                None => old(self)@.pending.len() == 0 && final(self)@ == old(self)@,
            },
    {
        if self.pending.len() == 0 {
            None
        } else {
            let ghost before = event_views(self.pending@);
            let e = self.pending.remove(0);
            assert(event_views(self.pending@) =~= before.drop_first());
            Some(e)
        }
    }

    /// Takes every waiting event, oldest first.
    pub fn drain(&mut self) -> (events: Vec<SSHEvent>)
        ensures
            event_views(events@) == old(self)@.pending,
            final(self)@ == (BusView { pending: Seq::empty(), ..old(self)@ }),
    {
        let mut out: Vec<SSHEvent> = Vec::new();
        core::mem::swap(&mut self.pending, &mut out);
        assert(event_views(self.pending@) =~= Seq::empty());
        out
    }

    /// How many events wait for the consumer.
    pub fn len(&self) -> (n: usize)
        ensures
            n == self@.pending.len(),
    {
        self.pending.len()
    }

    /// Whether no event waits for the consumer.
    pub fn is_empty(&self) -> (r: bool)
        ensures
            r == (self@.pending.len() == 0),
    {
        self.pending.len() == 0
    }

    /// How many events the bus holds at most.
    pub fn capacity(&self) -> (n: usize)
        ensures
            n == self@.capacity,
    {
        self.capacity
    }
}

/// The events and the host actions that engine operations leave behind.
pub struct Outbox {
    pub events: EventBus,
    pub actions: Vec<HostAction>,
}

pub struct OutboxView {
    pub events: BusView,
    pub actions: Seq<ActionView>,
}

impl OutboxView {
    /// The outbox after `event` was sent on its bus.
    pub open spec fn emit(self, event: EventView) -> OutboxView {
        OutboxView { events: self.events.send(event), actions: self.actions }
    }

    /// The outbox after `action` was queued for the host.
    pub open spec fn request(self, action: ActionView) -> OutboxView {
        OutboxView { events: self.events, actions: self.actions.push(action) }
    }

    /// The outbox after all of `actions` were queued, in order.
    pub open spec fn request_all(self, actions: Seq<ActionView>) -> OutboxView {
        OutboxView { events: self.events, actions: self.actions + actions }
    }

    /// The outbox after all of `events` were sent, in order.
    pub open spec fn emit_all(self, events: Seq<EventView>) -> OutboxView
        decreases events.len(),
    {
        if events.len() == 0 {
            self
        } else {
            self.emit_all(events.drop_last()).emit(events.last())
        }
    }
}

impl View for Outbox {
    type V = OutboxView;

    open spec fn view(&self) -> OutboxView {
        OutboxView { events: self.events@, actions: action_views(self.actions@) }
    }
}

impl Outbox {
    /// The model of an empty outbox whose bus holds up to `capacity` events.
    pub open spec fn new_view(capacity: usize) -> OutboxView {
        OutboxView {
            events: BusView {
                emitted: Seq::empty(),
                pending: Seq::empty(),
                capacity: capacity as nat,
            },
            actions: Seq::empty(),
        }
    }

    /// An empty outbox whose bus holds up to `capacity` events.
    pub fn new(capacity: usize) -> (out: Outbox)
        ensures
            out@ == Outbox::new_view(capacity),
    {
        let out = Outbox { events: EventBus::new(capacity), actions: Vec::new() };
        assert(action_views(out.actions@) =~= Seq::empty());
        out
    }

    /// Sends `event` on the bus.
    pub fn emit(&mut self, event: SSHEvent)
        ensures
            final(self)@ == old(self)@.emit(event@),
    {
        self.events.send(event);
    }

    /// Queues `action` for the host.
    pub fn request(&mut self, action: HostAction)
        ensures
            final(self)@ == old(self)@.request(action@),
    {
        let ghost before = action_views(self.actions@);
        self.actions.push(action);
        assert(action_views(self.actions@) =~= before.push(action@));
    }

    /// Takes the queued actions, in the order in which they are to be
    /// carried out.
    pub fn take_actions(&mut self) -> (actions: Vec<HostAction>)
        ensures
            action_views(actions@) == old(self)@.actions,
            final(self)@ == (OutboxView { actions: Seq::empty(), ..old(self)@ }),
    {
        let mut out: Vec<HostAction> = Vec::new();
        core::mem::swap(&mut self.actions, &mut out);
        assert(action_views(self.actions@) =~= Seq::empty());
        out
    }
}

/// The bus is bounded and ordered: sending never lets more than `capacity`
/// events wait, never disturbs those that wait already, and records every
/// event as sent whether it was queued or discarded.
pub proof fn lemma_send_is_bounded_and_ordered(bus: BusView, event: EventView)
    requires
        bus.within_capacity(),
    ensures
        bus.send(event).within_capacity(),
        bus.send(event).capacity == bus.capacity,
        bus.pending.is_prefix_of(bus.send(event).pending),
        bus.send(event).emitted == bus.emitted.push(event),
        bus.pending.len() < bus.capacity ==> bus.send(event).pending.last() == event,
        bus.pending.len() == bus.capacity ==> bus.send(event).pending == bus.pending,
{
}

} // verus!
