//! The lifecycle of one client connection.
//!
//! A connection starts out pending. Opening it attaches its channel to the
//! client's record, which must already be registered; an unknown client is
//! refused and the connection is closed at once. While a connection is
//! attached, two duties run for it: a pump that writes what arrives on the
//! channel to the transport, and a drain that reads what the client sends.
//! What they observe comes here as signals. The first signal that ends the
//! connection removes the client's record; whatever comes after finds the
//! connection closed and changes nothing.
//!
//! The duties themselves wait on the transport and belong to the caller.
//! Nothing here waits.

use crate::channel::{Frame, Outbound};
use crate::model::{after_attach, after_removal};
use crate::registry::Registry;
use vstd::prelude::*;

verus! {

/// Where a connection stands.
#[derive(Debug, Clone, Copy, PartialEq, Eq, Structural)]
pub enum ConnectionState {
    /// Requested, not yet attached to a record.
    Pending,
    /// Attached to the client's record: both duties run.
    Attached,
    /// Over. A closed connection is never reopened.
    Closed,
}

/// What the duties of a connection observe.
#[derive(Debug, Clone, Copy, PartialEq, Eq, Structural)]
pub enum Signal {
    /// The drain read a frame from the client. Its content is of no
    /// concern: it shows that the client is alive.
    FrameReceived,
    /// The drain reached the end of the inbound stream.
    StreamEnded,
    /// The drain got an error from the transport.
    TransportFailed,
    /// The pump could not write to the transport.
    WriteFailed,
}

/// What the caller is to do next for a connection.
#[derive(Debug, Clone, Copy, PartialEq, Eq, Structural)]
pub enum Action {
    /// Start the pump and the drain.
    Serve,
    /// Turn the connection away.
    Refuse,
    /// Keep the duties running.
    Continue,
    /// Stop both duties.
    Stop,
}

/// What a signal makes of a connection.
#[derive(Debug, Clone, Copy, PartialEq, Eq, Structural)]
pub struct Reaction {
    /// The state after the signal.
    pub next: ConnectionState,
    /// What the caller is to do.
    pub action: Action,
    /// Whether the client's record is to be removed now.
    pub cleanup: bool,
}

impl Signal {
    /// Whether the signal ends the connection that it is observed on.
    pub open spec fn ends_connection(self) -> bool {
        self != Signal::FrameReceived
    }

    /// Whether the signal ends the connection that it is observed on.
    pub fn is_closing(&self) -> (closing: bool)
        ensures
            closing == self.ends_connection(),
    {
        match self {
            Signal::FrameReceived => false,
            Signal::StreamEnded => true,
            Signal::TransportFailed => true,
            Signal::WriteFailed => true,
        }
    }
}

/// The signal that an item of the inbound stream stands for: a frame, an
/// error of the transport, or the end of the stream.
pub open spec fn signal_of(item: Option<Frame>) -> Signal {
    match item {
        Some(Ok(_)) => Signal::FrameReceived,
        Some(Err(_)) => Signal::TransportFailed,
        None => Signal::StreamEnded,
    }
}

/// Reads off an item of the inbound stream what the drain has observed.
pub fn inbound_signal(item: &Option<Frame>) -> (signal: Signal)
    ensures
        signal == signal_of(*item),
{
    match item {
        Some(Ok(_)) => Signal::FrameReceived,
        Some(Err(_)) => Signal::TransportFailed,
        None => Signal::StreamEnded,
    }
}

/// What the pump is to do with what it took off the channel.
#[derive(Debug)]
pub enum PumpStep {
    /// Write the message to the transport, then take the next.
    Write(warp::ws::Message),
    /// The channel carried an error in place of a message: the pump has
    /// failed, as if a write had.
    Fail,
    /// Every handle to the channel is gone, so nothing more can arrive:
    /// the pump is done. The connection lasts until its transport ends.
    Finish,
}

/// The step that an item of the channel stands for.
pub open spec fn pump_step_of(item: Option<Frame>) -> PumpStep {
    match item {
        Some(Ok(message)) => PumpStep::Write(message),
        Some(Err(_)) => PumpStep::Fail,
        None => PumpStep::Finish,
    }
}

/// Decides what the pump does with what it took off the channel. The pump
/// takes one item at a time and is the only writer to the transport, so
/// the messages are written in the order in which they were enqueued.
pub fn pump_step(item: Option<Frame>) -> (step: PumpStep)
    ensures
        step == pump_step_of(item),
{
    match item {
        Some(Ok(message)) => PumpStep::Write(message),
        Some(Err(_)) => PumpStep::Fail,
        None => PumpStep::Finish,
    }
}

/// The state of a connection after an attempt to open it, given whether
/// its client was registered. Only a pending connection can be opened.
pub open spec fn state_after_open(state: ConnectionState, registered: bool) -> ConnectionState {
    match state {
        ConnectionState::Pending => if registered {
            ConnectionState::Attached
        } else {
            ConnectionState::Closed
        },
        other => other,
    }
}

/// What the caller is to do after an attempt to open a connection.
pub open spec fn action_after_open(state: ConnectionState, registered: bool) -> Action {
    if state == ConnectionState::Pending && registered {
        Action::Serve
    } else {
        Action::Refuse
    }
}

/// The state of a connection after a signal.
pub open spec fn state_after(state: ConnectionState, signal: Signal) -> ConnectionState {
    if signal.ends_connection() {
        ConnectionState::Closed
    } else {
        state
    }
}

/// What the caller is to do after a signal.
pub open spec fn action_after(state: ConnectionState, signal: Signal) -> Action {
    if state == ConnectionState::Closed || signal.ends_connection() {
        Action::Stop
    } else {
        Action::Continue
    }
}

/// Whether a signal makes a connection remove its client's record: only
/// the signal that ends an attached connection does.
pub open spec fn cleans_up(state: ConnectionState, signal: Signal) -> bool {
    state == ConnectionState::Attached && signal.ends_connection()
}

/// What `signal` makes of a connection in `state`.
pub fn react(state: ConnectionState, signal: Signal) -> (reaction: Reaction)
    ensures
        reaction.next == state_after(state, signal),
        reaction.action == action_after(state, signal),
        reaction.cleanup == cleans_up(state, signal),
{
    let closing = signal.is_closing();
    match state {
        ConnectionState::Pending => Reaction {
            next: if closing {
                ConnectionState::Closed
            } else {
                ConnectionState::Pending
            },
            action: if closing {
                Action::Stop
            } else {
                Action::Continue
            },
            cleanup: false,
        },
        ConnectionState::Attached => Reaction {
            next: if closing {
                ConnectionState::Closed
            } else {
                ConnectionState::Attached
            },
            action: if closing {
                Action::Stop
            } else {
                Action::Continue
            },
            cleanup: closing,
        },
        ConnectionState::Closed => Reaction {
            next: ConnectionState::Closed,
            action: Action::Stop,
            cleanup: false,
        },
    }
}

/// One connection of one client.
pub struct Connection {
    client_id: String,
    state: ConnectionState,
}

/// A connection as contracts see it.
pub struct ConnectionView {
    pub client_id: Seq<char>,
    pub state: ConnectionState,
}

impl View for Connection {
    type V = ConnectionView;

    closed spec fn view(&self) -> ConnectionView {
        ConnectionView { client_id: self.client_id@, state: self.state }
    }
}

impl Connection {
    /// A pending connection for `client_id`.
    pub fn new(client_id: String) -> (connection: Connection)
        ensures
            connection@ == (ConnectionView {
                client_id: client_id@,
                state: ConnectionState::Pending,
            }),
    {
        Connection { client_id, state: ConnectionState::Pending }
    }

    /// The client that the connection belongs to.
    pub fn client_id(&self) -> (client_id: &str)
        ensures
            client_id@ == self@.client_id,
    {
        self.client_id.as_str()
    }

    /// Where the connection stands.
    pub fn state(&self) -> (state: ConnectionState)
        ensures
            state == self@.state,
    {
        self.state
    }

    /// Opens a pending connection: attaches `sender` to the client's
    /// record. A registered client is served from now on; an unknown one is
    /// refused, and the connection is closed without ever being attached.
    /// A connection that is not pending is refused too, and nothing
    /// changes.
    pub fn open(&mut self, registry: &mut Registry, sender: Outbound) -> (action: Action)
        ensures
            final(self)@.client_id == old(self)@.client_id,
            final(self)@.state == state_after_open(
                old(self)@.state,
                old(registry)@.contains_key(old(self)@.client_id),
            ),
            action == action_after_open(
                old(self)@.state,
                old(registry)@.contains_key(old(self)@.client_id),
            ),
            final(registry)@ == (if old(self)@.state == ConnectionState::Pending {
                after_attach(old(registry)@, old(self)@.client_id, sender)
            } else {
                old(registry)@
            }),
    {
        match self.state {
            ConnectionState::Pending => {
                match registry.attach(self.client_id.as_str(), sender) {
                    Ok(_) => {
                        self.state = ConnectionState::Attached;
                        Action::Serve
                    },
                    Err(_) => {
                        self.state = ConnectionState::Closed;
                        Action::Refuse
                    },
                }
            },
            _ => Action::Refuse,
        }
    }

    /// Takes a signal from one of the connection's duties. The signal that
    /// ends an attached connection removes the client's record, so that
    /// nothing is dispatched to the client any more; a record that an
    /// unregistration has removed before is not missed. Every later signal
    /// finds the connection closed and leaves the registry alone. A signal
    /// that ends nothing changes nothing.
    pub fn on_signal(&mut self, signal: Signal, registry: &mut Registry) -> (action: Action)
        ensures
            final(self)@.client_id == old(self)@.client_id,
            final(self)@.state == state_after(old(self)@.state, signal),
            action == action_after(old(self)@.state, signal),
            final(registry)@ == (if cleans_up(old(self)@.state, signal) {
                after_removal(old(registry)@, old(self)@.client_id)
            } else {
                old(registry)@
            }),
    {
        let reaction = react(self.state, signal);
        if reaction.cleanup {
            let _ = registry.detach(self.client_id.as_str());
        }
        self.state = reaction.next;
        reaction.action
    }
}

} // verus!
