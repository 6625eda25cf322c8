//! The control loop of one connection, reduced to its decisions.
//!
//! A connection has two sources of work: the events that wait in its
//! outbound queue and the frames that the client sends. Whoever owns the
//! transport waits on both, reports what happened as a [`SessionEvent`] and
//! does what the [`SessionAction`] says. The first failure or end of stream
//! terminates the session, and a terminated session stays terminated.

use tokio::sync::mpsc::UnboundedReceiver;
use vstd::prelude::*;

use crate::protocol::{IncomingMessage, NewMessageUpdateView, OutgoingMessage, UpdatePayloadView};
use crate::state::{AppState, AppStateView, ConnectionHandle, ConnectionHandleView, Outcome};

verus! {

/// A frame read from the client, as far as the session cares.
#[derive(Debug, PartialEq, Eq)]
pub enum Inbound {
    /// The client closed the stream.
    Closed,
    /// The transport failed while reading.
    Failed,
    /// A frame arrived that does not hold a command.
    Malformed,
    /// A command arrived.
    Command(IncomingMessage),
}

/// Something that happened on one of the two sources a session waits on.
#[derive(Debug, PartialEq, Eq)]
pub enum SessionEvent {
    /// The outbound queue yielded its next event, or `None` because every
    /// sender is gone.
    Outbound(Option<OutgoingMessage>),
    /// The write that the session asked for ended, well or not.
    Written(bool),
    /// The client's stream yielded a frame, or its end.
    Inbound(Inbound),
}

/// What the owner of the transport has to do next.
#[derive(Debug, PartialEq, Eq)]
pub enum SessionAction {
    /// Go on waiting.
    Continue,
    /// A command was dispatched and ended as told; go on waiting.
    Handled(Outcome),
    /// Write this event to the client and report how the write ended.
    Write(OutgoingMessage),
    /// Leave the loop, finish the session and close the transport.
    Terminate,
}

/// How `msg` ends when it arrives on connection `conn`.
pub open spec fn command_outcome(
    state: AppStateView,
    conn: ConnectionHandleView,
    msg: IncomingMessage,
) -> Outcome {
    match msg {
        IncomingMessage::Login(_) => state.login_outcome(conn.id),
        IncomingMessage::Sync { device_pts } => state.sync_outcome(conn.id, conn.user),
        IncomingMessage::SendMessage(cmd) => state.send_outcome(conn.id, conn.user, cmd.receiver@),
    }
}

/// The state after `msg` arrived on connection `conn`. A command that is
/// not accepted changes nothing.
pub open spec fn state_after_command(
    state: AppStateView,
    conn: ConnectionHandleView,
    msg: IncomingMessage,
) -> AppStateView {
    if command_outcome(state, conn, msg) is Accepted {
        match msg {
            IncomingMessage::Login(cmd) => state.login(conn.id, cmd.user_token@),
            IncomingMessage::Sync { device_pts } => state.sync(
                conn.id,
                conn.user->0,
                device_pts as nat,
            ),
            IncomingMessage::SendMessage(cmd) => state.post(
                cmd.receiver@,
                UpdatePayloadView::NewMessage(
                    NewMessageUpdateView { sender: conn.user->0, contents: cmd.contents@ },
                ),
            ),
        }
    } else {
        state
    }
}

/// The handle of connection `conn` after `msg` arrived on it: an accepted
/// login makes it speak for the user, nothing else changes it.
pub open spec fn handle_after_command(
    state: AppStateView,
    conn: ConnectionHandleView,
    msg: IncomingMessage,
) -> ConnectionHandleView {
    match msg {
        IncomingMessage::Login(cmd) => if command_outcome(state, conn, msg) is Accepted {
            ConnectionHandleView {
                id: conn.id,
                user: Some(cmd.user_token@),
                holds_event_channel: conn.holds_event_channel,
            }
        } else {
            conn
        },
        _ => conn,
    }
}

/// Hands a decoded command to the connection handle.
pub fn handle_message(
    msg: &IncomingMessage,
    conn_handle: &mut ConnectionHandle,
    state: &mut AppState,
) -> (outcome: Outcome)
    requires
        old(state).wf(),
    ensures
        final(state).wf(),
        outcome == command_outcome(old(state)@, old(conn_handle)@, *msg),
        final(state)@ == state_after_command(old(state)@, old(conn_handle)@, *msg),
        final(conn_handle)@ == handle_after_command(old(state)@, old(conn_handle)@, *msg),
{
    match msg {
        IncomingMessage::Login(login_cmd) => conn_handle.login(state, login_cmd),
        IncomingMessage::Sync { device_pts } => conn_handle.subscribe_or_sync_updates(
            state,
            *device_pts,
        ),
        IncomingMessage::SendMessage(send_msg_cmd) => conn_handle.send_message(state, send_msg_cmd),
    }
}

/// What a [`Session`] holds: the handle of its connection and whether it
/// still runs.
pub struct SessionView {
    pub conn: ConnectionHandleView,
    pub running: bool,
}

/// The session of one connection.
pub struct Session {
    conn_handle: ConnectionHandle,
    running: bool,
}

impl View for Session {
    type V = SessionView;

    closed spec fn view(&self) -> SessionView {
        SessionView { conn: self.conn_handle@, running: self.running }
    }
}

impl SessionView {
    /// What the session answers to `event` while the shared state is
    /// `state`.
    pub open spec fn action(self, state: AppStateView, event: SessionEvent) -> SessionAction {
        if !self.running {
            SessionAction::Terminate
        } else {
            match event {
                SessionEvent::Outbound(Some(evt)) => SessionAction::Write(evt),
                SessionEvent::Outbound(None) => SessionAction::Terminate,
                SessionEvent::Written(true) => SessionAction::Continue,
                SessionEvent::Written(false) => SessionAction::Terminate,
                SessionEvent::Inbound(Inbound::Command(msg)) => SessionAction::Handled(
                    command_outcome(state, self.conn, msg),
                ),
                SessionEvent::Inbound(_) => SessionAction::Terminate,
            }
        }
    }

    /// The state after the session saw `event`: only a command that
    /// arrives while the session runs can change it.
    pub open spec fn state_after(self, state: AppStateView, event: SessionEvent) -> AppStateView {
        match event {
            SessionEvent::Inbound(Inbound::Command(msg)) => if self.running {
                state_after_command(state, self.conn, msg)
            } else {
                state
            },
            _ => state,
        }
    }

    /// The session after it saw `event`.
    pub open spec fn after(self, state: AppStateView, event: SessionEvent) -> SessionView {
        SessionView {
            conn: match event {
                SessionEvent::Inbound(Inbound::Command(msg)) => if self.running {
                    handle_after_command(state, self.conn, msg)
                } else {
                    self.conn
                },
                _ => self.conn,
            },
            running: self.running && !(self.action(state, event) is Terminate),
        }
    }
}

impl Session {
    /// Registers a new connection and starts its session. The second
    /// component is the receiving half of the connection's outbound queue,
    /// on which the owner of the transport waits for events.
    pub fn open(state: &mut AppState) -> (opened: (Session, UnboundedReceiver<OutgoingMessage>))
        requires
            old(state).wf(),
            old(state)@.id_seed < u64::MAX,
        ensures
            final(state).wf(),
            final(state)@ == old(state)@.register(),
            opened.0@ == (SessionView {
                conn: ConnectionHandleView {
                    id: old(state)@.id_seed,
                    user: None,
                    holds_event_channel: false,
                },
                running: true,
            }),
    {
        let mut conn_handle = state.register_connection();
        let event_chan = conn_handle.take_event_channel().expect("should get the channel");
        (Session { conn_handle, running: true }, event_chan)
    }

    /// The id of the session's connection.
    pub fn conn_id(&self) -> (id: u64)
        ensures
            id == self@.conn.id,
    {
        self.conn_handle.id()
    }

    /// Whether the session has not terminated yet.
    pub fn is_running(&self) -> (running: bool)
        ensures
            running == self@.running,
    {
        self.running
    }

    /// Takes one event and says what to do next. An event from the queue is
    /// to be written; a failed write, a closed queue, the end of the
    /// client's stream, a transport failure and a malformed frame each
    /// terminate the session; a command is dispatched.
    pub fn on_event(&mut self, state: &mut AppState, event: SessionEvent) -> (action:
        SessionAction)
        requires
            old(state).wf(),
        ensures
            final(state).wf(),
            action == old(self)@.action(old(state)@, event),
            final(state)@ == old(self)@.state_after(old(state)@, event),
            final(self)@ == old(self)@.after(old(state)@, event),
    {
        if !self.running {
            return SessionAction::Terminate;
        }
        match event {
            SessionEvent::Outbound(Some(evt)) => SessionAction::Write(evt),
            SessionEvent::Written(true) => SessionAction::Continue,
            SessionEvent::Inbound(Inbound::Command(msg)) => {
                SessionAction::Handled(handle_message(&msg, &mut self.conn_handle, state))
            },
            _ => {
                self.running = false;
                SessionAction::Terminate
            },
        }
    }

    /// Ends the session: the connection leaves the registry and every
    /// connection that stays is told that a device went offline. The session
    /// is used up, so this happens once, whatever made the loop end.
    pub fn finish(self, state: &mut AppState)
        requires
            old(state).wf(),
        ensures
            final(state).wf(),
            final(state)@ == old(state)@.disconnect(self@.conn.id),
    {
        self.conn_handle.close(state);
    }
}

} // verus!
