//! The outbound queue of a connection.
//!
//! The queue itself is an unbounded tokio channel. Producers push events into
//! its sending half through an [`Outbox`], which also keeps, as ghost state,
//! the sequence of everything that was ever pushed. The receiving half is
//! handed to whoever writes the events to the transport.

use tokio::sync::mpsc::{UnboundedReceiver, UnboundedSender};
use vstd::prelude::*;

use crate::mailbox::Subscriber;
use crate::protocol::{OutgoingMessage, OutgoingMessageView, Update, UpdateView};

verus! {

/// The sending half of a tokio unbounded channel, carried as an opaque
/// value.
#[verifier::external_type_specification]
#[verifier::external_body]
#[verifier::reject_recursive_types(T)]
pub struct ExUnboundedSender<T>(tokio::sync::mpsc::UnboundedSender<T>);

/// The receiving half of a tokio unbounded channel, carried as an opaque
/// value.
#[verifier::external_type_specification]
#[verifier::external_body]
#[verifier::reject_recursive_types(T)]
pub struct ExUnboundedReceiver<T>(tokio::sync::mpsc::UnboundedReceiver<T>);

/// Creates a channel with `tokio::sync::mpsc::unbounded_channel`. Nothing is
/// assumed about the two halves it returns.
#[verifier::external_body]
fn unbounded_event_channel() -> (halves: (
    UnboundedSender<OutgoingMessage>,
    UnboundedReceiver<OutgoingMessage>,
)) {
    tokio::sync::mpsc::unbounded_channel()
}

/// Hands `event` to `UnboundedSender::send` and reports whether the channel
/// took it. The channel refuses an event once its receiving half is closed or
/// gone, which nothing here can foresee, so nothing is assumed about the
/// answer.
#[verifier::external_body]
fn channel_send(chan_tx: &UnboundedSender<OutgoingMessage>, event: OutgoingMessage) -> (accepted:
    bool) {
    chan_tx.send(event).is_ok()
}

/// The sending half of one connection's outbound queue.
///
/// Its view is the sequence of events pushed so far, oldest first. The
/// channel delivers in the order of the pushes, so this is also the order in
/// which the connection gets to see them.
pub struct Outbox {
    chan_tx: UnboundedSender<OutgoingMessage>,
    pushed: Ghost<Seq<OutgoingMessageView>>,
}

impl View for Outbox {
    type V = Seq<OutgoingMessageView>;

    closed spec fn view(&self) -> Seq<OutgoingMessageView> {
        self.pushed@
    }
}

impl Outbox {
    /// Opens a fresh queue and returns its two halves.
    pub fn channel() -> (halves: (Outbox, UnboundedReceiver<OutgoingMessage>))
        ensures
            halves.0@ == Seq::<OutgoingMessageView>::empty(),
    {
        let (chan_tx, chan_rx) = unbounded_event_channel();
        (Outbox { chan_tx, pushed: Ghost(Seq::empty()) }, chan_rx)
    }

    /// Pushes `event` onto the queue. The result tells whether the queue was
    /// still open; the event counts as pushed either way.
    pub fn send_event(&mut self, event: OutgoingMessage) -> (accepted: bool)
        ensures
            final(self)@ == old(self)@.push(event@),
    {
        let ghost pushed = self.pushed@.push(event@);
        let accepted = channel_send(&self.chan_tx, event);
        self.pushed = Ghost(pushed);
        accepted
    }
}

impl Subscriber for Outbox {
    open spec fn received(before: Self, update: UpdateView, after: Self) -> bool {
        after@ == before@.push(OutgoingMessageView::Update(update))
    }

    fn on_receive_update(&mut self, update: &Update) {
        let update = update.clone();
        self.send_event(OutgoingMessage::Update(update));
    }
}

} // verus!
