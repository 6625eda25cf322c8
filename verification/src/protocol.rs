//! The messages exchanged with a client, and their mathematical views.
//!
//! Inbound messages are commands, outbound messages are events. Strings are
//! viewed as sequences of characters and vectors as sequences of views, so
//! that contracts elsewhere can speak of what a message says rather than of
//! the buffers that hold it.

use vstd::prelude::*;

verus! {

/// A command sent by a client, one per inbound frame.
#[derive(Debug, PartialEq, Eq)]
pub enum IncomingMessage {
    /// Authenticate this connection as a device of a user.
    Login(LoginCommand),
    /// Join live delivery, or ask for what was missed after `device_pts`.
    Sync { device_pts: u64 },
    /// Post a message to another user's mailbox.
    SendMessage(SendMessageCommand),
}

/// The fields of a `login` command.
#[derive(Debug, PartialEq, Eq)]
pub struct LoginCommand {
    pub user_token: String,
    pub device_token: String,
    pub secret_key: String,
}

/// The fields of a `send_message` command.
#[derive(Debug, PartialEq, Eq)]
pub struct SendMessageCommand {
    pub receiver: String,
    pub contents: String,
}

/// An event pushed to a client.
#[derive(Debug, PartialEq, Eq)]
pub enum OutgoingMessage {
    /// Some other connection logged in.
    DeviceOnline,
    /// Some other connection went away.
    DeviceOffline,
    /// The login of this connection was accepted.
    LoggedIn,
    /// The answer to a `sync` command.
    SyncUpdates(SyncUpdates),
    /// An update delivered live.
    Update(Update),
}

/// The answer to a `sync` command: either `synced` with no updates, or a
/// batch of missed updates together with the `too_long` flag.
#[derive(Debug, PartialEq, Eq)]
pub struct SyncUpdates {
    pub too_long: bool,
    pub synced: bool,
    pub updates: Vec<Update>,
}

/// One sequenced fact in a user's log.
#[derive(Debug, PartialEq, Eq)]
pub struct Update {
    pub pts: u64,
    pub payload: UpdatePayload,
}

/// What an update carries.
#[derive(Debug, PartialEq, Eq)]
pub enum UpdatePayload {
    NewMessage(NewMessageUpdate),
}

/// A message from `sender` with the given `contents`.
#[derive(Debug, PartialEq, Eq)]
pub struct NewMessageUpdate {
    pub sender: String,
    pub contents: String,
}

/// What a [`NewMessageUpdate`] says.
pub struct NewMessageUpdateView {
    pub sender: Seq<char>,
    pub contents: Seq<char>,
}

/// What an [`UpdatePayload`] says.
pub enum UpdatePayloadView {
    NewMessage(NewMessageUpdateView),
}

/// What an [`Update`] says.
pub struct UpdateView {
    pub pts: nat,
    pub payload: UpdatePayloadView,
}

/// What a [`SyncUpdates`] says.
pub struct SyncUpdatesView {
    pub too_long: bool,
    pub synced: bool,
    pub updates: Seq<UpdateView>,
}

/// What an [`OutgoingMessage`] says.
pub enum OutgoingMessageView {
    DeviceOnline,
    DeviceOffline,
    LoggedIn,
    SyncUpdates(SyncUpdatesView),
    Update(UpdateView),
}

/// The views of a sequence of updates, in the same order.
pub open spec fn update_views(updates: Seq<Update>) -> Seq<UpdateView> {
    updates.map_values(|u: Update| u@)
}

impl View for NewMessageUpdate {
    type V = NewMessageUpdateView;

    open spec fn view(&self) -> NewMessageUpdateView {
        NewMessageUpdateView { sender: self.sender@, contents: self.contents@ }
    }
}

impl View for UpdatePayload {
    type V = UpdatePayloadView;

    open spec fn view(&self) -> UpdatePayloadView {
        match self {
            UpdatePayload::NewMessage(m) => UpdatePayloadView::NewMessage(m@),
        }
    }
}

impl View for Update {
    type V = UpdateView;

    open spec fn view(&self) -> UpdateView {
        UpdateView { pts: self.pts as nat, payload: self.payload@ }
    }
}

impl View for SyncUpdates {
    type V = SyncUpdatesView;

    open spec fn view(&self) -> SyncUpdatesView {
        SyncUpdatesView {
            too_long: self.too_long,
            synced: self.synced,
            updates: update_views(self.updates@),
        }
    }
}

impl View for OutgoingMessage {
    type V = OutgoingMessageView;

    open spec fn view(&self) -> OutgoingMessageView {
        match self {
            OutgoingMessage::DeviceOnline => OutgoingMessageView::DeviceOnline,
            OutgoingMessage::DeviceOffline => OutgoingMessageView::DeviceOffline,
            OutgoingMessage::LoggedIn => OutgoingMessageView::LoggedIn,
            OutgoingMessage::SyncUpdates(s) => OutgoingMessageView::SyncUpdates(s@),
            OutgoingMessage::Update(u) => OutgoingMessageView::Update(u@),
        }
    }
}

impl Clone for NewMessageUpdate {
    fn clone(&self) -> (res: Self)
        ensures
            res@ == self@,
    {
        NewMessageUpdate { sender: self.sender.clone(), contents: self.contents.clone() }
    }
}

impl Clone for UpdatePayload {
    fn clone(&self) -> (res: Self)
        ensures
            res@ == self@,
    {
        match self {
            UpdatePayload::NewMessage(m) => UpdatePayload::NewMessage(m.clone()),
        }
    }
}

impl Clone for Update {
    fn clone(&self) -> (res: Self)
        ensures
            res@ == self@,
    {
        Update { pts: self.pts, payload: self.payload.clone() }
    }
}

/// Copies a vector of updates one by one.
fn clone_updates(updates: &Vec<Update>) -> (res: Vec<Update>)
    ensures
        update_views(res@) == update_views(updates@),
{
    let mut res: Vec<Update> = Vec::new();
    let mut i: usize = 0;
    while i < updates.len()
        invariant
            i <= updates.len(),
            res@.len() == i,
            forall|j: int| 0 <= j < i ==> res@[j]@ == updates@[j]@,
        decreases updates.len() - i,
    {
        res.push(updates[i].clone());
        i += 1;
    }
    assert(update_views(res@) =~= update_views(updates@));
    res
}

impl Clone for SyncUpdates {
    fn clone(&self) -> (res: Self)
        ensures
            res@ == self@,
    {
        SyncUpdates {
            too_long: self.too_long,
            synced: self.synced,
            updates: clone_updates(&self.updates),
        }
    }
}

impl Clone for OutgoingMessage {
    fn clone(&self) -> (res: Self)
        ensures
            res@ == self@,
    {
        match self {
            OutgoingMessage::DeviceOnline => OutgoingMessage::DeviceOnline,
            OutgoingMessage::DeviceOffline => OutgoingMessage::DeviceOffline,
            OutgoingMessage::LoggedIn => OutgoingMessage::LoggedIn,
            OutgoingMessage::SyncUpdates(s) => OutgoingMessage::SyncUpdates(s.clone()),
            OutgoingMessage::Update(u) => OutgoingMessage::Update(u.clone()),
        }
    }
}

} // verus!
