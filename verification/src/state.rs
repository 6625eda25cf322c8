//! The shared state of the server and the handle of one connection.
//!
//! [`AppState`] owns the registry of live connections and the user
//! directory. A [`ConnectionHandle`] is what the task that serves one
//! connection holds: the connection's id, the receiving half of its outbound
//! queue and, after login, the user it speaks for. Every command goes through
//! the handle and changes the state in one step, which the view of the state
//! describes exactly.

use std::collections::HashMap;
use tokio::sync::mpsc::UnboundedReceiver;
use vstd::prelude::*;
use vstd::std_specs::iter::IteratorSpec;

use crate::mailbox::{notified, Mailbox, MailboxView};
use crate::outbox::Outbox;
use crate::protocol::{
    LoginCommand, NewMessageUpdate, NewMessageUpdateView, OutgoingMessage, OutgoingMessageView,
    SendMessageCommand, SyncUpdates, SyncUpdatesView, Update, UpdatePayload, UpdatePayloadView,
    UpdateView, update_views,
};

verus! {

/// How a command ended.
#[derive(Debug, Clone, Copy, PartialEq, Eq)]
pub enum Outcome {
    /// The command took effect.
    Accepted,
    /// The handle is not registered with the state it was used on.
    Detached,
    /// The connection has not logged in.
    NotLoggedIn,
    /// No mailbox exists for the receiver.
    ReceiverNotFound,
    /// The receiver's mailbox has given out its last sequence number.
    MailboxFull,
}

/// `conns` after `event` was pushed to connection `id`, if there is one.
pub open spec fn pushed(
    conns: Map<u64, Seq<OutgoingMessageView>>,
    id: u64,
    event: OutgoingMessageView,
) -> Map<u64, Seq<OutgoingMessageView>> {
    if conns.contains_key(id) {
        conns.insert(id, conns[id].push(event))
    } else {
        conns
    }
}

/// `conns` after `event` was pushed to every connection but `sender`.
pub open spec fn broadcast(
    conns: Map<u64, Seq<OutgoingMessageView>>,
    event: OutgoingMessageView,
    sender: u64,
) -> Map<u64, Seq<OutgoingMessageView>> {
    Map::new(
        |id: u64| conns.contains_key(id),
        |id: u64|
            if id == sender {
                conns[id]
            } else {
                conns[id].push(event)
            },
    )
}

/// `conns` after `update` was pushed to every connection listed in
/// `subscribers`.
pub open spec fn delivered(
    conns: Map<u64, Seq<OutgoingMessageView>>,
    subscribers: Set<u64>,
    update: UpdateView,
) -> Map<u64, Seq<OutgoingMessageView>> {
    Map::new(
        |id: u64| conns.contains_key(id),
        |id: u64|
            if subscribers.contains(id) {
                conns[id].push(OutgoingMessageView::Update(update))
            } else {
                conns[id]
            },
    )
}

/// What an [`AppState`] holds: for each registered connection the events
/// pushed to its outbound queue so far, for each user that ever logged in
/// the mailbox, and the id that the next connection will get.
pub struct AppStateView {
    pub conns: Map<u64, Seq<OutgoingMessageView>>,
    pub users: Map<Seq<char>, MailboxView>,
    pub id_seed: u64,
}

impl AppStateView {
    /// Ids are given out in increasing order starting at 1, so every id in
    /// use lies below the next one; and every mailbox is well formed.
    pub open spec fn wf(self) -> bool {
        &&& self.id_seed >= 1
        &&& forall|id: u64| #[trigger] self.conns.contains_key(id) ==> id < self.id_seed
        &&& forall|user: Seq<char>| #[trigger] self.users.contains_key(user) ==> self.users[user].wf()
        &&& forall|user: Seq<char>, id: u64|
            self.users.contains_key(user) && #[trigger] self.users[user].subscribers.contains(id)
                ==> id < self.id_seed
    }

    /// No connection, no user.
    pub open spec fn empty() -> AppStateView {
        AppStateView { conns: Map::empty(), users: Map::empty(), id_seed: 1 }
    }

    /// A new connection gets the next id and an empty outbound queue.
    pub open spec fn register(self) -> AppStateView {
        AppStateView {
            conns: self.conns.insert(self.id_seed, Seq::empty()),
            users: self.users,
            id_seed: (self.id_seed + 1) as u64,
        }
    }

    /// Connection `id` leaves the registry.
    pub open spec fn unregister(self, id: u64) -> AppStateView {
        AppStateView { conns: self.conns.remove(id), users: self.users, id_seed: self.id_seed }
    }

    /// `event` is pushed to connection `id`, if it is registered.
    pub open spec fn send(self, id: u64, event: OutgoingMessageView) -> AppStateView {
        AppStateView {
            conns: pushed(self.conns, id, event),
            users: self.users,
            id_seed: self.id_seed,
        }
    }

    /// `event` is pushed to every registered connection but `sender`.
    pub open spec fn broadcast(self, event: OutgoingMessageView, sender: u64) -> AppStateView {
        AppStateView {
            conns: broadcast(self.conns, event, sender),
            users: self.users,
            id_seed: self.id_seed,
        }
    }

    /// The directory gets an empty mailbox for `user` unless it has one.
    pub open spec fn open_mailbox(self, user: Seq<char>) -> AppStateView {
        if self.users.contains_key(user) {
            self
        } else {
            AppStateView {
                conns: self.conns,
                users: self.users.insert(user, MailboxView::empty()),
                id_seed: self.id_seed,
            }
        }
    }

    /// Connection `id` logs in as `user`: the user's mailbox exists from now
    /// on, every other connection learns that a device came online, and the
    /// connection itself gets the confirmation.
    pub open spec fn login(self, id: u64, user: Seq<char>) -> AppStateView {
        self.open_mailbox(user).broadcast(OutgoingMessageView::DeviceOnline, id).send(
            id,
            OutgoingMessageView::LoggedIn,
        )
    }

    /// `payload` is posted to the mailbox of `receiver`, and the new update
    /// is pushed to every registered connection that subscribed to it.
    pub open spec fn post(self, receiver: Seq<char>, payload: UpdatePayloadView) -> AppStateView {
        let mailbox = self.users[receiver];
        AppStateView {
            conns: delivered(self.conns, mailbox.subscribers, mailbox.next_update(payload)),
            users: self.users.insert(receiver, mailbox.post(payload)),
            id_seed: self.id_seed,
        }
    }

    /// The answer to a device of `user` that has seen everything up to
    /// `device_pts`.
    pub open spec fn sync_reply(self, user: Seq<char>, device_pts: nat) -> SyncUpdatesView {
        let mailbox = self.users[user];
        if mailbox.backlog(device_pts).len() == 0 {
            SyncUpdatesView { too_long: false, synced: true, updates: Seq::empty() }
        } else {
            SyncUpdatesView {
                too_long: mailbox.too_long(device_pts),
                synced: false,
                updates: mailbox.backlog(device_pts),
            }
        }
    }

    /// Connection `id`, a device of `user` that has seen everything up to
    /// `device_pts`, asks to be synced: it becomes a subscriber if it is
    /// caught up, and it gets the answer either way.
    pub open spec fn sync(self, id: u64, user: Seq<char>, device_pts: nat) -> AppStateView {
        let mailbox = self.users[user];
        let users = if mailbox.backlog(device_pts).len() == 0 {
            self.users.insert(user, mailbox.subscribe(id))
        } else {
            self.users
        };
        AppStateView {
            conns: pushed(
                self.conns,
                id,
                OutgoingMessageView::SyncUpdates(self.sync_reply(user, device_pts)),
            ),
            users,
            id_seed: self.id_seed,
        }
    }

    /// Connection `id` goes away: it leaves the registry and every
    /// connection that stays learns that a device went offline.
    pub open spec fn disconnect(self, id: u64) -> AppStateView {
        self.unregister(id).broadcast(OutgoingMessageView::DeviceOffline, id)
    }

    /// The state after each of `payloads` was posted to `receiver`, first
    /// to last.
    pub open spec fn post_all(
        self,
        receiver: Seq<char>,
        payloads: Seq<UpdatePayloadView>,
    ) -> AppStateView
        decreases payloads.len(),
    {
        if payloads.len() == 0 {
            self
        } else {
            self.post_all(receiver, payloads.drop_last()).post(receiver, payloads.last())
        }
    }

    /// A registered connection that subscribed to a mailbox is pushed every
    /// update posted to it from then on, in the order of the posts, each
    /// once and none missing. A registered connection that did not subscribe
    /// is pushed nothing.
    pub proof fn lemma_posts_reach_subscribers(
        self,
        receiver: Seq<char>,
        payloads: Seq<UpdatePayloadView>,
        id: u64,
    )
        requires
            self.users.contains_key(receiver),
            self.conns.contains_key(id),
        ensures
            self.post_all(receiver, payloads).conns.contains_key(id),
            self.post_all(receiver, payloads).users.contains_key(receiver),
            self.post_all(receiver, payloads).users[receiver] == self.users[receiver].post_all(
                payloads,
            ),
            self.post_all(receiver, payloads).conns[id] == if self.users[receiver].subscribers.contains(
                id,
            ) {
                self.conns[id] + self.users[receiver].numbered(payloads).map_values(
                    |update: UpdateView| OutgoingMessageView::Update(update),
                )
            } else {
                self.conns[id]
            },
        decreases payloads.len(),
    {
        let mailbox = self.users[receiver];
        let events = mailbox.numbered(payloads).map_values(
            |update: UpdateView| OutgoingMessageView::Update(update),
        );
        if payloads.len() == 0 {
            assert(self.conns[id] =~= self.conns[id] + events);
        } else {
            let earlier = payloads.drop_last();
            self.lemma_posts_reach_subscribers(receiver, earlier, id);
            mailbox.lemma_posts_are_numbered_in_order(earlier);
            let before = self.post_all(receiver, earlier);
            let earlier_events = mailbox.numbered(earlier).map_values(
                |update: UpdateView| OutgoingMessageView::Update(update),
            );
            if mailbox.subscribers.contains(id) {
                assert(before.post(receiver, payloads.last()).conns[id] =~= self.conns[id]
                    + events) by {
                    assert(before.conns[id] == self.conns[id] + earlier_events);
                    assert(before.users[receiver].next_update(payloads.last())
                        == mailbox.numbered(payloads)[payloads.len() - 1]);
                    assert(earlier_events.push(events[payloads.len() - 1]) =~= events);
                }
            }
        }
    }

    /// Two devices of one user share one mailbox. The login of the second
    /// device finds the mailbox that is already there; an update posted to
    /// the user is pushed to both devices if both subscribed; and what one
    /// device asks or is answered when it syncs changes neither the log nor
    /// what was pushed to the other, so each follows the log at its own
    /// position.
    pub proof fn lemma_devices_share_mailbox(
        self,
        user: Seq<char>,
        first: u64,
        second: u64,
        payload: UpdatePayloadView,
        device_pts: nat,
    )
        requires
            self.users.contains_key(user),
            self.conns.contains_key(first),
            self.conns.contains_key(second),
            first != second,
        ensures
            self.login(second, user).users == self.users,
            self.users[user].subscribers.contains(first) && self.users[user].subscribers.contains(
                second,
            ) ==> {
                let update = OutgoingMessageView::Update(self.users[user].next_update(payload));
                &&& self.post(user, payload).conns[first] == self.conns[first].push(update)
                &&& self.post(user, payload).conns[second] == self.conns[second].push(update)
            },
            self.sync(first, user, device_pts).conns[second] == self.conns[second],
            self.sync(first, user, device_pts).users[user].log == self.users[user].log,
            self.sync(first, user, device_pts).users[user].pts == self.users[user].pts,
    {
    }

    /// When a connection goes away, its id is gone from the registry, every
    /// connection that stays is pushed `DeviceOffline` once, and no mailbox
    /// changes.
    pub proof fn lemma_disconnect_is_announced_once(self, id: u64)
        ensures
            !self.disconnect(id).conns.contains_key(id),
            self.disconnect(id).users == self.users,
            forall|other: u64|
                self.conns.contains_key(other) && other != id ==> {
                    &&& #[trigger] self.disconnect(id).conns.contains_key(other)
                    &&& self.disconnect(id).conns[other] == self.conns[other].push(
                        OutgoingMessageView::DeviceOffline,
                    )
                },
            forall|other: u64| #[trigger]
                self.disconnect(id).conns.contains_key(other) ==> self.conns.contains_key(other),
    {
    }

    /// The id that the next connection gets is in use nowhere: no
    /// connection is registered under it and no mailbox lists it as a
    /// subscriber. So a connection that went away is never taken for a new
    /// one.
    pub proof fn lemma_next_id_is_fresh(self)
        requires
            self.wf(),
        ensures
            !self.conns.contains_key(self.id_seed),
            forall|user: Seq<char>| #[trigger]
                self.users.contains_key(user) ==> !self.users[user].subscribers.contains(
                    self.id_seed,
                ),
    {
    }

    /// How a `login` command on a handle with id `id` ends.
    pub open spec fn login_outcome(self, id: u64) -> Outcome {
        if !self.conns.contains_key(id) {
            Outcome::Detached
        } else {
            Outcome::Accepted
        }
    }

    /// How a `sync` command on a handle with id `id` that speaks for `user`
    /// ends.
    pub open spec fn sync_outcome(self, id: u64, user: Option<Seq<char>>) -> Outcome {
        if !self.conns.contains_key(id) {
            Outcome::Detached
        } else if user is None || !self.users.contains_key(user->0) {
            Outcome::NotLoggedIn
        } else {
            Outcome::Accepted
        }
    }

    /// How a `send_message` command to `receiver` ends on a handle with id
    /// `id` that speaks for `user`.
    pub open spec fn send_outcome(
        self,
        id: u64,
        user: Option<Seq<char>>,
        receiver: Seq<char>,
    ) -> Outcome {
        if !self.conns.contains_key(id) {
            Outcome::Detached
        } else if !self.users.contains_key(receiver) {
            Outcome::ReceiverNotFound
        } else if user is None {
            Outcome::NotLoggedIn
        } else if self.users[receiver].pts >= u64::MAX {
            Outcome::MailboxFull
        } else {
            Outcome::Accepted
        }
    }
}

/// One entry of the user directory.
struct UserState {
    user_token: String,
    mailbox: Mailbox,
}

spec fn has_user(users: Seq<UserState>, name: Seq<char>) -> bool {
    exists|i: int| 0 <= i < users.len() && (#[trigger] users[i]).user_token@ == name
}

spec fn user_index(users: Seq<UserState>, name: Seq<char>) -> int {
    choose|i: int| 0 <= i < users.len() && (#[trigger] users[i]).user_token@ == name
}

spec fn distinct_names(users: Seq<UserState>) -> bool {
    forall|i: int, j: int|
        0 <= i < j < users.len() ==> (#[trigger] users[i]).user_token@ != (
        #[trigger] users[j]).user_token@
}

spec fn directory(users: Seq<UserState>) -> Map<Seq<char>, MailboxView> {
    Map::new(
        |name: Seq<char>| has_user(users, name),
        |name: Seq<char>| users[user_index(users, name)].mailbox@,
    )
}

spec fn outboxes(conns: Map<u64, Outbox>) -> Map<u64, Seq<OutgoingMessageView>> {
    conns.map_values(|outbox: Outbox| outbox@)
}

/// `id` is one of the first `upto` entries of `ids`.
spec fn listed(ids: Seq<u64>, upto: int, id: u64) -> bool {
    exists|j: int| 0 <= j < upto && j < ids.len() && #[trigger] ids[j] == id
}

proof fn lemma_directory_entry(users: Seq<UserState>, i: int)
    requires
        distinct_names(users),
        0 <= i < users.len(),
    ensures
        directory(users).contains_key(users[i].user_token@),
        directory(users)[users[i].user_token@] == users[i].mailbox@,
{
    let name = users[i].user_token@;
    assert(has_user(users, name));
    let j = user_index(users, name);
    if j < i {
        assert(users[j].user_token@ != users[i].user_token@);
    } else if i < j {
        assert(users[i].user_token@ != users[j].user_token@);
    }
}

proof fn lemma_directory_push(users: Seq<UserState>, user: UserState)
    requires
        distinct_names(users),
        !has_user(users, user.user_token@),
    ensures
        distinct_names(users.push(user)),
        directory(users.push(user)) == directory(users).insert(user.user_token@, user.mailbox@),
{
    let next = users.push(user);
    let last = users.len() as int;
    assert(next[last] == user);
    assert forall|i: int, j: int| 0 <= i < j < next.len() implies (#[trigger] next[i]).user_token@
        != (#[trigger] next[j]).user_token@ by {
        assert(next[i] == users[i]);
        if j < last {
            assert(next[j] == users[j]);
        }
    }
    let expected = directory(users).insert(user.user_token@, user.mailbox@);
    assert forall|name: Seq<char>| directory(next).contains_key(name) <==> expected.contains_key(
        name,
    ) by {
        if has_user(users, name) {
            let i = user_index(users, name);
            assert(next[i] == users[i]);
        }
        if has_user(next, name) {
            let i = user_index(next, name);
            if i < last {
                assert(next[i] == users[i]);
            }
        }
    }
    assert forall|name: Seq<char>| directory(next).contains_key(name) implies directory(
        next,
    )[name] == expected[name] by {
        let i = user_index(next, name);
        lemma_directory_entry(next, i);
        if i < last {
            assert(next[i] == users[i]);
            lemma_directory_entry(users, i);
        }
    }
    assert(directory(next) =~= expected);
}

proof fn lemma_directory_update(users: Seq<UserState>, i: int, user: UserState)
    requires
        distinct_names(users),
        0 <= i < users.len(),
        user.user_token@ == users[i].user_token@,
    ensures
        distinct_names(users.update(i, user)),
        directory(users.update(i, user)) == directory(users).insert(
            user.user_token@,
            user.mailbox@,
        ),
{
    let next = users.update(i, user);
    assert forall|a: int, b: int| 0 <= a < b < next.len() implies (#[trigger] next[a]).user_token@
        != (#[trigger] next[b]).user_token@ by {
        assert(next[a].user_token@ == users[a].user_token@);
        assert(next[b].user_token@ == users[b].user_token@);
    }
    let expected = directory(users).insert(user.user_token@, user.mailbox@);
    assert forall|name: Seq<char>| directory(next).contains_key(name) <==> expected.contains_key(
        name,
    ) by {
        if has_user(users, name) {
            let k = user_index(users, name);
            assert(next[k].user_token@ == users[k].user_token@);
        }
        if has_user(next, name) {
            let k = user_index(next, name);
            assert(next[k].user_token@ == users[k].user_token@);
        }
        assert(next[i].user_token@ == user.user_token@);
    }
    assert forall|name: Seq<char>| directory(next).contains_key(name) implies directory(
        next,
    )[name] == expected[name] by {
        let k = user_index(next, name);
        lemma_directory_entry(next, k);
        if k != i {
            assert(next[k] == users[k]);
            lemma_directory_entry(users, k);
        }
    }
    assert(directory(next) =~= expected);
}

/// Pushes `event` to the outbound queue of connection `id`, if `conns` holds
/// one, and tells whether the queue took it.
fn send_event_to(conns: &mut HashMap<u64, Outbox>, id: u64, event: OutgoingMessage) -> (accepted:
    bool)
    ensures
        final(conns)@.dom() == old(conns)@.dom(),
        outboxes(final(conns)@) == pushed(outboxes(old(conns)@), id, event@),
        accepted ==> old(conns)@.contains_key(id),
{
    // A value of the map cannot be reached mutably in place, so the outbox
    // is taken out for the push and put back.
    match conns.remove(&id) {
        Some(mut outbox) => {
            let accepted = outbox.send_event(event);
            conns.insert(id, outbox);
            assert(conns@.dom() =~= old(conns)@.dom());
            assert(outboxes(conns@) =~= pushed(outboxes(old(conns)@), id, event@));
            accepted
        },
        None => {
            assert(conns@ =~= old(conns)@);
            false
        },
    }
}

/// The registry of live connections and the user directory.
pub struct AppState {
    conns: HashMap<u64, Outbox>,
    users: Vec<UserState>,
    id_seed: u64,
}

impl View for AppState {
    type V = AppStateView;

    closed spec fn view(&self) -> AppStateView {
        AppStateView {
            conns: outboxes(self.conns@),
            users: directory(self.users@),
            id_seed: self.id_seed,
        }
    }
}

/// What a [`ConnectionHandle`] holds: the connection's id, the user it
/// speaks for once it has logged in, and whether the receiving half of the
/// outbound queue is still with the handle.
pub struct ConnectionHandleView {
    pub id: u64,
    pub user: Option<Seq<char>>,
    pub holds_event_channel: bool,
}

/// The handle of one live connection.
pub struct ConnectionHandle {
    id: u64,
    chan_rx: Option<UnboundedReceiver<OutgoingMessage>>,
    user_token: Option<String>,
}

impl View for ConnectionHandle {
    type V = ConnectionHandleView;

    closed spec fn view(&self) -> ConnectionHandleView {
        ConnectionHandleView {
            id: self.id,
            user: match self.user_token {
                Some(user_token) => Some(user_token@),
                None => None,
            },
            holds_event_channel: self.chan_rx is Some,
        }
    }
}

impl Default for AppState {
    fn default() -> (state: Self)
        ensures
            state.wf(),
            state@ == AppStateView::empty(),
    {
        Self::new()
    }
}

impl AppState {
    /// No user occurs twice in the directory, every mailbox is well formed,
    /// and every id in use lies below the next one to be given out.
    pub closed spec fn wf(&self) -> bool {
        &&& self.id_seed >= 1
        &&& forall|id: u64| #[trigger] self.conns@.contains_key(id) ==> id < self.id_seed
        &&& distinct_names(self.users@)
        &&& forall|i: int| 0 <= i < self.users@.len() ==> (#[trigger] self.users@[i]).mailbox.wf()
        &&& forall|i: int, id: u64|
            0 <= i < self.users@.len() && #[trigger] self.users@[i].mailbox@.subscribers.contains(
                id,
            ) ==> id < self.id_seed
    }

    /// A well-formed state has a well-formed view.
    pub proof fn lemma_view_wf(&self)
        requires
            self.wf(),
        ensures
            self@.wf(),
    {
        assert forall|user: Seq<char>| #[trigger] self@.users.contains_key(user) implies {
            &&& self@.users[user].wf()
            &&& forall|id: u64| #[trigger]
                self@.users[user].subscribers.contains(id) ==> id < self@.id_seed
        } by {
            let i = user_index(self.users@, user);
            self.users@[i].mailbox.lemma_view_wf();
            assert forall|id: u64| #[trigger]
                self@.users[user].subscribers.contains(id) implies id < self@.id_seed by {
                assert(self.users@[i].mailbox@.subscribers.contains(id));
            }
        }
    }

    /// A state with no connection and no user.
    pub fn new() -> (state: Self)
        ensures
            state.wf(),
            state@ == AppStateView::empty(),
    {
        let state = AppState { conns: HashMap::new(), users: Vec::new(), id_seed: 1 };
        assert(state@.conns =~= Map::empty());
        assert(state@.users =~= Map::empty());
        state
    }

    /// Whether an id is left for one more connection.
    pub fn can_register(&self) -> (free: bool)
        ensures
            free == (self@.id_seed < u64::MAX),
    {
        self.id_seed < u64::MAX
    }

    /// Registers a new connection under the next id and returns its handle,
    /// which holds the receiving half of the connection's outbound queue.
    pub fn register_connection(&mut self) -> (conn: ConnectionHandle)
        requires
            old(self).wf(),
            old(self)@.id_seed < u64::MAX,
        ensures
            final(self).wf(),
            final(self)@ == old(self)@.register(),
            conn@ == (ConnectionHandleView {
                id: old(self)@.id_seed,
                user: None,
                holds_event_channel: true,
            }),
    {
        let conn_id = self.id_seed;
        self.id_seed = conn_id + 1;
        let (conn, outbox) = ConnectionHandle::new(conn_id);
        self.conns.insert(conn_id, outbox);
        assert(self@.conns =~= old(self)@.register().conns);
        conn
    }

    /// Whether connection `id` is registered.
    pub fn is_registered(&self, id: u64) -> (registered: bool)
        ensures
            registered == self@.conns.contains_key(id),
    {
        self.conns.contains_key(&id)
    }

    /// The ids of the registered connections, each once.
    fn connection_ids(&self) -> (ids: Vec<u64>)
        ensures
            ids@.no_duplicates(),
            forall|id: u64| listed(ids@, ids@.len() as int, id) <==> self.conns@.contains_key(id),
    {
        let mut ids: Vec<u64> = Vec::new();
        let ghost keys = IteratorSpec::remaining(&self.conns.keys());
        for id in it: self.conns.keys()
            invariant
                it.seq() == keys,
                keys.unref().to_set() == self.conns@.dom(),
                keys.no_duplicates(),
                ids@.len() == it.index(),
                forall|j: int| 0 <= j < ids@.len() ==> ids@[j] == *keys[j],
        {
            ids.push(*id);
        }
        proof {
            assert(ids@ =~= keys.unref());
            assert forall|id: u64| listed(ids@, ids@.len() as int, id) <==> self.conns@.contains_key(
                id,
            ) by {
                if self.conns@.contains_key(id) {
                    assert(keys.unref().to_set().contains(id));
                    assert(keys.unref().contains(id));
                }
                if listed(ids@, ids@.len() as int, id) {
                    assert(keys.unref().contains(id));
                }
            }
        }
        ids
    }

    /// Pushes `event` to every registered connection but `sender_conn_id`.
    pub fn broadcast_event(&mut self, event: OutgoingMessage, sender_conn_id: u64)
        requires
            old(self).wf(),
        ensures
            final(self).wf(),
            final(self)@ == old(self)@.broadcast(event@, sender_conn_id),
    {
        let ids = self.connection_ids();
        let ghost before = outboxes(self.conns@);
        let mut i: usize = 0;
        while i < ids.len()
            invariant
                i <= ids.len(),
                ids@.no_duplicates(),
                forall|id: u64| listed(ids@, ids@.len() as int, id) <==> before.contains_key(id),
                self.users == old(self).users,
                self.id_seed == old(self).id_seed,
                self.conns@.dom() == old(self).conns@.dom(),
                before == outboxes(old(self).conns@),
                forall|id: u64| #[trigger]
                    before.contains_key(id) ==> outboxes(self.conns@)[id] == if id
                        != sender_conn_id && listed(ids@, i as int, id) {
                        before[id].push(event@)
                    } else {
                        before[id]
                    },
            decreases ids.len() - i,
        {
            let cur_conn_id = ids[i];
            let ghost earlier = outboxes(self.conns@);
            assert(!listed(ids@, i as int, cur_conn_id));
            assert(listed(ids@, i as int + 1, cur_conn_id));
            if sender_conn_id != cur_conn_id {
                send_event_to(&mut self.conns, cur_conn_id, event.clone());
            }
            proof {
                assert forall|id: u64| #[trigger] before.contains_key(id) implies outboxes(
                    self.conns@,
                )[id] == if id != sender_conn_id && listed(ids@, i as int + 1, id) {
                    before[id].push(event@)
                } else {
                    before[id]
                } by {
                    if id != cur_conn_id {
                        assert(listed(ids@, i as int + 1, id) == listed(ids@, i as int, id));
                        assert(outboxes(self.conns@)[id] == earlier[id]);
                    }
                }
            }
            i += 1;
        }
        assert(self@.conns =~= old(self)@.broadcast(event@, sender_conn_id).conns);
    }

    /// Tells every other connection that a device came online.
    fn broadcast_device_online(&mut self, conn_id: u64)
        requires
            old(self).wf(),
        ensures
            final(self).wf(),
            final(self)@ == old(self)@.broadcast(OutgoingMessageView::DeviceOnline, conn_id),
    {
        self.broadcast_event(OutgoingMessage::DeviceOnline, conn_id);
    }

    /// Tells every other connection that a device went offline.
    fn broadcast_device_offline(&mut self, conn_id: u64)
        requires
            old(self).wf(),
        ensures
            final(self).wf(),
            final(self)@ == old(self)@.broadcast(OutgoingMessageView::DeviceOffline, conn_id),
    {
        self.broadcast_event(OutgoingMessage::DeviceOffline, conn_id);
    }

    /// The place of `user_token` in the directory, if it has a mailbox.
    fn find_user(&self, user_token: &String) -> (found: Option<usize>)
        requires
            self.wf(),
        ensures
            match found {
                Some(i) => {
                    &&& i < self.users@.len()
                    &&& self.users@[i as int].user_token@ == user_token@
                    &&& self@.users.contains_key(user_token@)
                    &&& self@.users[user_token@] == self.users@[i as int].mailbox@
                },
                None => !has_user(self.users@, user_token@) && !self@.users.contains_key(
                    user_token@,
                ),
            },
    {
        let mut i: usize = 0;
        while i < self.users.len()
            invariant
                i <= self.users@.len(),
                distinct_names(self.users@),
                forall|j: int| 0 <= j < i ==> (#[trigger] self.users@[j]).user_token@ != user_token@,
            decreases self.users@.len() - i,
        {
            if self.users[i].user_token == *user_token {
                proof {
                    lemma_directory_entry(self.users@, i as int);
                }
                return Some(i);
            }
            i += 1;
        }
        None
    }

    /// Logs the connection in as the user named in `cmd`, creating the
    /// user's mailbox on first use.
    fn login(&mut self, conn_handle: &mut ConnectionHandle, cmd: &LoginCommand)
        requires
            old(self).wf(),
        ensures
            final(self).wf(),
            final(self)@ == old(self)@.login(old(conn_handle)@.id, cmd.user_token@),
            final(conn_handle)@ == (ConnectionHandleView {
                id: old(conn_handle)@.id,
                user: Some(cmd.user_token@),
                holds_event_channel: old(conn_handle)@.holds_event_channel,
            }),
    {
        match self.find_user(&cmd.user_token) {
            Some(_) => {},
            None => {
                let user = UserState { user_token: cmd.user_token.clone(), mailbox: Mailbox::new() };
                proof {
                    lemma_directory_push(self.users@, user);
                }
                self.users.push(user);
                assert forall|i: int| 0 <= i < self.users@.len() implies (
                #[trigger] self.users@[i]).mailbox.wf() by {
                    if i < old(self).users@.len() {
                        assert(self.users@[i] == old(self).users@[i]);
                    }
                }
                assert forall|i: int, id: u64|
                    0 <= i < self.users@.len()
                        && #[trigger] self.users@[i].mailbox@.subscribers.contains(
                        id,
                    ) implies id < self.id_seed by {
                    if i < old(self).users@.len() {
                        assert(self.users@[i] == old(self).users@[i]);
                        assert(old(self).users@[i].mailbox@.subscribers.contains(id));
                    }
                }
            },
        }
        assert(self@ == old(self)@.open_mailbox(cmd.user_token@));

        conn_handle.user_token = Some(cmd.user_token.clone());

        self.broadcast_device_online(conn_handle.id);
        send_event_to(&mut self.conns, conn_handle.id, OutgoingMessage::LoggedIn);
    }

    /// Posts the message in `cmd` to the receiver's mailbox in the name of
    /// the user that the connection speaks for.
    fn send_message(&mut self, conn_handle: &ConnectionHandle, cmd: &SendMessageCommand) -> (outcome:
        Outcome)
        requires
            old(self).wf(),
            old(self)@.conns.contains_key(conn_handle@.id),
        ensures
            final(self).wf(),
            outcome == old(self)@.send_outcome(conn_handle@.id, conn_handle@.user, cmd.receiver@),
            final(self)@ == if outcome is Accepted {
                old(self)@.post(
                    cmd.receiver@,
                    UpdatePayloadView::NewMessage(
                        NewMessageUpdateView {
                            sender: conn_handle@.user->0,
                            contents: cmd.contents@,
                        },
                    ),
                )
            } else {
                old(self)@
            },
    {
        let Some(idx) = self.find_user(&cmd.receiver) else {
            return Outcome::ReceiverNotFound;
        };
        let Some(user_token) = &conn_handle.user_token else {
            return Outcome::NotLoggedIn;
        };
        if self.users[idx].mailbox.pts() == u64::MAX {
            return Outcome::MailboxFull;
        }
        let payload = UpdatePayload::NewMessage(
            NewMessageUpdate { sender: user_token.clone(), contents: cmd.contents.clone() },
        );
        let ghost mailbox = self.users@[idx as int].mailbox@;
        let ghost update = mailbox.next_update(payload@);
        self.users[idx].mailbox.post_update(payload, &mut self.conns);
        proof {
            lemma_directory_update(old(self).users@, idx as int, self.users@[idx as int]);
            assert(self.users@ == old(self).users@.update(idx as int, self.users@[idx as int]));
            assert(notified(old(self).conns@, mailbox.subscribers, update, self.conns@));
            assert(outboxes(self.conns@) =~= delivered(
                outboxes(old(self).conns@),
                mailbox.subscribers,
                update,
            ));
            assert forall|i: int| 0 <= i < self.users@.len() implies (
            #[trigger] self.users@[i]).mailbox.wf() by {
                if i != idx {
                    assert(self.users@[i] == old(self).users@[i]);
                }
            }
            assert forall|i: int, id: u64|
                0 <= i < self.users@.len() && #[trigger] self.users@[i].mailbox@.subscribers.contains(
                    id,
                ) implies id < self.id_seed by {
                assert(old(self).users@[i].mailbox@.subscribers.contains(id));
            }
        }
        Outcome::Accepted
    }
}

impl ConnectionHandle {
    /// A handle for connection `id` with a fresh outbound queue. The handle
    /// keeps the receiving half; the sending half goes to the registry.
    fn new(id: u64) -> (made: (ConnectionHandle, Outbox))
        ensures
            made.0@ == (ConnectionHandleView { id, user: None, holds_event_channel: true }),
            made.1@ == Seq::<OutgoingMessageView>::empty(),
    {
        let (outbox, chan_rx) = Outbox::channel();
        (ConnectionHandle { id, chan_rx: Some(chan_rx), user_token: None }, outbox)
    }

    /// The id under which the connection is registered.
    pub fn id(&self) -> (id: u64)
        ensures
            id == self@.id,
    {
        self.id
    }

    /// Hands out the receiving half of the outbound queue. Only the first
    /// call gets it.
    pub fn take_event_channel(&mut self) -> (chan_rx: Option<UnboundedReceiver<OutgoingMessage>>)
        ensures
            chan_rx is Some == old(self)@.holds_event_channel,
            final(self)@ == (ConnectionHandleView {
                id: old(self)@.id,
                user: old(self)@.user,
                holds_event_channel: false,
            }),
    {
        self.chan_rx.take()
    }

    /// Handles a `login` command.
    pub fn login(&mut self, state: &mut AppState, cmd: &LoginCommand) -> (outcome: Outcome)
        requires
            old(state).wf(),
        ensures
            final(state).wf(),
            outcome == old(state)@.login_outcome(old(self)@.id),
            outcome is Accepted ==> {
                &&& final(state)@ == old(state)@.login(old(self)@.id, cmd.user_token@)
                &&& final(self)@ == (ConnectionHandleView {
                    id: old(self)@.id,
                    user: Some(cmd.user_token@),
                    holds_event_channel: old(self)@.holds_event_channel,
                })
            },
            !(outcome is Accepted) ==> final(state)@ == old(state)@ && final(self)@ == old(self)@,
    {
        if !state.is_registered(self.id) {
            return Outcome::Detached;
        }
        state.login(self, cmd);
        Outcome::Accepted
    }

    /// Handles a `sync` command from a device that has seen everything up to
    /// `device_pts`: the connection is subscribed to the user's mailbox if
    /// the device is caught up, and it is sent the answer either way.
    pub fn subscribe_or_sync_updates(&self, state: &mut AppState, device_pts: u64) -> (outcome:
        Outcome)
        requires
            old(state).wf(),
        ensures
            final(state).wf(),
            outcome == old(state)@.sync_outcome(self@.id, self@.user),
            final(state)@ == if outcome is Accepted {
                old(state)@.sync(self@.id, self@.user->0, device_pts as nat)
            } else {
                old(state)@
            },
    {
        if !state.is_registered(self.id) {
            return Outcome::Detached;
        }
        let Some(user_token) = &self.user_token else {
            return Outcome::NotLoggedIn;
        };
        let Some(idx) = state.find_user(user_token) else {
            return Outcome::NotLoggedIn;
        };
        let ghost mailbox = state.users@[idx as int].mailbox@;
        match state.users[idx].mailbox.subscribe_or_sync(device_pts, self.id) {
            Ok(_) => {
                let updates: Vec<Update> = Vec::new();
                assert(update_views(updates@) =~= Seq::empty());
                send_event_to(
                    &mut state.conns,
                    self.id,
                    OutgoingMessage::SyncUpdates(
                        SyncUpdates { too_long: false, synced: true, updates },
                    ),
                );
            },
            Err(out_of_sync) => {
                send_event_to(
                    &mut state.conns,
                    self.id,
                    OutgoingMessage::SyncUpdates(
                        SyncUpdates {
                            too_long: out_of_sync.too_long,
                            synced: false,
                            updates: out_of_sync.updates,
                        },
                    ),
                );
            },
        }
        proof {
            lemma_directory_update(old(state).users@, idx as int, state.users@[idx as int]);
            assert(state.users@ == old(state).users@.update(idx as int, state.users@[idx as int]));
            let expected = old(state)@.sync(self@.id, self@.user->0, device_pts as nat);
            assert(state@.users =~= expected.users);
            assert(state@.conns == expected.conns);
            assert forall|i: int| 0 <= i < state.users@.len() implies (
            #[trigger] state.users@[i]).mailbox.wf() by {
                if i != idx {
                    assert(state.users@[i] == old(state).users@[i]);
                }
            }
            assert forall|i: int, id: u64|
                0 <= i < state.users@.len()
                    && #[trigger] state.users@[i].mailbox@.subscribers.contains(
                    id,
                ) implies id < state.id_seed by {
                if i != idx || id != self.id {
                    assert(old(state).users@[i].mailbox@.subscribers.contains(id));
                }
            }
        }
        Outcome::Accepted
    }

    /// Handles a `send_message` command.
    pub fn send_message(&self, state: &mut AppState, cmd: &SendMessageCommand) -> (outcome: Outcome)
        requires
            old(state).wf(),
        ensures
            final(state).wf(),
            outcome == old(state)@.send_outcome(self@.id, self@.user, cmd.receiver@),
            final(state)@ == if outcome is Accepted {
                old(state)@.post(
                    cmd.receiver@,
                    UpdatePayloadView::NewMessage(
                        NewMessageUpdateView { sender: self@.user->0, contents: cmd.contents@ },
                    ),
                )
            } else {
                old(state)@
            },
    {
        if !state.is_registered(self.id) {
            return Outcome::Detached;
        }
        state.send_message(self, cmd)
    }

    /// Ends the connection: it leaves the registry and every connection that
    /// stays is told that a device went offline. The handle is used up, so
    /// this happens once.
    pub fn close(self, state: &mut AppState)
        requires
            old(state).wf(),
        ensures
            final(state).wf(),
            final(state)@ == old(state)@.disconnect(self@.id),
    {
        state.conns.remove(&self.id);
        assert(state@.conns =~= old(state)@.unregister(self@.id).conns);
        state.broadcast_device_offline(self.id);
    }
}

} // verus!
