//! The per-user update log.
//!
//! A [`Mailbox`] numbers the updates posted to it 1, 2, 3, ... and keeps all
//! of them. A device that was away asks for what it missed with the last
//! sequence number it has seen: it is either registered for live delivery or
//! handed the next batch of the backlog, never both.

use std::collections::{HashMap, HashSet, VecDeque};
use vstd::prelude::*;
use vstd::std_specs::iter::IteratorSpec;

use crate::protocol::{Update, UpdatePayload, UpdatePayloadView, UpdateView, update_views};

verus! {

/// The largest number of updates handed out by one catch-up request.
pub const BATCH_LIMIT: usize = 10;

/// Something that can be handed the updates of a mailbox as they are posted.
pub trait Subscriber: Sized {
    /// Whether `after` is `before` with `update` handed to it. A subscriber
    /// that does not say otherwise promises nothing about itself.
    open spec fn received(before: Self, update: UpdateView, after: Self) -> bool {
        true
    }

    /// Hands `update` to the subscriber.
    fn on_receive_update(&mut self, update: &Update)
        ensures
            Self::received(*old(self), update@, *final(self)),
    ;
}

/// `after` is `before` once `update` was handed to every subscriber that is
/// listed in `subscribers` and present in `before`. Nothing else changed.
pub open spec fn notified<S: Subscriber>(
    before: Map<u64, S>,
    subscribers: Set<u64>,
    update: UpdateView,
    after: Map<u64, S>,
) -> bool {
    &&& after.dom() == before.dom()
    &&& forall|id: u64| #[trigger]
        before.contains_key(id) ==> if subscribers.contains(id) {
            S::received(before[id], update, after[id])
        } else {
            after[id] == before[id]
        }
}

/// `id` is one of the first `upto` entries of `keys`.
spec fn among_first(keys: Seq<&u64>, upto: int, id: u64) -> bool {
    exists|j: int| 0 <= j < upto && j < keys.len() && *(#[trigger] keys[j]) == id
}

/// Once every entry of `keys` was visited, the visited ids are the ids that
/// `keys` lists.
proof fn lemma_all_visited(keys: Seq<&u64>, id: u64)
    ensures
        among_first(keys, keys.len() as int, id) <==> keys.unref().to_set().contains(id),
{
    let ids = keys.unref();
    if ids.to_set().contains(id) {
        assert(ids.contains(id));
        let j = choose|j: int| 0 <= j < ids.len() && ids[j] == id;
        assert(*keys[j] == id);
    }
    if among_first(keys, keys.len() as int, id) {
        let j = choose|j: int| 0 <= j < keys.len() && j < keys.len() && *(#[trigger] keys[j]) == id;
        assert(ids[j] == id);
    }
}

/// The answer to a device that is behind: the next batch of what it missed.
#[derive(Debug, PartialEq, Eq)]
pub struct OutOfSync {
    /// The device's position lies before the oldest update that is kept.
    pub too_long: bool,
    /// The updates after the device's position, oldest first, at most
    /// [`BATCH_LIMIT`] of them.
    pub updates: Vec<Update>,
}

/// What a [`Mailbox`] holds: the last sequence number given out, the log,
/// oldest update first, and the keys of the registered subscribers.
pub struct MailboxView {
    pub pts: nat,
    pub log: Seq<UpdateView>,
    pub subscribers: Set<u64>,
}

impl MailboxView {
    /// The log holds one update for each sequence number from 1 to `pts`, in
    /// that order.
    pub open spec fn wf(self) -> bool {
        &&& self.log.len() == self.pts
        &&& forall|i: int| 0 <= i < self.log.len() ==> (#[trigger] self.log[i]).pts == i + 1
    }

    /// A mailbox to which nothing was posted and nobody subscribed.
    pub open spec fn empty() -> MailboxView {
        MailboxView { pts: 0, log: Seq::empty(), subscribers: Set::empty() }
    }

    /// The update that posting `payload` creates.
    pub open spec fn next_update(self, payload: UpdatePayloadView) -> UpdateView {
        UpdateView { pts: self.pts + 1, payload }
    }

    /// The mailbox after `payload` was posted.
    pub open spec fn post(self, payload: UpdatePayloadView) -> MailboxView {
        MailboxView {
            pts: self.pts + 1,
            log: self.log.push(self.next_update(payload)),
            subscribers: self.subscribers,
        }
    }

    /// The mailbox after `subscriber` was registered.
    pub open spec fn subscribe(self, subscriber: u64) -> MailboxView {
        MailboxView {
            pts: self.pts,
            log: self.log,
            subscribers: self.subscribers.insert(subscriber),
        }
    }

    /// The batch for a device that has seen everything up to `device_pts`:
    /// the updates that follow, oldest first, cut off after [`BATCH_LIMIT`].
    pub open spec fn backlog(self, device_pts: nat) -> Seq<UpdateView> {
        let from = if device_pts <= self.log.len() {
            device_pts as int
        } else {
            self.log.len() as int
        };
        let to = if from + BATCH_LIMIT <= self.log.len() {
            from + BATCH_LIMIT
        } else {
            self.log.len() as int
        };
        self.log.subrange(from, to)
    }

    /// The device's position lies before the oldest update that is kept.
    pub open spec fn too_long(self, device_pts: nat) -> bool {
        self.log.len() > 0 && device_pts < self.log[0].pts
    }

    /// The mailbox after each of `payloads` was posted, first to last.
    pub open spec fn post_all(self, payloads: Seq<UpdatePayloadView>) -> MailboxView
        decreases payloads.len(),
    {
        if payloads.len() == 0 {
            self
        } else {
            self.post_all(payloads.drop_last()).post(payloads.last())
        }
    }

    /// The updates that posting each of `payloads` in turn creates: the
    /// first one gets the sequence number `pts + 1`, the next one `pts + 2`,
    /// and so on.
    pub open spec fn numbered(self, payloads: Seq<UpdatePayloadView>) -> Seq<UpdateView> {
        Seq::new(
            payloads.len(),
            |i: int| UpdateView { pts: (self.pts + i + 1) as nat, payload: payloads[i] },
        )
    }

    /// However many updates are posted, they get consecutive sequence
    /// numbers in the order of the posts, without a gap and without a
    /// repeat, and the log grows by exactly these updates. Subscribers are
    /// not touched.
    pub proof fn lemma_posts_are_numbered_in_order(self, payloads: Seq<UpdatePayloadView>)
        ensures
            self.post_all(payloads).pts == self.pts + payloads.len(),
            self.post_all(payloads).log == self.log + self.numbered(payloads),
            self.post_all(payloads).subscribers == self.subscribers,
            self.wf() ==> self.post_all(payloads).wf(),
        decreases payloads.len(),
    {
        if payloads.len() == 0 {
            assert(self.log =~= self.log + self.numbered(payloads));
        } else {
            self.lemma_posts_are_numbered_in_order(payloads.drop_last());
            let before = self.post_all(payloads.drop_last());
            assert(before.post(payloads.last()).log =~= self.log + self.numbered(payloads));
        }
    }

    /// In a well-formed mailbox the batch for a device holds the updates
    /// with the sequence numbers that follow the device's position, as many
    /// as there are up to [`BATCH_LIMIT`]. It is empty exactly when the
    /// device has seen the last update. Since nothing is ever dropped from
    /// the log, only a device at position 0 lies before the oldest update.
    pub proof fn lemma_backlog_is_next_batch(self, device_pts: nat)
        requires
            self.wf(),
        ensures
            self.backlog(device_pts).len() == if device_pts >= self.pts {
                0
            } else if self.pts - device_pts >= BATCH_LIMIT {
                BATCH_LIMIT as int
            } else {
                self.pts - device_pts
            },
            forall|i: int|
                0 <= i < self.backlog(device_pts).len() ==> {
                    &&& (#[trigger] self.backlog(device_pts)[i]) == self.log[device_pts + i]
                    &&& self.backlog(device_pts)[i].pts == device_pts + i + 1
                },
            self.too_long(device_pts) <==> self.pts > 0 && device_pts == 0,
    {
    }
}

/// The update log of one user.
pub struct Mailbox {
    queue: VecDeque<u64>,
    update_map: HashMap<u64, Update>,
    pts: u64,
    subscribers: HashSet<u64>,
}

impl View for Mailbox {
    type V = MailboxView;

    closed spec fn view(&self) -> MailboxView {
        MailboxView {
            pts: self.pts as nat,
            log: Seq::new(self.queue@.len(), |i: int| self.update_map@[self.queue@[i]]@),
            subscribers: self.subscribers@,
        }
    }
}

impl Default for Mailbox {
    fn default() -> (mailbox: Self)
        ensures
            mailbox.wf(),
            mailbox@ == MailboxView::empty(),
    {
        Self::new()
    }
}

impl Mailbox {
    /// The queue lists the sequence numbers 1 to `pts` in order, and the map
    /// holds exactly one update under each of them.
    pub closed spec fn wf(&self) -> bool {
        &&& self.queue@.len() == self.pts
        &&& forall|i: int| 0 <= i < self.queue@.len() ==> #[trigger] self.queue@[i] == i + 1
        &&& forall|k: u64| #[trigger] self.update_map@.contains_key(k) <==> 1 <= k <= self.pts
        &&& forall|k: u64| #[trigger]
            self.update_map@.contains_key(k) ==> self.update_map@[k].pts == k
    }

    /// A well-formed mailbox has a well-formed view.
    pub proof fn lemma_view_wf(&self)
        requires
            self.wf(),
        ensures
            self@.wf(),
    {
        assert forall|i: int| 0 <= i < self@.log.len() implies (#[trigger] self@.log[i]).pts == i
            + 1 by {
            assert(self.queue@[i] == i + 1);
            assert(self.update_map@.contains_key(self.queue@[i]));
        }
    }

    /// The update stored under the `i`-th sequence number of the queue is the
    /// `i`-th entry of the log.
    proof fn lemma_log_entry(&self, i: int)
        requires
            self.wf(),
            0 <= i < self.queue@.len(),
        ensures
            self.queue@[i] == i + 1,
            self.update_map@.contains_key(self.queue@[i]),
            self@.log[i] == self.update_map@[self.queue@[i]]@,
    {
    }

    /// An empty mailbox.
    pub fn new() -> (mailbox: Self)
        ensures
            mailbox.wf(),
            mailbox@ == MailboxView::empty(),
    {
        let mailbox = Mailbox {
            queue: VecDeque::with_capacity(100),
            update_map: HashMap::with_capacity(100),
            pts: 0,
            subscribers: HashSet::new(),
        };
        assert(mailbox@.log =~= Seq::empty());
        mailbox
    }

    /// The last sequence number given out.
    pub fn pts(&self) -> (pts: u64)
        ensures
            pts == self@.pts,
    {
        self.pts
    }

    /// Appends an update that carries `payload` under the next sequence
    /// number, and hands it to every registered subscriber that `live` still
    /// holds. A subscriber that `live` no longer holds is passed over and
    /// stays registered.
    pub fn post_update<S: Subscriber>(
        &mut self,
        payload: UpdatePayload,
        live: &mut HashMap<u64, S>,
    ) -> (update: Update)
        requires
            old(self).wf(),
            old(self)@.pts < u64::MAX,
        ensures
            final(self).wf(),
            final(self)@ == old(self)@.post(payload@),
            update@ == old(self)@.next_update(payload@),
            notified(old(live)@, old(self)@.subscribers, update@, final(live)@),
    {
        let new_pts = self.pts + 1;
        self.pts = new_pts;

        let update = Update { pts: new_pts, payload };

        let ghost before = live@;
        let ghost subscribers = self.subscribers@;
        let ghost keys = IteratorSpec::remaining(&self.subscribers.iter());
        let ghost mut visited: int = 0;
        for id in it: self.subscribers.iter()
            invariant
                it.seq() == keys,
                it.index() == visited,
                keys.unref().to_set() == subscribers,
                keys.no_duplicates(),
                live@.dom() == before.dom(),
                forall|k: u64| #[trigger]
                    before.contains_key(k) ==> if among_first(keys, visited, k) {
                        S::received(before[k], update@, live@[k])
                    } else {
                        live@[k] == before[k]
                    },
        {
            let ghost earlier = live@;
            assert(*keys[visited] == *id);
            assert(!among_first(keys, visited, *id));
            if let Some(mut subscriber) = live.remove(id) {
                subscriber.on_receive_update(&update);
                live.insert(*id, subscriber);
            }
            proof {
                assert(live@.dom() =~= before.dom());
                assert forall|k: u64| #[trigger] before.contains_key(k) implies if among_first(
                    keys,
                    visited + 1,
                    k,
                ) {
                    S::received(before[k], update@, live@[k])
                } else {
                    live@[k] == before[k]
                } by {
                    if k == *id {
                        assert(among_first(keys, visited + 1, k));
                    } else {
                        assert(live@[k] == earlier[k]);
                        assert(among_first(keys, visited + 1, k) == among_first(keys, visited, k));
                    }
                }
                visited = visited + 1;
            }
        }
        proof {
            assert(visited == keys.len());
            assert forall|k: u64| subscribers.contains(k) <==> among_first(keys, visited, k) by {
                lemma_all_visited(keys, k);
            }
        }

        let posted = update.clone();
        let ghost log = old(self)@.log;
        self.update_map.insert(new_pts, update);
        self.queue.push_back(new_pts);
        proof {
            assert forall|i: int| 0 <= i < log.len() implies #[trigger] self@.log[i] == log[i] by {
                assert(old(self).queue@[i] == i + 1);
            }
            assert(self@.log =~= log.push(posted@));
        }
        posted
    }

    /// Registers `subscriber` for live delivery if the device that has seen
    /// everything up to `device_pts` is caught up. Otherwise the mailbox is
    /// left as it is and the next batch of the backlog is returned.
    pub fn subscribe_or_sync(&mut self, device_pts: u64, subscriber: u64) -> (res: Result<
        (),
        OutOfSync,
    >)
        requires
            old(self).wf(),
        ensures
            final(self).wf(),
            match res {
                Ok(_) => {
                    &&& old(self)@.backlog(device_pts as nat).len() == 0
                    &&& final(self)@ == old(self)@.subscribe(subscriber)
                },
                Err(out_of_sync) => {
                    &&& old(self)@.backlog(device_pts as nat).len() > 0
                    &&& final(self)@ == old(self)@
                    &&& out_of_sync.too_long == old(self)@.too_long(device_pts as nat)
                    &&& update_views(out_of_sync.updates@) == old(self)@.backlog(device_pts as nat)
                },
            },
    {
        if self.queue.len() == 0 {
            self.subscribers.insert(subscriber);
            assert(self@.log =~= old(self)@.log);
            return Ok(());
        }
        let front_pts = self.queue[0];
        let too_long = device_pts < front_pts;
        proof {
            self.lemma_view_wf();
            self.lemma_log_entry(0);
        }

        let ghost log = self@.log;
        let ghost from: int = if device_pts <= log.len() {
            device_pts as int
        } else {
            log.len() as int
        };
        let mut updates: Vec<Update> = Vec::new();
        let mut i: usize = 0;
        while i < self.queue.len()
            invariant_except_break
                updates@.len() <= BATCH_LIMIT,
                update_views(updates@) == log.subrange(
                    if i <= from {
                        i as int
                    } else {
                        from
                    },
                    i as int,
                ),
            invariant
                self.wf(),
                *self == *old(self),
                log == self@.log,
                from == if device_pts <= log.len() {
                    device_pts as int
                } else {
                    log.len() as int
                },
                i <= self.queue@.len(),
            ensures
                update_views(updates@) == self@.backlog(device_pts as nat),
            decreases self.queue@.len() - i,
        {
            let pts = self.queue[i];
            proof {
                self.lemma_log_entry(i as int);
            }
            if pts <= device_pts {
                i += 1;
                assert(update_views(updates@) =~= log.subrange(i as int, i as int));
                continue ;
            }
            if updates.len() >= BATCH_LIMIT {
                assert(update_views(updates@) =~= self@.backlog(device_pts as nat));
                break ;
            }
            let update = self.update_map.get(&pts).expect("internal state is inconsistent");
            let ghost earlier = updates@;
            updates.push(update.clone());
            assert(update_views(updates@) =~= update_views(earlier).push(log[i as int]));
            i += 1;
            assert(update_views(updates@) =~= log.subrange(from, i as int));
        }
        assert(update_views(updates@).len() == updates@.len());

        if updates.len() == 0 {
            self.subscribers.insert(subscriber);
            assert(self@.log =~= old(self)@.log);
            return Ok(());
        }
        Err(OutOfSync { too_long, updates })
    }
}

} // verus!
