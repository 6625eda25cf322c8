use std::collections::HashMap;

use server::mailbox::{Mailbox, OutOfSync, Subscriber, BATCH_LIMIT};
use server::outbox::Outbox;
use server::protocol::{NewMessageUpdate, OutgoingMessage, Update, UpdatePayload};

/// A subscriber that keeps the sequence numbers it was handed.
struct Recorder {
    seen: Vec<u64>,
}

impl Subscriber for Recorder {
    fn on_receive_update(&mut self, update: &Update) {
        self.seen.push(update.pts);
    }
}

fn message(sender: &str, contents: &str) -> UpdatePayload {
    UpdatePayload::NewMessage(NewMessageUpdate {
        sender: sender.to_string(),
        contents: contents.to_string(),
    })
}

fn nobody() -> HashMap<u64, Recorder> {
    HashMap::new()
}

fn post_n(mailbox: &mut Mailbox, n: u64) {
    let mut live = nobody();
    for i in 0..n {
        mailbox.post_update(message("alice", &format!("m{}", i + 1)), &mut live);
    }
}

fn numbers(updates: &[Update]) -> Vec<u64> {
    updates.iter().map(|u| u.pts).collect()
}

#[test]
fn new_mailbox_has_given_out_no_number() {
    let mailbox = Mailbox::new();
    assert_eq!(mailbox.pts(), 0);
}

#[test]
fn posts_are_numbered_from_one_without_gaps() {
    let mut mailbox = Mailbox::new();
    let mut live = nobody();
    for expected in 1..=12u64 {
        let update = mailbox.post_update(message("alice", "hi"), &mut live);
        assert_eq!(update.pts, expected);
        assert_eq!(mailbox.pts(), expected);
    }
}

#[test]
fn post_returns_the_update_it_created() {
    let mut mailbox = Mailbox::new();
    let mut live = nobody();
    let update = mailbox.post_update(message("alice", "hello"), &mut live);
    assert_eq!(
        update,
        Update { pts: 1, payload: message("alice", "hello") }
    );
}

#[test]
fn fresh_mailbox_subscribes_at_zero() {
    let mut mailbox = Mailbox::new();
    assert_eq!(mailbox.subscribe_or_sync(0, 1), Ok(()));
}

#[test]
fn fresh_mailbox_subscribes_at_any_position() {
    let mut mailbox = Mailbox::new();
    assert_eq!(mailbox.subscribe_or_sync(77, 1), Ok(()));
    assert_eq!(mailbox.subscribe_or_sync(u64::MAX, 2), Ok(()));
}

#[test]
fn backlog_of_twelve_is_cut_to_the_first_ten() {
    let mut mailbox = Mailbox::new();
    post_n(&mut mailbox, 12);
    let out_of_sync = mailbox.subscribe_or_sync(0, 1).unwrap_err();
    assert_eq!(numbers(&out_of_sync.updates), (1..=10).collect::<Vec<u64>>());
    assert_eq!(out_of_sync.updates.len(), BATCH_LIMIT);
    // Position 0 lies before the oldest update that is kept, number 1.
    assert!(out_of_sync.too_long);
}

#[test]
fn second_batch_holds_the_rest_and_then_the_device_is_subscribed() {
    let mut mailbox = Mailbox::new();
    post_n(&mut mailbox, 12);
    let first = mailbox.subscribe_or_sync(0, 1).unwrap_err();
    let position = first.updates.last().unwrap().pts;
    assert_eq!(position, 10);

    let second = mailbox.subscribe_or_sync(position, 1).unwrap_err();
    assert_eq!(numbers(&second.updates), vec![11, 12]);
    assert!(!second.too_long);

    assert_eq!(mailbox.subscribe_or_sync(12, 1), Ok(()));
}

#[test]
fn batch_carries_the_posted_payloads_in_order() {
    let mut mailbox = Mailbox::new();
    post_n(&mut mailbox, 3);
    let out_of_sync = mailbox.subscribe_or_sync(1, 1).unwrap_err();
    assert_eq!(
        out_of_sync,
        OutOfSync {
            too_long: false,
            updates: vec![
                Update { pts: 2, payload: message("alice", "m2") },
                Update { pts: 3, payload: message("alice", "m3") },
            ],
        }
    );
}

#[test]
fn batch_starts_right_after_the_device_position() {
    let mut mailbox = Mailbox::new();
    post_n(&mut mailbox, 25);
    let out_of_sync = mailbox.subscribe_or_sync(3, 1).unwrap_err();
    assert_eq!(numbers(&out_of_sync.updates), (4..=13).collect::<Vec<u64>>());
    assert!(!out_of_sync.too_long);
}

#[test]
fn exactly_ten_missing_updates_fit_one_batch() {
    let mut mailbox = Mailbox::new();
    post_n(&mut mailbox, 15);
    let out_of_sync = mailbox.subscribe_or_sync(5, 1).unwrap_err();
    assert_eq!(numbers(&out_of_sync.updates), (6..=15).collect::<Vec<u64>>());
}

#[test]
fn device_ahead_of_the_log_is_subscribed() {
    let mut mailbox = Mailbox::new();
    post_n(&mut mailbox, 2);
    assert_eq!(mailbox.subscribe_or_sync(100, 1), Ok(()));
}

#[test]
fn device_that_is_behind_is_not_subscribed() {
    let mut mailbox = Mailbox::new();
    post_n(&mut mailbox, 1);
    assert!(mailbox.subscribe_or_sync(0, 5).is_err());

    let mut live = HashMap::new();
    live.insert(5, Recorder { seen: Vec::new() });
    mailbox.post_update(message("alice", "later"), &mut live);
    assert_eq!(live[&5].seen, Vec::<u64>::new());
}

#[test]
fn subscriber_gets_every_later_post_in_order() {
    let mut mailbox = Mailbox::new();
    post_n(&mut mailbox, 2);
    assert_eq!(mailbox.subscribe_or_sync(2, 5), Ok(()));

    let mut live = HashMap::new();
    live.insert(5, Recorder { seen: Vec::new() });
    live.insert(6, Recorder { seen: Vec::new() });
    for _ in 0..4 {
        mailbox.post_update(message("bob", "x"), &mut live);
    }
    assert_eq!(live[&5].seen, vec![3, 4, 5, 6]);
    assert_eq!(live[&6].seen, Vec::<u64>::new());
}

#[test]
fn subscribing_twice_delivers_once() {
    let mut mailbox = Mailbox::new();
    assert_eq!(mailbox.subscribe_or_sync(0, 5), Ok(()));
    assert_eq!(mailbox.subscribe_or_sync(0, 5), Ok(()));

    let mut live = HashMap::new();
    live.insert(5, Recorder { seen: Vec::new() });
    mailbox.post_update(message("bob", "x"), &mut live);
    assert_eq!(live[&5].seen, vec![1]);
}

#[test]
fn subscriber_that_is_gone_is_passed_over_and_stays_registered() {
    let mut mailbox = Mailbox::new();
    assert_eq!(mailbox.subscribe_or_sync(0, 5), Ok(()));
    assert_eq!(mailbox.subscribe_or_sync(0, 6), Ok(()));

    let mut live = HashMap::new();
    live.insert(6, Recorder { seen: Vec::new() });
    let update = mailbox.post_update(message("bob", "x"), &mut live);
    assert_eq!(update.pts, 1);
    assert_eq!(live.len(), 1);
    assert_eq!(live[&6].seen, vec![1]);

    live.insert(5, Recorder { seen: Vec::new() });
    mailbox.post_update(message("bob", "y"), &mut live);
    assert_eq!(live[&5].seen, vec![2]);
    assert_eq!(live[&6].seen, vec![1, 2]);
}

#[test]
fn outbox_delivers_what_was_pushed_in_order() {
    let (mut outbox, mut chan_rx) = Outbox::channel();
    assert!(chan_rx.try_recv().is_err());
    assert!(outbox.send_event(OutgoingMessage::DeviceOnline));
    assert!(outbox.send_event(OutgoingMessage::LoggedIn));
    assert!(outbox.send_event(OutgoingMessage::DeviceOffline));
    assert_eq!(chan_rx.try_recv().unwrap(), OutgoingMessage::DeviceOnline);
    assert_eq!(chan_rx.try_recv().unwrap(), OutgoingMessage::LoggedIn);
    assert_eq!(chan_rx.try_recv().unwrap(), OutgoingMessage::DeviceOffline);
    assert!(chan_rx.try_recv().is_err());
}

#[test]
fn outbox_reports_a_queue_whose_receiver_is_gone() {
    let (mut outbox, chan_rx) = Outbox::channel();
    drop(chan_rx);
    assert!(!outbox.send_event(OutgoingMessage::DeviceOnline));
}

#[test]
fn outbox_as_subscriber_pushes_the_update() {
    let (outbox, mut chan_rx) = Outbox::channel();
    let mut mailbox = Mailbox::new();
    assert_eq!(mailbox.subscribe_or_sync(0, 9), Ok(()));
    let mut live = HashMap::new();
    live.insert(9, outbox);
    mailbox.post_update(message("bob", "ping"), &mut live);
    assert_eq!(
        chan_rx.try_recv().unwrap(),
        OutgoingMessage::Update(Update { pts: 1, payload: message("bob", "ping") })
    );
    assert!(chan_rx.try_recv().is_err());
}
