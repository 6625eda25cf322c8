use server::handler::{handle_message, Inbound, Session, SessionAction, SessionEvent};
use server::protocol::{
    IncomingMessage, LoginCommand, NewMessageUpdate, OutgoingMessage, SendMessageCommand,
    SyncUpdates, Update, UpdatePayload,
};
use server::state::{AppState, Outcome};
use tokio::sync::mpsc::UnboundedReceiver;

fn drain_queue(events: &mut UnboundedReceiver<OutgoingMessage>) -> Vec<OutgoingMessage> {
    let mut seen = Vec::new();
    while let Ok(event) = events.try_recv() {
        seen.push(event);
    }
    seen
}

fn login_as(user: &str) -> IncomingMessage {
    IncomingMessage::Login(LoginCommand {
        user_token: user.to_string(),
        device_token: "dev".to_string(),
        secret_key: "k".to_string(),
    })
}

fn send_to(receiver: &str, contents: &str) -> IncomingMessage {
    IncomingMessage::SendMessage(SendMessageCommand {
        receiver: receiver.to_string(),
        contents: contents.to_string(),
    })
}

fn command(msg: IncomingMessage) -> SessionEvent {
    SessionEvent::Inbound(Inbound::Command(msg))
}

#[test]
fn opening_a_session_registers_a_connection() {
    let mut state = AppState::new();
    let (session, mut events) = Session::open(&mut state);
    assert_eq!(session.conn_id(), 1);
    assert!(session.is_running());
    assert!(state.is_registered(1));
    assert!(drain_queue(&mut events).is_empty());
}

#[test]
fn queued_event_is_to_be_written_unchanged() {
    let mut state = AppState::new();
    let (mut session, _events) = Session::open(&mut state);
    let action =
        session.on_event(&mut state, SessionEvent::Outbound(Some(OutgoingMessage::DeviceOnline)));
    assert_eq!(action, SessionAction::Write(OutgoingMessage::DeviceOnline));
    assert!(session.is_running());
}

#[test]
fn good_write_lets_the_session_go_on() {
    let mut state = AppState::new();
    let (mut session, _events) = Session::open(&mut state);
    assert_eq!(session.on_event(&mut state, SessionEvent::Written(true)), SessionAction::Continue);
    assert!(session.is_running());
}

#[test]
fn failed_write_terminates() {
    let mut state = AppState::new();
    let (mut session, _events) = Session::open(&mut state);
    assert_eq!(session.on_event(&mut state, SessionEvent::Written(false)), SessionAction::Terminate);
    assert!(!session.is_running());
}

#[test]
fn closed_queue_terminates() {
    let mut state = AppState::new();
    let (mut session, _events) = Session::open(&mut state);
    assert_eq!(session.on_event(&mut state, SessionEvent::Outbound(None)), SessionAction::Terminate);
    assert!(!session.is_running());
}

#[test]
fn end_of_stream_terminates() {
    let mut state = AppState::new();
    let (mut session, _events) = Session::open(&mut state);
    assert_eq!(
        session.on_event(&mut state, SessionEvent::Inbound(Inbound::Closed)),
        SessionAction::Terminate
    );
    assert!(!session.is_running());
}

#[test]
fn transport_failure_terminates() {
    let mut state = AppState::new();
    let (mut session, _events) = Session::open(&mut state);
    assert_eq!(
        session.on_event(&mut state, SessionEvent::Inbound(Inbound::Failed)),
        SessionAction::Terminate
    );
    assert!(!session.is_running());
}

#[test]
fn malformed_frame_terminates() {
    let mut state = AppState::new();
    let (mut session, _events) = Session::open(&mut state);
    assert_eq!(
        session.on_event(&mut state, SessionEvent::Inbound(Inbound::Malformed)),
        SessionAction::Terminate
    );
    assert!(!session.is_running());
}

#[test]
fn terminated_session_ignores_what_comes_after() {
    let mut state = AppState::new();
    let (mut session, mut events) = Session::open(&mut state);
    let (mut other, mut other_events) = Session::open(&mut state);
    assert_eq!(session.on_event(&mut state, SessionEvent::Written(false)), SessionAction::Terminate);

    assert_eq!(session.on_event(&mut state, command(login_as("alice"))), SessionAction::Terminate);
    assert_eq!(session.on_event(&mut state, SessionEvent::Written(true)), SessionAction::Terminate);
    assert_eq!(
        session.on_event(&mut state, SessionEvent::Outbound(Some(OutgoingMessage::LoggedIn))),
        SessionAction::Terminate
    );

    assert!(drain_queue(&mut events).is_empty());
    assert!(drain_queue(&mut other_events).is_empty());
    // The login was not carried out: no mailbox exists for the user.
    assert_eq!(
        other.on_event(&mut state, command(login_as("bob"))),
        SessionAction::Handled(Outcome::Accepted)
    );
    drain_queue(&mut other_events);
    assert_eq!(
        other.on_event(&mut state, command(send_to("alice", "hi"))),
        SessionAction::Handled(Outcome::ReceiverNotFound)
    );
    assert!(drain_queue(&mut other_events).is_empty());
}

#[test]
fn commands_are_dispatched_and_the_session_goes_on() {
    let mut state = AppState::new();
    let (mut alice, mut alice_events) = Session::open(&mut state);
    let (mut bob, mut bob_events) = Session::open(&mut state);

    let accepted = SessionAction::Handled(Outcome::Accepted);
    assert_eq!(alice.on_event(&mut state, command(login_as("alice"))), accepted);
    assert_eq!(
        alice.on_event(&mut state, command(IncomingMessage::Sync { device_pts: 0 })),
        accepted
    );
    assert_eq!(bob.on_event(&mut state, command(login_as("bob"))), accepted);
    assert_eq!(bob.on_event(&mut state, command(send_to("alice", "hi"))), accepted);

    assert_eq!(
        drain_queue(&mut alice_events),
        vec![
            OutgoingMessage::LoggedIn,
            OutgoingMessage::SyncUpdates(SyncUpdates {
                too_long: false,
                synced: true,
                updates: vec![],
            }),
            OutgoingMessage::DeviceOnline,
            OutgoingMessage::Update(Update {
                pts: 1,
                payload: UpdatePayload::NewMessage(NewMessageUpdate {
                    sender: "bob".to_string(),
                    contents: "hi".to_string(),
                }),
            }),
        ]
    );
    assert_eq!(
        drain_queue(&mut bob_events),
        vec![OutgoingMessage::DeviceOnline, OutgoingMessage::LoggedIn]
    );
    assert!(alice.is_running());
    assert!(bob.is_running());
}

#[test]
fn rejected_command_does_not_terminate() {
    let mut state = AppState::new();
    let (mut session, mut events) = Session::open(&mut state);
    assert_eq!(
        session.on_event(&mut state, command(IncomingMessage::Sync { device_pts: 5 })),
        SessionAction::Handled(Outcome::NotLoggedIn)
    );
    assert_eq!(
        session.on_event(&mut state, command(send_to("nobody", "x"))),
        SessionAction::Handled(Outcome::ReceiverNotFound)
    );
    assert!(session.is_running());
    assert!(drain_queue(&mut events).is_empty());
}

#[test]
fn finishing_a_session_unregisters_and_announces_once() {
    let mut state = AppState::new();
    let (session, mut events) = Session::open(&mut state);
    let (_other, mut other_events) = Session::open(&mut state);
    let (_third, mut third_events) = Session::open(&mut state);
    let id = session.conn_id();

    session.finish(&mut state);

    assert!(!state.is_registered(id));
    assert!(drain_queue(&mut events).is_empty());
    assert_eq!(drain_queue(&mut other_events), vec![OutgoingMessage::DeviceOffline]);
    assert_eq!(drain_queue(&mut third_events), vec![OutgoingMessage::DeviceOffline]);
}

#[test]
fn finishing_after_an_error_announces_once_too() {
    let mut state = AppState::new();
    let (mut session, _events) = Session::open(&mut state);
    let (_other, mut other_events) = Session::open(&mut state);
    assert_eq!(
        session.on_event(&mut state, SessionEvent::Inbound(Inbound::Malformed)),
        SessionAction::Terminate
    );

    session.finish(&mut state);

    assert_eq!(drain_queue(&mut other_events), vec![OutgoingMessage::DeviceOffline]);
}

#[test]
fn handle_message_reports_how_each_command_ended() {
    let mut state = AppState::new();
    let mut conn = state.register_connection();
    let mut events = conn.take_event_channel().unwrap();

    let sync = IncomingMessage::Sync { device_pts: 0 };
    assert_eq!(handle_message(&sync, &mut conn, &mut state), Outcome::NotLoggedIn);
    assert_eq!(
        handle_message(&send_to("alice", "x"), &mut conn, &mut state),
        Outcome::ReceiverNotFound
    );
    assert_eq!(handle_message(&login_as("alice"), &mut conn, &mut state), Outcome::Accepted);
    assert_eq!(handle_message(&sync, &mut conn, &mut state), Outcome::Accepted);
    assert_eq!(handle_message(&send_to("alice", "x"), &mut conn, &mut state), Outcome::Accepted);

    assert_eq!(drain_queue(&mut events).len(), 3);
}
