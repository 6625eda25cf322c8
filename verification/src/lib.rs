//! The update-distribution core of a real-time messaging server.
//!
//! Every user owns a [`mailbox::Mailbox`]: an append-only log of sequenced
//! updates together with the set of connections that asked for live delivery.
//! [`state::AppState`] holds the user directory and the registry of live
//! connections, and [`handler::Session`] is the per-connection control loop
//! reduced to its decisions, so that a transport can drive it one event at a
//! time.

pub mod handler;
pub mod mailbox;
pub mod outbox;
pub mod protocol;
pub mod state;
