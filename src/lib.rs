//! Orchestration core of a command-line client for a secure group-messaging
//! engine: relay configuration, direct-message group resolution, message
//! history windows, batch execution, output rendering, the local key store and
//! the persisted session pointer.
pub mod error;
pub mod text;
pub mod codec;
pub mod relays;
pub mod groups;
pub mod output;
pub mod commands;
pub mod batch;
pub mod keyring;
pub mod session;
pub mod contacts;
