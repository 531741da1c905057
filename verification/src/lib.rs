//! A lifecycle and communication bridge between a long-running background
//! worker (the agent) and a host runtime driven through callbacks.
//!
//! The crate holds the bridge's decision logic: the message protocol and its
//! byte encoding, the agent's event loop as a state machine, the single-slot
//! instance registry, and the error-formatting path.  The surrounding
//! plumbing (threads, channels, the host's callback mechanism) performs the
//! actions these functions decide on.
pub mod agent;
pub mod codec;
pub mod protocol;
pub mod registry;
pub mod report;
