//! The error-propagation path.
//!
//! Synchronous callers get a [`BridgeError`] back directly; a failure on a
//! detached worker thread is turned into diagnostic text by
//! [`format_error`] and delivered through the host's error callback exactly
//! once — [`error_notification`] decides whether a finished unit of work owes
//! such a notification and with what text.
use vstd::prelude::*;

use crate::agent;
use crate::agent::ErrorV;
use crate::registry::LifecycleError;

verus! {

/// Every failure the bridge can surface to the host, as one flat taxonomy:
/// caller misuse, protocol errors, channel errors, the domain crash, and
/// failures of the host boundary itself.
#[derive(Debug, PartialEq, Eq, Structural, Clone, Copy)]
pub enum BridgeError {
    /// `start` was called while an agent is already running.
    AlreadyStarted,
    /// `send` was called with no agent running.
    NotStarted,
    /// `stop` was called with no agent running.
    AlreadyStopped,
    /// The bytes handed to `send` encode no command.
    MalformedCommand,
    /// A decoded command could not be enqueued: the agent loop's consumer
    /// side of the command channel is gone.
    InboxClosed,
    /// An event was to be emitted but the event channel's consumer is gone.
    OutboxClosed,
    /// The runtime that drives the agent loop could not be built.
    RuntimeUnavailable,
    /// The agent hit its simulated unrecoverable domain failure.
    Crash,
    /// Invoking a host callback failed.
    CallbackFailed,
    /// The agent worker thread ended without a result.
    WorkerLost,
}

/// The diagnostic text for each failure.
pub open spec fn error_text(e: BridgeError) -> Seq<char> {
    match e {
        BridgeError::AlreadyStarted => "backend has already been started"@,
        BridgeError::NotStarted => "backend must be started before send can be called"@,
        BridgeError::AlreadyStopped => "backend has already been stopped"@,
        BridgeError::MalformedCommand => "malformed command"@,
        BridgeError::InboxClosed => "agent not accepting commands"@,
        BridgeError::OutboxClosed => "failed to send event: outbox closed"@,
        BridgeError::RuntimeUnavailable => "could not build the agent runtime"@,
        BridgeError::Crash => "the agent has crashed"@,
        BridgeError::CallbackFailed => "callback invocation failed"@,
        BridgeError::WorkerLost => "failed to join agent thread"@,
    }
}

/// Formats a failure as the human-actionable text the host receives:
/// exactly [`error_text`].
pub fn format_error(e: &BridgeError) -> (r: String)
    ensures
        r@ == error_text(*e),
{
    match e {
        BridgeError::AlreadyStarted => String::from_str("backend has already been started"),
        BridgeError::NotStarted => String::from_str(
            "backend must be started before send can be called",
        ),
        BridgeError::AlreadyStopped => String::from_str("backend has already been stopped"),
        BridgeError::MalformedCommand => String::from_str("malformed command"),
        BridgeError::InboxClosed => String::from_str("agent not accepting commands"),
        BridgeError::OutboxClosed => String::from_str("failed to send event: outbox closed"),
        BridgeError::RuntimeUnavailable => String::from_str("could not build the agent runtime"),
        BridgeError::Crash => String::from_str("the agent has crashed"),
        BridgeError::CallbackFailed => String::from_str("callback invocation failed"),
        BridgeError::WorkerLost => String::from_str("failed to join agent thread"),
    }
}

/// The bridge-level reading of an agent loop's terminal error.
pub open spec fn bridge_error_of_agent(e: ErrorV) -> BridgeError {
    match e {
        ErrorV::OutboxError { event } => BridgeError::OutboxClosed,
        ErrorV::Crash => BridgeError::Crash,
    }
}

/// Maps the agent loop's terminal error to the bridge-level taxonomy.
pub fn agent_error_to_bridge(e: &agent::Error) -> (r: BridgeError)
    ensures
        r == bridge_error_of_agent(e@),
{
    match e {
        agent::Error::OutboxError { event } => BridgeError::OutboxClosed,
        agent::Error::Crash => BridgeError::Crash,
    }
}

/// Maps a registry misuse error to the bridge-level taxonomy.
pub fn lifecycle_error_to_bridge(e: &LifecycleError) -> (r: BridgeError)
    ensures
        *e == LifecycleError::AlreadyStarted ==> r == BridgeError::AlreadyStarted,
        *e == LifecycleError::NotStarted ==> r == BridgeError::NotStarted,
        *e == LifecycleError::AlreadyStopped ==> r == BridgeError::AlreadyStopped,
{
    match e {
        LifecycleError::AlreadyStarted => BridgeError::AlreadyStarted,
        LifecycleError::NotStarted => BridgeError::NotStarted,
        LifecycleError::AlreadyStopped => BridgeError::AlreadyStopped,
    }
}

/// Decides what a finished unit of work owes the host's error callback: a
/// successful unit owes nothing, a failed one owes exactly one notification
/// carrying [`error_text`] of its error.  The supervisor that wraps each
/// worker thread performs one callback invocation per `Some`.
pub fn error_notification(outcome: &Result<(), BridgeError>) -> (r: Option<String>)
    ensures
        match outcome {
            Ok(()) => r is None,
            Err(e) => r matches Some(text) && text@ == error_text(*e),
        },
{
    match outcome {
        Ok(()) => None,
        Err(e) => Some(format_error(e)),
    }
}

} // verus!
