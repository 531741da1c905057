//! The message protocol between the host and the agent: tagged-union
//! [`Command`]s flow from the host to the agent, tagged-union [`Event`]s flow
//! back.  Both are plain data; their byte encoding lives in [`crate::codec`].
use vstd::prelude::*;

verus! {

/// An instruction sent from the host to the agent.
///
/// A `Command` is created by decoding a host-supplied byte buffer
/// ([`crate::codec::decode_command`]) and is consumed exactly once by the
/// agent loop.
#[derive(Debug, PartialEq)]
pub enum Command {
    /// The echo-style command: the agent answers with [`Event::Pong`]
    /// carrying the same payload, unless the payload is the crash sentinel.
    Ping { payload: String },
}

/// A notification emitted by the agent for delivery to the host.
///
/// An `Event` is consumed exactly once by the event forwarder, which encodes
/// it ([`crate::codec::encode_event`]) and hands it to the host callback.
#[derive(Debug, PartialEq)]
pub enum Event {
    /// Emitted once, first, when the agent loop starts running.
    Started,
    /// The response to [`Command::Ping`], carrying the same payload.
    Pong { payload: String },
    /// The periodic one-second signal; `secs` starts at 1 and increments.
    Tick { secs: u32 },
}

/// The mathematical image of a [`Command`].
pub enum CommandV {
    Ping { payload: Seq<char> },
}

/// The mathematical image of an [`Event`].
pub enum EventV {
    Started,
    Pong { payload: Seq<char> },
    Tick { secs: u32 },
}

impl View for Command {
    type V = CommandV;

    open spec fn view(&self) -> CommandV {
        match self {
            Command::Ping { payload } => CommandV::Ping { payload: payload@ },
        }
    }
}

impl DeepView for Command {
    type V = CommandV;

    open spec fn deep_view(&self) -> CommandV {
        self.view()
    }
}

impl View for Event {
    type V = EventV;

    open spec fn view(&self) -> EventV {
        match self {
            Event::Started => EventV::Started,
            Event::Pong { payload } => EventV::Pong { payload: payload@ },
            Event::Tick { secs } => EventV::Tick { secs: *secs },
        }
    }
}

impl DeepView for Event {
    type V = EventV;

    open spec fn deep_view(&self) -> EventV {
        self.view()
    }
}

impl Clone for Event {
    /// An exact copy: the clone has the same view as the original.
    fn clone(&self) -> (e: Event)
        ensures
            e@ == self@,
    {
        match self {
            Event::Started => Event::Started,
            Event::Pong { payload } => Event::Pong { payload: payload.clone() },
            Event::Tick { secs } => Event::Tick { secs: *secs },
        }
    }
}

} // verus!
