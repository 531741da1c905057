//! The agent's event loop as a state machine.
//!
//! The running agent waits on whichever of three sources becomes ready first
//! — the shutdown signal, the one-second timer, the next inbound command —
//! and reacts to exactly one of them at a time.  Each observation is an
//! [`AgentInput`]; the reaction is a [`Directive`].  The reactor that owns
//! the channels and the timer performs the directives; every decision is
//! taken here, by [`AgentLoop::step`], whose behaviour is [`step_model`].
use vstd::prelude::*;

use crate::protocol::{Command, CommandV, Event, EventV};

verus! {

/// A terminal failure of the agent loop.
#[derive(Debug, PartialEq)]
pub enum Error {
    /// An event was to be emitted but the event channel's consumer is gone.
    OutboxError { event: Event },
    /// The simulated unrecoverable domain failure.
    Crash,
}

/// The mathematical image of an [`Error`].
pub enum ErrorV {
    OutboxError { event: EventV },
    Crash,
}

impl View for Error {
    type V = ErrorV;

    open spec fn view(&self) -> ErrorV {
        match self {
            Error::OutboxError { event } => ErrorV::OutboxError { event: event@ },
            Error::Crash => ErrorV::Crash,
        }
    }
}

impl DeepView for Error {
    type V = ErrorV;

    open spec fn deep_view(&self) -> ErrorV {
        self.view()
    }
}

/// One observation the reactor hands to the loop: whichever source became
/// ready first.
#[derive(Debug, PartialEq)]
pub enum AgentInput {
    /// The shutdown signal transitioned to "stop requested".
    ShutdownRequested,
    /// The periodic one-second timer fired.
    TimerTick,
    /// The next inbound command arrived.
    Inbound { command: Command },
    /// The command channel is closed: no further command can ever arrive.
    InboxClosed,
    /// Emitting `event` failed because the event channel's consumer is gone.
    EmitFailed { event: Event },
}

/// The mathematical image of an [`AgentInput`].
pub enum AgentInputV {
    ShutdownRequested,
    TimerTick,
    Inbound { command: CommandV },
    InboxClosed,
    EmitFailed { event: EventV },
}

impl View for AgentInput {
    type V = AgentInputV;

    open spec fn view(&self) -> AgentInputV {
        match self {
            AgentInput::ShutdownRequested => AgentInputV::ShutdownRequested,
            AgentInput::TimerTick => AgentInputV::TimerTick,
            AgentInput::Inbound { command } => AgentInputV::Inbound { command: command@ },
            AgentInput::InboxClosed => AgentInputV::InboxClosed,
            AgentInput::EmitFailed { event } => AgentInputV::EmitFailed { event: event@ },
        }
    }
}

impl DeepView for AgentInput {
    type V = AgentInputV;

    open spec fn deep_view(&self) -> AgentInputV {
        self.view()
    }
}

/// What the loop decides to do in reaction to one input.
#[derive(Debug, PartialEq)]
pub enum Directive {
    /// Emit this event on the event channel, then keep running.
    Emit { event: Event },
    /// Exit the loop cleanly.
    Stop,
    /// Exit the loop with this terminal error.
    Fail { error: Error },
}

/// The mathematical image of a [`Directive`].
pub enum DirectiveV {
    Emit { event: EventV },
    Stop,
    Fail { error: ErrorV },
}

impl View for Directive {
    type V = DirectiveV;

    open spec fn view(&self) -> DirectiveV {
        match self {
            Directive::Emit { event } => DirectiveV::Emit { event: event@ },
            Directive::Stop => DirectiveV::Stop,
            Directive::Fail { error } => DirectiveV::Fail { error: error@ },
        }
    }
}

impl DeepView for Directive {
    type V = DirectiveV;

    open spec fn deep_view(&self) -> DirectiveV {
        self.view()
    }
}

/// Where a run of the loop stands: still running, stopped cleanly, or
/// terminated by an error.  `Stopped` and `Failed` are terminal.
#[derive(Debug, PartialEq)]
pub enum LoopStatus {
    Running,
    Stopped,
    Failed { error: Error },
}

/// The mathematical image of a [`LoopStatus`].
pub enum LoopStatusV {
    Running,
    Stopped,
    Failed { error: ErrorV },
}

impl View for LoopStatus {
    type V = LoopStatusV;

    open spec fn view(&self) -> LoopStatusV {
        match self {
            LoopStatus::Running => LoopStatusV::Running,
            LoopStatus::Stopped => LoopStatusV::Stopped,
            LoopStatus::Failed { error } => LoopStatusV::Failed { error: error@ },
        }
    }
}

impl DeepView for LoopStatus {
    type V = LoopStatusV;

    open spec fn deep_view(&self) -> LoopStatusV {
        self.view()
    }
}

/// How the loop reacts to one input: the new tick counter and the directive.
///
/// The crash sentinel in a `Ping` payload terminates the loop abnormally;
/// any other payload is echoed back.  The tick counter advances only on a
/// timer tick, and the tick event carries the counter's value before the
/// advance; at the machine limit the counter saturates.
pub open spec fn step_model(secs: u32, input: AgentInputV) -> (u32, DirectiveV) {
    match input {
        AgentInputV::ShutdownRequested => (secs, DirectiveV::Stop),
        AgentInputV::TimerTick => (
            if secs == u32::MAX {
                secs
            } else {
                (secs + 1) as u32
            },
            DirectiveV::Emit { event: EventV::Tick { secs } },
        ),
        AgentInputV::Inbound { command: CommandV::Ping { payload } } => if payload == "crash"@ {
            (secs, DirectiveV::Fail { error: ErrorV::Crash })
        } else {
            (secs, DirectiveV::Emit { event: EventV::Pong { payload } })
        },
        AgentInputV::InboxClosed => (secs, DirectiveV::Stop),
        AgentInputV::EmitFailed { event } => (
            secs,
            DirectiveV::Fail { error: ErrorV::OutboxError { event } },
        ),
    }
}

/// The loop's only mutable state: the tick counter, starting at 1.
pub struct AgentLoop {
    secs: u32,
}

impl View for AgentLoop {
    type V = u32;

    closed spec fn view(&self) -> u32 {
        self.secs
    }
}

impl AgentLoop {
    /// A fresh loop, about to emit [`EventV::Started`]; its counter is 1.
    pub fn new() -> (a: AgentLoop)
        ensures
            a@ == 1u32,
    {
        AgentLoop { secs: 1 }
    }

    /// Reacts to one input exactly as [`step_model`] says.
    pub fn step(&mut self, input: &AgentInput) -> (d: Directive)
        ensures
            final(self)@ == step_model(old(self)@, input@).0,
            d@ == step_model(old(self)@, input@).1,
    {
        match input {
            AgentInput::ShutdownRequested => Directive::Stop,
            AgentInput::TimerTick => {
                let e = Event::Tick { secs: self.secs };
                if self.secs < u32::MAX {
                    self.secs = self.secs + 1;
                }
                Directive::Emit { event: e }
            },
            AgentInput::Inbound { command: Command::Ping { payload } } => {
                let sentinel = String::from_str("crash");
                if *payload == sentinel {
                    Directive::Fail { error: Error::Crash }
                } else {
                    Directive::Emit { event: Event::Pong { payload: payload.clone() } }
                }
            },
            AgentInput::InboxClosed => Directive::Stop,
            AgentInput::EmitFailed { event } => Directive::Fail {
                error: Error::OutboxError { event: event.clone() },
            },
        }
    }
}

/// The events and final status of a loop run from counter `secs` over the
/// given inputs, in order.  The run ends at the first `Stop` or `Fail`
/// directive; inputs after it are never observed.  If the inputs run out
/// first, the loop is still `Running`.
pub open spec fn run_model(secs: u32, inputs: Seq<AgentInputV>) -> (Seq<EventV>, LoopStatusV)
    decreases inputs.len(),
{
    if inputs.len() == 0 {
        (Seq::empty(), LoopStatusV::Running)
    } else {
        let (secs2, d) = step_model(secs, inputs[0]);
        match d {
            DirectiveV::Emit { event } => {
                let (rest, status) = run_model(secs2, inputs.skip(1));
                (seq![event] + rest, status)
            },
            DirectiveV::Stop => (Seq::empty(), LoopStatusV::Stopped),
            DirectiveV::Fail { error } => (Seq::empty(), LoopStatusV::Failed { error }),
        }
    }
}

/// A whole agent run: `Started` is emitted first, then the loop reacts to
/// the inputs from counter 1.
pub open spec fn agent_run(inputs: Seq<AgentInputV>) -> (Seq<EventV>, LoopStatusV) {
    let (events, status) = run_model(1, inputs);
    (seq![EventV::Started] + events, status)
}

/// Once the loop has stopped or failed, later inputs change nothing: no
/// further event is emitted and the status stays as it is.
pub proof fn lemma_terminal_run_absorbs(secs: u32, inputs: Seq<AgentInputV>, more: Seq<
    AgentInputV,
>)
    requires
        !(run_model(secs, inputs).1 is Running),
    ensures
        run_model(secs, inputs + more) == run_model(secs, inputs),
    decreases inputs.len(),
{
    if inputs.len() == 0 {
        assert(false);
    } else {
        let (secs2, d) = step_model(secs, inputs[0]);
        assert((inputs + more)[0] == inputs[0]);
        match d {
            DirectiveV::Emit { event } => {
                assert((inputs + more).skip(1) =~= inputs.skip(1) + more);
                lemma_terminal_run_absorbs(secs2, inputs.skip(1), more);
            },
            DirectiveV::Stop => {},
            DirectiveV::Fail { error } => {},
        }
    }
}

/// After the agent has stopped cleanly or crashed, no further event is ever
/// emitted, whatever else the reactor observes: the whole run over any
/// longer script is the run up to the terminal directive.
pub proof fn lemma_no_events_after_termination(inputs: Seq<AgentInputV>, more: Seq<AgentInputV>)
    requires
        !(agent_run(inputs).1 is Running),
    ensures
        agent_run(inputs + more) == agent_run(inputs),
{
    lemma_terminal_run_absorbs(1, inputs, more);
}

/// Runs the loop over a whole script of inputs, collecting every emitted
/// event in emission order, exactly as [`agent_run`] says.
pub fn run_script(inputs: &Vec<AgentInput>) -> (r: (Vec<Event>, LoopStatus))
    ensures
        r.0.deep_view() == agent_run(inputs.deep_view()).0,
        r.1@ == agent_run(inputs.deep_view()).1,
{
    let ghost all = inputs.deep_view();
    let mut events: Vec<Event> = Vec::new();
    events.push(Event::Started);
    let mut state = AgentLoop::new();
    let mut status = LoopStatus::Running;
    let mut running = true;
    let mut i: usize = 0;
    proof {
        assert(events.deep_view() =~= seq![EventV::Started]);
        assert(all.skip(0) =~= all);
    }
    while i < inputs.len() && running
        invariant
            0 <= i <= inputs@.len(),
            all == inputs.deep_view(),
            running == (status@ is Running),
            status@ is Running ==> {
                let (rest, st) = run_model(state@, all.skip(i as int));
                agent_run(all).0 == events.deep_view() + rest && agent_run(all).1 == st
            },
            !(status@ is Running) ==> agent_run(all).0 == events.deep_view() && agent_run(all).1
                == status@,
        decreases inputs@.len() - i,
    {
        proof {
            assert(all.skip(i as int)[0] == all[i as int]);
            assert(all.skip(i as int).skip(1) =~= all.skip(i as int + 1));
            assert(inputs[i as int].deep_view() == all[i as int]);
        }
        let d = state.step(&inputs[i]);
        match d {
            Directive::Emit { event } => {
                let ghost evs0 = events.deep_view();
                let ghost ev = event@;
                events.push(event);
                proof {
                    assert(events.deep_view() =~= evs0.push(ev));
                    let (rest2, st2) = run_model(state@, all.skip(i as int + 1));
                    assert(evs0.push(ev) + rest2 =~= evs0 + (seq![ev] + rest2));
                }
            },
            Directive::Stop => {
                status = LoopStatus::Stopped;
                running = false;
                proof {
                    assert(events.deep_view() + Seq::<EventV>::empty() =~= events.deep_view());
                }
            },
            Directive::Fail { error } => {
                status = LoopStatus::Failed { error };
                running = false;
                proof {
                    assert(events.deep_view() + Seq::<EventV>::empty() =~= events.deep_view());
                }
            },
        }
        i = i + 1;
    }
    proof {
        if status@ is Running {
            assert(all.skip(i as int) =~= Seq::<AgentInputV>::empty());
            assert(events.deep_view() + Seq::<EventV>::empty() =~= events.deep_view());
        }
    }
    (events, status)
}

} // verus!
