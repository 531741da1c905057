use krust::agent::{AgentInput, AgentLoop, Directive, Error, LoopStatus};
use krust::protocol::{Command, Event};
use krust::registry::{InstanceRegistry, LifecycleError};
use krust::report::{
    agent_error_to_bridge, error_notification, format_error, lifecycle_error_to_bridge,
    BridgeError,
};

fn ping(payload: &str) -> AgentInput {
    AgentInput::Inbound {
        command: Command::Ping {
            payload: String::from(payload),
        },
    }
}

#[test]
fn agent_is_well_behaved() {
    let script = vec![ping("command"), AgentInput::ShutdownRequested];
    let (events, status) = krust::agent::run_script(&script);
    assert_eq!(
        events,
        vec![
            Event::Started,
            Event::Pong {
                payload: String::from("command")
            }
        ]
    );
    assert_eq!(status, LoopStatus::Stopped);
}

#[test]
fn events_interleave_in_emission_order() {
    let script = vec![AgentInput::TimerTick, ping("hello"), AgentInput::TimerTick];
    let (events, status) = krust::agent::run_script(&script);
    assert_eq!(
        events,
        vec![
            Event::Started,
            Event::Tick { secs: 1 },
            Event::Pong {
                payload: String::from("hello")
            },
            Event::Tick { secs: 2 },
        ]
    );
    assert_eq!(status, LoopStatus::Running);
}

#[test]
fn three_idle_ticks_in_order() {
    let script = vec![
        AgentInput::TimerTick,
        AgentInput::TimerTick,
        AgentInput::TimerTick,
    ];
    let (events, _) = krust::agent::run_script(&script);
    assert_eq!(
        events,
        vec![
            Event::Started,
            Event::Tick { secs: 1 },
            Event::Tick { secs: 2 },
            Event::Tick { secs: 3 },
        ]
    );
}

#[test]
fn crash_sentinel_terminates_without_further_events() {
    let script = vec![ping("crash"), AgentInput::TimerTick, ping("after")];
    let (events, status) = krust::agent::run_script(&script);
    assert_eq!(events, vec![Event::Started]);
    assert_eq!(
        status,
        LoopStatus::Failed {
            error: Error::Crash
        }
    );
    let LoopStatus::Failed { error } = status else {
        panic!("expected failure");
    };
    let text = format_error(&agent_error_to_bridge(&error));
    assert_eq!(text, "the agent has crashed");
}

#[test]
fn inbox_closed_stops_cleanly() {
    let script = vec![AgentInput::InboxClosed, AgentInput::TimerTick];
    let (events, status) = krust::agent::run_script(&script);
    assert_eq!(events, vec![Event::Started]);
    assert_eq!(status, LoopStatus::Stopped);
}

#[test]
fn emit_failure_is_terminal() {
    let script = vec![AgentInput::EmitFailed {
        event: Event::Tick { secs: 1 },
    }];
    let (events, status) = krust::agent::run_script(&script);
    assert_eq!(events, vec![Event::Started]);
    let LoopStatus::Failed { error } = status else {
        panic!("expected failure");
    };
    assert_eq!(
        error,
        Error::OutboxError {
            event: Event::Tick { secs: 1 }
        }
    );
    assert_eq!(agent_error_to_bridge(&error), BridgeError::OutboxClosed);
}

#[test]
fn step_advances_tick_counter() {
    let mut agent = AgentLoop::new();
    assert_eq!(
        agent.step(&AgentInput::TimerTick),
        Directive::Emit {
            event: Event::Tick { secs: 1 }
        }
    );
    assert_eq!(
        agent.step(&AgentInput::TimerTick),
        Directive::Emit {
            event: Event::Tick { secs: 2 }
        }
    );
    assert_eq!(agent.step(&AgentInput::ShutdownRequested), Directive::Stop);
}

#[test]
fn second_start_is_rejected_and_first_agent_unaffected() {
    let mut registry: InstanceRegistry<u32> = InstanceRegistry::new();
    assert!(registry.start(7).is_ok());
    assert!(registry.is_started());
    assert_eq!(
        registry.start(8),
        Err((8, LifecycleError::AlreadyStarted))
    );
    assert!(registry.is_started());
    assert_eq!(registry.stop(), Ok(7));
}

#[test]
fn idle_stop_and_send_are_rejected_without_effect() {
    let mut registry: InstanceRegistry<u32> = InstanceRegistry::new();
    assert_eq!(registry.stop(), Err(LifecycleError::AlreadyStopped));
    assert_eq!(registry.handle(), Err(LifecycleError::NotStarted));
    assert!(!registry.is_started());
    assert_eq!(
        registry.prepare_send(b"{\"type\":\"Ping\",\"payload\":\"x\"}"),
        Err(BridgeError::NotStarted)
    );
}

#[test]
fn stop_frees_the_slot_for_a_new_start() {
    let mut registry: InstanceRegistry<u32> = InstanceRegistry::new();
    assert!(registry.start(1).is_ok());
    assert_eq!(registry.stop(), Ok(1));
    assert!(!registry.is_started());
    assert!(registry.start(2).is_ok());
    assert_eq!(registry.stop(), Ok(2));
}

#[test]
fn prepare_send_decodes_for_a_running_agent() {
    let mut registry: InstanceRegistry<u32> = InstanceRegistry::new();
    assert!(registry.start(7).is_ok());
    let r = registry.prepare_send(b"{\"type\":\"Ping\",\"payload\":\"hello\"}");
    let (handle, command) = r.expect("well-formed command");
    assert_eq!(*handle, 7);
    assert_eq!(
        command,
        Command::Ping {
            payload: String::from("hello")
        }
    );
}

#[test]
fn malformed_send_is_reported_and_agent_keeps_running() {
    let mut registry: InstanceRegistry<u32> = InstanceRegistry::new();
    assert!(registry.start(7).is_ok());
    assert_eq!(
        registry.prepare_send(b"{\"type\":\"Pong\",\"payload\":\"x\"}"),
        Err(BridgeError::MalformedCommand)
    );
    assert!(registry.is_started());
    assert_eq!(registry.stop(), Ok(7));
}

#[test]
fn error_texts_are_exact() {
    assert_eq!(
        format_error(&BridgeError::AlreadyStarted),
        "backend has already been started"
    );
    assert_eq!(
        format_error(&BridgeError::NotStarted),
        "backend must be started before send can be called"
    );
    assert_eq!(
        format_error(&BridgeError::AlreadyStopped),
        "backend has already been stopped"
    );
    assert_eq!(format_error(&BridgeError::MalformedCommand), "malformed command");
    assert_eq!(
        format_error(&BridgeError::InboxClosed),
        "agent not accepting commands"
    );
    assert_eq!(
        format_error(&BridgeError::RuntimeUnavailable),
        "could not build the agent runtime"
    );
    assert_eq!(
        format_error(&BridgeError::OutboxClosed),
        "failed to send event: outbox closed"
    );
    assert_eq!(format_error(&BridgeError::Crash), "the agent has crashed");
    assert_eq!(
        format_error(&BridgeError::CallbackFailed),
        "callback invocation failed"
    );
    assert_eq!(
        format_error(&BridgeError::WorkerLost),
        "failed to join agent thread"
    );
}

#[test]
fn lifecycle_errors_map_to_bridge_errors() {
    assert_eq!(
        lifecycle_error_to_bridge(&LifecycleError::AlreadyStarted),
        BridgeError::AlreadyStarted
    );
    assert_eq!(
        lifecycle_error_to_bridge(&LifecycleError::NotStarted),
        BridgeError::NotStarted
    );
    assert_eq!(
        lifecycle_error_to_bridge(&LifecycleError::AlreadyStopped),
        BridgeError::AlreadyStopped
    );
}

#[test]
fn error_notification_fires_exactly_on_failure() {
    assert_eq!(error_notification(&Ok(())), None);
    assert_eq!(
        error_notification(&Err(BridgeError::Crash)),
        Some(String::from("the agent has crashed"))
    );
}
