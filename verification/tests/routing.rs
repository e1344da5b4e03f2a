//! Routing through the registry: hits, misses, unknown operations, and
//! workflow composition.

use swarm_rs::agent::Action;
use swarm_rs::basic_agents::{CalcAgent, CalcInput, EchoAgent, RelayAgent};
use swarm_rs::json::JsonValue;
use swarm_rs::swarm::{Agent, Swarm};

#[test]
fn echo_ping_returns_its_input() {
    let mut swarm = Swarm::new();
    swarm.register_agent("Echo", Agent::Echo(EchoAgent::new()));
    let output = swarm.execute("Echo.ping", &"hi".to_string());
    assert!(output.is_success());
    assert_eq!(output.agent_id, "Echo");
    assert_eq!(output.get_payload::<String>().unwrap(), "hi");
}

#[test]
fn unregistered_agent_is_not_found() {
    let mut swarm = Swarm::new();
    let action = Action::from_value("Ghost.anything", JsonValue::Null);
    let output = swarm.execute_action(&action);
    assert!(!output.is_success());
    assert_eq!(output.agent_id, "");
    assert_eq!(output.get_error_message(), "Agent Not Found");
}

#[test]
fn unknown_operation_is_reported() {
    let mut swarm = Swarm::new();
    swarm.register_agent("Echo", Agent::Echo(EchoAgent::new()));
    let output = swarm.execute("Echo.pong", &"hi".to_string());
    assert!(!output.is_success());
    assert_eq!(output.agent_id, "Echo");
    assert_eq!(output.get_error_message(), "Unknown action");
}

#[test]
fn calc_adds_its_inputs() {
    let mut swarm = Swarm::new();
    swarm.register_agent("Calc", Agent::Calc(CalcAgent::new()));
    let output = swarm.execute("Calc.add", &CalcInput { a: 40, b: 2 });
    assert!(output.is_success());
    assert_eq!(output.get_payload::<i64>().unwrap(), 42);
}

#[test]
fn calc_rejects_a_malformed_payload() {
    let mut swarm = Swarm::new();
    swarm.register_agent("Calc", Agent::Calc(CalcAgent::new()));
    let payload = JsonValue::Obj(vec![
        ("a".to_string(), JsonValue::Str("x".to_string())),
        ("b".to_string(), JsonValue::Int(2)),
    ]);
    let action = Action::from_value("Calc.add", payload);
    let output = swarm.execute_action(&action);
    assert!(!output.is_success());
    assert_eq!(output.get_error_message(), "Unable to get payload");
}

#[test]
fn calc_reports_overflow() {
    let mut swarm = Swarm::new();
    swarm.register_agent("Calc", Agent::Calc(CalcAgent::new()));
    let output = swarm.execute("Calc.add", &CalcInput { a: i64::MAX, b: 1 });
    assert!(!output.is_success());
    assert_eq!(output.get_error_message(), "Addition overflow");
}

#[test]
fn workflow_output_carries_the_workflow_agents_id() {
    let mut swarm = Swarm::new();
    swarm.register_agent("B", Agent::Echo(EchoAgent::new()));
    swarm.register_agent("W", Agent::Relay(RelayAgent::new("B")));
    let output = swarm.execute("W.ping", &"hello".to_string());
    assert!(output.is_success());
    assert_eq!(output.agent_id, "W");
    assert_eq!(output.get_payload::<String>().unwrap(), "hello");
}

#[test]
fn nested_workflows_compose() {
    let mut swarm = Swarm::new();
    swarm.register_agent("Echo", Agent::Echo(EchoAgent::new()));
    swarm.register_agent("Inner", Agent::Relay(RelayAgent::new("Echo")));
    swarm.register_agent("Outer", Agent::Relay(RelayAgent::new("Inner")));
    let output = swarm.execute("Outer.ping", &"deep".to_string());
    assert!(output.is_success());
    assert_eq!(output.agent_id, "Outer");
    assert_eq!(output.get_payload::<String>().unwrap(), "deep");
}

#[test]
fn workflow_to_a_missing_agent_bubbles_the_routing_error() {
    let mut swarm = Swarm::new();
    swarm.register_agent("W", Agent::Relay(RelayAgent::new("Absent")));
    let output = swarm.execute("W.ping", &"x".to_string());
    assert!(!output.is_success());
    assert_eq!(output.agent_id, "W");
    assert_eq!(output.get_error_message(), "Agent Not Found");
}

#[test]
fn registering_an_id_again_replaces_the_agent() {
    let mut swarm = Swarm::new();
    swarm.register_agent("A", Agent::Echo(EchoAgent::new()));
    swarm.register_agent("A", Agent::Calc(CalcAgent::new()));
    let output = swarm.execute("A.add", &CalcInput { a: 1, b: 2 });
    assert!(output.is_success());
    assert_eq!(output.get_payload::<i64>().unwrap(), 3);
}

#[test]
fn get_agent_recovers_the_concrete_variant() {
    let mut swarm = Swarm::new();
    swarm.register_agent("Echo", Agent::Echo(EchoAgent::new()));
    match swarm.get_agent("Echo") {
        Some(Agent::Echo(_)) => {}
        _ => panic!("expected the echo agent"),
    }
    assert!(swarm.get_agent("Ghost").is_none());
}

#[test]
fn workflow_cannot_reach_itself() {
    // During dispatch the target agent is taken out of the registry, so a
    // workflow agent that forwards to its own id misses the lookup instead
    // of recursing forever.
    let mut swarm = Swarm::new();
    swarm.register_agent("Loop", Agent::Relay(RelayAgent::new("Loop")));
    let output = swarm.execute("Loop.ping", &"x".to_string());
    assert!(!output.is_success());
    assert_eq!(output.agent_id, "Loop");
    assert_eq!(output.get_error_message(), "Agent Not Found");
}
