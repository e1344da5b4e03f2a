//! The envelope protocol: action id parsing and payload round trips.

use swarm_rs::agent::{Action, Output};
use swarm_rs::basic_agents::CalcInput;
use swarm_rs::json::JsonValue;

#[test]
fn id_with_separator_splits_at_first_dot() {
    let action = Action::new("agent.operation", &"x".to_string());
    assert_eq!(action.get_agent(), "agent");
    assert_eq!(action.get_name(), "operation");
    assert_eq!(action.get_id(), "agent.operation");
}

#[test]
fn agent_and_operation_reassemble_to_the_id() {
    for id in ["a.b", "searx_ng.search", "x.", ".op", "a.b.c", "w.op.with.dots"] {
        let action = Action::new(id, &"x".to_string());
        let rebuilt = format!("{}.{}", action.get_agent(), action.get_name());
        assert_eq!(rebuilt, id);
    }
}

#[test]
fn id_without_separator_defaults_the_operation() {
    let action = Action::new("summarizer", &"x".to_string());
    assert_eq!(action.get_agent(), "summarizer");
    assert_eq!(action.get_name(), "default");
    assert_eq!(action.get_id(), "summarizer");
}

#[test]
fn only_the_first_separator_matters() {
    let action = Action::new("agent.op.sub", &"x".to_string());
    assert_eq!(action.get_agent(), "agent");
    assert_eq!(action.get_name(), "op.sub");
}

#[test]
fn action_payload_round_trips() {
    let action = Action::new("a.b", &"payload text".to_string());
    assert_eq!(action.get_payload::<String>().unwrap(), "payload text");

    let action = Action::new("a.b", &42i64);
    assert_eq!(action.get_payload::<i64>().unwrap(), 42);
}

#[test]
fn action_payload_mismatch_is_recoverable() {
    let action = Action::new("a.b", &7i64);
    let decoded = action.get_payload::<String>();
    assert_eq!(decoded.unwrap_err(), "Unable to deserialize payload");
}

#[test]
fn success_output_round_trips() {
    let out = Output::new_success(&"hi".to_string());
    assert!(out.is_success());
    assert_eq!(out.get_payload::<String>().unwrap(), "hi");

    let out = Output::new_success(&CalcInput { a: -3, b: 9 });
    let back = out.get_payload::<CalcInput>().unwrap();
    assert_eq!(back.a, -3);
    assert_eq!(back.b, 9);
}

#[test]
fn error_output_carries_its_message() {
    let out = Output::new_error("something failed");
    assert!(!out.is_success());
    assert_eq!(out.get_error_message(), "something failed");
    assert_eq!(out.agent_id, "");
}

#[test]
fn output_value_is_the_raw_payload() {
    let out = Output::new_success(&5i64);
    match out.get_value() {
        JsonValue::Int(v) => assert_eq!(*v, 5),
        _ => panic!("expected an integer payload"),
    }
}
