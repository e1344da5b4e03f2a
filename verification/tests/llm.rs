//! The language-model agent: messages, prompts, responses, and the full
//! dispatch.

use swarm_rs::agent::Action;
use swarm_rs::json::{JsonCodec, JsonValue};
use swarm_rs::llm_agent::llm_agent::{LLMAgent, LLMPrompt};
use swarm_rs::llm_agent::llm_client::LLMClient;
use swarm_rs::llm_agent::llm_message::LLMMessageBuilder;
use swarm_rs::llm_agent::llm_response::{LLMChoice, LLMResponse, LLMUsage};
use swarm_rs::swarm::{Agent, Swarm};

fn sample_agent() -> LLMAgent {
    // The backend endpoint is a closed local port, so completions fail.
    let client = LLMClient::new("http://127.0.0.1:9", "test-model", None);
    LLMAgent::new(
        "llm-summarizer",
        client,
        "You are a summarizer.",
        "Summarize: {content}",
        "Answer in one sentence.",
        None,
    )
}

#[test]
fn message_builder_keeps_roles_and_order() {
    let messages = LLMMessageBuilder::new()
        .add_system_message("first")
        .add_user_message("second")
        .build();
    assert_eq!(messages.len(), 2);
    assert_eq!(messages[0].role, "system");
    assert_eq!(messages[0].content, "first");
    assert_eq!(messages[1].role, "user");
    assert_eq!(messages[1].content, "second");
}

#[test]
fn build_messages_fills_the_templates() {
    let agent = sample_agent();
    let mut prompt = LLMPrompt::new();
    prompt.add_content("content", "the text");
    let messages = agent.build_messages(&prompt);
    assert_eq!(messages.len(), 3);
    assert_eq!(messages[0].content, "You are a summarizer.");
    assert_eq!(messages[1].content, "Summarize: the text");
    assert_eq!(messages[2].content, "Answer in one sentence.");
}

#[test]
fn prompt_round_trips_as_a_payload() {
    let mut prompt = LLMPrompt::new();
    prompt.add_content("a", "1");
    prompt.add_content("b", "2");
    prompt.add_content("a", "3");
    let encoded = prompt.to_json();
    let decoded = LLMPrompt::from_json(&encoded).unwrap();
    let entries = decoded.entries();
    assert_eq!(entries.len(), 2);
    assert_eq!(entries[0], ("a".to_string(), "3".to_string()));
    assert_eq!(entries[1], ("b".to_string(), "2".to_string()));
}

fn sample_response(content: &str) -> LLMResponse {
    LLMResponse {
        created: 123,
        choices: vec![LLMChoice {
            finish_reason: "stop".to_string(),
            index: 0,
            message: swarm_rs::llm_agent::llm_message::LLMMessage {
                role: "assistant".to_string(),
                content: content.to_string(),
            },
        }],
        model: "test-model".to_string(),
        usage: LLMUsage {
            completion_tokens: 1,
            prompt_tokens: 2,
            total_tokens: 3,
        },
        system_fingerprint: "fp".to_string(),
        object: "chat.completion".to_string(),
    }
}

#[test]
fn get_message_is_the_first_choice() {
    let resp = sample_response("hello there");
    assert_eq!(resp.get_message().unwrap(), "hello there");
}

#[test]
fn get_output_parses_the_message_as_json() {
    // The message text is JSON, parsed by the real parser underneath; a
    // parser that handed the text back unchanged could not decode it.
    let resp = sample_response("42");
    assert_eq!(resp.get_output::<i64>().unwrap(), 42);

    let resp = sample_response(r#"{"a": 1, "b": 2}"#);
    let calc: swarm_rs::basic_agents::CalcInput = resp.get_output().unwrap();
    assert_eq!(calc.a, 1);
    assert_eq!(calc.b, 2);

    let resp = sample_response("not json at all {");
    assert!(resp.get_output::<i64>().is_none());
}

#[test]
fn response_round_trips_as_a_payload() {
    let resp = sample_response("body");
    let encoded = resp.to_json();
    let decoded = LLMResponse::from_json(&encoded).unwrap();
    assert_eq!(decoded.created, 123);
    assert_eq!(decoded.choices.len(), 1);
    assert_eq!(decoded.choices[0].message.content, "body");
    assert_eq!(decoded.usage.total_tokens, 3);
}

#[test]
pub fn llm_agent() {
    let llm_agent = sample_agent();

    let mut agent_swarm = Swarm::default();
    agent_swarm.register_agent(&llm_agent.get_id(), Agent::Llm(llm_agent));

    let mut prompt = LLMPrompt::new();
    prompt.add_content("content", "Agentic AI refers to autonomous systems.");

    let action = Action::new("llm-summarizer.execute", &prompt);
    let output = agent_swarm.execute_action(&action);

    if output.is_success() {
        println!("SUCCESS");
    } else {
        println!("ERROR : {}", output.get_error_message());
    }
    assert!(!output.is_success());
    assert_eq!(output.get_error_message(), "Unable to get summary");

    // A payload of the wrong shape is reported distinctly.
    let action = Action::from_value("llm-summarizer.execute", JsonValue::Int(5));
    let output = agent_swarm.execute_action(&action);
    assert_eq!(output.get_error_message(), "Unable to get payload");
}
