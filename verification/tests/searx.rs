//! The search agent: URL building, result parsing, and the full dispatch.

use swarm_rs::json::JsonValue;
use swarm_rs::searx_agent::searx::{
    build_search_url, engine_body_to_results, get_json_string_property_value, SearxQuery,
};
use swarm_rs::searx_agent::searx_agent::{SearchQuery, SearxAgent};
use swarm_rs::swarm::{Agent, Swarm};

#[test]
fn search_url_for_a_plain_query() {
    let q = SearxQuery::new("agentic ai");
    assert_eq!(
        build_search_url("http://engine", &q),
        "http://engine/search?q=agentic ai&format=json"
    );
}

#[test]
fn search_url_carries_site_lang_engines_and_page() {
    let mut q = SearxQuery::new("rust").in_website("example.org").fetch_page(2);
    q.set_lang("en");
    q.engines.push("ddg".to_string());
    q.engines.push("brave".to_string());
    assert_eq!(
        build_search_url("http://engine", &q),
        "http://engine/search?q=site:example.org%20&language=enrust&format=json&engines=ddg,brave&pageno=3"
    );
}

#[test]
fn engine_body_results_are_read_entry_by_entry() {
    let entry = JsonValue::Obj(vec![
        ("title".to_string(), JsonValue::Str("A title".to_string())),
        ("content".to_string(), JsonValue::Str("Some content".to_string())),
        ("url".to_string(), JsonValue::Str("http://a".to_string())),
        ("engine".to_string(), JsonValue::Str("ddg".to_string())),
        ("publishedDate".to_string(), JsonValue::Str("2024-01-01".to_string())),
    ]);
    let body = JsonValue::Obj(vec![("results".to_string(), JsonValue::Arr(vec![entry]))]);
    let resp = engine_body_to_results(&body);
    assert!(resp.success);
    assert_eq!(resp.results.len(), 1);
    assert_eq!(resp.results[0].title, "A title");
    assert_eq!(resp.results[0].published_date, "2024-01-01");
}

#[test]
fn engine_body_without_results_fails() {
    let body = JsonValue::Obj(vec![("error".to_string(), JsonValue::Str("down".to_string()))]);
    let resp = engine_body_to_results(&body);
    assert!(!resp.success);
    assert!(resp.results.is_empty());
}

#[test]
fn missing_string_properties_fall_back_to_the_default() {
    let obj = JsonValue::Obj(vec![("title".to_string(), JsonValue::Int(3))]);
    assert_eq!(get_json_string_property_value(&obj, "title", "d"), "d");
    assert_eq!(get_json_string_property_value(&obj, "absent", "d"), "d");
}

#[test]
pub fn searx_agent() {
    // The backend endpoint is a closed local port, so the search fails and
    // the agent reports the search error.
    let searx_agent = SearxAgent::new("searx_ng", "http://127.0.0.1:9", Vec::new());
    let mut agent_swarm = Swarm::new();
    agent_swarm.register_agent(&searx_agent.get_id(), Agent::Searx(searx_agent));

    let text = r#"what is agentic ai system"#;

    let query = SearchQuery {
        terms: text.to_string(),
        lang: None,
    };

    let output = agent_swarm.execute("searx_ng.search", &query);

    if output.is_success() {
        println!("SUCCESS");
    } else {
        println!("ERROR : {}", output.get_error_message());
    }
    assert!(!output.is_success());
    assert_eq!(output.get_error_message(), "Search Error");
}
