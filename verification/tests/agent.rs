use serde_json::Value;
use tool_agent::agent::{parse_model_list, read_model_list, Agent, ConfigError};

fn parse(text: &str) -> Value {
    serde_json::from_str(text).unwrap()
}

fn config(extra: &str) -> Value {
    parse(&format!(
        r#"{{"url": "https://host/v1/chat/completions", "token": "secret", "model": "m-1"{}}}"#,
        extra
    ))
}

fn agent(extra: &str) -> Agent {
    Agent::new(&config(extra), None).unwrap()
}

fn message(role: &str, content: &str) -> Value {
    let mut map = serde_json::Map::new();
    map.insert("role".to_string(), Value::String(role.to_string()));
    map.insert("content".to_string(), Value::String(content.to_string()));
    Value::Object(map)
}

fn messages(agent: &Agent) -> Vec<Value> {
    agent.request_payload()["messages"].as_array().unwrap().clone()
}

fn fault(config: &str, token: Option<&str>) -> ConfigError {
    match Agent::new(&parse(config), token.map(|t| t.to_string())) {
        Err(fault) => fault,
        Ok(_) => panic!("expected a refusal of {}", config),
    }
}

#[test]
fn new_agent_has_default_settings() {
    let agent = agent("");
    assert_eq!(agent.url(), "https://host/v1/chat/completions");
    assert_eq!(agent.token(), "secret");
    assert_eq!(
        Value::Object(agent.get_config().clone()),
        parse(r#"{"model": "m-1", "stream": true, "max_tokens": 4096}"#)
    );
    assert_eq!(
        agent.request_payload(),
        parse(r#"{"model": "m-1", "stream": true, "max_tokens": 4096, "messages": []}"#)
    );
}

#[test]
fn new_agent_takes_configured_settings() {
    let agent = agent(
        r#", "max_tokens": 100, "temperature": 0.5, "top_p": 0.9, "top_k": 40,
           "frequency_penalty": 1.5, "system_prompt": "Be brief.", "unknown": 1"#,
    );
    assert_eq!(
        agent.request_payload(),
        parse(
            r#"{"model": "m-1", "stream": true, "max_tokens": 100, "temperature": 0.5,
                "top_p": 0.9, "top_k": 40, "frequency_penalty": 1.5,
                "messages": [{"role": "system", "content": "Be brief."}]}"#
        )
    );
}

#[test]
fn new_agent_copies_optional_settings_of_any_type() {
    let agent = agent(r#", "temperature": null, "top_k": "many", "max_tokens": "lots""#);
    assert_eq!(
        Value::Object(agent.get_config().clone()),
        parse(r#"{"model": "m-1", "stream": true, "max_tokens": 4096, "temperature": null, "top_k": "many"}"#)
    );
}

#[test]
fn token_override_wins() {
    let agent = Agent::new(&config(""), Some("from-outside".to_string())).unwrap();
    assert_eq!(agent.token(), "from-outside");
    let agent = Agent::new(
        &parse(r#"{"url": "u", "model": "m"}"#),
        Some("from-outside".to_string()),
    )
    .unwrap();
    assert_eq!(agent.token(), "from-outside");
}

#[test]
fn config_errors_by_input() {
    assert_eq!(fault(r#"{"token": "t", "model": "m"}"#, None), ConfigError::MissingUrl);
    assert_eq!(fault(r#"{"url": 1, "token": "t", "model": "m"}"#, None), ConfigError::MissingUrl);
    assert_eq!(fault(r#"[]"#, Some("t")), ConfigError::MissingUrl);
    assert_eq!(fault(r#"{"url": "u", "model": "m"}"#, None), ConfigError::MissingToken);
    assert_eq!(fault(r#"{"url": "u", "token": null, "model": "m"}"#, None), ConfigError::MissingToken);
    assert_eq!(fault(r#"{"url": "u", "token": "t"}"#, None), ConfigError::MissingModel);
    assert_eq!(fault(r#"{"url": "u", "token": "t", "model": ["m"]}"#, None), ConfigError::MissingModel);
    assert_eq!(
        fault(r#"{"url": "u", "token": "t", "model": "m", "max_history": 0}"#, None),
        ConfigError::HistoryOutOfRange
    );
    assert_eq!(
        fault(r#"{"url": "u", "token": "t", "model": "m", "max_history": 1048577}"#, None),
        ConfigError::HistoryOutOfRange
    );
    assert_eq!(fault(r#"{}"#, None), ConfigError::MissingUrl);
}

#[test]
fn config_error_messages() {
    assert_eq!(ConfigError::Malformed.message(), "the configuration is not valid JSON");
    assert_eq!(ConfigError::MissingUrl.message(), "the configuration has no `url`");
    assert_eq!(ConfigError::MissingToken.message(), "the configuration has no `token`");
    assert_eq!(ConfigError::MissingModel.message(), "the configuration has no `model`");
    assert_eq!(ConfigError::HistoryOutOfRange.message(), "`max_history` is out of range");
}

#[test]
fn config_file_text_is_parsed() {
    let text = br#"{"url": "u", "token": "t", "model": "m", "max_history": 2}"#;
    let agent = Agent::new_with_config_file(text, None).unwrap();
    assert_eq!(agent.url(), "u");
    match Agent::new_with_config_file(b"{\"url\": ", None) {
        Err(fault) => assert_eq!(fault, ConfigError::Malformed),
        Ok(_) => panic!("expected a refusal"),
    }
    match Agent::new_with_config_file(b"{}", None) {
        Err(fault) => assert_eq!(fault, ConfigError::MissingUrl),
        Ok(_) => panic!("expected a refusal"),
    }
}

#[test]
fn history_keeps_messages_in_order() {
    let mut agent = agent("");
    agent.add_message("user", "one");
    agent.add_message("assistant", "two");
    agent.add_message("user", "three");
    assert_eq!(
        messages(&agent),
        vec![message("user", "one"), message("assistant", "two"), message("user", "three")]
    );
}

#[test]
fn history_keeps_the_last_messages_only() {
    for capacity in [1usize, 2, 3, 4, 5, 8] {
        for count in [capacity + 1, capacity + 2, 3 * capacity + 1] {
            let mut agent = agent(&format!(r#", "max_history": {}"#, capacity));
            let mut all = Vec::new();
            for i in 0..count {
                let role = if i % 2 == 0 { "user" } else { "assistant" };
                let content = format!("message {}", i);
                agent.add_message(role, &content);
                all.push(message(role, &content));
            }
            assert_eq!(messages(&agent), all[count - capacity..].to_vec());
        }
    }
}

#[test]
fn history_defaults_to_twenty_messages() {
    let mut agent = agent("");
    for i in 0..25 {
        agent.add_message("user", &format!("{}", i));
    }
    let kept = messages(&agent);
    assert_eq!(kept.len(), 20);
    assert_eq!(kept[0], message("user", "5"));
    assert_eq!(kept[19], message("user", "24"));
}

#[test]
fn system_message_comes_first_and_is_not_evicted() {
    let mut agent = agent(r#", "max_history": 2, "system_prompt": "Be brief.""#);
    for text in ["one", "two", "three"] {
        agent.add_message("user", text);
    }
    assert_eq!(
        messages(&agent),
        vec![message("system", "Be brief."), message("user", "two"), message("user", "three")]
    );
}

#[test]
fn clear_empties_the_history_only() {
    let mut agent = agent(r#", "max_history": 2, "system_prompt": "Be brief.", "top_k": 3"#);
    agent.add_message("user", "one");
    agent.add_message("user", "two");
    agent.clear_messages();
    assert_eq!(
        agent.request_payload(),
        parse(
            r#"{"model": "m-1", "stream": true, "max_tokens": 4096, "top_k": 3,
                "messages": [{"role": "system", "content": "Be brief."}]}"#
        )
    );
    agent.add_message("user", "three");
    agent.add_message("user", "four");
    agent.add_message("user", "five");
    assert_eq!(messages(&agent).len(), 3);
    assert_eq!(messages(&agent)[2], message("user", "five"));
}

#[test]
fn setters_change_one_setting() {
    let mut agent = agent("");
    agent.set_model("m-2");
    agent.set_top_k(7);
    agent.set_max_tokens(512);
    agent.set_temperature(Value::from(0.25));
    agent.set_top_p(Value::from(0.5));
    agent.set_frequency_penalty(Value::from(1.0));
    assert_eq!(
        Value::Object(agent.get_config().clone()),
        parse(
            r#"{"model": "m-2", "stream": true, "max_tokens": 512, "top_k": 7,
                "temperature": 0.25, "top_p": 0.5, "frequency_penalty": 1.0}"#
        )
    );
    agent.set_system_prompt("Be thorough.");
    assert_eq!(messages(&agent), vec![message("system", "Be thorough.")]);
    agent.set_system_prompt("");
    assert!(messages(&agent).is_empty());
}

#[test]
fn models_url_replaces_the_chat_path() {
    assert_eq!(agent("").models_url(), "https://host/v1/models");
    let other = Agent::new(&parse(r#"{"url": "https://host/api", "token": "t", "model": "m"}"#), None)
        .unwrap();
    assert_eq!(other.models_url(), "https://host/api");
}

#[test]
fn model_list_holds_the_trimmed_identifiers() {
    let body = br#"{"data": [{"id": " m-1 "}, {"id": "m-2\n"}, {"name": "x"}, {"id": 3}, "m-4", {"id": "m-5"}]}"#;
    assert_eq!(parse_model_list(body), vec!["m-1", "m-2", "m-5"]);
}

#[test]
fn unreadable_model_list_is_empty() {
    assert!(parse_model_list(b"not json").is_empty());
    assert!(parse_model_list(br#"{"data": {"id": "m"}}"#).is_empty());
    assert!(parse_model_list(br#"{"models": []}"#).is_empty());
    assert!(parse_model_list(br#"[{"id": "m"}]"#).is_empty());
    assert!(parse_model_list(br#"{"data": []}"#).is_empty());
}

#[test]
fn request_payload_leaves_the_settings_alone() {
    let mut agent = agent("");
    agent.add_message("user", "one");
    let first = agent.request_payload();
    assert_eq!(first["messages"].as_array().unwrap().len(), 1);
    assert!(agent.get_config().get("messages").is_none());
    assert_eq!(agent.request_payload(), first);
}

#[test]
fn model_list_is_read_from_a_parsed_listing() {
    let listing = parse(r#"{"object": "list", "data": [{"id": "a"}, {"id": "\tb "}, {"id": null}]}"#);
    assert_eq!(read_model_list(&listing), vec!["a", "b"]);
    assert!(read_model_list(&parse("null")).is_empty());
    assert!(read_model_list(&parse(r#"{"data": "a"}"#)).is_empty());
}
