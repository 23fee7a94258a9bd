use serde_json::Value;
use tool_agent::agent::Agent;
use tool_agent::command::{
    input_complete, parse_command, parse_setting, parse_u64, set_args, setting_by_name, Command,
    Setting,
};

fn parse(text: &str) -> Value {
    serde_json::from_str(text).unwrap()
}

fn agent() -> Agent {
    Agent::new(&parse(r#"{"url": "u", "token": "t", "model": "m"}"#), None).unwrap()
}

fn settings(agent: &Agent) -> Value {
    Value::Object(agent.get_config().clone())
}

fn fraction(text: &str) -> Option<Value> {
    text.parse::<f64>().ok().map(Value::from)
}

#[test]
fn unsigned_numbers_are_read_as_the_standard_library_reads_them() {
    for text in [
        "0",
        "7",
        "42",
        "+42",
        "007",
        "18446744073709551615",
        "18446744073709551616",
        "000018446744073709551615",
        "99999999999999999999999",
        "",
        "+",
        "-",
        "-1",
        "++1",
        "+-1",
        "1+",
        " 1",
        "1 ",
        "1_000",
        "1.0",
        "1e3",
        "0x10",
        "\u{661}",
        "12a",
    ] {
        assert_eq!(parse_u64(text), text.parse::<u64>().ok(), "{:?}", text);
    }
}

#[test]
fn unsigned_number_values() {
    assert_eq!(parse_u64("4096"), Some(4096));
    assert_eq!(parse_u64("+0"), Some(0));
    assert_eq!(parse_u64("18446744073709551615"), Some(u64::MAX));
    assert_eq!(parse_u64("18446744073709551616"), None);
}

#[test]
fn settings_by_name() {
    assert_eq!(parse_setting("model"), Some(Setting::Model));
    assert_eq!(parse_setting("temperature"), Some(Setting::Temperature));
    assert_eq!(parse_setting("temp"), Some(Setting::Temperature));
    assert_eq!(parse_setting("top_p"), Some(Setting::TopP));
    assert_eq!(parse_setting("top_k"), Some(Setting::TopK));
    assert_eq!(parse_setting("frequency_penalty"), Some(Setting::FrequencyPenalty));
    assert_eq!(parse_setting("max_tokens"), Some(Setting::MaxTokens));
    assert_eq!(parse_setting("  top_k\t"), Some(Setting::TopK));
    assert_eq!(parse_setting("Model"), None);
    assert_eq!(parse_setting("stream"), None);
    assert_eq!(parse_setting(""), None);
}

#[test]
fn set_args_changes_each_setting() {
    let mut chat = agent();
    assert_eq!(set_args(&mut chat, "model", "m-2", fraction("m-2")), None);
    assert_eq!(set_args(&mut chat, "temp", "0.5", fraction("0.5")), None);
    assert_eq!(set_args(&mut chat, "top_p", "0.25", fraction("0.25")), None);
    assert_eq!(set_args(&mut chat, "top_k", "40", fraction("40")), None);
    assert_eq!(set_args(&mut chat, "frequency_penalty", "2", fraction("2")), None);
    assert_eq!(set_args(&mut chat, " max_tokens ", "100", fraction("100")), None);
    assert_eq!(
        settings(&chat),
        parse(
            r#"{"model": "m-2", "stream": true, "max_tokens": 100, "temperature": 0.5,
                "top_p": 0.25, "top_k": 40, "frequency_penalty": 2.0}"#
        )
    );
}

#[test]
fn set_args_refuses_and_changes_nothing() {
    let mut chat = agent();
    let before = settings(&chat);
    assert_eq!(
        set_args(&mut chat, "top_k", "many", fraction("many")),
        Some("Invalid top_k value: many".to_string())
    );
    assert_eq!(
        set_args(&mut chat, "top_k", "1.5", fraction("1.5")),
        Some("Invalid top_k value: 1.5".to_string())
    );
    assert_eq!(
        set_args(&mut chat, "max_tokens", "-1", fraction("-1")),
        Some("Invalid max_tokens value: -1".to_string())
    );
    assert_eq!(
        set_args(&mut chat, "temp", "warm", fraction("warm")),
        Some("Invalid temperature value: warm".to_string())
    );
    assert_eq!(
        set_args(&mut chat, "top_p", "", fraction("")),
        Some("Invalid top_p value: ".to_string())
    );
    assert_eq!(
        set_args(&mut chat, "frequency_penalty", "x", None),
        Some("Invalid frequency_penalty value: x".to_string())
    );
    assert_eq!(
        set_args(&mut chat, " colour ", "red", fraction("red")),
        Some("Unknown key:  colour ".to_string())
    );
    assert_eq!(settings(&chat), before);
}

#[test]
fn set_args_takes_any_text_for_the_model() {
    let mut chat = agent();
    assert_eq!(set_args(&mut chat, "model", "12", fraction("12")), None);
    assert_eq!(settings(&chat)["model"], parse("\"12\""));
}

fn said(command: Command) -> String {
    match command {
        Command::Say(text) => text,
        other => panic!("expected something said, got {:?}", other),
    }
}

#[test]
fn commands_by_line() {
    for line in [":exit", ":quit", ":q"] {
        assert!(matches!(parse_command(line), Command::Exit));
    }
    for line in [":list", ":l"] {
        assert!(matches!(parse_command(line), Command::ListModels));
    }
    for line in [":clear", ":c"] {
        assert!(matches!(parse_command(line), Command::Clear));
    }
    assert!(matches!(parse_command(":show"), Command::Show));
    assert!(matches!(parse_command(""), Command::Nothing));
}

#[test]
fn set_command_takes_two_words() {
    match parse_command(":set top_k 40") {
        Command::Change(key, value) => {
            assert_eq!(key, "top_k");
            assert_eq!(value, "40");
        }
        other => panic!("wrong command: {:?}", other),
    }
    match parse_command(":s   model \t m-2   and more") {
        Command::Change(key, value) => {
            assert_eq!(key, "model");
            assert_eq!(value, "m-2");
        }
        other => panic!("wrong command: {:?}", other),
    }
    assert!(matches!(parse_command(":set top_k"), Command::ChangeUsage));
    assert!(matches!(parse_command(":set "), Command::ChangeUsage));
    assert!(matches!(parse_command(":s  "), Command::ChangeUsage));
}

#[test]
fn anything_else_is_said() {
    assert_eq!(said(parse_command("hello")), "hello");
    assert_eq!(said(parse_command(":set")), ":set");
    assert_eq!(said(parse_command(":s")), ":s");
    assert_eq!(said(parse_command(":settings x y")), ":settings x y");
    assert_eq!(said(parse_command(":exit now")), ":exit now");
    assert_eq!(said(parse_command(" :exit")), " :exit");
    assert_eq!(said(parse_command(":Show")), ":Show");
}

#[test]
fn input_is_complete_at_a_command_or_an_empty_line() {
    assert!(input_complete(":exit\n"));
    assert!(input_complete("  \t:set top_k 1\n"));
    assert!(input_complete(":"));
    assert!(input_complete("one line\n\n"));
    assert!(input_complete("one\ntwo\n\n"));
    assert!(input_complete("\n\n"));
    assert!(!input_complete("one line\n"));
    assert!(!input_complete("one\ntwo\n"));
    assert!(!input_complete("say :exit\n"));
    assert!(!input_complete(""));
    assert!(!input_complete("\n"));
}

#[test]
fn setting_by_name_takes_the_name_as_it_is() {
    assert_eq!(setting_by_name("top_k"), Some(Setting::TopK));
    assert_eq!(setting_by_name("temp"), Some(Setting::Temperature));
    assert_eq!(setting_by_name(" top_k"), None);
    assert_eq!(setting_by_name("top_k "), None);
    assert_eq!(setting_by_name("top"), None);
}
