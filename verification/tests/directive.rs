use serde_json::Value;
use tool_agent::agent::Agent;
use tool_agent::directive::{
    advance, ends_task, frame_tool_output, invoke_tool, parse_invocation, parse_tool_invoke_json,
    DirectiveError, Turn,
};
use tool_agent::error::ToolError;
use tool_agent::schema::{ToolArgument, ToolSchema};
use tool_agent::toolset::{Tool, ToolSet};

fn parse(text: &str) -> Value {
    serde_json::from_str(text).unwrap()
}

struct Recorder {
    schema: ToolSchema,
    seen: Vec<Value>,
    fails: bool,
}

impl Tool for Recorder {
    fn get_schema(&self) -> &ToolSchema {
        &self.schema
    }

    fn invoke(&mut self, args: &Value) -> Result<String, ToolError> {
        self.seen.push(args.clone());
        if self.fails {
            Err(ToolError::Execution(format!("{} failed", self.schema.name)))
        } else {
            Ok(format!("{} ran on {}", self.schema.name, args))
        }
    }
}

fn recorder(name: &str, fails: bool) -> Recorder {
    Recorder {
        schema: ToolSchema {
            name: name.to_string(),
            help: "Records its arguments.".to_string(),
            arguments: vec![
                ToolArgument {
                    name: "path".to_string(),
                    help: "A path.".to_string(),
                    type_: "String".to_string(),
                    required: true,
                    default: Value::Null,
                    example: parse("\"/path\""),
                },
                ToolArgument {
                    name: "depth".to_string(),
                    help: "A depth.".to_string(),
                    type_: "u32".to_string(),
                    required: false,
                    default: parse("4"),
                    example: Value::Null,
                },
            ],
        },
        seen: Vec::new(),
        fails,
    }
}

fn toolset() -> ToolSet<Recorder> {
    let mut set = ToolSet::new();
    set.register_tool(recorder("read", false));
    set.register_tool(recorder("tree", false));
    set.register_tool(recorder("broken", true));
    set
}

fn agent() -> Agent {
    let config = parse(r#"{"url": "http://host/v1/chat/completions", "token": "t", "model": "m"}"#);
    Agent::new(&config, None).unwrap()
}

fn history(agent: &Agent) -> Vec<Value> {
    agent.request_payload()["messages"].as_array().unwrap().clone()
}

fn message(role: &str, content: &str) -> Value {
    let mut map = serde_json::Map::new();
    map.insert("role".to_string(), Value::String(role.to_string()));
    map.insert("content".to_string(), Value::String(content.to_string()));
    Value::Object(map)
}

const DOCUMENTED: &str = "File has been documented. Please keep up the good work!\n\nOr, if you think you have finished your task and want to stop,\nplease just output a special token [[[[DONE]]]].";

#[test]
fn the_last_heading_counts() {
    let text = "First I could read:\n[[[[INVOKE]]]]\n```json\n{\"read\":{\"path\":\"/a\"}}\n```\nbut I will list:\n[[[[INVOKE]]]]\n```json\n{\"tree\":{\"path\":\"/b\"}}\n```\n";
    let (tool, args) = parse_tool_invoke_json(text).unwrap();
    assert_eq!(tool, "tree");
    assert_eq!(args, parse(r#"{"path":"/b"}"#));
}

#[test]
fn two_top_level_keys_fail() {
    let text = "[[[[INVOKE]]]]\n```json\n{\"read\":{\"path\":\"/a\"},\"tree\":{\"path\":\"/b\"}}\n```";
    assert_eq!(parse_tool_invoke_json(text).unwrap_err(), DirectiveError::NotOneTool);
}

#[test]
fn no_key_fails() {
    let text = "[[[[INVOKE]]]]\n```json\n{}\n```";
    assert_eq!(parse_tool_invoke_json(text).unwrap_err(), DirectiveError::NotOneTool);
}

#[test]
fn directive_errors_by_input() {
    let cases = [
        ("just text", DirectiveError::MissingHeading),
        ("```json\n{\"read\":{}}\n```", DirectiveError::MissingHeading),
        ("[[[[INVOKE]]]]\n{\"read\":{}}", DirectiveError::MissingFenceOpen),
        ("```json\n{}\n```\n[[[[INVOKE]]]]\nnothing", DirectiveError::MissingFenceOpen),
        ("[[[[INVOKE]]]]\n```\n{\"read\":{}}\n```", DirectiveError::MissingFenceOpen),
        ("[[[[INVOKE]]]]\n```json\n{\"read\":{}}\n", DirectiveError::MissingFenceClose),
        ("[[[[INVOKE]]]]\n```json\n{\"read\":\n```", DirectiveError::InvalidJson),
        ("[[[[INVOKE]]]]\n```json\n\n```", DirectiveError::InvalidJson),
        ("[[[[INVOKE]]]]\n```json\n[\"read\"]\n```", DirectiveError::NotAnObject),
        ("[[[[INVOKE]]]]\n```json\n\"read\"\n```", DirectiveError::NotAnObject),
        ("[[[[INVOKE]]]]\n```json\n{\"a\":1,\"b\":2,\"c\":3}\n```", DirectiveError::NotOneTool),
    ];
    for (text, fault) in cases {
        assert_eq!(parse_tool_invoke_json(text).unwrap_err(), fault, "{}", text);
    }
}

#[test]
fn the_block_runs_to_the_last_fence() {
    let text = "[[[[INVOKE]]]]\n```json\n{\"read\":{\"path\":\"/a\"}}\n```\nand then\n```";
    assert_eq!(parse_tool_invoke_json(text).unwrap_err(), DirectiveError::InvalidJson);
}

#[test]
fn the_block_starts_at_the_first_json_fence() {
    let text = "[[[[INVOKE]]]]\n```json\n{\"note\":\"```json\"}\n```";
    let (tool, args) = parse_tool_invoke_json(text).unwrap();
    assert_eq!(tool, "note");
    assert_eq!(args, parse("\"```json\""));
}

#[test]
fn arguments_of_any_type_are_handed_on() {
    let text = "[[[[INVOKE]]]]```json{\"tool\":[1,2.5,\"x\",null,{\"k\":true}]}```";
    let (tool, args) = parse_tool_invoke_json(text).unwrap();
    assert_eq!(tool, "tool");
    assert_eq!(args, parse(r#"[1,2.5,"x",null,{"k":true}]"#));
}

#[test]
fn text_outside_ascii_around_the_directive() {
    let text = "gr\u{fc}\u{df}e \u{1f600}\n[[[[INVOKE]]]]\n```json\n{\"r\u{e9}ad\":{\"path\":\"/\u{e4}\"}}\n```\n\u{2026}";
    let (tool, args) = parse_tool_invoke_json(text).unwrap();
    assert_eq!(tool, "r\u{e9}ad");
    assert_eq!(args, parse("{\"path\":\"/\u{e4}\"}"));
}

#[test]
fn directive_error_messages() {
    assert_eq!(
        DirectiveError::MissingHeading.message(),
        "Invalid input. Cannot find invoke heading of [[[[INVOKE]]]]"
    );
    assert_eq!(
        DirectiveError::MissingFenceOpen.message(),
        "Invalid input. Cannot find invoke begin of \"```json\"."
    );
    assert_eq!(
        DirectiveError::MissingFenceClose.message(),
        "Invalid input. Cannot find invoke end of \"```\"."
    );
    assert_eq!(DirectiveError::InvalidJson.message(), "Input is not valid JSON");
    assert_eq!(DirectiveError::NotAnObject.message(), "Input is not a valid JSON object");
    assert_eq!(
        DirectiveError::NotOneTool.message(),
        "Invalid input. You can only call one tool at a time."
    );
}

#[test]
fn parsed_invocation_reparses_to_itself() {
    let doc = parse(r#"{"tree":{"path":"/b","depth":2,"filters":["*.rs",null,true]}}"#);
    let (tool, args) = parse_invocation(&doc).unwrap();
    let mut map = serde_json::Map::new();
    map.insert(tool.clone(), args.clone());
    let again = Value::Object(map);
    assert_eq!(again, doc);
    let (tool2, args2) = parse_invocation(&again).unwrap();
    assert_eq!(tool2, tool);
    assert_eq!(args2, args);
}

#[test]
fn directive_written_out_and_parsed_again_is_the_same() {
    let first = "Listing now.\n[[[[INVOKE]]]]\n```json\n{\"tree\": {\"path\": \"/b\", \"depth\": 2}}\n```\n";
    let (tool, args) = parse_tool_invoke_json(first).unwrap();
    let mut map = serde_json::Map::new();
    map.insert(tool.clone(), args.clone());
    let second = format!(
        "[[[[INVOKE]]]]\n```json\n{}\n```",
        serde_json::to_string_pretty(&Value::Object(map)).unwrap()
    );
    let (tool2, args2) = parse_tool_invoke_json(&second).unwrap();
    assert_eq!(tool2, tool);
    assert_eq!(args2, args);
}

#[test]
fn invoke_tool_runs_the_named_tool_on_canonical_arguments() {
    let mut set = toolset();
    let out = invoke_tool(
        &mut set,
        "[[[[INVOKE]]]]\n```json\n{\"tree\":{\"path\":\"/b\",\"other\":1}}\n```",
    )
    .unwrap();
    assert_eq!(out, "tree ran on {\"depth\":4,\"path\":\"/b\"}");
    assert_eq!(set.get_tools()[1].seen, vec![parse(r#"{"path":"/b","depth":4}"#)]);
    assert!(set.get_tools()[0].seen.is_empty());
    assert!(set.get_tools()[2].seen.is_empty());
}

#[test]
fn invoke_tool_hands_a_tool_failure_on() {
    let mut set = toolset();
    let err = invoke_tool(&mut set, "[[[[INVOKE]]]]```json{\"broken\":{\"path\":\"/b\"}}```")
        .unwrap_err();
    match err {
        ToolError::Execution(text) => assert_eq!(text, "broken failed"),
        other => panic!("wrong error: {:?}", other),
    }
}

#[test]
fn invoke_tool_reports_unknown_tool_and_missing_argument() {
    let mut set = toolset();
    let err = invoke_tool(&mut set, "[[[[INVOKE]]]]```json{\"frobnicate\":{}}```").unwrap_err();
    assert_eq!(err.message(), "Unknown tool: frobnicate");
    let err = invoke_tool(&mut set, "[[[[INVOKE]]]]```json{\"read\":{\"depth\":1}}```").unwrap_err();
    assert_eq!(err.message(), "Missing required argument: path");
    for tool in set.get_tools() {
        assert!(tool.seen.is_empty());
    }
}

#[test]
fn invoke_tool_acknowledges_a_documented_file() {
    let mut set = toolset();
    let out = invoke_tool(&mut set, "[[[[DOCUMENT]]]]\nsrc/lib.rs\n...").unwrap();
    assert_eq!(out, DOCUMENTED);
    let out = invoke_tool(
        &mut set,
        "[[[[DOCUMENT]]]]\n[[[[INVOKE]]]]\n```json\nnot json\n```",
    )
    .unwrap();
    assert_eq!(out, DOCUMENTED);
}

#[test]
fn invoke_tool_asks_for_a_directive() {
    let mut set = toolset();
    match invoke_tool(&mut set, "I am thinking.").unwrap_err() {
        ToolError::NoDirective => {}
        other => panic!("wrong error: {:?}", other),
    }
}

#[test]
fn frame_shows_output_and_failure() {
    assert_eq!(
        frame_tool_output(&Ok("listing".to_string())),
        "\n============= TOOL OUTPUT =============\nlisting\n"
    );
    assert_eq!(
        frame_tool_output(&Err(ToolError::UnknownTool("x".to_string()))),
        "\n============= TOOL OUTPUT =============\nError: Unknown tool: x\n"
    );
    assert_eq!(
        frame_tool_output(&Err(ToolError::Execution("no such file".to_string()))),
        "\n============= TOOL OUTPUT =============\nError: no such file\n"
    );
}

#[test]
fn ends_task_looks_at_the_trimmed_end() {
    assert!(ends_task("[[[[DONE]]]]"));
    assert!(ends_task("All files are documented.\n[[[[DONE]]]]\n\n  "));
    assert!(ends_task("x [[[[DONE]]]]\u{a0}\u{2003}"));
    assert!(!ends_task("[[[[DONE]]]] and more"));
    assert!(!ends_task("[[[DONE]]]"));
    assert!(!ends_task(""));
}

#[test]
fn advance_without_response_changes_nothing() {
    let mut agent = agent();
    let mut set = toolset();
    match advance(&mut agent, &mut set, None) {
        Turn::NoProgress => {}
        other => panic!("wrong turn: {:?}", other),
    }
    assert!(history(&agent).is_empty());
}

#[test]
fn advance_runs_an_invocation_and_records_both_messages() {
    let mut agent = agent();
    let mut set = toolset();
    let response = "[[[[INVOKE]]]]\n```json\n{\"read\":{\"path\":\"/a\"}}\n```";
    let said = match advance(&mut agent, &mut set, Some(response)) {
        Turn::Continue(said) => said,
        other => panic!("wrong turn: {:?}", other),
    };
    assert_eq!(
        said,
        "\n============= TOOL OUTPUT =============\nread ran on {\"depth\":4,\"path\":\"/a\"}\n"
    );
    assert_eq!(history(&agent), vec![message("assistant", response), message("user", &said)]);
}

#[test]
fn advance_shows_a_failure_to_the_model() {
    let mut agent = agent();
    let mut set = toolset();
    let response = "[[[[INVOKE]]]]\n```json\n{\"frobnicate\":{}}\n```";
    let said = match advance(&mut agent, &mut set, Some(response)) {
        Turn::Continue(said) => said,
        other => panic!("wrong turn: {:?}", other),
    };
    assert_eq!(said, "\n============= TOOL OUTPUT =============\nError: Unknown tool: frobnicate\n");
    assert_eq!(history(&agent), vec![message("assistant", response), message("user", &said)]);
}

#[test]
fn advance_ends_on_the_done_marker() {
    let mut agent = agent();
    let mut set = toolset();
    match advance(&mut agent, &mut set, Some("Everything is documented.\n[[[[DONE]]]]\n")) {
        Turn::Done => {}
        other => panic!("wrong turn: {:?}", other),
    }
    assert_eq!(
        history(&agent),
        vec![message("assistant", "Everything is documented.\n[[[[DONE]]]]\n")]
    );
}

#[test]
fn advance_prefers_an_invocation_over_the_done_marker() {
    let mut agent = agent();
    let mut set = toolset();
    let response = "[[[[INVOKE]]]]\n```json\n{\"read\":{\"path\":\"/a\"}}\n```\n[[[[DONE]]]]";
    match advance(&mut agent, &mut set, Some(response)) {
        Turn::Continue(_) => {}
        other => panic!("wrong turn: {:?}", other),
    }
    assert_eq!(set.get_tools()[0].seen.len(), 1);
}

#[test]
fn advance_corrects_a_turn_without_directive() {
    let mut agent = agent();
    let mut set = toolset();
    let said = match advance(&mut agent, &mut set, Some("Let me think about it.")) {
        Turn::Continue(said) => said,
        other => panic!("wrong turn: {:?}", other),
    };
    assert_eq!(
        said,
        format!(
            "\n============= TOOL OUTPUT =============\nError: {}\n",
            ToolError::NoDirective.message()
        )
    );
    assert_eq!(history(&agent).len(), 2);
}

#[test]
fn advance_acknowledges_a_documented_file() {
    let mut agent = agent();
    let mut set = toolset();
    let said = match advance(&mut agent, &mut set, Some("[[[[DOCUMENT]]]]\nsrc/lib.rs")) {
        Turn::Continue(said) => said,
        other => panic!("wrong turn: {:?}", other),
    };
    assert_eq!(said, format!("\n============= TOOL OUTPUT =============\n{}\n", DOCUMENTED));
}
