use serde_json::Value;
use tool_agent::error::ToolError;
use tool_agent::tools::{tree_node, Read, ReadArgs, Tree, TreeArgs};
use tool_agent::toolset::{create_schema, parse_args};

fn parse(text: &str) -> Value {
    serde_json::from_str(text).unwrap()
}

fn decode_fault<T: std::fmt::Debug>(result: Result<T, ToolError>) -> String {
    match result {
        Err(ToolError::ArgumentDecode(text)) => text,
        other => panic!("expected a decode error, got {:?}", other),
    }
}

#[test]
fn read_tool_schema() {
    let read = Read::create();
    assert_eq!(
        read.get_schema().get_help(),
        parse(
            r#"{
                "example": {"path": "/path/to/file"},
                "arguments": {
                    "path": {"type": "String", "required": true, "example": "/path/to/file"}
                }
            }"#
        )
    );
    assert_eq!(read.get_schema().name, "read");
    assert_eq!(read.get_schema().help, "Reads the contents of a text file.");
    assert_eq!(read.get_schema().arguments[0].help, "The path to the file to read.");
}

#[test]
fn tree_tool_schema() {
    let tree = Tree::create();
    assert_eq!(
        tree.get_schema().get_help(),
        parse(
            r#"{
                "example": {"path": "/path/to/directory", "depth": 3},
                "arguments": {
                    "path": {
                        "type": "String",
                        "required": true,
                        "default": ".",
                        "example": "/path/to/directory"
                    },
                    "depth": {"type": "u32", "required": false, "default": 4, "example": 3}
                }
            }"#
        )
    );
    assert_eq!(tree.get_schema().name, "tree");
    assert_eq!(
        tree.get_schema().help,
        "Lists the contents of a directory, optionally with the given recursive depth."
    );
}

#[test]
fn create_schema_gives_the_schema_of_the_arguments() {
    assert_eq!(create_schema::<ReadArgs>().name, "read");
    assert_eq!(create_schema::<TreeArgs>().name, "tree");
    assert_eq!(create_schema::<TreeArgs>().arguments.len(), 2);
}

#[test]
fn read_arguments_are_parsed() {
    let read = Read::create();
    let args = read.parse_args(&parse(r#"{"path": "/etc/hosts", "mode": "r"}"#)).unwrap();
    assert_eq!(args.path, "/etc/hosts");
    match read.parse_args(&parse("{}")).unwrap_err() {
        ToolError::MissingRequiredArgument(name) => assert_eq!(name, "path"),
        other => panic!("wrong error: {:?}", other),
    }
    assert_eq!(
        decode_fault(read.parse_args(&parse(r#"{"path": 7}"#))),
        "invalid or missing field `path`, expected a string"
    );
}

#[test]
fn tree_arguments_are_parsed() {
    let tree = Tree::create();
    let args = tree.parse_args(&parse("{}")).unwrap();
    assert_eq!(args.path, ".");
    assert_eq!(args.depth, 4);
    let args = tree.parse_args(&parse(r#"{"path": "/src", "depth": 0}"#)).unwrap();
    assert_eq!(args.path, "/src");
    assert_eq!(args.depth, 0);
    let args = tree.parse_args(&parse(r#"{"depth": 4294967295}"#)).unwrap();
    assert_eq!(args.depth, 4294967295);
}

#[test]
fn tree_arguments_of_another_type_are_refused() {
    let tree = Tree::create();
    for raw in [
        r#"{"depth": 4294967296}"#,
        r#"{"depth": -1}"#,
        r#"{"depth": 1.5}"#,
        r#"{"depth": "1"}"#,
        r#"{"depth": null}"#,
    ] {
        assert_eq!(
            decode_fault(tree.parse_args(&parse(raw))),
            "invalid or missing field `depth`, expected u32"
        );
    }
    assert_eq!(
        decode_fault(tree.parse_args(&parse(r#"{"path": ["/a"], "depth": "x"}"#))),
        "invalid or missing field `path`, expected a string"
    );
}

#[test]
fn parse_args_canonicalizes_then_decodes() {
    let schema = create_schema::<TreeArgs>();
    let args: TreeArgs = parse_args(&schema, &parse(r#"{"path": "/x"}"#)).unwrap();
    assert_eq!(args.path, "/x");
    assert_eq!(args.depth, 4);
    let schema = create_schema::<ReadArgs>();
    match parse_args::<ReadArgs>(&schema, &parse(r#"{"file": "/x"}"#)).unwrap_err() {
        ToolError::MissingRequiredArgument(name) => assert_eq!(name, "path"),
        other => panic!("wrong error: {:?}", other),
    }
}

#[test]
fn tree_nodes() {
    let file = tree_node("a.rs", "/src/a.rs", false, Vec::new());
    assert_eq!(file, parse(r#"{"name": "a.rs", "path": "/src/a.rs", "type": "file"}"#));
    let empty = tree_node("src", "/src", true, Vec::new());
    assert_eq!(empty, parse(r#"{"name": "src", "path": "/src", "type": "directory"}"#));
    let full = tree_node("src", "/src", true, vec![file.clone()]);
    assert_eq!(
        full,
        parse(
            r#"{"name": "src", "path": "/src", "type": "directory",
                "children": [{"name": "a.rs", "path": "/src/a.rs", "type": "file"}]}"#
        )
    );
    let odd = tree_node("a.rs", "/src/a.rs", false, vec![empty]);
    assert_eq!(odd, parse(r#"{"name": "a.rs", "path": "/src/a.rs", "type": "file"}"#));
}
