//! The two tools that come with the library, as far as their contracts go:
//! the schema of each, and the typed arguments that each is run with. Running
//! them is the caller's business.

use crate::error::{ToolError, ToolFault};
use crate::json::{
    json_as_str, json_as_u64, json_get, json_list, json_model, json_null, json_object, json_text,
    json_unsigned, list_models, model_get, model_text, model_unsigned, no_entries, object_insert,
    object_new, JsonModel, NumberModel,
};
use crate::schema::{
    canonical_entries, canonicalize_tool_args, ArgumentModel, SchemaModel, ToolArgument, ToolSchema,
};
use crate::toolset::ToolProtocol;
use vstd::prelude::*;
use vstd::string::StringExecFns;

verus! {

/// The arguments of the `read` tool.
#[derive(Debug)]
pub struct ReadArgs {
    /// The path to the file to read.
    pub path: String,
}

/// The arguments of the `tree` tool.
#[derive(Debug)]
pub struct TreeArgs {
    /// The path to the directory to list.
    pub path: String,
    /// The maximum depth to recurse into the directory.
    pub depth: u32,
}

/// The schema of the `read` tool.
pub open spec fn read_schema() -> SchemaModel {
    SchemaModel {
        name: "read"@,
        help: "Reads the contents of a text file."@,
        arguments: seq![
            ArgumentModel {
                name: "path"@,
                help: "The path to the file to read."@,
                type_: "String"@,
                required: true,
                default: JsonModel::Null,
                example: JsonModel::Text("/path/to/file"@),
            },
        ],
    }
}

/// The schema of the `tree` tool.
pub open spec fn tree_schema() -> SchemaModel {
    SchemaModel {
        name: "tree"@,
        help: "Lists the contents of a directory, optionally with the given recursive depth."@,
        arguments: seq![
            ArgumentModel {
                name: "path"@,
                help: "The path to the directory to list."@,
                type_: "String"@,
                required: true,
                default: JsonModel::Text("."@),
                example: JsonModel::Text("/path/to/directory"@),
            },
            ArgumentModel {
                name: "depth"@,
                help: "The maximum depth to recurse into the directory."@,
                type_: "u32"@,
                required: false,
                default: JsonModel::Number(NumberModel::Unsigned(4)),
                example: JsonModel::Number(NumberModel::Unsigned(3)),
            },
        ],
    }
}

/// The string under `key` of canonical arguments, or why there is none.
pub open spec fn text_argument(doc: JsonModel, key: Seq<char>) -> Option<Seq<char>> {
    match model_get(doc, key) {
        Some(v) => model_text(v),
        None => None,
    }
}

/// The 32-bit unsigned integer under `key` of canonical arguments, if there
/// is one.
pub open spec fn u32_argument(doc: JsonModel, key: Seq<char>) -> Option<u32> {
    match model_get(doc, key) {
        Some(v) => match model_unsigned(v) {
            Some(n) => if n <= u32::MAX {
                Some(n as u32)
            } else {
                None
            },
            None => None,
        },
        None => None,
    }
}

/// The text of the error for an argument that is missing or of another type.
pub open spec fn decode_fault(key: Seq<char>, expected: Seq<char>) -> Seq<char> {
    "invalid or missing field `"@ + key + "`, expected "@ + expected
}

/// The error for an argument that is missing or of another type.
fn decode_error(key: &str, expected: &str) -> (r: ToolError)
    ensures
        r@ == ToolFault::ArgumentDecode(decode_fault(key@, expected@)),
{
    let mut text = String::from_str("invalid or missing field `");
    text.append(key);
    text.append("`, expected ");
    text.append(expected);
    ToolError::ArgumentDecode(text)
}

/// Reads the string under `key`.
fn decode_text(args: &serde_json::Value, key: &str) -> (r: Result<String, ToolError>)
    ensures
        match text_argument(json_model(*args), key@) {
            Some(text) => r matches Ok(s) && s@ == text,
            None => r matches Err(e) && e@ == ToolFault::ArgumentDecode(
                decode_fault(key@, "a string"@),
            ),
        },
{
    match json_get(args, key) {
        Some(v) => match json_as_str(v) {
            Some(s) => Ok(String::from_str(s)),
            None => Err(decode_error(key, "a string")),
        },
        None => Err(decode_error(key, "a string")),
    }
}

/// Reads the 32-bit unsigned integer under `key`.
fn decode_u32(args: &serde_json::Value, key: &str) -> (r: Result<u32, ToolError>)
    ensures
        match u32_argument(json_model(*args), key@) {
            Some(n) => r == Ok::<u32, ToolError>(n),
            None => r matches Err(e) && e@ == ToolFault::ArgumentDecode(
                decode_fault(key@, "u32"@),
            ),
        },
{
    match json_get(args, key) {
        Some(v) => match json_as_u64(v) {
            Some(n) => if n <= 0xffff_ffff {
                Ok(n as u32)
            } else {
                Err(decode_error(key, "u32"))
            },
            None => Err(decode_error(key, "u32")),
        },
        None => Err(decode_error(key, "u32")),
    }
}

impl ToolProtocol<ReadArgs> for ReadArgs {
    open spec fn schema() -> SchemaModel {
        read_schema()
    }

    open spec fn decode_refusal(schema: SchemaModel, args: JsonModel) -> Option<ToolFault> {
        match text_argument(args, "path"@) {
            Some(_) => None,
            None => Some(ToolFault::ArgumentDecode(decode_fault("path"@, "a string"@))),
        }
    }

    open spec fn decodes(schema: SchemaModel, args: JsonModel, value: ReadArgs) -> bool {
        text_argument(args, "path"@) == Some(value.path@)
    }

    fn create_schema() -> (s: ToolSchema)
        ensures
            s@ == read_schema(),
            s@.wf(),
    {
        let mut arguments: Vec<ToolArgument> = Vec::new();
        arguments.push(
            ToolArgument {
                name: String::from_str("path"),
                help: String::from_str("The path to the file to read."),
                type_: String::from_str("String"),
                required: true,
                default: json_null(),
                example: json_text(String::from_str("/path/to/file")),
            },
        );
        let s = ToolSchema {
            name: String::from_str("read"),
            help: String::from_str("Reads the contents of a text file."),
            arguments,
        };
        proof {
            reveal_strlit("read");
            assert(s@.arguments =~= read_schema().arguments);
        }
        s
    }

    fn decode(schema: &ToolSchema, args: &serde_json::Value) -> (r: Result<ReadArgs, ToolError>)
        ensures
            match text_argument(json_model(*args), "path"@) {
                Some(path) => r matches Ok(read) && read.path@ == path,
                None => r matches Err(e) && e@ is ArgumentDecode,
            },
    {
        match decode_text(args, "path") {
            Ok(path) => Ok(ReadArgs { path }),
            Err(e) => Err(e),
        }
    }
}

impl ToolProtocol<TreeArgs> for TreeArgs {
    open spec fn schema() -> SchemaModel {
        tree_schema()
    }

    open spec fn decode_refusal(schema: SchemaModel, args: JsonModel) -> Option<ToolFault> {
        match text_argument(args, "path"@) {
            None => Some(ToolFault::ArgumentDecode(decode_fault("path"@, "a string"@))),
            Some(_) => match u32_argument(args, "depth"@) {
                None => Some(ToolFault::ArgumentDecode(decode_fault("depth"@, "u32"@))),
                Some(_) => None,
            },
        }
    }

    open spec fn decodes(schema: SchemaModel, args: JsonModel, value: TreeArgs) -> bool {
        text_argument(args, "path"@) == Some(value.path@) && u32_argument(args, "depth"@) == Some(
            value.depth,
        )
    }

    fn create_schema() -> (s: ToolSchema)
        ensures
            s@ == tree_schema(),
            s@.wf(),
    {
        let mut arguments: Vec<ToolArgument> = Vec::new();
        arguments.push(
            ToolArgument {
                name: String::from_str("path"),
                help: String::from_str("The path to the directory to list."),
                type_: String::from_str("String"),
                required: true,
                default: json_text(String::from_str(".")),
                example: json_text(String::from_str("/path/to/directory")),
            },
        );
        arguments.push(
            ToolArgument {
                name: String::from_str("depth"),
                help: String::from_str("The maximum depth to recurse into the directory."),
                type_: String::from_str("u32"),
                required: false,
                default: json_unsigned(4),
                example: json_unsigned(3),
            },
        );
        let s = ToolSchema {
            name: String::from_str("tree"),
            help: String::from_str(
                "Lists the contents of a directory, optionally with the given recursive depth.",
            ),
            arguments,
        };
        proof {
            reveal_strlit("tree");
            assert(s@.arguments =~= tree_schema().arguments);
        }
        s
    }

    fn decode(schema: &ToolSchema, args: &serde_json::Value) -> (r: Result<TreeArgs, ToolError>)
        ensures
            match (
                text_argument(json_model(*args), "path"@),
                u32_argument(json_model(*args), "depth"@),
            ) {
                (Some(path), Some(depth)) => r matches Ok(tree) && tree.path@ == path && tree.depth
                    == depth,
                _ => r matches Err(e) && e@ is ArgumentDecode,
            },
    {
        let path = match decode_text(args, "path") {
            Ok(path) => path,
            Err(e) => {
                return Err(e);
            },
        };
        match decode_u32(args, "depth") {
            Ok(depth) => Ok(TreeArgs { path, depth }),
            Err(e) => Err(e),
        }
    }
}

/// One node of a directory listing: its name, its path, whether it is a
/// directory or a file, and for a directory that has any, its children.
pub open spec fn tree_node_model(
    name: Seq<char>,
    path: Seq<char>,
    is_directory: bool,
    children: Seq<JsonModel>,
) -> JsonModel {
    let base = no_entries().insert("name"@, JsonModel::Text(name)).insert(
        "path"@,
        JsonModel::Text(path),
    ).insert(
        "type"@,
        JsonModel::Text(
            if is_directory {
                "directory"@
            } else {
                "file"@
            },
        ),
    );
    JsonModel::Object(
        if is_directory && children.len() > 0 {
            base.insert("children"@, JsonModel::List(children))
        } else {
            base
        },
    )
}

/// Builds one node of a directory listing.
pub fn tree_node(name: &str, path: &str, is_directory: bool, children: Vec<serde_json::Value>) -> (r:
    serde_json::Value)
    ensures
        json_model(r) == tree_node_model(name@, path@, is_directory, list_models(children@)),
{
    let mut node = object_new();
    object_insert(&mut node, String::from_str("name"), json_text(String::from_str(name)));
    object_insert(&mut node, String::from_str("path"), json_text(String::from_str(path)));
    let kind = if is_directory {
        "directory"
    } else {
        "file"
    };
    object_insert(&mut node, String::from_str("type"), json_text(String::from_str(kind)));
    if is_directory && children.len() > 0 {
        object_insert(&mut node, String::from_str("children"), json_list(children));
    }
    json_object(node)
}

/// The `read` tool: reads the contents of a text file.
#[derive(Debug)]
pub struct Read {
    schema: ToolSchema,
}

/// The `tree` tool: lists the contents of a directory.
#[derive(Debug)]
pub struct Tree {
    schema: ToolSchema,
}

impl Read {
    /// The schema that the tool holds.
    pub closed spec fn schema(&self) -> SchemaModel {
        self.schema@
    }

    /// The tool with its schema.
    pub fn create() -> (r: Read)
        ensures
            r.schema() == read_schema(),
    {
        Read { schema: ReadArgs::create_schema() }
    }

    /// The schema of the tool.
    pub fn get_schema(&self) -> (s: &ToolSchema)
        ensures
            s@ == self.schema(),
    {
        &self.schema
    }

    /// Reads the tool's typed arguments from a caller's raw arguments: brings
    /// them into canonical shape, then decodes them.
    pub fn parse_args(&self, args: &serde_json::Value) -> (r: Result<ReadArgs, ToolError>)
        ensures
            match canonical_entries(self.schema().arguments, json_model(*args)) {
                Err(name) => r matches Err(e) && e@ == ToolFault::MissingRequiredArgument(name),
                Ok(entries) => match text_argument(JsonModel::Object(entries), "path"@) {
                    Some(path) => r matches Ok(read) && read.path@ == path,
                    None => r matches Err(e) && e@ is ArgumentDecode,
                },
            },
    {
        match canonicalize_tool_args(&self.schema, args) {
            Ok(canonical) => ReadArgs::decode(&self.schema, &canonical),
            Err(e) => Err(e),
        }
    }
}

impl Tree {
    /// The schema that the tool holds.
    pub closed spec fn schema(&self) -> SchemaModel {
        self.schema@
    }

    /// The tool with its schema.
    pub fn create() -> (r: Tree)
        ensures
            r.schema() == tree_schema(),
    {
        Tree { schema: TreeArgs::create_schema() }
    }

    /// The schema of the tool.
    pub fn get_schema(&self) -> (s: &ToolSchema)
        ensures
            s@ == self.schema(),
    {
        &self.schema
    }

    /// Reads the tool's typed arguments from a caller's raw arguments: brings
    /// them into canonical shape, then decodes them.
    pub fn parse_args(&self, args: &serde_json::Value) -> (r: Result<TreeArgs, ToolError>)
        ensures
            match canonical_entries(self.schema().arguments, json_model(*args)) {
                Err(name) => r matches Err(e) && e@ == ToolFault::MissingRequiredArgument(name),
                Ok(entries) => match (
                    text_argument(JsonModel::Object(entries), "path"@),
                    u32_argument(JsonModel::Object(entries), "depth"@),
                ) {
                    (Some(path), Some(depth)) => r matches Ok(tree) && tree.path@ == path
                        && tree.depth == depth,
                    _ => r matches Err(e) && e@ is ArgumentDecode,
                },
            },
    {
        match canonicalize_tool_args(&self.schema, args) {
            Ok(canonical) => TreeArgs::decode(&self.schema, &canonical),
            Err(e) => Err(e),
        }
    }
}

} // verus!
