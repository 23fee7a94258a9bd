//! What can go wrong when a tool is invoked, and the text shown for it.

use vstd::prelude::*;
use vstd::string::StringExecFns;

verus! {

/// Why an invocation produced no tool output.
#[derive(Debug)]
pub enum ToolError {
    /// No tool of that name is registered.
    UnknownTool(String),
    /// A required argument without a default was not supplied.
    MissingRequiredArgument(String),
    /// The canonical arguments do not fit the tool's typed arguments.
    ArgumentDecode(String),
    /// The tool itself failed.
    Execution(String),
    /// The text holds neither an invocation nor a document marker.
    NoDirective,
}

/// The mathematical content of a [`ToolError`].
pub enum ToolFault {
    UnknownTool(Seq<char>),
    MissingRequiredArgument(Seq<char>),
    ArgumentDecode(Seq<char>),
    Execution(Seq<char>),
    NoDirective,
}

impl View for ToolError {
    type V = ToolFault;

    open spec fn view(&self) -> ToolFault {
        match self {
            ToolError::UnknownTool(name) => ToolFault::UnknownTool(name@),
            ToolError::MissingRequiredArgument(name) => ToolFault::MissingRequiredArgument(name@),
            ToolError::ArgumentDecode(text) => ToolFault::ArgumentDecode(text@),
            ToolError::Execution(text) => ToolFault::Execution(text@),
            ToolError::NoDirective => ToolFault::NoDirective,
        }
    }
}

/// What an invocation came to: the tool's output, or why there is none.
pub open spec fn outcome_model(outcome: Result<String, ToolError>) -> Result<Seq<char>, ToolFault> {
    match outcome {
        Ok(said) => Ok(said@),
        Err(e) => Err(e@),
    }
}

/// What is said to the model when its turn holds no usable directive.
pub open spec fn no_directive_text() -> Seq<char> {
    "\nI cannot find correct tool name or arguments in the request.\nPlease check the format of the request and try again.\n\nIf you think you have finished your task and want to stop,\nplease just output a special token [[[[DONE]]]].\n\nOtherwise, please either continue to use the tool with [[[[INVOKE]]]] or\nwrite the documentation with [[[[DOCUMENT]]]] without outputting any [[[[DONE]]]].\n"@
}

impl ToolFault {
    /// The text of the error.
    pub open spec fn text(self) -> Seq<char> {
        match self {
            ToolFault::UnknownTool(name) => "Unknown tool: "@ + name,
            ToolFault::MissingRequiredArgument(name) => "Missing required argument: "@ + name,
            ToolFault::ArgumentDecode(text) => text,
            ToolFault::Execution(text) => text,
            ToolFault::NoDirective => no_directive_text(),
        }
    }
}

impl ToolError {
    /// The text of the error, as it is shown to the model.
    pub fn message(&self) -> (r: String)
        ensures
            r@ == self@.text(),
    {
        match self {
            ToolError::UnknownTool(name) => {
                let mut text = String::from_str("Unknown tool: ");
                text.append(name.as_str());
                text
            },
            ToolError::MissingRequiredArgument(name) => {
                let mut text = String::from_str("Missing required argument: ");
                text.append(name.as_str());
                text
            },
            ToolError::ArgumentDecode(text) => text.clone(),
            ToolError::Execution(text) => text.clone(),
            ToolError::NoDirective => String::from_str(
                "\nI cannot find correct tool name or arguments in the request.\nPlease check the format of the request and try again.\n\nIf you think you have finished your task and want to stop,\nplease just output a special token [[[[DONE]]]].\n\nOtherwise, please either continue to use the tool with [[[[INVOKE]]]] or\nwrite the documentation with [[[[DOCUMENT]]]] without outputting any [[[[DONE]]]].\n",
            ),
        }
    }
}

} // verus!
