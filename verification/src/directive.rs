//! The directive parser and the control loop.
//!
//! A turn of the model may hold a directive: an invocation heading, followed
//! by a fenced block of JSON that names one tool and gives its arguments. The
//! parser finds the last heading of a turn, so that headings which the model
//! shows earlier, in examples or restated instructions, do not count. The
//! control loop takes each turn of the model and decides what is said next.

use crate::agent::{message_model, Agent, AgentModel};
use crate::error::{outcome_model, ToolError, ToolFault};
use crate::json::{
    has_size, json_as_object, json_clone, json_from_slice, json_model, json_of_bytes, no_entries,
    object_entries, object_first, object_len, JsonModel,
};
use crate::ring::pushed;
use crate::stdtext::{str_trim, trimmed};
use crate::text::{
    contains, ends_with, find_first, find_last, first_occurrence, has_suffix, last_occurrence,
    occurs,
};
use crate::toolset::{Tool, ToolSet};
use vstd::prelude::*;
use vstd::slice::slice_subrange;
use vstd::string::StringExecFns;
use vstd::string::StringSliceAdditionalSpecFns;
use vstd::utf8::encode_utf8;

verus! {

/// Why a turn holds no invocation.
#[derive(Debug, Clone, Copy, PartialEq, Eq, Structural)]
pub enum DirectiveError {
    /// There is no invocation heading.
    MissingHeading,
    /// No JSON fence opens after the last heading.
    MissingFenceOpen,
    /// No fence closes the block.
    MissingFenceClose,
    /// The block is no JSON.
    InvalidJson,
    /// The block is JSON, but no object.
    NotAnObject,
    /// The object does not have exactly one key.
    NotOneTool,
}

impl DirectiveError {
    /// The text of the error.
    pub open spec fn text(self) -> Seq<char> {
        match self {
            DirectiveError::MissingHeading => "Invalid input. Cannot find invoke heading of [[[[INVOKE]]]]"@,
            DirectiveError::MissingFenceOpen => "Invalid input. Cannot find invoke begin of \"```json\"."@,
            DirectiveError::MissingFenceClose => "Invalid input. Cannot find invoke end of \"```\"."@,
            DirectiveError::InvalidJson => "Input is not valid JSON"@,
            DirectiveError::NotAnObject => "Input is not a valid JSON object"@,
            DirectiveError::NotOneTool => "Invalid input. You can only call one tool at a time."@,
        }
    }

    /// The text of the error.
    pub fn message(self) -> (r: String)
        ensures
            r@ == self.text(),
    {
        match self {
            DirectiveError::MissingHeading => String::from_str(
                "Invalid input. Cannot find invoke heading of [[[[INVOKE]]]]",
            ),
            DirectiveError::MissingFenceOpen => String::from_str(
                "Invalid input. Cannot find invoke begin of \"```json\".",
            ),
            DirectiveError::MissingFenceClose => String::from_str(
                "Invalid input. Cannot find invoke end of \"```\".",
            ),
            DirectiveError::InvalidJson => String::from_str("Input is not valid JSON"),
            DirectiveError::NotAnObject => String::from_str("Input is not a valid JSON object"),
            DirectiveError::NotOneTool => String::from_str(
                "Invalid input. You can only call one tool at a time.",
            ),
        }
    }
}

/// The heading that announces an invocation.
pub open spec fn invoke_heading() -> Seq<u8> {
    "[[[[INVOKE]]]]".spec_bytes()
}

/// The fence that opens the JSON block.
pub open spec fn fence_open() -> Seq<u8> {
    "```json".spec_bytes()
}

/// The fence that closes the JSON block.
pub open spec fn fence_close() -> Seq<u8> {
    "```".spec_bytes()
}

/// The marker of a turn that documents a file.
pub open spec fn document_marker() -> Seq<u8> {
    "[[[[DOCUMENT]]]]".spec_bytes()
}

/// The marker of a turn that ends the task.
pub open spec fn done_marker() -> Seq<u8> {
    "[[[[DONE]]]]".spec_bytes()
}

/// The JSON text of a turn's directive: what stands between the first JSON
/// fence after the last heading and the last fence after that.
pub open spec fn directive_body(text: Seq<u8>) -> Result<Seq<u8>, DirectiveError> {
    match last_occurrence(text, invoke_heading()) {
        None => Err(DirectiveError::MissingHeading),
        Some(h) => {
            let after = text.skip(h + invoke_heading().len());
            match first_occurrence(after, fence_open()) {
                None => Err(DirectiveError::MissingFenceOpen),
                Some(o) => {
                    let inner = after.skip(o + fence_open().len());
                    match last_occurrence(inner, fence_close()) {
                        None => Err(DirectiveError::MissingFenceClose),
                        Some(c) => Ok(inner.take(c)),
                    }
                },
            }
        },
    }
}

/// The JSON document that names `tool` and gives it `args`.
pub open spec fn invocation_document(tool: Seq<char>, args: JsonModel) -> JsonModel {
    JsonModel::Object(no_entries().insert(tool, args))
}

/// The invocation that a JSON document makes: it must be an object with
/// exactly one key, which names the tool and holds its arguments.
pub open spec fn invocation_of(doc: JsonModel) -> Result<(Seq<char>, JsonModel), DirectiveError> {
    match doc {
        JsonModel::Object(entries) => if has_size(entries, 1) {
            Ok((entries.dom().choose(), entries[entries.dom().choose()]))
        } else {
            Err(DirectiveError::NotOneTool)
        },
        _ => Err(DirectiveError::NotAnObject),
    }
}

/// The invocation that a turn makes, or why it makes none.
pub open spec fn directive_of(text: Seq<u8>) -> Result<(Seq<char>, JsonModel), DirectiveError> {
    match directive_body(text) {
        Err(fault) => Err(fault),
        Ok(body) => match json_of_bytes(body) {
            None => Err(DirectiveError::InvalidJson),
            Some(doc) => invocation_of(doc),
        },
    }
}

/// An object with exactly one key holds that key and nothing else.
pub proof fn lemma_single_entry(entries: Map<Seq<char>, JsonModel>, key: Seq<char>)
    requires
        has_size(entries, 1),
        entries.contains_key(key),
    ensures
        entries.dom().choose() == key,
        entries == no_entries().insert(key, entries[key]),
{
    let keys = entries.dom();
    Set::lemma_is_singleton(keys);
    vstd::set::axiom_set_choose_len(keys);
    assert(keys.contains(keys.choose()));
    assert(entries =~= no_entries().insert(key, entries[key]));
}

/// An invocation, read and written and read again, is the same invocation:
/// the document that a parsed invocation came from is the document that names
/// its tool and gives it its arguments, and parsing that document yields the
/// invocation again.
pub proof fn lemma_invocation_reparses(doc: JsonModel)
    requires
        invocation_of(doc) is Ok,
    ensures
        doc == invocation_document(invocation_of(doc)->Ok_0.0, invocation_of(doc)->Ok_0.1),
        invocation_of(invocation_document(invocation_of(doc)->Ok_0.0, invocation_of(doc)->Ok_0.1))
            == invocation_of(doc),
{
    let entries = doc->Object_0;
    let keys = entries.dom();
    vstd::set::axiom_set_choose_len(keys);
    lemma_single_entry(entries, keys.choose());
}

/// A turn whose directive block reads as the document of an invocation makes
/// that invocation, whatever else the turn holds.
pub proof fn lemma_directive_of_document(text: Seq<u8>, tool: Seq<char>, args: JsonModel)
    requires
        directive_body(text) matches Ok(body) && json_of_bytes(body) == Some(
            invocation_document(tool, args),
        ),
    ensures
        directive_of(text) == Ok::<(Seq<char>, JsonModel), DirectiveError>((tool, args)),
{
    let entries = no_entries().insert(tool, args);
    assert(entries.dom() =~= set![tool]);
    assert(entries.dom().finite() && entries.len() == 1);
    lemma_single_entry(entries, tool);
}

/// Reads the invocation that a JSON document makes.
pub fn parse_invocation(doc: &serde_json::Value) -> (r: Result<
    (String, serde_json::Value),
    DirectiveError,
>)
    ensures
        match invocation_of(json_model(*doc)) {
            Ok(invocation) => r matches Ok(found) && found.0@ == invocation.0 && json_model(found.1)
                == invocation.1,
            Err(fault) => r matches Err(e) && e == fault,
        },
{
    let entries = match json_as_object(doc) {
        Some(entries) => entries,
        None => {
            return Err(DirectiveError::NotAnObject);
        },
    };
    if object_len(entries) != 1 {
        return Err(DirectiveError::NotOneTool);
    }
    match object_first(entries) {
        Some(entry) => {
            proof {
                lemma_single_entry(object_entries(*entries), entry.0@);
            }
            Ok((entry.0.clone(), json_clone(entry.1)))
        },
        None => {
            proof {
                assert(no_entries().dom() =~= Set::<Seq<char>>::empty());
                assert(false);
            }
            Err(DirectiveError::NotOneTool)
        },
    }
}

/// Reads the invocation that a turn makes: the name of the tool, and its raw
/// arguments.
pub fn parse_tool_invoke_json(input: &str) -> (r: Result<
    (String, serde_json::Value),
    DirectiveError,
>)
    ensures
        match directive_of(input.spec_bytes()) {
            Ok(invocation) => r matches Ok(found) && found.0@ == invocation.0 && json_model(found.1)
                == invocation.1,
            Err(fault) => r matches Err(e) && e == fault,
        },
{
    let text = input.as_bytes();
    let heading = "[[[[INVOKE]]]]".as_bytes();
    let open = "```json".as_bytes();
    let close = "```".as_bytes();
    let h = match find_last(text, heading) {
        Some(h) => h,
        None => {
            return Err(DirectiveError::MissingHeading);
        },
    };
    let end = text.len();
    let after = slice_subrange(text, h + heading.len(), end);
    let o = match find_first(after, open) {
        Some(o) => o,
        None => {
            return Err(DirectiveError::MissingFenceOpen);
        },
    };
    let end = after.len();
    let inner = slice_subrange(after, o + open.len(), end);
    let c = match find_last(inner, close) {
        Some(c) => c,
        None => {
            return Err(DirectiveError::MissingFenceClose);
        },
    };
    let body = slice_subrange(inner, 0, c);
    match json_from_slice(body) {
        Ok(doc) => parse_invocation(&doc),
        Err(_) => Err(DirectiveError::InvalidJson),
    }
}

/// What is said to a turn that documents a file.
pub open spec fn documented_text() -> Seq<char> {
    "File has been documented. Please keep up the good work!\n\nOr, if you think you have finished your task and want to stop,\nplease just output a special token [[[[DONE]]]]."@
}

/// What is answered to a turn that makes no invocation: an acknowledgement
/// where it documents a file, else the error that asks for a directive.
fn answer_without_invocation(request: &str) -> (r: Result<String, ToolError>)
    ensures
        if occurs(request.spec_bytes(), document_marker()) {
            r matches Ok(said) && said@ == documented_text()
        } else {
            r matches Err(e) && e is NoDirective
        },
{
    if contains(request.as_bytes(), "[[[[DOCUMENT]]]]".as_bytes()) {
        Ok(
            String::from_str(
                "File has been documented. Please keep up the good work!\n\nOr, if you think you have finished your task and want to stop,\nplease just output a special token [[[[DONE]]]].",
            ),
        )
    } else {
        Err(ToolError::NoDirective)
    }
}

/// Answers one turn of the model.
///
/// A turn that makes an invocation gets what the registry returns for it: the
/// tool's output, or why the invocation failed. A turn that makes none gets an
/// acknowledgement where it documents a file, and else the `NoDirective`
/// error. The registry changes only in the tool that ran.
pub fn invoke_tool<T: Tool>(toolset: &mut ToolSet<T>, request: &str) -> (r: Result<
    String,
    ToolError,
>)
    requires
        old(toolset).wf(),
    ensures
        final(toolset).wf(),
        final(toolset)@.dom() == old(toolset)@.dom(),
        match directive_of(request.spec_bytes()) {
            Err(_) => final(toolset)@ == old(toolset)@ && if occurs(
                request.spec_bytes(),
                document_marker(),
            ) {
                r matches Ok(said) && said@ == documented_text()
            } else {
                r matches Err(e) && e is NoDirective
            },
            Ok(invocation) => (forall|key: Seq<char>|
                old(toolset)@.contains_key(key) && key != invocation.0 ==> final(toolset)@[key]
                    == old(toolset)@[key]) && match ToolSet::<T>::refusal(
                old(toolset)@,
                invocation.0,
                invocation.1,
            ) {
                Some(fault) => final(toolset)@ == old(toolset)@ && (r matches Err(e) && e@
                    == fault),
                None => old(toolset)@[invocation.0].answers(
                    ToolSet::<T>::handed(old(toolset)@, invocation.0, invocation.1),
                    outcome_model(r),
                ),
            },
        },
{
    match parse_tool_invoke_json(request) {
        Ok(invocation) => toolset.invoke(invocation.0.as_str(), &invocation.1),
        Err(_) => answer_without_invocation(request),
    }
}

/// The text of an answer: the tool's output, or the error behind `Error: `.
pub open spec fn answer_text(outcome: Result<Seq<char>, ToolFault>) -> Seq<char> {
    match outcome {
        Ok(said) => said,
        Err(fault) => "Error: "@ + fault.text(),
    }
}

/// The text of an answer as it was returned.
pub open spec fn outcome_text(outcome: Result<String, ToolError>) -> Seq<char> {
    answer_text(outcome_model(outcome))
}

/// An answer as it is handed back to the model: under a banner, and closed by
/// a line feed.
pub open spec fn framed(body: Seq<char>) -> Seq<char> {
    "\n============= TOOL OUTPUT =============\n"@ + body + "\n"@
}

/// Frames an answer for the model. A failure is shown, not dropped.
pub fn frame_tool_output(outcome: &Result<String, ToolError>) -> (r: String)
    ensures
        r@ == framed(outcome_text(*outcome)),
{
    let mut text = String::from_str("\n============= TOOL OUTPUT =============\n");
    match outcome {
        Ok(said) => {
            text.append(said.as_str());
        },
        Err(e) => {
            text.append("Error: ");
            text.append(e.message().as_str());
        },
    }
    text.append("\n");
    proof {
        assert(text@ =~= framed(outcome_text(*outcome)));
    }
    text
}

/// A turn ends the task: without surrounding white space, it ends in the done
/// marker.
pub open spec fn is_done(text: Seq<char>) -> bool {
    has_suffix(encode_utf8(trimmed(text)), done_marker())
}

/// Whether a turn ends the task.
pub fn ends_task(response: &str) -> (r: bool)
    ensures
        r == is_done(response@),
{
    ends_with(str_trim(response).as_bytes(), "[[[[DONE]]]]".as_bytes())
}

/// What the control loop does after a turn.
#[derive(Debug)]
pub enum Turn {
    /// The task is complete: nothing more is asked.
    Done,
    /// The model is asked again; the text is what was said to it.
    Continue(String),
    /// No response arrived: the same request is made again.
    NoProgress,
}

/// The agent after it has heard `said` from `role`.
pub open spec fn heard(agent: AgentModel, role: Seq<char>, said: Seq<char>) -> AgentModel {
    AgentModel { history: pushed(agent.history, agent.capacity, message_model(role, said)), ..agent }
}

/// One step of the control loop: takes the response to the last request, or
/// `None` where none arrived, and decides what happens next.
///
/// Without a response nothing changes. A response is first recorded as the
/// assistant's message. Where it makes an invocation, the tool is run; where it
/// makes none and ends in the done marker, the task is complete; else it is
/// told how to go on. Whatever is answered is framed, recorded as the user's
/// message, and returned.
pub fn advance<T: Tool>(agent: &mut Agent, toolset: &mut ToolSet<T>, response: Option<&str>) -> (turn:
    Turn)
    requires
        old(agent)@.wf(),
        old(toolset).wf(),
    ensures
        final(agent)@.wf(),
        final(toolset).wf(),
        final(toolset)@.dom() == old(toolset)@.dom(),
        match response {
            None => turn is NoProgress && final(agent)@ == old(agent)@ && final(toolset)@
                == old(toolset)@,
            Some(text) => match directive_of(text.spec_bytes()) {
                Err(_) => final(toolset)@ == old(toolset)@ && if is_done(text@) {
                    turn is Done && final(agent)@ == heard(old(agent)@, "assistant"@, text@)
                } else {
                    turn matches Turn::Continue(said) && final(agent)@ == heard(
                        heard(old(agent)@, "assistant"@, text@),
                        "user"@,
                        said@,
                    ) && said@ == framed(
                        if occurs(text.spec_bytes(), document_marker()) {
                            documented_text()
                        } else {
                            "Error: "@ + crate::error::no_directive_text()
                        },
                    )
                },
                Ok(invocation) => turn matches Turn::Continue(said) && final(agent)@ == heard(
                    heard(old(agent)@, "assistant"@, text@),
                    "user"@,
                    said@,
                ) && (forall|key: Seq<char>|
                    old(toolset)@.contains_key(key) && key != invocation.0 ==> final(toolset)@[key]
                        == old(toolset)@[key]) && match ToolSet::<T>::refusal(
                    old(toolset)@,
                    invocation.0,
                    invocation.1,
                ) {
                    Some(fault) => final(toolset)@ == old(toolset)@ && said@ == framed(
                        "Error: "@ + fault.text(),
                    ),
                    None => exists|outcome: Result<Seq<char>, ToolFault>|
                        old(toolset)@[invocation.0].answers(
                            ToolSet::<T>::handed(old(toolset)@, invocation.0, invocation.1),
                            outcome,
                        ) && said@ == framed(#[trigger] answer_text(outcome)),
                },
            },
        },
{
    let text = match response {
        Some(text) => text,
        None => {
            return Turn::NoProgress;
        },
    };
    agent.add_message("assistant", text);
    let outcome = match parse_tool_invoke_json(text) {
        Ok(invocation) => toolset.invoke(invocation.0.as_str(), &invocation.1),
        Err(_) => {
            if ends_task(text) {
                return Turn::Done;
            }
            answer_without_invocation(text)
        },
    };
    let said = frame_tool_output(&outcome);
    agent.add_message("user", said.as_str());
    Turn::Continue(said)
}

} // verus!
