//! Tools and the registry that holds them by name.

use crate::error::{outcome_model, ToolError, ToolFault};
use crate::json::{json_model, json_object, object_entries, object_insert, object_new, JsonModel};
use crate::schema::{canonical_entries, canonicalize_tool_args, SchemaModel, ToolSchema};
use crate::text::str_eq;
use vstd::prelude::*;

verus! {

/// A capability that the model may invoke: it has a schema, and it turns
/// canonical arguments into text.
pub trait Tool {
    /// The schema of the tool, as [`Tool::get_schema`] gives it.
    open spec fn schema(&self) -> SchemaModel {
        arbitrary()
    }

    /// Why the tool refuses canonical arguments before it does any work, or
    /// `None` where it goes to work on them. A tool that says nothing here
    /// refuses nothing ahead of its work.
    open spec fn refuses(&self, args: JsonModel) -> Option<ToolFault> {
        None
    }

    /// Whether `outcome` is something that the tool may come to when it goes
    /// to work on `args`. A tool that says nothing here may come to anything.
    open spec fn answers(&self, args: JsonModel, outcome: Result<Seq<char>, ToolFault>) -> bool {
        true
    }

    /// The schema of the tool.
    fn get_schema(&self) -> (s: &ToolSchema)
        ensures
            s@ == self.schema(),
    ;

    /// Runs the tool. The arguments are handed over in canonical shape.
    /// Arguments that the tool refuses fail with that refusal and leave the
    /// tool as it was; on all others the tool goes to work, and what it
    /// returns is one of its answers to them.
    fn invoke(&mut self, args: &serde_json::Value) -> (r: Result<String, ToolError>)
        requires
            old(self).schema().is_canonical(json_model(*args)),
        ensures
            match old(self).refuses(json_model(*args)) {
                Some(fault) => &*final(self) == &*old(self) && (r matches Err(e) && e@ == fault),
                None => old(self).answers(json_model(*args), outcome_model(r)),
            },
    ;
}

/// The typed arguments of a tool: they come with the tool's schema and are
/// read from canonical arguments.
pub trait ToolProtocol<T> {
    /// The schema that declares the arguments, as
    /// [`ToolProtocol::create_schema`] gives it.
    open spec fn schema() -> SchemaModel {
        arbitrary()
    }

    /// Why arguments in canonical shape are no arguments of this type, or
    /// `None` where they are, as [`ToolProtocol::decode`] finds it.
    open spec fn decode_refusal(schema: SchemaModel, args: JsonModel) -> Option<ToolFault> {
        arbitrary()
    }

    /// Whether `value` is what arguments in canonical shape spell. A type
    /// that says nothing here lets them spell any value.
    open spec fn decodes(schema: SchemaModel, args: JsonModel, value: T) -> bool {
        true
    }

    /// The schema that declares the arguments.
    fn create_schema() -> (s: ToolSchema)
        ensures
            s@ == Self::schema(),
    ;

    /// Reads the typed arguments from arguments in canonical shape. They are
    /// read exactly where nothing refuses them, and else the refusal is the
    /// error.
    fn decode(schema: &ToolSchema, args: &serde_json::Value) -> (r: Result<T, ToolError>)
        requires
            schema@.is_canonical(json_model(*args)),
        ensures
            match Self::decode_refusal(schema@, json_model(*args)) {
                Some(fault) => r matches Err(e) && e@ == fault,
                None => r matches Ok(value) && Self::decodes(schema@, json_model(*args), value),
            },
    ;
}

/// The schema that declares the arguments `T`.
pub fn create_schema<T: ToolProtocol<T>>() -> (s: ToolSchema)
    ensures
        s@ == T::schema(),
{
    T::create_schema()
}

/// Reads the typed arguments `T` from a caller's raw arguments: brings them
/// into canonical shape, then decodes them. A missing required argument fails
/// the call before anything is decoded; canonical arguments that are no
/// arguments of type `T` fail with the refusal of `T`; all others are read.
pub fn parse_args<T: ToolProtocol<T>>(schema: &ToolSchema, args: &serde_json::Value) -> (r: Result<
    T,
    ToolError,
>)
    ensures
        match canonical_entries(schema@.arguments, json_model(*args)) {
            Err(name) => r matches Err(e) && e@ == ToolFault::MissingRequiredArgument(name),
            Ok(entries) => match T::decode_refusal(schema@, JsonModel::Object(entries)) {
                Some(fault) => r matches Err(e) && e@ == fault,
                None => r matches Ok(value) && T::decodes(
                    schema@,
                    JsonModel::Object(entries),
                    value,
                ),
            },
        },
{
    match canonicalize_tool_args(schema, args) {
        Ok(canonical) => T::decode(schema, &canonical),
        Err(e) => Err(e),
    }
}

/// A tool that works on typed arguments.
pub trait TypedTool {
    /// The typed arguments of the tool, which come with its schema.
    type Args: ToolProtocol<Self::Args>;

    /// Whether `outcome` is something that the tool may come to on `args`. A
    /// tool that says nothing here may come to anything.
    open spec fn answers(&self, args: Self::Args, outcome: Result<Seq<char>, ToolFault>) -> bool {
        true
    }

    /// Runs the tool. What it returns is one of its answers to the arguments.
    fn invoke(&mut self, args: Self::Args) -> (r: Result<String, ToolError>)
        ensures
            old(self).answers(args, outcome_model(r)),
    ;
}

/// A typed tool as a [`Tool`]: it holds the schema of the tool's arguments;
/// what is handed to it in canonical shape is decoded into the typed
/// arguments, and only what decodes reaches the tool.
pub struct Typed<X: TypedTool> {
    schema: ToolSchema,
    inner: X,
}

impl<X: TypedTool> Typed<X> {
    /// The tool that does the work.
    pub closed spec fn typed(&self) -> X {
        self.inner
    }

    /// The tool that does the work.
    pub fn inner(&self) -> (r: &X)
        ensures
            *r == self.typed(),
    {
        &self.inner
    }
}

impl<X: TypedTool> Tool for Typed<X> {
    closed spec fn schema(&self) -> SchemaModel {
        self.schema@
    }

    open spec fn refuses(&self, args: JsonModel) -> Option<ToolFault> {
        X::Args::decode_refusal(self.schema(), args)
    }

    open spec fn answers(&self, args: JsonModel, outcome: Result<Seq<char>, ToolFault>) -> bool {
        exists|typed: X::Args| #[trigger]
            X::Args::decodes(self.schema(), args, typed) && self.typed().answers(typed, outcome)
    }

    fn get_schema(&self) -> (s: &ToolSchema) {
        &self.schema
    }

    /// Decodes the arguments and runs the tool on them. Arguments that do
    /// not decode never reach the tool: the refusal is returned, and the tool
    /// stays as it was. The schema never changes.
    fn invoke(&mut self, args: &serde_json::Value) -> (r: Result<String, ToolError>)
        ensures
            final(self).schema() == old(self).schema(),
            X::Args::decode_refusal(old(self).schema(), json_model(*args)) matches Some(fault)
                ==> final(self).typed() == old(self).typed() && (r matches Err(e) && e@ == fault),
    {
        match X::Args::decode(&self.schema, args) {
            Ok(typed) => self.inner.invoke(typed),
            Err(e) => Err(e),
        }
    }
}

/// Makes a [`Tool`] of a tool that works on typed arguments, with the schema
/// that its arguments come with.
pub fn tool<X: TypedTool>(inner: X) -> (r: Typed<X>)
    ensures
        r.typed() == inner,
        r.schema() == X::Args::schema(),
{
    Typed { schema: X::Args::create_schema(), inner }
}

/// No two names of the sequence are the same text.
spec fn distinct_names(names: Seq<String>) -> bool {
    forall|i: int, j: int|
        0 <= i < names.len() && 0 <= j < names.len() && i != j ==> (#[trigger] names[i])@
            != (#[trigger] names[j])@
}

/// Some name of the sequence is `key`.
spec fn has_name(names: Seq<String>, key: Seq<char>) -> bool {
    exists|i: int| 0 <= i < names.len() && (#[trigger] names[i])@ == key
}

/// A position at which `key` stands among the names.
spec fn position(names: Seq<String>, key: Seq<char>) -> int {
    choose|i: int| 0 <= i < names.len() && (#[trigger] names[i])@ == key
}

/// Among distinct names, a name stands at one position only.
proof fn lemma_position(names: Seq<String>, key: Seq<char>, i: int)
    requires
        distinct_names(names),
        0 <= i < names.len(),
        names[i]@ == key,
    ensures
        has_name(names, key),
        position(names, key) == i,
{
    let c = position(names, key);
    assert(0 <= c < names.len() && names[c]@ == key);
}

/// A name-keyed collection of tools. A name is held once; registering a tool
/// under a name that is taken replaces the tool that had it.
pub struct ToolSet<T: Tool> {
    names: Vec<String>,
    tools: Vec<T>,
}

impl<T: Tool> View for ToolSet<T> {
    type V = Map<Seq<char>, T>;

    closed spec fn view(&self) -> Map<Seq<char>, T> {
        Map::new(
            |key: Seq<char>| has_name(self.names@, key),
            |key: Seq<char>| self.tools@[position(self.names@, key)],
        )
    }
}

/// Runs the tool at position `i` on canonical arguments and puts it back in
/// its place. No other tool is touched. Arguments that the tool refuses fail
/// with that refusal and leave all tools as they were; on all others the
/// result is one of the tool's answers to them.
fn invoke_at<T: Tool>(tools: &mut Vec<T>, i: usize, args: &serde_json::Value) -> (r: Result<
    String,
    ToolError,
>)
    requires
        i < old(tools).len(),
        old(tools)[i as int].schema().is_canonical(json_model(*args)),
    ensures
        final(tools).len() == old(tools).len(),
        forall|j: int| 0 <= j < old(tools).len() && j != i ==> final(tools)[j] == old(tools)[j],
        match old(tools)[i as int].refuses(json_model(*args)) {
            Some(fault) => final(tools)@ == old(tools)@ && (r matches Err(e) && e@ == fault),
            None => old(tools)[i as int].answers(json_model(*args), outcome_model(r)),
        },
{
    let mut tool = tools.remove(i);
    let r = tool.invoke(args);
    tools.insert(i, tool);
    proof {
        if old(tools)[i as int].refuses(json_model(*args)) is Some {
            assert(tools@ =~= old(tools)@);
        }
    }
    r
}

impl<T: Tool> ToolSet<T> {
    /// The registry is well formed: every name is held once and has its tool.
    pub closed spec fn wf(&self) -> bool {
        self.names@.len() == self.tools@.len() && distinct_names(self.names@)
    }

    /// An empty registry.
    pub fn new() -> (r: Self)
        ensures
            r.wf(),
            r@ == Map::<Seq<char>, T>::empty(),
    {
        let r = ToolSet { names: Vec::new(), tools: Vec::new() };
        assert(r@ =~= Map::<Seq<char>, T>::empty());
        r
    }

    /// Where `name` stands among the names.
    fn find(&self, name: &str) -> (r: Option<usize>)
        requires
            self.wf(),
        ensures
            match r {
                Some(i) => i < self.names@.len() && self.names@[i as int]@ == name@,
                None => !has_name(self.names@, name@),
            },
    {
        let mut i: usize = 0;
        while i < self.names.len()
            invariant
                i <= self.names@.len(),
                forall|j: int| 0 <= j < i ==> (#[trigger] self.names@[j])@ != name@,
            decreases self.names.len() - i,
        {
            if str_eq(self.names[i].as_str(), name) {
                return Some(i);
            }
            i += 1;
        }
        None
    }

    /// Registers a tool under the name of its schema. A tool that was
    /// registered under that name before is replaced.
    pub fn register_tool(&mut self, tool: T)
        requires
            old(self).wf(),
        ensures
            final(self).wf(),
            final(self)@ == old(self)@.insert(tool.schema().name, tool),
    {
        let name = tool.get_schema().name.clone();
        let ghost old_names = self.names@;
        let ghost old_tools = self.tools@;
        match self.find(name.as_str()) {
            Some(i) => {
                self.tools.set(i, tool);
                proof {
                    assert forall|key: Seq<char>| has_name(old_names, key) implies (
                    #[trigger] self@[key]) == old(self)@.insert(name@, tool)[key] by {
                        let p = position(old_names, key);
                        if key == name@ {
                            lemma_position(old_names, key, i as int);
                        }
                    }
                    assert(self@ =~= old(self)@.insert(name@, tool));
                }
            },
            None => {
                self.names.push(name);
                self.tools.push(tool);
                proof {
                    let new_names = self.names@;
                    assert forall|key: Seq<char>| #[trigger] has_name(new_names, key) implies (
                    key == name@ || has_name(old_names, key)) by {
                        let p = choose|p: int| 0 <= p < new_names.len() && (#[trigger] new_names[p])@ == key;
                        if p < old_names.len() {
                            assert(old_names[p]@ == key);
                        }
                    }
                    assert forall|key: Seq<char>| has_name(old_names, key) implies has_name(
                        new_names,
                        key,
                    ) && position(new_names, key) == position(old_names, key) by {
                        let p = position(old_names, key);
                        assert(new_names[p]@ == key);
                        lemma_position(new_names, key, p);
                    }
                    assert(new_names[old_names.len() as int]@ == name@);
                    lemma_position(new_names, name@, old_names.len() as int);
                    assert(self@ =~= old(self)@.insert(name@, tool));
                }
            },
        }
    }

    /// Registers each tool of the list, in order.
    pub fn register_tools(&mut self, tools: Vec<T>)
        requires
            old(self).wf(),
        ensures
            final(self).wf(),
            final(self)@ == Self::registered(old(self)@, tools@),
    {
        let mut tools = tools;
        let ghost all = tools@;
        let ghost mut done: Seq<T> = Seq::empty();
        while tools.len() > 0
            invariant
                self.wf(),
                all == done + tools@,
                self@ == Self::registered(old(self)@, done),
            decreases tools.len(),
        {
            let tool = tools.remove(0);
            self.register_tool(tool);
            proof {
                let next = done.push(tool);
                assert(next.drop_last() =~= done);
                done = next;
                assert(all =~= done + tools@);
            }
        }
        proof {
            assert(done =~= all);
        }
    }

    /// The registry after the tools of a list are registered in order.
    pub open spec fn registered(before: Map<Seq<char>, T>, tools: Seq<T>) -> Map<Seq<char>, T>
        decreases tools.len(),
    {
        if tools.len() == 0 {
            before
        } else {
            Self::registered(before, tools.drop_last()).insert(
                tools.last().schema().name,
                tools.last(),
            )
        }
    }

    /// The registered tools: each tool that is held under a name, and no
    /// other.
    pub fn get_tools(&self) -> (r: &Vec<T>)
        requires
            self.wf(),
        ensures
            forall|i: int| 0 <= i < r@.len() ==> Self::holds(self@, #[trigger] r@[i]),
            forall|key: Seq<char>| #[trigger]
                self@.contains_key(key) ==> exists|i: int|
                    0 <= i < r@.len() && #[trigger] r@[i] == self@[key],
    {
        proof {
            assert forall|i: int| 0 <= i < self.tools@.len() implies Self::holds(
                self@,
                #[trigger] self.tools@[i],
            ) by {
                let key = self.names@[i]@;
                lemma_position(self.names@, key, i);
                assert(self@.contains_key(key) && self@[key] == self.tools@[i]);
            }
            assert forall|key: Seq<char>| #[trigger] self@.contains_key(key) implies exists|i: int|
                0 <= i < self.tools@.len() && #[trigger] self.tools@[i] == self@[key] by {
                let p = position(self.names@, key);
                assert(0 <= p < self.tools@.len() && self.tools@[p] == self@[key]);
            }
        }
        &self.tools
    }

    /// The help documents of all tools: under each registered name the help
    /// document of its tool.
    pub fn get_help(&self) -> (r: serde_json::Value)
        requires
            self.wf(),
        ensures
            json_model(r) matches JsonModel::Object(entries) && entries.dom() == self@.dom()
                && forall|key: Seq<char>| #[trigger]
                self@.contains_key(key) ==> entries[key] == JsonModel::Object(
                    self@[key].schema().help_entries(),
                ),
    {
        let mut help = object_new();
        let mut i: usize = 0;
        while i < self.names.len()
            invariant
                self.wf(),
                i <= self.names@.len(),
                forall|key: Seq<char>|
                    object_entries(help).contains_key(key) <==> has_name(
                        self.names@.take(i as int),
                        key,
                    ),
                forall|j: int|
                    0 <= j < i ==> object_entries(help)[(#[trigger] self.names@[j])@]
                        == JsonModel::Object(self.tools@[j].schema().help_entries()),
            decreases self.names.len() - i,
        {
            let ghost before = object_entries(help);
            let ghost names = self.names@;
            object_insert(&mut help, self.names[i].clone(), self.tools[i].get_schema().get_help());
            proof {
                let key_i = names[i as int]@;
                assert forall|key: Seq<char>|
                    object_entries(help).contains_key(key) <==> has_name(
                        names.take(i + 1),
                        key,
                    ) by {
                    if has_name(names.take(i + 1), key) {
                        let p = choose|p: int|
                            0 <= p < names.take(i + 1).len() && (#[trigger] names.take(
                                i + 1,
                            )[p])@ == key;
                        if p < i {
                            assert(names.take(i as int)[p]@ == key);
                        }
                    }
                    if before.contains_key(key) {
                        let p = choose|p: int|
                            0 <= p < names.take(i as int).len() && (#[trigger] names.take(
                                i as int,
                            )[p])@ == key;
                        assert(names.take(i + 1)[p]@ == key);
                    }
                    if key == key_i {
                        assert(names.take(i + 1)[i as int]@ == key);
                    }
                }
            }
            i += 1;
        }
        proof {
            assert(self.names@.take(i as int) =~= self.names@);
            let entries = object_entries(help);
            assert(entries.dom() =~= self@.dom());
            assert forall|key: Seq<char>| #[trigger] self@.contains_key(key) implies entries[key]
                == JsonModel::Object(self@[key].schema().help_entries()) by {
                let p = position(self.names@, key);
                assert(self.names@[p]@ == key);
            }
        }
        json_object(help)
    }

    /// The tool is registered under some name.
    pub open spec fn holds(registry: Map<Seq<char>, T>, tool: T) -> bool {
        exists|key: Seq<char>| #[trigger] registry.contains_key(key) && registry[key] == tool
    }

    /// Why an invocation is refused before any tool does its work: the name
    /// is unknown, a required argument is missing, or the tool refuses the
    /// canonical arguments.
    pub open spec fn refusal(registry: Map<Seq<char>, T>, name: Seq<char>, raw: JsonModel) -> Option<
        ToolFault,
    > {
        if !registry.contains_key(name) {
            Some(ToolFault::UnknownTool(name))
        } else {
            match canonical_entries(registry[name].schema().arguments, raw) {
                Err(missing) => Some(ToolFault::MissingRequiredArgument(missing)),
                Ok(entries) => registry[name].refuses(JsonModel::Object(entries)),
            }
        }
    }

    /// The arguments that are handed to the tool called `name`: the canonical
    /// form of the raw ones.
    pub open spec fn handed(registry: Map<Seq<char>, T>, name: Seq<char>, raw: JsonModel) -> JsonModel {
        JsonModel::Object(canonical_entries(registry[name].schema().arguments, raw)->Ok_0)
    }

    /// Runs the tool registered under `name` on a caller's raw arguments.
    ///
    /// An unknown name fails with `UnknownTool`, a missing required argument
    /// with `MissingRequiredArgument`, and canonical arguments that the tool
    /// refuses with the tool's refusal; in all three cases no tool does any
    /// work and the registry stays as it was. Otherwise the tool goes to work
    /// on the canonical form of the arguments, and what is returned is one of
    /// its answers to them. The names of the registry never change, and no
    /// other tool is touched.
    pub fn invoke(&mut self, name: &str, args: &serde_json::Value) -> (r: Result<String, ToolError>)
        requires
            old(self).wf(),
        ensures
            final(self).wf(),
            final(self)@.dom() == old(self)@.dom(),
            forall|key: Seq<char>|
                old(self)@.contains_key(key) && key != name@ ==> final(self)@[key] == old(self)@[key],
            match Self::refusal(old(self)@, name@, json_model(*args)) {
                Some(fault) => final(self)@ == old(self)@ && (r matches Err(e) && e@ == fault),
                None => old(self)@[name@].answers(
                    Self::handed(old(self)@, name@, json_model(*args)),
                    outcome_model(r),
                ),
            },
    {
        let i = match self.find(name) {
            Some(i) => i,
            None => {
                return Err(ToolError::UnknownTool(name.to_string()));
            },
        };
        proof {
            lemma_position(self.names@, name@, i as int);
        }
        let canonical = match canonicalize_tool_args(self.tools[i].get_schema(), args) {
            Ok(canonical) => canonical,
            Err(e) => {
                return Err(e);
            },
        };
        let ghost names = self.names@;
        let r = invoke_at(&mut self.tools, i, &canonical);
        proof {
            assert(self@.dom() =~= old(self)@.dom());
            assert forall|key: Seq<char>|
                old(self)@.contains_key(key) && key != name@ implies self@[key] == old(self)@[key] by {
                let p = position(names, key);
                assert(p != i);
            }
        }
        r
    }
}

} // verus!
