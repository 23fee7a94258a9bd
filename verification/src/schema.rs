//! Tool schemas: what a tool is called, which arguments it takes, and how a
//! caller's raw arguments are brought into the shape that the schema declares.

use crate::error::{ToolError, ToolFault};
use crate::json::{
    json_bool, json_clone, json_get, json_is_null, json_model, json_object, json_text, model_get,
    no_entries, object_entries, object_insert, object_new, JsonModel,
};
use vstd::prelude::*;

verus! {

/// One declared argument of a tool.
#[derive(Debug)]
pub struct ToolArgument {
    pub name: String,
    pub help: String,
    pub type_: String,
    pub required: bool,
    /// The value used when the caller gives none; JSON null for "no default".
    pub default: serde_json::Value,
    /// A representative value; JSON null for "no example".
    pub example: serde_json::Value,
}

/// The mathematical content of a [`ToolArgument`].
pub struct ArgumentModel {
    pub name: Seq<char>,
    pub help: Seq<char>,
    pub type_: Seq<char>,
    pub required: bool,
    pub default: JsonModel,
    pub example: JsonModel,
}

impl ArgumentModel {
    /// A required argument has a default or an example; an optional one has a
    /// default.
    pub open spec fn wf(self) -> bool {
        if self.required {
            !(self.default is Null) || !(self.example is Null)
        } else {
            !(self.default is Null)
        }
    }

    /// The value that stands for the argument in an example: its example, else
    /// its default, else null.
    pub open spec fn sample(self) -> JsonModel {
        if !(self.example is Null) {
            self.example
        } else {
            self.default
        }
    }

    /// The argument's entry in a help document: its type, whether it is
    /// required, and its default and example where it has them.
    pub open spec fn help_entries(self) -> Map<Seq<char>, JsonModel> {
        let base = no_entries().insert("type"@, JsonModel::Text(self.type_)).insert(
            "required"@,
            JsonModel::Bool(self.required),
        );
        let with_default = if self.default is Null {
            base
        } else {
            base.insert("default"@, self.default)
        };
        if self.example is Null {
            with_default
        } else {
            with_default.insert("example"@, self.example)
        }
    }

    /// The caller gave no value, there is no default, and one is required.
    pub open spec fn is_missing_in(self, raw: JsonModel) -> bool {
        model_get(raw, self.name) is None && self.default is Null && self.required
    }
}

impl View for ToolArgument {
    type V = ArgumentModel;

    open spec fn view(&self) -> ArgumentModel {
        ArgumentModel {
            name: self.name@,
            help: self.help@,
            type_: self.type_@,
            required: self.required,
            default: json_model(self.default),
            example: json_model(self.example),
        }
    }
}

impl ToolArgument {
    /// The argument's entry in a help document.
    pub fn get_help(&self) -> (r: serde_json::Value)
        ensures
            json_model(r) == JsonModel::Object(self@.help_entries()),
    {
        let mut help = object_new();
        object_insert(&mut help, "type".to_string(), json_text(self.type_.clone()));
        object_insert(&mut help, "required".to_string(), json_bool(self.required));
        if !json_is_null(&self.default) {
            object_insert(&mut help, "default".to_string(), json_clone(&self.default));
        }
        if !json_is_null(&self.example) {
            object_insert(&mut help, "example".to_string(), json_clone(&self.example));
        }
        json_object(help)
    }
}

/// A tool's declarative contract.
#[derive(Debug)]
pub struct ToolSchema {
    pub name: String,
    pub help: String,
    pub arguments: Vec<ToolArgument>,
}

/// The mathematical content of a [`ToolSchema`].
pub struct SchemaModel {
    pub name: Seq<char>,
    pub help: Seq<char>,
    pub arguments: Seq<ArgumentModel>,
}

/// An example document: one entry for each argument that has an example or a
/// default, a later argument of the same name replacing an earlier one.
pub open spec fn example_entries(args: Seq<ArgumentModel>) -> Map<Seq<char>, JsonModel>
    decreases args.len(),
{
    if args.len() == 0 {
        no_entries()
    } else {
        let rest = example_entries(args.drop_last());
        let a = args.last();
        if a.sample() is Null {
            rest
        } else {
            rest.insert(a.name, a.sample())
        }
    }
}

/// The arguments part of a help document: under each argument's name its help
/// entry.
pub open spec fn argument_help_entries(args: Seq<ArgumentModel>) -> Map<Seq<char>, JsonModel>
    decreases args.len(),
{
    if args.len() == 0 {
        no_entries()
    } else {
        argument_help_entries(args.drop_last()).insert(
            args.last().name,
            JsonModel::Object(args.last().help_entries()),
        )
    }
}

/// What one argument adds to the canonical arguments gathered so far: the
/// caller's value as it is, else the default, else nothing; or the argument's
/// name where a required value is missing.
pub open spec fn canonical_step(
    acc: Map<Seq<char>, JsonModel>,
    a: ArgumentModel,
    raw: JsonModel,
) -> Result<Map<Seq<char>, JsonModel>, Seq<char>> {
    match model_get(raw, a.name) {
        Some(v) => Ok(acc.insert(a.name, v)),
        None => if !(a.default is Null) {
            Ok(acc.insert(a.name, a.default))
        } else if a.required {
            Err(a.name)
        } else {
            Ok(acc)
        },
    }
}

/// The canonical arguments for `raw`: the declared arguments taken in order,
/// each by [`canonical_step`], stopping at the first missing one.
pub open spec fn canonical_entries(args: Seq<ArgumentModel>, raw: JsonModel) -> Result<
    Map<Seq<char>, JsonModel>,
    Seq<char>,
>
    decreases args.len(),
{
    if args.len() == 0 {
        Ok(no_entries())
    } else {
        match canonical_entries(args.drop_last(), raw) {
            Ok(acc) => canonical_step(acc, args.last(), raw),
            Err(name) => Err(name),
        }
    }
}

impl SchemaModel {
    /// The schema has a name, and each argument is well formed.
    pub open spec fn wf(self) -> bool {
        self.name.len() > 0 && forall|i: int|
            0 <= i < self.arguments.len() ==> (#[trigger] self.arguments[i]).wf()
    }

    /// Some argument of the schema is called `key`.
    pub open spec fn declares(self, key: Seq<char>) -> bool {
        exists|i: int| 0 <= i < self.arguments.len() && (#[trigger] self.arguments[i]).name == key
    }

    /// `doc` has the shape that the schema declares: it is an object, each of
    /// its keys is a declared argument, and it holds every argument that is
    /// required or has a default.
    pub open spec fn is_canonical(self, doc: JsonModel) -> bool {
        doc matches JsonModel::Object(entries) && (forall|key: Seq<char>|
            entries.contains_key(key) ==> self.declares(key)) && (forall|i: int|
            0 <= i < self.arguments.len() && ((#[trigger] self.arguments[i]).required
                || !(self.arguments[i].default is Null)) ==> entries.contains_key(
                self.arguments[i].name,
            ))
    }

    /// The example document of the schema.
    pub open spec fn example(self) -> JsonModel {
        JsonModel::Object(example_entries(self.arguments))
    }

    /// The help document of the schema: its example, and the help entry of
    /// each argument.
    pub open spec fn help_entries(self) -> Map<Seq<char>, JsonModel> {
        no_entries().insert("example"@, self.example()).insert(
            "arguments"@,
            JsonModel::Object(argument_help_entries(self.arguments)),
        )
    }
}

impl View for ToolSchema {
    type V = SchemaModel;

    open spec fn view(&self) -> SchemaModel {
        SchemaModel {
            name: self.name@,
            help: self.help@,
            arguments: Seq::new(self.arguments@.len(), |i: int| self.arguments@[i]@),
        }
    }
}

impl ToolSchema {
    /// One JSON object with a representative value for each argument that has
    /// one.
    pub fn get_example(&self) -> (r: serde_json::Value)
        ensures
            json_model(r) == self@.example(),
    {
        let mut example = object_new();
        let mut i: usize = 0;
        while i < self.arguments.len()
            invariant
                i <= self.arguments.len(),
                object_entries(example) == example_entries(self@.arguments.take(i as int)),
            decreases self.arguments.len() - i,
        {
            let arg = &self.arguments[i];
            proof {
                let next = self@.arguments.take(i + 1);
                assert(next.drop_last() =~= self@.arguments.take(i as int));
                assert(next.last() == arg@);
            }
            if !json_is_null(&arg.example) {
                object_insert(&mut example, arg.name.clone(), json_clone(&arg.example));
            } else if !json_is_null(&arg.default) {
                object_insert(&mut example, arg.name.clone(), json_clone(&arg.default));
            }
            i += 1;
        }
        assert(self@.arguments.take(i as int) =~= self@.arguments);
        json_object(example)
    }

    /// The help document of the tool.
    pub fn get_help(&self) -> (r: serde_json::Value)
        ensures
            json_model(r) == JsonModel::Object(self@.help_entries()),
    {
        let mut help = object_new();
        object_insert(&mut help, "example".to_string(), self.get_example());
        let mut args = object_new();
        let mut i: usize = 0;
        while i < self.arguments.len()
            invariant
                i <= self.arguments.len(),
                object_entries(args) == argument_help_entries(self@.arguments.take(i as int)),
            decreases self.arguments.len() - i,
        {
            let arg = &self.arguments[i];
            proof {
                let next = self@.arguments.take(i + 1);
                assert(next.drop_last() =~= self@.arguments.take(i as int));
                assert(next.last() == arg@);
            }
            object_insert(&mut args, arg.name.clone(), arg.get_help());
            i += 1;
        }
        assert(self@.arguments.take(i as int) =~= self@.arguments);
        object_insert(&mut help, "arguments".to_string(), json_object(args));
        json_object(help)
    }
}

/// Brings a caller's raw arguments into the shape that the schema declares.
///
/// Each declared argument, in order, gets the caller's value as it is, else
/// its default, else nothing; the first required argument that has neither
/// fails the call with its name. What the caller gave under an undeclared key
/// is dropped.
pub fn canonicalize_tool_args(schema: &ToolSchema, args: &serde_json::Value) -> (r: Result<
    serde_json::Value,
    ToolError,
>)
    ensures
        match canonical_entries(schema@.arguments, json_model(*args)) {
            Ok(entries) => r matches Ok(v) && json_model(v) == JsonModel::Object(entries),
            Err(name) => r matches Err(e) && e@ == ToolFault::MissingRequiredArgument(name),
        },
        r matches Ok(v) ==> schema@.is_canonical(json_model(v)),
{
    let mut cargs = object_new();
    let mut i: usize = 0;
    while i < schema.arguments.len()
        invariant
            i <= schema.arguments.len(),
            canonical_entries(schema@.arguments.take(i as int), json_model(*args)) == Ok::<
                Map<Seq<char>, JsonModel>,
                Seq<char>,
            >(object_entries(cargs)),
        decreases schema.arguments.len() - i,
    {
        let arg = &schema.arguments[i];
        proof {
            let next = schema@.arguments.take(i + 1);
            assert(next.drop_last() =~= schema@.arguments.take(i as int));
            assert(next.last() == arg@);
        }
        match json_get(args, arg.name.as_str()) {
            Some(value) => {
                object_insert(&mut cargs, arg.name.clone(), json_clone(value));
            },
            None => {
                if !json_is_null(&arg.default) {
                    object_insert(&mut cargs, arg.name.clone(), json_clone(&arg.default));
                } else if arg.required {
                    proof {
                        lemma_canonical_error_stays(
                            schema@.arguments,
                            json_model(*args),
                            i + 1,
                        );
                    }
                    return Err(ToolError::MissingRequiredArgument(arg.name.clone()));
                }
            },
        }
        i += 1;
    }
    proof {
        assert(schema@.arguments.take(i as int) =~= schema@.arguments);
        lemma_canonical_is_canonical(schema@, json_model(*args));
    }
    Ok(json_object(cargs))
}

/// Once a prefix of the arguments has failed, the whole list fails with the
/// same name.
pub proof fn lemma_canonical_error_stays(args: Seq<ArgumentModel>, raw: JsonModel, n: int)
    requires
        0 <= n <= args.len(),
        canonical_entries(args.take(n), raw) is Err,
    ensures
        canonical_entries(args, raw) == canonical_entries(args.take(n), raw),
    decreases args.len() - n,
{
    if n == args.len() {
        assert(args.take(n) =~= args);
    } else {
        let next = args.take(n + 1);
        assert(next.drop_last() =~= args.take(n));
        lemma_canonical_error_stays(args, raw, n + 1);
    }
}

/// Canonical arguments never hold a key that the schema does not declare.
pub proof fn lemma_canonical_keys_are_declared(args: Seq<ArgumentModel>, raw: JsonModel)
    ensures
        canonical_entries(args, raw) matches Ok(entries) ==> forall|key: Seq<char>|
            entries.contains_key(key) ==> exists|i: int|
                0 <= i < args.len() && (#[trigger] args[i]).name == key,
    decreases args.len(),
{
    if args.len() > 0 {
        let front = args.drop_last();
        lemma_canonical_keys_are_declared(front, raw);
        if let Ok(entries) = canonical_entries(args, raw) {
            let acc = canonical_entries(front, raw)->Ok_0;
            assert forall|key: Seq<char>| entries.contains_key(key) implies exists|i: int|
                0 <= i < args.len() && (#[trigger] args[i]).name == key by {
                if acc.contains_key(key) {
                    let i = choose|i: int| 0 <= i < front.len() && (#[trigger] front[i]).name == key;
                    assert(args[i].name == key);
                } else {
                    assert(args[args.len() - 1].name == key);
                }
            }
        }
    }
}

/// Where the argument at `i` is required, has no default and is not given,
/// and no argument before it is missing in the same way, canonicalization
/// fails with the name of exactly that argument.
pub proof fn lemma_missing_required_is_named(args: Seq<ArgumentModel>, raw: JsonModel, i: int)
    requires
        0 <= i < args.len(),
        args[i].is_missing_in(raw),
        forall|j: int| 0 <= j < i ==> !(#[trigger] args[j]).is_missing_in(raw),
    ensures
        canonical_entries(args, raw) == Err::<Map<Seq<char>, JsonModel>, Seq<char>>(args[i].name),
{
    lemma_canonical_ok_without_missing(args.take(i), raw);
    let next = args.take(i + 1);
    assert(next.drop_last() =~= args.take(i));
    assert(next.last() == args[i]);
    lemma_canonical_error_stays(args, raw, i + 1);
}

/// Where no argument is missing, canonicalization succeeds.
pub proof fn lemma_canonical_ok_without_missing(args: Seq<ArgumentModel>, raw: JsonModel)
    requires
        forall|j: int| 0 <= j < args.len() ==> !(#[trigger] args[j]).is_missing_in(raw),
    ensures
        canonical_entries(args, raw) is Ok,
    decreases args.len(),
{
    if args.len() > 0 {
        let front = args.drop_last();
        assert forall|j: int| 0 <= j < front.len() implies !(#[trigger] front[j]).is_missing_in(
            raw,
        ) by {
            assert(front[j] == args[j]);
        }
        lemma_canonical_ok_without_missing(front, raw);
        assert(!args[args.len() - 1].is_missing_in(raw));
    }
}

/// Where canonicalization succeeds, no argument is missing, and the result
/// holds every argument that the caller gave or that has a default.
pub proof fn lemma_canonical_holds_arguments(args: Seq<ArgumentModel>, raw: JsonModel, i: int)
    requires
        canonical_entries(args, raw) is Ok,
        0 <= i < args.len(),
    ensures
        !args[i].is_missing_in(raw),
        model_get(raw, args[i].name) is Some || !(args[i].default is Null) ==> canonical_entries(
            args,
            raw,
        )->Ok_0.contains_key(args[i].name),
    decreases args.len(),
{
    if i < args.len() - 1 {
        let front = args.drop_last();
        assert(front[i] == args[i]);
        lemma_canonical_holds_arguments(front, raw, i);
    }
}

/// What canonicalization returns has the shape that the schema declares.
pub proof fn lemma_canonical_is_canonical(schema: SchemaModel, raw: JsonModel)
    requires
        canonical_entries(schema.arguments, raw) is Ok,
    ensures
        schema.is_canonical(JsonModel::Object(canonical_entries(schema.arguments, raw)->Ok_0)),
{
    let args = schema.arguments;
    let entries = canonical_entries(args, raw)->Ok_0;
    lemma_canonical_keys_are_declared(args, raw);
    assert forall|i: int|
        0 <= i < args.len() && ((#[trigger] args[i]).required || !(args[i].default is Null))
        implies entries.contains_key(args[i].name) by {
        lemma_canonical_holds_arguments(args, raw, i);
    }
}

/// The entries of `entries` whose key is the name of one of the first `n`
/// arguments.
spec fn declared_part(
    entries: Map<Seq<char>, JsonModel>,
    args: Seq<ArgumentModel>,
    n: int,
) -> Map<Seq<char>, JsonModel> {
    Map::new(
        |key: Seq<char>|
            entries.contains_key(key) && exists|i: int|
                0 <= i < n && i < args.len() && (#[trigger] args[i]).name == key,
        |key: Seq<char>| entries[key],
    )
}

/// Canonical arguments, taken as raw arguments, give back their own entries
/// argument by argument.
proof fn lemma_canonical_again(args: Seq<ArgumentModel>, raw: JsonModel, n: int)
    requires
        canonical_entries(args, raw) is Ok,
        0 <= n <= args.len(),
    ensures
        canonical_entries(
            args.take(n),
            JsonModel::Object(canonical_entries(args, raw)->Ok_0),
        ) matches Ok(part) && part == declared_part(canonical_entries(args, raw)->Ok_0, args, n),
    decreases n,
{
    let entries = canonical_entries(args, raw)->Ok_0;
    let again = JsonModel::Object(entries);
    if n == 0 {
        assert(args.take(0) =~= Seq::<ArgumentModel>::empty());
        assert(declared_part(entries, args, 0) =~= no_entries());
    } else {
        lemma_canonical_again(args, raw, n - 1);
        let prefix = args.take(n);
        assert(prefix.drop_last() =~= args.take(n - 1));
        let a = args[n - 1];
        assert(prefix.last() == a);
        lemma_canonical_holds_arguments(args, raw, n - 1);
        let before = declared_part(entries, args, n - 1);
        let after = declared_part(entries, args, n);
        if entries.contains_key(a.name) {
            assert(after =~= before.insert(a.name, entries[a.name]));
        } else {
            assert(after =~= before);
        }
    }
}

/// Canonicalization is idempotent: canonical arguments are their own
/// canonical form.
pub proof fn lemma_canonical_is_fixed(args: Seq<ArgumentModel>, raw: JsonModel)
    requires
        canonical_entries(args, raw) is Ok,
    ensures
        canonical_entries(args, JsonModel::Object(canonical_entries(args, raw)->Ok_0))
            == canonical_entries(args, raw),
{
    let entries = canonical_entries(args, raw)->Ok_0;
    lemma_canonical_again(args, raw, args.len() as int);
    assert(args.take(args.len() as int) =~= args);
    lemma_canonical_keys_are_declared(args, raw);
    assert(declared_part(entries, args, args.len() as int) =~= entries);
}

/// An example document holds an entry for every argument that has an example
/// or a default.
pub proof fn lemma_example_has_samples(args: Seq<ArgumentModel>, i: int)
    requires
        0 <= i < args.len(),
        !(args[i].sample() is Null),
    ensures
        example_entries(args).contains_key(args[i].name),
    decreases args.len(),
{
    if i < args.len() - 1 {
        let front = args.drop_last();
        assert(front[i] == args[i]);
        lemma_example_has_samples(front, i);
    }
}

/// The example of a well-formed schema is self-sufficient: given back as raw
/// arguments, it canonicalizes without a missing argument.
pub proof fn lemma_example_canonicalizes(schema: SchemaModel)
    requires
        schema.wf(),
    ensures
        canonical_entries(schema.arguments, schema.example()) is Ok,
{
    let args = schema.arguments;
    assert forall|j: int| 0 <= j < args.len() implies !(#[trigger] args[j]).is_missing_in(
        schema.example(),
    ) by {
        assert(args[j].wf());
        if args[j].default is Null && args[j].required {
            lemma_example_has_samples(args, j);
        }
    }
    lemma_canonical_ok_without_missing(args, schema.example());
}

} // verus!
