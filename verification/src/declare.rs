//! Tool schemas from declarations.
//!
//! A tool's arguments are declared as a record: the record carries an
//! attribute with the tool's `name` and `help`, and each field carries one with
//! its `help`, whether it is `required`, and its `default` and `example` as
//! JSON literals. This module checks such a declaration and builds the
//! [`ToolSchema`] that it stands for. The declaration arrives already split
//! into items; reading it from source text is the caller's business.

use crate::json::{json_error_text, json_from_slice, json_model, json_null, json_of_bytes, JsonModel};
use crate::schema::{ArgumentModel, SchemaModel, ToolArgument, ToolSchema};
use crate::text::{str_eq, text_of};
use vstd::prelude::*;
use vstd::string::StringExecFns;
use vstd::string::StringSliceAdditionalSpecFns;

verus! {

/// What kind of literal the value of `key = value` is.
#[derive(Debug)]
pub enum Literal {
    /// A string literal, with the text it denotes.
    Str(String),
    /// `true` or `false`.
    Bool(bool),
    /// Any other expression.
    Other,
}

/// The value of `key = value`: its kind, and its source text.
#[derive(Debug)]
pub struct AttrValue {
    pub literal: Literal,
    pub tokens: String,
}

/// One item of an attribute's argument list. The name of an item is its
/// leading identifier; a longer path has a name that is no identifier.
#[derive(Debug)]
pub enum AttrItem {
    /// A bare word, as in `required`.
    Path(String),
    /// `key = value`.
    NameValue(String, AttrValue),
    /// `key(...)`.
    List(String),
}

/// The attribute of a record or of a field.
#[derive(Debug)]
pub enum Attribute {
    /// There is none.
    Absent,
    /// Its arguments are no list of items; the text says why.
    Unparsed(String),
    /// Its items, in source order.
    Items(Vec<AttrItem>),
}

/// What kind of item a declaration is.
#[derive(Debug, Clone, Copy, PartialEq, Eq, Structural)]
pub enum DeclShape {
    /// A record with named fields.
    NamedStruct,
    /// A record without named fields.
    OtherStruct,
    /// Not a record at all.
    NotStruct,
}

/// One field of a declared record.
#[derive(Debug)]
pub struct FieldDecl {
    pub name: String,
    pub type_: String,
    pub attribute: Attribute,
}

/// A declared record.
#[derive(Debug)]
pub struct StructDecl {
    pub shape: DeclShape,
    pub attribute: Attribute,
    pub fields: Vec<FieldDecl>,
}

/// What a field's attribute says.
#[derive(Debug)]
pub struct FieldMeta {
    pub help: String,
    pub required: bool,
    /// The source text of the default, where one is given.
    pub default: Option<String>,
    /// The source text of the example, where one is given.
    pub example: Option<String>,
}

/// What a record's attribute says.
#[derive(Debug)]
pub struct StructMeta {
    pub name: String,
    pub help: String,
}

/// Why a declaration is refused.
#[derive(Debug, Clone, Copy, PartialEq, Eq, Structural)]
pub enum AttrFault {
    Syntax,
    ExpectedStringLiteral,
    ExpectedBooleanLiteral,
    ExpectedRequired,
    UnknownFieldKey,
    UnknownStructKey,
    MissingName,
    MissingHelp,
    MissingDefaultOrExample,
    MissingDefault,
    MissingAttribute,
    OnlyNamedFields,
    OnlyStructs,
    InvalidJson,
}

/// A refused declaration: the reason, and for a syntax or JSON error the text
/// of the underlying complaint.
#[derive(Debug)]
pub struct AttrError {
    pub fault: AttrFault,
    pub detail: String,
}

/// The mathematical content of a [`Literal`].
pub enum LiteralModel {
    Str(Seq<char>),
    Bool(bool),
    Other,
}

/// The mathematical content of an [`AttrValue`].
pub struct AttrValueModel {
    pub literal: LiteralModel,
    pub tokens: Seq<char>,
}

/// The mathematical content of an [`AttrItem`].
pub enum AttrItemModel {
    Path(Seq<char>),
    NameValue(Seq<char>, AttrValueModel),
    List(Seq<char>),
}

/// The mathematical content of an [`Attribute`].
pub enum AttributeModel {
    Absent,
    Unparsed,
    Items(Seq<AttrItemModel>),
}

/// The mathematical content of a [`FieldDecl`].
pub struct FieldDeclModel {
    pub name: Seq<char>,
    pub type_: Seq<char>,
    pub attribute: AttributeModel,
}

/// The mathematical content of a [`StructDecl`].
pub struct StructDeclModel {
    pub shape: DeclShape,
    pub attribute: AttributeModel,
    pub fields: Seq<FieldDeclModel>,
}

/// The mathematical content of a [`FieldMeta`].
pub struct FieldMetaModel {
    pub help: Seq<char>,
    pub required: bool,
    pub default: Option<Seq<char>>,
    pub example: Option<Seq<char>>,
}

/// The mathematical content of a [`StructMeta`].
pub struct StructMetaModel {
    pub name: Seq<char>,
    pub help: Seq<char>,
}

impl View for Literal {
    type V = LiteralModel;

    open spec fn view(&self) -> LiteralModel {
        match self {
            Literal::Str(s) => LiteralModel::Str(s@),
            Literal::Bool(b) => LiteralModel::Bool(*b),
            Literal::Other => LiteralModel::Other,
        }
    }
}

impl View for AttrValue {
    type V = AttrValueModel;

    open spec fn view(&self) -> AttrValueModel {
        AttrValueModel { literal: self.literal@, tokens: self.tokens@ }
    }
}

impl View for AttrItem {
    type V = AttrItemModel;

    open spec fn view(&self) -> AttrItemModel {
        match self {
            AttrItem::Path(name) => AttrItemModel::Path(name@),
            AttrItem::NameValue(name, value) => AttrItemModel::NameValue(name@, value@),
            AttrItem::List(name) => AttrItemModel::List(name@),
        }
    }
}

/// The content of each item of a list.
pub open spec fn item_models(items: Seq<AttrItem>) -> Seq<AttrItemModel> {
    Seq::new(items.len(), |i: int| items[i]@)
}

impl View for Attribute {
    type V = AttributeModel;

    open spec fn view(&self) -> AttributeModel {
        match self {
            Attribute::Absent => AttributeModel::Absent,
            Attribute::Unparsed(_) => AttributeModel::Unparsed,
            Attribute::Items(items) => AttributeModel::Items(item_models(items@)),
        }
    }
}

impl View for FieldDecl {
    type V = FieldDeclModel;

    open spec fn view(&self) -> FieldDeclModel {
        FieldDeclModel { name: self.name@, type_: self.type_@, attribute: self.attribute@ }
    }
}

impl View for StructDecl {
    type V = StructDeclModel;

    open spec fn view(&self) -> StructDeclModel {
        StructDeclModel {
            shape: self.shape,
            attribute: self.attribute@,
            fields: Seq::new(self.fields@.len(), |i: int| self.fields@[i]@),
        }
    }
}

impl View for FieldMeta {
    type V = FieldMetaModel;

    open spec fn view(&self) -> FieldMetaModel {
        FieldMetaModel {
            help: self.help@,
            required: self.required,
            default: text_of(self.default),
            example: text_of(self.example),
        }
    }
}

impl View for StructMeta {
    type V = StructMetaModel;

    open spec fn view(&self) -> StructMetaModel {
        StructMetaModel { name: self.name@, help: self.help@ }
    }
}

/// The text that the value of `key = value` must denote as a string literal.
pub open spec fn string_literal(value: AttrValueModel) -> Result<Seq<char>, AttrFault> {
    match value.literal {
        LiteralModel::Str(s) => Ok(s),
        _ => Err(AttrFault::ExpectedStringLiteral),
    }
}

/// What a field attribute says before any item is read.
pub open spec fn empty_field_meta() -> FieldMetaModel {
    FieldMetaModel { help: Seq::empty(), required: false, default: None, example: None }
}

/// What one item adds to what a field attribute has said so far.
pub open spec fn field_item_step(meta: FieldMetaModel, item: AttrItemModel) -> Result<
    FieldMetaModel,
    AttrFault,
> {
    match item {
        AttrItemModel::Path(name) => if name == "required"@ {
            Ok(FieldMetaModel { required: true, ..meta })
        } else {
            Err(AttrFault::ExpectedRequired)
        },
        AttrItemModel::NameValue(name, value) => if name == "help"@ {
            match string_literal(value) {
                Ok(text) => Ok(FieldMetaModel { help: text, ..meta }),
                Err(fault) => Err(fault),
            }
        } else if name == "required"@ {
            match value.literal {
                LiteralModel::Bool(b) => Ok(FieldMetaModel { required: b, ..meta }),
                _ => Err(AttrFault::ExpectedBooleanLiteral),
            }
        } else if name == "default"@ {
            Ok(FieldMetaModel { default: Some(value.tokens), ..meta })
        } else if name == "example"@ {
            Ok(FieldMetaModel { example: Some(value.tokens), ..meta })
        } else {
            Err(AttrFault::UnknownFieldKey)
        },
        AttrItemModel::List(_) => Err(AttrFault::UnknownFieldKey),
    }
}

/// What the items of a field attribute say, read in order up to the first
/// refused one.
pub open spec fn field_items(items: Seq<AttrItemModel>) -> Result<FieldMetaModel, AttrFault>
    decreases items.len(),
{
    if items.len() == 0 {
        Ok(empty_field_meta())
    } else {
        match field_items(items.drop_last()) {
            Ok(meta) => field_item_step(meta, items.last()),
            Err(fault) => Err(fault),
        }
    }
}

/// Whether what a field attribute says is complete: it has a help text; a
/// required field has a default or an example; an optional one has a default.
pub open spec fn field_meta_complete(meta: FieldMetaModel) -> Result<FieldMetaModel, AttrFault> {
    if meta.help.len() == 0 {
        Err(AttrFault::MissingHelp)
    } else if meta.required && meta.default is None && meta.example is None {
        Err(AttrFault::MissingDefaultOrExample)
    } else if !meta.required && meta.default is None {
        Err(AttrFault::MissingDefault)
    } else {
        Ok(meta)
    }
}

/// What a field attribute with these items says, or why it is refused.
pub open spec fn field_meta_of(items: Seq<AttrItemModel>) -> Result<FieldMetaModel, AttrFault> {
    match field_items(items) {
        Ok(meta) => field_meta_complete(meta),
        Err(fault) => Err(fault),
    }
}

/// What a record attribute says before any item is read.
pub open spec fn empty_struct_meta() -> StructMetaModel {
    StructMetaModel { name: Seq::empty(), help: Seq::empty() }
}

/// What one item adds to what a record attribute has said so far.
pub open spec fn struct_item_step(meta: StructMetaModel, item: AttrItemModel) -> Result<
    StructMetaModel,
    AttrFault,
> {
    match item {
        AttrItemModel::NameValue(name, value) => if name == "name"@ {
            match string_literal(value) {
                Ok(text) => Ok(StructMetaModel { name: text, ..meta }),
                Err(fault) => Err(fault),
            }
        } else if name == "help"@ {
            match string_literal(value) {
                Ok(text) => Ok(StructMetaModel { help: text, ..meta }),
                Err(fault) => Err(fault),
            }
        } else {
            Err(AttrFault::UnknownStructKey)
        },
        _ => Err(AttrFault::UnknownStructKey),
    }
}

/// What the items of a record attribute say, read in order up to the first
/// refused one.
pub open spec fn struct_items(items: Seq<AttrItemModel>) -> Result<StructMetaModel, AttrFault>
    decreases items.len(),
{
    if items.len() == 0 {
        Ok(empty_struct_meta())
    } else {
        match struct_items(items.drop_last()) {
            Ok(meta) => struct_item_step(meta, items.last()),
            Err(fault) => Err(fault),
        }
    }
}

/// What a record attribute with these items says, or why it is refused: it
/// must name the tool and say what it does.
pub open spec fn struct_meta_of(items: Seq<AttrItemModel>) -> Result<StructMetaModel, AttrFault> {
    match struct_items(items) {
        Ok(meta) => if meta.name.len() == 0 {
            Err(AttrFault::MissingName)
        } else if meta.help.len() == 0 {
            Err(AttrFault::MissingHelp)
        } else {
            Ok(meta)
        },
        Err(fault) => Err(fault),
    }
}

/// The JSON value that an optional literal denotes: null where none is given,
/// `None` where the text is no JSON.
pub open spec fn json_literal(tokens: Option<Seq<char>>) -> Option<JsonModel> {
    match tokens {
        Some(text) => json_of_bytes(vstd::utf8::encode_utf8(text)),
        None => Some(JsonModel::Null),
    }
}

/// The argument that a field declares, or why the field is refused.
pub open spec fn derived_argument(field: FieldDeclModel) -> Result<ArgumentModel, AttrFault> {
    match field.attribute {
        AttributeModel::Absent => Err(AttrFault::MissingAttribute),
        AttributeModel::Unparsed => Err(AttrFault::Syntax),
        AttributeModel::Items(items) => match field_meta_of(items) {
            Err(fault) => Err(fault),
            Ok(meta) => match json_literal(meta.default) {
                None => Err(AttrFault::InvalidJson),
                Some(default) => match json_literal(meta.example) {
                    None => Err(AttrFault::InvalidJson),
                    Some(example) => Ok(
                        ArgumentModel {
                            name: field.name,
                            help: meta.help,
                            type_: field.type_,
                            required: meta.required,
                            default,
                            example,
                        },
                    ),
                },
            },
        },
    }
}

/// The arguments that a record's fields declare, in order, or why the first
/// refused field is refused.
pub open spec fn derived_arguments(fields: Seq<FieldDeclModel>) -> Result<
    Seq<ArgumentModel>,
    AttrFault,
>
    decreases fields.len(),
{
    if fields.len() == 0 {
        Ok(Seq::empty())
    } else {
        match derived_arguments(fields.drop_last()) {
            Err(fault) => Err(fault),
            Ok(args) => match derived_argument(fields.last()) {
                Err(fault) => Err(fault),
                Ok(arg) => Ok(args.push(arg)),
            },
        }
    }
}

/// What a record attribute says, or why it is refused.
pub open spec fn struct_attribute(attribute: AttributeModel) -> Result<StructMetaModel, AttrFault> {
    match attribute {
        AttributeModel::Absent => Err(AttrFault::MissingAttribute),
        AttributeModel::Unparsed => Err(AttrFault::Syntax),
        AttributeModel::Items(items) => struct_meta_of(items),
    }
}

/// The schema that a declaration stands for, or why it is refused. The shape
/// is checked first, then the fields in order, then the record's attribute.
pub open spec fn derived_schema(input: StructDeclModel) -> Result<SchemaModel, AttrFault> {
    match input.shape {
        DeclShape::NotStruct => Err(AttrFault::OnlyStructs),
        DeclShape::OtherStruct => Err(AttrFault::OnlyNamedFields),
        DeclShape::NamedStruct => match derived_arguments(input.fields) {
            Err(fault) => Err(fault),
            Ok(arguments) => match struct_attribute(input.attribute) {
                Err(fault) => Err(fault),
                Ok(meta) => Ok(SchemaModel { name: meta.name, help: meta.help, arguments }),
            },
        },
    }
}

impl AttrFault {
    /// The text reported for the fault.
    pub open spec fn text(self) -> Seq<char> {
        match self {
            AttrFault::Syntax => "malformed attribute arguments"@,
            AttrFault::ExpectedStringLiteral => "expected string literal"@,
            AttrFault::ExpectedBooleanLiteral => "expected boolean literal"@,
            AttrFault::ExpectedRequired => "expected one of `required`"@,
            AttrFault::UnknownFieldKey => "expected one of `help`, `required`, `default`, `example`"@,
            AttrFault::UnknownStructKey => "expected one of `name`, `help`"@,
            AttrFault::MissingName => "Missing `name` attribute"@,
            AttrFault::MissingHelp => "Missing `help` attribute"@,
            AttrFault::MissingDefaultOrExample => "Missing `default` or `example` attribute for required field"@,
            AttrFault::MissingDefault => "Missing `default` attribute for optional field"@,
            AttrFault::MissingAttribute => "Missing `tool_protocol` attribute"@,
            AttrFault::OnlyNamedFields => "Only named fields are supported"@,
            AttrFault::OnlyStructs => "Only structs are supported"@,
            AttrFault::InvalidJson => "invalid JSON literal"@,
        }
    }

    /// The text reported for the fault.
    pub fn message(self) -> (r: String)
        ensures
            r@ == self.text(),
    {
        match self {
            AttrFault::Syntax => String::from_str("malformed attribute arguments"),
            AttrFault::ExpectedStringLiteral => String::from_str("expected string literal"),
            AttrFault::ExpectedBooleanLiteral => String::from_str("expected boolean literal"),
            AttrFault::ExpectedRequired => String::from_str("expected one of `required`"),
            AttrFault::UnknownFieldKey => String::from_str(
                "expected one of `help`, `required`, `default`, `example`",
            ),
            AttrFault::UnknownStructKey => String::from_str("expected one of `name`, `help`"),
            AttrFault::MissingName => String::from_str("Missing `name` attribute"),
            AttrFault::MissingHelp => String::from_str("Missing `help` attribute"),
            AttrFault::MissingDefaultOrExample => String::from_str(
                "Missing `default` or `example` attribute for required field",
            ),
            AttrFault::MissingDefault => String::from_str(
                "Missing `default` attribute for optional field",
            ),
            AttrFault::MissingAttribute => String::from_str("Missing `tool_protocol` attribute"),
            AttrFault::OnlyNamedFields => String::from_str("Only named fields are supported"),
            AttrFault::OnlyStructs => String::from_str("Only structs are supported"),
            AttrFault::InvalidJson => String::from_str("invalid JSON literal"),
        }
    }
}

impl AttrError {
    /// The error reports `fault`: it names it, and its detail is the text of
    /// the fault, except where the fault hands on a complaint from elsewhere,
    /// which a syntax or JSON fault does.
    pub open spec fn reports(self, fault: AttrFault) -> bool {
        self.fault == fault && (fault != AttrFault::Syntax && fault != AttrFault::InvalidJson
            ==> self.detail@ == fault.text())
    }

    /// The error for a fault that needs no further text.
    pub fn of(fault: AttrFault) -> (r: AttrError)
        ensures
            r.fault == fault,
            r.detail@ == fault.text(),
    {
        AttrError { fault, detail: fault.message() }
    }
}

/// The text that the value of `key = value` denotes, which must be a string
/// literal.
pub fn parse_name_value_string_attr(value: &AttrValue) -> (r: Result<String, AttrError>)
    ensures
        match string_literal(value@) {
            Ok(text) => r matches Ok(s) && s@ == text,
            Err(fault) => r matches Err(e) && e.reports(fault),
        },
{
    match &value.literal {
        Literal::Str(s) => Ok(s.clone()),
        _ => Err(AttrError::of(AttrFault::ExpectedStringLiteral)),
    }
}

/// Reads the items of a field's attribute.
pub fn parse_protocol_field_attr_list(items: &Vec<AttrItem>) -> (r: Result<FieldMeta, AttrError>)
    ensures
        match field_meta_of(item_models(items@)) {
            Ok(meta) => r matches Ok(m) && m@ == meta,
            Err(fault) => r matches Err(e) && e.reports(fault),
        },
{
    let mut help = String::new();
    let mut required = false;
    let mut default: Option<String> = None;
    let mut example: Option<String> = None;
    let ghost all = item_models(items@);

    let mut i: usize = 0;
    while i < items.len()
        invariant
            i <= items.len(),
            all == item_models(items@),
            field_items(all.take(i as int)) matches Ok(meta) && meta == (FieldMetaModel {
                help: help@,
                required,
                default: text_of(default),
                example: text_of(example),
            }),
        decreases items.len() - i,
    {
        proof {
            let next = all.take(i + 1);
            assert(next.drop_last() =~= all.take(i as int));
            assert(next.last() == items@[i as int]@);
        }
        let ghost before = field_items(all.take(i as int))->Ok_0;
        let mut fault: Option<AttrFault> = None;
        match &items[i] {
            AttrItem::Path(name) => {
                if str_eq(name.as_str(), "required") {
                    required = true;
                } else {
                    fault = Some(AttrFault::ExpectedRequired);
                }
            },
            AttrItem::NameValue(name, value) => {
                if str_eq(name.as_str(), "help") {
                    match parse_name_value_string_attr(value) {
                        Ok(text) => {
                            help = text;
                        },
                        Err(e) => {
                            fault = Some(e.fault);
                        },
                    }
                } else if str_eq(name.as_str(), "required") {
                    match &value.literal {
                        Literal::Bool(b) => {
                            required = *b;
                        },
                        _ => {
                            fault = Some(AttrFault::ExpectedBooleanLiteral);
                        },
                    }
                } else if str_eq(name.as_str(), "default") {
                    default = Some(value.tokens.clone());
                } else if str_eq(name.as_str(), "example") {
                    example = Some(value.tokens.clone());
                } else {
                    fault = Some(AttrFault::UnknownFieldKey);
                }
            },
            AttrItem::List(_) => {
                fault = Some(AttrFault::UnknownFieldKey);
            },
        }
        if let Some(f) = fault {
            proof {
                assert(field_item_step(before, items@[i as int]@) == Err::<
                    FieldMetaModel,
                    AttrFault,
                >(f));
                lemma_field_items_error_stays(all, i + 1);
            }
            return Err(AttrError::of(f));
        }
        i += 1;
    }
    proof {
        assert(all.take(i as int) =~= all);
    }
    if help.as_str().is_empty() {
        Err(AttrError::of(AttrFault::MissingHelp))
    } else if required && default.is_none() && example.is_none() {
        Err(AttrError::of(AttrFault::MissingDefaultOrExample))
    } else if !required && default.is_none() {
        Err(AttrError::of(AttrFault::MissingDefault))
    } else {
        Ok(FieldMeta { help, required, default, example })
    }
}

/// Once a prefix of a field attribute's items is refused, the whole list is
/// refused for the same reason.
pub proof fn lemma_field_items_error_stays(items: Seq<AttrItemModel>, n: int)
    requires
        0 <= n <= items.len(),
        field_items(items.take(n)) is Err,
    ensures
        field_items(items) == field_items(items.take(n)),
    decreases items.len() - n,
{
    if n == items.len() {
        assert(items.take(n) =~= items);
    } else {
        let next = items.take(n + 1);
        assert(next.drop_last() =~= items.take(n));
        lemma_field_items_error_stays(items, n + 1);
    }
}

/// Once a prefix of a record attribute's items is refused, the whole list is
/// refused for the same reason.
pub proof fn lemma_struct_items_error_stays(items: Seq<AttrItemModel>, n: int)
    requires
        0 <= n <= items.len(),
        struct_items(items.take(n)) is Err,
    ensures
        struct_items(items) == struct_items(items.take(n)),
    decreases items.len() - n,
{
    if n == items.len() {
        assert(items.take(n) =~= items);
    } else {
        let next = items.take(n + 1);
        assert(next.drop_last() =~= items.take(n));
        lemma_struct_items_error_stays(items, n + 1);
    }
}

/// Reads the items of a record's attribute.
pub fn parse_protocol_struct_attr_list(items: &Vec<AttrItem>) -> (r: Result<StructMeta, AttrError>)
    ensures
        match struct_meta_of(item_models(items@)) {
            Ok(meta) => r matches Ok(m) && m@ == meta,
            Err(fault) => r matches Err(e) && e.reports(fault),
        },
{
    let mut name = String::new();
    let mut help = String::new();
    let ghost all = item_models(items@);

    let mut i: usize = 0;
    while i < items.len()
        invariant
            i <= items.len(),
            all == item_models(items@),
            struct_items(all.take(i as int)) matches Ok(meta) && meta == (StructMetaModel {
                name: name@,
                help: help@,
            }),
        decreases items.len() - i,
    {
        proof {
            let next = all.take(i + 1);
            assert(next.drop_last() =~= all.take(i as int));
            assert(next.last() == items@[i as int]@);
        }
        let ghost before = struct_items(all.take(i as int))->Ok_0;
        let mut fault: Option<AttrFault> = None;
        match &items[i] {
            AttrItem::NameValue(key, value) => {
                if str_eq(key.as_str(), "name") {
                    match parse_name_value_string_attr(value) {
                        Ok(text) => {
                            name = text;
                        },
                        Err(e) => {
                            fault = Some(e.fault);
                        },
                    }
                } else if str_eq(key.as_str(), "help") {
                    match parse_name_value_string_attr(value) {
                        Ok(text) => {
                            help = text;
                        },
                        Err(e) => {
                            fault = Some(e.fault);
                        },
                    }
                } else {
                    fault = Some(AttrFault::UnknownStructKey);
                }
            },
            _ => {
                fault = Some(AttrFault::UnknownStructKey);
            },
        }
        if let Some(f) = fault {
            proof {
                assert(struct_item_step(before, items@[i as int]@) == Err::<
                    StructMetaModel,
                    AttrFault,
                >(f));
                lemma_struct_items_error_stays(all, i + 1);
            }
            return Err(AttrError::of(f));
        }
        i += 1;
    }
    proof {
        assert(all.take(i as int) =~= all);
    }
    if name.as_str().is_empty() {
        Err(AttrError::of(AttrFault::MissingName))
    } else if help.as_str().is_empty() {
        Err(AttrError::of(AttrFault::MissingHelp))
    } else {
        Ok(StructMeta { name, help })
    }
}

/// The JSON value that an optional literal denotes: null where none is given.
pub fn parse_json_value(tokens: &Option<String>) -> (r: Result<serde_json::Value, AttrError>)
    ensures
        match json_literal(text_of(*tokens)) {
            Some(model) => r matches Ok(v) && json_model(v) == model,
            None => r matches Err(e) && e.reports(AttrFault::InvalidJson),
        },
{
    match tokens {
        Some(text) => match json_from_slice(text.as_str().as_bytes()) {
            Ok(value) => Ok(value),
            Err(e) => Err(AttrError { fault: AttrFault::InvalidJson, detail: json_error_text(&e) }),
        },
        None => Ok(json_null()),
    }
}

/// What an attribute's items say of a field, or why the attribute is refused.
fn field_attribute(attribute: &Attribute) -> (r: Result<FieldMeta, AttrError>)
    ensures
        match attribute@ {
            AttributeModel::Absent => r matches Err(e) && e.reports(AttrFault::MissingAttribute),
            AttributeModel::Unparsed => r matches Err(e) && e.reports(AttrFault::Syntax),
            AttributeModel::Items(items) => match field_meta_of(items) {
                Ok(meta) => r matches Ok(m) && m@ == meta,
                Err(fault) => r matches Err(e) && e.reports(fault),
            },
        },
{
    match attribute {
        Attribute::Absent => Err(AttrError::of(AttrFault::MissingAttribute)),
        Attribute::Unparsed(why) => Err(AttrError { fault: AttrFault::Syntax, detail: why.clone() }),
        Attribute::Items(items) => parse_protocol_field_attr_list(items),
    }
}

/// The argument that a field declares.
pub fn derive_argument(field: &FieldDecl) -> (r: Result<ToolArgument, AttrError>)
    ensures
        match derived_argument(field@) {
            Ok(arg) => r matches Ok(a) && a@ == arg,
            Err(fault) => r matches Err(e) && e.reports(fault),
        },
{
    let meta = match field_attribute(&field.attribute) {
        Ok(meta) => meta,
        Err(e) => {
            return Err(e);
        },
    };
    let default = match parse_json_value(&meta.default) {
        Ok(value) => value,
        Err(e) => {
            return Err(e);
        },
    };
    let example = match parse_json_value(&meta.example) {
        Ok(value) => value,
        Err(e) => {
            return Err(e);
        },
    };
    Ok(
        ToolArgument {
            name: field.name.clone(),
            help: meta.help,
            type_: field.type_.clone(),
            required: meta.required,
            default,
            example,
        },
    )
}

/// Once a prefix of the fields is refused, the whole record is refused for
/// the same reason.
pub proof fn lemma_derived_arguments_error_stays(fields: Seq<FieldDeclModel>, n: int)
    requires
        0 <= n <= fields.len(),
        derived_arguments(fields.take(n)) is Err,
    ensures
        derived_arguments(fields) == derived_arguments(fields.take(n)),
    decreases fields.len() - n,
{
    if n == fields.len() {
        assert(fields.take(n) =~= fields);
    } else {
        let next = fields.take(n + 1);
        assert(next.drop_last() =~= fields.take(n));
        lemma_derived_arguments_error_stays(fields, n + 1);
    }
}

/// Builds the schema that a declaration stands for.
///
/// The declaration must be a record with named fields. Each field must carry
/// a complete attribute whose default and example are JSON, and the record
/// must carry an attribute with the tool's name and help. The first fault
/// found, in that order, refuses the declaration.
pub fn derive_tool_protocol(input: &StructDecl) -> (r: Result<ToolSchema, AttrError>)
    ensures
        match derived_schema(input@) {
            Ok(schema) => r matches Ok(s) && s@ == schema,
            Err(fault) => r matches Err(e) && e.reports(fault),
        },
{
    match input.shape {
        DeclShape::NotStruct => {
            return Err(AttrError::of(AttrFault::OnlyStructs));
        },
        DeclShape::OtherStruct => {
            return Err(AttrError::of(AttrFault::OnlyNamedFields));
        },
        DeclShape::NamedStruct => {},
    }
    let ghost fields = input@.fields;
    let mut arguments: Vec<ToolArgument> = Vec::new();
    let mut i: usize = 0;
    while i < input.fields.len()
        invariant
            i <= input.fields.len(),
            input.shape == DeclShape::NamedStruct,
            fields == input@.fields,
            derived_arguments(fields.take(i as int)) matches Ok(args) && args == Seq::new(
                arguments@.len(),
                |k: int| arguments@[k]@,
            ),
        decreases input.fields.len() - i,
    {
        proof {
            let next = fields.take(i + 1);
            assert(next.drop_last() =~= fields.take(i as int));
            assert(next.last() == input.fields@[i as int]@);
        }
        let ghost before = Seq::new(arguments@.len(), |k: int| arguments@[k]@);
        match derive_argument(&input.fields[i]) {
            Ok(argument) => {
                arguments.push(argument);
                assert(Seq::new(arguments@.len(), |k: int| arguments@[k]@) =~= before.push(
                    argument@,
                ));
            },
            Err(e) => {
                proof {
                    lemma_derived_arguments_error_stays(fields, i + 1);
                }
                return Err(e);
            },
        }
        i += 1;
    }
    proof {
        assert(fields.take(i as int) =~= fields);
    }
    let meta = match &input.attribute {
        Attribute::Absent => {
            return Err(AttrError::of(AttrFault::MissingAttribute));
        },
        Attribute::Unparsed(why) => {
            return Err(AttrError { fault: AttrFault::Syntax, detail: why.clone() });
        },
        Attribute::Items(items) => match parse_protocol_struct_attr_list(items) {
            Ok(meta) => meta,
            Err(e) => {
                return Err(e);
            },
        },
    };
    Ok(ToolSchema { name: meta.name, help: meta.help, arguments })
}

/// A JSON literal that is given and is not `null`.
pub open spec fn gives_value(tokens: Option<Seq<char>>) -> bool {
    tokens is Some && json_literal(tokens) is Some && !(json_literal(tokens)->Some_0 is Null)
}

/// Whatever default and example the field's attribute gives is a JSON value
/// other than `null`.
pub open spec fn gives_values(field: FieldDeclModel) -> bool {
    field.attribute matches AttributeModel::Items(items) && (field_meta_of(items) matches Ok(meta)
        && (meta.default is Some ==> gives_value(meta.default)) && (meta.example is Some
        ==> gives_value(meta.example)))
}

/// What a complete field attribute promises of the argument it declares: a
/// required one has a default or an example, an optional one a default,
/// provided that the literals given are not `null`.
pub proof fn lemma_derived_argument_wf(field: FieldDeclModel)
    requires
        derived_argument(field) is Ok,
        gives_values(field),
    ensures
        derived_argument(field)->Ok_0.wf(),
{
}

/// The arguments that fields declare are as many as the fields.
pub proof fn lemma_derived_arguments_len(fields: Seq<FieldDeclModel>)
    requires
        derived_arguments(fields) is Ok,
    ensures
        derived_arguments(fields)->Ok_0.len() == fields.len(),
    decreases fields.len(),
{
    if fields.len() > 0 {
        lemma_derived_arguments_len(fields.drop_last());
    }
}

/// Each of the arguments that fields declare is the argument that its field
/// declares.
pub proof fn lemma_derived_arguments_by_field(fields: Seq<FieldDeclModel>, i: int)
    requires
        derived_arguments(fields) is Ok,
        0 <= i < fields.len(),
    ensures
        derived_argument(fields[i]) is Ok,
        derived_arguments(fields)->Ok_0[i] == derived_argument(fields[i])->Ok_0,
    decreases fields.len(),
{
    let front = fields.drop_last();
    lemma_derived_arguments_len(front);
    if i < fields.len() - 1 {
        assert(front[i] == fields[i]);
        lemma_derived_arguments_by_field(front, i);
    }
}

/// A declaration that is accepted stands for a well-formed schema: the tool
/// has a name, every required argument has a default or an example, and every
/// optional one a default, provided that the literals given are not `null`.
pub proof fn lemma_derived_schema_wf(input: StructDeclModel)
    requires
        derived_schema(input) is Ok,
        forall|i: int| 0 <= i < input.fields.len() ==> gives_values(#[trigger] input.fields[i]),
    ensures
        derived_schema(input)->Ok_0.wf(),
{
    let schema = derived_schema(input)->Ok_0;
    lemma_derived_arguments_len(input.fields);
    assert forall|i: int| 0 <= i < schema.arguments.len() implies (#[trigger] schema.arguments[i]).wf() by {
        lemma_derived_arguments_by_field(input.fields, i);
        lemma_derived_argument_wf(input.fields[i]);
    }
}

} // verus!
