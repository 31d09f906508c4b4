//! The tool catalog: the tools that a peer can call, each with its name,
//! its purpose in words, and the shape of its arguments.
//!
//! The catalog is a fixed table. It holds `add_memory` and `get_memories`,
//! in that order.

use crate::arguments::Shape;
use vstd::prelude::*;
use vstd::string::*;

verus! {

/// The kind of value that a field takes.
#[derive(Clone, Copy, Debug, PartialEq, Eq)]
pub enum FieldKind {
    Text,
    Number,
    Boolean,
    List,
    Mapping,
}

/// One field of a tool's arguments.
#[derive(Clone, Debug, PartialEq, Eq)]
pub struct SchemaField {
    pub name: String,
    pub description: String,
    pub kind: FieldKind,
    pub required: bool,
}

/// The shape of a tool's arguments: the fields that it reads.
#[derive(Clone, Debug, PartialEq, Eq)]
pub struct ArgumentSchema {
    pub fields: Vec<SchemaField>,
}

/// A tool as the catalog shows it.
#[derive(Clone, Debug, PartialEq, Eq)]
pub struct ToolDescriptor {
    pub name: String,
    pub description: String,
    pub argument_schema: ArgumentSchema,
}

/// The name of the tool that saves a note.
pub open spec fn add_memory_name() -> Seq<char> {
    "add_memory"@
}

/// The name of the tool that reads all notes.
pub open spec fn get_memories_name() -> Seq<char> {
    "get_memories"@
}

/// The name of the one field of `add_memory`.
pub open spec fn content_field_name() -> Seq<char> {
    "content"@
}

/// A value has the shape that a field of the given kind takes.
pub open spec fn takes(kind: FieldKind, value: Shape) -> bool {
    match kind {
        FieldKind::Text => value is Text,
        FieldKind::Number => value is Number,
        FieldKind::Boolean => value is Boolean,
        FieldKind::List => value is List,
        FieldKind::Mapping => value is Mapping,
    }
}

/// Arguments conform to a schema where every required field is there, and
/// every field that is there has a value of the field's kind. Names that the
/// schema does not know are not looked at.
pub open spec fn conforms(schema: ArgumentSchema, arguments: Map<Seq<char>, Shape>) -> bool {
    forall|i: int|
        0 <= i < schema.fields@.len() ==> {
            let field = #[trigger] schema.fields@[i];
            &&& field.required ==> arguments.contains_key(field.name@)
            &&& arguments.contains_key(field.name@) ==> takes(field.kind, arguments[field.name@])
        }
}

/// A schema is well formed where its fields have names, and no two of them
/// the same name.
pub open spec fn well_formed_schema(schema: ArgumentSchema) -> bool {
    &&& forall|i: int|
        0 <= i < schema.fields@.len() ==> (#[trigger] schema.fields@[i]).name@.len() > 0
    &&& forall|i: int, j: int|
        0 <= i < j < schema.fields@.len() ==> (#[trigger] schema.fields@[i]).name@ != (
        #[trigger] schema.fields@[j]).name@
}

/// The entry of the catalog for `add_memory`: one required text field,
/// `content`.
pub open spec fn is_add_memory_tool(tool: ToolDescriptor) -> bool {
    &&& tool.name@ == add_memory_name()
    &&& tool.description@
        == "Add a new memory about the user. Call this whenever the user shares preferences, facts about themselves, or explicitly asks you to remember something."@
    &&& tool.argument_schema.fields@.len() == 1
    &&& tool.argument_schema.fields@[0].name@ == content_field_name()
    &&& tool.argument_schema.fields@[0].description@ == "the content to store"@
    &&& tool.argument_schema.fields@[0].kind == FieldKind::Text
    &&& tool.argument_schema.fields@[0].required
}

/// The entry of the catalog for `get_memories`: no fields.
pub open spec fn is_get_memories_tool(tool: ToolDescriptor) -> bool {
    &&& tool.name@ == get_memories_name()
    &&& tool.description@ == "Retrieve all stored memories about the user."@
    &&& tool.argument_schema.fields@.len() == 0
}

/// The catalog: `add_memory`, then `get_memories`.
pub open spec fn is_catalog(tools: Seq<ToolDescriptor>) -> bool {
    &&& tools.len() == 2
    &&& is_add_memory_tool(tools[0])
    &&& is_get_memories_tool(tools[1])
}

/// The catalog entry for `add_memory`.
pub fn add_memory_tool() -> (tool: ToolDescriptor)
    ensures
        is_add_memory_tool(tool),
{
    let mut fields: Vec<SchemaField> = Vec::new();
    fields.push(
        SchemaField {
            name: String::from_str("content"),
            description: String::from_str("the content to store"),
            kind: FieldKind::Text,
            required: true,
        },
    );
    ToolDescriptor {
        name: String::from_str("add_memory"),
        description: String::from_str(
            "Add a new memory about the user. Call this whenever the user shares preferences, facts about themselves, or explicitly asks you to remember something.",
        ),
        argument_schema: ArgumentSchema { fields },
    }
}

/// The catalog entry for `get_memories`.
pub fn get_memories_tool() -> (tool: ToolDescriptor)
    ensures
        is_get_memories_tool(tool),
{
    ToolDescriptor {
        name: String::from_str("get_memories"),
        description: String::from_str("Retrieve all stored memories about the user."),
        argument_schema: ArgumentSchema { fields: Vec::new() },
    }
}

/// The whole catalog, in its fixed order.
pub fn catalog() -> (tools: Vec<ToolDescriptor>)
    ensures
        is_catalog(tools@),
{
    let mut tools: Vec<ToolDescriptor> = Vec::new();
    tools.push(add_memory_tool());
    tools.push(get_memories_tool());
    tools
}

/// The two tools have different names.
pub proof fn lemma_tool_names_differ()
    ensures
        add_memory_name() != get_memories_name(),
{
    reveal_strlit("add_memory");
    reveal_strlit("get_memories");
    assert(add_memory_name().len() != get_memories_name().len());
}

/// The catalog has exactly two tools, `add_memory` and then `get_memories`.
/// Their names differ, each says in words what it is for, and each has a
/// well-formed schema.
pub proof fn law_catalog_is_sound(tools: Seq<ToolDescriptor>)
    requires
        is_catalog(tools),
    ensures
        tools.len() == 2,
        tools[0].name@ == add_memory_name(),
        tools[1].name@ == get_memories_name(),
        tools[0].name@ != tools[1].name@,
        forall|i: int| 0 <= i < tools.len() ==> (#[trigger] tools[i]).description@.len() > 0,
        forall|i: int|
            0 <= i < tools.len() ==> well_formed_schema((#[trigger] tools[i]).argument_schema),
{
    lemma_tool_names_differ();
    reveal_strlit("content");
    reveal_strlit(
        "Add a new memory about the user. Call this whenever the user shares preferences, facts about themselves, or explicitly asks you to remember something.",
    );
    reveal_strlit("Retrieve all stored memories about the user.");
}

/// Which arguments conform to the schema of `add_memory`: those that hold a
/// text under `content`.
pub proof fn law_add_memory_schema(tool: ToolDescriptor, arguments: Map<Seq<char>, Shape>)
    requires
        is_add_memory_tool(tool),
    ensures
        conforms(tool.argument_schema, arguments) <==> (arguments.contains_key(
            content_field_name(),
        ) && arguments[content_field_name()] is Text),
{
    if conforms(tool.argument_schema, arguments) {
        let field = tool.argument_schema.fields@[0];
        assert(arguments.contains_key(field.name@));
    }
}

/// All arguments conform to the schema of `get_memories`, which has no
/// fields.
pub proof fn law_get_memories_schema(tool: ToolDescriptor, arguments: Map<Seq<char>, Shape>)
    requires
        is_get_memories_tool(tool),
    ensures
        conforms(tool.argument_schema, arguments),
{
}

} // verus!
