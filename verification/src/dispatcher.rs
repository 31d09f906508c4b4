//! The tool dispatcher: the handshake, the catalog, and calls of tools by
//! name.
//!
//! A call goes in three steps. `plan_call` looks at the name and the
//! arguments and says what is asked of the store. The store does it.
//! `finish_add_memory` or `finish_get_memories` turns what the store
//! returned into the result of the call. `call_tool` goes through the three
//! steps on a store in memory; a host that keeps the log elsewhere takes the
//! first and the last step and does the second itself.

use crate::arguments::{ArgumentValue, Arguments, Shape};
use crate::catalog::{
    add_memory_name,
    catalog,
    conforms,
    content_field_name,
    get_memories_name,
    is_catalog,
    law_add_memory_schema,
    law_catalog_is_sound,
    law_get_memories_schema,
    lemma_tool_names_differ,
    well_formed_schema,
    ToolDescriptor,
};
use crate::outcome::view_of;
use crate::store::{
    get_memories,
    law_saved_memory_is_read,
    save_memory,
    Backing,
    MemoryStore,
    StoreError,
    StoreFault,
};
use crate::text::{contains_text, same_text};
use vstd::prelude::*;
use vstd::string::*;

verus! {

/// How far the session with the peer has come.
#[derive(Clone, Copy, Debug, PartialEq, Eq)]
pub enum SessionState {
    /// No handshake yet.
    Uninitialized,
    /// The handshake is done.
    Ready,
}

/// What the peer says of itself in the handshake.
#[derive(Clone, Debug, PartialEq, Eq)]
pub struct PeerInfo {
    pub name: String,
    pub version: String,
}

/// What the server can do for a peer.
#[derive(Clone, Copy, Debug, PartialEq, Eq)]
pub struct Capabilities {
    /// It lists its tools and takes calls of them.
    pub tools: bool,
    pub prompts: bool,
    pub resources: bool,
    pub logging: bool,
    pub completions: bool,
}

/// The answer to a handshake: who the server is and what it can do.
#[derive(Clone, Debug, PartialEq, Eq)]
pub struct HandshakeResult {
    pub server_name: String,
    pub server_version: String,
    pub capabilities: Capabilities,
}

/// What a call asks of the store.
#[derive(Clone, Debug, PartialEq, Eq)]
pub enum ToolCall {
    /// Save this note.
    AddMemory { content: String },
    /// Read all notes.
    GetMemories,
}

/// A `ToolCall` as a specification value.
pub enum Call {
    AddMemory { content: Seq<char> },
    GetMemories,
}

impl View for ToolCall {
    type V = Call;

    open spec fn view(&self) -> Call {
        match self {
            ToolCall::AddMemory { content } => Call::AddMemory { content: content@ },
            ToolCall::GetMemories => Call::GetMemories,
        }
    }
}

/// The two things that a tool asks of the store.
#[derive(Clone, Copy, Debug, PartialEq, Eq)]
pub enum StoreOperation {
    Append,
    ReadAll,
}

/// Why a call failed.
#[derive(Clone, Debug, PartialEq, Eq)]
pub enum ToolError {
    /// The catalog has no tool of this name.
    UnknownTool { name: String },
    /// A field that the tool needs is missing or has the wrong shape.
    InvalidArguments { message: String },
    /// The store could not do what the tool asked of it.
    InternalFailure { operation: StoreOperation, cause: StoreError },
}

/// A `ToolError` as a specification value.
pub enum ToolFault {
    UnknownTool { name: Seq<char> },
    InvalidArguments { message: Seq<char> },
    InternalFailure { operation: StoreOperation, cause: StoreFault },
}

impl View for ToolError {
    type V = ToolFault;

    open spec fn view(&self) -> ToolFault {
        match self {
            ToolError::UnknownTool { name } => ToolFault::UnknownTool { name: name@ },
            ToolError::InvalidArguments { message } => ToolFault::InvalidArguments {
                message: message@,
            },
            ToolError::InternalFailure { operation, cause } => ToolFault::InternalFailure {
                operation: *operation,
                cause: cause@,
            },
        }
    }
}

/// The kind of a failure, as the peer is told it.
#[derive(Clone, Copy, Debug, PartialEq, Eq)]
pub enum ErrorKind {
    UnknownTool,
    InvalidArguments,
    InternalFailure,
}

/// What the peer is sent for a call.
#[derive(Clone, Debug, PartialEq, Eq)]
pub enum CallResponse {
    Success { content: String },
    Failure { kind: ErrorKind, message: String },
}

/// A `CallResponse` as a specification value.
pub enum Response {
    Success { content: Seq<char> },
    Failure { kind: ErrorKind, message: Seq<char> },
}

impl View for CallResponse {
    type V = Response;

    open spec fn view(&self) -> Response {
        match self {
            CallResponse::Success { content } => Response::Success { content: content@ },
            CallResponse::Failure { kind, message } => Response::Failure {
                kind: *kind,
                message: message@,
            },
        }
    }
}

/// The name under which the server makes itself known.
pub open spec fn server_name() -> Seq<char> {
    "Memory MCP Server (Rust)"@
}

/// The version under which the server makes itself known.
pub open spec fn server_version() -> Seq<char> {
    "0.1.0"@
}

/// What the server can do: tools, and nothing else.
pub open spec fn server_capabilities() -> Capabilities {
    Capabilities {
        tools: true,
        prompts: false,
        resources: false,
        logging: false,
        completions: false,
    }
}

/// What a successful `add_memory` returns.
pub open spec fn saved_text() -> Seq<char> {
    "Memory saved successfully."@
}

/// The name of a shape in a diagnostic message.
pub open spec fn shape_name(shape: Shape) -> Seq<char> {
    match shape {
        Shape::Null => "null"@,
        Shape::Boolean => "boolean"@,
        Shape::Number => "number"@,
        Shape::Text(_) => "string"@,
        Shape::List => "sequence"@,
        Shape::Mapping => "map"@,
    }
}

/// The diagnostic message for arguments without `content`.
pub open spec fn missing_content_text() -> Seq<char> {
    "missing field `content`"@
}

/// The diagnostic message for a `content` that is no text.
pub open spec fn wrong_shape_text(shape: Shape) -> Seq<char> {
    "invalid type: "@ + shape_name(shape) + ", expected a string"@
}

/// What a call asks of the store, or why it is refused before the store is
/// asked anything.
pub open spec fn planned_call(name: Seq<char>, arguments: Map<Seq<char>, Shape>) -> Result<
    Call,
    ToolFault,
> {
    if name == add_memory_name() {
        if !arguments.contains_key(content_field_name()) {
            Err(ToolFault::InvalidArguments { message: missing_content_text() })
        } else {
            match arguments[content_field_name()] {
                Shape::Text(content) => Ok(Call::AddMemory { content }),
                other => Err(ToolFault::InvalidArguments { message: wrong_shape_text(other) }),
            }
        }
    } else if name == get_memories_name() {
        Ok(Call::GetMemories)
    } else {
        Err(ToolFault::UnknownTool { name })
    }
}

/// The result of `add_memory`, from what the store returned.
pub open spec fn finished_add_memory(outcome: Result<(), StoreFault>) -> Result<
    Seq<char>,
    ToolFault,
> {
    match outcome {
        Ok(_) => Ok(saved_text()),
        Err(cause) => Err(
            ToolFault::InternalFailure { operation: StoreOperation::Append, cause },
        ),
    }
}

/// The result of `get_memories`, from what the store returned.
pub open spec fn finished_get_memories(outcome: Result<Seq<char>, StoreFault>) -> Result<
    Seq<char>,
    ToolFault,
> {
    match outcome {
        Ok(text) => Ok(text),
        Err(cause) => Err(
            ToolFault::InternalFailure { operation: StoreOperation::ReadAll, cause },
        ),
    }
}

/// The result of a call on a store in the given state.
pub open spec fn call_outcome(
    place: Backing,
    name: Seq<char>,
    arguments: Map<Seq<char>, Shape>,
) -> Result<Seq<char>, ToolFault> {
    match planned_call(name, arguments) {
        Ok(Call::AddMemory { content }) => finished_add_memory(place.save_outcome()),
        Ok(Call::GetMemories) => finished_get_memories(place.memories()),
        Err(fault) => Err(fault),
    }
}

/// The store after a call at the given instant: with one more entry where
/// the call saved a note, as it was after any other call.
pub open spec fn place_after_call(
    place: Backing,
    name: Seq<char>,
    arguments: Map<Seq<char>, Shape>,
    unix_secs: int,
) -> Backing {
    match planned_call(name, arguments) {
        Ok(Call::AddMemory { content }) => place.after_save(unix_secs, content),
        _ => place,
    }
}

/// The kind of a failure.
pub open spec fn fault_kind(fault: ToolFault) -> ErrorKind {
    match fault {
        ToolFault::UnknownTool { .. } => ErrorKind::UnknownTool,
        ToolFault::InvalidArguments { .. } => ErrorKind::InvalidArguments,
        ToolFault::InternalFailure { .. } => ErrorKind::InternalFailure,
    }
}

/// A failure in words, as the peer is told it.
pub open spec fn fault_message(fault: ToolFault) -> Seq<char> {
    match fault {
        ToolFault::UnknownTool { name } => "Unknown tool: "@ + name,
        ToolFault::InvalidArguments { message } => "Invalid parameters: "@ + message,
        ToolFault::InternalFailure { operation: StoreOperation::Append, cause } => {
            "Failed to save memory: "@ + cause->message
        },
        ToolFault::InternalFailure { operation: StoreOperation::ReadAll, cause } => {
            "Failed to retrieve memories: "@ + cause->message
        },
    }
}

/// What the peer is sent for the result of a call.
pub open spec fn response_of(result: Result<Seq<char>, ToolFault>) -> Response {
    match result {
        Ok(content) => Response::Success { content },
        Err(fault) => Response::Failure {
            kind: fault_kind(fault),
            message: fault_message(fault),
        },
    }
}

impl ToolError {
    /// The kind of the failure.
    pub fn kind(&self) -> (kind: ErrorKind)
        ensures
            kind == fault_kind(self@),
    {
        match self {
            ToolError::UnknownTool { .. } => ErrorKind::UnknownTool,
            ToolError::InvalidArguments { .. } => ErrorKind::InvalidArguments,
            ToolError::InternalFailure { .. } => ErrorKind::InternalFailure,
        }
    }

    /// The failure in words.
    pub fn message(&self) -> (text: String)
        ensures
            text@ == fault_message(self@),
    {
        match self {
            ToolError::UnknownTool { name } => {
                let mut text = String::from_str("Unknown tool: ");
                text.append(name.as_str());
                text
            },
            ToolError::InvalidArguments { message } => {
                let mut text = String::from_str("Invalid parameters: ");
                text.append(message.as_str());
                text
            },
            ToolError::InternalFailure { operation, cause } => {
                let mut text = match operation {
                    StoreOperation::Append => String::from_str("Failed to save memory: "),
                    StoreOperation::ReadAll => String::from_str("Failed to retrieve memories: "),
                };
                let reason = cause.message();
                text.append(reason.as_str());
                text
            },
        }
    }
}

/// What the peer is sent for the result of a call: the text where the call
/// succeeded, the kind of the failure and the failure in words where it did
/// not.
pub fn respond(result: Result<String, ToolError>) -> (response: CallResponse)
    ensures
        response@ == response_of(view_of(result)),
{
    match result {
        Ok(content) => CallResponse::Success { content },
        Err(error) => CallResponse::Failure { kind: error.kind(), message: error.message() },
    }
}

/// The name of the shape of a value in a diagnostic message.
fn shape_name_text(value: &ArgumentValue) -> (name: &'static str)
    ensures
        name@ == shape_name(value@),
{
    match value {
        ArgumentValue::Null => "null",
        ArgumentValue::Boolean => "boolean",
        ArgumentValue::Number => "number",
        ArgumentValue::Text(_) => "string",
        ArgumentValue::List => "sequence",
        ArgumentValue::Mapping => "map",
    }
}

/// The dispatcher. It holds how far the session has come; the store is
/// handed to it with each call.
pub struct Dispatcher {
    state: SessionState,
}

impl View for Dispatcher {
    type V = SessionState;

    closed spec fn view(&self) -> SessionState {
        self.state
    }
}

impl Dispatcher {
    /// A dispatcher before the handshake.
    pub fn new() -> (dispatcher: Dispatcher)
        ensures
            dispatcher@ == SessionState::Uninitialized,
    {
        Dispatcher { state: SessionState::Uninitialized }
    }

    /// How far the session has come.
    pub fn state(&self) -> (state: SessionState)
        ensures
            state == self@,
    {
        self.state
    }

    /// The handshake. It always succeeds, whoever the peer is and however
    /// often it is made, and leaves the session ready.
    pub fn initialize(&mut self, peer: &PeerInfo) -> (result: HandshakeResult)
        ensures
            final(self)@ == SessionState::Ready,
            result.server_name@ == server_name(),
            result.server_version@ == server_version(),
            result.capabilities == server_capabilities(),
    {
        self.state = SessionState::Ready;
        HandshakeResult {
            server_name: String::from_str("Memory MCP Server (Rust)"),
            server_version: String::from_str("0.1.0"),
            capabilities: Capabilities {
                tools: true,
                prompts: false,
                resources: false,
                logging: false,
                completions: false,
            },
        }
    }

    /// The catalog: exactly two tools, `add_memory` and then `get_memories`,
    /// each with a purpose in words and a well-formed schema. It is the same
    /// before and after the handshake.
    pub fn list_tools(&self) -> (tools: Vec<ToolDescriptor>)
        ensures
            is_catalog(tools@),
            tools@.len() == 2,
            tools@[0].name@ == add_memory_name(),
            tools@[1].name@ == get_memories_name(),
            forall|i: int| 0 <= i < tools@.len() ==> (#[trigger] tools@[i]).description@.len() > 0,
            forall|i: int|
                0 <= i < tools@.len() ==> well_formed_schema(
                    (#[trigger] tools@[i]).argument_schema,
                ),
    {
        let tools = catalog();
        proof {
            law_catalog_is_sound(tools@);
        }
        tools
    }

    /// The first step of a call: what it asks of the store. A name that the
    /// catalog does not have is refused, and so is `add_memory` without a
    /// text under `content`. `get_memories` does not look at its arguments.
    pub fn plan_call(&self, name: &str, arguments: &Arguments) -> (plan: Result<
        ToolCall,
        ToolError,
    >)
        ensures
            view_of(plan) == planned_call(name@, arguments@),
    {
        if same_text(name, "add_memory") {
            match arguments.get("content") {
                Some(ArgumentValue::Text(content)) => Ok(
                    ToolCall::AddMemory { content: content.clone() },
                ),
                Some(other) => {
                    let mut message = String::from_str("invalid type: ");
                    message.append(shape_name_text(other));
                    message.append(", expected a string");
                    Err(ToolError::InvalidArguments { message })
                },
                None => Err(
                    ToolError::InvalidArguments {
                        message: String::from_str("missing field `content`"),
                    },
                ),
            }
        } else if same_text(name, "get_memories") {
            Ok(ToolCall::GetMemories)
        } else {
            Err(ToolError::UnknownTool { name: String::from_str(name) })
        }
    }

    /// The last step of `add_memory`: the result of the call, from what the
    /// store returned.
    pub fn finish_add_memory(&self, outcome: Result<(), StoreError>) -> (result: Result<
        String,
        ToolError,
    >)
        ensures
            view_of(result) == finished_add_memory(view_of(outcome)),
    {
        match outcome {
            Ok(_) => Ok(String::from_str("Memory saved successfully.")),
            Err(cause) => Err(
                ToolError::InternalFailure { operation: StoreOperation::Append, cause },
            ),
        }
    }

    /// The last step of `get_memories`: the result of the call, from what
    /// the store returned.
    pub fn finish_get_memories(&self, outcome: Result<String, StoreError>) -> (result: Result<
        String,
        ToolError,
    >)
        ensures
            view_of(result) == finished_get_memories(view_of(outcome)),
    {
        match outcome {
            Ok(text) => Ok(text),
            Err(cause) => Err(
                ToolError::InternalFailure { operation: StoreOperation::ReadAll, cause },
            ),
        }
    }

    /// A call of the tool `name`, at the given instant, on a store in
    /// memory. Every call returns a result. A call that fails leaves the
    /// store as it was.
    pub fn call_tool(
        &self,
        store: &mut MemoryStore,
        name: &str,
        arguments: &Arguments,
        unix_secs: i64,
    ) -> (result: Result<String, ToolError>)
        ensures
            view_of(result) == call_outcome(old(store)@, name@, arguments@),
            final(store)@ == place_after_call(old(store)@, name@, arguments@, unix_secs as int),
    {
        match self.plan_call(name, arguments) {
            Ok(ToolCall::AddMemory { content }) => {
                let outcome = save_memory(store, content.as_str(), unix_secs);
                self.finish_add_memory(outcome)
            },
            Ok(ToolCall::GetMemories) => {
                let outcome = get_memories(store);
                self.finish_get_memories(outcome)
            },
            Err(error) => Err(error),
        }
    }
}

/// `add_memory` without a text under `content` fails with the kind
/// `InvalidArguments`, whatever else the arguments hold, and saves nothing.
pub proof fn law_add_memory_needs_content(
    place: Backing,
    arguments: Map<Seq<char>, Shape>,
    unix_secs: int,
)
    requires
        !arguments.contains_key(content_field_name()) || !(arguments[content_field_name()]
            is Text),
    ensures
        call_outcome(place, add_memory_name(), arguments) is Err,
        call_outcome(place, add_memory_name(), arguments)->Err_0 is InvalidArguments,
        place_after_call(place, add_memory_name(), arguments, unix_secs) == place,
{
}

/// A call of a name that the catalog does not have fails with the kind
/// `UnknownTool`, names the name, and leaves the store as it was.
pub proof fn law_unknown_tool_is_refused(
    place: Backing,
    name: Seq<char>,
    arguments: Map<Seq<char>, Shape>,
    unix_secs: int,
)
    requires
        name != add_memory_name(),
        name != get_memories_name(),
    ensures
        call_outcome(place, name, arguments) == Err::<Seq<char>, ToolFault>(
            ToolFault::UnknownTool { name },
        ),
        place_after_call(place, name, arguments, unix_secs) == place,
{
}

/// There is no partial success: a call that fails leaves the store as it
/// was, and `get_memories` leaves it as it was in any case.
pub proof fn law_failed_call_changes_nothing(
    place: Backing,
    name: Seq<char>,
    arguments: Map<Seq<char>, Shape>,
    unix_secs: int,
)
    ensures
        call_outcome(place, name, arguments) is Err ==> place_after_call(
            place,
            name,
            arguments,
            unix_secs,
        ) == place,
        name == get_memories_name() ==> place_after_call(place, name, arguments, unix_secs)
            == place,
{
    lemma_tool_names_differ();
}

/// `get_memories` does not look at its arguments: it returns the same for
/// any two of them.
pub proof fn law_get_memories_ignores_arguments(
    place: Backing,
    arguments: Map<Seq<char>, Shape>,
    other_arguments: Map<Seq<char>, Shape>,
)
    ensures
        call_outcome(place, get_memories_name(), arguments) == call_outcome(
            place,
            get_memories_name(),
            other_arguments,
        ),
        call_outcome(place, get_memories_name(), arguments) == finished_get_memories(
            place.memories(),
        ),
{
    lemma_tool_names_differ();
}

/// The calls that are taken are those that the catalog shows: a name is
/// unknown exactly where no tool of the catalog has it, and a call of a tool
/// of the catalog gets past the first step exactly where its arguments
/// conform to the schema that the catalog shows for the tool.
pub proof fn law_calls_follow_the_catalog(
    tools: Seq<ToolDescriptor>,
    name: Seq<char>,
    arguments: Map<Seq<char>, Shape>,
)
    requires
        is_catalog(tools),
    ensures
        (planned_call(name, arguments) is Err && planned_call(name, arguments)->Err_0
            is UnknownTool) <==> (forall|i: int|
            0 <= i < tools.len() ==> (#[trigger] tools[i]).name@ != name),
        forall|i: int|
            0 <= i < tools.len() && (#[trigger] tools[i]).name@ == name ==> (planned_call(
                name,
                arguments,
            ) is Ok <==> conforms(tools[i].argument_schema, arguments)),
{
    lemma_tool_names_differ();
    law_add_memory_schema(tools[0], arguments);
    law_get_memories_schema(tools[1], arguments);
}

/// A note that `add_memory` saved is in what `get_memories` returns right
/// after it, whatever was in the store before.
pub proof fn law_added_memory_is_returned(
    place: Backing,
    arguments: Map<Seq<char>, Shape>,
    other_arguments: Map<Seq<char>, Shape>,
    unix_secs: int,
)
    requires
        place.save_outcome() is Ok,
        arguments.contains_key(content_field_name()),
        arguments[content_field_name()] is Text,
    ensures
        call_outcome(place, add_memory_name(), arguments) == Ok::<Seq<char>, ToolFault>(
            saved_text(),
        ),
        call_outcome(
            place_after_call(place, add_memory_name(), arguments, unix_secs),
            get_memories_name(),
            other_arguments,
        ) is Ok,
        contains_text(
            call_outcome(
                place_after_call(place, add_memory_name(), arguments, unix_secs),
                get_memories_name(),
                other_arguments,
            )->Ok_0,
            arguments[content_field_name()]->Text_0,
        ),
{
    lemma_tool_names_differ();
    law_saved_memory_is_read(place, unix_secs, arguments[content_field_name()]->Text_0);
}

} // verus!
