use memory_mcp::arguments::{ArgumentValue, Arguments};
use memory_mcp::catalog::{add_memory_tool, catalog, get_memories_tool, FieldKind};
use memory_mcp::dispatcher::{
    respond, CallResponse, Capabilities, Dispatcher, ErrorKind, PeerInfo, SessionState,
    StoreOperation, ToolCall, ToolError,
};
use memory_mcp::store::{get_memories, MemoryStore, StoreError};

fn content_arguments(text: &str) -> Arguments {
    let mut arguments = Arguments::new();
    arguments.insert(String::from("content"), ArgumentValue::Text(String::from(text)));
    arguments
}

fn test_peer() -> PeerInfo {
    PeerInfo { name: String::from("test-client"), version: String::from("1.0.0") }
}

#[test]
fn test_full_mcp_protocol() {
    let mut dispatcher = Dispatcher::new();
    let mut store = MemoryStore::new();

    let init = dispatcher.initialize(&test_peer());
    assert_eq!(init.server_name, "Memory MCP Server (Rust)");

    let tools = dispatcher.list_tools();
    assert_eq!(tools.len(), 2, "Should have exactly 2 tools");
    let memory_tool = &tools[0];
    assert_eq!(memory_tool.name, "add_memory");
    let get_memories_tool = &tools[1];
    assert_eq!(get_memories_tool.name, "get_memories");

    let arguments = content_arguments("User prefers dark mode and uses Rust for development");
    let added = dispatcher
        .call_tool(&mut store, "add_memory", &arguments, 1700000000)
        .expect("add_memory should succeed");
    assert!(added.contains("Memory saved successfully"));

    let memories_text = dispatcher
        .call_tool(&mut store, "get_memories", &Arguments::new(), 1700000060)
        .expect("get_memories should succeed");
    assert!(
        memories_text.contains("User prefers dark mode and uses Rust for development"),
        "Should contain the memory we just added"
    );
}

#[test]
fn handshake_then_add_then_get() {
    let mut dispatcher = Dispatcher::new();
    let mut store = MemoryStore::new();
    dispatcher.initialize(&test_peer());
    assert_eq!(dispatcher.list_tools().len(), 2);
    assert_eq!(
        dispatcher.call_tool(&mut store, "add_memory", &content_arguments("User likes coffee"), 0),
        Ok(String::from("Memory saved successfully."))
    );
    let read = dispatcher
        .call_tool(&mut store, "get_memories", &Arguments::new(), 0)
        .expect("get_memories succeeds");
    assert!(read.contains("User likes coffee"));
    assert_eq!(read, "## 1970-01-01 00:00\nUser likes coffee\n\n");
}

#[test]
fn a_new_dispatcher_is_uninitialized() {
    assert_eq!(Dispatcher::new().state(), SessionState::Uninitialized);
}

#[test]
fn the_handshake_makes_the_session_ready() {
    let mut dispatcher = Dispatcher::new();
    let result = dispatcher.initialize(&test_peer());
    assert_eq!(dispatcher.state(), SessionState::Ready);
    assert_eq!(result.server_name, "Memory MCP Server (Rust)");
    assert_eq!(result.server_version, "0.1.0");
    assert_eq!(
        result.capabilities,
        Capabilities {
            tools: true,
            prompts: false,
            resources: false,
            logging: false,
            completions: false,
        }
    );
}

#[test]
fn a_second_handshake_is_answered_like_the_first() {
    let mut dispatcher = Dispatcher::new();
    let first = dispatcher.initialize(&test_peer());
    let second = dispatcher.initialize(&PeerInfo {
        name: String::new(),
        version: String::new(),
    });
    assert_eq!(first, second);
    assert_eq!(dispatcher.state(), SessionState::Ready);
}

#[test]
fn calls_leave_the_session_ready() {
    let mut dispatcher = Dispatcher::new();
    let mut store = MemoryStore::new();
    dispatcher.initialize(&test_peer());
    let _ = dispatcher.list_tools();
    let _ = dispatcher.call_tool(&mut store, "add_memory", &content_arguments("x"), 0);
    let _ = dispatcher.call_tool(&mut store, "nonexistent_tool", &Arguments::new(), 0);
    assert_eq!(dispatcher.state(), SessionState::Ready);
}

#[test]
fn calls_are_taken_before_the_handshake() {
    let dispatcher = Dispatcher::new();
    let mut store = MemoryStore::new();
    assert_eq!(dispatcher.list_tools(), catalog());
    assert_eq!(
        dispatcher.call_tool(&mut store, "add_memory", &content_arguments("early"), 0),
        Ok(String::from("Memory saved successfully."))
    );
    assert_eq!(dispatcher.state(), SessionState::Uninitialized);
}

#[test]
fn the_catalog_has_two_tools_in_fixed_order() {
    let dispatcher = Dispatcher::new();
    let tools = dispatcher.list_tools();
    assert_eq!(tools.len(), 2);
    assert_eq!(tools[0].name, "add_memory");
    assert_eq!(tools[1].name, "get_memories");
    for tool in &tools {
        assert!(!tool.description.is_empty());
    }
    assert_eq!(tools, dispatcher.list_tools());
}

#[test]
fn add_memory_takes_one_required_text_field() {
    let tool = add_memory_tool();
    assert_eq!(tool.name, "add_memory");
    assert_eq!(
        tool.description,
        "Add a new memory about the user. Call this whenever the user shares preferences, facts about themselves, or explicitly asks you to remember something."
    );
    assert_eq!(tool.argument_schema.fields.len(), 1);
    let field = &tool.argument_schema.fields[0];
    assert_eq!(field.name, "content");
    assert_eq!(field.description, "the content to store");
    assert_eq!(field.kind, FieldKind::Text);
    assert!(field.required);
}

#[test]
fn get_memories_takes_no_fields() {
    let tool = get_memories_tool();
    assert_eq!(tool.name, "get_memories");
    assert_eq!(tool.description, "Retrieve all stored memories about the user.");
    assert!(tool.argument_schema.fields.is_empty());
}

#[test]
fn add_memory_without_content_is_refused() {
    let dispatcher = Dispatcher::new();
    let mut store = MemoryStore::new();
    let result = dispatcher.call_tool(&mut store, "add_memory", &Arguments::new(), 0);
    assert_eq!(
        result,
        Err(ToolError::InvalidArguments { message: String::from("missing field `content`") })
    );
    assert_eq!(store.contents(), None);
    assert_eq!(get_memories(&store), Ok(String::from("No memories found yet.")));
}

#[test]
fn add_memory_without_content_leaves_the_log_as_it_was() {
    let dispatcher = Dispatcher::new();
    let mut store = MemoryStore::holding(String::from("## 1970-01-01 00:00\nkept\n\n"));
    let mut arguments = Arguments::new();
    arguments.insert(String::from("text"), ArgumentValue::Text(String::from("wrong name")));
    let result = dispatcher.call_tool(&mut store, "add_memory", &arguments, 60);
    let error = result.expect_err("content is missing");
    assert_eq!(error.kind(), ErrorKind::InvalidArguments);
    assert_eq!(store.contents(), Some("## 1970-01-01 00:00\nkept\n\n"));
}

#[test]
fn add_memory_with_a_content_that_is_no_text_is_refused() {
    let dispatcher = Dispatcher::new();
    let cases: [(ArgumentValue, &str); 5] = [
        (ArgumentValue::Null, "invalid type: null, expected a string"),
        (ArgumentValue::Boolean, "invalid type: boolean, expected a string"),
        (ArgumentValue::Number, "invalid type: number, expected a string"),
        (ArgumentValue::List, "invalid type: sequence, expected a string"),
        (ArgumentValue::Mapping, "invalid type: map, expected a string"),
    ];
    for (value, message) in cases {
        let mut store = MemoryStore::new();
        let mut arguments = Arguments::new();
        arguments.insert(String::from("content"), value);
        assert_eq!(
            dispatcher.call_tool(&mut store, "add_memory", &arguments, 0),
            Err(ToolError::InvalidArguments { message: String::from(message) })
        );
        assert_eq!(store.contents(), None);
    }
}

#[test]
fn add_memory_does_not_look_at_other_fields() {
    let dispatcher = Dispatcher::new();
    let mut store = MemoryStore::new();
    let mut arguments = content_arguments("note");
    arguments.insert(String::from("extra"), ArgumentValue::Mapping);
    assert_eq!(
        dispatcher.call_tool(&mut store, "add_memory", &arguments, 0),
        Ok(String::from("Memory saved successfully."))
    );
    assert_eq!(store.contents(), Some("## 1970-01-01 00:00\nnote\n\n"));
}

#[test]
fn add_memory_takes_empty_and_blank_content() {
    let dispatcher = Dispatcher::new();
    let mut store = MemoryStore::new();
    assert_eq!(
        dispatcher.call_tool(&mut store, "add_memory", &content_arguments(""), 0),
        Ok(String::from("Memory saved successfully."))
    );
    assert_eq!(
        dispatcher.call_tool(&mut store, "add_memory", &content_arguments("   "), 0),
        Ok(String::from("Memory saved successfully."))
    );
    assert_eq!(
        store.contents(),
        Some("## 1970-01-01 00:00\n\n\n## 1970-01-01 00:00\n   \n\n")
    );
}

#[test]
fn an_unknown_tool_is_refused() {
    let dispatcher = Dispatcher::new();
    let mut store = MemoryStore::new();
    let result = dispatcher.call_tool(&mut store, "nonexistent_tool", &Arguments::new(), 0);
    assert_eq!(
        result,
        Err(ToolError::UnknownTool { name: String::from("nonexistent_tool") })
    );
    assert_eq!(store.contents(), None);
}

#[test]
fn an_unknown_tool_leaves_the_log_as_it_was() {
    let dispatcher = Dispatcher::new();
    let mut store = MemoryStore::holding(String::from("log"));
    for name in ["", "Add_Memory", "add_memory ", "get_memory", "add_memoryget_memories"] {
        let result = dispatcher.call_tool(&mut store, name, &content_arguments("x"), 0);
        assert_eq!(result, Err(ToolError::UnknownTool { name: String::from(name) }));
        assert_eq!(store.contents(), Some("log"));
    }
}

#[test]
fn get_memories_does_not_look_at_its_arguments() {
    let dispatcher = Dispatcher::new();
    let mut store = MemoryStore::holding(String::from("log"));
    let mut arguments = Arguments::new();
    arguments.insert(String::from("content"), ArgumentValue::Number);
    assert_eq!(
        dispatcher.call_tool(&mut store, "get_memories", &arguments, 0),
        Ok(String::from("log"))
    );
    assert_eq!(store.contents(), Some("log"));
}

#[test]
fn get_memories_on_a_new_store_gives_the_fixed_sentence() {
    let dispatcher = Dispatcher::new();
    let mut store = MemoryStore::new();
    assert_eq!(
        dispatcher.call_tool(&mut store, "get_memories", &Arguments::new(), 0),
        Ok(String::from("No memories found yet."))
    );
    assert_eq!(store.contents(), None);
}

#[test]
fn a_store_that_cannot_save_makes_add_memory_fail() {
    let dispatcher = Dispatcher::new();
    let mut store = MemoryStore::unusable(String::from("disk full"));
    let result = dispatcher.call_tool(&mut store, "add_memory", &content_arguments("x"), 0);
    let error = result.expect_err("the store cannot save");
    assert_eq!(
        error,
        ToolError::InternalFailure {
            operation: StoreOperation::Append,
            cause: StoreError::IoFailure { message: String::from("disk full") },
        }
    );
    assert_eq!(error.kind(), ErrorKind::InternalFailure);
    assert_eq!(error.message(), "Failed to save memory: disk full");
}

#[test]
fn a_store_that_cannot_read_makes_get_memories_fail() {
    let dispatcher = Dispatcher::new();
    let mut store = MemoryStore::unusable(String::from("permission denied"));
    let result = dispatcher.call_tool(&mut store, "get_memories", &Arguments::new(), 0);
    let error = result.expect_err("the store cannot read");
    assert_eq!(
        error,
        ToolError::InternalFailure {
            operation: StoreOperation::ReadAll,
            cause: StoreError::IoFailure { message: String::from("permission denied") },
        }
    );
    assert_eq!(error.message(), "Failed to retrieve memories: permission denied");
}

#[test]
fn arguments_are_checked_before_the_store_is_asked() {
    let dispatcher = Dispatcher::new();
    let mut store = MemoryStore::unusable(String::from("disk full"));
    let result = dispatcher.call_tool(&mut store, "add_memory", &Arguments::new(), 0);
    assert_eq!(
        result,
        Err(ToolError::InvalidArguments { message: String::from("missing field `content`") })
    );
}

#[test]
fn the_first_step_says_what_is_asked_of_the_store() {
    let dispatcher = Dispatcher::new();
    assert_eq!(
        dispatcher.plan_call("add_memory", &content_arguments("note")),
        Ok(ToolCall::AddMemory { content: String::from("note") })
    );
    assert_eq!(
        dispatcher.plan_call("get_memories", &Arguments::new()),
        Ok(ToolCall::GetMemories)
    );
    assert_eq!(
        dispatcher.plan_call("add_memory", &Arguments::new()),
        Err(ToolError::InvalidArguments { message: String::from("missing field `content`") })
    );
    assert_eq!(
        dispatcher.plan_call("other", &Arguments::new()),
        Err(ToolError::UnknownTool { name: String::from("other") })
    );
}

#[test]
fn the_last_step_of_add_memory() {
    let dispatcher = Dispatcher::new();
    assert_eq!(
        dispatcher.finish_add_memory(Ok(())),
        Ok(String::from("Memory saved successfully."))
    );
    assert_eq!(
        dispatcher.finish_add_memory(Err(StoreError::IoFailure {
            message: String::from("disk full")
        })),
        Err(ToolError::InternalFailure {
            operation: StoreOperation::Append,
            cause: StoreError::IoFailure { message: String::from("disk full") },
        })
    );
}

#[test]
fn the_last_step_of_get_memories() {
    let dispatcher = Dispatcher::new();
    assert_eq!(
        dispatcher.finish_get_memories(Ok(String::from("the log"))),
        Ok(String::from("the log"))
    );
    assert_eq!(
        dispatcher.finish_get_memories(Err(StoreError::IoFailure {
            message: String::from("gone")
        })),
        Err(ToolError::InternalFailure {
            operation: StoreOperation::ReadAll,
            cause: StoreError::IoFailure { message: String::from("gone") },
        })
    );
}

#[test]
fn failures_have_kinds_and_messages() {
    let unknown = ToolError::UnknownTool { name: String::from("nonexistent_tool") };
    assert_eq!(unknown.kind(), ErrorKind::UnknownTool);
    assert_eq!(unknown.message(), "Unknown tool: nonexistent_tool");
    let invalid =
        ToolError::InvalidArguments { message: String::from("missing field `content`") };
    assert_eq!(invalid.kind(), ErrorKind::InvalidArguments);
    assert_eq!(invalid.message(), "Invalid parameters: missing field `content`");
}

#[test]
fn a_success_is_sent_as_its_text() {
    assert_eq!(
        respond(Ok(String::from("Memory saved successfully."))),
        CallResponse::Success { content: String::from("Memory saved successfully.") }
    );
}

#[test]
fn a_failure_is_sent_as_kind_and_message() {
    assert_eq!(
        respond(Err(ToolError::UnknownTool { name: String::from("x") })),
        CallResponse::Failure {
            kind: ErrorKind::UnknownTool,
            message: String::from("Unknown tool: x"),
        }
    );
    assert_eq!(
        respond(Err(ToolError::InternalFailure {
            operation: StoreOperation::ReadAll,
            cause: StoreError::IoFailure { message: String::from("gone") },
        })),
        CallResponse::Failure {
            kind: ErrorKind::InternalFailure,
            message: String::from("Failed to retrieve memories: gone"),
        }
    );
}
