use letta_lite::agent::AgentState;
use letta_lite::document::encode_schema;
use letta_lite::error::LettaError;
use letta_lite::json::Json;
use letta_lite::message::Message;
use letta_lite::tool::{
    new_entry, search_entries, ArchivalInsertHandler, ArchivalSearchHandler, BuiltInOnly,
    ConversationSearchHandler, MemoryAppendHandler, MemoryReplaceHandler, Tool, ToolCall,
    ToolExecutor, ToolHandler, ToolResult,
};

fn args(members: Vec<(&str, Json)>) -> Json {
    Json::Object(members.into_iter().map(|(k, v)| (k.to_string(), v)).collect())
}

fn call(name: &str, arguments: Json) -> ToolCall {
    ToolCall { id: "call_t".to_string(), name: name.to_string(), arguments }
}

fn tool_error(r: Result<ToolResult, LettaError>) -> String {
    match r {
        Err(LettaError::ToolExecution(m)) => m,
        other => panic!("expected a tool failure, got {:?}", other),
    }
}

#[test]
fn tool_results() {
    let ok = ToolResult::success(Json::UInt(1));
    assert!(ok.success);
    assert!(!ok.request_heartbeat);
    assert!(ok.error.is_none());
    assert_eq!(ok.result.as_u64(), Some(1));
    let failed = ToolResult::error("bad");
    assert!(!failed.success);
    assert_eq!(failed.error.as_deref(), Some("bad"));
    assert!(matches!(failed.result, Json::Null));
    assert!(ToolResult::success(Json::Null).with_heartbeat().request_heartbeat);
}

#[test]
fn tool_builder() {
    let tool = Tool::new("t", "does things");
    assert_eq!(tool.schema.name, "t");
    assert_eq!(tool.schema.description, "does things");
    assert!(tool.schema.required.is_empty());
    assert!(tool.handler.is_none());
    assert_eq!(tool.schema.parameters.to_text().unwrap(), "{\"properties\":{},\"type\":\"object\"}");
    let tool = tool.with_parameters(Json::UInt(3)).with_required(vec!["a".to_string()]);
    assert_eq!(tool.schema.parameters.as_u64(), Some(3));
    assert_eq!(tool.schema.required, vec!["a".to_string()]);
}

#[test]
fn memory_replace_sets_the_block() {
    let mut state = AgentState::new("a");
    let r = MemoryReplaceHandler
        .execute(&args(vec![("label", Json::text("human")), ("value", Json::text("Bob"))]), &mut state)
        .unwrap();
    assert!(r.success);
    assert!(!r.request_heartbeat);
    assert_eq!(r.result.get_str("status"), Some("success"));
    assert_eq!(r.result.get_str("message"), Some("Updated memory block 'human'"));
    assert_eq!(state.memory.get_block("human").unwrap().value, "Bob");
}

#[test]
fn memory_replace_needs_its_arguments() {
    let mut state = AgentState::new("a");
    let h = MemoryReplaceHandler;
    assert_eq!(
        tool_error(h.execute(&args(vec![("value", Json::text("v"))]), &mut state)),
        "Missing 'label' parameter"
    );
    assert_eq!(
        tool_error(h.execute(&args(vec![("label", Json::text("l"))]), &mut state)),
        "Missing 'value' parameter"
    );
    // an argument of the wrong type is a missing argument
    assert_eq!(
        tool_error(h.execute(&args(vec![("label", Json::UInt(1)), ("value", Json::text("v"))]), &mut state)),
        "Missing 'label' parameter"
    );
    assert_eq!(tool_error(h.execute(&Json::Null, &mut state)), "Missing 'label' parameter");
    let too_long = "x".repeat(2001);
    let r = h.execute(&args(vec![("label", Json::text("human")), ("value", Json::text(&too_long))]), &mut state);
    assert!(matches!(r, Err(LettaError::Memory(_))));
}

#[test]
fn memory_append_appends() {
    let mut state = AgentState::new("a");
    let r = MemoryAppendHandler
        .execute(&args(vec![("label", Json::text("persona")), ("text", Json::text("Kind."))]), &mut state)
        .unwrap();
    assert_eq!(r.result.get_str("message"), Some("Appended to memory block 'persona'"));
    assert_eq!(state.memory.get_block("persona").unwrap().value, "I am a helpful AI assistant.\nKind.");
    let missing = MemoryAppendHandler
        .execute(&args(vec![("label", Json::text("nobody")), ("text", Json::text("x"))]), &mut state);
    assert!(matches!(missing, Err(LettaError::Memory(_))));
    assert_eq!(
        tool_error(MemoryAppendHandler.execute(&args(vec![("label", Json::text("persona"))]), &mut state)),
        "Missing 'text' parameter"
    );
    assert_eq!(
        tool_error(MemoryAppendHandler.execute(&args(vec![("text", Json::text("x"))]), &mut state)),
        "Missing 'label' parameter"
    );
}

#[test]
fn archival_insert_adds_an_entry() {
    let mut state = AgentState::new("a");
    let r = ArchivalInsertHandler.execute(&args(vec![("text", Json::text("fact"))]), &mut state).unwrap();
    assert_eq!(r.result.get_str("status"), Some("success"));
    assert_eq!(r.result.get_str("message"), Some("Added to archival memory"));
    assert!(!r.request_heartbeat);
    assert_eq!(state.archival_entries.len(), 1);
    assert_eq!(state.archival_entries[0].get_str("folder"), Some("default"));
    assert_eq!(state.archival_entries[0].get_str("text"), Some("fact"));
    assert!(state.archival_entries[0].get_str("timestamp").is_some());
    ArchivalInsertHandler
        .execute(&args(vec![("folder", Json::text("f")), ("text", Json::text("other"))]), &mut state)
        .unwrap();
    assert_eq!(state.archival_entries[1].get_str("folder"), Some("f"));
    assert_eq!(
        tool_error(ArchivalInsertHandler.execute(&args(vec![("folder", Json::text("f"))]), &mut state)),
        "Missing 'text' parameter"
    );
    assert_eq!(state.archival_entries.len(), 2);
}

#[test]
fn archival_search_asks_for_a_heartbeat() {
    let mut state = AgentState::new("a");
    for text in ["Apple pie", "banana", "pineapple", "APPLE juice", "apple 5", "apple 6", "apple 7"] {
        state.archival_entries.push(new_entry("default", text));
    }
    state.archival_entries.push(Json::UInt(7));
    let r = ArchivalSearchHandler.execute(&args(vec![("query", Json::text("apple"))]), &mut state).unwrap();
    assert!(r.request_heartbeat);
    assert_eq!(r.result.get_u64("count"), Some(5));
    match r.result.get("results") {
        Some(Json::Array(items)) => {
            assert_eq!(items.len(), 5);
            assert_eq!(items[0].get_str("text"), Some("Apple pie"));
            assert_eq!(items[1].get_str("text"), Some("pineapple"));
            assert_eq!(items[2].get_str("text"), Some("APPLE juice"));
        }
        other => panic!("unexpected results: {:?}", other),
    }
    let two = ArchivalSearchHandler
        .execute(&args(vec![("query", Json::text("apple")), ("top_k", Json::UInt(2))]), &mut state)
        .unwrap();
    assert_eq!(two.result.get_u64("count"), Some(2));
    let none = ArchivalSearchHandler.execute(&args(vec![("query", Json::text("kiwi"))]), &mut state).unwrap();
    assert_eq!(none.result.to_text().unwrap(), "{\"count\":0,\"results\":[]}");
    assert_eq!(
        tool_error(ArchivalSearchHandler.execute(&args(vec![("top_k", Json::UInt(2))]), &mut state)),
        "Missing 'query' parameter"
    );
}

#[test]
fn conversation_search_delegates_to_the_buffer() {
    let mut state = AgentState::new("a");
    state.messages.push(Message::user("the Fox runs"));
    state.messages.push(Message::assistant("a dog"));
    state.messages.push(Message::user("fox again"));
    let r = ConversationSearchHandler.execute(&args(vec![("query", Json::text("fox"))]), &mut state).unwrap();
    assert!(!r.request_heartbeat);
    assert_eq!(r.result.get_u64("count"), Some(2));
    match r.result.get("results") {
        Some(Json::Array(items)) => {
            assert_eq!(items[0].get_str("content"), Some("the Fox runs"));
            assert_eq!(items[0].get_str("role"), Some("user"));
            assert_eq!(items[1].get_str("content"), Some("fox again"));
        }
        other => panic!("unexpected results: {:?}", other),
    }
    let one = ConversationSearchHandler
        .execute(&args(vec![("query", Json::text("fox")), ("top_k", Json::UInt(1))]), &mut state)
        .unwrap();
    assert_eq!(one.result.get_u64("count"), Some(1));
    assert_eq!(
        tool_error(ConversationSearchHandler.execute(&Json::empty_object(), &mut state)),
        "Missing 'query' parameter"
    );
}

#[test]
fn executor_dispatches_by_name() {
    let executor = ToolExecutor::new();
    let mut state = AgentState::new("a");
    let r = executor
        .execute(
            &call("memory_replace", args(vec![("label", Json::text("human")), ("value", Json::text("Eve"))])),
            &mut state,
        )
        .unwrap();
    assert!(r.success);
    assert_eq!(state.memory.get_block("human").unwrap().value, "Eve");
    executor.execute(&call("archival_insert", args(vec![("text", Json::text("x"))])), &mut state).unwrap();
    assert_eq!(state.archival_entries.len(), 1);
    let found = executor.execute(&call("archival_search", args(vec![("query", Json::text("x"))])), &mut state).unwrap();
    assert!(found.request_heartbeat);
    executor.execute(&call("memory_append", args(vec![("label", Json::text("human")), ("text", Json::text("y"))])), &mut state).unwrap();
    executor.execute(&call("conversation_search", args(vec![("query", Json::text("y"))])), &mut state).unwrap();
    assert_eq!(
        tool_error(executor.execute(&call("no_such_tool", Json::empty_object()), &mut state)),
        "Unknown tool: no_such_tool"
    );
}

struct Shout;

impl ToolHandler for Shout {
    fn execute(&self, _args: &Json, state: &mut AgentState) -> Result<ToolResult, LettaError> {
        state.name = state.name.to_uppercase();
        Ok(ToolResult::success(Json::text(&state.name)))
    }
}

#[test]
fn executor_runs_registered_handlers() {
    let mut executor: ToolExecutor<Shout> = ToolExecutor::with_builtins();
    let mut state = AgentState::new("quiet");
    assert!(executor.execute(&call("shout", Json::Null), &mut state).is_err());
    executor.register("shout", Shout);
    let r = executor.execute(&call("shout", Json::Null), &mut state).unwrap();
    assert_eq!(r.result.as_str(), Some("QUIET"));
    assert_eq!(state.name, "QUIET");
    // a registered handler takes the place of a built-in tool of its name
    executor.register("archival_insert", Shout);
    executor.execute(&call("archival_insert", args(vec![("text", Json::text("x"))])), &mut state).unwrap();
    assert!(state.archival_entries.is_empty());
    let unused = BuiltInOnly;
    assert_eq!(tool_error(unused.execute(&Json::Null, &mut state)), "Unknown tool: ");
}

#[test]
fn schemas_of_the_built_in_tools() {
    let schemas = ToolExecutor::new().get_schemas();
    let names: Vec<&str> = schemas.iter().map(|s| s.name.as_str()).collect();
    assert_eq!(
        names,
        vec!["memory_replace", "memory_append", "archival_insert", "archival_search", "conversation_search"]
    );
    assert_eq!(schemas[0].description, "Replace the contents of a memory block");
    assert_eq!(schemas[0].required, vec!["label".to_string(), "value".to_string()]);
    assert_eq!(
        schemas[0].parameters.to_text().unwrap(),
        "{\"properties\":{\"label\":{\"description\":\"Memory block label\",\"type\":\"string\"},\"value\":{\"description\":\"New value\",\"type\":\"string\"}},\"required\":[\"label\",\"value\"],\"type\":\"object\"}"
    );
    assert_eq!(schemas[2].required, vec!["text".to_string()]);
    assert_eq!(schemas[3].description, "Search archival memory");
    assert_eq!(
        schemas[3].parameters.to_text().unwrap(),
        "{\"properties\":{\"query\":{\"description\":\"Search query\",\"type\":\"string\"},\"top_k\":{\"description\":\"Number of results\",\"type\":\"integer\"}},\"required\":[\"query\"],\"type\":\"object\"}"
    );
    assert_eq!(schemas[4].name, "conversation_search");
    let as_json = encode_schema(&schemas[1]);
    assert_eq!(as_json.get_str("name"), Some("memory_append"));
    assert_eq!(as_json.get_str("description"), Some("Append text to a memory block"));
    assert!(as_json.get("parameters").is_some());
    let copy = schemas[1].clone();
    assert_eq!(copy.name, "memory_append");
    assert_eq!(copy.required, schemas[1].required);
}

#[test]
fn search_entries_limits_and_orders() {
    let entries = vec![new_entry("d", "one fish"), new_entry("d", "two FISH"), new_entry("d", "bird")];
    let found = search_entries(&entries, "fish", 5);
    assert_eq!(found.len(), 2);
    assert_eq!(found[0].get_str("text"), Some("one fish"));
    assert_eq!(found[1].get_str("text"), Some("two FISH"));
    assert_eq!(search_entries(&entries, "fish", 1).len(), 1);
    assert!(search_entries(&entries, "fish", 0).is_empty());
}
