use letta_lite::af::{AgentFile, BlockExport};
use letta_lite::agent::{AgentConfig, AgentState};
use letta_lite::error::LettaError;
use letta_lite::json::Json;
use letta_lite::memory::{Memory, MemoryBlock};
use letta_lite::message::Message;
use letta_lite::tool::ToolExecutor;

#[test]
fn test_agent_file_export_import() {
    let config = AgentConfig::default();
    let mut state = AgentState::new("test-agent");
    state.memory.set_block("test", "test value").unwrap();

    let af = AgentFile::export(&config, &state, vec![]).unwrap();
    assert_eq!(af.version, "0.1.0");
    assert_eq!(af.agents.len(), 1);

    let json = AgentFile::to_json(&af).unwrap();
    let af2 = AgentFile::from_json(&json).unwrap();

    let (config2, state2) = AgentFile::import(&af2).unwrap();
    assert_eq!(config2.name, "test-agent");
    assert_eq!(state2.memory.get_block("test").unwrap().value, "test value");
}

#[test]
fn export_lists_the_blocks_by_identifier() {
    let config = AgentConfig::default();
    let mut state = AgentState::new("a");
    state.memory.set_block("notes", "n").unwrap();
    let af = AgentFile::export(&config, &state, ToolExecutor::new().get_schemas()).unwrap();
    let agent = &af.agents[0];
    assert_eq!(agent.id, state.id);
    assert_eq!(agent.name, "a");
    assert_eq!(agent.system_prompt, config.system_prompt);
    assert_eq!(agent.message_buffer_size, 100);
    assert_eq!(agent.model.model_endpoint, "toy");
    assert_eq!(agent.model.context_window, 8192);
    assert_eq!(agent.model.temperature, Some(700));
    assert_eq!(agent.model.max_tokens, None);
    assert_eq!(agent.agent_state.memory.memory_class, "ChatMemory");
    assert_eq!(
        agent.agent_state.memory.blocks,
        vec!["block_persona".to_string(), "block_human".to_string(), "block_notes".to_string()]
    );
    assert!(agent.agent_state.memory.template.is_none());
    assert_eq!(agent.agent_state.created_at.text, state.created_at.text);
    assert_eq!(agent.agent_state.tools.len(), 5);
    assert_eq!(agent.agent_state.tools[0], "memory_replace");
    assert!(agent.agent_state.metadata.is_some());
    assert_eq!(af.blocks.len(), 3);
    assert_eq!(af.blocks[2].id, "block_notes");
    assert_eq!(af.blocks[2].label, "notes");
    assert_eq!(af.blocks[2].description, "User-defined block");
    assert_eq!(af.blocks[2].value, "n");
    assert_eq!(af.blocks[2].limit, 2000);
    let tools = af.tools.as_ref().unwrap();
    assert_eq!(tools.len(), 5);
    assert_eq!(tools[0].id, "tool_memory_replace");
    assert_eq!(tools[0].source_type, "builtin");
    assert!(tools[0].source_code.is_none());
    assert!(af.groups.is_none() && af.files.is_none() && af.sources.is_none() && af.mcp_servers.is_none());
    assert_eq!(af.metadata.letta_version, "0.1.0");
    assert_eq!(af.metadata.export_source, "letta-lite");
}

#[test]
fn export_names_the_kind_of_memory() {
    let mut state = AgentState::new("a");
    state.memory = Memory::new_basic();
    let af = AgentFile::export(&AgentConfig::default(), &state, vec![]).unwrap();
    assert_eq!(af.agents[0].agent_state.memory.memory_class, "BasicMemory");
    assert!(af.blocks.is_empty());
}

#[test]
fn round_trip_keeps_the_agent() {
    let mut config = AgentConfig::default();
    config.system_prompt = "Be brief.".to_string();
    config.model = "m".to_string();
    config.max_messages = 7;
    config.max_context_tokens = 99;
    config.temperature = 250;
    let mut state = AgentState::new("roundtrip");
    state.memory.set_block("persona", "P").unwrap();
    state.memory.insert_block(MemoryBlock::new("extra", "desc", "val").with_limit(5));
    state.messages.push(Message::user("one"));
    state.messages.push(Message::tool("c1".to_string(), "two"));
    state.metadata = Json::Object(vec![("k".to_string(), Json::UInt(1))]);

    let af = AgentFile::export(&config, &state, ToolExecutor::new().get_schemas()).unwrap();
    let json = AgentFile::to_json(&af).unwrap();
    let (config2, state2) = AgentFile::import(&AgentFile::from_json(&json).unwrap()).unwrap();

    assert_eq!(state2.id, state.id);
    assert_eq!(state2.name, state.name);
    assert_eq!(config2.name, state.name);
    assert_eq!(config2.system_prompt, "Be brief.");
    assert_eq!(config2.model, "m");
    assert_eq!(config2.max_messages, 7);
    assert_eq!(config2.max_context_tokens, 99);
    assert_eq!(config2.temperature, 250);
    assert!(config2.tools_enabled);
    assert_eq!(state2.created_at.text, state.created_at.text);
    assert_eq!(state2.updated_at.text, state.updated_at.text);
    assert_eq!(state2.metadata.get_u64("k"), Some(1));
    for block in state.memory.blocks() {
        let again = state2.memory.get_block(&block.label).unwrap();
        assert_eq!(again.description, block.description);
        assert_eq!(again.value, block.value);
        assert_eq!(again.limit, block.limit);
    }
    assert_eq!(state2.messages.len(), 2);
    for (a, b) in state.messages.messages.iter().zip(state2.messages.messages.iter()) {
        assert_eq!(a.id, b.id);
        assert_eq!(a.role, b.role);
        assert_eq!(a.content, b.content);
        assert_eq!(a.tool_call_id, b.tool_call_id);
        assert_eq!(a.timestamp.text, b.timestamp.text);
    }
}

#[test]
fn import_needs_an_agent() {
    let mut af = AgentFile::export(&AgentConfig::default(), &AgentState::new("a"), vec![]).unwrap();
    af.agents.clear();
    let err = AgentFile::import(&af).unwrap_err();
    assert!(matches!(err, LettaError::InvalidConfig(_)));
    assert_eq!(err.to_string(), "Invalid configuration: No agents in AF file");
}

#[test]
fn import_passes_over_unknown_blocks_and_takes_the_first_of_an_identifier() {
    let mut af = AgentFile::export(&AgentConfig::default(), &AgentState::new("a"), vec![]).unwrap();
    af.agents[0].agent_state.memory.blocks =
        vec!["block_ghost".to_string(), "block_twice".to_string()];
    af.blocks = vec![
        BlockExport {
            id: "block_twice".to_string(),
            label: "twice".to_string(),
            description: "first".to_string(),
            value: "1".to_string(),
            limit: 10,
        },
        BlockExport {
            id: "block_twice".to_string(),
            label: "twice".to_string(),
            description: "second".to_string(),
            value: "2".to_string(),
            limit: 10,
        },
    ];
    af.agents[0].model.temperature = None;
    af.agents[0].agent_state.metadata = None;
    let (config, state) = AgentFile::import(&af).unwrap();
    assert_eq!(config.temperature, 700);
    assert!(state.memory.get_block("ghost").is_none());
    assert_eq!(state.memory.get_block("twice").unwrap().description, "first");
    // a new state starts as a chat memory
    assert!(state.memory.get_block("persona").is_some());
    assert_eq!(state.metadata.to_text().unwrap(), "{}");
}

#[test]
fn import_refuses_a_block_over_its_limit() {
    let mut state = AgentState::new("a");
    state.memory.set_block("big", "0123456789").unwrap();
    let mut af = AgentFile::export(&AgentConfig::default(), &state, vec![]).unwrap();
    af.blocks[2].limit = 9;
    let err = AgentFile::import(&af).unwrap_err();
    assert_eq!(err.to_string(), "Memory error: Value exceeds limit: 10 > 9");
}

#[test]
fn import_keeps_every_message() {
    let mut af = AgentFile::export(&AgentConfig::default(), &AgentState::new("a"), vec![]).unwrap();
    for i in 0..103 {
        af.agents[0].messages.push(Message::user(&format!("m{}", i)));
    }
    let (_, state) = AgentFile::import(&af).unwrap();
    assert_eq!(state.messages.len(), 103);
    assert_eq!(state.messages.max_size, 103);
    for i in 0..103 {
        assert_eq!(state.messages.messages[i].content, format!("m{}", i));
        assert_eq!(state.messages.messages[i].id, af.agents[0].messages[i].id);
    }
    assert_eq!(af.agents[0].messages.len(), 103);
}

#[test]
fn import_makes_the_room_that_the_document_gives() {
    let mut af = AgentFile::export(&AgentConfig::default(), &AgentState::new("a"), vec![]).unwrap();
    af.agents[0].message_buffer_size = 7;
    af.agents[0].messages.push(Message::user("one"));
    let (config, state) = AgentFile::import(&af).unwrap();
    assert_eq!(config.max_messages, 7);
    assert_eq!(state.messages.max_size, 7);
    assert_eq!(state.messages.len(), 1);
    af.agents[0].message_buffer_size = 0;
    let (_, state) = AgentFile::import(&af).unwrap();
    assert_eq!(state.messages.max_size, 1);
    assert_eq!(state.messages.messages[0].content, "one");
}

#[test]
fn a_long_conversation_survives_the_round_trip() {
    let mut state = AgentState::new("long");
    state.messages.max_size = 250;
    for i in 0..250 {
        state.messages.push(Message::assistant(&format!("line {}", i)));
    }
    let af = AgentFile::export(&AgentConfig::default(), &state, vec![]).unwrap();
    let back = AgentFile::from_json(&AgentFile::to_json(&af).unwrap()).unwrap();
    let (_, again) = AgentFile::import(&back).unwrap();
    assert_eq!(again.messages.len(), 250);
    for i in 0..250 {
        assert_eq!(again.messages.messages[i].id, state.messages.messages[i].id);
        assert_eq!(again.messages.messages[i].content, state.messages.messages[i].content);
        assert_eq!(again.messages.messages[i].role, state.messages.messages[i].role);
    }
}

#[test]
fn metadata_that_are_null_survive_the_round_trip() {
    let mut state = AgentState::new("bare");
    state.metadata = Json::Null;
    let af = AgentFile::export(&AgentConfig::default(), &state, vec![]).unwrap();
    assert!(matches!(af.agents[0].agent_state.metadata, Some(Json::Null)));
    let back = AgentFile::from_json(&AgentFile::to_json(&af).unwrap()).unwrap();
    assert!(matches!(back.agents[0].agent_state.metadata, Some(Json::Null)));
    let (_, again) = AgentFile::import(&back).unwrap();
    assert!(matches!(again.metadata, Json::Null));
    let mut without = back;
    without.agents[0].agent_state.metadata = None;
    let (_, fresh) = AgentFile::import(&without).unwrap();
    assert_eq!(fresh.metadata.to_text().unwrap(), "{}");
}

#[test]
fn json_elides_what_is_lacking() {
    let af = AgentFile::export(&AgentConfig::default(), &AgentState::new("a"), vec![]).unwrap();
    let document = AgentFile::to_document(&af);
    assert_eq!(document.get_str("version"), Some("0.1.0"));
    assert!(document.get("agents").is_some());
    assert!(document.get("blocks").is_some());
    assert!(document.get("tools").is_some());
    assert!(document.get("metadata").is_some());
    for key in ["groups", "files", "sources", "mcp_servers"] {
        assert!(document.get(key).is_none(), "{}", key);
    }
    let metadata = document.get("metadata").unwrap();
    assert_eq!(metadata.get_str("export_source"), Some("letta-lite"));
    assert_eq!(metadata.get_str("letta_version"), Some("0.1.0"));
    assert!(metadata.get("additional").is_none());
    let agent = match document.get("agents") {
        Some(Json::Array(agents)) => &agents[0],
        other => panic!("unexpected agents: {:?}", other),
    };
    assert_eq!(agent.get_u64("message_buffer_size"), Some(100));
    let state = agent.get("agent_state").unwrap();
    // a user that is lacking is written as null, rules that are lacking are left out
    assert!(matches!(state.get("user_id"), Some(Json::Null)));
    assert!(state.get("tool_rules").is_none());
    assert!(state.get("memory").unwrap().get("template").is_none());
    assert_eq!(state.get("memory").unwrap().get_str("memory_class"), Some("ChatMemory"));
    let model = agent.get("model").unwrap();
    assert_eq!(model.get_str("model_endpoint"), Some("toy"));
    assert_eq!(model.get_u64("context_window"), Some(8192));
    assert!(matches!(model.get("temperature"), Some(Json::Real(t)) if t == "0.700"));
    assert!(model.get("max_tokens").is_none());
    let text = AgentFile::to_json(&af).unwrap();
    assert!(text.contains("\"temperature\": 0.7"));
    assert!(text.contains("\"export_source\": \"letta-lite\""));
    assert!(text.contains("\n"));
}

fn minimal_document() -> String {
    r#"{
        "version": "0.1.0",
        "unknown_top_level": {"anything": [1, 2, 3]},
        "agents": [{
            "id": "agent-1",
            "name": "Ada",
            "system_prompt": "Be kind.",
            "message_buffer_size": 50,
            "surprise": true,
            "agent_state": {
                "user_id": null,
                "created_at": "2024-01-01T00:00:00Z",
                "updated_at": "2024-01-02T00:00:00Z",
                "tools": ["memory_replace"],
                "memory": {"memory_class": "ChatMemory", "blocks": ["block_persona"]},
                "metadata": null
            },
            "messages": [
                {"id": "m1", "role": "user", "content": "hi", "timestamp": "2024-01-01T00:00:01Z"},
                {"id": "m2", "role": "tool", "content": "{}", "tool_call_id": "c1",
                 "timestamp": "2024-01-01T00:00:02Z", "metadata": {"k": "v"}},
                {"id": "m3", "role": "assistant", "content": "",
                 "tool_calls": [{"id": "c1", "name": "archival_search", "arguments": {"query": "x"}}],
                 "timestamp": "2024-01-01T00:00:03Z"}
            ],
            "model": {"model_endpoint": "toy", "context_window": 4096, "temperature": 0.25}
        }],
        "blocks": [
            {"id": "block_persona", "label": "persona", "description": "d", "value": "I am Ada.", "limit": 100}
        ],
        "metadata": {
            "letta_version": "0.1.0",
            "export_time": "2024-01-03T00:00:00Z",
            "export_source": "elsewhere"
        }
    }"#
    .to_string()
}

#[test]
fn from_json_reads_a_document_of_another_writer() {
    let af = AgentFile::from_json(&minimal_document()).unwrap();
    assert_eq!(af.version, "0.1.0");
    assert_eq!(af.agents.len(), 1);
    assert!(af.groups.is_none() && af.tools.is_none());
    let agent = &af.agents[0];
    assert_eq!(agent.name, "Ada");
    assert_eq!(agent.message_buffer_size, 50);
    assert!(agent.agent_state.user_id.is_none());
    assert!(matches!(agent.agent_state.metadata, Some(Json::Null)));
    assert!(agent.agent_state.tool_rules.is_none());
    assert_eq!(agent.agent_state.created_at.text, "2024-01-01T00:00:00Z");
    assert_eq!(agent.model.temperature, Some(250));
    assert_eq!(agent.model.max_tokens, None);
    assert_eq!(agent.messages.len(), 3);
    assert_eq!(agent.messages[0].metadata.to_text().unwrap(), "{}");
    assert_eq!(agent.messages[1].tool_call_id.as_deref(), Some("c1"));
    assert_eq!(agent.messages[1].metadata.get_str("k"), Some("v"));
    assert_eq!(agent.messages[2].tool_calls.as_ref().unwrap()[0].name, "archival_search");
    assert_eq!(af.metadata.export_source, "elsewhere");
    assert!(af.metadata.additional.is_none());
    let (config, state) = AgentFile::import(&af).unwrap();
    assert_eq!(config.name, "Ada");
    assert_eq!(config.temperature, 250);
    assert_eq!(config.max_context_tokens, 4096);
    assert!(config.tools_enabled);
    assert_eq!(state.id, "agent-1");
    assert_eq!(state.memory.get_block("persona").unwrap().value, "I am Ada.");
    assert_eq!(state.memory.get_block("persona").unwrap().limit, 100);
    assert_eq!(state.messages.len(), 3);
    assert_eq!(state.messages.max_size, 50);
    assert!(matches!(state.metadata, Json::Null));
}

#[test]
fn from_json_refuses_what_is_no_agent_file() {
    let no_json = AgentFile::from_json("{ not json").unwrap_err();
    assert!(matches!(no_json, LettaError::Serialization(_)));
    for (from, to) in [
        ("\"version\": \"0.1.0\",", ""),
        ("\"message_buffer_size\": 50", "\"message_buffer_size\": -1"),
        ("\"message_buffer_size\": 50", "\"message_buffer_size\": 1.5"),
        ("\"role\": \"user\"", "\"role\": \"nobody\""),
        ("\"temperature\": 0.25", "\"temperature\": \"warm\""),
        ("\"temperature\": 0.25", "\"temperature\": 1e-9"),
        ("\"temperature\": 0.25", "\"temperature\": -0.5"),
        ("\"tools\": [\"memory_replace\"]", "\"tools\": [1]"),
        ("\"limit\": 100", "\"limit\": \"100\""),
        ("\"blocks\": [\"block_persona\"]", "\"blocks\": \"block_persona\""),
    ] {
        let text = minimal_document().replace(from, to);
        assert_ne!(text, minimal_document());
        let err = AgentFile::from_json(&text).unwrap_err();
        assert_eq!(err.to_string(), "Serialization error: the document is no agent file", "{}", to);
    }
    assert!(AgentFile::from_json("[]").is_err());
    assert!(AgentFile::from_json("null").is_err());
}

#[test]
fn documents_round_trip() {
    let mut state = AgentState::new("rt");
    state.messages.push(Message::user("one"));
    state.messages.push(
        Message::assistant("").with_tool_calls(vec![letta_lite::message::ToolCallInfo {
            id: "c".to_string(),
            name: "n".to_string(),
            arguments: Json::Object(vec![("q".to_string(), Json::Int(-4))]),
        }]),
    );
    state.messages.push(Message::tool("c".to_string(), "two"));
    let mut af = AgentFile::export(&AgentConfig::default(), &state, ToolExecutor::new().get_schemas()).unwrap();
    af.agents[0].model.max_tokens = Some(512);
    af.agents[0].agent_state.user_id = Some("u".to_string());
    af.agents[0].agent_state.memory.template = Some("{{ persona }}".to_string());
    let text = AgentFile::to_json(&af).unwrap();
    let back = AgentFile::from_json(&text).unwrap();
    assert_eq!(AgentFile::to_json(&back).unwrap(), text);
    assert_eq!(back.agents[0].model.max_tokens, Some(512));
    assert_eq!(back.agents[0].model.temperature, Some(700));
    assert_eq!(back.agents[0].agent_state.user_id.as_deref(), Some("u"));
    assert_eq!(back.agents[0].agent_state.memory.template.as_deref(), Some("{{ persona }}"));
    assert_eq!(back.agents[0].messages.len(), 3);
    assert_eq!(back.agents[0].messages[1].tool_calls.as_ref().unwrap()[0].arguments.to_text().unwrap(), "{\"q\":-4}");
    assert_eq!(back.tools.as_ref().unwrap().len(), 5);
    assert_eq!(back.tools.as_ref().unwrap()[3].schema.required, vec!["query".to_string()]);
    let again = AgentFile::from_document(&AgentFile::to_document(&af)).unwrap();
    assert_eq!(AgentFile::to_json(&again).unwrap(), text);
}
