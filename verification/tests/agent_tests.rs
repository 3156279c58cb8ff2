use letta_lite::af::AgentFile;
use letta_lite::agent::{is_trivial_input, Agent, AgentConfig, AgentState, Turn, MAX_ITERATIONS};
use letta_lite::error::LettaError;
use letta_lite::json::Json;
use letta_lite::message::{Message, MessageRole};
use letta_lite::provider::{
    Completion, CompletionRequest, LlmProvider, ProviderConfig, ProviderFactory, ToyConfig, ToyProvider,
};
use letta_lite::tool::ToolCall;

fn toy_agent(deterministic: bool) -> Agent<ToyProvider> {
    Agent::new(AgentConfig::default(), ToyProvider::new(ToyConfig { deterministic }))
}

/// A provider that always asks for a heartbeat.
struct Restless;

impl LlmProvider for Restless {
    fn complete(&self, _request: CompletionRequest) -> Result<Completion, LettaError> {
        Ok(Completion::text("still thinking").with_tools(vec![ToolCall {
            id: "c".to_string(),
            name: "archival_search".to_string(),
            arguments: Json::Object(vec![("query".to_string(), Json::text("x"))]),
        }]))
    }

    fn name(&self) -> &str {
        "restless"
    }

    fn max_tokens(&self) -> usize {
        1
    }
}

/// A provider that always fails.
struct Broken;

impl LlmProvider for Broken {
    fn complete(&self, _request: CompletionRequest) -> Result<Completion, LettaError> {
        Err(LettaError::Provider("down".to_string()))
    }

    fn name(&self) -> &str {
        "broken"
    }

    fn max_tokens(&self) -> usize {
        1
    }
}

#[test]
fn test_agent_creation() {
    let config = AgentConfig::default();
    let provider = ToyProvider::new(ToyConfig { deterministic: true });
    let agent = Agent::new(config, provider);

    assert_eq!(agent.state.name, "assistant");
    assert!(agent.state.memory.get_block("persona").is_some());
}

#[test]
fn test_agent_step() {
    let mut agent = toy_agent(true);

    let result = agent.step("Hello!".to_string()).unwrap();
    assert!(!result.text.is_empty());
}

#[test]
fn test_memory_operations() {
    let mut agent = toy_agent(true);

    agent.set_memory_block("test", "test value").unwrap();
    assert_eq!(agent.get_memory_block("test"), Some("test value".to_string()));
}

#[test]
fn test_send_only_and_reply_only() {
    let mut agent = toy_agent(true);

    agent.send_only("第一条消息".to_string()).unwrap();
    agent.send_only("第二条消息".to_string()).unwrap();
    assert_eq!(agent.state.messages.len(), 2);

    agent.send_only("   ".to_string()).unwrap();
    agent.send_only("".to_string()).unwrap();
    agent.send_only("。".to_string()).unwrap();
    assert_eq!(agent.state.messages.len(), 2);

    let result = agent.reply_only().unwrap();
    assert!(!result.text.is_empty());
    assert_eq!(agent.state.messages.len(), 3);
}

#[test]
fn test_memory_limits() {
    let mut agent = toy_agent(true);

    let long_text = "x".repeat(3000);
    let result = agent.set_memory_block("test", &long_text);
    assert!(result.is_err());

    let short_text = "x".repeat(1000);
    let result = agent.set_memory_block("test", &short_text);
    assert!(result.is_ok());
}

#[test]
fn test_tool_execution() {
    let provider = ProviderFactory::create(ProviderConfig::Toy(ToyConfig { deterministic: false })).unwrap();

    let config = AgentConfig::default();
    let mut agent = Agent::new(config, provider);

    let response = agent.step("Search for latest readings #DO_SEARCH".to_string()).unwrap();
    assert!(!response.tool_trace.is_empty());

    let tool_trace = &response.tool_trace[0];
    assert_eq!(tool_trace.get_str("tool"), Some("archival_search"));
}

#[test]
fn test_af_compatibility() {
    let provider = ProviderFactory::create(ProviderConfig::Toy(ToyConfig { deterministic: true })).unwrap();

    let config = AgentConfig::default();
    let mut agent = Agent::new(config.clone(), provider);

    agent.set_memory_block("persona", "I am a helpful assistant").unwrap();
    agent.set_memory_block("human", "The user prefers concise answers").unwrap();
    agent.add_archival("knowledge", "Important fact 1");
    agent.add_archival("knowledge", "Important fact 2");

    let _ = agent.step("Hello".to_string()).unwrap();
    let _ = agent.step("How are you?".to_string()).unwrap();

    let af = AgentFile::export(&config, &agent.state, vec![]).unwrap();

    assert_eq!(af.version, "0.1.0");
    assert_eq!(af.agents.len(), 1);
    assert!(af.blocks.len() >= 2);
    assert_eq!(af.agents[0].messages.len(), 4);

    assert_eq!(af.metadata.export_source, "letta-lite");

    let json = AgentFile::to_json(&af).unwrap();
    let af2 = AgentFile::from_json(&json).unwrap();
    assert_eq!(af.version, af2.version);
    assert_eq!(af.agents.len(), af2.agents.len());

    let (config2, state2) = AgentFile::import(&af2).unwrap();
    assert_eq!(config2.system_prompt, config.system_prompt);
    assert_eq!(state2.id, agent.state.id);
    assert_eq!(state2.messages.len(), 4);
    assert_eq!(state2.memory.get_block("persona").unwrap().value, "I am a helpful assistant");
    assert_eq!(state2.memory.get_block("human").unwrap().value, "The user prefers concise answers");
}

#[test]
fn default_configuration() {
    let config = AgentConfig::default();
    assert_eq!(config.name, "assistant");
    assert_eq!(config.system_prompt, "You are a helpful AI assistant with persistent memory.");
    assert_eq!(config.model, "toy");
    assert_eq!(config.max_messages, 100);
    assert_eq!(config.max_context_tokens, 8192);
    assert_eq!(config.temperature, 700);
    assert!(config.tools_enabled);
    assert_eq!(MAX_ITERATIONS, 10);
}

#[test]
fn create_with_default_memory() {
    let agent = toy_agent(true);
    assert_eq!(agent.state.name, "assistant");
    assert_eq!(agent.get_memory_block("persona").unwrap(), "I am a helpful AI assistant.");
    assert_eq!(
        agent.get_memory_block("human").unwrap(),
        "User preferences and context will be stored here."
    );
    assert_eq!(agent.get_memory_block("nobody"), None);
    assert_eq!(agent.state.messages.max_size, 100);
    assert_eq!(agent.state.id.len(), 36);
    assert_eq!(agent.context.window.max_tokens, 8192);
}

#[test]
fn deterministic_reply() {
    let mut agent = toy_agent(true);
    let result = agent.step("Hello!".to_string()).unwrap();
    assert_eq!(result.text, "I understand your request. How can I help you further?");
    assert!(result.tool_trace.is_empty());
    assert_eq!(result.usage.completion_tokens, 13);
    assert_eq!(agent.state.messages.len(), 2);
    assert_eq!(agent.state.messages.messages[0].role, MessageRole::User);
    assert_eq!(agent.state.messages.messages[0].content, "Hello!");
    let last = &agent.state.messages.messages[1];
    assert_eq!(last.role, MessageRole::Assistant);
    assert_eq!(last.content, result.text);
}

#[test]
fn tool_trigger_leads_to_a_heartbeat() {
    let mut agent = toy_agent(true);
    let result = agent.step("please #DO_SEARCH now".to_string()).unwrap();
    assert!(result.text.starts_with("Based on the search results,"));
    assert_eq!(result.tool_trace.len(), 1);
    let entry = &result.tool_trace[0];
    assert_eq!(entry.get_str("tool"), Some("archival_search"));
    assert_eq!(entry.get("args").unwrap().get_str("query"), Some("latest readings"));
    assert_eq!(entry.get("args").unwrap().get_u64("top_k"), Some(3));
    assert_eq!(entry.get("result").unwrap().get_u64("count"), Some(0));
    // user, tool result, assistant with the calls, assistant reply
    let roles: Vec<MessageRole> = agent.state.messages.messages.iter().map(|m| m.role).collect();
    assert_eq!(
        roles,
        vec![MessageRole::User, MessageRole::Tool, MessageRole::Assistant, MessageRole::Assistant]
    );
    let tool_message = &agent.state.messages.messages[1];
    assert_eq!(tool_message.tool_call_id.as_deref(), Some("call_1"));
    assert_eq!(tool_message.content, "{\"count\":0,\"results\":[]}");
    let envelope = &agent.state.messages.messages[2];
    assert_eq!(envelope.content, "");
    assert_eq!(envelope.tool_calls.as_ref().unwrap().len(), 1);
    assert_eq!(envelope.tool_calls.as_ref().unwrap()[0].id, "call_1");
}

#[test]
fn memory_update_runs_the_tool_and_goes_on() {
    let mut agent = toy_agent(true);
    let result = agent.step("#MEMORY_UPDATE".to_string()).unwrap();
    assert_eq!(agent.get_memory_block("human").unwrap(), "Updated user information");
    assert!(result.text.starts_with("Based on the search results,"));
    assert_eq!(result.tool_trace.len(), 1);
    assert_eq!(result.tool_trace[0].get_str("tool"), Some("memory_replace"));
}

#[test]
fn trivial_input_gets_an_autonomous_reply() {
    let mut agent = toy_agent(true);
    let mut expected = 0;
    for input in ["", "   ", "。", ". ", "\t.\n", " 。 "] {
        let result = agent.step(input.to_string()).unwrap();
        assert!(!result.text.is_empty());
        expected += 1;
        assert_eq!(agent.state.messages.len(), expected);
        assert_eq!(agent.state.messages.messages[expected - 1].role, MessageRole::Assistant);
    }
    assert!(agent.state.messages.messages.iter().all(|m| m.role == MessageRole::Assistant));
    agent.step("..".to_string()).unwrap();
    assert_eq!(agent.state.messages.len(), expected + 2);
    assert_eq!(agent.state.messages.messages[expected].role, MessageRole::User);
}

#[test]
fn trivial_inputs() {
    for input in ["", " ", "\n\t ", ".", " . ", "。", "\u{3000}。\u{a0}"] {
        assert!(is_trivial_input(input), "{:?}", input);
    }
    for input in ["a", "..", ". .", "。。", " a.", ". a", ".。", "\"\"", "''", "“”", "!", "·"] {
        assert!(!is_trivial_input(input), "{:?}", input);
    }
}

#[test]
fn a_step_ends_after_ten_requests() {
    let mut agent = Agent::new(AgentConfig::default(), Restless);
    let err = agent.step("go".to_string()).unwrap_err();
    assert_eq!(err.to_string(), "Tool execution error: Maximum iterations exceeded");
    // the user message, and for each of ten rounds a tool message and the message with the calls
    assert_eq!(agent.state.messages.len(), 21);
}

#[test]
fn the_eleventh_request_is_refused() {
    let mut agent = toy_agent(true);
    let mut turn = Turn::new();
    for i in 0..10 {
        assert!(agent.next_request(&mut turn).is_ok());
        assert_eq!(turn.iterations, i + 1);
    }
    let err = agent.next_request(&mut turn).unwrap_err();
    assert!(matches!(err, LettaError::ToolExecution(_)));
    assert_eq!(turn.iterations, 10);
}

#[test]
fn provider_failures_end_the_step() {
    let mut agent = Agent::new(AgentConfig::default(), Broken);
    let err = agent.step("hi".to_string()).unwrap_err();
    assert_eq!(err.to_string(), "Provider error: down");
    assert_eq!(agent.state.messages.len(), 1);
}

#[test]
fn tool_failures_end_the_step() {
    let mut agent = toy_agent(true);
    let mut turn = Turn::new();
    let completion = Completion::text("").with_tools(vec![
        ToolCall {
            id: "1".to_string(),
            name: "archival_insert".to_string(),
            arguments: Json::Object(vec![("text".to_string(), Json::text("kept"))]),
        },
        ToolCall { id: "2".to_string(), name: "nothing".to_string(), arguments: Json::Null },
        ToolCall {
            id: "3".to_string(),
            name: "archival_insert".to_string(),
            arguments: Json::Object(vec![("text".to_string(), Json::text("never"))]),
        },
    ]);
    let err = agent.absorb(&mut turn, completion).unwrap_err();
    assert_eq!(err.to_string(), "Tool execution error: Unknown tool: nothing");
    assert_eq!(agent.state.archival_entries.len(), 1);
    assert_eq!(agent.state.messages.len(), 1);
    assert_eq!(agent.state.messages.messages[0].role, MessageRole::Tool);
    assert_eq!(turn.tool_trace.len(), 1);
}

#[test]
fn absorb_goes_on_without_text() {
    let mut agent = toy_agent(true);
    let mut turn = Turn::new();
    assert!(agent.absorb(&mut turn, Completion::text("")).unwrap().is_none());
    assert_eq!(agent.state.messages.len(), 0);
    let done = agent.absorb(&mut turn, Completion::text("done")).unwrap().unwrap();
    assert_eq!(done.text, "done");
    assert_eq!(done.usage.total_tokens, 1);
    assert_eq!(agent.state.messages.len(), 1);
}

#[test]
fn absorb_returns_text_after_tools_without_a_heartbeat() {
    let mut agent = toy_agent(true);
    let mut turn = Turn::new();
    let completion = Completion::text("all set").with_tools(vec![ToolCall {
        id: "1".to_string(),
        name: "archival_insert".to_string(),
        arguments: Json::Object(vec![("text".to_string(), Json::text("x"))]),
    }]);
    let done = agent.absorb(&mut turn, completion).unwrap().unwrap();
    assert_eq!(done.text, "all set");
    assert_eq!(done.tool_trace.len(), 1);
    let roles: Vec<MessageRole> = agent.state.messages.messages.iter().map(|m| m.role).collect();
    assert_eq!(roles, vec![MessageRole::Tool, MessageRole::Assistant, MessageRole::Assistant]);
    // the same with a heartbeat goes on
    let mut turn = Turn::new();
    let again = Completion::text("all set")
        .with_tools(vec![ToolCall {
            id: "1".to_string(),
            name: "archival_insert".to_string(),
            arguments: Json::Object(vec![("text".to_string(), Json::text("x"))]),
        }])
        .with_heartbeat();
    assert!(agent.absorb(&mut turn, again).unwrap().is_none());
    assert_eq!(turn.tool_trace.len(), 1);
}

#[test]
fn requests_carry_the_tools_and_the_temperature() {
    let mut agent = toy_agent(true);
    let mut turn = Turn::new();
    let request = agent.next_request(&mut turn).unwrap();
    assert_eq!(request.tools.len(), 5);
    assert_eq!(request.tools[0].get_str("name"), Some("memory_replace"));
    assert_eq!(request.temperature, Some(700));
    assert_eq!(request.max_tokens, None);
    assert!(!request.stream);
    assert!(request.prompt.starts_with("System: You are a helpful AI assistant with persistent memory.\n\n<memory>\n"));
    assert!(request.prompt.ends_with("<conversation>\n</conversation>"));

    let mut config = AgentConfig::default();
    config.tools_enabled = false;
    let mut plain = Agent::new(config, ToyProvider::new(ToyConfig { deterministic: true }));
    let request = plain.next_request(&mut Turn::new()).unwrap();
    assert!(request.tools.is_empty());
}

#[test]
fn a_small_budget_overflows() {
    let mut config = AgentConfig::default();
    config.max_context_tokens = 100;
    let mut agent = Agent::new(config, ToyProvider::new(ToyConfig { deterministic: true }));
    let mut failure = None;
    for i in 0..20 {
        match agent.step(format!("Message {}", i)) {
            Ok(result) => assert!(!result.text.is_empty()),
            Err(e) => {
                failure = Some(e);
                break;
            }
        }
    }
    match failure {
        Some(LettaError::ContextOverflow { current, max }) => {
            assert_eq!(max, 100);
            assert!(current > 100);
        }
        other => panic!("expected an overflow, got {:?}", other),
    }
}

#[test]
fn a_summary_is_pushed_at_the_threshold() {
    let mut config = AgentConfig::default();
    config.max_context_tokens = 60;
    let mut agent = Agent::new(config, ToyProvider::new(ToyConfig { deterministic: true }));
    // 14 tokens of system prompt and 19 of memory; 15 more reach 48 of 60
    agent.state.messages.push(Message::user(&"u".repeat(60)));
    let mut turn = Turn::new();
    agent.next_request(&mut turn).unwrap();
    assert_eq!(agent.context.window.current_tokens, 48);
    assert_eq!(agent.state.messages.len(), 2);
    let summary = &agent.state.messages.messages[1];
    assert_eq!(summary.role, MessageRole::System);
    assert_eq!(summary.content, "Context summary: Previous conversation summary:\n");
}

#[test]
fn archival_entries_are_searchable() {
    let mut agent = toy_agent(true);
    agent.add_archival("test-folder", "test content");
    agent.add_archival("other", "Nothing");
    let results = agent.search_archival("test", 10);
    assert_eq!(results.len(), 1);
    assert_eq!(results[0].get_str("folder"), Some("test-folder"));
    assert_eq!(results[0].get_str("text"), Some("test content"));
    assert!(results[0].get_str("timestamp").is_some());
    assert!(agent.search_archival("TEST", 0).is_empty());
    assert_eq!(agent.search_archival("t", 10).len(), 2);
}

#[test]
fn conversation_is_searchable_and_clearable() {
    let mut agent = toy_agent(true);
    agent.step("Hello there".to_string()).unwrap();
    let found = agent.search_conversation("hello", 5);
    assert_eq!(found.len(), 1);
    assert_eq!(found[0].content, "Hello there");
    assert_eq!(agent.search_conversation("help", 5).len(), 1);
    agent.clear_messages();
    assert_eq!(agent.state.messages.len(), 0);
}

#[test]
fn with_state_replaces_the_state() {
    let state = AgentState::new("other");
    let id = state.id.clone();
    let agent = toy_agent(true).with_state(state);
    assert_eq!(agent.state.id, id);
    assert_eq!(agent.state.name, "other");
}

#[test]
fn set_memory_block_stamps_the_state() {
    let mut agent = toy_agent(true);
    agent.state.updated_at.text = "then".to_string();
    agent.set_memory_block("human", "v").unwrap();
    assert_ne!(agent.state.updated_at.text, "then");
    agent.state.updated_at.text = "then".to_string();
    assert!(agent.set_memory_block("human", &"x".repeat(2001)).is_err());
    assert_eq!(agent.state.updated_at.text, "then");
    assert_eq!(agent.get_memory_block("human").unwrap(), "v");
}

#[test]
fn test_agent_lifecycle() {
    let provider = ProviderFactory::create(ProviderConfig::Toy(ToyConfig { deterministic: true })).unwrap();

    let config = AgentConfig {
        name: "test-agent".to_string(),
        system_prompt: "You are a test agent.".to_string(),
        model: "toy".to_string(),
        ..Default::default()
    };

    let mut agent = Agent::new(config.clone(), provider);

    agent.set_memory_block("test", "test value").unwrap();
    assert_eq!(agent.get_memory_block("test"), Some("test value".to_string()));

    agent.add_archival("test-folder", "test content");
    let results = agent.search_archival("test", 10);
    assert!(!results.is_empty());

    let response = agent.step("Hello!".to_string()).unwrap();
    assert!(!response.text.is_empty());

    let af = AgentFile::export(&config, &agent.state, vec![]).unwrap();
    assert_eq!(af.version, "0.1.0");

    let (config2, state2) = AgentFile::import(&af).unwrap();
    assert_eq!(config2.name, config.name);
    assert_eq!(state2.memory.get_block("test").unwrap().value, "test value");
}
