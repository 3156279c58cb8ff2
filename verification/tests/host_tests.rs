use letta_lite::agent::StepResult;
use letta_lite::host::{
    agent_config_of, error_document, provider_config_for, status_code, step_document,
    storage_config_for, sync_config_of, user_text_of,
};
use letta_lite::json::Json;
use letta_lite::provider::{ProviderConfig, TokenUsage};

#[test]
fn agent_configuration_with_defaults() {
    let config = agent_config_of(&Json::parse("{}").unwrap());
    assert_eq!(config.name, "assistant");
    assert_eq!(config.system_prompt, "You are a helpful AI assistant with persistent memory.");
    assert_eq!(config.model, "toy");
    assert_eq!(config.max_messages, 100);
    assert_eq!(config.max_context_tokens, 8192);
    assert_eq!(config.temperature, 700);
    assert!(config.tools_enabled);

    let config = agent_config_of(
        &Json::parse(
            r#"{"name": "test", "model": "other", "max_messages": 7, "max_context_tokens": 64,
                "temperature": 1.25, "tools_enabled": false, "system_prompt": "S", "more": 1}"#,
        )
        .unwrap(),
    );
    assert_eq!(config.name, "test");
    assert_eq!(config.model, "other");
    assert_eq!(config.system_prompt, "S");
    assert_eq!(config.max_messages, 7);
    assert_eq!(config.max_context_tokens, 64);
    assert_eq!(config.temperature, 1250);
    assert!(!config.tools_enabled);

    // a member in another form counts as left out
    let config = agent_config_of(
        &Json::parse(r#"{"name": 5, "max_messages": "many", "temperature": "hot", "tools_enabled": 0}"#).unwrap(),
    );
    assert_eq!(config.name, "assistant");
    assert_eq!(config.max_messages, 100);
    assert_eq!(config.temperature, 700);
    assert!(config.tools_enabled);
    assert_eq!(agent_config_of(&Json::parse(r#"{"temperature": 2}"#).unwrap()).temperature, 2000);
    assert_eq!(agent_config_of(&Json::Null).name, "assistant");
}

#[test]
fn sync_configuration_with_defaults() {
    let config = sync_config_of(&Json::parse("{}").unwrap());
    assert_eq!(config.endpoint, "https://api.letta.ai");
    assert_eq!(config.api_key, "");
    assert_eq!(config.sync_interval, 300000);
    assert_eq!(config.conflict_resolution, "last-write-wins");
    assert!(!config.auto_sync);
    let config = sync_config_of(
        &Json::parse(
            r#"{"endpoint": "http://localhost:8000", "api_key": "k", "sync_interval": 5,
                "conflict_resolution": "merge", "auto_sync": true}"#,
        )
        .unwrap(),
    );
    assert_eq!(config.endpoint, "http://localhost:8000");
    assert_eq!(config.api_key, "k");
    assert_eq!(config.sync_interval, 5);
    assert_eq!(config.conflict_resolution, "merge");
    assert!(config.auto_sync);
}

#[test]
fn storage_and_provider_choices() {
    let default = storage_config_for("");
    assert_eq!(default.path, "letta.db");
    assert_eq!(default.max_connections, 5);
    let given = storage_config_for("/tmp/x.db");
    assert_eq!(given.path, "/tmp/x.db");
    assert_eq!(given.max_connections, 5);
    assert!(matches!(provider_config_for("toy"), ProviderConfig::Toy(c) if c.deterministic));
    assert!(matches!(provider_config_for("gpt"), ProviderConfig::Toy(c) if !c.deterministic));
}

#[test]
fn conversation_documents() {
    assert_eq!(user_text_of(&Json::parse(r#"{"text": "hello"}"#).unwrap()), "hello");
    assert_eq!(user_text_of(&Json::parse(r#"{"text": 5}"#).unwrap()), "");
    assert_eq!(user_text_of(&Json::parse("{}").unwrap()), "");
    let result = StepResult {
        text: "reply".to_string(),
        tool_trace: vec![Json::Object(vec![("tool".to_string(), Json::text("archival_search"))])],
        usage: TokenUsage { prompt_tokens: 1, completion_tokens: 2, total_tokens: 3 },
    };
    assert_eq!(
        step_document(&result).to_text().unwrap(),
        r#"{"text":"reply","tool_trace":[{"tool":"archival_search"}],"usage":{"completion_tokens":2,"prompt_tokens":1,"total_tokens":3}}"#
    );
    assert_eq!(error_document("Invalid message JSON").to_text().unwrap(), r#"{"error":"Invalid message JSON"}"#);
    assert_eq!(status_code(true), 0);
    assert_eq!(status_code(false), -1);
}
