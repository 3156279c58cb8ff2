use letta_lite::clock::Timestamp;
use letta_lite::error::{LettaError, StorageError};
use letta_lite::storage::{
    contains_name, like_pattern, needs_sync, pending_migrations, StorageConfig, StoredAgent,
    StoredBlock, StoredChunk, StoredMessage, SyncMetadata,
};

#[test]
fn default_storage_config() {
    let config = StorageConfig::default();
    assert_eq!(config.path, "letta.db");
    assert_eq!(config.max_connections, 5);
}

#[test]
fn new_records() {
    let agent = StoredAgent::new("test-agent", "Test prompt");
    assert_eq!(agent.name, "test-agent");
    assert_eq!(agent.system_prompt, "Test prompt");
    assert_eq!(agent.id.len(), 36);
    assert_eq!(agent.created_at.text, agent.updated_at.text);
    assert_eq!(agent.config.to_text().unwrap(), "{}");
    let message = StoredMessage::new(&agent.id, "user", "Hello");
    assert_eq!(message.agent_id, agent.id);
    assert_eq!(message.role, "user");
    assert_eq!(message.content, "Hello");
    assert!(message.tool_calls.is_none());
    let block = StoredBlock::new(&agent.id, "test", "value");
    assert_eq!(block.label, "test");
    assert_eq!(block.value, "value");
    assert_eq!(block.description, "");
    assert_eq!(block.limit, 2000);
    let chunk = StoredChunk::new(&agent.id, "docs", "The quick brown fox");
    assert_eq!(chunk.folder, "docs");
    assert_eq!(chunk.text, "The quick brown fox");
    assert_ne!(chunk.id, block.id);
}

#[test]
fn like_patterns() {
    assert_eq!(like_pattern("Hello"), "%Hello%");
    assert_eq!(like_pattern(""), "%%");
}

#[test]
fn each_migration_is_applied_once() {
    let known = vec!["001_initial".to_string(), "002_more".to_string(), "003_last".to_string()];
    assert_eq!(pending_migrations(&known, &vec![]), known);
    assert_eq!(
        pending_migrations(&known, &vec!["002_more".to_string()]),
        vec!["001_initial".to_string(), "003_last".to_string()]
    );
    assert!(pending_migrations(&known, &known).is_empty());
    assert!(contains_name(&known, "002_more"));
    assert!(!contains_name(&known, "002"));
}

#[test]
fn pending_entities_need_sync() {
    let mut metadata = SyncMetadata {
        entity_type: "agent".to_string(),
        entity_id: "1".to_string(),
        local_version: 2,
        cloud_version: 1,
        last_sync_at: Timestamp::now(),
        sync_status: "pending".to_string(),
    };
    assert!(needs_sync(&metadata));
    metadata.sync_status = "synced".to_string();
    assert!(!needs_sync(&metadata));
}

#[test]
fn error_messages() {
    assert_eq!(StorageError::Database("d".to_string()).to_string(), "Database error: d");
    assert_eq!(StorageError::Pool("p".to_string()).to_string(), "Connection pool error: p");
    assert_eq!(StorageError::Serialization("s".to_string()).to_string(), "Serialization error: s");
    assert_eq!(StorageError::NotFound("n".to_string()).to_string(), "Not found: n");
    assert_eq!(StorageError::AlreadyExists("a".to_string()).to_string(), "Already exists: a");
    assert_eq!(StorageError::Migration("m".to_string()).to_string(), "Migration error: m");
    assert_eq!(StorageError::InvalidData("i".to_string()).to_string(), "Invalid data: i");
    assert_eq!(StorageError::Io("o".to_string()).to_string(), "IO error: o");
    assert_eq!(
        LettaError::Storage(StorageError::Pool("p".to_string())).to_string(),
        "Storage error: Connection pool error: p"
    );
    assert_eq!(LettaError::Serialization("x".to_string()).to_string(), "Serialization error: x");
    assert_eq!(LettaError::Provider("x".to_string()).to_string(), "Provider error: x");
    assert_eq!(LettaError::ToolExecution("x".to_string()).to_string(), "Tool execution error: x");
    assert_eq!(LettaError::Memory("x".to_string()).to_string(), "Memory error: x");
    assert_eq!(
        LettaError::ContextOverflow { current: 9001, max: 0 }.to_string(),
        "Context overflow: current 9001, max 0"
    );
    assert_eq!(LettaError::AgentNotFound("x".to_string()).to_string(), "Agent not found: x");
    assert_eq!(LettaError::InvalidConfig("x".to_string()).to_string(), "Invalid configuration: x");
    assert_eq!(LettaError::Sync("x".to_string()).to_string(), "Sync error: x");
    assert_eq!(LettaError::Io("x".to_string()).to_string(), "IO error: x");
    assert_eq!(LettaError::Unknown("x".to_string()).to_string(), "Unknown error: x");
}
