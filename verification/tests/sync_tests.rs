use letta_lite::af::AgentFile;
use letta_lite::agent::{AgentConfig, AgentState};
use letta_lite::json::Json;
use letta_lite::sync::{ConflictInfo, PullStatus, SyncClient, SyncConfig, SyncResponse};

fn object(members: Vec<(&str, Json)>) -> Json {
    Json::Object(members.into_iter().map(|(k, v)| (k.to_string(), v)).collect())
}

fn client_with(policy: &str) -> SyncClient {
    SyncClient::new(SyncConfig {
        endpoint: "test".to_string(),
        api_key: "test".to_string(),
        sync_interval: 0,
        conflict_resolution: policy.to_string(),
        auto_sync: false,
    })
}

#[test]
fn test_sync_config() {
    let config = SyncConfig {
        endpoint: "https://api.letta.ai".to_string(),
        api_key: "test-key".to_string(),
        sync_interval: 300000,
        conflict_resolution: "last-write-wins".to_string(),
        auto_sync: true,
    };

    assert_eq!(config.endpoint, "https://api.letta.ai");
    assert_eq!(config.sync_interval, 300000);
}

#[test]
fn test_conflict_resolution() {
    let config = SyncConfig {
        endpoint: "test".to_string(),
        api_key: "test".to_string(),
        sync_interval: 0,
        conflict_resolution: "last-write-wins".to_string(),
        auto_sync: false,
    };

    let client = SyncClient::new(config);

    let conflict = ConflictInfo {
        field: "test".to_string(),
        local_value: object(vec![("a", Json::UInt(1))]),
        cloud_value: object(vec![("b", Json::UInt(2))]),
        resolution: "".to_string(),
    };

    let resolved = client.resolve_conflict(&conflict);
    assert_eq!(resolved.to_text().unwrap(), "{\"a\":1}");
}

#[test]
fn test_sync_conflict_resolution() {
    let sync_config = SyncConfig {
        endpoint: "http://localhost:8000".to_string(),
        api_key: "test".to_string(),
        sync_interval: 0,
        conflict_resolution: "last-write-wins".to_string(),
        auto_sync: false,
    };

    let client = SyncClient::new(sync_config);

    let conflict = ConflictInfo {
        field: "test_field".to_string(),
        local_value: object(vec![("a", Json::UInt(1)), ("b", Json::UInt(2))]),
        cloud_value: object(vec![("a", Json::UInt(3)), ("c", Json::UInt(4))]),
        resolution: String::new(),
    };

    let resolved = client.resolve_conflict(&conflict);
    assert_eq!(resolved.get_u64("a"), Some(1));
    assert_eq!(resolved.get_u64("b"), Some(2));
}

#[test]
fn default_sync_config() {
    let config = SyncConfig::default();
    assert_eq!(config.endpoint, "https://api.letta.ai");
    assert_eq!(config.api_key, "");
    assert_eq!(config.sync_interval, 300000);
    assert_eq!(config.conflict_resolution, "last-write-wins");
    assert!(!config.auto_sync);
}

#[test]
fn cloud_wins_takes_the_remote_value() {
    let conflict = ConflictInfo {
        field: "f".to_string(),
        local_value: Json::text("local"),
        cloud_value: Json::text("cloud"),
        resolution: String::new(),
    };
    assert_eq!(client_with("cloud-wins").resolve_conflict(&conflict).as_str(), Some("cloud"));
    assert_eq!(client_with("last-write-wins").resolve_conflict(&conflict).as_str(), Some("local"));
    assert_eq!(client_with("anything").resolve_conflict(&conflict).as_str(), Some("local"));
    // two values that are no objects cannot be merged
    assert_eq!(client_with("merge").resolve_conflict(&conflict).as_str(), Some("local"));
}

#[test]
fn merge_puts_local_members_over_remote_ones() {
    let conflict = ConflictInfo {
        field: "f".to_string(),
        local_value: object(vec![("a", Json::UInt(1)), ("b", Json::UInt(2))]),
        cloud_value: object(vec![("a", Json::UInt(3)), ("c", Json::UInt(4))]),
        resolution: String::new(),
    };
    let merged = client_with("merge").resolve_conflict(&conflict);
    assert_eq!(merged.get_u64("a"), Some(1));
    assert_eq!(merged.get_u64("b"), Some(2));
    assert_eq!(merged.get_u64("c"), Some(4));
    assert_eq!(merged.to_text().unwrap(), "{\"a\":1,\"b\":2,\"c\":4}");
    let mixed = ConflictInfo {
        field: "f".to_string(),
        local_value: object(vec![("a", Json::UInt(1))]),
        cloud_value: Json::Null,
        resolution: String::new(),
    };
    assert_eq!(client_with("merge").resolve_conflict(&mixed).to_text().unwrap(), "{\"a\":1}");
}

#[test]
fn addresses_and_authorization() {
    let client = SyncClient::new(SyncConfig {
        endpoint: "https://api.letta.ai".to_string(),
        api_key: "SECRET".to_string(),
        sync_interval: 1,
        conflict_resolution: "merge".to_string(),
        auto_sync: false,
    });
    assert_eq!(client.sync_address(), "https://api.letta.ai/v1/agents/sync");
    assert_eq!(client.pull_address("abc"), "https://api.letta.ai/v1/agents/abc/export");
    assert_eq!(client.push_address("abc"), "https://api.letta.ai/v1/agents/abc/import");
    assert_eq!(client.authorization(), "Bearer SECRET");
    assert_eq!(client.device_id.len(), 36);
}

#[test]
fn statuses() {
    assert!(SyncClient::is_success(200));
    assert!(SyncClient::is_success(299));
    assert!(!SyncClient::is_success(199));
    assert!(!SyncClient::is_success(300));
    assert_eq!(SyncClient::pull_status(200), PullStatus::Found);
    assert_eq!(SyncClient::pull_status(404), PullStatus::Absent);
    assert_eq!(SyncClient::pull_status(500), PullStatus::Failed);
    assert_eq!(SyncClient::pull_status(403), PullStatus::Failed);
}

#[test]
fn sync_request_names_the_first_agent() {
    let client = client_with("merge");
    let state = AgentState::new("n");
    let id = state.id.clone();
    let af = AgentFile::export(&AgentConfig::default(), &state, vec![]).unwrap();
    assert_eq!(SyncClient::agent_id_of(&af).unwrap(), id);
    let request = client.sync_request(af, 7).unwrap();
    assert_eq!(request.agent_id, id);
    assert_eq!(request.local_version, 7);
    assert_eq!(request.device_id, client.device_id);

    let mut empty = AgentFile::export(&AgentConfig::default(), &AgentState::new("n"), vec![]).unwrap();
    empty.agents.clear();
    assert_eq!(SyncClient::agent_id_of(&empty).unwrap_err(), "No agent in file");
    assert_eq!(client.sync_request(empty, 1).unwrap_err(), "No agent in file");
}

#[test]
fn sync_documents() {
    let client = client_with("merge");
    let state = AgentState::new("n");
    let id = state.id.clone();
    let af = AgentFile::export(&AgentConfig::default(), &state, vec![]).unwrap();
    let request = client.sync_request(af, -3).unwrap();
    let document = request.to_document();
    assert_eq!(document.get_str("agent_id"), Some(id.as_str()));
    assert_eq!(document.get_i64("local_version"), Some(-3));
    assert_eq!(document.get_str("device_id"), Some(client.device_id.as_str()));
    assert_eq!(document.get("agent_file").unwrap().get_str("version"), Some("0.1.0"));

    let answer = Json::parse(
        r#"{"cloud_version": 9, "status": "ok", "extra": 1,
            "conflicts": [{"field": "name", "local_value": "a", "cloud_value": {"b": 1}, "resolution": ""}]}"#,
    )
    .unwrap();
    let response = SyncResponse::from_document(&answer).unwrap();
    assert!(response.agent_file.is_none());
    assert_eq!(response.cloud_version, 9);
    assert_eq!(response.status, "ok");
    assert_eq!(response.conflicts.len(), 1);
    assert_eq!(response.conflicts[0].field, "name");
    assert_eq!(client.resolve_conflict(&response.conflicts[0]).as_str(), Some("a"));

    let with_file = Json::Object(vec![
        ("agent_file".to_string(), document.get("agent_file").unwrap().clone()),
        ("cloud_version".to_string(), Json::UInt(1)),
        ("conflicts".to_string(), Json::Array(vec![])),
        ("status".to_string(), Json::text("merged")),
    ]);
    let response = SyncResponse::from_document(&with_file).unwrap();
    assert_eq!(response.agent_file.unwrap().agents[0].id, id);

    assert!(SyncResponse::from_document(&Json::parse(r#"{"status": "ok"}"#).unwrap()).is_none());
    assert!(SyncResponse::from_document(&Json::parse(r#"{"cloud_version": 1.5, "status": "ok", "conflicts": []}"#).unwrap()).is_none());
}
