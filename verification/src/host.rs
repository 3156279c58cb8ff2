//! What a host says to the runtime and hears from it, as JSON documents:
//! configurations in which every member may be left out, the input and the
//! outcome of a conversation, and failures.

use crate::agent::{default_config, AgentConfig, ConfigModel, StepResult};
use crate::document::{thousandths, thousandths_of_json};
use crate::json::{no_members, Json, JsonValue, ObjectBuilder};
use crate::provider::{ProviderConfig, ToyConfig};
use crate::storage::StorageConfig;
use crate::sync::SyncConfig;
use crate::text::same_text;
use vstd::prelude::*;

verus! {

/// The text of the member `key`, or `default` where the document has no
/// such text.
pub open spec fn text_or(j: JsonValue, key: Seq<char>, default: Seq<char>) -> Seq<char> {
    match j.text_member(key) {
        Some(t) => t,
        None => default,
    }
}

/// The size of the member `key`, or `default` where the document has no
/// such size.
pub open spec fn size_or(j: JsonValue, key: Seq<char>, default: usize) -> usize {
    match j.size_member(key) {
        Some(n) => n,
        None => default,
    }
}

/// The truth value of the member `key`, or `default` where the document
/// has none.
pub open spec fn bool_or(j: JsonValue, key: Seq<char>, default: bool) -> bool {
    match j.member(key) {
        Some(JsonValue::Bool(b)) => b,
        _ => default,
    }
}

/// The thousandths of the member `key`, or `default` where the document
/// has no such number.
pub open spec fn thousandths_or(j: JsonValue, key: Seq<char>, default: u32) -> u32 {
    match j.member(key) {
        Some(v) => match thousandths_of_json(v) {
            Some(t) => t,
            None => default,
        },
        None => default,
    }
}

/// The configuration of an agent that a document gives: every member that
/// the document gives in its form, and the default for every other.
pub open spec fn agent_config_of_json(j: JsonValue) -> ConfigModel {
    ConfigModel {
        name: text_or(j, "name"@, default_config().name),
        system_prompt: text_or(j, "system_prompt"@, default_config().system_prompt),
        model: text_or(j, "model"@, default_config().model),
        max_messages: size_or(j, "max_messages"@, 100) as nat,
        max_context_tokens: size_or(j, "max_context_tokens"@, 8192) as nat,
        temperature: thousandths_or(j, "temperature"@, 700) as nat,
        tools_enabled: bool_or(j, "tools_enabled"@, true),
    }
}

fn get_text_or(j: &Json, key: &str, default: &str) -> (r: String)
    ensures
        r@ == text_or(j@, key@, default@),
{
    match j.get_str(key) {
        Some(t) => t.to_owned(),
        None => default.to_owned(),
    }
}

fn get_size_or(j: &Json, key: &str, default: usize) -> (r: usize)
    ensures
        r == size_or(j@, key@, default),
{
    match j.get_usize(key) {
        Some(n) => n,
        None => default,
    }
}

fn get_bool_or(j: &Json, key: &str, default: bool) -> (r: bool)
    ensures
        r == bool_or(j@, key@, default),
{
    match j.get(key) {
        Some(Json::Bool(b)) => *b,
        _ => default,
    }
}

fn get_thousandths_or(j: &Json, key: &str, default: u32) -> (r: u32)
    ensures
        r == thousandths_or(j@, key@, default),
{
    match j.get(key) {
        Some(v) => match thousandths(v) {
            Some(t) => t,
            None => default,
        },
        None => default,
    }
}

/// The configuration of an agent that a document gives.
pub fn agent_config_of(document: &Json) -> (config: AgentConfig)
    ensures
        config@ == agent_config_of_json(document@),
{
    AgentConfig {
        name: get_text_or(document, "name", "assistant"),
        system_prompt: get_text_or(
            document,
            "system_prompt",
            "You are a helpful AI assistant with persistent memory.",
        ),
        model: get_text_or(document, "model", "toy"),
        max_messages: get_size_or(document, "max_messages", 100),
        max_context_tokens: get_size_or(document, "max_context_tokens", 8192),
        temperature: get_thousandths_or(document, "temperature", 700),
        tools_enabled: get_bool_or(document, "tools_enabled", true),
    }
}

/// The interval between two synchronizations that a document gives, in
/// milliseconds, or five minutes.
pub open spec fn interval_of_json(j: JsonValue) -> u64 {
    match j.uint_member("sync_interval"@) {
        Some(n) => n,
        None => 300000,
    }
}

/// The configuration of the synchronization that a document gives: every
/// member that the document gives in its form, and the default for every
/// other.
pub fn sync_config_of(document: &Json) -> (config: SyncConfig)
    ensures
        config.endpoint@ == text_or(document@, "endpoint"@, "https://api.letta.ai"@),
        config.api_key@ == text_or(document@, "api_key"@, ""@),
        config.sync_interval == interval_of_json(document@),
        config.conflict_resolution@ == text_or(
            document@,
            "conflict_resolution"@,
            "last-write-wins"@,
        ),
        config.auto_sync == bool_or(document@, "auto_sync"@, false),
{
    SyncConfig {
        endpoint: get_text_or(document, "endpoint", "https://api.letta.ai"),
        api_key: get_text_or(document, "api_key", ""),
        sync_interval: match document.get_u64("sync_interval") {
            Some(n) => n,
            None => 300000,
        },
        conflict_resolution: get_text_or(document, "conflict_resolution", "last-write-wins"),
        auto_sync: get_bool_or(document, "auto_sync", false),
    }
}

/// The configuration of the store for a path: the default where no path
/// is given, else the database at the path with five connections.
pub fn storage_config_for(path: &str) -> (config: StorageConfig)
    ensures
        config.max_connections == 5,
        config.path@ == if path@.len() == 0 {
            "letta.db"@
        } else {
            path@
        },
{
    if path.unicode_len() == 0 {
        StorageConfig::default()
    } else {
        StorageConfig { path: path.to_owned(), max_connections: 5 }
    }
}

/// The provider that a model name stands for: the deterministic test
/// provider for `toy`, the other test provider for every other name.
pub fn provider_config_for(model: &str) -> (config: ProviderConfig)
    ensures
        config == ProviderConfig::Toy(ToyConfig { deterministic: model@ == "toy"@ }),
{
    ProviderConfig::Toy(ToyConfig { deterministic: same_text(model, "toy") })
}

/// The input of a conversation that a document gives: its member `text`,
/// or the empty text.
pub fn user_text_of(document: &Json) -> (text: String)
    ensures
        text@ == text_or(document@, "text"@, Seq::empty()),
{
    match document.get_str("text") {
        Some(t) => t.to_owned(),
        None => String::new(),
    }
}

/// The outcome of a step as a document with the members `text`,
/// `tool_trace` and `usage`.
pub open spec fn step_json(text: Seq<char>, trace: Seq<JsonValue>, usage: JsonValue) -> JsonValue {
    JsonValue::Object(
        no_members().insert("text"@, JsonValue::Text(text)).insert(
            "tool_trace"@,
            JsonValue::Array(trace),
        ).insert("usage"@, usage),
    )
}

/// The usage of a step as a document with the numbers of tokens.
pub open spec fn usage_json(prompt: usize, completion: usize, total: usize) -> JsonValue {
    JsonValue::Object(
        no_members().insert("prompt_tokens"@, JsonValue::Number(prompt as int)).insert(
            "completion_tokens"@,
            JsonValue::Number(completion as int),
        ).insert("total_tokens"@, JsonValue::Number(total as int)),
    )
}

/// A failure as a document with the member `error`.
pub open spec fn error_json(message: Seq<char>) -> JsonValue {
    JsonValue::Object(no_members().insert("error"@, JsonValue::Text(message)))
}

/// The outcome of a step as a document.
pub fn step_document(result: &StepResult) -> (document: Json)
    ensures
        document@ == step_json(
            result.text@,
            result.tool_trace.deep_view(),
            usage_json(
                result.usage.prompt_tokens,
                result.usage.completion_tokens,
                result.usage.total_tokens,
            ),
        ),
{
    let mut usage = ObjectBuilder::new();
    usage.put("prompt_tokens", Json::UInt(result.usage.prompt_tokens as u64));
    usage.put("completion_tokens", Json::UInt(result.usage.completion_tokens as u64));
    usage.put("total_tokens", Json::UInt(result.usage.total_tokens as u64));
    let mut trace: Vec<Json> = Vec::new();
    let mut i: usize = 0;
    while i < result.tool_trace.len()
        invariant
            i <= result.tool_trace.len(),
            trace.len() == i,
            forall|k: int| 0 <= k < i ==> trace@[k]@ == result.tool_trace@[k]@,
        decreases result.tool_trace.len() - i,
    {
        trace.push(result.tool_trace[i].clone());
        i += 1;
    }
    assert(trace.deep_view() =~= result.tool_trace.deep_view());
    let mut object = ObjectBuilder::new();
    object.put("text", Json::Text(result.text.clone()));
    object.put("tool_trace", Json::array(trace));
    object.put("usage", usage.build());
    object.build()
}

/// A failure as a document.
pub fn error_document(message: &str) -> (document: Json)
    ensures
        document@ == error_json(message@),
{
    let mut object = ObjectBuilder::new();
    object.put("error", Json::text(message));
    object.build()
}

/// The status code of an outcome: zero for success, minus one for a
/// failure.
pub fn status_code(success: bool) -> (code: i32)
    ensures
        code == if success {
            0i32
        } else {
            -1i32
        },
{
    if success {
        0
    } else {
        -1
    }
}

} // verus!
