//! The records of the relational store and what is decided about them.
//! The store itself, a database in a file, is kept by the host.

use crate::clock::{new_id, Timestamp};
use crate::json::Json;
use crate::message::empty_object;
use crate::text::{concat3, same_text};
use vstd::prelude::*;

verus! {

/// Where the store is and how many connections it may hold.
#[derive(Debug)]
pub struct StorageConfig {
    /// The path of the database file.
    pub path: String,
    pub max_connections: u32,
}

impl Default for StorageConfig {
    fn default() -> (c: StorageConfig)
        ensures
            c.path@ == "letta.db"@,
            c.max_connections == 5,
    {
        StorageConfig { path: "letta.db".to_owned(), max_connections: 5 }
    }
}

/// A row of the table `agents`.
#[derive(Debug)]
pub struct StoredAgent {
    pub id: String,
    pub name: String,
    pub system_prompt: String,
    pub config: Json,
    pub state: Json,
    pub created_at: Timestamp,
    pub updated_at: Timestamp,
}

/// A row of the table `messages`.
#[derive(Debug)]
pub struct StoredMessage {
    pub id: String,
    pub agent_id: String,
    pub role: String,
    pub content: String,
    pub tool_calls: Option<Json>,
    pub tool_call_id: Option<String>,
    pub metadata: Json,
    pub timestamp: Timestamp,
}

/// A row of the table `blocks`.
#[derive(Debug)]
pub struct StoredBlock {
    pub id: String,
    pub agent_id: String,
    pub label: String,
    pub description: String,
    pub value: String,
    pub limit: i32,
    pub updated_at: Timestamp,
}

/// A row of the table `chunks`, without its embedding.
#[derive(Debug)]
pub struct StoredChunk {
    pub id: String,
    pub agent_id: String,
    pub folder: String,
    pub text: String,
    pub metadata: Json,
    pub created_at: Timestamp,
}

/// A row of the table `sync_metadata`.
#[derive(Debug)]
pub struct SyncMetadata {
    pub entity_type: String,
    pub entity_id: String,
    pub local_version: i64,
    pub cloud_version: i64,
    pub last_sync_at: Timestamp,
    pub sync_status: String,
}

impl StoredAgent {
    /// A new agent with a fresh identifier, created now, with empty
    /// objects for its configuration and state.
    pub fn new(name: &str, system_prompt: &str) -> (a: StoredAgent)
        ensures
            a.id@.len() == 36,
            a.name@ == name@,
            a.system_prompt@ == system_prompt@,
            a.config@ == empty_object(),
            a.state@ == empty_object(),
            a.created_at@ == a.updated_at@,
    {
        let now = Timestamp::now();
        StoredAgent {
            id: new_id(),
            name: name.to_owned(),
            system_prompt: system_prompt.to_owned(),
            config: Json::empty_object(),
            state: Json::empty_object(),
            created_at: now.clone(),
            updated_at: now,
        }
    }
}

impl StoredMessage {
    /// A new message of `agent_id` with a fresh identifier, stamped now.
    pub fn new(agent_id: &str, role: &str, content: &str) -> (m: StoredMessage)
        ensures
            m.id@.len() == 36,
            m.agent_id@ == agent_id@,
            m.role@ == role@,
            m.content@ == content@,
            m.tool_calls is None,
            m.tool_call_id is None,
            m.metadata@ == empty_object(),
    {
        StoredMessage {
            id: new_id(),
            agent_id: agent_id.to_owned(),
            role: role.to_owned(),
            content: content.to_owned(),
            tool_calls: None,
            tool_call_id: None,
            metadata: Json::empty_object(),
            timestamp: Timestamp::now(),
        }
    }
}

impl StoredBlock {
    /// A new block of `agent_id` with a fresh identifier, no description
    /// and the default limit.
    pub fn new(agent_id: &str, label: &str, value: &str) -> (b: StoredBlock)
        ensures
            b.id@.len() == 36,
            b.agent_id@ == agent_id@,
            b.label@ == label@,
            b.description@ == Seq::<char>::empty(),
            b.value@ == value@,
            b.limit == 2000,
    {
        StoredBlock {
            id: new_id(),
            agent_id: agent_id.to_owned(),
            label: label.to_owned(),
            description: String::new(),
            value: value.to_owned(),
            limit: 2000,
            updated_at: Timestamp::now(),
        }
    }
}

impl StoredChunk {
    /// A new chunk of `agent_id` with a fresh identifier, created now.
    pub fn new(agent_id: &str, folder: &str, text: &str) -> (c: StoredChunk)
        ensures
            c.id@.len() == 36,
            c.agent_id@ == agent_id@,
            c.folder@ == folder@,
            c.text@ == text@,
            c.metadata@ == empty_object(),
    {
        StoredChunk {
            id: new_id(),
            agent_id: agent_id.to_owned(),
            folder: folder.to_owned(),
            text: text.to_owned(),
            metadata: Json::empty_object(),
            created_at: Timestamp::now(),
        }
    }
}

/// The pattern that finds `query` anywhere in a text.
pub open spec fn like_pattern_of(query: Seq<char>) -> Seq<char> {
    "%"@ + query + "%"@
}

/// The pattern that finds `query` anywhere in a text.
pub fn like_pattern(query: &str) -> (r: String)
    ensures
        r@ == like_pattern_of(query@),
{
    concat3("%", query, "%")
}

/// Whether `name` is among `names`.
pub open spec fn is_among(names: Seq<Seq<char>>, name: Seq<char>) -> bool {
    exists|i: int| 0 <= i < names.len() && #[trigger] names[i] == name
}

/// The migrations of `known` that are not among `applied`, in the order
/// of `known`: each migration is applied at most once.
pub open spec fn pending_of(known: Seq<Seq<char>>, applied: Seq<Seq<char>>) -> Seq<Seq<char>>
    decreases known.len(),
{
    if known.len() == 0 {
        Seq::empty()
    } else {
        let rest = pending_of(known.drop_last(), applied);
        if is_among(applied, known.last()) {
            rest
        } else {
            rest.push(known.last())
        }
    }
}

/// Whether `name` is among `names`.
pub fn contains_name(names: &Vec<String>, name: &str) -> (r: bool)
    ensures
        r == is_among(names.deep_view(), name@),
{
    let mut i: usize = 0;
    while i < names.len()
        invariant
            i <= names.len(),
            forall|j: int| 0 <= j < i ==> names.deep_view()[j] != name@,
        decreases names.len() - i,
    {
        if same_text(names[i].as_str(), name) {
            assert(names.deep_view()[i as int] == name@);
            return true;
        }
        i += 1;
    }
    false
}

/// The migrations of `known` that are still to be applied, given those
/// that were applied.
pub fn pending_migrations(known: &Vec<String>, applied: &Vec<String>) -> (r: Vec<String>)
    ensures
        r.deep_view() == pending_of(known.deep_view(), applied.deep_view()),
{
    let mut out: Vec<String> = Vec::new();
    let mut i: usize = 0;
    assert(known.deep_view().take(0) =~= Seq::<Seq<char>>::empty());
    assert(out.deep_view() =~= Seq::<Seq<char>>::empty());
    while i < known.len()
        invariant
            i <= known.len(),
            out.deep_view() == pending_of(known.deep_view().take(i as int), applied.deep_view()),
        decreases known.len() - i,
    {
        proof {
            let next = known.deep_view().take(i + 1);
            assert(next.drop_last() =~= known.deep_view().take(i as int));
            assert(next.last() == known@[i as int]@);
        }
        if !contains_name(applied, known[i].as_str()) {
            let ghost before = out.deep_view();
            out.push(known[i].clone());
            assert(out.deep_view() =~= before.push(known@[i as int]@));
        }
        i += 1;
    }
    assert(known.deep_view().take(i as int) =~= known.deep_view());
    out
}

/// Whether an entity waits for synchronization.
pub fn needs_sync(metadata: &SyncMetadata) -> (r: bool)
    ensures
        r == (metadata.sync_status@ == "pending"@),
{
    same_text(metadata.sync_status.as_str(), "pending")
}

} // verus!
