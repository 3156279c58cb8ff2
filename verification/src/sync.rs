//! Synchronization of an agent with a remote service: what is asked of
//! the service, how its answers are read, and how conflicts are resolved.
//! The requests themselves are sent by the host.

use crate::af::{AgentFileModel, AgentFileV1};
use crate::clock::new_id;
use crate::document::{
    decode_sync_response, encode_sync_request, sync_request_json, sync_response_of_json,
};
use crate::json::{lemma_object_view, members_map, Json, JsonValue};
use crate::text::{concat2, concat3, same_text};
use vstd::prelude::*;

verus! {

/// How an agent is synchronized.
#[derive(Debug)]
pub struct SyncConfig {
    pub endpoint: String,
    pub api_key: String,
    /// The time between two automatic synchronizations, in milliseconds.
    pub sync_interval: u64,
    /// `last-write-wins`, `cloud-wins` or `merge`.
    pub conflict_resolution: String,
    pub auto_sync: bool,
}

impl Default for SyncConfig {
    fn default() -> (c: SyncConfig)
        ensures
            c.endpoint@ == "https://api.letta.ai"@,
            c.api_key@ == ""@,
            c.sync_interval == 300000,
            c.conflict_resolution@ == "last-write-wins"@,
            !c.auto_sync,
    {
        SyncConfig {
            endpoint: "https://api.letta.ai".to_owned(),
            api_key: "".to_owned(),
            sync_interval: 300000,
            conflict_resolution: "last-write-wins".to_owned(),
            auto_sync: false,
        }
    }
}

/// What is sent to the service to synchronize an agent.
#[derive(Debug)]
pub struct SyncRequest {
    pub agent_id: String,
    pub agent_file: AgentFileV1,
    pub local_version: i64,
    pub device_id: String,
}

/// A field on which the local and the remote agent differ.
#[derive(Debug)]
pub struct ConflictInfo {
    pub field: String,
    pub local_value: Json,
    pub cloud_value: Json,
    pub resolution: String,
}

/// What the service answers to a synchronization.
#[derive(Debug)]
pub struct SyncResponse {
    pub agent_file: Option<AgentFileV1>,
    pub cloud_version: i64,
    pub conflicts: Vec<ConflictInfo>,
    pub status: String,
}

/// What a `ConflictInfo` holds.
pub struct ConflictModel {
    pub field: Seq<char>,
    pub local_value: JsonValue,
    pub cloud_value: JsonValue,
    pub resolution: Seq<char>,
}

impl DeepView for ConflictInfo {
    type V = ConflictModel;

    open spec fn deep_view(&self) -> ConflictModel {
        ConflictModel {
            field: self.field@,
            local_value: self.local_value@,
            cloud_value: self.cloud_value@,
            resolution: self.resolution@,
        }
    }
}

impl View for ConflictInfo {
    type V = ConflictModel;

    open spec fn view(&self) -> ConflictModel {
        self.deep_view()
    }
}

/// What a `SyncRequest` holds.
pub struct SyncRequestModel {
    pub agent_id: Seq<char>,
    pub agent_file: AgentFileModel,
    pub local_version: i64,
    pub device_id: Seq<char>,
}

impl DeepView for SyncRequest {
    type V = SyncRequestModel;

    open spec fn deep_view(&self) -> SyncRequestModel {
        SyncRequestModel {
            agent_id: self.agent_id@,
            agent_file: self.agent_file.deep_view(),
            local_version: self.local_version,
            device_id: self.device_id@,
        }
    }
}

impl View for SyncRequest {
    type V = SyncRequestModel;

    open spec fn view(&self) -> SyncRequestModel {
        self.deep_view()
    }
}

/// What a `SyncResponse` holds.
pub struct SyncResponseModel {
    pub agent_file: Option<AgentFileModel>,
    pub cloud_version: i64,
    pub conflicts: Seq<ConflictModel>,
    pub status: Seq<char>,
}

impl DeepView for SyncResponse {
    type V = SyncResponseModel;

    open spec fn deep_view(&self) -> SyncResponseModel {
        SyncResponseModel {
            agent_file: self.agent_file.deep_view(),
            cloud_version: self.cloud_version,
            conflicts: self.conflicts.deep_view(),
            status: self.status@,
        }
    }
}

impl View for SyncResponse {
    type V = SyncResponseModel;

    open spec fn view(&self) -> SyncResponseModel {
        self.deep_view()
    }
}


/// What the status of an answer to a pull means.
#[derive(Debug, Clone, Copy, PartialEq, Eq, Structural)]
pub enum PullStatus {
    /// The service holds the agent: the body is its agent file.
    Found,
    /// The service does not hold the agent.
    Absent,
    /// The request failed.
    Failed,
}

/// A status of success: 200 to 299.
pub open spec fn is_success_status(status: u16) -> bool {
    200 <= status <= 299
}

/// What a status means for a pull: 404 is the only status outside 200 to
/// 299 that is no failure.
pub open spec fn pull_status_of(status: u16) -> PullStatus {
    if status == 404 {
        PullStatus::Absent
    } else if is_success_status(status) {
        PullStatus::Found
    } else {
        PullStatus::Failed
    }
}

/// The value that resolves a conflict under a policy: `cloud-wins` takes
/// the remote value; `merge` takes, of two objects, the remote object with
/// every member of the local object put over it, and else the local value;
/// every other policy takes the local value.
pub open spec fn resolved(policy: Seq<char>, local: JsonValue, cloud: JsonValue) -> JsonValue {
    if policy == "last-write-wins"@ {
        local
    } else if policy == "cloud-wins"@ {
        cloud
    } else if policy == "merge"@ {
        match (local, cloud) {
            (JsonValue::Object(l), JsonValue::Object(c)) => JsonValue::Object(
                c.union_prefer_right(l),
            ),
            _ => local,
        }
    } else {
        local
    }
}

/// The members of two lists in a row stand for the first map with the
/// second put over it.
pub proof fn lemma_members_map_concat(
    a: Seq<(Seq<char>, JsonValue)>,
    b: Seq<(Seq<char>, JsonValue)>,
)
    ensures
        members_map(a + b) == members_map(a).union_prefer_right(members_map(b)),
    decreases b.len(),
{
    if b.len() == 0 {
        assert(a + b =~= a);
        assert(members_map(a).union_prefer_right(members_map(b)) =~= members_map(a));
    } else {
        lemma_members_map_concat(a, b.drop_last());
        assert((a + b).drop_last() =~= a + b.drop_last());
        assert((a + b).last() == b.last());
        assert(members_map(a + b) =~= members_map(a).union_prefer_right(members_map(b)));
    }
}

/// A client of the remote service.
#[derive(Debug)]
pub struct SyncClient {
    pub config: SyncConfig,
    /// The identifier of this device, made anew for every client.
    pub device_id: String,
}

impl SyncClient {
    /// A client with a fresh device identifier.
    pub fn new(config: SyncConfig) -> (c: SyncClient)
        ensures
            c.config == config,
            c.device_id@.len() == 36,
    {
        SyncClient { config, device_id: new_id() }
    }

    /// The address that an agent file is sent to for synchronization.
    pub fn sync_address(&self) -> (r: String)
        ensures
            r@ == self.config.endpoint@ + "/v1/agents/sync"@,
    {
        concat2(self.config.endpoint.as_str(), "/v1/agents/sync")
    }

    /// The address that the agent file of `agent_id` is fetched from.
    pub fn pull_address(&self, agent_id: &str) -> (r: String)
        ensures
            r@ == self.config.endpoint@ + "/v1/agents/"@ + agent_id@ + "/export"@,
    {
        let base = concat2(self.config.endpoint.as_str(), "/v1/agents/");
        concat3(base.as_str(), agent_id, "/export")
    }

    /// The address that the agent file of `agent_id` is put to.
    pub fn push_address(&self, agent_id: &str) -> (r: String)
        ensures
            r@ == self.config.endpoint@ + "/v1/agents/"@ + agent_id@ + "/import"@,
    {
        let base = concat2(self.config.endpoint.as_str(), "/v1/agents/");
        concat3(base.as_str(), agent_id, "/import")
    }

    /// The value of the `Authorization` header of every request.
    pub fn authorization(&self) -> (r: String)
        ensures
            r@ == "Bearer "@ + self.config.api_key@,
    {
        concat2("Bearer ", self.config.api_key.as_str())
    }

    /// The identifier of the agent that a file holds: that of its first
    /// agent. A file without an agent has none.
    pub fn agent_id_of(agent_file: &AgentFileV1) -> (r: Result<String, String>)
        ensures
            match r {
                Ok(id) => agent_file.agents@.len() > 0 && id@ == agent_file.agents@[0].id@,
                Err(message) => agent_file.agents@.len() == 0 && message@ == "No agent in file"@,
            },
    {
        if agent_file.agents.len() == 0 {
            Err("No agent in file".to_owned())
        } else {
            Ok(agent_file.agents[0].id.clone())
        }
    }

    /// What is sent to synchronize `agent_file` at the local version
    /// `local_version`. A file without an agent cannot be synchronized.
    pub fn sync_request(&self, agent_file: AgentFileV1, local_version: i64) -> (r: Result<
        SyncRequest,
        String,
    >)
        ensures
            match r {
                Ok(request) => {
                    &&& agent_file.agents@.len() > 0
                    &&& request.agent_id@ == agent_file.agents@[0].id@
                    &&& request.agent_file == agent_file
                    &&& request.local_version == local_version
                    &&& request.device_id@ == self.device_id@
                },
                Err(message) => agent_file.agents@.len() == 0 && message@ == "No agent in file"@,
            },
    {
        match SyncClient::agent_id_of(&agent_file) {
            Ok(agent_id) => Ok(
                SyncRequest {
                    agent_id,
                    agent_file,
                    local_version,
                    device_id: self.device_id.clone(),
                },
            ),
            Err(message) => Err(message),
        }
    }

    /// Whether a status is one of success.
    pub fn is_success(status: u16) -> (r: bool)
        ensures
            r == is_success_status(status),
    {
        200 <= status && status <= 299
    }

    /// What the status of the answer to a pull means.
    pub fn pull_status(status: u16) -> (r: PullStatus)
        ensures
            r == pull_status_of(status),
    {
        if status == 404 {
            PullStatus::Absent
        } else if SyncClient::is_success(status) {
            PullStatus::Found
        } else {
            PullStatus::Failed
        }
    }

    /// The value that resolves a conflict under the policy of the client.
    pub fn resolve_conflict(&self, conflict: &ConflictInfo) -> (r: Json)
        ensures
            r@ == resolved(
                self.config.conflict_resolution@,
                conflict.local_value@,
                conflict.cloud_value@,
            ),
    {
        let policy = self.config.conflict_resolution.as_str();
        if same_text(policy, "last-write-wins") {
            conflict.local_value.clone()
        } else if same_text(policy, "cloud-wins") {
            conflict.cloud_value.clone()
        } else if same_text(policy, "merge") {
            match (&conflict.local_value, &conflict.cloud_value) {
                (Json::Object(local), Json::Object(cloud)) => {
                    let mut merged: Vec<(String, Json)> = Vec::new();
                    let mut i: usize = 0;
                    while i < cloud.len()
                        invariant
                            i <= cloud.len(),
                            merged.deep_view() == cloud.deep_view().take(i as int),
                        decreases cloud.len() - i,
                    {
                        let ghost before = merged.deep_view();
                        merged.push((cloud[i].0.clone(), cloud[i].1.clone()));
                        assert(merged.deep_view() =~= before.push(cloud.deep_view()[i as int]));
                        assert(merged.deep_view() =~= cloud.deep_view().take(i + 1));
                        i += 1;
                    }
                    assert(cloud.deep_view().take(i as int) =~= cloud.deep_view());
                    let mut k: usize = 0;
                    while k < local.len()
                        invariant
                            k <= local.len(),
                            merged.deep_view() == cloud.deep_view() + local.deep_view().take(
                                k as int,
                            ),
                        decreases local.len() - k,
                    {
                        let ghost before = merged.deep_view();
                        merged.push((local[k].0.clone(), local[k].1.clone()));
                        assert(merged.deep_view() =~= before.push(local.deep_view()[k as int]));
                        assert(merged.deep_view() =~= cloud.deep_view() + local.deep_view().take(
                            k + 1,
                        ));
                        k += 1;
                    }
                    assert(local.deep_view().take(k as int) =~= local.deep_view());
                    proof {
                        lemma_members_map_concat(cloud.deep_view(), local.deep_view());
                        lemma_object_view(*local);
                        lemma_object_view(*cloud);
                    }
                    Json::object(merged)
                },
                _ => conflict.local_value.clone(),
            }
        } else {
            conflict.local_value.clone()
        }
    }
}

impl SyncRequest {
    /// The request as a JSON object with the members `agent_id`,
    /// `agent_file`, `local_version` and `device_id`.
    pub fn to_document(&self) -> (document: Json)
        ensures
            document@ == sync_request_json(self@),
    {
        encode_sync_request(self)
    }
}

impl SyncResponse {
    /// The answer that a JSON document holds: the agent file where the
    /// service sends one, the version of the service, the conflicts and
    /// the status. `None` where the document is no such answer.
    pub fn from_document(document: &Json) -> (r: Option<SyncResponse>)
        ensures
            r.deep_view() == sync_response_of_json(document@),
    {
        decode_sync_response(document)
    }
}

} // verus!
