//! The agent file: a versioned, self-describing document that holds the
//! whole of an agent, for export, import and synchronization.

use crate::agent::{AgentConfig, AgentState, ConfigModel};
use crate::clock::Timestamp;
use crate::document::{
    agent_file_json, agent_file_of_json, decode_agent_file, encode_agent_file,
    lemma_agent_file_round_trip, lemma_agent_file_view_fits,
};
use crate::error::LettaError;
use crate::json::{json_read, pretty_printed, Json, JsonValue};
use crate::memory::{
    blocks_after_insert, blocks_wf, default_chat_blocks, exceeds_error, exceeds_message,
    lemma_insert_block, lookup, BlockModel, MemoryBlock, MemoryType,
};
use crate::message::{empty_object, Message, MessageModel};
use crate::text::{byte_len, byte_length, concat2, same_text};
use crate::tool::{SchemaModel, ToolSchema};
use vstd::prelude::*;

verus! {

/// The version of the agent-file format.
pub open spec fn format_version() -> Seq<char> {
    "0.1.0"@
}

/// The version of the library, which a document names as its writer.
pub open spec fn library_version() -> Seq<char> {
    crate::VERSION@
}

/// The source that this runtime names in the documents it writes.
pub open spec fn export_source() -> Seq<char> {
    "letta-lite"@
}

/// A group of agents.
#[derive(Debug)]
pub struct GroupExport {
    pub id: String,
    pub name: String,
    /// The identifiers of the agents in the group.
    pub members: Vec<String>,
}

/// A file attached to an agent.
#[derive(Debug)]
pub struct FileExport {
    pub id: String,
    pub name: String,
    pub content: String,
    pub metadata: Json,
}

/// A source of data.
#[derive(Debug)]
pub struct SourceExport {
    pub id: String,
    pub name: String,
    pub source_type: String,
    pub metadata: Json,
}

/// A server of the model context protocol.
#[derive(Debug)]
pub struct McpServerExport {
    pub id: String,
    pub name: String,
    pub config: Json,
}

/// Which tools may follow a tool.
#[derive(Debug)]
pub struct ToolRule {
    pub tool_name: String,
    pub children: Vec<String>,
}

/// The model of an agent. A temperature is given in thousandths.
#[derive(Debug)]
pub struct ModelConfig {
    pub model_endpoint: String,
    pub context_window: usize,
    pub temperature: Option<u32>,
    pub max_tokens: Option<usize>,
}

/// What the document says of itself.
#[derive(Debug)]
pub struct AgentFileMetadata {
    pub letta_version: String,
    pub export_time: Timestamp,
    pub export_source: String,
    pub additional: Option<Json>,
}

/// The memory of an agent in a document: its kind and the identifiers of
/// its blocks, which stand in the document's own list of blocks.
#[derive(Debug)]
pub struct MemoryExport {
    /// `ChatMemory` or `BasicMemory`.
    pub memory_class: String,
    /// Identifiers of blocks, each of the form `block_` and the label.
    pub blocks: Vec<String>,
    pub template: Option<String>,
}

/// A memory block in a document.
#[derive(Debug)]
pub struct BlockExport {
    pub id: String,
    pub label: String,
    pub description: String,
    pub value: String,
    pub limit: usize,
}

/// What a `BlockExport` holds.
pub struct ExportedBlock {
    pub id: Seq<char>,
    pub label: Seq<char>,
    pub description: Seq<char>,
    pub value: Seq<char>,
    pub limit: nat,
}

impl DeepView for BlockExport {
    type V = ExportedBlock;

    open spec fn deep_view(&self) -> ExportedBlock {
        ExportedBlock {
            id: self.id@,
            label: self.label@,
            description: self.description@,
            value: self.value@,
            limit: self.limit as nat,
        }
    }
}

impl View for BlockExport {
    type V = ExportedBlock;

    open spec fn view(&self) -> ExportedBlock {
        self.deep_view()
    }
}

/// A tool in a document.
#[derive(Debug)]
pub struct ToolExport {
    pub id: String,
    pub name: String,
    pub schema: ToolSchema,
    pub source_code: Option<String>,
    /// `python`, `builtin` or `mcp`.
    pub source_type: String,
}

/// What a `ToolExport` holds.
pub struct ExportedTool {
    pub id: Seq<char>,
    pub name: Seq<char>,
    pub schema: SchemaModel,
    pub source_code: Option<Seq<char>>,
    pub source_type: Seq<char>,
}

impl DeepView for ToolExport {
    type V = ExportedTool;

    open spec fn deep_view(&self) -> ExportedTool {
        ExportedTool {
            id: self.id@,
            name: self.name@,
            schema: self.schema@,
            source_code: self.source_code.deep_view(),
            source_type: self.source_type@,
        }
    }
}

impl View for ToolExport {
    type V = ExportedTool;

    open spec fn view(&self) -> ExportedTool {
        self.deep_view()
    }
}

/// The state of an agent in a document.
#[derive(Debug)]
pub struct AgentStateExport {
    pub user_id: Option<String>,
    pub created_at: Timestamp,
    pub updated_at: Timestamp,
    /// The names of the agent's tools.
    pub tools: Vec<String>,
    pub tool_rules: Option<Vec<ToolRule>>,
    pub memory: MemoryExport,
    pub metadata: Option<Json>,
}

/// An agent in a document.
#[derive(Debug)]
pub struct AgentExport {
    pub id: String,
    pub name: String,
    pub system_prompt: String,
    pub message_buffer_size: usize,
    pub agent_state: AgentStateExport,
    pub messages: Vec<Message>,
    pub model: ModelConfig,
}

/// An agent file of format version 0.1.0.
#[derive(Debug)]
pub struct AgentFileV1 {
    pub version: String,
    pub agents: Vec<AgentExport>,
    pub groups: Option<Vec<GroupExport>>,
    /// The blocks of all agents, in one flat list.
    pub blocks: Vec<BlockExport>,
    pub files: Option<Vec<FileExport>>,
    pub sources: Option<Vec<SourceExport>>,
    pub tools: Option<Vec<ToolExport>>,
    pub mcp_servers: Option<Vec<McpServerExport>>,
    pub metadata: AgentFileMetadata,
}

/// What a `GroupExport` holds.
pub struct GroupModel {
    pub id: Seq<char>,
    pub name: Seq<char>,
    pub members: Seq<Seq<char>>,
}

impl DeepView for GroupExport {
    type V = GroupModel;

    open spec fn deep_view(&self) -> GroupModel {
        GroupModel {
            id: self.id@,
            name: self.name@,
            members: self.members.deep_view(),
        }
    }
}

impl View for GroupExport {
    type V = GroupModel;

    open spec fn view(&self) -> GroupModel {
        self.deep_view()
    }
}

/// What a `FileExport` holds.
pub struct FileModel {
    pub id: Seq<char>,
    pub name: Seq<char>,
    pub content: Seq<char>,
    pub metadata: JsonValue,
}

impl DeepView for FileExport {
    type V = FileModel;

    open spec fn deep_view(&self) -> FileModel {
        FileModel {
            id: self.id@,
            name: self.name@,
            content: self.content@,
            metadata: self.metadata@,
        }
    }
}

impl View for FileExport {
    type V = FileModel;

    open spec fn view(&self) -> FileModel {
        self.deep_view()
    }
}

/// What a `SourceExport` holds.
pub struct SourceModel {
    pub id: Seq<char>,
    pub name: Seq<char>,
    pub source_type: Seq<char>,
    pub metadata: JsonValue,
}

impl DeepView for SourceExport {
    type V = SourceModel;

    open spec fn deep_view(&self) -> SourceModel {
        SourceModel {
            id: self.id@,
            name: self.name@,
            source_type: self.source_type@,
            metadata: self.metadata@,
        }
    }
}

impl View for SourceExport {
    type V = SourceModel;

    open spec fn view(&self) -> SourceModel {
        self.deep_view()
    }
}

/// What a `McpServerExport` holds.
pub struct McpServerModel {
    pub id: Seq<char>,
    pub name: Seq<char>,
    pub config: JsonValue,
}

impl DeepView for McpServerExport {
    type V = McpServerModel;

    open spec fn deep_view(&self) -> McpServerModel {
        McpServerModel {
            id: self.id@,
            name: self.name@,
            config: self.config@,
        }
    }
}

impl View for McpServerExport {
    type V = McpServerModel;

    open spec fn view(&self) -> McpServerModel {
        self.deep_view()
    }
}

/// What a `ToolRule` holds.
pub struct ToolRuleModel {
    pub tool_name: Seq<char>,
    pub children: Seq<Seq<char>>,
}

impl DeepView for ToolRule {
    type V = ToolRuleModel;

    open spec fn deep_view(&self) -> ToolRuleModel {
        ToolRuleModel {
            tool_name: self.tool_name@,
            children: self.children.deep_view(),
        }
    }
}

impl View for ToolRule {
    type V = ToolRuleModel;

    open spec fn view(&self) -> ToolRuleModel {
        self.deep_view()
    }
}

/// What a `ModelConfig` holds.
pub struct ModelConfigModel {
    pub model_endpoint: Seq<char>,
    pub context_window: nat,
    pub temperature: Option<u32>,
    pub max_tokens: Option<usize>,
}

impl DeepView for ModelConfig {
    type V = ModelConfigModel;

    open spec fn deep_view(&self) -> ModelConfigModel {
        ModelConfigModel {
            model_endpoint: self.model_endpoint@,
            context_window: self.context_window as nat,
            temperature: self.temperature,
            max_tokens: self.max_tokens,
        }
    }
}

impl View for ModelConfig {
    type V = ModelConfigModel;

    open spec fn view(&self) -> ModelConfigModel {
        self.deep_view()
    }
}

/// What an `AgentFileMetadata` holds.
pub struct FileMetadataModel {
    pub letta_version: Seq<char>,
    pub export_time: Seq<char>,
    pub export_source: Seq<char>,
    pub additional: Option<JsonValue>,
}

impl DeepView for AgentFileMetadata {
    type V = FileMetadataModel;

    open spec fn deep_view(&self) -> FileMetadataModel {
        FileMetadataModel {
            letta_version: self.letta_version@,
            export_time: self.export_time@,
            export_source: self.export_source@,
            additional: self.additional.deep_view(),
        }
    }
}

impl View for AgentFileMetadata {
    type V = FileMetadataModel;

    open spec fn view(&self) -> FileMetadataModel {
        self.deep_view()
    }
}

/// What a `MemoryExport` holds.
pub struct MemoryExportModel {
    pub memory_class: Seq<char>,
    pub blocks: Seq<Seq<char>>,
    pub template: Option<Seq<char>>,
}

impl DeepView for MemoryExport {
    type V = MemoryExportModel;

    open spec fn deep_view(&self) -> MemoryExportModel {
        MemoryExportModel {
            memory_class: self.memory_class@,
            blocks: self.blocks.deep_view(),
            template: self.template.deep_view(),
        }
    }
}

impl View for MemoryExport {
    type V = MemoryExportModel;

    open spec fn view(&self) -> MemoryExportModel {
        self.deep_view()
    }
}

/// What an `AgentStateExport` holds.
pub struct AgentStateModel {
    pub user_id: Option<Seq<char>>,
    pub created_at: Seq<char>,
    pub updated_at: Seq<char>,
    pub tools: Seq<Seq<char>>,
    pub tool_rules: Option<Seq<ToolRuleModel>>,
    pub memory: MemoryExportModel,
    pub metadata: Option<JsonValue>,
}

impl DeepView for AgentStateExport {
    type V = AgentStateModel;

    open spec fn deep_view(&self) -> AgentStateModel {
        AgentStateModel {
            user_id: self.user_id.deep_view(),
            created_at: self.created_at@,
            updated_at: self.updated_at@,
            tools: self.tools.deep_view(),
            tool_rules: self.tool_rules.deep_view(),
            memory: self.memory.deep_view(),
            metadata: self.metadata.deep_view(),
        }
    }
}

impl View for AgentStateExport {
    type V = AgentStateModel;

    open spec fn view(&self) -> AgentStateModel {
        self.deep_view()
    }
}

/// What an `AgentExport` holds.
pub struct AgentExportModel {
    pub id: Seq<char>,
    pub name: Seq<char>,
    pub system_prompt: Seq<char>,
    pub message_buffer_size: nat,
    pub agent_state: AgentStateModel,
    pub messages: Seq<MessageModel>,
    pub model: ModelConfigModel,
}

impl DeepView for AgentExport {
    type V = AgentExportModel;

    open spec fn deep_view(&self) -> AgentExportModel {
        AgentExportModel {
            id: self.id@,
            name: self.name@,
            system_prompt: self.system_prompt@,
            message_buffer_size: self.message_buffer_size as nat,
            agent_state: self.agent_state.deep_view(),
            messages: self.messages.deep_view(),
            model: self.model.deep_view(),
        }
    }
}

impl View for AgentExport {
    type V = AgentExportModel;

    open spec fn view(&self) -> AgentExportModel {
        self.deep_view()
    }
}

/// What an `AgentFileV1` holds.
pub struct AgentFileModel {
    pub version: Seq<char>,
    pub agents: Seq<AgentExportModel>,
    pub groups: Option<Seq<GroupModel>>,
    pub blocks: Seq<ExportedBlock>,
    pub files: Option<Seq<FileModel>>,
    pub sources: Option<Seq<SourceModel>>,
    pub tools: Option<Seq<ExportedTool>>,
    pub mcp_servers: Option<Seq<McpServerModel>>,
    pub metadata: FileMetadataModel,
}

impl DeepView for AgentFileV1 {
    type V = AgentFileModel;

    open spec fn deep_view(&self) -> AgentFileModel {
        AgentFileModel {
            version: self.version@,
            agents: self.agents.deep_view(),
            groups: self.groups.deep_view(),
            blocks: self.blocks.deep_view(),
            files: self.files.deep_view(),
            sources: self.sources.deep_view(),
            tools: self.tools.deep_view(),
            mcp_servers: self.mcp_servers.deep_view(),
            metadata: self.metadata.deep_view(),
        }
    }
}

impl View for AgentFileV1 {
    type V = AgentFileModel;

    open spec fn view(&self) -> AgentFileModel {
        self.deep_view()
    }
}


/// The identifier of the block `label` in a document.
pub open spec fn block_id(label: Seq<char>) -> Seq<char> {
    "block_"@ + label
}

/// The identifier of the tool `name` in a document.
pub open spec fn tool_id(name: Seq<char>) -> Seq<char> {
    "tool_"@ + name
}

/// A block as a document holds it.
pub open spec fn exported_block(b: BlockModel) -> ExportedBlock {
    ExportedBlock {
        id: block_id(b.label),
        label: b.label,
        description: b.description,
        value: b.value,
        limit: b.limit,
    }
}

/// A block as a memory holds it.
pub open spec fn imported_block(e: ExportedBlock) -> BlockModel {
    BlockModel { label: e.label, description: e.description, value: e.value, limit: e.limit }
}

/// A built-in tool as a document holds it.
pub open spec fn exported_tool(s: SchemaModel) -> ExportedTool {
    ExportedTool {
        id: tool_id(s.name),
        name: s.name,
        schema: s,
        source_code: None,
        source_type: "builtin"@,
    }
}

/// The name of a kind of memory in a document.
pub open spec fn memory_class(chat: bool) -> Seq<char> {
    if chat {
        "ChatMemory"@
    } else {
        "BasicMemory"@
    }
}

/// `agent` is the export of an agent with the given configuration, state
/// and tools.
pub open spec fn is_agent_export(
    agent: AgentExport,
    config: AgentConfig,
    state: AgentState,
    schemas: Seq<SchemaModel>,
) -> bool {
    &&& agent.id@ == state.id@
    &&& agent.name@ == state.name@
    &&& agent.system_prompt@ == config.system_prompt@
    &&& agent.message_buffer_size == config.max_messages
    &&& agent.agent_state.user_id is None
    &&& agent.agent_state.created_at@ == state.created_at@
    &&& agent.agent_state.updated_at@ == state.updated_at@
    &&& agent.agent_state.tools.deep_view() == Seq::new(schemas.len(), |i: int| schemas[i].name)
    &&& agent.agent_state.tool_rules is None
    &&& agent.agent_state.memory.memory_class@ == memory_class(state.memory.is_chat())
    &&& agent.agent_state.memory.blocks.deep_view() == Seq::new(
        state.memory.model().len(),
        |i: int| block_id(state.memory.model()[i].label),
    )
    &&& agent.agent_state.memory.template is None
    &&& agent.agent_state.metadata.deep_view() == Some(state.metadata@)
    &&& agent.messages.deep_view() == state.messages.messages.deep_view()
    &&& agent.model.model_endpoint@ == config.model@
    &&& agent.model.context_window == config.max_context_tokens
    &&& agent.model.temperature == Some(config.temperature)
    &&& agent.model.max_tokens is None
}

/// `af` is the export of an agent with the given configuration, state and
/// tools: a document of the current version with one agent, the agent's
/// blocks, and the tools as built-in tools.
pub open spec fn is_export(
    af: AgentFileV1,
    config: AgentConfig,
    state: AgentState,
    schemas: Seq<SchemaModel>,
) -> bool {
    &&& af.version@ == format_version()
    &&& af.agents@.len() == 1
    &&& is_agent_export(af.agents@[0], config, state, schemas)
    &&& af.groups is None
    &&& af.blocks.deep_view() == Seq::new(
        state.memory.model().len(),
        |i: int| exported_block(state.memory.model()[i]),
    )
    &&& af.files is None
    &&& af.sources is None
    &&& af.tools.deep_view() == Some(Seq::new(schemas.len(), |i: int| exported_tool(schemas[i])))
    &&& af.mcp_servers is None
    &&& af.metadata.letta_version@ == library_version()
    &&& af.metadata.export_source@ == export_source()
    &&& af.metadata.additional is None
}

/// The first block of a document that bears the identifier `id`.
pub open spec fn find_export(exports: Seq<ExportedBlock>, id: Seq<char>) -> Option<ExportedBlock>
    decreases exports.len(),
{
    if exports.len() == 0 {
        None
    } else {
        match find_export(exports.drop_last(), id) {
            Some(e) => Some(e),
            None => if exports.last().id == id {
                Some(exports.last())
            } else {
                None
            },
        }
    }
}

/// The blocks of a memory after the blocks that `ids` name have been
/// installed, one after the other: an identifier that the document does not
/// hold is passed over. `Err` holds the first block that does not fit its
/// limit.
pub open spec fn installed(
    blocks: Seq<BlockModel>,
    ids: Seq<Seq<char>>,
    exports: Seq<ExportedBlock>,
) -> Result<Seq<BlockModel>, ExportedBlock>
    decreases ids.len(),
{
    if ids.len() == 0 {
        Ok(blocks)
    } else {
        match installed(blocks, ids.drop_last(), exports) {
            Err(e) => Err(e),
            Ok(before) => match find_export(exports, ids.last()) {
                None => Ok(before),
                Some(e) => if byte_len(e.value) <= e.limit {
                    Ok(blocks_after_insert(before, imported_block(e)))
                } else {
                    Err(e)
                },
            },
        }
    }
}

/// The configuration that the agent of a document is imported with.
pub open spec fn imported_config(agent: AgentExport) -> ConfigModel {
    ConfigModel {
        name: agent.name@,
        system_prompt: agent.system_prompt@,
        model: agent.model.model_endpoint@,
        max_messages: agent.message_buffer_size as nat,
        max_context_tokens: agent.model.context_window as nat,
        temperature: match agent.model.temperature {
            Some(t) => t as nat,
            None => 700,
        },
        tools_enabled: agent.agent_state.tools@.len() > 0,
    }
}

/// The room of the buffer that the agent of a document is imported with:
/// the size that the document gives, or the number of its messages where
/// that is larger.
pub open spec fn imported_room(agent: AgentExport) -> nat {
    if agent.message_buffer_size >= agent.messages@.len() {
        agent.message_buffer_size as nat
    } else {
        agent.messages@.len()
    }
}

/// `state` is what the agent of a document is imported as, with `blocks`
/// as the blocks of its memory: a new state with the agent's identifier,
/// name, timestamps and metadata, and all of its messages in their order.
pub open spec fn is_imported_state(
    state: AgentState,
    agent: AgentExport,
    blocks: Seq<BlockModel>,
) -> bool {
    &&& state.id@ == agent.id@
    &&& state.name@ == agent.name@
    &&& state.created_at@ == agent.agent_state.created_at@
    &&& state.updated_at@ == agent.agent_state.updated_at@
    &&& state.memory.is_chat()
    &&& state.memory.template() is None
    &&& state.memory.model() == blocks
    &&& state.messages.max_size == imported_room(agent)
    &&& state.messages.messages.deep_view() == agent.messages.deep_view()
    &&& state.archival_entries@.len() == 0
    &&& state.metadata@ == match agent.agent_state.metadata {
        Some(m) => m@,
        None => empty_object(),
    }
}

/// `r` is what the import of `af` returns: a document without an agent is
/// refused; a block that does not fit its limit is refused; else the first
/// agent is imported.
pub open spec fn is_import(
    af: AgentFileV1,
    r: Result<(AgentConfig, AgentState), LettaError>,
) -> bool {
    if af.agents@.len() == 0 {
        r matches Err(LettaError::InvalidConfig(m)) && m@ == "No agents in AF file"@
    } else {
        match installed(
            default_chat_blocks(),
            af.agents@[0].agent_state.memory.blocks.deep_view(),
            af.blocks.deep_view(),
        ) {
            Ok(blocks) => r matches Ok(pair) && pair.0@ == imported_config(af.agents@[0])
                && is_imported_state(pair.1, af.agents@[0], blocks),
            Err(e) => r matches Err(LettaError::Memory(m)) && m@ == exceeds_message(
                byte_len(e.value),
                e.limit,
            ),
        }
    }
}

/// Export and import of agents.
pub struct AgentFile;

/// The first index of a block with the identifier `id`.
fn find_block(exports: &Vec<BlockExport>, id: &str) -> (r: Option<usize>)
    ensures
        match r {
            Some(i) => i < exports@.len() && find_export(exports.deep_view(), id@) == Some(
                exports@[i as int]@,
            ),
            None => find_export(exports.deep_view(), id@) is None,
        },
{
    let mut i: usize = 0;
    assert(exports.deep_view().take(0) =~= Seq::<ExportedBlock>::empty());
    while i < exports.len()
        invariant
            i <= exports.len(),
            find_export(exports.deep_view().take(i as int), id@) is None,
        decreases exports.len() - i,
    {
        proof {
            let next = exports.deep_view().take(i + 1);
            assert(next.drop_last() =~= exports.deep_view().take(i as int));
            assert(next.last() == exports@[i as int]@);
        }
        if same_text(exports[i].id.as_str(), id) {
            proof {
                lemma_find_export_prefix(exports.deep_view(), i + 1, id@);
            }
            return Some(i);
        }
        i += 1;
    }
    assert(exports.deep_view().take(i as int) =~= exports.deep_view());
    None
}

/// What is found among the first `k` blocks is found among all.
pub proof fn lemma_find_export_prefix(exports: Seq<ExportedBlock>, k: int, id: Seq<char>)
    requires
        0 <= k <= exports.len(),
        find_export(exports.take(k), id) is Some,
    ensures
        find_export(exports, id) == find_export(exports.take(k), id),
    decreases exports.len() - k,
{
    if k < exports.len() {
        let next = exports.take(k + 1);
        assert(next.drop_last() =~= exports.take(k));
        lemma_find_export_prefix(exports, k + 1, id);
    } else {
        assert(exports.take(k) =~= exports);
    }
}

impl AgentFile {
    /// The document that holds the agent: its configuration and state, the
    /// blocks of its memory, and `tool_schemas` as built-in tools.
    pub fn export(config: &AgentConfig, state: &AgentState, tool_schemas: Vec<ToolSchema>) -> (r:
        Result<AgentFileV1, LettaError>)
        ensures
            r matches Ok(af) && is_export(af, *config, *state, tool_schemas.deep_view()),
    {
        let ghost model = state.memory.model();
        let ghost schemas = tool_schemas.deep_view();
        let source = state.memory.blocks();
        let mut blocks: Vec<BlockExport> = Vec::new();
        let mut block_ids: Vec<String> = Vec::new();
        let mut i: usize = 0;
        while i < source.len()
            invariant
                i <= source.len(),
                source.deep_view() == model,
                blocks.len() == i,
                block_ids.len() == i,
                forall|j: int| 0 <= j < i ==> blocks@[j]@ == exported_block(model[j]),
                forall|j: int| 0 <= j < i ==> block_ids@[j]@ == block_id(model[j].label),
            decreases source.len() - i,
        {
            let block = &source[i];
            assert(block@ == model[i as int]);
            let id = concat2("block_", block.label.as_str());
            blocks.push(
                BlockExport {
                    id: id.clone(),
                    label: block.label.clone(),
                    description: block.description.clone(),
                    value: block.value.clone(),
                    limit: block.limit,
                },
            );
            block_ids.push(id);
            i += 1;
        }
        assert(blocks.deep_view() =~= Seq::new(model.len(), |i: int| exported_block(model[i])));
        assert(block_ids.deep_view() =~= Seq::new(model.len(), |i: int| block_id(model[i].label)));
        let class = match &state.memory.memory_type {
            MemoryType::Chat(_) => "ChatMemory",
            MemoryType::Basic(_) => "BasicMemory",
        };
        let memory_export = MemoryExport {
            memory_class: class.to_owned(),
            blocks: block_ids,
            template: None,
        };
        let mut tool_names: Vec<String> = Vec::new();
        let mut k: usize = 0;
        while k < tool_schemas.len()
            invariant
                k <= tool_schemas.len(),
                tool_schemas.deep_view() == schemas,
                tool_names.len() == k,
                forall|j: int| 0 <= j < k ==> tool_names@[j]@ == schemas[j].name,
            decreases tool_schemas.len() - k,
        {
            assert(tool_schemas@[k as int]@ == schemas[k as int]);
            tool_names.push(tool_schemas[k].name.clone());
            k += 1;
        }
        assert(tool_names.deep_view() =~= Seq::new(schemas.len(), |i: int| schemas[i].name));
        let agent_state_export = AgentStateExport {
            user_id: None,
            created_at: state.created_at.clone(),
            updated_at: state.updated_at.clone(),
            tools: tool_names,
            tool_rules: None,
            memory: memory_export,
            metadata: Some(state.metadata.clone()),
        };
        let mut messages: Vec<Message> = Vec::new();
        let mut m: usize = 0;
        while m < state.messages.messages.len()
            invariant
                m <= state.messages.messages.len(),
                messages.len() == m,
                forall|j: int| 0 <= j < m ==> messages@[j]@ == state.messages.messages@[j]@,
            decreases state.messages.messages.len() - m,
        {
            messages.push(state.messages.messages[m].clone());
            m += 1;
        }
        assert(messages.deep_view() =~= state.messages.messages.deep_view());
        let agent_export = AgentExport {
            id: state.id.clone(),
            name: state.name.clone(),
            system_prompt: config.system_prompt.clone(),
            message_buffer_size: config.max_messages,
            agent_state: agent_state_export,
            messages,
            model: ModelConfig {
                model_endpoint: config.model.clone(),
                context_window: config.max_context_tokens,
                temperature: Some(config.temperature),
                max_tokens: None,
            },
        };
        let mut tools: Vec<ToolExport> = Vec::new();
        let mut t: usize = 0;
        while t < tool_schemas.len()
            invariant
                t <= tool_schemas.len(),
                tool_schemas.deep_view() == schemas,
                tools.len() == t,
                forall|j: int| 0 <= j < t ==> tools@[j]@ == exported_tool(schemas[j]),
            decreases tool_schemas.len() - t,
        {
            let schema = &tool_schemas[t];
            assert(schema@ == schemas[t as int]);
            tools.push(
                ToolExport {
                    id: concat2("tool_", schema.name.as_str()),
                    name: schema.name.clone(),
                    schema: schema.clone(),
                    source_code: None,
                    source_type: "builtin".to_owned(),
                },
            );
            t += 1;
        }
        assert(tools.deep_view() =~= Seq::new(schemas.len(), |i: int| exported_tool(schemas[i])));
        let agents = vec![agent_export];
        Ok(
            AgentFileV1 {
                version: "0.1.0".to_owned(),
                agents,
                groups: None,
                blocks,
                files: None,
                sources: None,
                tools: Some(tools),
                mcp_servers: None,
                metadata: AgentFileMetadata {
                    letta_version: crate::VERSION.to_owned(),
                    export_time: Timestamp::now(),
                    export_source: "letta-lite".to_owned(),
                    additional: None,
                },
            },
        )
    }
}

/// A block that does not fit among the blocks named first is the block
/// that does not fit among all.
pub proof fn lemma_installed_prefix_err(
    blocks: Seq<BlockModel>,
    ids: Seq<Seq<char>>,
    exports: Seq<ExportedBlock>,
    k: int,
)
    requires
        0 <= k <= ids.len(),
        installed(blocks, ids.take(k), exports) is Err,
    ensures
        installed(blocks, ids, exports) == installed(blocks, ids.take(k), exports),
    decreases ids.len() - k,
{
    if k < ids.len() {
        let next = ids.take(k + 1);
        assert(next.drop_last() =~= ids.take(k));
        lemma_installed_prefix_err(blocks, ids, exports, k + 1);
    } else {
        assert(ids.take(k) =~= ids);
    }
}

impl AgentFile {
    /// The configuration and state of the first agent of a document. The
    /// state is a new one, so that a failure leaves nothing half-made: a
    /// document without an agent is refused, and so is a block that does
    /// not fit its limit.
    #[verifier::loop_isolation(false)]
    pub fn import(af: &AgentFileV1) -> (r: Result<(AgentConfig, AgentState), LettaError>)
        ensures
            is_import(*af, r),
            r matches Ok(pair) ==> pair.1.wf(),
    {
        if af.agents.len() == 0 {
            return Err(LettaError::InvalidConfig("No agents in AF file".to_owned()));
        }
        let agent = &af.agents[0];
        let config = AgentConfig {
            name: agent.name.clone(),
            system_prompt: agent.system_prompt.clone(),
            model: agent.model.model_endpoint.clone(),
            max_messages: agent.message_buffer_size,
            max_context_tokens: agent.model.context_window,
            temperature: match agent.model.temperature {
                Some(t) => t,
                None => 700,
            },
            tools_enabled: agent.agent_state.tools.len() > 0,
        };
        let mut state = AgentState::new(agent.name.as_str());
        state.messages.max_size = if agent.message_buffer_size >= agent.messages.len() {
            agent.message_buffer_size
        } else {
            agent.messages.len()
        };
        state.id = agent.id.clone();
        state.created_at = agent.agent_state.created_at.clone();
        state.updated_at = agent.agent_state.updated_at.clone();

        let ids = &agent.agent_state.memory.blocks;
        let ghost id_texts = ids.deep_view();
        let ghost exports = af.blocks.deep_view();
        let mut i: usize = 0;
        assert(id_texts.take(0) =~= Seq::<Seq<char>>::empty());
        while i < ids.len()
            invariant
                i <= ids.len(),
                id_texts == ids.deep_view(),
                exports == af.blocks.deep_view(),
                installed(default_chat_blocks(), id_texts.take(i as int), exports) == Ok::<
                    Seq<BlockModel>,
                    ExportedBlock,
                >(state.memory.model()),
                state.memory.is_chat(),
                state.memory.template() is None,
                state.wf(),
                state.id@ == agent.id@,
                state.name@ == agent.name@,
                state.created_at@ == agent.agent_state.created_at@,
                state.updated_at@ == agent.agent_state.updated_at@,
                state.messages.max_size == imported_room(*agent),
                state.messages.messages@.len() == 0,
                state.archival_entries@.len() == 0,
                state.metadata@ == empty_object(),
            decreases ids.len() - i,
        {
            proof {
                let next = id_texts.take(i + 1);
                assert(next.drop_last() =~= id_texts.take(i as int));
                assert(next.last() == ids@[i as int]@);
            }
            match find_block(&af.blocks, ids[i].as_str()) {
                Some(j) => {
                    let b = &af.blocks[j];
                    let n = byte_length(b.value.as_str());
                    if n > b.limit {
                        proof {
                            assert(installed(
                                default_chat_blocks(),
                                id_texts.take(i + 1),
                                exports,
                            ) == Err::<Seq<BlockModel>, ExportedBlock>(b@));
                            lemma_installed_prefix_err(
                                default_chat_blocks(),
                                id_texts,
                                exports,
                                i + 1,
                            );
                        }
                        return Err(exceeds_error(n, b.limit));
                    }
                    state.memory.insert_block(
                        MemoryBlock {
                            label: b.label.clone(),
                            description: b.description.clone(),
                            value: b.value.clone(),
                            limit: b.limit,
                        },
                    );
                },
                None => {},
            }
            i += 1;
        }
        assert(id_texts.take(i as int) =~= id_texts);

        let ghost all = agent.messages.deep_view();
        let mut k: usize = 0;
        assert(all.take(0) =~= Seq::<MessageModel>::empty());
        assert(state.messages.messages.deep_view() =~= Seq::<MessageModel>::empty());
        while k < agent.messages.len()
            invariant
                k <= agent.messages.len(),
                all == agent.messages.deep_view(),
                state.messages.max_size == imported_room(*agent),
                state.messages.messages.deep_view() == all.take(k as int),
                state.memory.is_chat(),
                state.memory.template() is None,
                state.memory.model() == installed(default_chat_blocks(), id_texts, exports)->Ok_0,
                state.wf(),
                state.id@ == agent.id@,
                state.name@ == agent.name@,
                state.created_at@ == agent.agent_state.created_at@,
                state.updated_at@ == agent.agent_state.updated_at@,
                state.archival_entries@.len() == 0,
                state.metadata@ == empty_object(),
            decreases agent.messages.len() - k,
        {
            let copy = agent.messages[k].clone();
            let ghost before = state.messages.messages.deep_view();
            state.messages.messages.push(copy);
            assert(state.messages.messages.deep_view() =~= before.push(copy@));
            assert(all.take(k + 1) =~= all.take(k as int).push(copy@));
            k += 1;
        }
        assert(all.take(k as int) =~= all);

        match &agent.agent_state.metadata {
            Some(metadata) => {
                state.metadata = metadata.clone();
            },
            None => {},
        }
        Ok((config, state))
    }
}

/// What `find_export` finds: the first block that bears the identifier.
pub proof fn lemma_find_export(exports: Seq<ExportedBlock>, id: Seq<char>)
    ensures
        match find_export(exports, id) {
            Some(e) => exists|i: int|
                0 <= i < exports.len() && (#[trigger] exports[i]) == e && e.id == id && forall|
                    j: int,
                |
                    0 <= j < i ==> (#[trigger] exports[j]).id != id,
            None => forall|j: int| 0 <= j < exports.len() ==> (#[trigger] exports[j]).id != id,
        },
    decreases exports.len(),
{
    if exports.len() > 0 {
        let front = exports.drop_last();
        lemma_find_export(front, id);
        match find_export(front, id) {
            Some(e) => {
                let i = choose|i: int|
                    0 <= i < front.len() && (#[trigger] front[i]) == e && e.id == id && forall|
                        j: int,
                    |
                        0 <= j < i ==> (#[trigger] front[j]).id != id;
                assert(exports[i] == e);
                assert forall|j: int| 0 <= j < i implies (#[trigger] exports[j]).id != id by {
                    assert(front[j] == exports[j]);
                }
            },
            None => {
                assert forall|j: int| 0 <= j < exports.len() - 1 implies (#[trigger] exports[j]).id
                    != id by {
                    assert(front[j] == exports[j]);
                }
                if exports.last().id == id {
                    assert(exports[exports.len() - 1] == exports.last());
                }
            },
        }
    }
}

/// Two identifiers of blocks are the same only where the labels are.
pub proof fn lemma_block_id_injective(a: Seq<char>, b: Seq<char>)
    requires
        block_id(a) == block_id(b),
    ensures
        a == b,
{
    let p = "block_"@;
    assert(a =~= (p + a).skip(p.len() as int));
    assert(b =~= (p + b).skip(p.len() as int));
}

/// The blocks of a well-formed memory, exported and installed again in a
/// memory, are all found there as they were.
pub proof fn lemma_installed_own_blocks(start: Seq<BlockModel>, model: Seq<BlockModel>, k: int)
    requires
        blocks_wf(model),
        0 <= k <= model.len(),
    ensures
        installed(
            start,
            Seq::new(model.len(), |i: int| block_id(model[i].label)).take(k),
            Seq::new(model.len(), |i: int| exported_block(model[i])),
        ) matches Ok(blocks) && forall|i: int|
            0 <= i < k ==> lookup(blocks, (#[trigger] model[i]).label) == Some(model[i]),
    decreases k,
{
    let ids = Seq::new(model.len(), |i: int| block_id(model[i].label));
    let exports = Seq::new(model.len(), |i: int| exported_block(model[i]));
    if k > 0 {
        lemma_installed_own_blocks(start, model, k - 1);
        let next = ids.take(k);
        assert(next.drop_last() =~= ids.take(k - 1));
        assert(next.last() == block_id(model[k - 1].label));
        let before = installed(start, ids.take(k - 1), exports)->Ok_0;
        lemma_find_export(exports, next.last());
        match find_export(exports, next.last()) {
            Some(e) => {
                let j = choose|j: int|
                    0 <= j < exports.len() && (#[trigger] exports[j]) == e && e.id == next.last()
                        && forall|h: int| 0 <= h < j ==> (#[trigger] exports[h]).id != next.last();
                lemma_block_id_injective(model[j].label, model[k - 1].label);
                assert(j == k - 1) by {
                    if j < k - 1 {
                        assert(model[j].label != model[k - 1].label);
                    } else if j > k - 1 {
                        assert(model[k - 1].label != model[j].label);
                    }
                }
                assert(imported_block(e) == model[k - 1]);
                assert(model[k - 1].wf());
                lemma_insert_block(before, model[k - 1]);
                let after = blocks_after_insert(before, model[k - 1]);
                assert forall|i: int| 0 <= i < k implies lookup(
                    after,
                    (#[trigger] model[i]).label,
                ) == Some(model[i]) by {
                    if i < k - 1 {
                        assert(model[i].label != model[k - 1].label);
                    }
                }
            },
            None => {
                assert(exports[k - 1].id == next.last());
            },
        }
    } else {
        assert(ids.take(0) =~= Seq::<Seq<char>>::empty());
    }
}

/// An agent that is exported and imported again keeps its identifier, its
/// name, its system prompt and the rest of its configuration, its
/// timestamps, its metadata, every block of its memory and all of its
/// messages. The memory is well-formed: an import refuses a block that is
/// over its limit.
pub proof fn lemma_export_import(
    config: AgentConfig,
    state: AgentState,
    schemas: Seq<SchemaModel>,
    af: AgentFileV1,
    r: Result<(AgentConfig, AgentState), LettaError>,
)
    requires
        is_export(af, config, state, schemas),
        is_import(af, r),
        state.wf(),
    ensures
        r matches Ok(pair) && {
            &&& pair.1.id@ == state.id@
            &&& pair.1.name@ == state.name@
            &&& pair.0.name@ == state.name@
            &&& pair.0.system_prompt@ == config.system_prompt@
            &&& pair.0.model@ == config.model@
            &&& pair.0.max_messages == config.max_messages
            &&& pair.0.max_context_tokens == config.max_context_tokens
            &&& pair.0.temperature == config.temperature
            &&& pair.1.created_at@ == state.created_at@
            &&& pair.1.updated_at@ == state.updated_at@
            &&& pair.1.metadata@ == state.metadata@
            &&& pair.1.messages.messages.deep_view() == state.messages.messages.deep_view()
            &&& forall|i: int|
                0 <= i < state.memory.model().len() ==> lookup(
                    pair.1.memory.model(),
                    (#[trigger] state.memory.model()[i]).label,
                ) == Some(state.memory.model()[i])
        },
{
    let model = state.memory.model();
    let ids = Seq::new(model.len(), |i: int| block_id(model[i].label));
    lemma_installed_own_blocks(default_chat_blocks(), model, model.len() as int);
    assert(ids.take(model.len() as int) =~= ids);
}

/// The message of the failure to read an agent file from a document.
pub open spec fn malformed_message() -> Seq<char> {
    "the document is no agent file"@
}

impl AgentFile {
    /// The agent file as a JSON document.
    pub fn to_document(af: &AgentFileV1) -> (document: Json)
        ensures
            document@ == agent_file_json(af@),
    {
        encode_agent_file(af)
    }

    /// The agent file that a JSON document holds. Members that the format
    /// does not know are passed over; a document that lacks a member that
    /// the format asks for, or holds it in another form, is refused.
    pub fn from_document(document: &Json) -> (r: Result<AgentFileV1, LettaError>)
        ensures
            match agent_file_of_json(document@) {
                Some(model) => r matches Ok(af) && af@ == model,
                None => r matches Err(LettaError::Serialization(m)) && m@ == malformed_message(),
            },
    {
        match decode_agent_file(document) {
            Some(af) => Ok(af),
            None => Err(LettaError::Serialization("the document is no agent file".to_owned())),
        }
    }

    /// The agent file as pretty-printed JSON. The printer does not fail on
    /// a document; if it ever did, that would be a `Serialization` error.
    pub fn to_json(af: &AgentFileV1) -> (r: Result<String, LettaError>)
        ensures
            r matches Ok(text) && text@ == pretty_printed(agent_file_json(af@)),
    {
        match AgentFile::to_document(af).to_text_pretty() {
            Ok(text) => Ok(text),
            Err(message) => Err(LettaError::Serialization(message)),
        }
    }

    /// The agent file that a JSON text holds. A text that is no JSON, and
    /// a document that is no agent file, are `Serialization` errors.
    pub fn from_json(json: &str) -> (r: Result<AgentFileV1, LettaError>)
        ensures
            match json_read(json@) {
                Some(document) => match agent_file_of_json(document) {
                    Some(model) => r matches Ok(af) && af@ == model,
                    None => r matches Err(LettaError::Serialization(m)) && m@
                        == malformed_message(),
                },
                None => r matches Err(LettaError::Serialization(_)),
            },
    {
        match Json::parse(json) {
            Ok(document) => AgentFile::from_document(&document),
            Err(message) => Err(LettaError::Serialization(message)),
        }
    }
}

/// Two agent files that hold the same are imported as the same.
pub proof fn lemma_same_import(
    a: AgentFileV1,
    b: AgentFileV1,
    r: Result<(AgentConfig, AgentState), LettaError>,
)
    requires
        a@ == b@,
        is_import(a, r),
    ensures
        is_import(b, r),
{
    assert(a.agents.deep_view() == b.agents.deep_view());
    assert(a.blocks.deep_view() == b.blocks.deep_view());
    assert(a.agents.deep_view().len() == a.agents@.len());
    assert(b.agents.deep_view().len() == b.agents@.len());
    if a.agents@.len() > 0 {
        let x = a.agents@[0];
        let y = b.agents@[0];
        assert(a.agents.deep_view()[0] == x@);
        assert(b.agents.deep_view()[0] == y@);
        assert(x@ == y@);
        assert(x.agent_state@ == y.agent_state@);
        assert(x.agent_state.memory@ == y.agent_state.memory@);
        assert(x.model@ == y.model@);
        assert(x.agent_state.tools.deep_view().len() == x.agent_state.tools@.len());
        assert(y.agent_state.tools.deep_view().len() == y.agent_state.tools@.len());
        assert(imported_config(x) == imported_config(y));
        assert(x.agent_state.metadata.deep_view() == y.agent_state.metadata.deep_view());
        assert(x.agent_state.memory.blocks.deep_view() == y.agent_state.memory.blocks.deep_view());
        assert(x.messages.deep_view() == y.messages.deep_view());
        assert(x.messages.deep_view().len() == x.messages@.len());
        assert(y.messages.deep_view().len() == y.messages@.len());
        assert(imported_room(x) == imported_room(y));
    }
}

/// An agent file that is written as a document and read again holds what
/// it held.
pub proof fn lemma_document_round_trip(af: AgentFileV1)
    ensures
        agent_file_of_json(agent_file_json(af@)) == Some(af@),
{
    lemma_agent_file_view_fits(af);
    lemma_agent_file_round_trip(af@);
}

/// An agent that is exported, written as a document, read again and
/// imported keeps its identifier, its name, its system prompt and the rest
/// of its configuration, its timestamps, its metadata, every block of its
/// memory and all of its messages. The memory is well-formed: an import
/// refuses a block that is over its limit.
pub proof fn lemma_export_document_import(
    config: AgentConfig,
    state: AgentState,
    schemas: Seq<SchemaModel>,
    af: AgentFileV1,
    back: AgentFileV1,
    r: Result<(AgentConfig, AgentState), LettaError>,
)
    requires
        is_export(af, config, state, schemas),
        agent_file_of_json(agent_file_json(af@)) == Some(back@),
        is_import(back, r),
        state.wf(),
    ensures
        r matches Ok(pair) && {
            &&& pair.1.id@ == state.id@
            &&& pair.1.name@ == state.name@
            &&& pair.0.name@ == state.name@
            &&& pair.0.system_prompt@ == config.system_prompt@
            &&& pair.0.model@ == config.model@
            &&& pair.0.max_messages == config.max_messages
            &&& pair.0.max_context_tokens == config.max_context_tokens
            &&& pair.0.temperature == config.temperature
            &&& pair.1.created_at@ == state.created_at@
            &&& pair.1.updated_at@ == state.updated_at@
            &&& pair.1.metadata@ == state.metadata@
            &&& pair.1.messages.messages.deep_view() == state.messages.messages.deep_view()
            &&& forall|i: int|
                0 <= i < state.memory.model().len() ==> lookup(
                    pair.1.memory.model(),
                    (#[trigger] state.memory.model()[i]).label,
                ) == Some(state.memory.model()[i])
        },
{
    lemma_document_round_trip(af);
    lemma_same_import(back, af, r);
    lemma_export_import(config, state, schemas, af, r);
}

} // verus!
