//! Tools: what the model may call to read and change the state of its agent.

use crate::agent::AgentState;
use crate::clock::Timestamp;
use crate::error::LettaError;
use crate::json::{object_of, Json, JsonValue};
use crate::memory::{
    blocks_after_append, blocks_after_set, exceeds_message, limit_for, not_found_message,
};
use crate::document::{encode_message, message_json};
use crate::message::{at_most, matching, Message};
use crate::text::{byte_len, concat2, concat3, contains_ignore_case, matches_query, same_text};
use vstd::prelude::*;

verus! {

/// The description of a tool that is handed to the model.
#[derive(Debug)]
pub struct ToolSchema {
    pub name: String,
    pub description: String,
    /// A JSON schema of the arguments.
    pub parameters: Json,
    /// The names of the arguments that must be given.
    pub required: Vec<String>,
}

/// What a `ToolSchema` holds.
pub struct SchemaModel {
    pub name: Seq<char>,
    pub description: Seq<char>,
    pub parameters: JsonValue,
    pub required: Seq<Seq<char>>,
}

impl DeepView for ToolSchema {
    type V = SchemaModel;

    open spec fn deep_view(&self) -> SchemaModel {
        SchemaModel {
            name: self.name@,
            description: self.description@,
            parameters: self.parameters@,
            required: self.required.deep_view(),
        }
    }
}

impl View for ToolSchema {
    type V = SchemaModel;

    open spec fn view(&self) -> SchemaModel {
        self.deep_view()
    }
}

/// A copy of a list of texts.
pub fn copy_texts(texts: &Vec<String>) -> (r: Vec<String>)
    ensures
        r.deep_view() == texts.deep_view(),
{
    let mut out: Vec<String> = Vec::new();
    let mut i: usize = 0;
    while i < texts.len()
        invariant
            i <= texts.len(),
            out.len() == i,
            forall|j: int| 0 <= j < i ==> out@[j]@ == texts@[j]@,
        decreases texts.len() - i,
    {
        out.push(texts[i].clone());
        i += 1;
    }
    assert(out.deep_view() =~= texts.deep_view());
    out
}

impl Clone for ToolSchema {
    fn clone(&self) -> (r: Self)
        ensures
            r@ == self@,
    {
        ToolSchema {
            name: self.name.clone(),
            description: self.description.clone(),
            parameters: self.parameters.clone(),
            required: copy_texts(&self.required),
        }
    }
}

/// A list of texts as a JSON array.
pub open spec fn texts_json(texts: Seq<Seq<char>>) -> JsonValue {
    JsonValue::Array(Seq::new(texts.len(), |i: int| JsonValue::Text(texts[i])))
}

/// A list of texts as a JSON array.
pub fn texts_to_json(texts: &Vec<String>) -> (r: Json)
    ensures
        r@ == texts_json(texts.deep_view()),
{
    let mut items: Vec<Json> = Vec::new();
    let mut i: usize = 0;
    while i < texts.len()
        invariant
            i <= texts.len(),
            items.len() == i,
            forall|j: int| 0 <= j < i ==> items@[j]@ == JsonValue::Text(texts@[j]@),
        decreases texts.len() - i,
    {
        items.push(Json::Text(texts[i].clone()));
        i += 1;
    }
    assert(items.deep_view() =~= Seq::new(
        texts.deep_view().len(),
        |i: int| JsonValue::Text(texts.deep_view()[i]),
    ));
    Json::array(items)
}

/// A call of a tool by the model.
#[derive(Debug)]
pub struct ToolCall {
    pub id: String,
    pub name: String,
    /// A JSON object of arguments.
    pub arguments: Json,
}

/// What a `ToolCall` holds.
pub struct CallModel {
    pub id: Seq<char>,
    pub name: Seq<char>,
    pub arguments: JsonValue,
}

impl DeepView for ToolCall {
    type V = CallModel;

    open spec fn deep_view(&self) -> CallModel {
        CallModel { id: self.id@, name: self.name@, arguments: self.arguments@ }
    }
}

impl View for ToolCall {
    type V = CallModel;

    open spec fn view(&self) -> CallModel {
        self.deep_view()
    }
}

impl Clone for ToolCall {
    fn clone(&self) -> (r: Self)
        ensures
            r@ == self@,
    {
        ToolCall {
            id: self.id.clone(),
            name: self.name.clone(),
            arguments: self.arguments.clone(),
        }
    }
}

/// What a tool hands back.
#[derive(Debug)]
pub struct ToolResult {
    pub success: bool,
    pub result: Json,
    /// Asks the step to go on without a new user turn.
    pub request_heartbeat: bool,
    pub error: Option<String>,
}

/// What a `ToolResult` holds.
pub struct ResultModel {
    pub success: bool,
    pub result: JsonValue,
    pub request_heartbeat: bool,
    pub error: Option<Seq<char>>,
}

impl DeepView for ToolResult {
    type V = ResultModel;

    open spec fn deep_view(&self) -> ResultModel {
        ResultModel {
            success: self.success,
            result: self.result@,
            request_heartbeat: self.request_heartbeat,
            error: self.error.deep_view(),
        }
    }
}

impl View for ToolResult {
    type V = ResultModel;

    open spec fn view(&self) -> ResultModel {
        self.deep_view()
    }
}

impl ToolResult {
    /// A success with the given payload and no heartbeat.
    pub fn success(result: Json) -> (r: ToolResult)
        ensures
            r@ == (ResultModel {
                success: true,
                result: result@,
                request_heartbeat: false,
                error: None,
            }),
    {
        ToolResult { success: true, result, request_heartbeat: false, error: None }
    }

    /// A failure with the given message, a null payload and no heartbeat.
    pub fn error(message: &str) -> (r: ToolResult)
        ensures
            r@ == (ResultModel {
                success: false,
                result: JsonValue::Null,
                request_heartbeat: false,
                error: Some(message@),
            }),
    {
        ToolResult {
            success: false,
            result: Json::Null,
            request_heartbeat: false,
            error: Some(message.to_owned()),
        }
    }

    /// The same result, asking for a heartbeat.
    pub fn with_heartbeat(self) -> (r: ToolResult)
        ensures
            r@ == (ResultModel { request_heartbeat: true, ..self@ }),
    {
        let mut r = self;
        r.request_heartbeat = true;
        r
    }
}

/// The payload of a tool that wrote: `status` is `success`, `message` says
/// what was done.
pub open spec fn status_payload(message: Seq<char>) -> JsonValue {
    object_of(
        seq![("status"@, JsonValue::Text("success"@)), ("message"@, JsonValue::Text(message))],
    )
}

/// The payload of a tool that read: the results and their number.
pub open spec fn results_payload(results: Seq<JsonValue>) -> JsonValue {
    object_of(
        seq![
            ("results"@, JsonValue::Array(results)),
            ("count"@, JsonValue::Number(results.len() as int)),
        ],
    )
}

/// The message of the failure to find the argument `name`.
pub open spec fn missing_message(name: Seq<char>) -> Seq<char> {
    "Missing '"@ + name + "' parameter"@
}

/// The message of the failure to find the tool `name`.
pub open spec fn unknown_tool_message(name: Seq<char>) -> Seq<char> {
    "Unknown tool: "@ + name
}

/// `r` is the failure of a tool with the given message.
pub open spec fn is_tool_error(r: Result<ToolResult, LettaError>, message: Seq<char>) -> bool {
    r matches Err(LettaError::ToolExecution(m)) && m@ == message
}

/// `r` is a success with the given payload and heartbeat.
pub open spec fn is_success(
    r: Result<ToolResult, LettaError>,
    payload: JsonValue,
    heartbeat: bool,
) -> bool {
    r matches Ok(t) && t@ == (ResultModel {
        success: true,
        result: payload,
        request_heartbeat: heartbeat,
        error: None,
    })
}

/// Nothing but the blocks of the memory and the time of the last update
/// differs between the two states.
pub open spec fn same_but_blocks(pre: AgentState, post: AgentState) -> bool {
    &&& post.id == pre.id
    &&& post.name == pre.name
    &&& post.created_at == pre.created_at
    &&& post.messages == pre.messages
    &&& post.archival_entries == pre.archival_entries
    &&& post.metadata == pre.metadata
    &&& post.memory.is_chat() == pre.memory.is_chat()
    &&& post.memory.template() == pre.memory.template()
}

/// Nothing but the archival entries and the time of the last update
/// differs between the two states.
pub open spec fn same_but_archival(pre: AgentState, post: AgentState) -> bool {
    &&& post.id == pre.id
    &&& post.name == pre.name
    &&& post.created_at == pre.created_at
    &&& post.messages == pre.messages
    &&& post.memory == pre.memory
    &&& post.metadata == pre.metadata
}

/// An archival entry: an object with the members `folder`, `text` and
/// `timestamp`.
pub open spec fn entry_value(folder: Seq<char>, text: Seq<char>, time: Seq<char>) -> JsonValue {
    object_of(
        seq![
            ("folder"@, JsonValue::Text(folder)),
            ("text"@, JsonValue::Text(text)),
            ("timestamp"@, JsonValue::Text(time)),
        ],
    )
}

/// `entries` with one more entry of the given folder and text at its end,
/// stamped with some time.
pub open spec fn entry_added(
    before: Seq<JsonValue>,
    after: Seq<JsonValue>,
    folder: Seq<char>,
    text: Seq<char>,
) -> bool {
    &&& after.len() == before.len() + 1
    &&& after.drop_last() == before
    &&& exists|time: Seq<char>| after.last() == #[trigger] entry_value(folder, text, time)
}

/// An entry whose `text` member holds `query`, letter case ignored.
pub open spec fn entry_matches(entry: JsonValue, query: Seq<char>) -> bool {
    match entry.text_member("text"@) {
        Some(t) => matches_query(t, query),
        None => false,
    }
}

/// The entries whose text holds `query`, in their order.
pub open spec fn matching_entries(entries: Seq<JsonValue>, query: Seq<char>) -> Seq<JsonValue>
    decreases entries.len(),
{
    if entries.len() == 0 {
        Seq::empty()
    } else {
        let rest = matching_entries(entries.drop_last(), query);
        if entry_matches(entries.last(), query) {
            rest.push(entries.last())
        } else {
            rest
        }
    }
}

/// The number of results that a search returns where none is asked for.
pub open spec fn default_top_k() -> u64 {
    5
}

/// The limit on the results of a search with the given arguments: the
/// member `top_k` where it is an unsigned number, else five; at most the
/// largest `usize`.
pub open spec fn top_k_of(args: JsonValue) -> nat {
    let k = match args.uint_member("top_k"@) {
        Some(k) => k,
        None => default_top_k(),
    };
    if k <= usize::MAX {
        k as nat
    } else {
        usize::MAX as nat
    }
}

/// What `memory_replace` does: it stores the value in the block and
/// stamps the state.
pub open spec fn memory_replace_effect(
    args: JsonValue,
    pre: AgentState,
    post: AgentState,
    r: Result<ToolResult, LettaError>,
) -> bool {
    match args.text_member("label"@) {
        None => post == pre && is_tool_error(r, missing_message("label"@)),
        Some(label) => match args.text_member("value"@) {
            None => post == pre && is_tool_error(r, missing_message("value"@)),
            Some(value) => same_but_blocks(pre, post) && match blocks_after_set(
                pre.memory.model(),
                label,
                value,
            ) {
                Some(blocks) => post.memory.model() == blocks && is_success(
                    r,
                    status_payload("Updated memory block '"@ + label + "'"@),
                    false,
                ),
                None => post.memory.model() == pre.memory.model() && post.updated_at
                    == pre.updated_at && (r matches Err(LettaError::Memory(m)) && m@
                    == exceeds_message(byte_len(value), limit_for(pre.memory.model(), label))),
            },
        },
    }
}

/// What `memory_append` does: it appends the text to the block and stamps
/// the state.
pub open spec fn memory_append_effect(
    args: JsonValue,
    pre: AgentState,
    post: AgentState,
    r: Result<ToolResult, LettaError>,
) -> bool {
    match args.text_member("label"@) {
        None => post == pre && is_tool_error(r, missing_message("label"@)),
        Some(label) => match args.text_member("text"@) {
            None => post == pre && is_tool_error(r, missing_message("text"@)),
            Some(text) => same_but_blocks(pre, post) && match blocks_after_append(
                pre.memory.model(),
                label,
                text,
            ) {
                Some(blocks) => post.memory.model() == blocks && is_success(
                    r,
                    status_payload("Appended to memory block '"@ + label + "'"@),
                    false,
                ),
                None => post.memory.model() == pre.memory.model() && post.updated_at
                    == pre.updated_at && (r matches Err(LettaError::Memory(m)) && m@
                    == not_found_message(label)),
            },
        },
    }
}

/// The folder of an entry that names none.
pub open spec fn folder_of(args: JsonValue) -> Seq<char> {
    match args.text_member("folder"@) {
        Some(f) => f,
        None => "default"@,
    }
}

/// What `archival_insert` does: it adds an entry and stamps the state.
pub open spec fn archival_insert_effect(
    args: JsonValue,
    pre: AgentState,
    post: AgentState,
    r: Result<ToolResult, LettaError>,
) -> bool {
    match args.text_member("text"@) {
        None => post == pre && is_tool_error(r, missing_message("text"@)),
        Some(text) => {
            &&& same_but_archival(pre, post)
            &&& entry_added(
                pre.archival_entries.deep_view(),
                post.archival_entries.deep_view(),
                folder_of(args),
                text,
            )
            &&& is_success(r, status_payload("Added to archival memory"@), false)
        },
    }
}

/// What `archival_search` does: it changes nothing, hands back the
/// entries that match, and asks for a heartbeat.
pub open spec fn archival_search_effect(
    args: JsonValue,
    pre: AgentState,
    post: AgentState,
    r: Result<ToolResult, LettaError>,
) -> bool {
    post == pre && match args.text_member("query"@) {
        None => is_tool_error(r, missing_message("query"@)),
        Some(query) => is_success(
            r,
            results_payload(
                at_most(matching_entries(pre.archival_entries.deep_view(), query), top_k_of(args)),
            ),
            true,
        ),
    }
}

/// The messages that a search of the conversation finds, as JSON.
pub open spec fn found_messages(msgs: Seq<Message>, query: Seq<char>, limit: nat) -> Seq<
    JsonValue,
> {
    let found = at_most(matching(msgs, query), limit);
    Seq::new(found.len(), |i: int| message_json(found[i]@))
}

/// What `conversation_search` does: it changes nothing and hands back the
/// messages that match.
pub open spec fn conversation_search_effect(
    args: JsonValue,
    pre: AgentState,
    post: AgentState,
    r: Result<ToolResult, LettaError>,
) -> bool {
    post == pre && match args.text_member("query"@) {
        None => is_tool_error(r, missing_message("query"@)),
        Some(query) => is_success(
            r,
            results_payload(found_messages(pre.messages.messages@, query, top_k_of(args))),
            false,
        ),
    }
}

/// Something that a tool call can be handed to: given the arguments and
/// the state of the agent, it returns a result or fails, and may change the
/// state. `effect` says what it does.
pub trait ToolHandler {
    /// What a call with `args` makes of the state `pre`, and what it
    /// returns. A handler that does not say has nothing said of it.
    open spec fn effect(
        &self,
        args: JsonValue,
        pre: AgentState,
        post: AgentState,
        r: Result<ToolResult, LettaError>,
    ) -> bool {
        true
    }

    /// Runs the tool. A well-formed state stays well-formed.
    fn execute(&self, args: &Json, state: &mut AgentState) -> (r: Result<ToolResult, LettaError>)
        ensures
            self.effect(args@, *old(state), *final(state), r),
            old(state).wf() ==> final(state).wf(),
    ;
}

fn missing(name: &str) -> (e: LettaError)
    ensures
        e matches LettaError::ToolExecution(m) && m@ == missing_message(name@),
{
    LettaError::ToolExecution(concat3("Missing '", name, "' parameter"))
}

fn status(message: String) -> (r: ToolResult)
    ensures
        is_success(Ok(r), status_payload(message@), false),
{
    let members = vec![
        ("status".to_owned(), Json::text("success")),
        ("message".to_owned(), Json::Text(message)),
    ];
    assert(members.deep_view() =~= seq![
        ("status"@, JsonValue::Text("success"@)),
        ("message"@, JsonValue::Text(message@)),
    ]);
    ToolResult::success(Json::object(members))
}

fn results(items: Vec<Json>) -> (r: ToolResult)
    ensures
        is_success(Ok(r), results_payload(items.deep_view()), false),
{
    let count = items.len() as u64;
    let members = vec![
        ("results".to_owned(), Json::array(items)),
        ("count".to_owned(), Json::UInt(count)),
    ];
    assert(members.deep_view() =~= seq![
        ("results"@, JsonValue::Array(items.deep_view())),
        ("count"@, JsonValue::Number(items.deep_view().len() as int)),
    ]);
    ToolResult::success(Json::object(members))
}

fn top_k(args: &Json) -> (k: usize)
    ensures
        k == top_k_of(args@),
{
    let k: u64 = match args.get_u64("top_k") {
        Some(k) => k,
        None => 5,
    };
    if k > usize::MAX as u64 {
        usize::MAX
    } else {
        k as usize
    }
}

/// Up to `limit` entries whose `text` member holds `query`, letter case
/// ignored, in the order of `entries`.
pub fn search_entries(entries: &Vec<Json>, query: &str, limit: usize) -> (found: Vec<Json>)
    ensures
        found.deep_view() == at_most(
            matching_entries(entries.deep_view(), query@),
            limit as nat,
        ),
{
    let mut found: Vec<Json> = Vec::new();
    let mut i: usize = 0;
    assert(entries.deep_view().take(0) =~= Seq::<JsonValue>::empty());
    assert(found.deep_view() =~= Seq::<JsonValue>::empty());
    while i < entries.len()
        invariant
            i <= entries.len(),
            found.deep_view() == at_most(
                matching_entries(entries.deep_view().take(i as int), query@),
                limit as nat,
            ),
        decreases entries.len() - i,
    {
        let entry = &entries[i];
        let hit = match entry.get_str("text") {
            Some(t) => contains_ignore_case(t, query),
            None => false,
        };
        proof {
            let next = entries.deep_view().take(i + 1);
            assert(next.drop_last() =~= entries.deep_view().take(i as int));
            assert(next.last() == entry@);
        }
        if hit && found.len() < limit {
            let ghost before = found.deep_view();
            found.push(entry.clone());
            assert(found.deep_view() =~= before.push(entry@));
        }
        i += 1;
    }
    assert(entries.deep_view().take(i as int) =~= entries.deep_view());
    found
}

/// A new archival entry of the given folder and text, stamped with the
/// current time.
pub fn new_entry(folder: &str, text: &str) -> (entry: Json)
    ensures
        exists|time: Seq<char>| entry@ == #[trigger] entry_value(folder@, text@, time),
{
    let now = Timestamp::now();
    let members = vec![
        ("folder".to_owned(), Json::text(folder)),
        ("text".to_owned(), Json::text(text)),
        ("timestamp".to_owned(), Json::Text(now.text)),
    ];
    assert(members.deep_view() =~= seq![
        ("folder"@, JsonValue::Text(folder@)),
        ("text"@, JsonValue::Text(text@)),
        ("timestamp"@, JsonValue::Text(now.text@)),
    ]);
    let entry = Json::object(members);
    assert(entry@ == entry_value(folder@, text@, now.text@));
    entry
}

/// Replaces the contents of a memory block.
#[derive(Debug)]
pub struct MemoryReplaceHandler;

/// Appends text to a memory block.
#[derive(Debug)]
pub struct MemoryAppendHandler;

/// Adds an entry to the archival memory.
#[derive(Debug)]
pub struct ArchivalInsertHandler;

/// Searches the archival memory.
#[derive(Debug)]
pub struct ArchivalSearchHandler;

/// Searches the conversation.
#[derive(Debug)]
pub struct ConversationSearchHandler;

impl ToolHandler for MemoryReplaceHandler {
    open spec fn effect(
        &self,
        args: JsonValue,
        pre: AgentState,
        post: AgentState,
        r: Result<ToolResult, LettaError>,
    ) -> bool {
        memory_replace_effect(args, pre, post, r)
    }

    fn execute(&self, args: &Json, state: &mut AgentState) -> (r: Result<ToolResult, LettaError>) {
        let label = match args.get_str("label") {
            Some(label) => label,
            None => {
                return Err(missing("label"));
            },
        };
        let value = match args.get_str("value") {
            Some(value) => value,
            None => {
                return Err(missing("value"));
            },
        };
        match state.memory.set_block(label, value) {
            Ok(_) => {
                state.updated_at = Timestamp::now();
                Ok(status(concat3("Updated memory block '", label, "'")))
            },
            Err(e) => Err(e),
        }
    }
}

impl ToolHandler for MemoryAppendHandler {
    open spec fn effect(
        &self,
        args: JsonValue,
        pre: AgentState,
        post: AgentState,
        r: Result<ToolResult, LettaError>,
    ) -> bool {
        memory_append_effect(args, pre, post, r)
    }

    fn execute(&self, args: &Json, state: &mut AgentState) -> (r: Result<ToolResult, LettaError>) {
        let label = match args.get_str("label") {
            Some(label) => label,
            None => {
                return Err(missing("label"));
            },
        };
        let text = match args.get_str("text") {
            Some(text) => text,
            None => {
                return Err(missing("text"));
            },
        };
        match state.memory.append_block(label, text) {
            Ok(_) => {
                state.updated_at = Timestamp::now();
                Ok(status(concat3("Appended to memory block '", label, "'")))
            },
            Err(e) => Err(e),
        }
    }
}

impl ToolHandler for ArchivalInsertHandler {
    open spec fn effect(
        &self,
        args: JsonValue,
        pre: AgentState,
        post: AgentState,
        r: Result<ToolResult, LettaError>,
    ) -> bool {
        archival_insert_effect(args, pre, post, r)
    }

    fn execute(&self, args: &Json, state: &mut AgentState) -> (r: Result<ToolResult, LettaError>) {
        let folder = match args.get_str("folder") {
            Some(folder) => folder,
            None => "default",
        };
        let text = match args.get_str("text") {
            Some(text) => text,
            None => {
                return Err(missing("text"));
            },
        };
        let entry = new_entry(folder, text);
        let ghost before = state.archival_entries.deep_view();
        state.archival_entries.push(entry);
        assert(state.archival_entries.deep_view().drop_last() =~= before);
        state.updated_at = Timestamp::now();
        Ok(status("Added to archival memory".to_owned()))
    }
}

impl ToolHandler for ArchivalSearchHandler {
    open spec fn effect(
        &self,
        args: JsonValue,
        pre: AgentState,
        post: AgentState,
        r: Result<ToolResult, LettaError>,
    ) -> bool {
        archival_search_effect(args, pre, post, r)
    }

    fn execute(&self, args: &Json, state: &mut AgentState) -> (r: Result<ToolResult, LettaError>) {
        let query = match args.get_str("query") {
            Some(query) => query,
            None => {
                return Err(missing("query"));
            },
        };
        let limit = top_k(args);
        let found = search_entries(&state.archival_entries, query, limit);
        Ok(results(found).with_heartbeat())
    }
}

impl ToolHandler for ConversationSearchHandler {
    open spec fn effect(
        &self,
        args: JsonValue,
        pre: AgentState,
        post: AgentState,
        r: Result<ToolResult, LettaError>,
    ) -> bool {
        conversation_search_effect(args, pre, post, r)
    }

    fn execute(&self, args: &Json, state: &mut AgentState) -> (r: Result<ToolResult, LettaError>) {
        let query = match args.get_str("query") {
            Some(query) => query,
            None => {
                return Err(missing("query"));
            },
        };
        let limit = top_k(args);
        let found = state.messages.search(query, limit);
        let mut items: Vec<Json> = Vec::new();
        let mut i: usize = 0;
        while i < found.len()
            invariant
                i <= found.len(),
                items.len() == i,
                forall|j: int| 0 <= j < i ==> items@[j]@ == message_json((*found@[j])@),
            decreases found.len() - i,
        {
            items.push(encode_message(found[i]));
            i += 1;
        }
        assert(items.deep_view() =~= found_messages(
            state.messages.messages@,
            query@,
            limit as nat,
        ));
        Ok(results(items))
    }
}

/// A tool: its schema and, where it has one, the handler that runs it.
pub struct Tool {
    pub schema: ToolSchema,
    pub handler: Option<Box<dyn ToolHandler>>,
}

/// The parameters of a tool that takes none: an object schema without
/// properties.
pub open spec fn no_parameters() -> JsonValue {
    object_of(
        seq![
            ("type"@, JsonValue::Text("object"@)),
            ("properties"@, JsonValue::Object(Map::empty())),
        ],
    )
}

impl Tool {
    /// A tool without parameters and without a handler.
    pub fn new(name: &str, description: &str) -> (t: Tool)
        ensures
            t.schema@ == (SchemaModel {
                name: name@,
                description: description@,
                parameters: no_parameters(),
                required: Seq::empty(),
            }),
            t.handler is None,
    {
        let members = vec![
            ("type".to_owned(), Json::text("object")),
            ("properties".to_owned(), Json::empty_object()),
        ];
        assert(members.deep_view() =~= seq![
            ("type"@, JsonValue::Text("object"@)),
            ("properties"@, JsonValue::Object(Map::empty())),
        ]);
        let required: Vec<String> = Vec::new();
        assert(required.deep_view() =~= Seq::<Seq<char>>::empty());
        Tool {
            schema: ToolSchema {
                name: name.to_owned(),
                description: description.to_owned(),
                parameters: Json::object(members),
                required,
            },
            handler: None,
        }
    }

    /// The same tool with other parameters.
    pub fn with_parameters(self, params: Json) -> (t: Tool)
        ensures
            t.schema@ == (SchemaModel { parameters: params@, ..self.schema@ }),
            t.handler == self.handler,
    {
        let mut t = self;
        t.schema.parameters = params;
        t
    }

    /// The same tool with another list of required arguments.
    pub fn with_required(self, required: Vec<String>) -> (t: Tool)
        ensures
            t.schema@ == (SchemaModel { required: required.deep_view(), ..self.schema@ }),
            t.handler == self.handler,
    {
        let mut t = self;
        t.schema.required = required;
        t
    }
}

/// The schema of one argument.
pub open spec fn property_value(kind: Seq<char>, description: Seq<char>) -> JsonValue {
    object_of(
        seq![("type"@, JsonValue::Text(kind)), ("description"@, JsonValue::Text(description))],
    )
}

/// The schema of the arguments of a tool.
pub open spec fn parameters_value(
    properties: Seq<(Seq<char>, JsonValue)>,
    required: Seq<Seq<char>>,
) -> JsonValue {
    object_of(
        seq![
            ("type"@, JsonValue::Text("object"@)),
            ("properties"@, object_of(properties)),
            ("required"@, texts_json(required)),
        ],
    )
}

/// The schema of a tool with two arguments, the first `first_required`
/// arguments of which must be given.
pub open spec fn schema_model(
    name: Seq<char>,
    description: Seq<char>,
    first: (Seq<char>, Seq<char>, Seq<char>),
    second: (Seq<char>, Seq<char>, Seq<char>),
    required: Seq<Seq<char>>,
) -> SchemaModel {
    SchemaModel {
        name,
        description,
        parameters: parameters_value(
            seq![
                (first.0, property_value(first.1, first.2)),
                (second.0, property_value(second.1, second.2)),
            ],
            required,
        ),
        required,
    }
}

/// The schemas of the five built-in tools.
pub open spec fn builtin_schemas() -> Seq<SchemaModel> {
    seq![
        schema_model(
            "memory_replace"@,
            "Replace the contents of a memory block"@,
            ("label"@, "string"@, "Memory block label"@),
            ("value"@, "string"@, "New value"@),
            seq!["label"@, "value"@],
        ),
        schema_model(
            "memory_append"@,
            "Append text to a memory block"@,
            ("label"@, "string"@, "Memory block label"@),
            ("text"@, "string"@, "Text to append"@),
            seq!["label"@, "text"@],
        ),
        schema_model(
            "archival_insert"@,
            "Insert text into archival memory"@,
            ("folder"@, "string"@, "Folder name"@),
            ("text"@, "string"@, "Text to archive"@),
            seq!["text"@],
        ),
        schema_model(
            "archival_search"@,
            "Search archival memory"@,
            ("query"@, "string"@, "Search query"@),
            ("top_k"@, "integer"@, "Number of results"@),
            seq!["query"@],
        ),
        schema_model(
            "conversation_search"@,
            "Search conversation history"@,
            ("query"@, "string"@, "Search query"@),
            ("top_k"@, "integer"@, "Number of results"@),
            seq!["query"@],
        ),
    ]
}

fn property(name: &str, kind: &str, description: &str) -> (r: (String, Json))
    ensures
        r.0@ == name@,
        r.1@ == property_value(kind@, description@),
{
    let members = vec![
        ("type".to_owned(), Json::text(kind)),
        ("description".to_owned(), Json::text(description)),
    ];
    assert(members.deep_view() =~= seq![
        ("type"@, JsonValue::Text(kind@)),
        ("description"@, JsonValue::Text(description@)),
    ]);
    (name.to_owned(), Json::object(members))
}

fn schema(
    name: &str,
    description: &str,
    first: (&str, &str, &str),
    second: (&str, &str, &str),
    required: Vec<String>,
) -> (r: ToolSchema)
    ensures
        r@ == schema_model(
            name@,
            description@,
            (first.0@, first.1@, first.2@),
            (second.0@, second.1@, second.2@),
            required.deep_view(),
        ),
{
    let properties = vec![
        property(first.0, first.1, first.2),
        property(second.0, second.1, second.2),
    ];
    assert(properties.deep_view() =~= seq![
        (first.0@, property_value(first.1@, first.2@)),
        (second.0@, property_value(second.1@, second.2@)),
    ]);
    let members = vec![
        ("type".to_owned(), Json::text("object")),
        ("properties".to_owned(), Json::object(properties)),
        ("required".to_owned(), texts_to_json(&required)),
    ];
    assert(members.deep_view() =~= seq![
        ("type"@, JsonValue::Text("object"@)),
        ("properties"@, object_of(properties.deep_view())),
        ("required"@, texts_json(required.deep_view())),
    ]);
    ToolSchema {
        name: name.to_owned(),
        description: description.to_owned(),
        parameters: Json::object(members),
        required,
    }
}

fn one_text(a: &str) -> (r: Vec<String>)
    ensures
        r.deep_view() == seq![a@],
{
    let r = vec![a.to_owned()];
    assert(r.deep_view() =~= seq![a@]);
    r
}

fn two_texts(a: &str, b: &str) -> (r: Vec<String>)
    ensures
        r.deep_view() == seq![a@, b@],
{
    let r = vec![a.to_owned(), b.to_owned()];
    assert(r.deep_view() =~= seq![a@, b@]);
    r
}

/// A handler that is registered under a name: one of the five built-in
/// tools, or a handler of the host's own.
pub enum Registered<H: ToolHandler> {
    MemoryReplace(MemoryReplaceHandler),
    MemoryAppend(MemoryAppendHandler),
    ArchivalInsert(ArchivalInsertHandler),
    ArchivalSearch(ArchivalSearchHandler),
    ConversationSearch(ConversationSearchHandler),
    Custom(H),
}

impl<H: ToolHandler> Registered<H> {
    /// What a call with `args` makes of the state `pre`, and what it
    /// returns.
    pub open spec fn effect(
        &self,
        args: JsonValue,
        pre: AgentState,
        post: AgentState,
        r: Result<ToolResult, LettaError>,
    ) -> bool {
        match self {
            Registered::MemoryReplace(_) => memory_replace_effect(args, pre, post, r),
            Registered::MemoryAppend(_) => memory_append_effect(args, pre, post, r),
            Registered::ArchivalInsert(_) => archival_insert_effect(args, pre, post, r),
            Registered::ArchivalSearch(_) => archival_search_effect(args, pre, post, r),
            Registered::ConversationSearch(_) => conversation_search_effect(args, pre, post, r),
            Registered::Custom(h) => h.effect(args, pre, post, r),
        }
    }

    /// Runs the tool. A well-formed state stays well-formed.
    pub fn execute(&self, args: &Json, state: &mut AgentState) -> (r: Result<ToolResult, LettaError>)
        ensures
            self.effect(args@, *old(state), *final(state), r),
            old(state).wf() ==> final(state).wf(),
    {
        match self {
            Registered::MemoryReplace(h) => h.execute(args, state),
            Registered::MemoryAppend(h) => h.execute(args, state),
            Registered::ArchivalInsert(h) => h.execute(args, state),
            Registered::ArchivalSearch(h) => h.execute(args, state),
            Registered::ConversationSearch(h) => h.execute(args, state),
            Registered::Custom(h) => h.execute(args, state),
        }
    }
}

/// The handler type of an executor that holds the built-in tools only.
/// It is never registered; called, it fails as an unknown tool.
#[derive(Debug)]
pub struct BuiltInOnly;

impl ToolHandler for BuiltInOnly {
    open spec fn effect(
        &self,
        args: JsonValue,
        pre: AgentState,
        post: AgentState,
        r: Result<ToolResult, LettaError>,
    ) -> bool {
        post == pre && is_tool_error(r, "Unknown tool: "@)
    }

    fn execute(&self, args: &Json, state: &mut AgentState) -> (r: Result<ToolResult, LettaError>) {
        Err(LettaError::ToolExecution("Unknown tool: ".to_owned()))
    }
}

/// The position of the first entry that is registered under `name`.
pub open spec fn tool_position<H: ToolHandler>(
    tools: Seq<(String, Registered<H>)>,
    name: Seq<char>,
) -> Option<int>
    decreases tools.len(),
{
    if tools.len() == 0 {
        None
    } else {
        match tool_position(tools.drop_last(), name) {
            Some(i) => Some(i),
            None => if tools.last().0@ == name {
                Some(tools.len() - 1)
            } else {
                None
            },
        }
    }
}

/// What `tool_position` finds: the first index that bears the name.
pub proof fn lemma_tool_position<H: ToolHandler>(
    tools: Seq<(String, Registered<H>)>,
    name: Seq<char>,
)
    ensures
        match tool_position(tools, name) {
            Some(i) => 0 <= i < tools.len() && tools[i].0@ == name && forall|j: int|
                0 <= j < i ==> (#[trigger] tools[j]).0@ != name,
            None => forall|j: int| 0 <= j < tools.len() ==> (#[trigger] tools[j]).0@ != name,
        },
    decreases tools.len(),
{
    if tools.len() > 0 {
        lemma_tool_position(tools.drop_last(), name);
        match tool_position(tools.drop_last(), name) {
            Some(i) => {
                assert(tools.drop_last()[i] == tools[i]);
                assert forall|j: int| 0 <= j < i implies (#[trigger] tools[j]).0@ != name by {
                    assert(tools.drop_last()[j] == tools[j]);
                }
            },
            None => {
                assert forall|j: int| 0 <= j < tools.len() - 1 implies (#[trigger] tools[j]).0@
                    != name by {
                    assert(tools.drop_last()[j] == tools[j]);
                }
            },
        }
    }
}

/// The names of the built-in tools, in the order in which a new executor
/// holds them.
pub open spec fn builtin_names() -> Seq<Seq<char>> {
    seq![
        "memory_replace"@,
        "memory_append"@,
        "archival_insert"@,
        "archival_search"@,
        "conversation_search"@,
    ]
}

/// The tools that an agent can run, by name.
pub struct ToolExecutor<H: ToolHandler = BuiltInOnly> {
    pub tools: Vec<(String, Registered<H>)>,
}

impl<H: ToolHandler> ToolExecutor<H> {
    /// The handler that is registered under `name`.
    pub open spec fn handler(&self, name: Seq<char>) -> Option<Registered<H>> {
        match tool_position(self.tools@, name) {
            Some(i) => Some(self.tools@[i].1),
            None => None,
        }
    }

    /// A new executor holds the five built-in tools under their names.
    pub open spec fn is_new(&self) -> bool {
        &&& self.tools@.len() == 5
        &&& forall|i: int| 0 <= i < 5 ==> (#[trigger] self.tools@[i]).0@ == builtin_names()[i]
        &&& self.tools@[0].1 is MemoryReplace
        &&& self.tools@[1].1 is MemoryAppend
        &&& self.tools@[2].1 is ArchivalInsert
        &&& self.tools@[3].1 is ArchivalSearch
        &&& self.tools@[4].1 is ConversationSearch
    }

    /// An executor with the five built-in tools.
    pub fn with_builtins() -> (e: ToolExecutor<H>)
        ensures
            e.is_new(),
    {
        let mut tools: Vec<(String, Registered<H>)> = Vec::new();
        tools.push(("memory_replace".to_owned(), Registered::MemoryReplace(MemoryReplaceHandler)));
        tools.push(("memory_append".to_owned(), Registered::MemoryAppend(MemoryAppendHandler)));
        tools.push(
            ("archival_insert".to_owned(), Registered::ArchivalInsert(ArchivalInsertHandler)),
        );
        tools.push(
            ("archival_search".to_owned(), Registered::ArchivalSearch(ArchivalSearchHandler)),
        );
        tools.push(
            (
                "conversation_search".to_owned(),
                Registered::ConversationSearch(ConversationSearchHandler),
            ),
        );
        ToolExecutor { tools }
    }

    fn find(&self, name: &str) -> (r: Option<usize>)
        ensures
            match r {
                Some(i) => tool_position(self.tools@, name@) == Some(i as int) && i
                    < self.tools@.len(),
                None => tool_position(self.tools@, name@) is None,
            },
    {
        let mut i: usize = 0;
        while i < self.tools.len()
            invariant
                i <= self.tools.len(),
                forall|j: int| 0 <= j < i ==> (#[trigger] self.tools@[j]).0@ != name@,
            decreases self.tools.len() - i,
        {
            if same_text(self.tools[i].0.as_str(), name) {
                proof {
                    lemma_tool_position(self.tools@, name@);
                }
                return Some(i);
            }
            i += 1;
        }
        proof {
            lemma_tool_position(self.tools@, name@);
        }
        None
    }

    /// Registers `handler` under `name`, in place of what was registered
    /// under that name before.
    pub fn register(&mut self, name: &str, handler: H)
        ensures
            final(self).handler(name@) == Some(Registered::Custom(handler)),
            forall|other: Seq<char>|
                other != name@ ==> final(self).handler(other) == old(self).handler(other),
    {
        proof {
            lemma_tool_position(self.tools@, name@);
        }
        let ghost before = self.tools@;
        match self.find(name) {
            Some(i) => {
                self.tools[i].1 = Registered::Custom(handler);
                proof {
                    assert forall|other: Seq<char>| true implies #[trigger] tool_position(
                        self.tools@,
                        other,
                    ) == tool_position(before, other) by {
                        lemma_tool_position(self.tools@, other);
                        lemma_tool_position(before, other);
                        match tool_position(before, other) {
                            Some(p) => {
                                assert(self.tools@[p].0@ == other);
                                match tool_position(self.tools@, other) {
                                    Some(q) => {
                                        assert(before[q].0@ == other);
                                    },
                                    None => {},
                                }
                            },
                            None => {
                                match tool_position(self.tools@, other) {
                                    Some(q) => {
                                        assert(before[q].0@ == other);
                                    },
                                    None => {},
                                }
                            },
                        }
                    }
                    assert(tool_position(self.tools@, name@) == Some(i as int));
                    assert forall|other: Seq<char>| other != name@ implies self.handler(other)
                        == old(self).handler(other) by {
                        lemma_tool_position(before, other);
                        assert(tool_position(self.tools@, other) == tool_position(before, other));
                    }
                }
            },
            None => {
                self.tools.push((name.to_owned(), Registered::Custom(handler)));
                proof {
                    assert(self.tools@.drop_last() =~= before);
                    assert(tool_position(self.tools@, name@) == Some(before.len() as int));
                    assert forall|other: Seq<char>| other != name@ implies self.handler(other)
                        == old(self).handler(other) by {
                        lemma_tool_position(before, other);
                        assert(tool_position(self.tools@, other) == tool_position(before, other));
                    }
                }
            },
        }
    }

    /// Runs the tool that `call` names on its arguments. A name under which
    /// nothing is registered is a failure, and the state stays as it is.
    pub fn execute(&self, call: &ToolCall, state: &mut AgentState) -> (r: Result<
        ToolResult,
        LettaError,
    >)
        ensures
            match self.handler(call.name@) {
                Some(h) => h.effect(call.arguments@, *old(state), *final(state), r),
                None => *final(state) == *old(state) && is_tool_error(
                    r,
                    unknown_tool_message(call.name@),
                ),
            },
            old(state).wf() ==> final(state).wf(),
    {
        match self.find(call.name.as_str()) {
            Some(i) => self.tools[i].1.execute(&call.arguments, state),
            None => Err(LettaError::ToolExecution(concat2("Unknown tool: ", call.name.as_str()))),
        }
    }

    /// The schemas of the five built-in tools.
    pub fn get_schemas(&self) -> (schemas: Vec<ToolSchema>)
        ensures
            schemas.deep_view() == builtin_schemas(),
    {
        let schemas = vec![
            schema(
                "memory_replace",
                "Replace the contents of a memory block",
                ("label", "string", "Memory block label"),
                ("value", "string", "New value"),
                two_texts("label", "value"),
            ),
            schema(
                "memory_append",
                "Append text to a memory block",
                ("label", "string", "Memory block label"),
                ("text", "string", "Text to append"),
                two_texts("label", "text"),
            ),
            schema(
                "archival_insert",
                "Insert text into archival memory",
                ("folder", "string", "Folder name"),
                ("text", "string", "Text to archive"),
                one_text("text"),
            ),
            schema(
                "archival_search",
                "Search archival memory",
                ("query", "string", "Search query"),
                ("top_k", "integer", "Number of results"),
                one_text("query"),
            ),
            schema(
                "conversation_search",
                "Search conversation history",
                ("query", "string", "Search query"),
                ("top_k", "integer", "Number of results"),
                one_text("query"),
            ),
        ];
        assert(schemas.deep_view() =~= builtin_schemas());
        schemas
    }
}

impl ToolExecutor<BuiltInOnly> {
    /// An executor with the five built-in tools.
    pub fn new() -> (e: ToolExecutor<BuiltInOnly>)
        ensures
            e.is_new(),
    {
        ToolExecutor::with_builtins()
    }
}

/// What running the tool of `call` makes of the state `pre`: what the
/// handler that is registered under the name of the call does, or the
/// failure to find one.
pub open spec fn tool_ran<H: ToolHandler>(
    executor: ToolExecutor<H>,
    call: ToolCall,
    pre: AgentState,
    post: AgentState,
    r: Result<ToolResult, LettaError>,
) -> bool {
    match executor.handler(call.name@) {
        Some(h) => h.effect(call.arguments@, pre, post, r),
        None => post == pre && is_tool_error(r, unknown_tool_message(call.name@)),
    }
}

/// A new executor runs the built-in search of the archive under the name
/// `archival_search`.
pub proof fn lemma_new_search_handler<H: ToolHandler>(e: ToolExecutor<H>)
    requires
        e.is_new(),
    ensures
        e.handler("archival_search"@) matches Some(h) && h is ArchivalSearch,
{
    let name = "archival_search"@;
    lemma_tool_position(e.tools@, name);
    reveal_strlit("memory_replace");
    reveal_strlit("memory_append");
    reveal_strlit("archival_insert");
    reveal_strlit("archival_search");
    assert("memory_replace"@.len() == 14);
    assert("memory_append"@.len() == 13);
    assert("archival_insert"@.len() == 15);
    assert(name.len() == 15);
    assert("archival_insert"@[9] == 'i');
    assert(name[9] == 's');
    assert(e.tools@[0].0@ == builtin_names()[0]);
    assert(e.tools@[1].0@ == builtin_names()[1]);
    assert(e.tools@[2].0@ == builtin_names()[2]);
    assert(e.tools@[3].0@ == builtin_names()[3]);
    assert(e.tools@[0].0@ != name);
    assert(e.tools@[1].0@ != name);
    assert(e.tools@[2].0@ != name);
    assert(e.tools@[3].0@ == name);
}

} // verus!
