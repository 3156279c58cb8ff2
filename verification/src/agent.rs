//! An agent: its configuration, its state, and the step that turns a user
//! input into a reply.

use crate::clock::{new_id, Timestamp};
use crate::context::{prompt_text, prompt_tokens, summary_text, usage_reaches, ContextManager};
use crate::document::{encode_schema, schema_json};
use crate::error::LettaError;
use crate::json::{object_of, printed, Json, JsonValue};
use crate::memory::{
    blocks_after_set, blocks_text, capped, default_chat_blocks, exceeds_message, limit_for,
    lookup, Memory,
};
use crate::message::{
    at_most, empty_object, last_items, matching, Message, MessageBuffer, MessageRole,
    ToolCallInfo, ToolCallModel,
};
use crate::provider::{Completion, CompletionRequest, LlmProvider, TokenUsage};
use crate::text::{all_white, byte_len, concat2, is_white_space, is_whitespace};
use crate::tool::{
    builtin_schemas, entry_added, matching_entries, new_entry, same_but_archival,
    same_but_blocks, search_entries, tool_ran, BuiltInOnly, CallModel, ToolCall, ToolExecutor,
    ToolHandler, ToolResult, ToolSchema,
};
use vstd::prelude::*;
use vstd::string::*;

verus! {

/// What an agent is set up with. A temperature is given in thousandths.
#[derive(Debug)]
pub struct AgentConfig {
    pub name: String,
    pub system_prompt: String,
    pub model: String,
    /// How many of the newest messages go into a prompt.
    pub max_messages: usize,
    pub max_context_tokens: usize,
    /// The sampling temperature in thousandths: 700 stands for 0.7.
    pub temperature: u32,
    pub tools_enabled: bool,
}

/// What an `AgentConfig` holds.
pub struct ConfigModel {
    pub name: Seq<char>,
    pub system_prompt: Seq<char>,
    pub model: Seq<char>,
    pub max_messages: nat,
    pub max_context_tokens: nat,
    pub temperature: nat,
    pub tools_enabled: bool,
}

impl DeepView for AgentConfig {
    type V = ConfigModel;

    open spec fn deep_view(&self) -> ConfigModel {
        ConfigModel {
            name: self.name@,
            system_prompt: self.system_prompt@,
            model: self.model@,
            max_messages: self.max_messages as nat,
            max_context_tokens: self.max_context_tokens as nat,
            temperature: self.temperature as nat,
            tools_enabled: self.tools_enabled,
        }
    }
}

impl View for AgentConfig {
    type V = ConfigModel;

    open spec fn view(&self) -> ConfigModel {
        self.deep_view()
    }
}

impl Clone for AgentConfig {
    fn clone(&self) -> (r: Self)
        ensures
            r@ == self@,
    {
        AgentConfig {
            name: self.name.clone(),
            system_prompt: self.system_prompt.clone(),
            model: self.model.clone(),
            max_messages: self.max_messages,
            max_context_tokens: self.max_context_tokens,
            temperature: self.temperature,
            tools_enabled: self.tools_enabled,
        }
    }
}

/// The configuration that an agent has where none is given.
pub open spec fn default_config() -> ConfigModel {
    ConfigModel {
        name: "assistant"@,
        system_prompt: "You are a helpful AI assistant with persistent memory."@,
        model: "toy"@,
        max_messages: 100,
        max_context_tokens: 8192,
        temperature: 700,
        tools_enabled: true,
    }
}

impl Default for AgentConfig {
    fn default() -> (c: AgentConfig)
        ensures
            c@ == default_config(),
    {
        AgentConfig {
            name: "assistant".to_owned(),
            system_prompt: "You are a helpful AI assistant with persistent memory.".to_owned(),
            model: "toy".to_owned(),
            max_messages: crate::DEFAULT_MESSAGE_BUFFER,
            max_context_tokens: crate::DEFAULT_MAX_CONTEXT,
            temperature: 700,
            tools_enabled: true,
        }
    }
}

/// What an agent knows and has said.
#[derive(Debug)]
pub struct AgentState {
    pub id: String,
    pub name: String,
    pub created_at: Timestamp,
    pub updated_at: Timestamp,
    pub memory: Memory,
    pub messages: MessageBuffer,
    /// The archival entries, oldest first. Entries are added, never changed.
    pub archival_entries: Vec<Json>,
    /// A JSON document of free-form data.
    pub metadata: Json,
}

impl AgentState {
    /// The memory is well-formed.
    pub open spec fn wf(&self) -> bool {
        self.memory.wf()
    }

    /// A new state: a fresh identifier, a chat memory with its default
    /// blocks, room for a hundred messages, and nothing else.
    pub fn new(name: &str) -> (s: AgentState)
        ensures
            s.name@ == name@,
            s.id@.len() == 36,
            s.created_at@ == s.updated_at@,
            s.memory.is_chat(),
            s.memory.model() == default_chat_blocks(),
            s.memory.template() is None,
            s.messages.messages@.len() == 0,
            s.messages.max_size == 100,
            s.archival_entries@.len() == 0,
            s.metadata@ == empty_object(),
            s.wf(),
    {
        let now = Timestamp::now();
        AgentState {
            id: new_id(),
            name: name.to_owned(),
            created_at: now.clone(),
            updated_at: now,
            memory: Memory::new_chat(),
            messages: MessageBuffer::new(crate::DEFAULT_MESSAGE_BUFFER),
            archival_entries: Vec::new(),
            metadata: Json::empty_object(),
        }
    }
}

/// The most requests that one step sends to the model.
pub const MAX_ITERATIONS: usize = 10;

/// The message of the failure of a step that does not end.
pub open spec fn iteration_cap_message() -> Seq<char> {
    "Maximum iterations exceeded"@
}

/// Whether a character is a full stop or an ideographic full stop.
pub open spec fn is_full_stop(c: char) -> bool {
    c == '.' || c == '\u{3002}'
}

/// Whether an input is trivial: trimmed of white space it is empty, a full
/// stop, or an ideographic full stop. That is, it is white space only, or
/// white space around one full stop. Every other input is substantive.
pub open spec fn is_trivial(text: Seq<char>) -> bool {
    ||| all_white(text)
    ||| exists|i: int|
        0 <= i < text.len() && is_full_stop(#[trigger] text[i]) && all_white(text.take(i))
            && all_white(text.skip(i + 1))
}

/// Whether an input is trivial.
pub fn is_trivial_input(text: &str) -> (r: bool)
    ensures
        r == is_trivial(text@),
{
    // How many characters that are no white space were seen, up to two, and
    // whether the first of them is a full stop.
    let mut seen: u8 = 0;
    let mut stop = false;
    let ghost mut first: int = 0;
    let ghost mut second: int = 0;
    for c in it: text.chars()
        invariant
            it.seq() == text@,
            seen <= 2,
            seen == 0 ==> all_white(text@.take(it.index() as int)),
            seen >= 1 ==> 0 <= first < it.index() && !is_white_space(text@[first]) && all_white(
                text@.take(first),
            ) && stop == is_full_stop(text@[first]),
            seen == 1 ==> forall|j: int| first < j < it.index() ==> is_white_space(text@[j]),
            seen == 2 ==> first < second < it.index() && !is_white_space(text@[second]),
    {
        let ghost at = it.index() as int;
        if !is_whitespace(c) {
            if seen == 0 {
                seen = 1;
                stop = c == '.' || c == '\u{3002}';
                proof {
                    first = at;
                }
            } else if seen == 1 {
                seen = 2;
                proof {
                    second = at;
                }
            }
        } else {
            proof {
                if seen == 0 {
                    assert forall|j: int| 0 <= j < at + 1 implies is_white_space(
                        #[trigger] text@.take(at + 1)[j],
                    ) by {
                        if j < at {
                            assert(text@.take(at)[j] == text@[j]);
                        }
                    }
                }
            }
        }
    }
    proof {
        let s = text@;
        assert(s.take(s.len() as int) =~= s);
        if seen == 0 {
        } else if seen == 1 {
            if stop {
                assert forall|j: int| 0 <= j < s.skip(first + 1).len() implies is_white_space(
                    #[trigger] s.skip(first + 1)[j],
                ) by {
                    assert(s.skip(first + 1)[j] == s[first + 1 + j]);
                }
            } else {
                assert(!all_white(s)) by {
                    assert(!is_white_space(s[first]));
                }
                assert forall|i: int|
                    0 <= i < s.len() && is_full_stop(#[trigger] s[i]) && all_white(s.take(i))
                        implies !all_white(s.skip(i + 1)) by {
                    if i > first {
                        assert(s.take(i)[first] == s[first]);
                    } else if i < first {
                        assert(s.skip(i + 1)[first - i - 1] == s[first]);
                    }
                }
            }
        } else {
            assert(!all_white(s)) by {
                assert(!is_white_space(s[first]));
            }
            assert forall|i: int|
                0 <= i < s.len() && is_full_stop(#[trigger] s[i]) && all_white(s.take(i))
                    implies !all_white(s.skip(i + 1)) by {
                if i > first {
                    assert(s.take(i)[first] == s[first]);
                } else {
                    assert(s.skip(i + 1)[second - i - 1] == s[second]);
                }
            }
        }
    }
    seen == 0 || (seen == 1 && stop)
}

/// What a step hands back: the reply, what the tools did, and the usage
/// that the model reported with the reply.
#[derive(Debug)]
pub struct StepResult {
    pub text: String,
    /// One object for each tool call, with the members `tool`, `args` and
    /// `result`.
    pub tool_trace: Vec<Json>,
    pub usage: TokenUsage,
}

/// How far a step has come.
#[derive(Debug)]
pub struct Turn {
    /// The requests that were made for the model so far.
    pub iterations: usize,
    pub tool_trace: Vec<Json>,
}

impl Turn {
    /// The start of a step.
    pub fn new() -> (t: Turn)
        ensures
            t.iterations == 0,
            t.tool_trace@.len() == 0,
    {
        Turn { iterations: 0, tool_trace: Vec::new() }
    }
}

/// `m` is a new message with the given contents.
pub open spec fn is_new_message(
    m: Message,
    role: MessageRole,
    content: Seq<char>,
    tool_call_id: Option<Seq<char>>,
    tool_calls: Option<Seq<ToolCallModel>>,
) -> bool {
    &&& m.role == role
    &&& m.content@ == content
    &&& m.tool_calls.deep_view() == tool_calls
    &&& m.tool_call_id.deep_view() == tool_call_id
    &&& m.metadata@ == empty_object()
    &&& m.id@.len() == 36
}

/// The state `post` is the state `pre` with one new message pushed into
/// its buffer, and stamped. Nothing but the buffer and the time of the last
/// update differs.
pub open spec fn appended(
    pre: AgentState,
    post: AgentState,
    role: MessageRole,
    content: Seq<char>,
    tool_call_id: Option<Seq<char>>,
    tool_calls: Option<Seq<ToolCallModel>>,
) -> bool {
    &&& post.id == pre.id
    &&& post.name == pre.name
    &&& post.created_at == pre.created_at
    &&& post.memory == pre.memory
    &&& post.archival_entries == pre.archival_entries
    &&& post.metadata == pre.metadata
    &&& post.messages.max_size == pre.messages.max_size
    &&& exists|m: Message| #[trigger]
        is_new_message(m, role, content, tool_call_id, tool_calls) && post.messages.messages@
            == last_items(pre.messages.messages@.push(m), pre.messages.max_size as nat)
}

/// The entry of the trace for one tool call.
pub open spec fn trace_entry(call: CallModel, result: JsonValue) -> JsonValue {
    object_of(
        seq![
            ("tool"@, JsonValue::Text(call.name)),
            ("args"@, call.arguments),
            ("result"@, result),
        ],
    )
}

/// How far the handling of a batch of tool calls has come: the state, the
/// trace, and whether a tool has asked for a heartbeat.
pub struct Progress {
    pub state: AgentState,
    pub trace: Seq<JsonValue>,
    pub heartbeat: bool,
}

/// One tool call is handled: the tool runs; its result, printed as JSON,
/// goes into the buffer as a tool message that answers the call; the call
/// and the result go into the trace; a heartbeat that the result asks for
/// is kept.
pub open spec fn call_handled<H: ToolHandler>(
    executor: ToolExecutor<H>,
    call: ToolCall,
    pre: Progress,
    post: Progress,
) -> bool {
    exists|mid: AgentState, result: ToolResult| #[trigger]
        tool_ran(executor, call, pre.state, mid, Ok(result)) && appended(
            mid,
            post.state,
            MessageRole::Tool,
            printed(result.result@),
            Some(call.id@),
            None,
        ) && post.trace == pre.trace.push(trace_entry(call@, result.result@)) && post.heartbeat
            == (pre.heartbeat || result.request_heartbeat)
}

/// The handling of a tool call fails: the tool fails. The state is what
/// the tool has made of it.
pub open spec fn call_failed<H: ToolHandler>(
    executor: ToolExecutor<H>,
    call: ToolCall,
    pre: AgentState,
    post: AgentState,
    e: LettaError,
) -> bool {
    tool_ran(executor, call, pre, post, Err(e))
}

/// The first `k` calls of a batch are handled, one after the other.
pub open spec fn calls_handled<H: ToolHandler>(
    executor: ToolExecutor<H>,
    calls: Seq<ToolCall>,
    k: nat,
    pre: Progress,
    post: Progress,
) -> bool
    decreases k,
{
    if k == 0 {
        post == pre
    } else {
        exists|mid: Progress|
            calls_handled(executor, calls, (k - 1) as nat, pre, mid) && #[trigger] call_handled(
                executor,
                calls[k - 1],
                mid,
                post,
            )
    }
}

/// The tool calls as an assistant message carries them.
pub open spec fn call_infos(calls: Seq<CallModel>) -> Seq<ToolCallModel> {
    Seq::new(
        calls.len(),
        |i: int|
            ToolCallModel { id: calls[i].id, name: calls[i].name, arguments: calls[i].arguments },
    )
}

/// Whether the step goes on after a completion: a batch of tool calls was
/// run and a tool or the completion asks for a heartbeat, or the
/// completion has no text.
pub open spec fn goes_on(completion: Completion, heartbeat: bool) -> bool {
    ||| completion.tool_calls@.len() > 0 && (heartbeat || completion.request_heartbeat)
    ||| completion.text@.len() == 0
}

/// The state after the batch of tool calls of a completion: where there
/// were calls, an assistant message without text that carries them has
/// been pushed after the tool messages.
pub open spec fn batch_closed(completion: Completion, pre: AgentState, post: AgentState) -> bool {
    if completion.tool_calls@.len() > 0 {
        appended(
            pre,
            post,
            MessageRole::Assistant,
            Seq::empty(),
            None,
            Some(call_infos(completion.tool_calls.deep_view())),
        )
    } else {
        post == pre
    }
}

/// What a completion makes of an agent whose tools have all succeeded,
/// with `after` as the outcome of the tool calls: the batch is closed; then
/// the step goes on, or the text is pushed as the reply of the assistant
/// and handed back with the trace and the usage.
pub open spec fn completion_absorbed(
    completion: Completion,
    after: Progress,
    post: AgentState,
    post_trace: Seq<JsonValue>,
    r: Option<StepResult>,
) -> bool {
    exists|closed: AgentState| #[trigger]
        batch_closed(completion, after.state, closed) && if goes_on(completion, after.heartbeat) {
            &&& r is None
            &&& post == closed
            &&& post_trace == after.trace
        } else {
            &&& appended(
                closed,
                post,
                MessageRole::Assistant,
                completion.text@,
                None,
                None,
            )
            &&& r matches Some(result)
            &&& result.text@ == completion.text@
            &&& result.tool_trace.deep_view() == after.trace
            &&& result.usage == completion.usage
        }
}

/// The request that an agent sends with a prompt: the schemas of the
/// built-in tools where tools are enabled, the temperature of the
/// configuration, no limit on the answer, no streaming.
pub open spec fn is_request(
    request: CompletionRequest,
    config: AgentConfig,
    prompt: Seq<char>,
) -> bool {
    &&& request.prompt@ == prompt
    &&& request.tools.deep_view() == if config.tools_enabled {
        Seq::new(builtin_schemas().len(), |i: int| schema_json(builtin_schemas()[i]))
    } else {
        Seq::empty()
    }
    &&& request.temperature == Some(config.temperature)
    &&& request.max_tokens is None
    &&& !request.stream
}

/// An agent: a configuration, a state, and what it works with.
pub struct Agent<P: LlmProvider, H: ToolHandler = BuiltInOnly> {
    pub config: AgentConfig,
    pub state: AgentState,
    pub context: ContextManager,
    pub tool_executor: ToolExecutor<H>,
    pub provider: P,
}

impl<P: LlmProvider> Agent<P, BuiltInOnly> {
    /// A new agent with the built-in tools.
    pub fn new(config: AgentConfig, provider: P) -> (a: Agent<P, BuiltInOnly>)
        ensures
            a.config == config,
            a.provider == provider,
            a.state.name@ == config.name@,
            a.state.memory.is_chat(),
            a.state.memory.model() == default_chat_blocks(),
            a.state.memory.template() is None,
            a.state.messages.messages@.len() == 0,
            a.state.messages.max_size == 100,
            a.state.archival_entries@.len() == 0,
            a.state.wf(),
            a.context.window.max_tokens == config.max_context_tokens,
            a.context.window.current_tokens == 0,
            a.context.window.summarization_threshold == 800,
            a.tool_executor.is_new(),
    {
        let state = AgentState::new(config.name.as_str());
        let context = ContextManager::new(config.max_context_tokens);
        let tool_executor = ToolExecutor::new();
        Agent { config, state, context, tool_executor, provider }
    }
}

/// The agent `post` is the agent `pre` after it has taken a user input
/// into the conversation: a substantive input is pushed as a user message,
/// a trivial one changes nothing.
pub open spec fn input_taken<P: LlmProvider, H: ToolHandler>(
    pre: Agent<P, H>,
    text: Seq<char>,
    post: Agent<P, H>,
) -> bool {
    &&& post.config == pre.config
    &&& post.context == pre.context
    &&& post.tool_executor == pre.tool_executor
    &&& post.provider == pre.provider
    &&& if is_trivial(text) {
        post.state == pre.state
    } else {
        appended(pre.state, post.state, MessageRole::User, text, None, None)
    }
}

impl<P: LlmProvider, H: ToolHandler> Agent<P, H> {
    /// The same agent with another state.
    pub fn with_state(self, state: AgentState) -> (a: Agent<P, H>)
        ensures
            a.state == state,
            a.config == self.config,
            a.context == self.context,
            a.tool_executor == self.tool_executor,
            a.provider == self.provider,
    {
        let mut a = self;
        a.state = state;
        a
    }

    /// The same agent with other tools.
    pub fn with_tools<G: ToolHandler>(self, tool_executor: ToolExecutor<G>) -> (a: Agent<P, G>)
        ensures
            a.tool_executor == tool_executor,
            a.config == self.config,
            a.state == self.state,
            a.context == self.context,
            a.provider == self.provider,
    {
        Agent {
            config: self.config,
            state: self.state,
            context: self.context,
            tool_executor,
            provider: self.provider,
        }
    }

    /// Takes a user input into the conversation without asking the model:
    /// a substantive input is pushed as a user message, a trivial one
    /// changes nothing.
    pub fn send_only(&mut self, user_message: String) -> (r: Result<(), LettaError>)
        ensures
            r is Ok,
            input_taken(*old(self), user_message@, *final(self)),
    {
        if is_trivial_input(user_message.as_str()) {
            return Ok(());
        }
        let m = Message::user(user_message.as_str());
        assert(is_new_message(m, MessageRole::User, user_message@, None, None));
        self.state.messages.push(m);
        self.state.updated_at = Timestamp::now();
        Ok(())
    }
}

/// The system message that carries a summary.
pub open spec fn summary_message(summary: Seq<char>) -> Seq<char> {
    "Context summary: "@ + summary
}

/// The token estimate of the prompt of an agent.
pub open spec fn agent_prompt_tokens(config: AgentConfig, state: AgentState) -> nat {
    prompt_tokens(
        config.system_prompt@,
        state.memory.tokens(),
        last_items(state.messages.messages@, config.max_messages as nat),
    )
}

/// The prompt of an agent whose memory has no template.
pub open spec fn agent_prompt(config: AgentConfig, state: AgentState) -> Seq<char> {
    prompt_text(
        config.system_prompt@,
        blocks_text(state.memory.model()),
        last_items(state.messages.messages@, config.max_messages as nat),
    )
}

/// The handling of a batch of tool calls fails at one of them: the calls
/// before it are handled, and the state and the trace are what they were
/// when it failed.
pub open spec fn batch_failed<H: ToolHandler>(
    executor: ToolExecutor<H>,
    calls: Seq<ToolCall>,
    start: Progress,
    post: AgentState,
    post_trace: Seq<JsonValue>,
    e: LettaError,
) -> bool {
    exists|j: nat, mid: Progress| #[trigger]
        calls_handled(executor, calls, j, start, mid) && j < calls.len() && call_failed(
            executor,
            calls[j as int],
            mid.state,
            post,
            e,
        ) && post_trace == mid.trace
}

/// The schemas as JSON objects.
fn schemas_to_json(schemas: &Vec<ToolSchema>) -> (r: Vec<Json>)
    ensures
        r.deep_view() == Seq::new(
            schemas.deep_view().len(),
            |i: int| schema_json(schemas.deep_view()[i]),
        ),
{
    let mut out: Vec<Json> = Vec::new();
    let mut i: usize = 0;
    while i < schemas.len()
        invariant
            i <= schemas.len(),
            out.len() == i,
            forall|j: int| 0 <= j < i ==> out@[j]@ == schema_json(schemas@[j]@),
        decreases schemas.len() - i,
    {
        out.push(encode_schema(&schemas[i]));
        i += 1;
    }
    assert(out.deep_view() =~= Seq::new(
        schemas.deep_view().len(),
        |i: int| schema_json(schemas.deep_view()[i]),
    ));
    out
}

/// The calls as an assistant message carries them.
fn calls_to_infos(calls: &Vec<ToolCall>) -> (r: Vec<ToolCallInfo>)
    ensures
        r.deep_view() == call_infos(calls.deep_view()),
{
    let mut out: Vec<ToolCallInfo> = Vec::new();
    let mut i: usize = 0;
    while i < calls.len()
        invariant
            i <= calls.len(),
            out.len() == i,
            forall|j: int|
                0 <= j < i ==> out@[j]@ == (ToolCallModel {
                    id: calls@[j].id@,
                    name: calls@[j].name@,
                    arguments: calls@[j].arguments@,
                }),
        decreases calls.len() - i,
    {
        let c = &calls[i];
        out.push(
            ToolCallInfo { id: c.id.clone(), name: c.name.clone(), arguments: c.arguments.clone() },
        );
        i += 1;
    }
    assert(out.deep_view() =~= call_infos(calls.deep_view()));
    out
}

fn new_trace_entry(call: &ToolCall, result: Json) -> (r: Json)
    ensures
        r@ == trace_entry(call@, result@),
{
    let members = vec![
        ("tool".to_owned(), Json::Text(call.name.clone())),
        ("args".to_owned(), call.arguments.clone()),
        ("result".to_owned(), result),
    ];
    assert(members.deep_view() =~= seq![
        ("tool"@, JsonValue::Text(call.name@)),
        ("args"@, call.arguments@),
        ("result"@, result@),
    ]);
    Json::object(members)
}

/// What a request for the model makes of an agent that has made `made`
/// requests in this step. After `MAX_ITERATIONS` requests the next one is
/// refused and nothing changes. Else the prompt is assembled from the state
/// as it is: a prompt over the budget is a `ContextOverflow` error, a
/// template that cannot be rendered a `Memory` error, both with the state
/// unchanged; a prompt within the budget is sent, its tokens are recorded,
/// and where the used fraction of the budget reaches the threshold a
/// summary of all but the last ten messages is pushed as a system message.
pub open spec fn request_made<P: LlmProvider, H: ToolHandler>(
    pre: Agent<P, H>,
    made: nat,
    post: Agent<P, H>,
    r: Result<CompletionRequest, LettaError>,
) -> bool {
    &&& post.config == pre.config
    &&& post.tool_executor == pre.tool_executor
    &&& post.provider == pre.provider
    &&& if made >= MAX_ITERATIONS {
        &&& r matches Err(LettaError::ToolExecution(m)) && m@ == iteration_cap_message()
        &&& post == pre
    } else {
        &&& post.context.window.max_tokens == pre.context.window.max_tokens
        &&& post.context.window.summarization_threshold
            == pre.context.window.summarization_threshold
        &&& match r {
            Ok(request) => {
                &&& agent_prompt_tokens(pre.config, pre.state) <= pre.context.window.max_tokens
                &&& post.context.window.current_tokens == agent_prompt_tokens(
                    pre.config,
                    pre.state,
                )
                &&& is_request(request, pre.config, request.prompt@)
                &&& pre.state.memory.template() is None ==> request.prompt@ == agent_prompt(
                    pre.config,
                    pre.state,
                )
                &&& if usage_reaches(
                    agent_prompt_tokens(pre.config, pre.state),
                    pre.context.window.max_tokens as nat,
                    pre.context.window.summarization_threshold as nat,
                ) {
                    appended(
                        pre.state,
                        post.state,
                        MessageRole::System,
                        summary_message(summary_text(pre.state.messages.messages@, 10)),
                        None,
                        None,
                    )
                } else {
                    post.state == pre.state
                }
            },
            Err(LettaError::ContextOverflow { current, max }) => {
                &&& agent_prompt_tokens(pre.config, pre.state) > pre.context.window.max_tokens
                &&& max == pre.context.window.max_tokens
                &&& current == capped(agent_prompt_tokens(pre.config, pre.state))
                &&& post.state == pre.state
            },
            Err(LettaError::Memory(_)) => pre.state.memory.template() is Some && post.state
                == pre.state,
            Err(_) => false,
        }
    }
}

/// What an answer of the model makes of an agent, with `trace` as the
/// trace of the step so far. Its tool calls are run in their order, each
/// result goes into the buffer as a tool message and into the trace, and an
/// assistant message that carries the calls follows them. A tool that fails
/// ends the step with its failure, and what was pushed before stays. Then
/// the step goes on, with `None`, where a heartbeat is asked for or the
/// answer has no text; else the text is pushed as the reply and handed back.
pub open spec fn answer_absorbed<P: LlmProvider, H: ToolHandler>(
    pre: Agent<P, H>,
    trace: Seq<JsonValue>,
    completion: Completion,
    post: Agent<P, H>,
    post_trace: Seq<JsonValue>,
    r: Result<Option<StepResult>, LettaError>,
) -> bool {
    &&& post.config == pre.config
    &&& post.context == pre.context
    &&& post.tool_executor == pre.tool_executor
    &&& post.provider == pre.provider
    &&& match r {
        Ok(outcome) => exists|after: Progress| #[trigger]
            calls_handled(
                pre.tool_executor,
                completion.tool_calls@,
                completion.tool_calls@.len(),
                Progress { state: pre.state, trace, heartbeat: false },
                after,
            ) && completion_absorbed(completion, after, post.state, post_trace, outcome),
        Err(e) => batch_failed(
            pre.tool_executor,
            completion.tool_calls@,
            Progress { state: pre.state, trace, heartbeat: false },
            post.state,
            post_trace,
            e,
        ),
    }
}

impl<P: LlmProvider, H: ToolHandler> Agent<P, H> {
    /// The next request of a step for the model. A step makes at most
    /// `MAX_ITERATIONS` requests: the one after that is refused. The prompt
    /// is assembled from the state as it is. Where the used fraction of the
    /// token budget then reaches the threshold, a summary of all but the
    /// last ten messages is pushed as a system message.
    pub fn next_request(&mut self, turn: &mut Turn) -> (r: Result<CompletionRequest, LettaError>)
        ensures
            request_made(*old(self), old(turn).iterations as nat, *final(self), r),
            final(turn).tool_trace == old(turn).tool_trace,
            old(self).state.wf() ==> final(self).state.wf(),
            r is Ok ==> final(turn).iterations <= MAX_ITERATIONS,
            old(turn).iterations >= MAX_ITERATIONS ==> *final(turn) == *old(turn),
            old(turn).iterations < MAX_ITERATIONS ==> final(turn).iterations == old(
                turn,
            ).iterations + 1,
    {
        if turn.iterations >= MAX_ITERATIONS {
            return Err(LettaError::ToolExecution("Maximum iterations exceeded".to_owned()));
        }
        turn.iterations = turn.iterations + 1;
        let prompt = match self.context.build_prompt(
            self.config.system_prompt.as_str(),
            &self.state.memory,
            self.state.messages.messages.as_slice(),
            self.config.max_messages,
        ) {
            Ok(prompt) => prompt,
            Err(e) => {
                return Err(e);
            },
        };
        if self.context.should_summarize() {
            let summary = self.context.summarize_messages(
                self.state.messages.messages.as_slice(),
                10,
            );
            let text = concat2("Context summary: ", summary.as_str());
            let m = Message::system(text.as_str());
            assert(is_new_message(m, MessageRole::System, text@, None, None));
            self.state.messages.push(m);
            self.state.updated_at = Timestamp::now();
        }
        let tools = if self.config.tools_enabled {
            let schemas = self.tool_executor.get_schemas();
            schemas_to_json(&schemas)
        } else {
            let none: Vec<Json> = Vec::new();
            assert(none.deep_view() =~= Seq::<JsonValue>::empty());
            none
        };
        Ok(
            CompletionRequest {
                prompt,
                tools,
                temperature: Some(self.config.temperature),
                max_tokens: None,
                stream: false,
            },
        )
    }

    /// Takes the answer of the model into the agent. Its tool calls are
    /// run in their order, each result goes into the buffer as a tool
    /// message and into the trace, and an assistant message that carries the
    /// calls follows them. A tool that fails ends the step with its failure,
    /// and what was pushed before stays. Then the step goes on, with
    /// `None`, where a heartbeat is asked for or the answer has no text;
    /// else the text is pushed as the reply and handed back.
    pub fn absorb(&mut self, turn: &mut Turn, completion: Completion) -> (r: Result<
        Option<StepResult>,
        LettaError,
    >)
        ensures
            answer_absorbed(
                *old(self),
                old(turn).tool_trace.deep_view(),
                completion,
                *final(self),
                final(turn).tool_trace.deep_view(),
                r,
            ),
            final(turn).iterations == old(turn).iterations,
            old(self).state.wf() ==> final(self).state.wf(),
    {
        let ghost start = Progress {
            state: self.state,
            trace: turn.tool_trace.deep_view(),
            heartbeat: false,
        };
        let ghost calls = completion.tool_calls@;
        let mut heartbeat = false;
        let mut i: usize = 0;
        while i < completion.tool_calls.len()
            invariant
                i <= completion.tool_calls.len(),
                calls == completion.tool_calls@,
                self.config == old(self).config,
                self.context == old(self).context,
                self.tool_executor == old(self).tool_executor,
                self.provider == old(self).provider,
                turn.iterations == old(turn).iterations,
                old(self).state.wf() ==> self.state.wf(),
                start == (Progress {
                    state: old(self).state,
                    trace: old(turn).tool_trace.deep_view(),
                    heartbeat: false,
                }),
                calls_handled(
                    self.tool_executor,
                    calls,
                    i as nat,
                    start,
                    Progress { state: self.state, trace: turn.tool_trace.deep_view(), heartbeat },
                ),
            decreases completion.tool_calls.len() - i,
        {
            let call = &completion.tool_calls[i];
            let ghost before = Progress {
                state: self.state,
                trace: turn.tool_trace.deep_view(),
                heartbeat,
            };
            let result = match self.tool_executor.execute(call, &mut self.state) {
                Ok(result) => result,
                Err(e) => {
                    proof {
                        assert(tool_ran(
                            self.tool_executor,
                            *call,
                            before.state,
                            self.state,
                            Err(e),
                        ));
                        assert(call_failed(
                            self.tool_executor,
                            calls[i as int],
                            before.state,
                            self.state,
                            e,
                        ));
                    }
                    return Err(e);
                },
            };
            let ghost ran = self.state;
            let ghost res = result;
            assert(tool_ran(self.tool_executor, *call, before.state, ran, Ok(res)));
            let content = match result.result.to_text() {
                Ok(content) => content,
                Err(message) => {
                    return Err(LettaError::Serialization(message));
                },
            };
            let m = Message::tool(call.id.clone(), content.as_str());
            assert(is_new_message(m, MessageRole::Tool, content@, Some(call.id@), None));
            self.state.messages.push(m);
            self.state.updated_at = Timestamp::now();
            let request_heartbeat = result.request_heartbeat;
            let entry = new_trace_entry(call, result.result);
            let ghost trace_before = turn.tool_trace.deep_view();
            turn.tool_trace.push(entry);
            assert(turn.tool_trace.deep_view() =~= trace_before.push(
                trace_entry(call@, res.result@),
            ));
            if request_heartbeat {
                heartbeat = true;
            }
            proof {
                let now = Progress {
                    state: self.state,
                    trace: turn.tool_trace.deep_view(),
                    heartbeat,
                };
                assert(appended(
                    ran,
                    now.state,
                    MessageRole::Tool,
                    printed(res.result@),
                    Some(call.id@),
                    None,
                ));
                assert(call_handled(self.tool_executor, calls[i as int], before, now));
                let k = (i + 1) as nat;
                assert((k - 1) as nat == i as nat);
                assert(calls_handled(self.tool_executor, calls, (k - 1) as nat, start, before)
                    && call_handled(self.tool_executor, calls[k - 1], before, now));
                assert(calls_handled(self.tool_executor, calls, k, start, now));
            }
            i += 1;
        }
        let ghost after = Progress {
            state: self.state,
            trace: turn.tool_trace.deep_view(),
            heartbeat,
        };
        let had_calls = completion.tool_calls.len() > 0;
        if had_calls {
            let infos = calls_to_infos(&completion.tool_calls);
            let envelope = Message::assistant("").with_tool_calls(infos);
            proof {
                reveal_strlit("");
                assert(""@ =~= Seq::<char>::empty());
                assert(is_new_message(
                    envelope,
                    MessageRole::Assistant,
                    Seq::empty(),
                    None,
                    Some(call_infos(completion.tool_calls.deep_view())),
                ));
            }
            self.state.messages.push(envelope);
            self.state.updated_at = Timestamp::now();
        }
        let ghost closed = self.state;
        assert(batch_closed(completion, after.state, closed));
        if had_calls && (heartbeat || completion.request_heartbeat) {
            return Ok(None);
        }
        if completion.text.as_str().unicode_len() == 0 {
            return Ok(None);
        }
        let reply = Message::assistant(completion.text.as_str());
        assert(is_new_message(reply, MessageRole::Assistant, completion.text@, None, None));
        self.state.messages.push(reply);
        self.state.updated_at = Timestamp::now();
        let mut tool_trace: Vec<Json> = Vec::new();
        std::mem::swap(&mut tool_trace, &mut turn.tool_trace);
        let result = StepResult { text: completion.text, tool_trace, usage: completion.usage };
        proof {
            assert(appended(
                closed,
                self.state,
                MessageRole::Assistant,
                completion.text@,
                None,
                None,
            ));
            assert(completion_absorbed(
                completion,
                after,
                self.state,
                turn.tool_trace.deep_view(),
                Some(result),
            ));
        }
        Ok(Some(result))
    }
}

/// What a reply leaves at the end of the buffer: where the buffer has
/// room at all, its last message is a new assistant message with the text.
pub open spec fn reply_is_last(state: AgentState, text: Seq<char>) -> bool {
    &&& state.messages.messages@.len() <= state.messages.max_size
    &&& state.messages.max_size > 0 ==> state.messages.messages@.len() > 0 && is_new_message(
        state.messages.messages@.last(),
        MessageRole::Assistant,
        text,
        None,
        None,
    )
}

/// One round of a step that goes on: a request is made, the model
/// answers it, and the answer is taken in without a reply.
pub open spec fn round_done<P: LlmProvider, H: ToolHandler>(
    pre: Agent<P, H>,
    made: nat,
    trace: Seq<JsonValue>,
    post: Agent<P, H>,
    post_trace: Seq<JsonValue>,
) -> bool {
    exists|asked: Agent<P, H>, request: CompletionRequest, completion: Completion|
        #![trigger
            request_made(pre, made, asked, Ok(request)),
            answer_absorbed(asked, trace, completion, post, post_trace, Ok(None)),
        ]
        request_made(pre, made, asked, Ok(request)) && asked.provider.answers(
            request,
            Ok(completion),
        ) && answer_absorbed(asked, trace, completion, post, post_trace, Ok(None))
}

/// The first `k` rounds of a step are done, one after the other, from the
/// agent `start` and an empty trace.
pub open spec fn rounds_done<P: LlmProvider, H: ToolHandler>(
    start: Agent<P, H>,
    k: nat,
    post: Agent<P, H>,
    post_trace: Seq<JsonValue>,
) -> bool
    decreases k,
{
    if k == 0 {
        post == start && post_trace == Seq::<JsonValue>::empty()
    } else {
        exists|mid: Agent<P, H>, trace: Seq<JsonValue>|
            rounds_done(start, (k - 1) as nat, mid, trace) && #[trigger] round_done(
                mid,
                (k - 1) as nat,
                trace,
                post,
                post_trace,
            )
    }
}

/// An answer of the model to `request` ends the step: it is taken in, and
/// a reply or the failure of a tool comes back.
pub open spec fn answer_ended<P: LlmProvider, H: ToolHandler>(
    asked: Agent<P, H>,
    request: CompletionRequest,
    trace: Seq<JsonValue>,
    post: Agent<P, H>,
    r: Result<StepResult, LettaError>,
) -> bool {
    exists|completion: Completion, post_trace: Seq<JsonValue>, taken: Result<
        Option<StepResult>,
        LettaError,
    >| #[trigger]
        answer_absorbed(asked, trace, completion, post, post_trace, taken)
            && asked.provider.answers(request, Ok(completion)) && match taken {
            Ok(Some(result)) => r == Ok::<StepResult, LettaError>(result),
            Ok(None) => false,
            Err(e) => r == Err::<StepResult, LettaError>(e),
        }
}

/// The model fails on `request`: its failure comes back, and the agent is
/// left as the request has made it.
pub open spec fn model_failed<P: LlmProvider, H: ToolHandler>(
    asked: Agent<P, H>,
    request: CompletionRequest,
    post: Agent<P, H>,
    r: Result<StepResult, LettaError>,
) -> bool {
    &&& r matches Err(e) && asked.provider.answers(request, Err(e))
    &&& post == asked
}

/// The last round of a step, after `made` requests: the request is
/// refused or fails, and its error comes back; or the model fails; or the
/// answer of the model ends the step.
pub open spec fn step_ended<P: LlmProvider, H: ToolHandler>(
    pre: Agent<P, H>,
    made: nat,
    trace: Seq<JsonValue>,
    post: Agent<P, H>,
    r: Result<StepResult, LettaError>,
) -> bool {
    exists|asked: Agent<P, H>, request: Result<CompletionRequest, LettaError>| #[trigger]
        request_made(pre, made, asked, request) && match request {
            Err(e) => post == asked && r == Err::<StepResult, LettaError>(e),
            Ok(sent) => model_failed(asked, sent, post, r) || answer_ended(
                asked,
                sent,
                trace,
                post,
                r,
            ),
        }
}

/// The prompt of the agent is over its budget, and no template stands
/// before the count.
pub open spec fn prompt_overflows<P: LlmProvider, H: ToolHandler>(agent: Agent<P, H>) -> bool {
    &&& agent.state.memory.template() is None
    &&& agent_prompt_tokens(agent.config, agent.state) > agent.context.window.max_tokens
}

/// A step runs from the agent `pre`, which has made `made` requests in it
/// and has the trace `trace`, to the agent `post` and the result `r`: this
/// round is the last; or it is a round that goes on, and the step runs on
/// from what it has made. After `MAX_ITERATIONS` requests no round goes on.
pub open spec fn step_run<P: LlmProvider, H: ToolHandler>(
    pre: Agent<P, H>,
    made: nat,
    trace: Seq<JsonValue>,
    post: Agent<P, H>,
    r: Result<StepResult, LettaError>,
) -> bool
    decreases MAX_ITERATIONS - made,
{
    ||| step_ended(pre, made, trace, post, r)
    ||| (made < MAX_ITERATIONS && exists|mid: Agent<P, H>, mid_trace: Seq<JsonValue>| #[trigger]
        round_done(pre, made, trace, mid, mid_trace) && step_run(
            mid,
            made + 1,
            mid_trace,
            post,
            r,
        ))
}

/// The agent `post` and the result `r` are what a reply makes of the agent
/// `pre`: a step that runs from `pre`, with no request made yet and an
/// empty trace. What the model answers in each round is what the provider
/// says of its answers. Where the prompt is over the budget to begin with,
/// the model is not asked: the overflow comes back and the state stays.
pub open spec fn replied<P: LlmProvider, H: ToolHandler>(
    pre: Agent<P, H>,
    post: Agent<P, H>,
    r: Result<StepResult, LettaError>,
) -> bool {
    &&& step_run(pre, 0, Seq::empty(), post, r)
    &&& prompt_overflows(pre) ==> {
        &&& r matches Err(LettaError::ContextOverflow { current, max })
        &&& max == pre.context.window.max_tokens
        &&& current == capped(agent_prompt_tokens(pre.config, pre.state))
        &&& post.state == pre.state
    }
}

/// A step that has made `MAX_ITERATIONS` requests asks the model no more:
/// it ends with the failure that names the cap, and the agent stays as it
/// is.
pub proof fn lemma_step_is_capped<P: LlmProvider, H: ToolHandler>(
    pre: Agent<P, H>,
    made: nat,
    trace: Seq<JsonValue>,
    post: Agent<P, H>,
    r: Result<StepResult, LettaError>,
)
    requires
        step_run(pre, made, trace, post, r),
        made >= MAX_ITERATIONS,
    ensures
        r matches Err(LettaError::ToolExecution(m)) && m@ == iteration_cap_message(),
        post == pre,
{
    assert(step_ended(pre, made, trace, post, r));
}

/// A step that runs on after `k` rounds has run from the start.
pub proof fn lemma_run_from_start<P: LlmProvider, H: ToolHandler>(
    start: Agent<P, H>,
    k: nat,
    mid: Agent<P, H>,
    trace: Seq<JsonValue>,
    post: Agent<P, H>,
    r: Result<StepResult, LettaError>,
)
    requires
        rounds_done(start, k, mid, trace),
        step_run(mid, k, trace, post, r),
    ensures
        step_run(start, 0, Seq::empty(), post, r),
    decreases k,
{
    if k > 0 {
        let before = (k - 1) as nat;
        let (m, t) = choose|m: Agent<P, H>, t: Seq<JsonValue>|
            rounds_done(start, before, m, t) && #[trigger] round_done(m, before, t, mid, trace);
        assert(before < MAX_ITERATIONS);
        assert(before + 1 == k);
        assert(step_run(m, before, t, post, r));
        lemma_run_from_start(start, before, m, t, post, r);
    }
}

impl<P: LlmProvider, H: ToolHandler> Agent<P, H> {
    /// A reply to the conversation as it stands, without a new input. The
    /// model is asked, its answer is taken in, and so on until an answer
    /// ends the step with a reply; the eleventh request is refused. What
    /// the model answers is for the model to say: a reply that comes back
    /// is not empty and is the last message of the buffer. Where the prompt
    /// is over the budget to begin with, the model is not asked: the
    /// overflow comes back and the state stays.
    pub fn reply_only(&mut self) -> (r: Result<StepResult, LettaError>)
        ensures
            replied(*old(self), *final(self), r),
            final(self).config == old(self).config,
            final(self).tool_executor == old(self).tool_executor,
            final(self).provider == old(self).provider,
            old(self).state.wf() ==> final(self).state.wf(),
            r matches Ok(result) ==> result.text@.len() > 0 && reply_is_last(
                final(self).state,
                result.text@,
            ),
    {
        let mut turn = Turn::new();
        assert(turn.tool_trace.deep_view() =~= Seq::<JsonValue>::empty());
        loop
            invariant
                self.config == old(self).config,
                self.tool_executor == old(self).tool_executor,
                self.provider == old(self).provider,
                old(self).state.wf() ==> self.state.wf(),
                turn.iterations <= MAX_ITERATIONS,
                turn.iterations == 0 ==> *self == *old(self),
                turn.iterations > 0 ==> !prompt_overflows(*old(self)),
                rounds_done(
                    *old(self),
                    turn.iterations as nat,
                    *self,
                    turn.tool_trace.deep_view(),
                ),
            decreases MAX_ITERATIONS - turn.iterations,
        {
            let ghost pre = *self;
            let ghost made = turn.iterations as nat;
            let ghost trace = turn.tool_trace.deep_view();
            let asking = self.next_request(&mut turn);
            let ghost asked = *self;
            assert(request_made(pre, made, asked, asking));
            let request = match asking {
                Ok(request) => request,
                Err(e) => {
                    proof {
                        let r = Err::<StepResult, LettaError>(e);
                        assert(step_ended(pre, made, trace, *self, r));
                        lemma_run_from_start(*old(self), made, pre, trace, *self, r);
                    }
                    return Err(e);
                },
            };
            let ghost sent = request;
            let completion = match self.provider.complete(request) {
                Ok(completion) => completion,
                Err(e) => {
                    proof {
                        let r = Err::<StepResult, LettaError>(e);
                        assert(model_failed(asked, sent, *self, r));
                        assert(step_ended(pre, made, trace, *self, r));
                        lemma_run_from_start(*old(self), made, pre, trace, *self, r);
                    }
                    return Err(e);
                },
            };
            assert(asked.provider.answers(sent, Ok(completion)));
            let ghost answer = completion;
            let taken = self.absorb(&mut turn, completion);
            assert(answer_absorbed(
                asked,
                trace,
                answer,
                *self,
                turn.tool_trace.deep_view(),
                taken,
            ));
            match taken {
                Ok(Some(result)) => {
                    proof {
                        let r = Ok::<StepResult, LettaError>(result);
                        assert(answer_ended(asked, sent, trace, *self, r));
                        assert(step_ended(pre, made, trace, *self, r));
                        lemma_run_from_start(*old(self), made, pre, trace, *self, r);
                    }
                    return Ok(result);
                },
                Ok(None) => {
                    proof {
                        assert(round_done(pre, made, trace, *self, turn.tool_trace.deep_view()));
                        let k = made + 1;
                        assert((k - 1) as nat == made);
                        assert(rounds_done(*old(self), (k - 1) as nat, pre, trace) && round_done(
                            pre,
                            (k - 1) as nat,
                            trace,
                            *self,
                            turn.tool_trace.deep_view(),
                        ));
                        assert(rounds_done(
                            *old(self),
                            k as nat,
                            *self,
                            turn.tool_trace.deep_view(),
                        ));
                    }
                },
                Err(e) => {
                    proof {
                        let r = Err::<StepResult, LettaError>(e);
                        assert(answer_ended(asked, sent, trace, *self, r));
                        assert(step_ended(pre, made, trace, *self, r));
                        lemma_run_from_start(*old(self), made, pre, trace, *self, r);
                    }
                    return Err(e);
                },
            }
        }
    }

    /// One step: a substantive input is pushed as a user message, a
    /// trivial one is not; then the agent replies as in `reply_only`.
    pub fn step(&mut self, user_message: String) -> (r: Result<StepResult, LettaError>)
        ensures
            exists|sent: Agent<P, H>| #[trigger]
                input_taken(*old(self), user_message@, sent) && replied(sent, *final(self), r),
            final(self).config == old(self).config,
            final(self).tool_executor == old(self).tool_executor,
            final(self).provider == old(self).provider,
            old(self).state.wf() ==> final(self).state.wf(),
            r matches Ok(result) ==> result.text@.len() > 0 && reply_is_last(
                final(self).state,
                result.text@,
            ),
    {
        let ghost text = user_message@;
        match self.send_only(user_message) {
            Ok(_) => {},
            Err(e) => {
                return Err(e);
            },
        }
        let ghost sent = *self;
        assert(input_taken(*old(self), text, sent));
        self.reply_only()
    }

    /// Stores `value` in the memory block `label`, as `Memory::set_block`
    /// does, and stamps the state where the value is accepted.
    pub fn set_memory_block(&mut self, label: &str, value: &str) -> (r: Result<(), LettaError>)
        ensures
            final(self).config == old(self).config,
            final(self).context == old(self).context,
            final(self).tool_executor == old(self).tool_executor,
            final(self).provider == old(self).provider,
            same_but_blocks(old(self).state, final(self).state),
            match blocks_after_set(old(self).state.memory.model(), label@, value@) {
                Some(blocks) => r is Ok && final(self).state.memory.model() == blocks,
                None => final(self).state.memory.model() == old(self).state.memory.model()
                    && final(self).state.updated_at == old(self).state.updated_at && (
                r matches Err(LettaError::Memory(m)) && m@ == exceeds_message(
                    byte_len(value@),
                    limit_for(old(self).state.memory.model(), label@),
                )),
            },
            r is Ok ==> (lookup(final(self).state.memory.model(), label@) matches Some(b)
                && b.value == value@),
            old(self).state.wf() ==> final(self).state.wf(),
    {
        match self.state.memory.set_block(label, value) {
            Ok(_) => {
                self.state.updated_at = Timestamp::now();
                Ok(())
            },
            Err(e) => Err(e),
        }
    }

    /// The value of the memory block `label`.
    pub fn get_memory_block(&self, label: &str) -> (r: Option<String>)
        ensures
            r.deep_view() == match lookup(self.state.memory.model(), label@) {
                Some(b) => Some(b.value),
                None => None,
            },
    {
        match self.state.memory.get_block(label) {
            Some(block) => Some(block.value.clone()),
            None => None,
        }
    }

    /// Adds an archival entry of the given folder and text, stamped with
    /// the current time.
    pub fn add_archival(&mut self, folder: &str, text: &str)
        ensures
            final(self).config == old(self).config,
            final(self).context == old(self).context,
            final(self).tool_executor == old(self).tool_executor,
            final(self).provider == old(self).provider,
            same_but_archival(old(self).state, final(self).state),
            entry_added(
                old(self).state.archival_entries.deep_view(),
                final(self).state.archival_entries.deep_view(),
                folder@,
                text@,
            ),
    {
        let entry = new_entry(folder, text);
        let ghost before = self.state.archival_entries.deep_view();
        self.state.archival_entries.push(entry);
        assert(self.state.archival_entries.deep_view().drop_last() =~= before);
        self.state.updated_at = Timestamp::now();
    }

    /// Up to `top_k` archival entries whose text holds `query`, letter
    /// case ignored, oldest first.
    pub fn search_archival(&self, query: &str, top_k: usize) -> (found: Vec<Json>)
        ensures
            found.deep_view() == at_most(
                matching_entries(self.state.archival_entries.deep_view(), query@),
                top_k as nat,
            ),
    {
        search_entries(&self.state.archival_entries, query, top_k)
    }

    /// Copies of up to `top_k` messages whose content holds `query`,
    /// letter case ignored, in buffer order.
    pub fn search_conversation(&self, query: &str, top_k: usize) -> (found: Vec<Message>)
        ensures
            found@.len() == at_most(
                matching(self.state.messages.messages@, query@),
                top_k as nat,
            ).len(),
            forall|i: int|
                0 <= i < found@.len() ==> (#[trigger] found@[i])@ == at_most(
                    matching(self.state.messages.messages@, query@),
                    top_k as nat,
                )[i]@,
    {
        let hits = self.state.messages.search(query, top_k);
        let mut found: Vec<Message> = Vec::new();
        let mut i: usize = 0;
        while i < hits.len()
            invariant
                i <= hits.len(),
                found.len() == i,
                forall|j: int| 0 <= j < i ==> (#[trigger] found@[j])@ == (*hits@[j])@,
            decreases hits.len() - i,
        {
            found.push(hits[i].clone());
            i += 1;
        }
        found
    }

    /// Empties the conversation and stamps the state.
    pub fn clear_messages(&mut self)
        ensures
            final(self).config == old(self).config,
            final(self).context == old(self).context,
            final(self).tool_executor == old(self).tool_executor,
            final(self).provider == old(self).provider,
            final(self).state.messages.messages@.len() == 0,
            final(self).state.messages.max_size == old(self).state.messages.max_size,
            final(self).state.id == old(self).state.id,
            final(self).state.name == old(self).state.name,
            final(self).state.created_at == old(self).state.created_at,
            final(self).state.memory == old(self).state.memory,
            final(self).state.archival_entries == old(self).state.archival_entries,
            final(self).state.metadata == old(self).state.metadata,
    {
        self.state.messages.clear();
        self.state.updated_at = Timestamp::now();
    }
}

} // verus!
