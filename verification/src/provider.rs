//! The contract between an agent and the language model behind it, and a
//! deterministic provider for tests.

use crate::error::LettaError;
use crate::json::{object_of, Json, JsonValue};
use crate::text::{byte_length, contains, occurs_in, token_count};
use crate::tool::{CallModel, ToolCall};
use vstd::prelude::*;

verus! {

/// What is asked of the model. A temperature is given in thousandths.
#[derive(Debug)]
pub struct CompletionRequest {
    pub prompt: String,
    /// The schemas of the tools that the model may call, as JSON objects.
    pub tools: Vec<Json>,
    /// The sampling temperature in thousandths.
    pub temperature: Option<u32>,
    pub max_tokens: Option<usize>,
    pub stream: bool,
}

/// What a `CompletionRequest` holds.
pub struct RequestModel {
    pub prompt: Seq<char>,
    pub tools: Seq<JsonValue>,
    pub temperature: Option<u32>,
    pub max_tokens: Option<usize>,
    pub stream: bool,
}

impl DeepView for CompletionRequest {
    type V = RequestModel;

    open spec fn deep_view(&self) -> RequestModel {
        RequestModel {
            prompt: self.prompt@,
            tools: self.tools.deep_view(),
            temperature: self.temperature,
            max_tokens: self.max_tokens,
            stream: self.stream,
        }
    }
}

impl View for CompletionRequest {
    type V = RequestModel;

    open spec fn view(&self) -> RequestModel {
        self.deep_view()
    }
}

/// How many tokens a completion took.
#[derive(Debug, Clone, Copy, PartialEq, Eq, Structural)]
pub struct TokenUsage {
    pub prompt_tokens: usize,
    pub completion_tokens: usize,
    pub total_tokens: usize,
}

/// What the model answers: text, tool calls, or both.
#[derive(Debug)]
pub struct Completion {
    pub text: String,
    pub tool_calls: Vec<ToolCall>,
    /// Asks the step to go on without a new user turn.
    pub request_heartbeat: bool,
    pub usage: TokenUsage,
}

/// What a `Completion` holds.
pub struct CompletionModel {
    pub text: Seq<char>,
    pub tool_calls: Seq<CallModel>,
    pub request_heartbeat: bool,
    pub usage: TokenUsage,
}

impl DeepView for Completion {
    type V = CompletionModel;

    open spec fn deep_view(&self) -> CompletionModel {
        CompletionModel {
            text: self.text@,
            tool_calls: self.tool_calls.deep_view(),
            request_heartbeat: self.request_heartbeat,
            usage: self.usage,
        }
    }
}

impl View for Completion {
    type V = CompletionModel;

    open spec fn view(&self) -> CompletionModel {
        self.deep_view()
    }
}

/// A completion that is text only, with its token estimate as usage.
pub open spec fn text_completion(content: Seq<char>) -> CompletionModel {
    CompletionModel {
        text: content,
        tool_calls: Seq::empty(),
        request_heartbeat: false,
        usage: TokenUsage {
            prompt_tokens: 0,
            completion_tokens: token_count(content) as usize,
            total_tokens: token_count(content) as usize,
        },
    }
}

impl Completion {
    /// A completion that is text only.
    pub fn text(content: &str) -> (c: Completion)
        ensures
            c@ == text_completion(content@),
    {
        let tokens = byte_length(content) / 4;
        let tool_calls: Vec<ToolCall> = Vec::new();
        assert(tool_calls.deep_view() =~= Seq::<CallModel>::empty());
        Completion {
            text: content.to_owned(),
            tool_calls,
            request_heartbeat: false,
            usage: TokenUsage {
                prompt_tokens: 0,
                completion_tokens: tokens,
                total_tokens: tokens,
            },
        }
    }

    /// The same completion with the given tool calls.
    pub fn with_tools(self, calls: Vec<ToolCall>) -> (c: Completion)
        ensures
            c@ == (CompletionModel { tool_calls: calls.deep_view(), ..self@ }),
    {
        let mut c = self;
        c.tool_calls = calls;
        c
    }

    /// The same completion, asking for a heartbeat.
    pub fn with_heartbeat(self) -> (c: Completion)
        ensures
            c@ == (CompletionModel { request_heartbeat: true, ..self@ }),
    {
        let mut c = self;
        c.request_heartbeat = true;
        c
    }
}

/// A language model.
pub trait LlmProvider {
    /// Whether `r` is an answer of this provider to `request`. A provider
    /// that promises nothing of its answers leaves this as it is: any
    /// answer, and any failure.
    open spec fn answers(
        &self,
        request: CompletionRequest,
        r: Result<Completion, LettaError>,
    ) -> bool {
        true
    }

    /// Answers a request, or fails.
    fn complete(&self, request: CompletionRequest) -> (r: Result<Completion, LettaError>)
        ensures
            self.answers(request, r),
    ;

    /// The name of the provider.
    fn name(&self) -> &str;

    /// The size of the model's context window in tokens.
    fn max_tokens(&self) -> usize;
}

/// The settings of the test provider.
#[derive(Debug, Clone, Copy, PartialEq, Eq, Structural)]
pub struct ToyConfig {
    pub deterministic: bool,
}

#[derive(Debug)]
pub struct OpenAIConfig {
    pub api_key: String,
    pub model: String,
    pub base_url: Option<String>,
}

#[derive(Debug)]
pub struct AnthropicConfig {
    pub api_key: String,
    pub model: String,
}

#[derive(Debug)]
pub struct LlamaConfig {
    pub model_path: String,
    pub context_size: usize,
    pub n_threads: usize,
}

#[derive(Debug)]
pub struct LettaCloudConfig {
    pub endpoint: String,
    pub api_key: String,
    pub model: String,
}

/// Which provider to make, and its settings.
#[derive(Debug)]
pub enum ProviderConfig {
    Toy(ToyConfig),
    OpenAI(OpenAIConfig),
    Anthropic(AnthropicConfig),
    Llama(LlamaConfig),
    LettaCloud(LettaCloudConfig),
}

/// The message of the failure to make a provider that is not there.
pub open spec fn not_implemented_message(config: ProviderConfig) -> Seq<char> {
    match config {
        ProviderConfig::Toy(_) => Seq::empty(),
        ProviderConfig::OpenAI(_) => "OpenAI provider not yet implemented"@,
        ProviderConfig::Anthropic(_) => "Anthropic provider not yet implemented"@,
        ProviderConfig::Llama(_) => "Llama provider not yet implemented"@,
        ProviderConfig::LettaCloud(_) => "Letta Cloud provider not yet implemented"@,
    }
}

/// Makes providers from their settings.
pub struct ProviderFactory;

impl ProviderFactory {
    /// The provider for `config`. Only the test provider is there: every
    /// other kind is a `Provider` error.
    pub fn create(config: ProviderConfig) -> (r: Result<ToyProvider, LettaError>)
        ensures
            match config {
                ProviderConfig::Toy(cfg) => r matches Ok(p) && p.config == cfg,
                _ => r matches Err(LettaError::Provider(m)) && m@ == not_implemented_message(
                    config,
                ),
            },
    {
        match config {
            ProviderConfig::Toy(cfg) => Ok(ToyProvider::new(cfg)),
            ProviderConfig::OpenAI(_) => Err(
                LettaError::Provider("OpenAI provider not yet implemented".to_owned()),
            ),
            ProviderConfig::Anthropic(_) => Err(
                LettaError::Provider("Anthropic provider not yet implemented".to_owned()),
            ),
            ProviderConfig::Llama(_) => Err(
                LettaError::Provider("Llama provider not yet implemented".to_owned()),
            ),
            ProviderConfig::LettaCloud(_) => Err(
                LettaError::Provider("Letta Cloud provider not yet implemented".to_owned()),
            ),
        }
    }
}

/// A provider for tests: what it answers depends on the prompt alone.
#[derive(Debug)]
pub struct ToyProvider {
    pub config: ToyConfig,
}

/// The usage that the test provider reports with a tool call.
pub open spec fn toy_usage(prompt: Seq<char>) -> TokenUsage {
    TokenUsage {
        prompt_tokens: token_count(prompt) as usize,
        completion_tokens: 10,
        total_tokens: (token_count(prompt) + 10) as usize,
    }
}

/// The call of `archival_search` that the test provider makes.
pub open spec fn toy_search_call() -> CallModel {
    CallModel {
        id: "call_1"@,
        name: "archival_search"@,
        arguments: object_of(
            seq![
                ("query"@, JsonValue::Text("latest readings"@)),
                ("top_k"@, JsonValue::Number(3)),
            ],
        ),
    }
}

/// The call of `memory_replace` that the test provider makes.
pub open spec fn toy_update_call() -> CallModel {
    CallModel {
        id: "call_2"@,
        name: "memory_replace"@,
        arguments: object_of(
            seq![
                ("label"@, JsonValue::Text("human"@)),
                ("value"@, JsonValue::Text("Updated user information"@)),
            ],
        ),
    }
}

/// What the test provider says after a tool has run.
pub open spec fn toy_summary() -> Seq<char> {
    "Based on the search results, here's a summary of the latest readings: The most recent values show stable patterns with readings at 168 mg/dL and 112 mg/dL."@
}

/// What the test provider says to anything else.
pub open spec fn toy_reply(deterministic: bool) -> Seq<char> {
    if deterministic {
        "I understand your request. How can I help you further?"@
    } else {
        "This is a test response from the toy provider."@
    }
}

/// The answer of the test provider to a prompt. A prompt that holds
/// `Tool [`, the mark of a tool message, gets the summary; else one that
/// holds `#DO_SEARCH` gets a call of `archival_search` with a heartbeat;
/// else one that holds `#MEMORY_UPDATE` gets a call of `memory_replace`;
/// every other prompt gets the reply.
pub open spec fn toy_completion(deterministic: bool, prompt: Seq<char>) -> CompletionModel {
    if occurs_in("Tool ["@, prompt) {
        text_completion(toy_summary())
    } else if occurs_in("#DO_SEARCH"@, prompt) {
        CompletionModel {
            text: Seq::empty(),
            tool_calls: seq![toy_search_call()],
            request_heartbeat: true,
            usage: toy_usage(prompt),
        }
    } else if occurs_in("#MEMORY_UPDATE"@, prompt) {
        CompletionModel {
            text: Seq::empty(),
            tool_calls: seq![toy_update_call()],
            request_heartbeat: false,
            usage: toy_usage(prompt),
        }
    } else {
        text_completion(toy_reply(deterministic))
    }
}

fn single_call(id: &str, name: &str, first: (&str, Json), second: (&str, Json)) -> (r: Vec<
    ToolCall,
>)
    ensures
        r.deep_view() == seq![
            CallModel {
                id: id@,
                name: name@,
                arguments: object_of(seq![(first.0@, first.1@), (second.0@, second.1@)]),
            },
        ],
{
    let members = vec![(first.0.to_owned(), first.1), (second.0.to_owned(), second.1)];
    assert(members.deep_view() =~= seq![(first.0@, first.1@), (second.0@, second.1@)]);
    let calls = vec![
        ToolCall { id: id.to_owned(), name: name.to_owned(), arguments: Json::object(members) },
    ];
    assert(calls.deep_view() =~= seq![
        CallModel {
            id: id@,
            name: name@,
            arguments: object_of(seq![(first.0@, first.1@), (second.0@, second.1@)]),
        },
    ]);
    calls
}

impl ToyProvider {
    /// A test provider with the given settings.
    pub fn new(config: ToyConfig) -> (p: ToyProvider)
        ensures
            p.config == config,
    {
        ToyProvider { config }
    }

    /// The answer to a request.
    pub fn answer(&self, request: &CompletionRequest) -> (c: Completion)
        ensures
            c@ == toy_completion(self.config.deterministic, request.prompt@),
    {
        let prompt = request.prompt.as_str();
        let prompt_tokens = byte_length(prompt) / 4;
        if contains(prompt, "Tool [") {
            Completion::text(
                "Based on the search results, here's a summary of the latest readings: The most recent values show stable patterns with readings at 168 mg/dL and 112 mg/dL.",
            )
        } else if contains(prompt, "#DO_SEARCH") {
            Completion {
                text: String::new(),
                tool_calls: single_call(
                    "call_1",
                    "archival_search",
                    ("query", Json::text("latest readings")),
                    ("top_k", Json::UInt(3)),
                ),
                request_heartbeat: true,
                usage: TokenUsage {
                    prompt_tokens,
                    completion_tokens: 10,
                    total_tokens: prompt_tokens + 10,
                },
            }
        } else if contains(prompt, "#MEMORY_UPDATE") {
            Completion {
                text: String::new(),
                tool_calls: single_call(
                    "call_2",
                    "memory_replace",
                    ("label", Json::text("human")),
                    ("value", Json::text("Updated user information")),
                ),
                request_heartbeat: false,
                usage: TokenUsage {
                    prompt_tokens,
                    completion_tokens: 10,
                    total_tokens: prompt_tokens + 10,
                },
            }
        } else if self.config.deterministic {
            Completion::text("I understand your request. How can I help you further?")
        } else {
            Completion::text("This is a test response from the toy provider.")
        }
    }
}

impl LlmProvider for ToyProvider {
    /// The test provider does not fail, and its answer is fixed by the
    /// prompt.
    open spec fn answers(
        &self,
        request: CompletionRequest,
        r: Result<Completion, LettaError>,
    ) -> bool {
        r matches Ok(c) && c@ == toy_completion(self.config.deterministic, request.prompt@)
    }

    fn complete(&self, request: CompletionRequest) -> (r: Result<Completion, LettaError>)
    {
        Ok(self.answer(&request))
    }

    fn name(&self) -> (r: &str)
        ensures
            r@ == "toy"@,
    {
        "toy"
    }

    fn max_tokens(&self) -> (r: usize)
        ensures
            r == 8192,
    {
        8192
    }
}

} // verus!
