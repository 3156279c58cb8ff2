//! A provider for tests that counts its calls: the identifiers of its tool
//! calls bear the count, and where it is not deterministic its replies
//! take turns.

use crate::error::LettaError;
use crate::json::{object_of, Json, JsonValue};
use crate::provider::{
    text_completion, toy_summary, toy_usage, Completion, CompletionModel, CompletionRequest,
    LlmProvider, TokenUsage,
};
use crate::text::{byte_length, contains, decimal, occurs_in, push_decimal};
use crate::tool::{CallModel, ToolCall};
use std::sync::atomic::AtomicUsize;
use vstd::prelude::*;

verus! {

/// A provider for tests.
pub struct ToyProvider {
    pub deterministic: bool,
    /// How many requests were answered.
    pub call_count: AtomicUsize,
}

/// The identifier of the tool call of the request number `count`.
pub open spec fn call_id(count: nat) -> Seq<char> {
    "call_"@ + decimal(count)
}

/// The reply number `turn` of the five that take turns.
pub open spec fn varied_reply(turn: nat) -> Seq<char> {
    if turn == 0 {
        "I'm here to help. What would you like to know?"@
    } else if turn == 1 {
        "Thank you for your message. Let me assist you with that."@
    } else if turn == 2 {
        "I've processed your request. Is there anything specific you'd like me to focus on?"@
    } else if turn == 3 {
        "That's an interesting point. Could you provide more details?"@
    } else {
        "I understand. Let me think about the best way to help you."@
    }
}

/// The answer to the request number `count` with the given prompt. A
/// prompt that holds `Tool [`, the mark of a tool message, gets the
/// summary; else one that holds `#DO_SEARCH` gets a call of
/// `archival_search` with a heartbeat; else one that holds `#MEMORY_UPDATE`
/// gets a call of `memory_replace`; every other prompt gets the fixed reply
/// of a deterministic provider, or the reply whose turn it is.
pub open spec fn counted_completion(
    deterministic: bool,
    count: nat,
    prompt: Seq<char>,
) -> CompletionModel {
    if occurs_in("Tool ["@, prompt) {
        text_completion(toy_summary())
    } else if occurs_in("#DO_SEARCH"@, prompt) {
        CompletionModel {
            text: Seq::empty(),
            tool_calls: seq![
                CallModel {
                    id: call_id(count),
                    name: "archival_search"@,
                    arguments: object_of(
                        seq![
                            ("query"@, JsonValue::Text("latest readings"@)),
                            ("top_k"@, JsonValue::Number(3)),
                        ],
                    ),
                },
            ],
            request_heartbeat: true,
            usage: toy_usage(prompt),
        }
    } else if occurs_in("#MEMORY_UPDATE"@, prompt) {
        CompletionModel {
            text: Seq::empty(),
            tool_calls: seq![
                CallModel {
                    id: call_id(count),
                    name: "memory_replace"@,
                    arguments: object_of(
                        seq![
                            ("label"@, JsonValue::Text("human"@)),
                            ("value"@, JsonValue::Text("Updated user information"@)),
                        ],
                    ),
                },
            ],
            request_heartbeat: false,
            usage: toy_usage(prompt),
        }
    } else if deterministic {
        text_completion("I understand your request. How can I help you further?"@)
    } else {
        text_completion(varied_reply(count % 5))
    }
}

fn counted_call(count: usize, name: &str, first: (&str, Json), second: (&str, Json)) -> (r: Vec<
    ToolCall,
>)
    ensures
        r.deep_view() == seq![
            CallModel {
                id: call_id(count as nat),
                name: name@,
                arguments: object_of(seq![(first.0@, first.1@), (second.0@, second.1@)]),
            },
        ],
{
    let mut id = "call_".to_owned();
    push_decimal(&mut id, count);
    let members = vec![(first.0.to_owned(), first.1), (second.0.to_owned(), second.1)];
    assert(members.deep_view() =~= seq![(first.0@, first.1@), (second.0@, second.1@)]);
    let calls = vec![ToolCall { id, name: name.to_owned(), arguments: Json::object(members) }];
    assert(calls.deep_view() =~= seq![
        CallModel {
            id: call_id(count as nat),
            name: name@,
            arguments: object_of(seq![(first.0@, first.1@), (second.0@, second.1@)]),
        },
    ]);
    calls
}

impl ToyProvider {
    /// A provider that has answered nothing yet.
    pub fn new(deterministic: bool) -> (p: ToyProvider)
        ensures
            p.deterministic == deterministic,
    {
        ToyProvider { deterministic, call_count: AtomicUsize::new(0) }
    }

    /// Counts one more request and says how many came before it.
    fn next_count(&self) -> usize {
        self.call_count.fetch_add(1, std::sync::atomic::Ordering::SeqCst)
    }

    /// The answer to the request number `count`.
    pub fn answer_at(&self, count: usize, request: &CompletionRequest) -> (c: Completion)
        ensures
            c@ == counted_completion(self.deterministic, count as nat, request.prompt@),
    {
        let prompt = request.prompt.as_str();
        let prompt_tokens = byte_length(prompt) / 4;
        if contains(prompt, "Tool [") {
            Completion::text(
                "Based on the search results, here's a summary of the latest readings: The most recent values show stable patterns with readings at 168 mg/dL and 112 mg/dL.",
            )
        } else if contains(prompt, "#DO_SEARCH") {
            Completion {
                text: String::new(),
                tool_calls: counted_call(
                    count,
                    "archival_search",
                    ("query", Json::text("latest readings")),
                    ("top_k", Json::UInt(3)),
                ),
                request_heartbeat: true,
                usage: TokenUsage {
                    prompt_tokens,
                    completion_tokens: 10,
                    total_tokens: prompt_tokens + 10,
                },
            }
        } else if contains(prompt, "#MEMORY_UPDATE") {
            Completion {
                text: String::new(),
                tool_calls: counted_call(
                    count,
                    "memory_replace",
                    ("label", Json::text("human")),
                    ("value", Json::text("Updated user information")),
                ),
                request_heartbeat: false,
                usage: TokenUsage {
                    prompt_tokens,
                    completion_tokens: 10,
                    total_tokens: prompt_tokens + 10,
                },
            }
        } else if self.deterministic {
            Completion::text("I understand your request. How can I help you further?")
        } else {
            let turn = count % 5;
            if turn == 0 {
                Completion::text("I'm here to help. What would you like to know?")
            } else if turn == 1 {
                Completion::text("Thank you for your message. Let me assist you with that.")
            } else if turn == 2 {
                Completion::text(
                    "I've processed your request. Is there anything specific you'd like me to focus on?",
                )
            } else if turn == 3 {
                Completion::text("That's an interesting point. Could you provide more details?")
            } else {
                Completion::text("I understand. Let me think about the best way to help you.")
            }
        }
    }
}

impl LlmProvider for ToyProvider {
    /// The provider does not fail, and its answer is fixed by the prompt
    /// and by the number of the requests that it has answered before.
    open spec fn answers(
        &self,
        request: CompletionRequest,
        r: Result<Completion, LettaError>,
    ) -> bool {
        r matches Ok(c) && exists|count: nat|
            c@ == #[trigger] counted_completion(self.deterministic, count, request.prompt@)
    }

    fn complete(&self, request: CompletionRequest) -> (r: Result<Completion, LettaError>)
    {
        let count = self.next_count();
        let c = self.answer_at(count, &request);
        assert(c@ == counted_completion(self.deterministic, count as nat, request.prompt@));
        Ok(c)
    }

    fn name(&self) -> (r: &str)
        ensures
            r@ == "toy"@,
    {
        "toy"
    }

    fn max_tokens(&self) -> (r: usize)
        ensures
            r == 8192,
    {
        8192
    }
}

} // verus!
