//! What an agent with the test provider replies: the rounds of a step,
//! followed through for the answers that the test provider gives.

use crate::agent::{
    agent_prompt, agent_prompt_tokens, answer_absorbed, answer_ended, appended, batch_closed,
    call_handled, call_infos, calls_handled, completion_absorbed, goes_on, input_taken,
    is_new_message, is_trivial, model_failed, replied, request_made, round_done, step_ended,
    step_run, summary_message, trace_entry, Agent, AgentState, Progress, StepResult,
    MAX_ITERATIONS,
};
use crate::context::{
    lemma_line_in_prompt, lemma_tool_line, message_line, summary_text, usage_reaches,
};
use crate::error::LettaError;
use crate::json::{printed, JsonValue};
use crate::memory::blocks_text;
use crate::message::{last_items, Message, MessageRole};
use crate::provider::{
    toy_completion, toy_search_call, toy_summary, Completion, CompletionModel,
    CompletionRequest, LlmProvider, ToyProvider,
};
use crate::text::{lemma_occurs_in_part, occurs_in};
use crate::tool::{lemma_new_search_handler, tool_ran, ToolHandler, ToolResult};
use vstd::prelude::*;
use vstd::string::*;

verus! {

/// The state `asked` is what a request makes of the state of `pre`: the
/// same state, or that state with the summary pushed where the used
/// fraction of the budget reaches the threshold.
pub open spec fn state_when_asked<P: LlmProvider, H: ToolHandler>(
    pre: Agent<P, H>,
    asked: AgentState,
) -> bool {
    if usage_reaches(
        agent_prompt_tokens(pre.config, pre.state),
        pre.context.window.max_tokens as nat,
        pre.context.window.summarization_threshold as nat,
    ) {
        appended(
            pre.state,
            asked,
            MessageRole::System,
            summary_message(summary_text(pre.state.messages.messages@, 10)),
            None,
            None,
        )
    } else {
        asked == pre.state
    }
}

/// The answer of the test provider to the prompt of an agent.
pub open spec fn toy_answer<H: ToolHandler>(agent: Agent<ToyProvider, H>) -> CompletionModel {
    toy_completion(agent.provider.config.deterministic, agent_prompt(agent.config, agent.state))
}

/// A step of an agent with the test provider ends in this round where the
/// provider answers the prompt with text alone: that is every prompt but
/// one that holds a mark for a tool and no tool message yet. The memory has
/// no template. A reply that comes back is the text of the provider, with
/// its usage and the trace so far, and it is pushed as an assistant message
/// after the summary, where one is due. It does come back where a request
/// is left and the prompt is within the budget.
pub proof fn lemma_text_round<H: ToolHandler>(
    pre: Agent<ToyProvider, H>,
    made: nat,
    trace: Seq<JsonValue>,
    post: Agent<ToyProvider, H>,
    r: Result<StepResult, LettaError>,
)
    requires
        step_run(pre, made, trace, post, r),
        pre.state.memory.template() is None,
        toy_answer(pre).tool_calls.len() == 0,
    ensures
        made < MAX_ITERATIONS && agent_prompt_tokens(pre.config, pre.state)
            <= pre.context.window.max_tokens ==> r is Ok,
        r matches Ok(result) ==> {
            &&& result.text@ == toy_answer(pre).text
            &&& result.text@.len() > 0
            &&& result.usage == toy_answer(pre).usage
            &&& result.tool_trace.deep_view() == trace
            &&& exists|asked: AgentState|
                state_when_asked(pre, asked) && #[trigger] appended(
                    asked,
                    post.state,
                    MessageRole::Assistant,
                    toy_answer(pre).text,
                    None,
                    None,
                )
        },
{
    let answer = toy_answer(pre);
    assert(answer.text.len() > 0) by {
        reveal_strlit(
            "Based on the search results, here's a summary of the latest readings: The most recent values show stable patterns with readings at 168 mg/dL and 112 mg/dL.",
        );
        reveal_strlit("I understand your request. How can I help you further?");
        reveal_strlit("This is a test response from the toy provider.");
    }
    assert forall|mid: Agent<ToyProvider, H>, next: Seq<JsonValue>|
        !#[trigger] round_done(pre, made, trace, mid, next) by {
        if round_done(pre, made, trace, mid, next) {
            let (asked, request, completion) = choose|
                asked: Agent<ToyProvider, H>,
                request: CompletionRequest,
                completion: Completion,
            |
                #![trigger
                    request_made(pre, made, asked, Ok(request)),
                    answer_absorbed(asked, trace, completion, mid, next, Ok(None)),
                ]
                request_made(pre, made, asked, Ok(request)) && asked.provider.answers(
                    request,
                    Ok(completion),
                ) && answer_absorbed(asked, trace, completion, mid, next, Ok(None));
            assert(completion@ == answer);
            assert(completion.tool_calls.deep_view().len() == completion.tool_calls@.len());
            assert(!goes_on(completion, true) && !goes_on(completion, false));
            assert(false);
        }
    }
    assert(step_ended(pre, made, trace, post, r));
    let (asked, request) = choose|
        asked: Agent<ToyProvider, H>,
        request: Result<CompletionRequest, LettaError>,
    | #[trigger]
        request_made(pre, made, asked, request) && match request {
            Err(e) => post == asked && r == Err::<StepResult, LettaError>(e),
            Ok(sent) => model_failed(asked, sent, post, r) || answer_ended(
                asked,
                sent,
                trace,
                post,
                r,
            ),
        };
    if request is Ok {
        let sent = request->Ok_0;
        assert(!model_failed(asked, sent, post, r));
        let (completion, post_trace, taken) = choose|
            completion: Completion,
            post_trace: Seq<JsonValue>,
            taken: Result<Option<StepResult>, LettaError>,
        | #[trigger]
            answer_absorbed(asked, trace, completion, post, post_trace, taken)
                && asked.provider.answers(sent, Ok(completion)) && match taken {
                Ok(Some(result)) => r == Ok::<StepResult, LettaError>(result),
                Ok(None) => false,
                Err(e) => r == Err::<StepResult, LettaError>(e),
            };
        assert(completion@ == answer);
        assert(completion.tool_calls.deep_view().len() == completion.tool_calls@.len());
        assert(!goes_on(completion, true) && !goes_on(completion, false));
        assert(taken is Ok);
        let start = Progress { state: asked.state, trace, heartbeat: false };
        let after = choose|after: Progress| #[trigger]
            calls_handled(
                asked.tool_executor,
                completion.tool_calls@,
                completion.tool_calls@.len(),
                start,
                after,
            ) && completion_absorbed(completion, after, post.state, post_trace, taken->Ok_0);
        assert(after == start);
        assert(state_when_asked(pre, asked.state));
        assert(appended(asked.state, post.state, MessageRole::Assistant, answer.text, None, None));
    }
}

/// An agent with the test provider replies in one round where the
/// provider answers its prompt with text alone and the prompt is within
/// the budget: the reply is the text of the provider, with its usage and an
/// empty trace.
pub proof fn lemma_toy_reply<H: ToolHandler>(
    pre: Agent<ToyProvider, H>,
    post: Agent<ToyProvider, H>,
    r: Result<StepResult, LettaError>,
)
    requires
        replied(pre, post, r),
        pre.state.memory.template() is None,
        agent_prompt_tokens(pre.config, pre.state) <= pre.context.window.max_tokens,
        toy_answer(pre).tool_calls.len() == 0,
    ensures
        r matches Ok(result) && {
            &&& result.text@ == toy_answer(pre).text
            &&& result.text@.len() > 0
            &&& result.usage == toy_answer(pre).usage
            &&& result.tool_trace@.len() == 0
            &&& exists|asked: AgentState|
                state_when_asked(pre, asked) && #[trigger] appended(
                    asked,
                    post.state,
                    MessageRole::Assistant,
                    toy_answer(pre).text,
                    None,
                    None,
                )
        },
{
    lemma_text_round(pre, 0, Seq::empty(), post, r);
    let result = r->Ok_0;
    assert(result.tool_trace.deep_view().len() == result.tool_trace@.len());
}

/// The provider answers the prompt of the agent with text alone, and the
/// prompt is within the budget.
pub open spec fn gets_text<H: ToolHandler>(agent: Agent<ToyProvider, H>) -> bool {
    &&& agent_prompt_tokens(agent.config, agent.state) <= agent.context.window.max_tokens
    &&& toy_answer(agent).tool_calls.len() == 0
}

/// A step of an agent with the test provider ends in one round where the
/// provider answers the prompt with text alone, whatever identifier and
/// time the user message gets. The reply is the text of the provider with
/// an empty trace, and it is pushed as an assistant message after the user
/// message, where the input is substantive, and the summary, where one is
/// due. After a trivial input no user message is pushed: the agent replies
/// to the conversation as it stands.
pub proof fn lemma_toy_step<H: ToolHandler>(
    pre: Agent<ToyProvider, H>,
    text: Seq<char>,
    post: Agent<ToyProvider, H>,
    r: Result<StepResult, LettaError>,
)
    requires
        exists|sent: Agent<ToyProvider, H>| #[trigger]
            input_taken(pre, text, sent) && replied(sent, post, r),
        pre.state.memory.template() is None,
        forall|sent: Agent<ToyProvider, H>| #[trigger]
            input_taken(pre, text, sent) ==> gets_text(sent),
    ensures
        r matches Ok(result) && result.text@.len() > 0 && result.tool_trace@.len() == 0
            && exists|sent: Agent<ToyProvider, H>, asked: AgentState|
            #![trigger input_taken(pre, text, sent), state_when_asked(sent, asked)]
            {
                &&& input_taken(pre, text, sent)
                &&& is_trivial(text) ==> sent == pre
                &&& result.text@ == toy_answer(sent).text
                &&& state_when_asked(sent, asked)
                &&& appended(asked, post.state, MessageRole::Assistant, result.text@, None, None)
            },
{
    let sent = choose|sent: Agent<ToyProvider, H>| #[trigger]
        input_taken(pre, text, sent) && replied(sent, post, r);
    assert(gets_text(sent));
    if !is_trivial(text) {
        assert(sent.state.memory == pre.state.memory);
    }
    lemma_toy_reply(sent, post, r);
    let answer = toy_answer(sent);
    let asked = choose|asked: AgentState|
        state_when_asked(sent, asked) && #[trigger] appended(
            asked,
            post.state,
            MessageRole::Assistant,
            answer.text,
            None,
            None,
        );
    let result = r->Ok_0;
    assert(input_taken(pre, text, sent) && state_when_asked(sent, asked) && appended(
        asked,
        post.state,
        MessageRole::Assistant,
        result.text@,
        None,
        None,
    ));
}

/// The prompt of the agent holds the mark of a search and no tool message
/// yet: the test provider answers it with a call of `archival_search`.
pub open spec fn asks_for_search<H: ToolHandler>(agent: Agent<ToyProvider, H>) -> bool {
    &&& occurs_in("#DO_SEARCH"@, agent_prompt(agent.config, agent.state))
    &&& !occurs_in("Tool ["@, agent_prompt(agent.config, agent.state))
}

/// The last message but one of a buffer after two pushes is the first of
/// the two, where the buffer has room for two.
pub proof fn lemma_pushed_before_last(
    start: Seq<Message>,
    first: Message,
    second: Message,
    room: nat,
    shown: nat,
)
    requires
        room >= 2,
        shown >= 2,
    ensures
        ({
            let kept = last_items(last_items(start.push(first), room).push(second), room);
            let seen = last_items(kept, shown);
            seen.len() >= 2 && seen[seen.len() - 2] == first
        }),
{
    let one = last_items(start.push(first), room);
    assert(one.len() >= 1 && one.last() == first);
    let two = one.push(second);
    assert(two[two.len() - 2] == first);
    let kept = last_items(two, room);
    assert(kept.len() >= 2 && kept[kept.len() - 2] == first);
}

/// A search and its summary. An agent with the test provider and the
/// built-in tools, whose prompt holds the mark of a search and no tool
/// message yet, takes two rounds where it replies at all: in the first the
/// provider calls `archival_search`, which runs and asks for a heartbeat; in
/// the second the prompt holds the tool message, and the provider answers
/// with its summary. The reply is the summary, and the trace holds the one
/// call. The memory has no template, and the buffer and the prompt have
/// room for two messages.
pub proof fn lemma_search_then_summary<H: ToolHandler>(
    pre: Agent<ToyProvider, H>,
    post: Agent<ToyProvider, H>,
    r: Result<StepResult, LettaError>,
)
    requires
        replied(pre, post, r),
        pre.state.memory.template() is None,
        pre.tool_executor.is_new(),
        asks_for_search(pre),
        pre.config.max_messages >= 2,
        pre.state.messages.max_size >= 2,
    ensures
        r matches Ok(result) ==> {
            &&& result.text@ == toy_summary()
            &&& result.tool_trace.deep_view().len() == 1
            &&& exists|found: JsonValue|
                result.tool_trace.deep_view()[0] == #[trigger] trace_entry(
                    toy_search_call(),
                    found,
                )
        },
{
    if r is Ok {
        let none = Seq::<JsonValue>::empty();
        let answer = toy_answer(pre);
        assert(answer.text.len() == 0);
        assert(answer.tool_calls.len() == 1);
        assert(answer.tool_calls[0] == toy_search_call());
        if step_ended(pre, 0, none, post, r) {
            let (asked, request) = choose|
                asked: Agent<ToyProvider, H>,
                request: Result<CompletionRequest, LettaError>,
            | #[trigger]
                request_made(pre, 0, asked, request) && match request {
                    Err(e) => post == asked && r == Err::<StepResult, LettaError>(e),
                    Ok(sent) => model_failed(asked, sent, post, r) || answer_ended(
                        asked,
                        sent,
                        none,
                        post,
                        r,
                    ),
                };
            let sent = request->Ok_0;
            let (completion, post_trace, taken) = choose|
                completion: Completion,
                post_trace: Seq<JsonValue>,
                taken: Result<Option<StepResult>, LettaError>,
            | #[trigger]
                answer_absorbed(asked, none, completion, post, post_trace, taken)
                    && asked.provider.answers(sent, Ok(completion)) && match taken {
                    Ok(Some(result)) => r == Ok::<StepResult, LettaError>(result),
                    Ok(None) => false,
                    Err(e) => r == Err::<StepResult, LettaError>(e),
                };
            assert(completion@ == answer);
            assert(goes_on(completion, true) && goes_on(completion, false));
            assert(false);
        }
        let (mid, next) = choose|mid: Agent<ToyProvider, H>, next: Seq<JsonValue>| #[trigger]
            round_done(pre, 0, none, mid, next) && step_run(mid, 1, next, post, r);
        let (asked, request, completion) = choose|
            asked: Agent<ToyProvider, H>,
            request: CompletionRequest,
            completion: Completion,
        |
            #![trigger
                request_made(pre, 0, asked, Ok(request)),
                answer_absorbed(asked, none, completion, mid, next, Ok(None)),
            ]
            request_made(pre, 0, asked, Ok(request)) && asked.provider.answers(
                request,
                Ok(completion),
            ) && answer_absorbed(asked, none, completion, mid, next, Ok(None));
        assert(completion@ == answer);
        let calls = completion.tool_calls@;
        assert(completion.tool_calls.deep_view().len() == calls.len());
        assert(completion.tool_calls.deep_view()[0] == calls[0]@);
        assert(calls[0].name@ == "archival_search"@);
        let executor = asked.tool_executor;
        let start = Progress { state: asked.state, trace: none, heartbeat: false };
        let after = choose|after: Progress| #[trigger]
            calls_handled(executor, calls, calls.len(), start, after) && completion_absorbed(
                completion,
                after,
                mid.state,
                next,
                None,
            );
        let zero = (1 - 1) as nat;
        let first = choose|first: Progress|
            calls_handled(executor, calls, zero, start, first) && #[trigger] call_handled(
                executor,
                calls[1 - 1],
                first,
                after,
            );
        assert(first == start);
        let (ran, outcome) = choose|ran: AgentState, outcome: ToolResult| #[trigger]
            tool_ran(executor, calls[0], start.state, ran, Ok(outcome)) && appended(
                ran,
                after.state,
                MessageRole::Tool,
                printed(outcome.result@),
                Some(calls[0].id@),
                None,
            ) && after.trace == start.trace.push(trace_entry(calls[0]@, outcome.result@))
                && after.heartbeat == (start.heartbeat || outcome.request_heartbeat);
        lemma_new_search_handler(executor);
        assert(ran == asked.state);
        let closed = choose|closed: AgentState| #[trigger]
            batch_closed(completion, after.state, closed) && mid.state == closed && next
                == after.trace;
        let tool_message = choose|m: Message| #[trigger]
            is_new_message(
                m,
                MessageRole::Tool,
                printed(outcome.result@),
                Some(calls[0].id@),
                None,
            ) && after.state.messages.messages@ == last_items(
                ran.messages.messages@.push(m),
                ran.messages.max_size as nat,
            );
        let envelope = choose|m: Message| #[trigger]
            is_new_message(
                m,
                MessageRole::Assistant,
                Seq::empty(),
                None,
                Some(call_infos(completion.tool_calls.deep_view())),
            ) && closed.messages.messages@ == last_items(
                after.state.messages.messages@.push(m),
                after.state.messages.max_size as nat,
            );
        let room = ran.messages.max_size as nat;
        assert(room == pre.state.messages.max_size);
        let shown = mid.config.max_messages as nat;
        lemma_pushed_before_last(ran.messages.messages@, tool_message, envelope, room, shown);
        let seen = last_items(mid.state.messages.messages@, shown);
        let at = seen.len() - 2;
        assert(seen[at] == tool_message);
        lemma_line_in_prompt(
            mid.config.system_prompt@,
            blocks_text(mid.state.memory.model()),
            seen,
            at,
        );
        lemma_tool_line(tool_message);
        lemma_occurs_in_part(
            "Tool ["@,
            message_line(tool_message),
            agent_prompt(mid.config, mid.state),
        );
        assert(toy_answer(mid).tool_calls.len() == 0);
        assert(mid.state.memory == pre.state.memory);
        lemma_text_round(mid, 1, next, post, r);
        let result = r->Ok_0;
        assert(result.tool_trace.deep_view() == next);
        assert(next[0] == trace_entry(toy_search_call(), outcome.result@));
    }
}

} // verus!
