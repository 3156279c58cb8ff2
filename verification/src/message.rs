//! Chat messages and the bounded buffer that holds a conversation.

use crate::clock::{new_id, Timestamp};
use crate::json::{Json, JsonValue};
use crate::text::{byte_length, contains_ignore_case, matches_query, same_text, token_count};
use vstd::prelude::*;

verus! {

/// Who speaks in a message.
#[derive(Debug, Clone, Copy, PartialEq, Eq, Structural)]
pub enum MessageRole {
    System,
    User,
    Assistant,
    Tool,
}

impl DeepView for MessageRole {
    type V = MessageRole;

    open spec fn deep_view(&self) -> MessageRole {
        *self
    }
}

/// A tool call that an assistant message carries.
#[derive(Debug)]
pub struct ToolCallInfo {
    pub id: String,
    pub name: String,
    pub arguments: Json,
}

/// What a `ToolCallInfo` holds.
pub struct ToolCallModel {
    pub id: Seq<char>,
    pub name: Seq<char>,
    pub arguments: JsonValue,
}

impl DeepView for ToolCallInfo {
    type V = ToolCallModel;

    open spec fn deep_view(&self) -> ToolCallModel {
        ToolCallModel { id: self.id@, name: self.name@, arguments: self.arguments@ }
    }
}

impl View for ToolCallInfo {
    type V = ToolCallModel;

    open spec fn view(&self) -> ToolCallModel {
        self.deep_view()
    }
}

impl Clone for ToolCallInfo {
    fn clone(&self) -> (r: Self)
        ensures
            r@ == self@,
    {
        ToolCallInfo {
            id: self.id.clone(),
            name: self.name.clone(),
            arguments: self.arguments.clone(),
        }
    }
}

/// A copy of a list of tool calls.
pub fn copy_tool_calls(calls: &Vec<ToolCallInfo>) -> (r: Vec<ToolCallInfo>)
    ensures
        r.deep_view() == calls.deep_view(),
{
    let mut out: Vec<ToolCallInfo> = Vec::new();
    let mut i: usize = 0;
    while i < calls.len()
        invariant
            i <= calls.len(),
            out.len() == i,
            forall|j: int| 0 <= j < i ==> out@[j]@ == calls@[j]@,
        decreases calls.len() - i,
    {
        out.push(calls[i].clone());
        i += 1;
    }
    assert(out.deep_view() =~= calls.deep_view());
    out
}

/// One message of a conversation.
#[derive(Debug)]
pub struct Message {
    pub id: String,
    pub role: MessageRole,
    pub content: String,
    /// The calls that an assistant message sends out.
    pub tool_calls: Option<Vec<ToolCallInfo>>,
    /// For a tool message, the call that it answers.
    pub tool_call_id: Option<String>,
    pub timestamp: Timestamp,
    /// A JSON object of free-form data.
    pub metadata: Json,
}

/// What a `Message` holds.
pub struct MessageModel {
    pub id: Seq<char>,
    pub role: MessageRole,
    pub content: Seq<char>,
    pub tool_calls: Option<Seq<ToolCallModel>>,
    pub tool_call_id: Option<Seq<char>>,
    pub timestamp: Seq<char>,
    pub metadata: JsonValue,
}

impl DeepView for Message {
    type V = MessageModel;

    open spec fn deep_view(&self) -> MessageModel {
        MessageModel {
            id: self.id@,
            role: self.role,
            content: self.content@,
            tool_calls: self.tool_calls.deep_view(),
            tool_call_id: self.tool_call_id.deep_view(),
            timestamp: self.timestamp@,
            metadata: self.metadata@,
        }
    }
}

impl View for Message {
    type V = MessageModel;

    open spec fn view(&self) -> MessageModel {
        self.deep_view()
    }
}

impl Clone for Message {
    fn clone(&self) -> (r: Self)
        ensures
            r@ == self@,
    {
        let tool_calls = match &self.tool_calls {
            Some(calls) => Some(copy_tool_calls(calls)),
            None => None,
        };
        let tool_call_id = match &self.tool_call_id {
            Some(id) => Some(id.clone()),
            None => None,
        };
        Message {
            id: self.id.clone(),
            role: self.role,
            content: self.content.clone(),
            tool_calls,
            tool_call_id,
            timestamp: self.timestamp.clone(),
            metadata: self.metadata.clone(),
        }
    }
}

/// A JSON object without members.
pub open spec fn empty_object() -> JsonValue {
    JsonValue::Object(Map::empty())
}

/// What a freshly made message holds, apart from its identifier and time.
pub open spec fn fresh_message(
    m: Message,
    role: MessageRole,
    content: Seq<char>,
    tool_call_id: Option<Seq<char>>,
) -> bool {
    &&& m.role == role
    &&& m.content@ == content
    &&& m.tool_calls is None
    &&& m.tool_call_id.deep_view() == tool_call_id
    &&& m.metadata@ == empty_object()
    &&& m.id@.len() == 36
}

impl Message {
    fn fresh(role: MessageRole, content: &str, tool_call_id: Option<String>) -> (m: Message)
        ensures
            fresh_message(m, role, content@, tool_call_id.deep_view()),
    {
        let metadata = Json::empty_object();
        Message {
            id: new_id(),
            role,
            content: content.to_owned(),
            tool_calls: None,
            tool_call_id,
            timestamp: Timestamp::now(),
            metadata,
        }
    }

    /// A new system message.
    pub fn system(content: &str) -> (m: Message)
        ensures
            fresh_message(m, MessageRole::System, content@, None),
    {
        Message::fresh(MessageRole::System, content, None)
    }

    /// A new user message.
    pub fn user(content: &str) -> (m: Message)
        ensures
            fresh_message(m, MessageRole::User, content@, None),
    {
        Message::fresh(MessageRole::User, content, None)
    }

    /// A new assistant message.
    pub fn assistant(content: &str) -> (m: Message)
        ensures
            fresh_message(m, MessageRole::Assistant, content@, None),
    {
        Message::fresh(MessageRole::Assistant, content, None)
    }

    /// A new tool message that answers the call `tool_call_id`.
    pub fn tool(tool_call_id: String, content: &str) -> (m: Message)
        ensures
            fresh_message(m, MessageRole::Tool, content@, Some(tool_call_id@)),
    {
        Message::fresh(MessageRole::Tool, content, Some(tool_call_id))
    }

    /// The same message with `calls` attached.
    pub fn with_tool_calls(self, calls: Vec<ToolCallInfo>) -> (m: Message)
        ensures
            m@ == (MessageModel { tool_calls: Some(calls.deep_view()), ..self@ }),
            m.tool_calls == Some(calls),
            m.role == self.role,
            m.content == self.content,
    {
        let mut m = self;
        m.tool_calls = Some(calls);
        m
    }

    /// The token estimate of the message as a number.
    pub open spec fn tokens(&self) -> nat {
        token_count(self.content@)
    }

    /// Rough size of the message in tokens: a quarter of its bytes.
    pub fn token_estimate(&self) -> (n: usize)
        ensures
            n == self.tokens(),
    {
        byte_length(self.content.as_str()) / 4
    }
}

/// The name of a role in documents.
pub open spec fn role_name(role: MessageRole) -> Seq<char> {
    match role {
        MessageRole::System => "system"@,
        MessageRole::User => "user"@,
        MessageRole::Assistant => "assistant"@,
        MessageRole::Tool => "tool"@,
    }
}

/// The role that a name stands for.
pub open spec fn role_of_name(name: Seq<char>) -> Option<MessageRole> {
    if name == "system"@ {
        Some(MessageRole::System)
    } else if name == "user"@ {
        Some(MessageRole::User)
    } else if name == "assistant"@ {
        Some(MessageRole::Assistant)
    } else if name == "tool"@ {
        Some(MessageRole::Tool)
    } else {
        None
    }
}

/// The names of the roles differ.
pub proof fn lemma_role_names()
    ensures
        "system"@ != "user"@,
        "system"@ != "assistant"@,
        "system"@ != "tool"@,
        "user"@ != "assistant"@,
        "user"@ != "tool"@,
        "assistant"@ != "tool"@,
{
    reveal_strlit("system");
    reveal_strlit("user");
    reveal_strlit("assistant");
    reveal_strlit("tool");
    assert("system"@.len() == 6);
    assert("user"@.len() == 4);
    assert("assistant"@.len() == 9);
    assert("tool"@.len() == 4);
    assert("user"@[0] != "tool"@[0]);
}

/// The name of a role stands for the role.
pub proof fn lemma_role_round_trip(role: MessageRole)
    ensures
        role_of_name(role_name(role)) == Some(role),
{
    lemma_role_names();
}

impl MessageRole {
    /// The name of the role in documents.
    pub fn name(&self) -> (r: &'static str)
        ensures
            r@ == role_name(*self),
    {
        match self {
            MessageRole::System => "system",
            MessageRole::User => "user",
            MessageRole::Assistant => "assistant",
            MessageRole::Tool => "tool",
        }
    }

    /// The role that a name stands for.
    pub fn from_name(name: &str) -> (r: Option<MessageRole>)
        ensures
            r == role_of_name(name@),
    {
        if same_text(name, "system") {
            Some(MessageRole::System)
        } else if same_text(name, "user") {
            Some(MessageRole::User)
        } else if same_text(name, "assistant") {
            Some(MessageRole::Assistant)
        } else if same_text(name, "tool") {
            Some(MessageRole::Tool)
        } else {
            None
        }
    }
}

/// The messages of `msgs` whose content holds `query`, letter case ignored,
/// in their order.
pub open spec fn matching(msgs: Seq<Message>, query: Seq<char>) -> Seq<Message>
    decreases msgs.len(),
{
    if msgs.len() == 0 {
        Seq::empty()
    } else {
        let rest = matching(msgs.drop_last(), query);
        if matches_query(msgs.last().content@, query) {
            rest.push(msgs.last())
        } else {
            rest
        }
    }
}

/// The first `limit` items of `s`, or all of them where there are fewer.
pub open spec fn at_most<A>(s: Seq<A>, limit: nat) -> Seq<A> {
    if s.len() <= limit {
        s
    } else {
        s.take(limit as int)
    }
}

/// The last `count` items of `s`, or all of them where there are fewer.
pub open spec fn last_items<A>(s: Seq<A>, count: nat) -> Seq<A> {
    if s.len() <= count {
        s
    } else {
        s.skip(s.len() - count)
    }
}

/// Keeping the last `k` items after each addition is keeping the last `k`
/// items of all.
pub proof fn lemma_last_items_push<A>(s: Seq<A>, x: A, k: nat)
    ensures
        last_items(last_items(s, k).push(x), k) == last_items(s.push(x), k),
{
    assert(last_items(last_items(s, k).push(x), k) =~= last_items(s.push(x), k));
}

/// A conversation that keeps at most `max_size` messages, the newest ones.
#[derive(Debug)]
pub struct MessageBuffer {
    pub messages: Vec<Message>,
    pub max_size: usize,
}

impl MessageBuffer {
    /// An empty buffer.
    pub fn new(max_size: usize) -> (b: MessageBuffer)
        ensures
            b.messages@.len() == 0,
            b.max_size == max_size,
    {
        MessageBuffer { messages: Vec::new(), max_size }
    }

    /// The number of messages held.
    pub fn len(&self) -> (n: usize)
        ensures
            n == self.messages@.len(),
    {
        self.messages.len()
    }

    /// Appends `message`, then drops messages from the front until at most
    /// `max_size` are left.
    pub fn push(&mut self, message: Message)
        ensures
            final(self).messages@ == last_items(
                old(self).messages@.push(message),
                old(self).max_size as nat,
            ),
            final(self).max_size == old(self).max_size,
            final(self).messages@.len() <= final(self).max_size,
    {
        let ghost all = self.messages@.push(message);
        self.messages.push(message);
        assert(self.messages@.skip(0) =~= self.messages@);
        while self.messages.len() > self.max_size
            invariant
                self.max_size == old(self).max_size,
                all == old(self).messages@.push(message),
                self.messages@.len() <= all.len(),
                self.messages@.len() == all.len() || self.messages@.len() >= self.max_size,
                self.messages@ == all.skip(all.len() - self.messages@.len()),
            decreases self.messages.len(),
        {
            let ghost before = self.messages@;
            self.messages.remove(0);
            assert(self.messages@ =~= all.skip(all.len() - self.messages@.len()));
        }
    }

    /// Up to `limit` messages whose content holds `query`, letter case
    /// ignored, in buffer order.
    pub fn search(&self, query: &str, limit: usize) -> (found: Vec<&Message>)
        ensures
            found@.len() == at_most(matching(self.messages@, query@), limit as nat).len(),
            forall|i: int|
                0 <= i < found@.len() ==> *found@[i] == at_most(
                    matching(self.messages@, query@),
                    limit as nat,
                )[i],
    {
        let mut found: Vec<&Message> = Vec::new();
        let mut i: usize = 0;
        assert(self.messages@.take(0) =~= Seq::empty());
        while i < self.messages.len()
            invariant
                i <= self.messages.len(),
                found@.len() == at_most(
                    matching(self.messages@.take(i as int), query@),
                    limit as nat,
                ).len(),
                forall|j: int|
                    0 <= j < found@.len() ==> *found@[j] == at_most(
                        matching(self.messages@.take(i as int), query@),
                        limit as nat,
                    )[j],
            decreases self.messages.len() - i,
        {
            let m = &self.messages[i];
            let hit = contains_ignore_case(m.content.as_str(), query);
            proof {
                let next = self.messages@.take(i + 1);
                assert(next.drop_last() =~= self.messages@.take(i as int));
                assert(next.last() == self.messages@[i as int]);
            }
            if hit && found.len() < limit {
                found.push(m);
            }
            i += 1;
        }
        assert(self.messages@.take(i as int) =~= self.messages@);
        found
    }

    /// The last `count` messages, oldest first.
    pub fn get_recent(&self, count: usize) -> (recent: Vec<&Message>)
        ensures
            recent@.len() == last_items(self.messages@, count as nat).len(),
            forall|i: int|
                0 <= i < recent@.len() ==> *recent@[i] == last_items(self.messages@, count as nat)[i],
    {
        let n = self.messages.len();
        let start = if count >= n {
            0
        } else {
            n - count
        };
        let mut recent: Vec<&Message> = Vec::new();
        let mut i: usize = start;
        assert(self.messages@.skip(0) =~= self.messages@);
        while i < n
            invariant
                n == self.messages@.len(),
                start <= i <= n,
                recent@.len() == i - start,
                forall|j: int| 0 <= j < recent@.len() ==> *recent@[j] == self.messages@[start + j],
            decreases n - i,
        {
            recent.push(&self.messages[i]);
            i += 1;
        }
        recent
    }

    /// Removes every message.
    pub fn clear(&mut self)
        ensures
            final(self).messages@.len() == 0,
            final(self).max_size == old(self).max_size,
    {
        self.messages.clear();
    }
}

} // verus!
