//! The context manager: it assembles the prompt under a token budget and
//! says when the conversation should be summarized.

use crate::error::LettaError;
use crate::memory::{blocks_text, capped, Memory};
use crate::message::{last_items, Message, MessageRole};
use crate::text::{
    byte_len, byte_length, lemma_occurs_in_middle, lemma_occurs_in_part, occurs_in,
};
use vstd::prelude::*;
use vstd::string::*;

verus! {

/// The token budget of a prompt and how much of it is used. The threshold
/// for summarization is a fraction, given in thousandths.
#[derive(Debug, Clone, Copy, PartialEq, Eq, Structural)]
pub struct ContextWindow {
    pub max_tokens: usize,
    pub current_tokens: usize,
    /// The used fraction of the budget at which summarization is asked
    /// for, in thousandths: 800 stands for 0.8.
    pub summarization_threshold: u32,
}

impl Default for ContextWindow {
    fn default() -> (w: ContextWindow)
        ensures
            w == (ContextWindow {
                max_tokens: 8192,
                current_tokens: 0,
                summarization_threshold: 800,
            }),
    {
        ContextWindow { max_tokens: 8192, current_tokens: 0, summarization_threshold: 800 }
    }
}

/// Whether `current` of `max` tokens reach the fraction `threshold`, given
/// in thousandths: `current / max >= threshold / 1000`. Of a budget of
/// zero, any use at all reaches every threshold, and no use reaches none.
pub open spec fn usage_reaches(current: nat, max: nat, threshold: nat) -> bool {
    if max == 0 {
        current > 0
    } else {
        current * 1000 >= threshold * max
    }
}

/// The line of a message in a prompt.
pub open spec fn message_line(m: Message) -> Seq<char> {
    match m.role {
        MessageRole::System => "System: "@ + m.content@,
        MessageRole::User => "User: "@ + m.content@,
        MessageRole::Assistant => "Assistant: "@ + m.content@,
        MessageRole::Tool => "Tool ["@ + (match m.tool_call_id {
            Some(id) => id@,
            None => "unknown"@,
        }) + "]: "@ + m.content@,
    }
}

/// The lines of a list of messages, each followed by a line break.
pub open spec fn lines_text(msgs: Seq<Message>) -> Seq<char>
    decreases msgs.len(),
{
    if msgs.len() == 0 {
        Seq::empty()
    } else {
        lines_text(msgs.drop_last()) + message_line(msgs.last()) + "\n"@
    }
}

/// The prompt: the system prompt, the rendered memory, and the lines of
/// the messages.
pub open spec fn prompt_text(
    system_prompt: Seq<char>,
    memory_text: Seq<char>,
    msgs: Seq<Message>,
) -> Seq<char> {
    "System: "@ + system_prompt + "\n\n<memory>\n"@ + memory_text
        + "</memory>\n\n<conversation>\n"@ + lines_text(msgs) + "</conversation>"@
}

/// The sum of the token estimates of a list of messages.
pub open spec fn messages_tokens(msgs: Seq<Message>) -> nat
    decreases msgs.len(),
{
    if msgs.len() == 0 {
        0
    } else {
        messages_tokens(msgs.drop_last()) + msgs.last().tokens()
    }
}

/// The token estimate of a prompt: a quarter of the bytes of the system
/// prompt, rounded up, and the estimates of the memory and of the messages.
pub open spec fn prompt_tokens(
    system_prompt: Seq<char>,
    memory_tokens: nat,
    msgs: Seq<Message>,
) -> nat {
    (byte_len(system_prompt) + 3) / 4 + memory_tokens + messages_tokens(msgs)
}

/// The content of a message as a summary shows it: its first hundred
/// characters and three dots where it is longer, else all of it.
pub open spec fn shortened(content: Seq<char>) -> Seq<char> {
    if content.len() > 100 {
        content.take(100) + "..."@
    } else {
        content
    }
}

/// The bullet of a message in a summary. Only what the user and the
/// assistant said is summarized.
pub open spec fn summary_line(m: Message) -> Seq<char> {
    match m.role {
        MessageRole::User => "- User: "@ + shortened(m.content@) + "\n"@,
        MessageRole::Assistant => "- Assistant: "@ + shortened(m.content@) + "\n"@,
        _ => Seq::empty(),
    }
}

/// The bullets of a list of messages.
pub open spec fn summary_lines(msgs: Seq<Message>) -> Seq<char>
    decreases msgs.len(),
{
    if msgs.len() == 0 {
        Seq::empty()
    } else {
        summary_lines(msgs.drop_last()) + summary_line(msgs.last())
    }
}

/// All but the last `keep_recent` messages.
pub open spec fn older_messages(msgs: Seq<Message>, keep_recent: nat) -> Seq<Message> {
    if msgs.len() <= keep_recent {
        Seq::empty()
    } else {
        msgs.take(msgs.len() - keep_recent)
    }
}

/// The summary of a conversation: a header and the bullets of all but the
/// last `keep_recent` messages.
pub open spec fn summary_text(msgs: Seq<Message>, keep_recent: nat) -> Seq<char> {
    "Previous conversation summary:\n"@ + summary_lines(older_messages(msgs, keep_recent))
}

/// Assembles prompts and keeps the token budget.
#[derive(Debug)]
pub struct ContextManager {
    pub window: ContextWindow,
}

impl ContextManager {
    /// A manager with the given budget, nothing used, and a threshold of
    /// eight tenths.
    pub fn new(max_tokens: usize) -> (c: ContextManager)
        ensures
            c.window == (ContextWindow {
                max_tokens,
                current_tokens: 0,
                summarization_threshold: 800,
            }),
    {
        ContextManager {
            window: ContextWindow { max_tokens, current_tokens: 0, summarization_threshold: 800 },
        }
    }

    /// The same manager with another threshold, given in thousandths.
    pub fn with_threshold(self, threshold: u32) -> (c: ContextManager)
        ensures
            c.window == (ContextWindow { summarization_threshold: threshold, ..self.window }),
    {
        let mut c = self;
        c.window.summarization_threshold = threshold;
        c
    }

    /// Whether the used fraction of the budget has reached the threshold.
    pub fn should_summarize(&self) -> (r: bool)
        ensures
            r == usage_reaches(
                self.window.current_tokens as nat,
                self.window.max_tokens as nat,
                self.window.summarization_threshold as nat,
            ),
    {
        if self.window.max_tokens == 0 {
            return self.window.current_tokens > 0;
        }
        let current = self.window.current_tokens as u128;
        let max = self.window.max_tokens as u128;
        let threshold = self.window.summarization_threshold as u128;
        assert(current * 1000 <= 0xffff_ffff_ffff_ffff * 1000) by (nonlinear_arith)
            requires
                current <= 0xffff_ffff_ffff_ffff,
        ;
        assert(threshold * max <= 0xffff_ffff * 0xffff_ffff_ffff_ffff) by (nonlinear_arith)
            requires
                threshold <= 0xffff_ffff,
                max <= 0xffff_ffff_ffff_ffff,
        ;
        current * 1000 >= threshold * max
    }

    /// Records how many tokens are used.
    pub fn update_usage(&mut self, tokens: usize)
        ensures
            final(self).window == (ContextWindow { current_tokens: tokens, ..old(self).window }),
    {
        self.window.current_tokens = tokens;
    }

    /// Fails where the used tokens and `additional_tokens` together exceed
    /// the budget.
    pub fn check_overflow(&self, additional_tokens: usize) -> (r: Result<(), LettaError>)
        ensures
            self.window.current_tokens + additional_tokens <= self.window.max_tokens ==> r is Ok,
            self.window.current_tokens + additional_tokens > self.window.max_tokens ==> r == Err::<
                (),
                LettaError,
            >(
                LettaError::ContextOverflow {
                    current: capped((self.window.current_tokens + additional_tokens) as nat),
                    max: self.window.max_tokens,
                },
            ),
    {
        match self.window.current_tokens.checked_add(additional_tokens) {
            Some(total) => {
                if total > self.window.max_tokens {
                    Err(LettaError::ContextOverflow { current: total, max: self.window.max_tokens })
                } else {
                    Ok(())
                }
            },
            None => Err(
                LettaError::ContextOverflow { current: usize::MAX, max: self.window.max_tokens },
            ),
        }
    }

    /// The prompt for an already rendered memory. The newest
    /// `max_messages` messages go into it. The token estimate is recorded as
    /// the tokens in use; where it exceeds the budget, the prompt is refused.
    pub fn assemble(
        &mut self,
        system_prompt: &str,
        memory_text: &str,
        memory: &Memory,
        messages: &[Message],
        max_messages: usize,
    ) -> (r: Result<String, LettaError>)
        ensures
            final(self).window == (ContextWindow {
                current_tokens: capped(
                    prompt_tokens(
                        system_prompt@,
                        memory.tokens(),
                        last_items(messages@, max_messages as nat),
                    ),
                ),
                ..old(self).window
            }),
            prompt_tokens(
                system_prompt@,
                memory.tokens(),
                last_items(messages@, max_messages as nat),
            ) <= old(self).window.max_tokens ==> (r matches Ok(p) && p@ == prompt_text(
                system_prompt@,
                memory_text@,
                last_items(messages@, max_messages as nat),
            )),
            prompt_tokens(
                system_prompt@,
                memory.tokens(),
                last_items(messages@, max_messages as nat),
            ) > old(self).window.max_tokens ==> r == Err::<String, LettaError>(
                LettaError::ContextOverflow {
                    current: final(self).window.current_tokens,
                    max: old(self).window.max_tokens,
                },
            ),
    {
        let ghost included = last_items(messages@, max_messages as nat);
        let n = messages.len();
        let start = if max_messages >= n {
            0
        } else {
            n - max_messages
        };
        assert(messages@.skip(0) =~= messages@);
        assert(included == messages@.skip(start as int));
        let prompt_bytes = byte_length(system_prompt);
        let head_tokens = if prompt_bytes % 4 == 0 {
            prompt_bytes / 4
        } else {
            prompt_bytes / 4 + 1
        };
        assert(head_tokens == (byte_len(system_prompt@) + 3) / 4);
        let mut total: Option<usize> = match memory.token_estimate_checked() {
            Some(m) => head_tokens.checked_add(m),
            None => None,
        };
        let mut prompt = "System: ".to_owned();
        prompt.append(system_prompt);
        prompt.append("\n\n<memory>\n");
        prompt.append(memory_text);
        prompt.append("</memory>\n\n<conversation>\n");
        let ghost head = prompt@;
        let mut i: usize = start;
        assert(included.take(0) =~= Seq::<Message>::empty());
        assert(prompt@ =~= head + lines_text(included.take(0)));
        while i < n
            invariant
                n == messages@.len(),
                start <= i <= n,
                included == messages@.skip(start as int),
                prompt@ == head + lines_text(included.take(i - start)),
                match total {
                    Some(t) => t == prompt_tokens(
                        system_prompt@,
                        memory.tokens(),
                        included.take(i - start),
                    ),
                    None => prompt_tokens(
                        system_prompt@,
                        memory.tokens(),
                        included.take(i - start),
                    ) > usize::MAX,
                },
            decreases n - i,
        {
            let m = &messages[i];
            proof {
                let next = included.take(i - start + 1);
                assert(next.drop_last() =~= included.take(i - start));
                assert(next.last() == *m);
            }
            let ghost before = prompt@;
            match m.role {
                MessageRole::System => {
                    prompt.append("System: ");
                },
                MessageRole::User => {
                    prompt.append("User: ");
                },
                MessageRole::Assistant => {
                    prompt.append("Assistant: ");
                },
                MessageRole::Tool => {
                    prompt.append("Tool [");
                    match &m.tool_call_id {
                        Some(id) => {
                            prompt.append(id.as_str());
                        },
                        None => {
                            prompt.append("unknown");
                        },
                    }
                    prompt.append("]: ");
                },
            }
            prompt.append(m.content.as_str());
            prompt.append("\n");
            assert(prompt@ =~= before + message_line(*m) + "\n"@);
            assert(prompt@ =~= head + lines_text(included.take(i - start + 1)));
            total = match total {
                Some(t) => t.checked_add(m.token_estimate()),
                None => None,
            };
            i += 1;
        }
        assert(included.take(n - start) =~= included);
        prompt.append("</conversation>");
        assert(prompt@ =~= prompt_text(system_prompt@, memory_text@, included));
        let max = self.window.max_tokens;
        match total {
            Some(t) => {
                self.update_usage(t);
                if t > max {
                    Err(LettaError::ContextOverflow { current: t, max })
                } else {
                    Ok(prompt)
                }
            },
            None => {
                self.update_usage(usize::MAX);
                Err(LettaError::ContextOverflow { current: usize::MAX, max })
            },
        }
    }

    /// The prompt for a memory and a conversation. The memory is rendered
    /// first, and a failure of its template is handed on. Then the prompt is
    /// assembled: it is refused exactly where its token estimate exceeds
    /// the budget.
    pub fn build_prompt(
        &mut self,
        system_prompt: &str,
        memory: &Memory,
        messages: &[Message],
        max_messages: usize,
    ) -> (r: Result<String, LettaError>)
        ensures
            final(self).window.max_tokens == old(self).window.max_tokens,
            final(self).window.summarization_threshold == old(self).window.summarization_threshold,
            match r {
                Ok(p) => {
                    &&& prompt_tokens(
                        system_prompt@,
                        memory.tokens(),
                        last_items(messages@, max_messages as nat),
                    ) <= old(self).window.max_tokens
                    &&& final(self).window.current_tokens == prompt_tokens(
                        system_prompt@,
                        memory.tokens(),
                        last_items(messages@, max_messages as nat),
                    )
                    &&& memory.template() is None ==> p@ == prompt_text(
                        system_prompt@,
                        blocks_text(memory.model()),
                        last_items(messages@, max_messages as nat),
                    )
                },
                Err(LettaError::ContextOverflow { current, max }) => {
                    &&& prompt_tokens(
                        system_prompt@,
                        memory.tokens(),
                        last_items(messages@, max_messages as nat),
                    ) > old(self).window.max_tokens
                    &&& max == old(self).window.max_tokens
                    &&& current == capped(
                        prompt_tokens(
                            system_prompt@,
                            memory.tokens(),
                            last_items(messages@, max_messages as nat),
                        ),
                    )
                    &&& final(self).window.current_tokens == current
                },
                Err(LettaError::Memory(_)) => memory.template() is Some && final(self).window
                    == old(self).window,
                Err(_) => false,
            },
    {
        let memory_text = match memory.render() {
            Ok(text) => text,
            Err(e) => {
                return Err(e);
            },
        };
        self.assemble(system_prompt, memory_text.as_str(), memory, messages, max_messages)
    }

    /// A plain summary of all but the last `keep_recent` messages: a header,
    /// then one bullet for each message of the user or the assistant, with
    /// long contents cut to a hundred characters.
    pub fn summarize_messages(&self, messages: &[Message], keep_recent: usize) -> (r: String)
        ensures
            r@ == summary_text(messages@, keep_recent as nat),
    {
        let n = messages.len();
        let end = if keep_recent >= n {
            0
        } else {
            n - keep_recent
        };
        let ghost older = older_messages(messages@, keep_recent as nat);
        assert(messages@.take(0) =~= Seq::<Message>::empty());
        assert(older =~= messages@.take(end as int));
        let mut summary = "Previous conversation summary:\n".to_owned();
        let ghost head = summary@;
        let mut i: usize = 0;
        assert(older.take(0) =~= Seq::<Message>::empty());
        assert(summary@ =~= head + summary_lines(older.take(0)));
        while i < end
            invariant
                i <= end <= n,
                n == messages@.len(),
                older == messages@.take(end as int),
                summary@ == head + summary_lines(older.take(i as int)),
            decreases end - i,
        {
            let m = &messages[i];
            proof {
                let next = older.take(i + 1);
                assert(next.drop_last() =~= older.take(i as int));
                assert(next.last() == *m);
            }
            let ghost before = summary@;
            let shown = match m.role {
                MessageRole::User => {
                    summary.append("- User: ");
                    true
                },
                MessageRole::Assistant => {
                    summary.append("- Assistant: ");
                    true
                },
                _ => false,
            };
            if shown {
                let content = m.content.as_str();
                if content.unicode_len() > 100 {
                    summary.append(content.substring_char(0, 100));
                    summary.append("...");
                } else {
                    summary.append(content);
                }
                summary.append("\n");
            }
            assert(summary@ =~= before + summary_line(*m));
            assert(summary@ =~= head + summary_lines(older.take(i + 1)));
            i += 1;
        }
        assert(older.take(end as int) =~= older);
        summary
    }
}

/// The line of every message occurs in the lines of the messages.
pub proof fn lemma_line_in_lines(msgs: Seq<Message>, i: int)
    requires
        0 <= i < msgs.len(),
    ensures
        occurs_in(message_line(msgs[i]), lines_text(msgs)),
    decreases msgs.len(),
{
    let front = lines_text(msgs.drop_last());
    let line = message_line(msgs.last());
    if i == msgs.len() - 1 {
        lemma_occurs_in_middle(front, line, "\n"@);
    } else {
        lemma_line_in_lines(msgs.drop_last(), i);
        lemma_occurs_in_middle(Seq::empty(), front, line + "\n"@);
        assert(Seq::<char>::empty() + front + (line + "\n"@) =~= lines_text(msgs));
        lemma_occurs_in_part(message_line(msgs[i]), front, lines_text(msgs));
    }
}

/// The line of every message of a prompt occurs in the prompt.
pub proof fn lemma_line_in_prompt(
    system_prompt: Seq<char>,
    memory_text: Seq<char>,
    msgs: Seq<Message>,
    i: int,
)
    requires
        0 <= i < msgs.len(),
    ensures
        occurs_in(message_line(msgs[i]), prompt_text(system_prompt, memory_text, msgs)),
{
    lemma_line_in_lines(msgs, i);
    let before = "System: "@ + system_prompt + "\n\n<memory>\n"@ + memory_text
        + "</memory>\n\n<conversation>\n"@;
    lemma_occurs_in_middle(before, lines_text(msgs), "</conversation>"@);
    lemma_occurs_in_part(
        message_line(msgs[i]),
        lines_text(msgs),
        prompt_text(system_prompt, memory_text, msgs),
    );
}

/// The line of a tool message begins with the mark of a tool message.
pub proof fn lemma_tool_line(m: Message)
    requires
        m.role == MessageRole::Tool,
    ensures
        occurs_in("Tool ["@, message_line(m)),
{
    let id = match m.tool_call_id {
        Some(id) => id@,
        None => "unknown"@,
    };
    lemma_occurs_in_middle(Seq::empty(), "Tool ["@, id + "]: "@ + m.content@);
    assert(Seq::<char>::empty() + "Tool ["@ + (id + "]: "@ + m.content@) =~= message_line(m));
}

} // verus!
