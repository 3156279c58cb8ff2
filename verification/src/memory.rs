//! The memory of an agent: labelled text blocks of bounded size that are
//! rendered into every prompt.

use crate::error::LettaError;
use crate::text::{
    byte_len, byte_length, concat3, decimal, fitting_suffix, keep_tail, lemma_fitting_suffix,
    push_decimal, same_text, token_count,
};
use crate::template::{
    add_template, context_entries, context_insert, engine_names, new_context, new_engine,
    no_entries, no_names, render_template, template_accepted, template_error_text,
};
use vstd::prelude::*;
use vstd::string::*;

verus! {

/// The size limit of a block that is given none, in bytes.
pub open spec fn default_limit_spec() -> usize {
    2000
}

/// The size limit of a block that is given none, in bytes.
#[verifier::when_used_as_spec(default_limit_spec)]
pub fn default_limit() -> (n: usize)
    ensures
        n == 2000,
{
    2000
}

/// A labelled piece of text of bounded size.
#[derive(Debug)]
pub struct MemoryBlock {
    pub label: String,
    pub description: String,
    pub value: String,
    /// The most bytes that `value` may take.
    pub limit: usize,
}

/// What a `MemoryBlock` holds.
pub struct BlockModel {
    pub label: Seq<char>,
    pub description: Seq<char>,
    pub value: Seq<char>,
    pub limit: nat,
}

impl DeepView for MemoryBlock {
    type V = BlockModel;

    open spec fn deep_view(&self) -> BlockModel {
        BlockModel {
            label: self.label@,
            description: self.description@,
            value: self.value@,
            limit: self.limit as nat,
        }
    }
}

impl View for MemoryBlock {
    type V = BlockModel;

    open spec fn view(&self) -> BlockModel {
        self.deep_view()
    }
}

impl Clone for MemoryBlock {
    fn clone(&self) -> (r: Self)
        ensures
            r@ == self@,
    {
        MemoryBlock {
            label: self.label.clone(),
            description: self.description.clone(),
            value: self.value.clone(),
            limit: self.limit,
        }
    }
}

impl BlockModel {
    /// The value fits the limit.
    pub open spec fn wf(self) -> bool {
        byte_len(self.value) <= self.limit
    }
}

/// The message of the failure to store `len` bytes under a limit of `limit`.
pub open spec fn exceeds_message(len: nat, limit: nat) -> Seq<char> {
    "Value exceeds limit: "@ + decimal(len) + " > "@ + decimal(limit)
}

/// `old` and `text` joined by a line break.
pub open spec fn joined(old: Seq<char>, text: Seq<char>) -> Seq<char> {
    old + "\n"@ + text
}

pub(crate) fn exceeds_error(len: usize, limit: usize) -> (e: LettaError)
    ensures
        e matches LettaError::Memory(m) && m@ == exceeds_message(len as nat, limit as nat),
{
    let mut m = "Value exceeds limit: ".to_owned();
    push_decimal(&mut m, len);
    m.append(" > ");
    push_decimal(&mut m, limit);
    LettaError::Memory(m)
}

impl MemoryBlock {
    /// The value fits the limit.
    pub open spec fn wf(&self) -> bool {
        self@.wf()
    }

    /// A block with the default limit.
    pub fn new(label: &str, description: &str, value: &str) -> (b: MemoryBlock)
        ensures
            b@ == (BlockModel {
                label: label@,
                description: description@,
                value: value@,
                limit: default_limit() as nat,
            }),
            b.wf() <==> byte_len(value@) <= default_limit(),
    {
        MemoryBlock {
            label: label.to_owned(),
            description: description.to_owned(),
            value: value.to_owned(),
            limit: default_limit(),
        }
    }

    /// The same block with another limit.
    pub fn with_limit(self, limit: usize) -> (b: MemoryBlock)
        ensures
            b@ == (BlockModel { limit: limit as nat, ..self@ }),
            b.wf() <==> byte_len(self.value@) <= limit,
    {
        let mut b = self;
        b.limit = limit;
        b
    }

    /// Stores `new_value`, unless it takes more bytes than the limit.
    pub fn replace(&mut self, new_value: &str) -> (r: Result<(), LettaError>)
        ensures
            byte_len(new_value@) <= old(self).limit ==> r is Ok && final(self)@ == (BlockModel {
                value: new_value@,
                ..old(self)@
            }),
            byte_len(new_value@) > old(self).limit ==> *final(self) == *old(self) && (r matches Err(
                LettaError::Memory(m),
            ) && m@ == exceeds_message(byte_len(new_value@), old(self).limit as nat)),
            r is Ok ==> final(self).wf(),
    {
        let n = byte_length(new_value);
        if n > self.limit {
            return Err(exceeds_error(n, self.limit));
        }
        self.value = new_value.to_owned();
        Ok(())
    }

    /// Appends a line break and `text`. Where the result would exceed the
    /// limit, characters are dropped from its front until it fits.
    pub fn append(&mut self, text: &str) -> (r: Result<(), LettaError>)
        ensures
            r is Ok,
            final(self)@ == (BlockModel {
                value: fitting_suffix(joined(old(self).value@, text@), old(self).limit as nat),
                ..old(self)@
            }),
            final(self).wf(),
    {
        let new_value = concat3(self.value.as_str(), "\n", text);
        proof {
            lemma_fitting_suffix(new_value@, self.limit as nat);
        }
        self.value = keep_tail(new_value.as_str(), self.limit);
        Ok(())
    }

    /// Empties the value.
    pub fn clear(&mut self)
        ensures
            final(self)@ == (BlockModel { value: Seq::empty(), ..old(self)@ }),
            final(self).wf(),
    {
        self.value = String::new();
        assert(vstd::utf8::encode_utf8(Seq::<char>::empty()).len() == 0);
    }
}

/// The position of the first block that bears `label`.
pub open spec fn position(blocks: Seq<BlockModel>, label: Seq<char>) -> Option<int>
    decreases blocks.len(),
{
    if blocks.len() == 0 {
        None
    } else {
        match position(blocks.drop_last(), label) {
            Some(i) => Some(i),
            None => if blocks.last().label == label {
                Some(blocks.len() - 1)
            } else {
                None
            },
        }
    }
}

/// The first block that bears `label`.
pub open spec fn lookup(blocks: Seq<BlockModel>, label: Seq<char>) -> Option<BlockModel> {
    match position(blocks, label) {
        Some(i) => Some(blocks[i]),
        None => None,
    }
}

/// Every block fits its limit and no label occurs twice.
pub open spec fn blocks_wf(blocks: Seq<BlockModel>) -> bool {
    &&& forall|i: int| 0 <= i < blocks.len() ==> (#[trigger] blocks[i]).wf()
    &&& forall|i: int, j: int|
        0 <= i < j < blocks.len() ==> (#[trigger] blocks[i]).label != (#[trigger] blocks[j]).label
}

/// What `position` finds: the first index that bears the label.
pub proof fn lemma_position(blocks: Seq<BlockModel>, label: Seq<char>)
    ensures
        match position(blocks, label) {
            Some(i) => 0 <= i < blocks.len() && blocks[i].label == label && forall|j: int|
                0 <= j < i ==> (#[trigger] blocks[j]).label != label,
            None => forall|j: int| 0 <= j < blocks.len() ==> (#[trigger] blocks[j]).label != label,
        },
    decreases blocks.len(),
{
    if blocks.len() > 0 {
        lemma_position(blocks.drop_last(), label);
        match position(blocks.drop_last(), label) {
            Some(i) => {
                assert(blocks.drop_last()[i] == blocks[i]);
                assert forall|j: int| 0 <= j < i implies (#[trigger] blocks[j]).label != label by {
                    assert(blocks.drop_last()[j] == blocks[j]);
                }
            },
            None => {
                assert forall|j: int| 0 <= j < blocks.len() - 1 implies (#[trigger] blocks[j]).label
                    != label by {
                    assert(blocks.drop_last()[j] == blocks[j]);
                }
            },
        }
    }
}

/// The first index that bears the label is what `position` finds.
pub proof fn lemma_position_is(blocks: Seq<BlockModel>, label: Seq<char>, i: int)
    requires
        0 <= i < blocks.len(),
        blocks[i].label == label,
        forall|j: int| 0 <= j < i ==> (#[trigger] blocks[j]).label != label,
    ensures
        position(blocks, label) == Some(i),
{
    lemma_position(blocks, label);
}

/// What the default rendering emits for one block.
pub open spec fn block_text(b: BlockModel) -> Seq<char> {
    "<"@ + b.label + "_block>\n"@ + b.value + "\n</"@ + b.label + "_block>\n\n"@
}

/// The default rendering of a list of blocks: each block in its form, in
/// the order of the list.
pub open spec fn blocks_text(blocks: Seq<BlockModel>) -> Seq<char>
    decreases blocks.len(),
{
    if blocks.len() == 0 {
        Seq::empty()
    } else {
        blocks_text(blocks.drop_last()) + block_text(blocks.last())
    }
}

/// The sum of the token estimates of the values of a list of blocks.
pub open spec fn blocks_tokens(blocks: Seq<BlockModel>) -> nat
    decreases blocks.len(),
{
    if blocks.len() == 0 {
        0
    } else {
        blocks_tokens(blocks.drop_last()) + token_count(blocks.last().value)
    }
}

/// The description of a block that `set_block` creates.
pub open spec fn user_block(label: Seq<char>, value: Seq<char>) -> BlockModel {
    BlockModel {
        label,
        description: "User-defined block"@,
        value,
        limit: default_limit() as nat,
    }
}

/// The blocks after `set_block(label, value)`, or `None` where the value
/// is rejected as too large.
pub open spec fn blocks_after_set(
    blocks: Seq<BlockModel>,
    label: Seq<char>,
    value: Seq<char>,
) -> Option<Seq<BlockModel>> {
    match position(blocks, label) {
        Some(i) => if byte_len(value) <= blocks[i].limit {
            Some(blocks.update(i, BlockModel { value, ..blocks[i] }))
        } else {
            None
        },
        None => if byte_len(value) <= default_limit() {
            Some(blocks.push(user_block(label, value)))
        } else {
            None
        },
    }
}

/// The limit that `set_block(label, ..)` holds a value to.
pub open spec fn limit_for(blocks: Seq<BlockModel>, label: Seq<char>) -> nat {
    match position(blocks, label) {
        Some(i) => blocks[i].limit,
        None => default_limit() as nat,
    }
}

/// The blocks after `append_block(label, text)`, or `None` where no block
/// bears the label.
pub open spec fn blocks_after_append(
    blocks: Seq<BlockModel>,
    label: Seq<char>,
    text: Seq<char>,
) -> Option<Seq<BlockModel>> {
    match position(blocks, label) {
        Some(i) => Some(
            blocks.update(
                i,
                BlockModel {
                    value: fitting_suffix(joined(blocks[i].value, text), blocks[i].limit),
                    ..blocks[i]
                },
            ),
        ),
        None => None,
    }
}

/// The blocks after `block` is installed: it takes the place of the first
/// block of its label, or comes last where there is none.
pub open spec fn blocks_after_insert(blocks: Seq<BlockModel>, block: BlockModel) -> Seq<
    BlockModel,
> {
    match position(blocks, block.label) {
        Some(i) => blocks.update(i, block),
        None => blocks.push(block),
    }
}

/// The blocks of a memory that is made of a list of blocks, installed one
/// after the other. `Err` holds the first block that does not fit its
/// limit.
pub open spec fn collected(blocks: Seq<BlockModel>) -> Result<Seq<BlockModel>, BlockModel>
    decreases blocks.len(),
{
    if blocks.len() == 0 {
        Ok(Seq::empty())
    } else {
        match collected(blocks.drop_last()) {
            Err(b) => Err(b),
            Ok(before) => if blocks.last().wf() {
                Ok(blocks_after_insert(before, blocks.last()))
            } else {
                Err(blocks.last())
            },
        }
    }
}

/// A block that does not fit among the first blocks is the block that does
/// not fit among all.
pub proof fn lemma_collected_prefix_err(blocks: Seq<BlockModel>, k: int)
    requires
        0 <= k <= blocks.len(),
        collected(blocks.take(k)) is Err,
    ensures
        collected(blocks) == collected(blocks.take(k)),
    decreases blocks.len() - k,
{
    if k < blocks.len() {
        let next = blocks.take(k + 1);
        assert(next.drop_last() =~= blocks.take(k));
        lemma_collected_prefix_err(blocks, k + 1);
    } else {
        assert(blocks.take(k) =~= blocks);
    }
}

/// The message of the failure to find a block.
pub open spec fn not_found_message(label: Seq<char>) -> Seq<char> {
    "Block '"@ + label + "' not found"@
}

/// A memory for conversations: it starts with the blocks `persona` and
/// `human`, and may carry a template for its rendering.
#[derive(Debug)]
pub struct ChatMemory {
    pub blocks: Vec<MemoryBlock>,
    /// The compiled template, kept under the name `memory`.
    pub template: Option<tera::Tera>,
}

/// A memory that starts empty.
#[derive(Debug)]
pub struct BasicMemory {
    pub blocks: Vec<MemoryBlock>,
}

/// The two kinds of memory.
#[derive(Debug)]
pub enum MemoryType {
    Chat(ChatMemory),
    Basic(BasicMemory),
}

/// The memory of an agent.
#[derive(Debug)]
pub struct Memory {
    pub memory_type: MemoryType,
}

/// The two blocks that a chat memory starts with.
pub open spec fn default_chat_blocks() -> Seq<BlockModel> {
    seq![
        BlockModel {
            label: "persona"@,
            description: "Agent's personality and behavior"@,
            value: "I am a helpful AI assistant."@,
            limit: default_limit() as nat,
        },
        BlockModel {
            label: "human"@,
            description: "Information about the user"@,
            value: "User preferences and context will be stored here."@,
            limit: default_limit() as nat,
        },
    ]
}

impl ChatMemory {
    /// A chat memory with its two default blocks and no template.
    pub fn new() -> (m: ChatMemory)
        ensures
            m.blocks.deep_view() == default_chat_blocks(),
            m.template is None,
    {
        let mut blocks: Vec<MemoryBlock> = Vec::new();
        blocks.push(
            MemoryBlock::new(
                "persona",
                "Agent's personality and behavior",
                "I am a helpful AI assistant.",
            ),
        );
        blocks.push(
            MemoryBlock::new(
                "human",
                "Information about the user",
                "User preferences and context will be stored here.",
            ),
        );
        assert(blocks.deep_view() =~= default_chat_blocks());
        ChatMemory { blocks, template: None }
    }

    /// The memory with the outcome of compiling a template: the compiled
    /// template is installed, a failure of the engine is a `Memory` error
    /// with the engine's message.
    pub fn with_compiled(self, engine: tera::Tera, outcome: Result<(), String>) -> (r: Result<
        ChatMemory,
        LettaError,
    >)
        ensures
            match outcome {
                Ok(_) => r matches Ok(m) && m.blocks == self.blocks && m.template == Some(engine),
                Err(message) => r matches Err(LettaError::Memory(m)) && m@ == message@,
            },
    {
        match outcome {
            Ok(_) => Ok(ChatMemory { blocks: self.blocks, template: Some(engine) }),
            Err(message) => Err(LettaError::Memory(message)),
        }
    }

    /// The memory with `template_str` as its template. The template is
    /// compiled by a new engine under the name `memory`; the engine decides
    /// whether it is accepted, and a template that it rejects is a `Memory`
    /// error.
    pub fn with_template(self, template_str: &str) -> (r: Result<ChatMemory, LettaError>)
        ensures
            match r {
                Ok(m) => {
                    &&& template_accepted(template_name(), template_str@)
                    &&& m.blocks == self.blocks
                    &&& m.template matches Some(engine) && engine_names(engine)
                        == no_names().insert(template_name())
                },
                Err(e) => !template_accepted(template_name(), template_str@) && e is Memory,
            },
    {
        let mut engine = new_engine();
        let outcome = match add_template(&mut engine, "memory", template_str) {
            Ok(_) => Ok(()),
            Err(e) => Err(template_error_text(&e)),
        };
        self.with_compiled(engine, outcome)
    }
}

/// The name under which the template of a memory is kept in its engine.
pub open spec fn template_name() -> Seq<char> {
    "memory"@
}

impl BasicMemory {
    /// A memory without blocks.
    pub fn new() -> (m: BasicMemory)
        ensures
            m.blocks@.len() == 0,
    {
        BasicMemory { blocks: Vec::new() }
    }
}

/// The bindings that a template is rendered with: each label bound to the
/// value of its block, a later block of the same label replacing an earlier.
pub open spec fn bindings_of(blocks: Seq<BlockModel>) -> Map<Seq<char>, Seq<char>>
    decreases blocks.len(),
{
    if blocks.len() == 0 {
        no_entries()
    } else {
        bindings_of(blocks.drop_last()).insert(blocks.last().label, blocks.last().value)
    }
}

impl Memory {
    /// The blocks, in the order in which they were added.
    pub open spec fn block_list(&self) -> Vec<MemoryBlock> {
        match self.memory_type {
            MemoryType::Chat(m) => m.blocks,
            MemoryType::Basic(m) => m.blocks,
        }
    }

    /// What the blocks hold, in the order in which they were added.
    pub open spec fn model(&self) -> Seq<BlockModel> {
        self.block_list().deep_view()
    }

    /// The template that the memory carries, if any.
    pub open spec fn template(&self) -> Option<tera::Tera> {
        match self.memory_type {
            MemoryType::Chat(m) => m.template,
            MemoryType::Basic(_) => None,
        }
    }

    /// Whether this is a chat memory.
    pub open spec fn is_chat(&self) -> bool {
        self.memory_type is Chat
    }

    /// Every block fits its limit and no label occurs twice.
    pub open spec fn wf(&self) -> bool {
        blocks_wf(self.model())
    }

    /// A chat memory with its default blocks.
    pub fn new_chat() -> (m: Memory)
        ensures
            m.is_chat(),
            m.model() == default_chat_blocks(),
            m.template() is None,
            m.wf(),
    {
        let m = Memory { memory_type: MemoryType::Chat(ChatMemory::new()) };
        proof {
            lemma_default_chat_blocks_wf();
        }
        m
    }

    /// A basic memory, without blocks.
    pub fn new_basic() -> (m: Memory)
        ensures
            !m.is_chat(),
            m.model() == Seq::<BlockModel>::empty(),
            m.template() is None,
            m.wf(),
    {
        let m = Memory { memory_type: MemoryType::Basic(BasicMemory::new()) };
        assert(m.model() =~= Seq::<BlockModel>::empty());
        m
    }

    /// The blocks, in the order in which they were added.
    pub fn blocks(&self) -> (r: &Vec<MemoryBlock>)
        ensures
            *r == self.block_list(),
    {
        match &self.memory_type {
            MemoryType::Chat(m) => &m.blocks,
            MemoryType::Basic(m) => &m.blocks,
        }
    }

    /// The blocks, to be changed in place. Whoever changes them keeps the
    /// memory well-formed or not.
    pub fn blocks_mut(&mut self) -> (r: &mut Vec<MemoryBlock>)
        ensures
            *r == old(self).block_list(),
            final(self).block_list() == *final(r),
            final(self).is_chat() == old(self).is_chat(),
            final(self).template() == old(self).template(),
    {
        match &mut self.memory_type {
            MemoryType::Chat(m) => &mut m.blocks,
            MemoryType::Basic(m) => &mut m.blocks,
        }
    }

    /// The index of the first block that bears `label`.
    pub fn find(&self, label: &str) -> (r: Option<usize>)
        ensures
            match r {
                Some(i) => position(self.model(), label@) == Some(i as int),
                None => position(self.model(), label@) is None,
            },
    {
        let blocks = self.blocks();
        let mut i: usize = 0;
        while i < blocks.len()
            invariant
                i <= blocks.len(),
                *blocks == self.block_list(),
                forall|j: int| 0 <= j < i ==> (#[trigger] self.model()[j]).label != label@,
            decreases blocks.len() - i,
        {
            if same_text(blocks[i].label.as_str(), label) {
                proof {
                    assert(self.model()[i as int].label == label@);
                    lemma_position_is(self.model(), label@, i as int);
                }
                return Some(i);
            }
            assert(self.model()[i as int].label != label@);
            i += 1;
        }
        proof {
            lemma_position(self.model(), label@);
        }
        None
    }

    /// The block that bears `label`.
    pub fn get_block(&self, label: &str) -> (r: Option<&MemoryBlock>)
        ensures
            r.deep_view() == lookup(self.model(), label@),
    {
        match self.find(label) {
            Some(i) => {
                proof {
                    lemma_position(self.model(), label@);
                }
                Some(&self.blocks()[i])
            },
            None => None,
        }
    }
}

impl Memory {
    /// Stores `value` in the block `label`. A block that is not there yet
    /// is created with the default limit. A value that takes more bytes
    /// than the block's limit is rejected, and nothing changes.
    pub fn set_block(&mut self, label: &str, value: &str) -> (r: Result<(), LettaError>)
        ensures
            match blocks_after_set(old(self).model(), label@, value@) {
                Some(blocks) => r is Ok && final(self).model() == blocks,
                None => final(self).model() == old(self).model() && (r matches Err(
                    LettaError::Memory(m),
                ) && m@ == exceeds_message(
                    byte_len(value@),
                    limit_for(old(self).model(), label@),
                )),
            },
            final(self).is_chat() == old(self).is_chat(),
            final(self).template() == old(self).template(),
            r is Ok ==> (lookup(final(self).model(), label@) matches Some(b) && b.value == value@),
            forall|other: Seq<char>|
                other != label@ ==> lookup(final(self).model(), other) == lookup(
                    old(self).model(),
                    other,
                ),
            old(self).wf() ==> final(self).wf(),
    {
        proof {
            lemma_position(self.model(), label@);
            lemma_set_block(self.model(), label@, value@);
        }
        match self.find(label) {
            Some(i) => {
                let blocks = self.blocks_mut();
                let ghost before = blocks.deep_view();
                let r = blocks[i].replace(value);
                assert(r is Ok ==> blocks.deep_view() =~= before.update(
                    i as int,
                    BlockModel { value: value@, ..before[i as int] },
                ));
                assert(r is Err ==> blocks.deep_view() =~= before);
                r
            },
            None => {
                let n = byte_length(value);
                if n > default_limit() {
                    return Err(exceeds_error(n, default_limit()));
                }
                let blocks = self.blocks_mut();
                let ghost before = blocks.deep_view();
                blocks.push(MemoryBlock::new(label, "User-defined block", value));
                assert(blocks.deep_view() =~= before.push(user_block(label@, value@)));
                Ok(())
            },
        }
    }

    /// A memory of the given kind, without a template, that holds the
    /// given blocks: they are installed one after the other, so that of two
    /// blocks of one label the later stays. A block that does not fit its
    /// limit is refused.
    #[verifier::loop_isolation(false)]
    pub fn from_blocks(chat: bool, blocks: Vec<MemoryBlock>) -> (r: Result<Memory, LettaError>)
        ensures
            match collected(blocks.deep_view()) {
                Ok(list) => r matches Ok(m) && m.model() == list && m.is_chat() == chat
                    && m.template() is None && m.wf(),
                Err(b) => r matches Err(LettaError::Memory(text)) && text@ == exceeds_message(
                    byte_len(b.value),
                    b.limit,
                ),
            },
    {
        let empty: Vec<MemoryBlock> = Vec::new();
        assert(empty.deep_view() =~= Seq::<BlockModel>::empty());
        let mut memory = if chat {
            Memory { memory_type: MemoryType::Chat(ChatMemory { blocks: empty, template: None }) }
        } else {
            Memory { memory_type: MemoryType::Basic(BasicMemory { blocks: empty }) }
        };
        let ghost all = blocks.deep_view();
        let mut i: usize = 0;
        assert(all.take(0) =~= Seq::<BlockModel>::empty());
        while i < blocks.len()
            invariant
                i <= blocks.len(),
                collected(all.take(i as int)) == Ok::<Seq<BlockModel>, BlockModel>(memory.model()),
                memory.is_chat() == chat,
                memory.template() is None,
                memory.wf(),
            decreases blocks.len() - i,
        {
            let block = blocks[i].clone();
            proof {
                let next = all.take(i + 1);
                assert(next.drop_last() =~= all.take(i as int));
                assert(next.last() == block@);
            }
            let n = byte_length(block.value.as_str());
            if n > block.limit {
                proof {
                    lemma_collected_prefix_err(all, i + 1);
                }
                return Err(exceeds_error(n, block.limit));
            }
            memory.insert_block(block);
            i += 1;
        }
        assert(all.take(i as int) =~= all);
        Ok(memory)
    }

    /// Installs `block` under its label, in place of the block that bore
    /// the label before.
    pub fn insert_block(&mut self, block: MemoryBlock)
        ensures
            final(self).model() == blocks_after_insert(old(self).model(), block@),
            final(self).is_chat() == old(self).is_chat(),
            final(self).template() == old(self).template(),
            old(self).wf() && block.wf() ==> final(self).wf(),
    {
        proof {
            lemma_position(self.model(), block.label@);
            lemma_insert_block(self.model(), block@);
        }
        match self.find(block.label.as_str()) {
            Some(i) => {
                let blocks = self.blocks_mut();
                let ghost before = blocks.deep_view();
                blocks[i] = block;
                assert(blocks.deep_view() =~= before.update(i as int, block@));
            },
            None => {
                let blocks = self.blocks_mut();
                let ghost before = blocks.deep_view();
                blocks.push(block);
                assert(blocks.deep_view() =~= before.push(block@));
            },
        }
    }

    /// Appends a line break and `text` to the block `label`, keeping the
    /// end of the result where it exceeds the block's limit. Fails where no
    /// block bears the label.
    pub fn append_block(&mut self, label: &str, text: &str) -> (r: Result<(), LettaError>)
        ensures
            match blocks_after_append(old(self).model(), label@, text@) {
                Some(blocks) => r is Ok && final(self).model() == blocks,
                None => final(self).model() == old(self).model() && (r matches Err(
                    LettaError::Memory(m),
                ) && m@ == not_found_message(label@)),
            },
            final(self).is_chat() == old(self).is_chat(),
            final(self).template() == old(self).template(),
            forall|other: Seq<char>|
                other != label@ ==> lookup(final(self).model(), other) == lookup(
                    old(self).model(),
                    other,
                ),
            old(self).wf() ==> final(self).wf(),
    {
        proof {
            lemma_position(self.model(), label@);
            lemma_append_block(self.model(), label@, text@);
        }
        match self.find(label) {
            Some(i) => {
                let blocks = self.blocks_mut();
                let ghost before = blocks.deep_view();
                let r = blocks[i].append(text);
                assert(blocks.deep_view() =~= before.update(
                    i as int,
                    BlockModel {
                        value: fitting_suffix(
                            joined(before[i as int].value, text@),
                            before[i as int].limit,
                        ),
                        ..before[i as int]
                    },
                ));
                r
            },
            None => Err(LettaError::Memory(concat3("Block '", label, "' not found"))),
        }
    }
}

/// The smaller of a number and the largest `usize`.
pub open spec fn capped(n: nat) -> usize {
    if n <= usize::MAX {
        n as usize
    } else {
        usize::MAX
    }
}

impl Memory {
    /// The block that bears `label`, to be changed in place.
    pub fn get_block_mut(&mut self, label: &str) -> (r: Option<&mut MemoryBlock>)
        ensures
            match position(old(self).model(), label@) {
                Some(i) => r matches Some(b) && *b == old(self).block_list()@[i]
                    && final(self).block_list()@ == old(self).block_list()@.update(i, *final(b)),
                None => r is None && final(self).block_list() == old(self).block_list(),
            },
            final(self).is_chat() == old(self).is_chat(),
            final(self).template() == old(self).template(),
    {
        proof {
            lemma_position(self.model(), label@);
        }
        match self.find(label) {
            Some(i) => {
                let blocks = self.blocks_mut();
                Some(&mut blocks[i])
            },
            None => None,
        }
    }

    /// The default rendering: every block in the form
    /// `<L_block>`, line break, value, line break, `</L_block>`, two line
    /// breaks.
    pub fn render_default(&self) -> (r: String)
        ensures
            r@ == blocks_text(self.model()),
    {
        let blocks = self.blocks();
        let mut out = String::new();
        let mut i: usize = 0;
        assert(self.model().take(0) =~= Seq::<BlockModel>::empty());
        while i < blocks.len()
            invariant
                i <= blocks.len(),
                *blocks == self.block_list(),
                out@ == blocks_text(self.model().take(i as int)),
            decreases blocks.len() - i,
        {
            let b = &blocks[i];
            proof {
                let next = self.model().take(i + 1);
                assert(next.drop_last() =~= self.model().take(i as int));
                assert(next.last() == b@);
            }
            let ghost before = out@;
            out.append("<");
            out.append(b.label.as_str());
            out.append("_block>\n");
            out.append(b.value.as_str());
            out.append("\n</");
            out.append(b.label.as_str());
            out.append("_block>\n\n");
            assert(out@ =~= before + block_text(b@));
            i += 1;
        }
        assert(self.model().take(i as int) =~= self.model());
        out
    }

    /// What `render` returns for each outcome of the template engine: the
    /// text, or a `Memory` error with the engine's message.
    pub fn render_outcome(outcome: Result<String, String>) -> (r: Result<String, LettaError>)
        ensures
            match outcome {
                Ok(text) => r matches Ok(t) && t@ == text@,
                Err(message) => r matches Err(LettaError::Memory(m)) && m@ == message@,
            },
    {
        match outcome {
            Ok(text) => Ok(text),
            Err(message) => Err(LettaError::Memory(message)),
        }
    }

    /// The bindings that the template is rendered with.
    fn template_context(&self) -> (c: tera::Context)
        ensures
            context_entries(c) == bindings_of(self.model()),
    {
        let blocks = self.blocks();
        let mut context = new_context();
        let mut i: usize = 0;
        assert(self.model().take(0) =~= Seq::<BlockModel>::empty());
        while i < blocks.len()
            invariant
                i <= blocks.len(),
                *blocks == self.block_list(),
                context_entries(context) == bindings_of(self.model().take(i as int)),
            decreases blocks.len() - i,
        {
            let b = &blocks[i];
            proof {
                let next = self.model().take(i + 1);
                assert(next.drop_last() =~= self.model().take(i as int));
                assert(next.last() == b@);
            }
            context_insert(&mut context, b.label.as_str(), b.value.as_str());
            i += 1;
        }
        assert(self.model().take(i as int) =~= self.model());
        context
    }

    /// The memory as prompt text. Without a template this is the default
    /// rendering. With a template the engine renders it, with every label
    /// bound to the value of its block; a failure of the engine is a
    /// `Memory` error.
    pub fn render(&self) -> (r: Result<String, LettaError>)
        ensures
            self.template() is None ==> (r matches Ok(t) && t@ == blocks_text(self.model())),
            r matches Err(e) ==> e is Memory,
    {
        match &self.memory_type {
            MemoryType::Chat(chat) => {
                match &chat.template {
                    Some(engine) => {
                        let context = self.template_context();
                        let outcome = match render_template(engine, "memory", &context) {
                            Ok(text) => Ok(text),
                            Err(e) => Err(template_error_text(&e)),
                        };
                        Memory::render_outcome(outcome)
                    },
                    None => Ok(self.render_default()),
                }
            },
            MemoryType::Basic(_) => Ok(self.render_default()),
        }
    }

    /// The token estimate of the memory as a number: the sum of the
    /// estimates of the values of its blocks.
    pub open spec fn tokens(&self) -> nat {
        blocks_tokens(self.model())
    }

    /// Rough size of the memory in tokens, or `None` where it exceeds the
    /// largest `usize`.
    pub fn token_estimate_checked(&self) -> (n: Option<usize>)
        ensures
            match n {
                Some(n) => n == self.tokens(),
                None => self.tokens() > usize::MAX,
            },
    {
        let blocks = self.blocks();
        let mut total: Option<usize> = Some(0);
        let mut i: usize = 0;
        assert(self.model().take(0) =~= Seq::<BlockModel>::empty());
        while i < blocks.len()
            invariant
                i <= blocks.len(),
                *blocks == self.block_list(),
                match total {
                    Some(n) => n == blocks_tokens(self.model().take(i as int)),
                    None => blocks_tokens(self.model().take(i as int)) > usize::MAX,
                },
            decreases blocks.len() - i,
        {
            let b = &blocks[i];
            proof {
                let next = self.model().take(i + 1);
                assert(next.drop_last() =~= self.model().take(i as int));
                assert(next.last() == b@);
            }
            total = match total {
                Some(n) => n.checked_add(byte_length(b.value.as_str()) / 4),
                None => None,
            };
            i += 1;
        }
        assert(self.model().take(i as int) =~= self.model());
        total
    }

    /// Rough size of the memory in tokens, which stops at the largest
    /// `usize`.
    pub fn token_estimate(&self) -> (n: usize)
        ensures
            n == capped(self.tokens()),
    {
        match self.token_estimate_checked() {
            Some(n) => n,
            None => usize::MAX,
        }
    }
}

/// Changing the value of one block leaves the positions of all labels as
/// they were.
pub proof fn lemma_position_after_update(
    blocks: Seq<BlockModel>,
    i: int,
    value: Seq<char>,
    label: Seq<char>,
)
    requires
        0 <= i < blocks.len(),
    ensures
        position(blocks.update(i, BlockModel { value, ..blocks[i] }), label) == position(
            blocks,
            label,
        ),
{
    let after = blocks.update(i, BlockModel { value, ..blocks[i] });
    lemma_position(blocks, label);
    lemma_position(after, label);
    match position(blocks, label) {
        Some(p) => {
            assert(after[p].label == label);
            assert forall|j: int| 0 <= j < p implies (#[trigger] after[j]).label != label by {
                assert(blocks[j].label != label);
            }
            lemma_position_is(after, label, p);
        },
        None => {
            assert forall|j: int| 0 <= j < after.len() implies (#[trigger] after[j]).label
                != label by {
                assert(blocks[j].label != label);
            }
            match position(after, label) {
                Some(q) => {
                    assert(after[q].label == label);
                },
                None => {},
            }
        },
    }
}

/// Adding a block at the end leaves the position of every label that was
/// found as it was, and gives the new label the last position where it was
/// not found.
pub proof fn lemma_position_after_push(blocks: Seq<BlockModel>, b: BlockModel, label: Seq<char>)
    ensures
        position(blocks.push(b), label) == match position(blocks, label) {
            Some(p) => Some(p),
            None => if b.label == label {
                Some(blocks.len() as int)
            } else {
                None
            },
        },
{
    assert(blocks.push(b).drop_last() =~= blocks);
}

/// After `set_block(L, v)` the block `L` holds `v`, every other label finds
/// what it found before, and a well-formed list of blocks stays so.
pub proof fn lemma_set_block(blocks: Seq<BlockModel>, label: Seq<char>, value: Seq<char>)
    ensures
        match blocks_after_set(blocks, label, value) {
            Some(after) => {
                &&& (lookup(after, label) matches Some(b) && b.value == value)
                &&& forall|other: Seq<char>|
                    other != label ==> lookup(after, other) == lookup(blocks, other)
                &&& blocks_wf(blocks) ==> blocks_wf(after)
            },
            None => true,
        },
{
    lemma_position(blocks, label);
    match blocks_after_set(blocks, label, value) {
        Some(after) => {
            match position(blocks, label) {
                Some(i) => {
                    lemma_position_after_update(blocks, i, value, label);
                    assert forall|other: Seq<char>| other != label implies lookup(after, other)
                        == lookup(blocks, other) by {
                        lemma_position_after_update(blocks, i, value, other);
                        lemma_position(blocks, other);
                    }
                    if blocks_wf(blocks) {
                        assert forall|k: int| 0 <= k < after.len() implies (#[trigger] after[k]).wf() by {
                            if k != i {
                                assert(blocks[k].wf());
                            }
                        }
                        assert forall|k: int, j: int| 0 <= k < j < after.len() implies (
                        #[trigger] after[k]).label != (#[trigger] after[j]).label by {
                            assert(blocks[k].label != blocks[j].label);
                        }
                    }
                },
                None => {
                    let b = user_block(label, value);
                    lemma_position_after_push(blocks, b, label);
                    assert forall|other: Seq<char>| other != label implies lookup(after, other)
                        == lookup(blocks, other) by {
                        lemma_position_after_push(blocks, b, other);
                        lemma_position(blocks, other);
                    }
                    if blocks_wf(blocks) {
                        assert forall|k: int| 0 <= k < after.len() implies (#[trigger] after[k]).wf() by {
                            if k < blocks.len() {
                                assert(blocks[k].wf());
                            }
                        }
                        assert forall|k: int, j: int| 0 <= k < j < after.len() implies (
                        #[trigger] after[k]).label != (#[trigger] after[j]).label by {
                            if j < blocks.len() {
                                assert(blocks[k].label != blocks[j].label);
                            } else {
                                assert(blocks[k].label != label);
                            }
                        }
                    }
                },
            }
        },
        None => {},
    }
}

/// Replacing a block by one of the same label leaves the positions of all
/// labels as they were.
pub proof fn lemma_position_after_replace(
    blocks: Seq<BlockModel>,
    i: int,
    block: BlockModel,
    label: Seq<char>,
)
    requires
        0 <= i < blocks.len(),
        blocks[i].label == block.label,
    ensures
        position(blocks.update(i, block), label) == position(blocks, label),
{
    let after = blocks.update(i, block);
    lemma_position(blocks, label);
    lemma_position(after, label);
    match position(blocks, label) {
        Some(p) => {
            assert(after[p].label == label);
            assert forall|j: int| 0 <= j < p implies (#[trigger] after[j]).label != label by {
                assert(blocks[j].label != label);
            }
            lemma_position_is(after, label, p);
        },
        None => {
            match position(after, label) {
                Some(q) => {
                    assert(blocks[q].label == label);
                },
                None => {},
            }
        },
    }
}

/// After a block is installed its label finds it, every other label finds
/// what it found before, and a well-formed list of blocks stays so where
/// the block fits its limit.
pub proof fn lemma_insert_block(blocks: Seq<BlockModel>, block: BlockModel)
    ensures
        lookup(blocks_after_insert(blocks, block), block.label) == Some(block),
        forall|other: Seq<char>|
            other != block.label ==> lookup(blocks_after_insert(blocks, block), other) == lookup(
                blocks,
                other,
            ),
        blocks_wf(blocks) && block.wf() ==> blocks_wf(blocks_after_insert(blocks, block)),
{
    let after = blocks_after_insert(blocks, block);
    lemma_position(blocks, block.label);
    match position(blocks, block.label) {
        Some(i) => {
            lemma_position_after_replace(blocks, i, block, block.label);
            assert forall|other: Seq<char>| other != block.label implies lookup(after, other)
                == lookup(blocks, other) by {
                lemma_position_after_replace(blocks, i, block, other);
                lemma_position(blocks, other);
            }
            if blocks_wf(blocks) && block.wf() {
                assert forall|k: int| 0 <= k < after.len() implies (#[trigger] after[k]).wf() by {
                    if k != i {
                        assert(blocks[k].wf());
                    }
                }
                assert forall|k: int, j: int| 0 <= k < j < after.len() implies (
                #[trigger] after[k]).label != (#[trigger] after[j]).label by {
                    assert(blocks[k].label != blocks[j].label);
                }
            }
        },
        None => {
            lemma_position_after_push(blocks, block, block.label);
            assert forall|other: Seq<char>| other != block.label implies lookup(after, other)
                == lookup(blocks, other) by {
                lemma_position_after_push(blocks, block, other);
                lemma_position(blocks, other);
            }
            if blocks_wf(blocks) && block.wf() {
                assert forall|k: int| 0 <= k < after.len() implies (#[trigger] after[k]).wf() by {
                    if k < blocks.len() {
                        assert(blocks[k].wf());
                    }
                }
                assert forall|k: int, j: int| 0 <= k < j < after.len() implies (
                #[trigger] after[k]).label != (#[trigger] after[j]).label by {
                    if j < blocks.len() {
                        assert(blocks[k].label != blocks[j].label);
                    } else {
                        assert(blocks[k].label != block.label);
                    }
                }
            }
        },
    }
}

/// After `append_block(L, t)` every other label finds what it found before,
/// the block `L` holds the end of the joined text and fits its limit, and a
/// well-formed list of blocks stays so.
pub proof fn lemma_append_block(blocks: Seq<BlockModel>, label: Seq<char>, text: Seq<char>)
    ensures
        match blocks_after_append(blocks, label, text) {
            Some(after) => {
                &&& (lookup(after, label) matches Some(b) && (lookup(blocks, label) matches Some(a)
                    && b.value == fitting_suffix(joined(a.value, text), a.limit) && b.wf()))
                &&& forall|other: Seq<char>|
                    other != label ==> lookup(after, other) == lookup(blocks, other)
                &&& blocks_wf(blocks) ==> blocks_wf(after)
            },
            None => true,
        },
{
    lemma_position(blocks, label);
    match position(blocks, label) {
        Some(i) => {
            let value = fitting_suffix(joined(blocks[i].value, text), blocks[i].limit);
            let after = blocks.update(i, BlockModel { value, ..blocks[i] });
            lemma_fitting_suffix(joined(blocks[i].value, text), blocks[i].limit);
            lemma_position_after_update(blocks, i, value, label);
            assert forall|other: Seq<char>| other != label implies lookup(after, other) == lookup(
                blocks,
                other,
            ) by {
                lemma_position_after_update(blocks, i, value, other);
                lemma_position(blocks, other);
            }
            if blocks_wf(blocks) {
                assert forall|k: int| 0 <= k < after.len() implies (#[trigger] after[k]).wf() by {
                    if k != i {
                        assert(blocks[k].wf());
                    }
                }
                assert forall|k: int, j: int| 0 <= k < j < after.len() implies (
                #[trigger] after[k]).label != (#[trigger] after[j]).label by {
                    assert(blocks[k].label != blocks[j].label);
                }
            }
        },
        None => {},
    }
}

/// The default blocks of a chat memory fit their limits and differ in
/// their labels.
pub proof fn lemma_default_chat_blocks_wf()
    ensures
        blocks_wf(default_chat_blocks()),
{
    reveal_strlit("persona");
    reveal_strlit("human");
    reveal_strlit("I am a helpful AI assistant.");
    reveal_strlit("User preferences and context will be stored here.");
    let b = default_chat_blocks();
    assert(b[0].label.len() == 7);
    assert(b[1].label.len() == 5);
    lemma_byte_len_bound(b[0].value);
    lemma_byte_len_bound(b[1].value);
}

/// A text takes at most four bytes for each of its characters.
pub proof fn lemma_byte_len_bound(s: Seq<char>)
    ensures
        byte_len(s) <= 4 * s.len(),
    decreases s.len(),
{
    if s.len() > 0 {
        lemma_byte_len_bound(s.drop_first());
    }
}

} // verus!
