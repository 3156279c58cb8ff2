use letta_lite::error::LettaError;
use letta_lite::memory::{default_limit, BasicMemory, ChatMemory, Memory, MemoryBlock, MemoryType};

#[test]
fn test_memory_block_operations() {
    let mut block = MemoryBlock::new("test", "Test block", "initial");

    assert!(block.replace("new value").is_ok());
    assert_eq!(block.value, "new value");

    assert!(block.append("appended").is_ok());
    assert!(block.value.contains("new value"));
    assert!(block.value.contains("appended"));

    let long_text = "x".repeat(3000);
    assert!(block.replace(&long_text).is_err());
}

#[test]
fn test_chat_memory() {
    let mut memory = Memory::new_chat();

    assert!(memory.get_block("persona").is_some());
    assert!(memory.get_block("human").is_some());

    assert!(memory.set_block("human", "User is Alice").is_ok());
    assert_eq!(memory.get_block("human").unwrap().value, "User is Alice");

    assert!(memory.set_block("custom", "Custom data").is_ok());
    assert!(memory.get_block("custom").is_some());
}

#[test]
fn block_new_has_default_limit() {
    let block = MemoryBlock::new("a", "b", "c");
    assert_eq!(block.label, "a");
    assert_eq!(block.description, "b");
    assert_eq!(block.value, "c");
    assert_eq!(block.limit, 2000);
    assert_eq!(default_limit(), 2000);
    let narrow = block.with_limit(10);
    assert_eq!(narrow.limit, 10);
    assert_eq!(narrow.value, "c");
}

#[test]
fn block_replace_at_the_limit() {
    let mut block = MemoryBlock::new("a", "", "").with_limit(5);
    assert!(block.replace("12345").is_ok());
    assert_eq!(block.value, "12345");
    let err = block.replace("123456").unwrap_err();
    assert!(matches!(err, LettaError::Memory(_)));
    assert_eq!(err.to_string(), "Memory error: Value exceeds limit: 6 > 5");
    assert_eq!(block.value, "12345");
}

#[test]
fn block_append_joins_with_a_line_break() {
    let mut block = MemoryBlock::new("a", "", "one");
    block.append("two").unwrap();
    assert_eq!(block.value, "one\ntwo");
}

#[test]
fn block_append_keeps_the_end() {
    let mut block = MemoryBlock::new("a", "", "abcdef").with_limit(8);
    block.append("ghij").unwrap();
    // "abcdef\nghij" has 11 bytes, the last 8 stay
    assert_eq!(block.value, "def\nghij");
    assert!(block.value.len() <= block.limit);
}

#[test]
fn block_append_does_not_split_a_character() {
    let mut block = MemoryBlock::new("a", "", "").with_limit(4);
    // "\n" + "aé€" is 1 + 1 + 2 + 3 = 7 bytes; the cut at byte 3 falls inside "é"
    block.append("aé€").unwrap();
    assert_eq!(block.value, "€");
    let mut other = MemoryBlock::new("a", "", "").with_limit(5);
    other.append("aé€").unwrap();
    assert_eq!(other.value, "é€");
}

#[test]
fn block_append_with_limit_zero_leaves_nothing() {
    let mut block = MemoryBlock::new("a", "", "").with_limit(0);
    block.append("x").unwrap();
    assert_eq!(block.value, "");
}

#[test]
fn block_clear_empties_the_value() {
    let mut block = MemoryBlock::new("a", "b", "c");
    block.clear();
    assert_eq!(block.value, "");
    assert_eq!(block.label, "a");
}

#[test]
fn chat_memory_starts_with_persona_and_human() {
    let chat = ChatMemory::new();
    assert_eq!(chat.blocks.len(), 2);
    assert_eq!(chat.blocks[0].label, "persona");
    assert_eq!(chat.blocks[0].description, "Agent's personality and behavior");
    assert_eq!(chat.blocks[0].value, "I am a helpful AI assistant.");
    assert_eq!(chat.blocks[1].label, "human");
    assert_eq!(chat.blocks[1].description, "Information about the user");
    assert_eq!(chat.blocks[1].value, "User preferences and context will be stored here.");
    assert!(chat.template.is_none());
    let basic = BasicMemory::new();
    assert!(basic.blocks.is_empty());
}

#[test]
fn memory_kinds() {
    assert!(matches!(Memory::new_chat().memory_type, MemoryType::Chat(_)));
    let basic = Memory::new_basic();
    assert!(matches!(basic.memory_type, MemoryType::Basic(_)));
    assert!(basic.blocks().is_empty());
    assert_eq!(basic.render().unwrap(), "");
    assert_eq!(basic.token_estimate(), 0);
}

#[test]
fn set_block_creates_with_default_description() {
    let mut memory = Memory::new_basic();
    memory.set_block("notes", "hello").unwrap();
    let block = memory.get_block("notes").unwrap();
    assert_eq!(block.description, "User-defined block");
    assert_eq!(block.limit, 2000);
    assert_eq!(block.value, "hello");
    assert!(memory.get_block("other").is_none());
}

#[test]
fn set_block_rejects_an_oversize_value_for_a_new_block() {
    let mut memory = Memory::new_chat();
    let err = memory.set_block("test", &"x".repeat(3000)).unwrap_err();
    assert!(matches!(err, LettaError::Memory(_)));
    assert!(memory.get_block("test").is_none());
    assert!(memory.set_block("test", &"x".repeat(2000)).is_ok());
    assert!(memory.set_block("test", &"x".repeat(2001)).is_err());
    assert_eq!(memory.get_block("test").unwrap().value.len(), 2000);
}

#[test]
fn set_then_get_returns_the_value() {
    let mut memory = Memory::new_chat();
    memory.set_block("persona", "v1").unwrap();
    assert_eq!(memory.get_block("persona").unwrap().value, "v1");
    assert_eq!(
        memory.get_block("human").unwrap().value,
        "User preferences and context will be stored here."
    );
    assert_eq!(memory.blocks().len(), 2);
}

#[test]
fn append_block_needs_the_block() {
    let mut memory = Memory::new_chat();
    let err = memory.append_block("missing", "x").unwrap_err();
    assert_eq!(err.to_string(), "Memory error: Block 'missing' not found");
    memory.append_block("persona", "More.").unwrap();
    assert_eq!(memory.get_block("persona").unwrap().value, "I am a helpful AI assistant.\nMore.");
}

#[test]
fn append_block_keeps_the_suffix_within_the_limit() {
    let mut memory = Memory::new_basic();
    memory.insert_block(MemoryBlock::new("log", "", "0123456789").with_limit(12));
    memory.append_block("log", "abcdef").unwrap();
    let block = memory.get_block("log").unwrap();
    assert_eq!(block.value, "56789\nabcdef");
    assert!(block.value.len() <= block.limit);
}

#[test]
fn insert_block_replaces_by_label() {
    let mut memory = Memory::new_chat();
    memory.insert_block(MemoryBlock::new("human", "d", "v").with_limit(7));
    assert_eq!(memory.blocks().len(), 2);
    let block = memory.get_block("human").unwrap();
    assert_eq!(block.description, "d");
    assert_eq!(block.limit, 7);
}

#[test]
fn default_rendering() {
    let mut memory = Memory::new_basic();
    memory.set_block("a", "one").unwrap();
    memory.set_block("b", "two").unwrap();
    assert_eq!(
        memory.render().unwrap(),
        "<a_block>\none\n</a_block>\n\n<b_block>\ntwo\n</b_block>\n\n"
    );
    assert_eq!(memory.render_default(), memory.render().unwrap());
}

#[test]
fn token_estimate_sums_quarters() {
    let mut memory = Memory::new_basic();
    memory.set_block("a", "12345678").unwrap();
    memory.set_block("b", "123").unwrap();
    memory.set_block("c", "12345").unwrap();
    assert_eq!(memory.token_estimate(), 2 + 0 + 1);
    assert_eq!(memory.token_estimate_checked(), Some(3));
    // the default chat blocks take 28 and 49 bytes
    assert_eq!(Memory::new_chat().token_estimate(), 7 + 12);
}

#[test]
fn template_rendering_binds_labels_to_values() {
    let chat = ChatMemory::new().with_template("P={{ persona }};H={{ human }}").unwrap();
    let memory = Memory { memory_type: MemoryType::Chat(chat) };
    assert_eq!(
        memory.render().unwrap(),
        "P=I am a helpful AI assistant.;H=User preferences and context will be stored here."
    );
}

#[test]
fn template_failures_are_memory_errors() {
    let err = ChatMemory::new().with_template("{{ unclosed").unwrap_err();
    assert!(matches!(err, LettaError::Memory(_)));
    let chat = ChatMemory::new().with_template("{{ missing_variable }}").unwrap();
    let memory = Memory { memory_type: MemoryType::Chat(chat) };
    assert!(matches!(memory.render().unwrap_err(), LettaError::Memory(_)));
}

#[test]
fn get_block_mut_and_blocks_mut_reach_the_blocks() {
    let mut memory = Memory::new_chat();
    memory.get_block_mut("human").unwrap().value = "changed".to_string();
    assert_eq!(memory.get_block("human").unwrap().value, "changed");
    assert!(memory.get_block_mut("nobody").is_none());
    memory.blocks_mut().clear();
    assert!(memory.blocks().is_empty());
    assert_eq!(memory.find("human"), None);
}

#[test]
fn from_blocks_installs_and_refuses() {
    let memory = Memory::from_blocks(
        false,
        vec![
            MemoryBlock::new("a", "first", "1"),
            MemoryBlock::new("b", "", "2"),
            MemoryBlock::new("a", "second", "3"),
        ],
    )
    .unwrap();
    assert!(matches!(memory.memory_type, MemoryType::Basic(_)));
    assert_eq!(memory.blocks().len(), 2);
    assert_eq!(memory.get_block("a").unwrap().description, "second");
    assert_eq!(memory.get_block("a").unwrap().value, "3");
    let chat = Memory::from_blocks(true, vec![]).unwrap();
    assert!(matches!(chat.memory_type, MemoryType::Chat(_)));
    assert!(chat.blocks().is_empty());
    let err = Memory::from_blocks(true, vec![MemoryBlock::new("a", "", "12345").with_limit(4)]).unwrap_err();
    assert_eq!(err.to_string(), "Memory error: Value exceeds limit: 5 > 4");
}
