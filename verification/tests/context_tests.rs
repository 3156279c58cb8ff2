use letta_lite::context::{ContextManager, ContextWindow};
use letta_lite::error::LettaError;
use letta_lite::memory::{ChatMemory, Memory, MemoryType};
use letta_lite::message::Message;

#[test]
fn context_test_context_overflow() {
    let mut ctx = ContextManager::new(1000);
    ctx.update_usage(800);

    assert!(ctx.check_overflow(100).is_ok());
    assert!(ctx.check_overflow(300).is_err());
}

#[test]
fn test_summarization_trigger() {
    // a threshold of 0.8 is written in thousandths
    let mut ctx = ContextManager::new(1000).with_threshold(800);

    ctx.update_usage(700);
    assert!(!ctx.should_summarize());

    ctx.update_usage(850);
    assert!(ctx.should_summarize());
}

#[test]
fn default_window() {
    let w = ContextWindow::default();
    assert_eq!(w.max_tokens, 8192);
    assert_eq!(w.current_tokens, 0);
    assert_eq!(w.summarization_threshold, 800);
    let ctx = ContextManager::new(50);
    assert_eq!(ctx.window.max_tokens, 50);
    assert_eq!(ctx.window.summarization_threshold, 800);
}

#[test]
fn check_overflow_reports_current_and_max() {
    let mut ctx = ContextManager::new(1000);
    ctx.update_usage(800);
    assert!(ctx.check_overflow(200).is_ok());
    match ctx.check_overflow(201).unwrap_err() {
        LettaError::ContextOverflow { current, max } => {
            assert_eq!(current, 1001);
            assert_eq!(max, 1000);
        }
        other => panic!("unexpected error: {:?}", other),
    }
    match ctx.check_overflow(usize::MAX).unwrap_err() {
        LettaError::ContextOverflow { current, max } => {
            assert_eq!(current, usize::MAX);
            assert_eq!(max, 1000);
        }
        other => panic!("unexpected error: {:?}", other),
    }
    assert_eq!(
        ctx.check_overflow(201).unwrap_err().to_string(),
        "Context overflow: current 1001, max 1000"
    );
}

#[test]
fn should_summarize_at_the_threshold() {
    let mut ctx = ContextManager::new(1000).with_threshold(800);
    ctx.update_usage(799);
    assert!(!ctx.should_summarize());
    ctx.update_usage(800);
    assert!(ctx.should_summarize());
    let mut zero = ContextManager::new(0);
    assert!(!zero.should_summarize());
    zero.update_usage(1);
    assert!(zero.should_summarize());
    let mut never = ContextManager::new(10).with_threshold(0);
    never.update_usage(0);
    assert!(never.should_summarize());
}

#[test]
fn build_prompt_has_the_documented_form() {
    let mut ctx = ContextManager::new(1000);
    let mut memory = Memory::new_basic();
    memory.set_block("persona", "P").unwrap();
    let messages = vec![
        Message::system("s"),
        Message::user("u"),
        Message::assistant("a"),
        Message::tool("call_7".to_string(), "t"),
    ];
    let prompt = ctx.build_prompt("SYS", &memory, &messages, 10).unwrap();
    assert_eq!(
        prompt,
        "System: SYS\n\n<memory>\n<persona_block>\nP\n</persona_block>\n\n</memory>\n\n<conversation>\nSystem: s\nUser: u\nAssistant: a\nTool [call_7]: t\n</conversation>"
    );
}

#[test]
fn build_prompt_without_messages() {
    let mut ctx = ContextManager::new(1000);
    let memory = Memory::new_basic();
    let prompt = ctx.build_prompt("X", &memory, &[], 10).unwrap();
    assert_eq!(prompt, "System: X\n\n<memory>\n</memory>\n\n<conversation>\n</conversation>");
    assert_eq!(ctx.window.current_tokens, 1);
}

#[test]
fn build_prompt_takes_the_newest_messages() {
    let mut ctx = ContextManager::new(1000);
    let memory = Memory::new_basic();
    let messages = vec![Message::user("one"), Message::user("two"), Message::user("three")];
    let prompt = ctx.build_prompt("", &memory, &messages, 2).unwrap();
    assert!(!prompt.contains("one"));
    assert!(prompt.contains("User: two\nUser: three\n</conversation>"));
    let none = ctx.build_prompt("", &memory, &messages, 0).unwrap();
    assert!(none.ends_with("<conversation>\n</conversation>"));
}

#[test]
fn build_prompt_names_an_unknown_tool_call() {
    let mut ctx = ContextManager::new(1000);
    let memory = Memory::new_basic();
    let mut m = Message::tool("x".to_string(), "body");
    m.tool_call_id = None;
    let prompt = ctx.build_prompt("", &memory, &[m], 5).unwrap();
    assert!(prompt.contains("Tool [unknown]: body\n"));
}

#[test]
fn build_prompt_counts_tokens() {
    let mut ctx = ContextManager::new(1000);
    let mut memory = Memory::new_basic();
    memory.set_block("a", "12345678").unwrap();
    let messages = vec![Message::user("abcdefgh"), Message::user("abc")];
    // the system prompt takes 5 bytes, rounded up to 2 tokens
    ctx.build_prompt("12345", &memory, &messages, 10).unwrap();
    assert_eq!(ctx.window.current_tokens, 2 + 2 + 2 + 0);
    // only the messages that go into the prompt count
    ctx.build_prompt("12345", &memory, &messages, 1).unwrap();
    assert_eq!(ctx.window.current_tokens, 2 + 2 + 0);
}

#[test]
fn build_prompt_overflows_exactly_above_the_budget() {
    let memory = Memory::new_basic();
    let messages = vec![Message::user(&"x".repeat(40))];
    let mut fits = ContextManager::new(10);
    assert!(fits.build_prompt("", &memory, &messages, 10).is_ok());
    assert_eq!(fits.window.current_tokens, 10);
    let mut tight = ContextManager::new(9);
    match tight.build_prompt("", &memory, &messages, 10).unwrap_err() {
        LettaError::ContextOverflow { current, max } => {
            assert_eq!(current, 10);
            assert_eq!(max, 9);
        }
        other => panic!("unexpected error: {:?}", other),
    }
    assert_eq!(tight.window.current_tokens, 10);
}

#[test]
fn build_prompt_hands_on_a_template_failure() {
    let chat = ChatMemory::new().with_template("{{ nobody }}").unwrap();
    let memory = Memory { memory_type: MemoryType::Chat(chat) };
    let mut ctx = ContextManager::new(1000);
    ctx.update_usage(5);
    let err = ctx.build_prompt("", &memory, &[], 10).unwrap_err();
    assert!(matches!(err, LettaError::Memory(_)));
    assert_eq!(ctx.window.current_tokens, 5);
}

#[test]
fn summarize_messages_lists_the_older_ones() {
    let ctx = ContextManager::new(1000);
    let long = "y".repeat(150);
    let messages = vec![
        Message::user("first"),
        Message::system("skipped"),
        Message::assistant(&long),
        Message::tool("c".to_string(), "skipped too"),
        Message::user("recent"),
    ];
    let summary = ctx.summarize_messages(&messages, 1);
    let expected = format!(
        "Previous conversation summary:\n- User: first\n- Assistant: {}...\n",
        "y".repeat(100)
    );
    assert_eq!(summary, expected);
    assert_eq!(ctx.summarize_messages(&messages, 5), "Previous conversation summary:\n");
    assert_eq!(ctx.summarize_messages(&messages, 9), "Previous conversation summary:\n");
}

#[test]
fn summarize_messages_cuts_at_characters() {
    let ctx = ContextManager::new(1000);
    let exactly = "é".repeat(100);
    let longer = "é".repeat(101);
    let messages = vec![Message::user(&exactly), Message::user(&longer)];
    let summary = ctx.summarize_messages(&messages, 0);
    let expected = format!(
        "Previous conversation summary:\n- User: {}\n- User: {}...\n",
        exactly, exactly
    );
    assert_eq!(summary, expected);
}
