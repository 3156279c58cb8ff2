use letta_lite::document::encode_message;
use letta_lite::json::Json;
use letta_lite::message::{Message, MessageBuffer, MessageRole, ToolCallInfo};

#[test]
fn new_messages_have_their_role() {
    let s = Message::system("a");
    let u = Message::user("b");
    let a = Message::assistant("c");
    let t = Message::tool("call_9".to_string(), "d");
    assert_eq!(s.role, MessageRole::System);
    assert_eq!(u.role, MessageRole::User);
    assert_eq!(a.role, MessageRole::Assistant);
    assert_eq!(t.role, MessageRole::Tool);
    assert_eq!(s.content, "a");
    assert_eq!(t.content, "d");
    assert_eq!(t.tool_call_id.as_deref(), Some("call_9"));
    assert!(u.tool_call_id.is_none());
    assert!(u.tool_calls.is_none());
    assert_eq!(u.id.len(), 36);
    assert_ne!(u.id, a.id);
    assert!(!u.timestamp.text.is_empty());
}

#[test]
fn with_tool_calls_attaches_the_calls() {
    let calls = vec![ToolCallInfo {
        id: "1".to_string(),
        name: "archival_search".to_string(),
        arguments: Json::empty_object(),
    }];
    let m = Message::assistant("").with_tool_calls(calls);
    assert_eq!(m.tool_calls.as_ref().unwrap().len(), 1);
    assert_eq!(m.tool_calls.as_ref().unwrap()[0].name, "archival_search");
}

#[test]
fn token_estimate_is_a_quarter_of_the_bytes() {
    assert_eq!(Message::user("").token_estimate(), 0);
    assert_eq!(Message::user("abc").token_estimate(), 0);
    assert_eq!(Message::user("abcd").token_estimate(), 1);
    assert_eq!(Message::user("abcdefghijk").token_estimate(), 2);
    // two bytes each
    assert_eq!(Message::user("éééé").token_estimate(), 2);
}

#[test]
fn push_drops_from_the_front() {
    let mut buffer = MessageBuffer::new(3);
    for i in 0..5 {
        buffer.push(Message::user(&format!("m{}", i)));
        assert!(buffer.len() <= 3);
    }
    assert_eq!(buffer.len(), 3);
    let contents: Vec<&str> = buffer.messages.iter().map(|m| m.content.as_str()).collect();
    assert_eq!(contents, vec!["m2", "m3", "m4"]);
}

#[test]
fn push_into_a_buffer_without_room() {
    let mut buffer = MessageBuffer::new(0);
    buffer.push(Message::user("x"));
    assert_eq!(buffer.len(), 0);
}

#[test]
fn search_ignores_case_and_keeps_order() {
    let mut buffer = MessageBuffer::new(10);
    buffer.push(Message::user("Hello World"));
    buffer.push(Message::assistant("nothing here"));
    buffer.push(Message::user("say HELLO again"));
    buffer.push(Message::user("hello hello"));
    let all = buffer.search("hello", 10);
    assert_eq!(all.len(), 3);
    assert_eq!(all[0].content, "Hello World");
    assert_eq!(all[1].content, "say HELLO again");
    assert_eq!(all[2].content, "hello hello");
    let two = buffer.search("HeLLo", 2);
    assert_eq!(two.len(), 2);
    assert_eq!(two[1].content, "say HELLO again");
    assert!(buffer.search("hello", 0).is_empty());
    assert!(buffer.search("absent", 5).is_empty());
    assert_eq!(buffer.search("", 10).len(), 4);
}

#[test]
fn get_recent_returns_the_last() {
    let mut buffer = MessageBuffer::new(10);
    for i in 0..4 {
        buffer.push(Message::user(&format!("m{}", i)));
    }
    let recent = buffer.get_recent(2);
    assert_eq!(recent.len(), 2);
    assert_eq!(recent[0].content, "m2");
    assert_eq!(recent[1].content, "m3");
    assert_eq!(buffer.get_recent(9).len(), 4);
    assert!(buffer.get_recent(0).is_empty());
}

#[test]
fn clear_empties_the_buffer() {
    let mut buffer = MessageBuffer::new(2);
    buffer.push(Message::user("x"));
    buffer.clear();
    assert_eq!(buffer.len(), 0);
    assert_eq!(buffer.max_size, 2);
}

#[test]
fn message_as_json() {
    let m = Message::tool("call_1".to_string(), "body");
    let j = encode_message(&m);
    assert_eq!(j.get_str("role"), Some("tool"));
    assert_eq!(j.get_str("content"), Some("body"));
    assert_eq!(j.get_str("tool_call_id"), Some("call_1"));
    assert_eq!(j.get_str("id"), Some(m.id.as_str()));
    assert_eq!(j.get_str("timestamp"), Some(m.timestamp.text.as_str()));
    assert!(j.get("tool_calls").is_none());
    assert!(j.get("metadata").is_some());
    let u = encode_message(&Message::user("x"));
    assert!(u.get("tool_call_id").is_none());
    assert_eq!(u.get_str("role"), Some("user"));
    assert_eq!(MessageRole::System.name(), "system");
    assert_eq!(MessageRole::Assistant.name(), "assistant");
    assert_eq!(MessageRole::from_name("tool"), Some(MessageRole::Tool));
    assert_eq!(MessageRole::from_name("user"), Some(MessageRole::User));
    assert_eq!(MessageRole::from_name("Tool"), None);
}

#[test]
fn message_clone_keeps_everything() {
    let m = Message::tool("c".to_string(), "body");
    let c = m.clone();
    assert_eq!(c.id, m.id);
    assert_eq!(c.content, m.content);
    assert_eq!(c.role, m.role);
    assert_eq!(c.tool_call_id, m.tool_call_id);
    assert_eq!(c.timestamp.text, m.timestamp.text);
}
