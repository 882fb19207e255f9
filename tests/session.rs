use agents_rs::session::{ConversationSession, Message, MessageRole};

#[test]
fn test_message_creation() {
    let msg = Message::user("Hello".to_string());
    assert_eq!(msg.role, MessageRole::User);
    assert_eq!(msg.content, "Hello");
}

#[test]
fn test_session_creation() {
    let session = ConversationSession::new("Test".to_string());
    assert_eq!(session.title, "Test");
    assert!(session.messages.is_empty());
}

#[test]
fn role_names_round_trip() {
    for role in [MessageRole::System, MessageRole::User, MessageRole::Assistant, MessageRole::Tool] {
        assert_eq!(MessageRole::parse(role.as_str()), Some(role));
    }
    assert_eq!(MessageRole::User.as_str(), "user");
    assert_eq!(MessageRole::Tool.label(), "Tool");
    assert_eq!(MessageRole::parse("User"), None);
    assert_eq!(MessageRole::parse("moderator"), None);
    assert_eq!(MessageRole::parse(""), None);
}

#[test]
fn fresh_identifiers_are_uuids() {
    let a = Message::system("x".to_string());
    let b = Message::tool("y".to_string());
    assert_eq!(a.id.len(), 36);
    assert_ne!(a.id, b.id);
    assert_eq!(a.role, MessageRole::System);
    assert_eq!(Message::assistant("z".to_string()).role, MessageRole::Assistant);
}

#[test]
fn metadata_replaces_an_earlier_value() {
    let m = Message::user("hi".to_string())
        .with_metadata("k".to_string(), "1".to_string())
        .with_metadata("j".to_string(), "\"x\"".to_string())
        .with_metadata("k".to_string(), "2".to_string());
    assert_eq!(m.metadata.len(), 2);
    let k: Vec<_> = m.metadata.iter().filter(|e| e.key == "k").collect();
    assert_eq!(k.len(), 1);
    assert_eq!(k[0].value, "2");
}

#[test]
fn context_window_keeps_the_last_twenty() {
    let mut s = ConversationSession::new_with_id("abc".to_string(), "T".to_string());
    assert_eq!(s.id, "abc");
    for i in 0..25 {
        s.add_message(Message::user(format!("m{}", i)));
    }
    let w = s.get_context_window(4096);
    assert_eq!(w.len(), 20);
    assert_eq!(w[0].content, "m5");
    assert_eq!(w[19].content, "m24");
    assert_eq!(s.get_messages().len(), 25);
    s.clear_messages();
    assert!(s.get_messages().is_empty());
    assert_eq!(s.get_context_window(10).len(), 0);
}
