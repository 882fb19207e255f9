use agents_rs::error::CoreError;
use agents_rs::manager::ContextManager;
use agents_rs::models::StoredMessage;
use agents_rs::repository::ConversationRepository;
use agents_rs::session::{ConversationSession, Message, MessageRole};

fn manager() -> ContextManager {
    ContextManager::new(ConversationRepository::new(), "Qwen3-1.7B".to_string())
}

fn turns(s: &ConversationSession) -> Vec<(String, MessageRole, String, i64)> {
    s.messages.iter().map(|m| (m.id.clone(), m.role, m.content.clone(), m.timestamp)).collect()
}

#[test]
fn session_read_again_after_restart_is_the_same() {
    let mut m = manager();
    let id = m.create_session("Chat".to_string()).unwrap();
    m.add_message(&id, Message::user("hello".to_string())).unwrap();
    m.add_message(&id, Message::assistant("hi there".to_string())).unwrap();
    m.add_message(&id, Message::tool("{}".to_string())).unwrap();
    let before = m.get_session(&id).unwrap();
    let repo = m.into_repository();
    let mut fresh = ContextManager::new(repo, "other".to_string());
    let after = fresh.get_session(&id).unwrap();
    assert_eq!(after.id, before.id);
    assert_eq!(after.title, before.title);
    assert_eq!(turns(&after), turns(&before));
    fresh.add_message(&id, Message::user("again".to_string())).unwrap();
    let again = fresh.get_session(&id).unwrap();
    assert_eq!(again.messages.len(), 4);
    assert_eq!(again.messages[3].content, "again");
}

#[test]
fn appends_keep_their_order_in_cache_and_store() {
    let mut m = manager();
    let id = m.create_session("Order".to_string()).unwrap();
    for text in ["M1", "M2", "M3"] {
        m.add_message(&id, Message::user(text.to_string())).unwrap();
    }
    let s = m.get_session(&id).unwrap();
    let cached: Vec<String> = s.messages.iter().map(|x| x.content.clone()).collect();
    assert_eq!(cached, vec!["M1", "M2", "M3"]);
    let stored: Vec<String> = m.repository().get_messages(&id).into_iter().map(|x| x.content).collect();
    assert_eq!(stored, cached);
    let roles: Vec<String> = m.repository().get_messages(&id).into_iter().map(|x| x.role).collect();
    assert_eq!(roles, vec!["user", "user", "user"]);
}

#[test]
fn renaming_to_the_same_title_changes_nothing_visible() {
    let mut m = manager();
    let id = m.create_session("Same".to_string()).unwrap();
    m.add_message(&id, Message::user("x".to_string())).unwrap();
    let before = m.get_session(&id).unwrap();
    m.rename_session(&id, "Same".to_string());
    let after = m.get_session(&id).unwrap();
    assert_eq!(after.title, "Same");
    assert_eq!(turns(&after), turns(&before));
    let conv = m.repository().get_conversation(&id).unwrap();
    assert_eq!(conv.title, "Same");
    m.rename_session(&id, "Other".to_string());
    assert_eq!(m.get_session(&id).unwrap().title, "Other");
    assert_eq!(m.repository().get_conversation(&id).unwrap().title, "Other");
}

#[test]
fn rendered_context_holds_the_turns_in_order() {
    let mut m = manager();
    let id = m.create_session("Test".to_string()).unwrap();
    m.add_message(&id, Message::user("My name is Alice.".to_string())).unwrap();
    let p1 = m.full_context_prompt(&id, "Hello").unwrap();
    assert!(p1.contains("User: My name is Alice.\n"));
    assert_eq!(p1, "User: My name is Alice.\nUser: Hello\n");
    m.add_message(&id, Message::assistant("Nice to meet you, Alice.".to_string())).unwrap();
    m.add_message(&id, Message::user("What is my name?".to_string())).unwrap();
    let p2 = m.full_context_prompt(&id, "What is my name?").unwrap();
    let a = p2.find("User: My name is Alice.\n").unwrap();
    let b = p2.find("Assistant: Nice to meet you, Alice.\n").unwrap();
    let c = p2.find("User: What is my name?\n").unwrap();
    assert!(a < b && b < c);
}

#[test]
fn deleting_a_session_cascades() {
    let mut m = manager();
    let id = m.create_session("Gone".to_string()).unwrap();
    m.add_message(&id, Message::user("a".to_string())).unwrap();
    m.add_message(&id, Message::user("b".to_string())).unwrap();
    m.delete_session(&id);
    assert!(m.repository().get_messages(&id).is_empty());
    assert!(matches!(m.get_session(&id), Err(CoreError::NotFound(x)) if x == id));
    assert!(matches!(m.get_active_session(), Err(CoreError::NoActiveSession)));
}

#[test]
fn first_session_becomes_active_and_stays() {
    let mut m = manager();
    assert!(matches!(m.get_active_session(), Err(CoreError::NoActiveSession)));
    assert!(matches!(
        m.add_message_to_active(Message::user("x".to_string())),
        Err(CoreError::NoActiveSession)
    ));
    let a = m.create_session("A".to_string()).unwrap();
    let b = m.create_session("B".to_string()).unwrap();
    assert_eq!(m.get_active_session().unwrap().id, a);
    m.set_active_session(&b).unwrap();
    m.add_message_to_active(Message::user("to b".to_string())).unwrap();
    assert_eq!(m.get_session(&b).unwrap().messages.len(), 1);
    assert!(matches!(m.set_active_session("nope"), Err(CoreError::NotFound(_))));
    m.delete_session(&b);
    assert!(matches!(m.get_active_session(), Err(CoreError::NoActiveSession)));
}

#[test]
fn listing_reads_the_store_newest_first() {
    let mut repo = ConversationRepository::new();
    repo.create_conversation_at("old".to_string(), "Old".to_string(), "m".to_string(), 1).unwrap();
    repo.create_conversation_at("new".to_string(), "New".to_string(), "m".to_string(), 9).unwrap();
    let mut m = ContextManager::new(repo, "m".to_string());
    let list = m.list_sessions();
    assert_eq!(list.len(), 2);
    assert_eq!(list[0].id, "new");
    assert_eq!(list[1].title, "Old");
    assert_eq!(list[1].updated_at, 1);
    m.add_message("old", Message::user("bump".to_string())).unwrap();
    assert_eq!(m.list_sessions()[0].id, "old");
}

#[test]
fn unknown_stored_role_is_reported() {
    let mut repo = ConversationRepository::new();
    repo.create_conversation_at("r".to_string(), "R".to_string(), "m".to_string(), 1).unwrap();
    let bad = StoredMessage::new("r".to_string(), "wizard".to_string(), "x".to_string());
    repo.add_message(&bad).unwrap();
    let mut m = ContextManager::new(repo, "m".to_string());
    assert!(matches!(m.get_session("r"), Err(CoreError::InvalidRole(x)) if x == "wizard"));
    assert!(matches!(m.add_message("r", Message::user("y".to_string())), Err(CoreError::InvalidRole(_))));
    assert_eq!(m.repository().get_messages("r").len(), 1);
    assert!(matches!(m.add_message("zz", Message::user("y".to_string())), Err(CoreError::NotFound(_))));
}

#[test]
fn new_sessions_are_tagged_with_the_current_model() {
    let mut m = manager();
    m.set_current_model("llama".to_string());
    let id = m.create_session("T".to_string()).unwrap();
    assert_eq!(m.repository().get_conversation(&id).unwrap().model_name, "llama");
}

#[test]
fn error_messages() {
    assert_eq!(CoreError::NotFound("x".to_string()).message(), "Session not found: x");
    assert_eq!(CoreError::NotLoaded.message(), "No model is loaded. Call load_model() first.");
    assert_eq!(CoreError::ModelNotFound("m.gguf".to_string()).message(), "Model file not found: m.gguf");
    assert_eq!(CoreError::InvalidRole("q".to_string()).message(), "Invalid message role: q");
    assert_eq!(CoreError::NoActiveSession.message(), "No active session");
    assert_eq!(CoreError::Store("s".to_string()).message(), "Store error: s");
    assert_eq!(CoreError::Tokenize("t".to_string()).message(), "Tokenize error: t");
    assert_eq!(CoreError::Decode("d".to_string()).message(), "Decode error: d");
}

#[test]
fn cached_messages_take_the_store_sequence_numbers() {
    let mut m = manager();
    let id = m.create_session("Ids".to_string()).unwrap();
    let mut msg = Message::user("first".to_string());
    msg.timestamp = 1234;
    m.add_message(&id, msg).unwrap();
    m.add_message(&id, Message::assistant("second".to_string())).unwrap();
    let s = m.get_session(&id).unwrap();
    let stored = m.repository().get_messages(&id);
    assert_eq!(s.messages[0].id, stored[0].id.unwrap().to_string());
    assert_eq!(s.messages[1].id, stored[1].id.unwrap().to_string());
    assert!(stored[1].id.unwrap() > stored[0].id.unwrap());
    assert_eq!(s.messages[0].timestamp, 1234);
    assert_eq!(stored[0].created_at, 1234);
    assert_eq!(s.updated_at, m.repository().get_conversation(&id).unwrap().updated_at);
}

#[test]
fn rename_bumps_the_cached_time() {
    let mut repo = ConversationRepository::new();
    repo.create_conversation_at("r".to_string(), "T".to_string(), "m".to_string(), 5).unwrap();
    let mut m = ContextManager::new(repo, "m".to_string());
    let before = m.get_session("r").unwrap();
    assert_eq!(before.updated_at, 5);
    m.rename_session("r", "T".to_string());
    let after = m.get_session("r").unwrap();
    assert!(after.updated_at > 5);
    assert_eq!(after.updated_at, m.repository().get_conversation("r").unwrap().updated_at);
    assert_eq!(turns(&after), turns(&before));
}

#[test]
fn a_failed_read_caches_nothing() {
    let mut m = manager();
    assert!(matches!(m.get_session("nope"), Err(CoreError::NotFound(_))));
    assert!(matches!(m.set_active_session("nope"), Err(CoreError::NotFound(_))));
    assert!(matches!(m.add_message("nope", Message::user("x".to_string())), Err(CoreError::NotFound(_))));
    assert!(m.repository().get_messages("nope").is_empty());
}

#[test]
fn a_turn_renders_the_session_for_the_reply() {
    let mut m = manager();
    let id = m.create_session("Turn".to_string()).unwrap();
    let p = m.begin_turn(&id, "Hi".to_string()).unwrap();
    assert_eq!(p, "User: Hi\nAssistant: ");
    m.add_message(&id, Message::assistant("Hello!".to_string())).unwrap();
    let p2 = m.begin_turn(&id, "Bye".to_string()).unwrap();
    assert_eq!(p2, "User: Hi\nAssistant: Hello!\nUser: Bye\nAssistant: ");
    assert!(matches!(m.begin_turn("nope", "x".to_string()), Err(CoreError::NotFound(_))));
}
