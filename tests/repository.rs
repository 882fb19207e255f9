use agents_rs::error::CoreError;
use agents_rs::models::{Conversation, StoredMessage};
use agents_rs::repository::ConversationRepository;

fn setup() -> ConversationRepository {
    ConversationRepository::new()
}

#[test]
fn test_create_and_get_conversation() {
    let mut repo = setup();
    let conv = repo.create_conversation("Test Chat", "gpt-4").unwrap();
    let retrieved = repo.get_conversation(&conv.id);
    assert!(retrieved.is_some());
    assert_eq!(retrieved.unwrap().title, "Test Chat");
}

#[test]
fn test_add_and_retrieve_messages() {
    let mut repo = setup();
    let conv = repo.create_conversation("Test", "gpt-4").unwrap();
    let msg1 = StoredMessage::new(conv.id.clone(), "user".to_string(), "Hello".to_string());
    repo.add_message(&msg1).unwrap();
    let msg2 = StoredMessage::new(conv.id.clone(), "assistant".to_string(), "Hi!".to_string());
    repo.add_message(&msg2).unwrap();
    let messages = repo.get_messages(&conv.id);
    assert_eq!(messages.len(), 2);
    assert_eq!(messages[0].content, "Hello");
    assert_eq!(messages[1].content, "Hi!");
}

#[test]
fn test_delete_old_messages() {
    let mut repo = setup();
    let conv = repo.create_conversation("Test", "gpt-4").unwrap();
    for i in 0..5 {
        let msg = StoredMessage::new(conv.id.clone(), "user".to_string(), format!("Message {}", i));
        repo.add_message(&msg).unwrap();
    }
    let deleted = repo.delete_old_messages(&conv.id, 2);
    assert_eq!(deleted, 3);
    let remaining = repo.get_messages(&conv.id);
    assert_eq!(remaining.len(), 2);
}

#[test]
fn prune_keeps_the_most_recent_in_order() {
    let mut repo = setup();
    let conv = repo.create_conversation("P", "m").unwrap();
    for i in 0..6 {
        let msg = StoredMessage::new(conv.id.clone(), "user".to_string(), format!("{}", i));
        repo.add_message(&msg).unwrap();
    }
    assert_eq!(repo.delete_old_messages(&conv.id, 10), 0);
    assert_eq!(repo.count_messages(&conv.id), 6);
    assert_eq!(repo.delete_old_messages(&conv.id, 6), 0);
    assert_eq!(repo.delete_old_messages(&conv.id, -1), 0);
    assert_eq!(repo.delete_old_messages(&conv.id, 3), 3);
    let left: Vec<String> = repo.get_messages(&conv.id).into_iter().map(|m| m.content).collect();
    assert_eq!(left, vec!["3", "4", "5"]);
    assert_eq!(repo.delete_old_messages(&conv.id, 0), 3);
    assert!(repo.get_messages(&conv.id).is_empty());
    assert_eq!(repo.delete_old_messages("missing", 1), 0);
}

#[test]
fn appended_messages_get_increasing_ids_and_touch_the_conversation() {
    let mut repo = setup();
    let conv = repo.create_conversation_at("c1".to_string(), "T".to_string(), "m".to_string(), 100).unwrap();
    assert_eq!(conv.created_at, 100);
    let m = StoredMessage::new_at("c1".to_string(), "user".to_string(), "a".to_string(), 150).with_tokens(7);
    let saved = repo.add_message_at(&m, 200).unwrap();
    assert_eq!(saved.tokens, Some(7));
    assert_eq!(saved.created_at, 150);
    let saved2 = repo.add_message_at(&m, 300).unwrap();
    assert!(saved2.id.unwrap() > saved.id.unwrap());
    let c = repo.get_conversation("c1").unwrap();
    assert_eq!(c.updated_at, 300);
    assert_eq!(c.created_at, 100);
    assert_eq!(repo.calculate_total_tokens("c1"), Ok(14));
    assert_eq!(repo.calculate_total_tokens("nope"), Ok(0));
}

#[test]
fn appending_to_a_missing_conversation_fails() {
    let mut repo = setup();
    let m = StoredMessage::new("ghost".to_string(), "user".to_string(), "a".to_string());
    assert!(matches!(repo.add_message(&m), Err(CoreError::NotFound(id)) if id == "ghost"));
    assert!(repo.get_messages("ghost").is_empty());
}

#[test]
fn duplicate_conversation_id_is_a_store_error() {
    let mut repo = setup();
    repo.create_conversation_at("x".to_string(), "A".to_string(), "m".to_string(), 1).unwrap();
    let r = repo.create_conversation_at("x".to_string(), "B".to_string(), "m".to_string(), 2);
    assert!(matches!(r, Err(CoreError::Store(_))));
    assert_eq!(repo.count_conversations(), 1);
    assert_eq!(repo.get_conversation("x").unwrap().title, "A");
}

#[test]
fn listing_is_newest_first_and_paged() {
    let mut repo = setup();
    repo.create_conversation_at("a".to_string(), "A".to_string(), "m".to_string(), 10).unwrap();
    repo.create_conversation_at("b".to_string(), "B".to_string(), "m".to_string(), 30).unwrap();
    repo.create_conversation_at("c".to_string(), "C".to_string(), "m".to_string(), 20).unwrap();
    repo.create_conversation_at("d".to_string(), "D".to_string(), "m".to_string(), 30).unwrap();
    let ids = |v: Vec<Conversation>| v.into_iter().map(|c| c.id).collect::<Vec<_>>();
    assert_eq!(ids(repo.list_conversations(100, 0)), vec!["b", "d", "c", "a"]);
    assert_eq!(ids(repo.list_conversations(2, 1)), vec!["d", "c"]);
    assert_eq!(ids(repo.list_conversations(-1, 3)), vec!["a"]);
    assert_eq!(ids(repo.list_conversations(5, 9)), Vec::<String>::new());
    assert_eq!(ids(repo.list_conversations(0, 0)), Vec::<String>::new());
    assert_eq!(ids(repo.list_conversations(1, -4)), vec!["b"]);
}

#[test]
fn last_n_messages_are_chronological() {
    let mut repo = setup();
    let conv = repo.create_conversation("L", "m").unwrap();
    for i in 0..4 {
        let msg = StoredMessage::new(conv.id.clone(), "user".to_string(), format!("{}", i));
        repo.add_message(&msg).unwrap();
    }
    let c = |v: Vec<StoredMessage>| v.into_iter().map(|m| m.content).collect::<Vec<_>>();
    assert_eq!(c(repo.get_last_n_messages(&conv.id, 2)), vec!["2", "3"]);
    assert_eq!(c(repo.get_last_n_messages(&conv.id, 9)).len(), 4);
    assert_eq!(c(repo.get_last_n_messages(&conv.id, -1)).len(), 4);
    assert!(repo.get_last_n_messages(&conv.id, 0).is_empty());
}

#[test]
fn deleting_a_conversation_removes_its_messages() {
    let mut repo = setup();
    let keep = repo.create_conversation("keep", "m").unwrap();
    let gone = repo.create_conversation("gone", "m").unwrap();
    for conv in [&keep, &gone] {
        let msg = StoredMessage::new(conv.id.clone(), "user".to_string(), "x".to_string());
        repo.add_message(&msg).unwrap();
    }
    repo.delete_conversation(&gone.id);
    assert!(repo.get_conversation(&gone.id).is_none());
    assert!(repo.get_messages(&gone.id).is_empty());
    assert_eq!(repo.count_messages(&gone.id), 0);
    assert_eq!(repo.get_messages(&keep.id).len(), 1);
    assert_eq!(repo.count_conversations(), 1);
    repo.delete_conversation(&gone.id);
    assert_eq!(repo.count_conversations(), 1);
}

#[test]
fn retitle_and_touch() {
    let mut repo = setup();
    let c = repo.create_conversation_at("t".to_string(), "Old".to_string(), "m".to_string(), 5).unwrap();
    repo.update_conversation_title(&c.id, "New");
    let after = repo.get_conversation(&c.id).unwrap();
    assert_eq!(after.title, "New");
    assert!(after.updated_at > 5);
    repo.touch_conversation("absent");
    assert_eq!(repo.count_conversations(), 1);
}

#[test]
fn token_sum_overflow_is_reported() {
    let mut repo = setup();
    let conv = repo.create_conversation("T", "m").unwrap();
    let none = StoredMessage::new(conv.id.clone(), "user".to_string(), "x".to_string());
    repo.add_message(&none).unwrap();
    let some = StoredMessage::new(conv.id.clone(), "user".to_string(), "y".to_string()).with_tokens(-3);
    repo.add_message(&some).unwrap();
    assert_eq!(repo.calculate_total_tokens(&conv.id), Ok(-3));
}
