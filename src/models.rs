//! The durable records: conversations and the messages stored in them.
use crate::stamp::{new_id, now_seconds};
use vstd::prelude::*;

verus! {

/// A durable conversation record. Times are seconds since the Unix epoch.
#[derive(Debug)]
pub struct Conversation {
    pub id: String,
    pub title: String,
    pub created_at: i64,
    pub updated_at: i64,
    pub model_name: String,
}

impl Clone for Conversation {
    fn clone(&self) -> (r: Self)
        ensures
            r == *self,
    {
        Conversation {
            id: self.id.clone(),
            title: self.title.clone(),
            created_at: self.created_at,
            updated_at: self.updated_at,
            model_name: self.model_name.clone(),
        }
    }
}

impl Conversation {
    /// A conversation with the given identifier, created and updated at `now`.
    pub fn new_at(id: String, title: String, model_name: String, now: i64) -> (r: Conversation)
        ensures
            r == (Conversation { id, title, created_at: now, updated_at: now, model_name }),
    {
        Conversation { id, title, created_at: now, updated_at: now, model_name }
    }

    /// A conversation with a fresh random identifier, created now.
    pub fn new(title: String, model_name: String) -> (r: Conversation)
        ensures
            r.title == title,
            r.model_name == model_name,
            r.created_at == r.updated_at,
    {
        Self::new_at(new_id(), title, model_name, now_seconds())
    }
}

/// A durable message record; the store assigns `id` when it is appended.
#[derive(Debug)]
pub struct StoredMessage {
    pub id: Option<i64>,
    pub conversation_id: String,
    pub role: String,
    pub content: String,
    pub tokens: Option<i32>,
    pub created_at: i64,
}

impl Clone for StoredMessage {
    fn clone(&self) -> (r: Self)
        ensures
            r == *self,
    {
        StoredMessage {
            id: self.id,
            conversation_id: self.conversation_id.clone(),
            role: self.role.clone(),
            content: self.content.clone(),
            tokens: self.tokens,
            created_at: self.created_at,
        }
    }
}

impl StoredMessage {
    /// A message not yet stored, created at `now`, with no token count.
    pub fn new_at(conversation_id: String, role: String, content: String, now: i64) -> (r:
        StoredMessage)
        ensures
            r == (StoredMessage {
                id: None,
                conversation_id,
                role,
                content,
                tokens: None,
                created_at: now,
            }),
    {
        StoredMessage { id: None, conversation_id, role, content, tokens: None, created_at: now }
    }

    /// A message not yet stored, created now, with no token count.
    pub fn new(conversation_id: String, role: String, content: String) -> (r: StoredMessage)
        ensures
            r.id is None,
            r.conversation_id == conversation_id,
            r.role == role,
            r.content == content,
            r.tokens is None,
    {
        Self::new_at(conversation_id, role, content, now_seconds())
    }

    /// This message with its token count set.
    pub fn with_tokens(self, tokens: i32) -> (r: StoredMessage)
        ensures
            r == (StoredMessage { tokens: Some(tokens), ..self }),
    {
        let mut m = self;
        m.tokens = Some(tokens);
        m
    }
}

} // verus!
