//! Roles, in-memory messages and conversation sessions.
use crate::stamp::{new_id, now_seconds};
use crate::text::same_text;
use vstd::prelude::*;

verus! {

/// Who produced a message.
#[derive(Clone, Copy, Debug, PartialEq, Eq, Structural)]
pub enum MessageRole {
    System,
    User,
    Assistant,
    Tool,
}

/// The canonical lower-case name of a role, as the store records it.
pub open spec fn role_name(r: MessageRole) -> Seq<char> {
    match r {
        MessageRole::System => "system"@,
        MessageRole::User => "user"@,
        MessageRole::Assistant => "assistant"@,
        MessageRole::Tool => "tool"@,
    }
}

/// Whether `s` is the canonical name of some role.
pub open spec fn is_role_name(s: Seq<char>) -> bool {
    exists|r: MessageRole| role_name(r) == s
}

/// The distinct roles have distinct names.
pub proof fn lemma_role_names_distinct(a: MessageRole, b: MessageRole)
    ensures
        role_name(a) == role_name(b) ==> a == b,
{
    reveal_strlit("system");
    reveal_strlit("user");
    reveal_strlit("assistant");
    reveal_strlit("tool");
    if role_name(a) == role_name(b) && a != b {
        assert(role_name(a).len() != role_name(b).len() || role_name(a)[0] != role_name(b)[0]);
    }
}

/// How a role is written in a rendered conversation.
pub open spec fn role_label(r: MessageRole) -> Seq<char> {
    match r {
        MessageRole::System => "System"@,
        MessageRole::User => "User"@,
        MessageRole::Assistant => "Assistant"@,
        MessageRole::Tool => "Tool"@,
    }
}

impl MessageRole {
    /// How this role is written in a rendered conversation.
    pub fn label(&self) -> (r: &'static str)
        ensures
            r@ == role_label(*self),
    {
        match self {
            MessageRole::System => "System",
            MessageRole::User => "User",
            MessageRole::Assistant => "Assistant",
            MessageRole::Tool => "Tool",
        }
    }

    /// The canonical lower-case name of this role.
    pub fn as_str(&self) -> (r: &'static str)
        ensures
            r@ == role_name(*self),
    {
        match self {
            MessageRole::System => "system",
            MessageRole::User => "user",
            MessageRole::Assistant => "assistant",
            MessageRole::Tool => "tool",
        }
    }

    /// Reads a role from its canonical name; `None` for any other text.
    pub fn parse(s: &str) -> (r: Option<MessageRole>)
        ensures
            r matches Some(x) ==> role_name(x) == s@,
            r is None <==> !is_role_name(s@),
    {
        if same_text(s, "system") {
            assert(role_name(MessageRole::System) == s@);
            Some(MessageRole::System)
        } else if same_text(s, "user") {
            assert(role_name(MessageRole::User) == s@);
            Some(MessageRole::User)
        } else if same_text(s, "assistant") {
            assert(role_name(MessageRole::Assistant) == s@);
            Some(MessageRole::Assistant)
        } else if same_text(s, "tool") {
            assert(role_name(MessageRole::Tool) == s@);
            Some(MessageRole::Tool)
        } else {
            proof {
                assert forall|x: MessageRole| role_name(x) != s@ by {
                    match x {
                        MessageRole::System => {},
                        MessageRole::User => {},
                        MessageRole::Assistant => {},
                        MessageRole::Tool => {},
                    }
                }
            }
            None
        }
    }
}

/// One free-form metadata pair; the value is JSON text.
#[derive(Debug)]
pub struct MetadataEntry {
    pub key: String,
    pub value: String,
}

impl Clone for MetadataEntry {
    fn clone(&self) -> (r: Self)
        ensures
            r == *self,
    {
        MetadataEntry { key: self.key.clone(), value: self.value.clone() }
    }
}

/// Sets `key` to `value` in `entries`, replacing an earlier value of the key.
fn set_entry(entries: &mut Vec<MetadataEntry>, key: String, value: String)
    ensures
        exists|i: int|
            0 <= i < final(entries)@.len() && #[trigger] final(entries)@[i] == (MetadataEntry {
                key,
                value,
            }),
        forall|i: int|
            0 <= i < old(entries)@.len() && old(entries)@[i].key@ != key@
                ==> final(entries)@.contains(#[trigger] old(entries)@[i]),
{
    let mut i: usize = 0;
    while i < entries.len()
        invariant
            i <= entries@.len(),
            entries@ == old(entries)@,
            forall|j: int| 0 <= j < i ==> entries@[j].key@ != key@,
        decreases entries@.len() - i,
    {
        if entries[i].key == key {
            let ghost before = entries@;
            entries.set(i, MetadataEntry { key, value });
            proof {
                assert(entries@[i as int] == (MetadataEntry { key, value }));
                assert forall|j: int|
                    0 <= j < before.len() && before[j].key@ != key@ implies entries@.contains(
                    #[trigger] before[j],
                ) by {
                    assert(j != i);
                    assert(entries@[j] == before[j]);
                }
            }
            return ;
        }
        i = i + 1;
    }
    let ghost before = entries@;
    entries.push(MetadataEntry { key, value });
    proof {
        assert(entries@[before.len() as int] == (MetadataEntry { key, value }));
        assert forall|j: int|
            0 <= j < before.len() && before[j].key@ != key@ implies entries@.contains(
            #[trigger] before[j],
        ) by {
            assert(entries@[j] == before[j]);
        }
    }
}

/// A message held in memory by a session.
#[derive(Debug)]
pub struct Message {
    pub id: String,
    pub role: MessageRole,
    pub content: String,
    /// Seconds since the Unix epoch.
    pub timestamp: i64,
    pub metadata: Vec<MetadataEntry>,
}

/// What a message holds, as plain values.
pub struct MessageView {
    pub id: Seq<char>,
    pub role: MessageRole,
    pub content: Seq<char>,
    pub timestamp: i64,
    pub metadata: Seq<MetadataEntry>,
}

impl View for Message {
    type V = MessageView;

    open spec fn view(&self) -> MessageView {
        MessageView {
            id: self.id@,
            role: self.role,
            content: self.content@,
            timestamp: self.timestamp,
            metadata: self.metadata@,
        }
    }
}

impl Clone for Message {
    fn clone(&self) -> (r: Self)
        ensures
            r@ == self@,
    {
        let metadata = self.metadata.clone();
        proof {
            assert(metadata@ =~= self.metadata@);
        }
        Message {
            id: self.id.clone(),
            role: self.role,
            content: self.content.clone(),
            timestamp: self.timestamp,
            metadata,
        }
    }
}

impl Message {
    /// A new message with a fresh identifier, stamped now, without metadata.
    pub fn new(role: MessageRole, content: String) -> (r: Message)
        ensures
            r.role == role,
            r.content == content,
            r.metadata@.len() == 0,
    {
        Message { id: new_id(), role, content, timestamp: now_seconds(), metadata: Vec::new() }
    }

    /// A new system message.
    pub fn system(content: String) -> (r: Message)
        ensures
            r.role == MessageRole::System,
            r.content == content,
            r.metadata@.len() == 0,
    {
        Self::new(MessageRole::System, content)
    }

    /// A new user message.
    pub fn user(content: String) -> (r: Message)
        ensures
            r.role == MessageRole::User,
            r.content == content,
            r.metadata@.len() == 0,
    {
        Self::new(MessageRole::User, content)
    }

    /// A new assistant message.
    pub fn assistant(content: String) -> (r: Message)
        ensures
            r.role == MessageRole::Assistant,
            r.content == content,
            r.metadata@.len() == 0,
    {
        Self::new(MessageRole::Assistant, content)
    }

    /// A new tool message.
    pub fn tool(content: String) -> (r: Message)
        ensures
            r.role == MessageRole::Tool,
            r.content == content,
            r.metadata@.len() == 0,
    {
        Self::new(MessageRole::Tool, content)
    }

    /// This message with `key` set to `value` (JSON text) in its metadata.
    pub fn with_metadata(self, key: String, value: String) -> (r: Message)
        ensures
            r.id == self.id,
            r.role == self.role,
            r.content == self.content,
            r.timestamp == self.timestamp,
            r.metadata@.contains(MetadataEntry { key, value }),
            forall|i: int|
                0 <= i < self.metadata@.len() && self.metadata@[i].key@ != key@
                    ==> r.metadata@.contains(#[trigger] self.metadata@[i]),
    {
        let mut m = self;
        set_entry(&mut m.metadata, key, value);
        m
    }
}

/// A session as listed, without its messages.
#[derive(Debug)]
pub struct SessionSummary {
    pub id: String,
    pub title: String,
    pub created_at: i64,
    pub updated_at: i64,
}

/// A conversation held in memory with all its messages.
#[derive(Debug)]
pub struct ConversationSession {
    pub id: String,
    pub title: String,
    pub created_at: i64,
    pub updated_at: i64,
    pub messages: Vec<Message>,
    pub metadata: Vec<MetadataEntry>,
}

/// What a session holds, as plain values.
pub struct SessionView {
    pub id: Seq<char>,
    pub title: Seq<char>,
    pub created_at: i64,
    pub updated_at: i64,
    pub messages: Seq<MessageView>,
    pub metadata: Seq<MetadataEntry>,
}

/// The views of a sequence of messages.
pub open spec fn message_views(ms: Seq<Message>) -> Seq<MessageView> {
    ms.map_values(|m: Message| m@)
}

impl View for ConversationSession {
    type V = SessionView;

    open spec fn view(&self) -> SessionView {
        SessionView {
            id: self.id@,
            title: self.title@,
            created_at: self.created_at,
            updated_at: self.updated_at,
            messages: message_views(self.messages@),
            metadata: self.metadata@,
        }
    }
}

impl Clone for ConversationSession {
    fn clone(&self) -> (r: Self)
        ensures
            r@ == self@,
    {
        let messages = self.messages.clone();
        let metadata = self.metadata.clone();
        proof {
            assert(message_views(messages@) =~= message_views(self.messages@));
            assert(metadata@ =~= self.metadata@);
        }
        ConversationSession {
            id: self.id.clone(),
            title: self.title.clone(),
            created_at: self.created_at,
            updated_at: self.updated_at,
            messages,
            metadata,
        }
    }
}

/// How many messages a context window holds at most.
pub const CONTEXT_WINDOW_MESSAGES: usize = 20;

impl ConversationSession {
    /// A new empty session with a fresh identifier, stamped now.
    pub fn new(title: String) -> (r: ConversationSession)
        ensures
            r.title == title,
            r.created_at == r.updated_at,
            r.messages@.len() == 0,
            r.metadata@.len() == 0,
    {
        Self::new_with_id(new_id(), title)
    }

    /// A new empty session with the given identifier, stamped now.
    pub fn new_with_id(id: String, title: String) -> (r: ConversationSession)
        ensures
            r.id == id,
            r.title == title,
            r.created_at == r.updated_at,
            r.messages@.len() == 0,
            r.metadata@.len() == 0,
    {
        let now = now_seconds();
        ConversationSession {
            id,
            title,
            created_at: now,
            updated_at: now,
            messages: Vec::new(),
            metadata: Vec::new(),
        }
    }

    /// Appends `message` and sets `updated_at` to `now`.
    pub fn add_message_at(&mut self, message: Message, now: i64)
        ensures
            final(self).messages@ == old(self).messages@.push(message),
            final(self).updated_at == now,
            final(self).id == old(self).id,
            final(self).title == old(self).title,
            final(self).created_at == old(self).created_at,
            final(self).metadata == old(self).metadata,
    {
        self.messages.push(message);
        self.updated_at = now;
    }

    /// Appends `message` and stamps the session now.
    pub fn add_message(&mut self, message: Message)
        ensures
            final(self).messages@ == old(self).messages@.push(message),
            final(self).id == old(self).id,
            final(self).title == old(self).title,
            final(self).created_at == old(self).created_at,
            final(self).metadata == old(self).metadata,
    {
        self.add_message_at(message, now_seconds());
    }

    /// The messages, oldest first.
    pub fn get_messages(&self) -> (r: &[Message])
        ensures
            r@ == self.messages@,
    {
        self.messages.as_slice()
    }

    /// The most recent messages, at most `CONTEXT_WINDOW_MESSAGES` of them,
    /// oldest first. The token budget is not consulted.
    pub fn get_context_window(&self, max_tokens: usize) -> (r: Vec<Message>)
        ensures
            message_views(r@) == message_views(self.messages@).subrange(
                window_start(self.messages@.len()) as int,
                self.messages@.len() as int,
            ),
    {
        let n = self.messages.len();
        let start = if n > CONTEXT_WINDOW_MESSAGES { n - CONTEXT_WINDOW_MESSAGES } else { 0 };
        let mut out: Vec<Message> = Vec::new();
        let mut i: usize = start;
        while i < n
            invariant
                start <= i <= n,
                n == self.messages@.len(),
                start == window_start(n as nat),
                message_views(out@) == message_views(self.messages@).subrange(
                    start as int,
                    i as int,
                ),
            decreases n - i,
        {
            let m = self.messages[i].clone();
            let ghost before = out@;
            out.push(m);
            assert(message_views(out@) =~= message_views(before).push(m@));
            assert(message_views(self.messages@).subrange(start as int, i + 1) =~= message_views(
                self.messages@,
            ).subrange(start as int, i as int).push(m@));
            i = i + 1;
        }
        out
    }

    /// Removes every message and stamps the session now.
    pub fn clear_messages(&mut self)
        ensures
            final(self).messages@.len() == 0,
            final(self).id == old(self).id,
            final(self).title == old(self).title,
            final(self).created_at == old(self).created_at,
    {
        self.messages.clear();
        self.updated_at = now_seconds();
    }
}

/// Where the context window of `n` messages starts.
pub open spec fn window_start(n: nat) -> nat {
    if n > CONTEXT_WINDOW_MESSAGES {
        (n - CONTEXT_WINDOW_MESSAGES) as nat
    } else {
        0
    }
}

} // verus!
