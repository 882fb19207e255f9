//! The session cache: one in-memory copy per session, read through from the
//! store on a miss and written through to the store before it changes.
use crate::error::CoreError;
use crate::models::{Conversation, StoredMessage};
use crate::repository::{
    appended, conversations_of, newest_first, newest_first_ordered, page, has_conversation, ids_unique, index_of, lemma_appended, lemma_frame_push,
    lemma_frame_remove, lemma_frame_update, lemma_index_of, messages_of, same_for, stamped,
    without, ConversationRepository, StoreEntry,
};
use crate::prompt::{render_for_reply, render_with_prompt, rendered};
use crate::session::{
    is_role_name, message_views, role_name, ConversationSession, Message, MessageRole,
    MessageView, SessionSummary, SessionView,
};
use crate::stamp::now_seconds;
use crate::text::{decimal_of, decimal_text, same_text};
use vstd::prelude::*;

verus! {

/// What a message shows of itself: identifier, role name, content, time.
pub struct Turn {
    pub id: Seq<char>,
    pub role: Seq<char>,
    pub content: Seq<char>,
    pub time: i64,
}

/// The identifier that an in-memory message takes from the sequence
/// number of its stored record: the number in decimal.
pub open spec fn id_text(id: Option<i64>) -> Seq<char> {
    match id {
        Some(x) => if x >= 0 {
            decimal_of(x as nat)
        } else {
            Seq::empty()
        },
        None => Seq::empty(),
    }
}

/// The identifier that an in-memory message takes from its stored record.
pub fn message_id_text(id: Option<i64>) -> (r: String)
    ensures
        r@ == id_text(id),
{
    match id {
        Some(x) => if x >= 0 {
            decimal_text(x as u64)
        } else {
            String::new()
        },
        None => String::new(),
    }
}

/// The turns of stored messages, in order.
pub open spec fn stored_turns(ms: Seq<StoredMessage>) -> Seq<Turn> {
    ms.map_values(
        |m: StoredMessage| Turn { id: id_text(m.id), role: m.role@, content: m.content@, time: m.created_at },
    )
}

/// The turns of in-memory messages, in order.
pub open spec fn session_turns(ms: Seq<MessageView>) -> Seq<Turn> {
    ms.map_values(
        |m: MessageView| Turn { id: m.id, role: role_name(m.role), content: m.content, time: m.timestamp },
    )
}

/// Whether every stored message names a known role.
pub open spec fn roles_valid(ms: Seq<StoredMessage>) -> bool {
    forall|i: int| 0 <= i < ms.len() ==> is_role_name(#[trigger] ms[i].role@)
}

/// Whether session `s` shows what the store `v` holds for its conversation:
/// the conversation exists, has the same title, and the same messages.
pub open spec fn agrees(s: SessionView, v: Seq<StoreEntry>) -> bool {
    &&& has_conversation(v, s.id)
    &&& s.title == v[index_of(v, s.id)].conversation.title@
    &&& session_turns(s.messages) == stored_turns(messages_of(v, s.id))
}

/// A session that agrees with the store holds only known roles there.
pub proof fn lemma_agrees_roles_valid(s: SessionView, v: Seq<StoreEntry>)
    requires
        agrees(s, v),
    ensures
        roles_valid(messages_of(v, s.id)),
{
    let ms = messages_of(v, s.id);
    assert forall|i: int| 0 <= i < ms.len() implies is_role_name(#[trigger] ms[i].role@) by {
        assert(stored_turns(ms).len() == ms.len());
        assert(session_turns(s.messages).len() == s.messages.len());
        assert(stored_turns(ms)[i] == session_turns(s.messages)[i]);
        assert(role_name(s.messages[i].role) == ms[i].role@);
    }
}

/// A session that agrees with one store agrees with any store that holds
/// the same for its conversation.
pub proof fn lemma_agrees_frame(s: SessionView, v: Seq<StoreEntry>, w: Seq<StoreEntry>)
    requires
        agrees(s, v),
        same_for(v, w, s.id),
    ensures
        agrees(s, w),
{
}

/// Two sessions that agree with the same store for the same identifier show
/// the same title and the same messages: identifier, role, text and time of
/// each. A session read again after the cache forgot it is the one read
/// before.
pub proof fn lemma_cache_store_consistency(s1: SessionView, s2: SessionView, v: Seq<StoreEntry>)
    requires
        agrees(s1, v),
        agrees(s2, v),
        s1.id == s2.id,
    ensures
        s1.title == s2.title,
        s1.messages.len() == s2.messages.len(),
        forall|i: int|
            0 <= i < s1.messages.len() ==> (#[trigger] s1.messages[i]).role == s2.messages[i].role
                && s1.messages[i].content == s2.messages[i].content && s1.messages[i].id
                == s2.messages[i].id && s1.messages[i].timestamp == s2.messages[i].timestamp,
{
    assert(session_turns(s1.messages).len() == session_turns(s2.messages).len());
    assert forall|i: int| 0 <= i < s1.messages.len() implies (
    #[trigger] s1.messages[i]).role == s2.messages[i].role && s1.messages[i].content
        == s2.messages[i].content && s1.messages[i].id == s2.messages[i].id
        && s1.messages[i].timestamp == s2.messages[i].timestamp by {
        assert(session_turns(s1.messages)[i] == session_turns(s2.messages)[i]);
        crate::session::lemma_role_names_distinct(s1.messages[i].role, s2.messages[i].role);
    }
}

/// Builds the in-memory session of conversation `c` from its stored
/// messages. Fails on the first message whose role is unknown.
fn rehydrate(c: &Conversation, stored: &Vec<StoredMessage>) -> (r: Result<
    ConversationSession,
    CoreError,
>)
    ensures
        r is Ok <==> roles_valid(stored@),
        r matches Ok(s) ==> s.id == c.id && s.title == c.title && session_turns(s@.messages)
            == stored_turns(stored@),
        r matches Err(e) ==> e is InvalidRole,
{
    let mut msgs: Vec<Message> = Vec::new();
    let mut i: usize = 0;
    assert(stored@.take(0) =~= Seq::<StoredMessage>::empty());
    assert(session_turns(message_views(msgs@)) =~= stored_turns(stored@.take(0)));
    while i < stored.len()
        invariant
            i <= stored@.len(),
            session_turns(message_views(msgs@)) == stored_turns(stored@.take(i as int)),
            forall|j: int| 0 <= j < i ==> is_role_name(#[trigger] stored@[j].role@),
        decreases stored@.len() - i,
    {
        let sm = &stored[i];
        match MessageRole::parse(sm.role.as_str()) {
            None => {
                return Err(CoreError::InvalidRole(sm.role.clone()));
            },
            Some(role) => {
                let m = Message {
                    id: message_id_text(sm.id),
                    role,
                    content: sm.content.clone(),
                    timestamp: sm.created_at,
                    metadata: Vec::new(),
                };
                let ghost before = msgs@;
                msgs.push(m);
                proof {
                    assert(message_views(msgs@) =~= message_views(before).push(m@));
                    assert(session_turns(message_views(msgs@)) =~= session_turns(
                        message_views(before),
                    ).push(Turn { id: id_text(sm.id), role: role_name(role), content: sm.content@, time: sm.created_at }));
                    assert(stored@.take(i + 1) =~= stored@.take(i as int).push(stored@[i as int]));
                    assert(stored_turns(stored@.take(i + 1)) =~= stored_turns(
                        stored@.take(i as int),
                    ).push(Turn { id: id_text(sm.id), role: sm.role@, content: sm.content@, time: sm.created_at }));
                    assert(is_role_name(stored@[i as int].role@));
                }
            },
        }
        i = i + 1;
    }
    assert(stored@.take(stored@.len() as int) =~= stored@);
    let s = ConversationSession {
        id: c.id.clone(),
        title: c.title.clone(),
        created_at: c.created_at,
        updated_at: c.updated_at,
        messages: msgs,
        metadata: Vec::new(),
    };
    Ok(s)
}

/// Whether cache `c` holds session `id`.
pub open spec fn in_cache(c: Seq<SessionView>, id: Seq<char>) -> bool {
    exists|i: int| 0 <= i < c.len() && (#[trigger] c[i]).id == id
}

/// The position of session `id` in cache `c`.
pub open spec fn cached_index(c: Seq<SessionView>, id: Seq<char>) -> int {
    choose|i: int| 0 <= i < c.len() && (#[trigger] c[i]).id == id
}

/// With each session cached once, the position found for a cached session
/// is its own.
pub proof fn lemma_cached_index(c: Seq<SessionView>, i: int)
    requires
        0 <= i < c.len(),
        forall|a: int, b: int|
            0 <= a < c.len() && 0 <= b < c.len() && (#[trigger] c[a]).id == (#[trigger] c[b]).id
                ==> a == b,
    ensures
        in_cache(c, c[i].id),
        cached_index(c, c[i].id) == i,
{
    assert(in_cache(c, c[i].id));
    let j = cached_index(c, c[i].id);
    assert(c[j].id == c[i].id);
}

/// How message `m` shows once stored as `saved`: with the record's
/// sequence number as its identifier.
pub open spec fn stored_view(m: MessageView, saved: StoredMessage) -> MessageView {
    MessageView { id: id_text(saved.id), ..m }
}

/// Whether cache `d` is cache `c` after message `m` was appended at `now`
/// to session `id`: to its cached copy when there is one; else to the
/// session read from the store, which is then cached at the end.
pub open spec fn appended_to_cache(
    c: Seq<SessionView>,
    d: Seq<SessionView>,
    id: Seq<char>,
    m: MessageView,
    now: i64,
) -> bool {
    if in_cache(c, id) {
        let i = cached_index(c, id);
        d == c.update(i, SessionView { messages: c[i].messages.push(m), updated_at: now, ..c[i] })
    } else {
        &&& d.len() == c.len() + 1
        &&& d.drop_last() == c
        &&& d.last().id == id
        &&& d.last().updated_at == now
        &&& d.last().messages.len() > 0
        &&& d.last().messages.last() == m
    }
}

/// Whether cache `d` is cache `c` after session `id` was retitled `title`
/// at `now`; unchanged when it is not cached.
pub open spec fn renamed_in_cache(
    c: Seq<SessionView>,
    d: Seq<SessionView>,
    id: Seq<char>,
    title: Seq<char>,
    now: i64,
) -> bool {
    if in_cache(c, id) {
        let i = cached_index(c, id);
        d == c.update(i, SessionView { title, updated_at: now, ..c[i] })
    } else {
        d == c
    }
}

/// Whether each session is cached at most once in `c`.
pub open spec fn cache_ids_unique(c: Seq<SessionView>) -> bool {
    forall|a: int, b: int|
        0 <= a < c.len() && 0 <= b < c.len() && (#[trigger] c[a]).id == (#[trigger] c[b]).id ==> a
            == b
}

/// Messages appended one after another to a cached session show in its
/// cached copy in the order in which they were appended.
pub proof fn lemma_cache_append_order(
    c0: Seq<SessionView>,
    c1: Seq<SessionView>,
    c2: Seq<SessionView>,
    c3: Seq<SessionView>,
    id: Seq<char>,
    m1: MessageView,
    m2: MessageView,
    m3: MessageView,
    t1: i64,
    t2: i64,
    t3: i64,
)
    requires
        cache_ids_unique(c0),
        in_cache(c0, id),
        appended_to_cache(c0, c1, id, m1, t1),
        appended_to_cache(c1, c2, id, m2, t2),
        appended_to_cache(c2, c3, id, m3, t3),
    ensures
        c3.len() == c0.len(),
        c3[cached_index(c0, id)].messages == c0[cached_index(c0, id)].messages + seq![m1, m2, m3],
        c3[cached_index(c0, id)].updated_at == t3,
{
    let i = cached_index(c0, id);
    lemma_cached_index(c0, i);
    assert(c1[i].id == id);
    assert(cache_ids_unique(c1)) by {
        assert forall|a: int, b: int|
            0 <= a < c1.len() && 0 <= b < c1.len() && (#[trigger] c1[a]).id == (#[trigger] c1[b]).id
                implies a == b by {
            assert(c1[a].id == c0[a].id && c1[b].id == c0[b].id);
        }
    }
    lemma_cached_index(c1, i);
    assert(c2[i].id == id);
    assert(cache_ids_unique(c2)) by {
        assert forall|a: int, b: int|
            0 <= a < c2.len() && 0 <= b < c2.len() && (#[trigger] c2[a]).id == (#[trigger] c2[b]).id
                implies a == b by {
            assert(c2[a].id == c1[a].id && c2[b].id == c1[b].id);
        }
    }
    lemma_cached_index(c2, i);
    assert(c0[i].messages.push(m1).push(m2).push(m3) =~= c0[i].messages + seq![m1, m2, m3]);
}

/// Renaming a cached session to the title it already has leaves its cached
/// copy as it was, title and messages alike, but for `updated_at`, which
/// moves to the time of the rename.
pub proof fn lemma_rename_same_title_cache(
    c: Seq<SessionView>,
    d: Seq<SessionView>,
    id: Seq<char>,
    now: i64,
)
    requires
        cache_ids_unique(c),
        in_cache(c, id),
        renamed_in_cache(c, d, id, c[cached_index(c, id)].title, now),
    ensures
        d.len() == c.len(),
        d[cached_index(c, id)] == (SessionView { updated_at: now, ..c[cached_index(c, id)] }),
        forall|j: int| 0 <= j < c.len() && j != cached_index(c, id) ==> #[trigger] d[j] == c[j],
{
}

/// How many sessions a listing shows at most.
pub const SESSION_LIST_LIMIT: i32 = 100;

/// The conversations that a listing of sessions shows, in its order.
pub open spec fn listed(v: Seq<StoreEntry>) -> Seq<Conversation> {
    page(newest_first(conversations_of(v)), SESSION_LIST_LIMIT as int, 0)
}

/// Whether summary `s` shows conversation `c`.
pub open spec fn summarizes(s: SessionSummary, c: Conversation) -> bool {
    &&& s.id == c.id
    &&& s.title == c.title
    &&& s.created_at == c.created_at
    &&& s.updated_at == c.updated_at
}

/// Renaming a session to the title it already has changes nothing that a
/// reader of sessions can see: every session agrees with the store after
/// exactly when it did before. Only the conversation's `updated_at` moves,
/// to the time of the rename.
pub proof fn lemma_rename_same_title(
    v: Seq<StoreEntry>,
    w: Seq<StoreEntry>,
    id: Seq<char>,
    now: i64,
)
    requires
        ids_unique(v),
        has_conversation(v, id),
        stamped(v, w, id, Some(v[index_of(v, id)].conversation.title@), now),
    ensures
        forall|s: SessionView| agrees(s, v) <==> #[trigger] agrees(s, w),
        has_conversation(w, id),
        w[index_of(w, id)].conversation.title@ == v[index_of(v, id)].conversation.title@,
        w[index_of(w, id)].conversation.updated_at == now,
        messages_of(w, id) == messages_of(v, id),
{
    let k = index_of(v, id);
    lemma_index_of(v, k);
    lemma_frame_update(v, w, k);
    lemma_index_of(w, k);
    assert forall|s: SessionView| agrees(s, v) <==> #[trigger] agrees(s, w) by {
        if s.id != id {
            assert(same_for(v, w, s.id));
        }
    }
}

/// The session cache over the conversation store.
pub struct ContextManager {
    repository: ConversationRepository,
    sessions_cache: Vec<ConversationSession>,
    active_session_id: Option<String>,
    current_model: String,
}

impl ContextManager {
    /// What the store holds.
    pub closed spec fn store(&self) -> Seq<StoreEntry> {
        self.repository@
    }

    /// The cached sessions.
    pub closed spec fn cache(&self) -> Seq<SessionView> {
        self.sessions_cache@.map_values(|s: ConversationSession| s@)
    }

    /// The identifier of the active session, if any.
    pub closed spec fn active(&self) -> Option<Seq<char>> {
        match self.active_session_id {
            Some(s) => Some(s@),
            None => None,
        }
    }

    /// The model name that new conversations are tagged with.
    pub closed spec fn model(&self) -> Seq<char> {
        self.current_model@
    }

    /// The sequence number that the store gives the next message.
    pub closed spec fn next_id(&self) -> int {
        self.repository.next_id()
    }

    /// Whether the store can give one more message an identifier.
    pub open spec fn can_append(&self) -> bool {
        self.next_id() < i64::MAX
    }

    /// The store's own invariant.
    pub closed spec fn store_wf(&self) -> bool {
        self.repository.wf()
    }

    /// Whether session `id` is cached.
    pub open spec fn is_cached(&self, id: Seq<char>) -> bool {
        in_cache(self.cache(), id)
    }

    /// The invariant: each session is cached at most once, and every cached
    /// session agrees with the store.
    pub open spec fn wf(&self) -> bool {
        &&& self.store_wf()
        &&& ids_unique(self.store())
        &&& forall|i: int| 0 <= i < self.cache().len() ==> agrees(#[trigger] self.cache()[i], self.store())
        &&& forall|i: int, j: int|
            0 <= i < self.cache().len() && 0 <= j < self.cache().len() && (#[trigger] self.cache()[i]).id
                == (#[trigger] self.cache()[j]).id ==> i == j
    }

    /// A cache over `repository`, with nothing cached and no active session.
    pub fn new(repository: ConversationRepository, model_name: String) -> (r: ContextManager)
        requires
            repository.wf(),
        ensures
            r.wf(),
            r.store() == repository@,
            r.next_id() == repository.next_id(),
            r.cache().len() == 0,
            r.active() is None,
            r.model() == model_name@,
    {
        let r = ContextManager {
            repository,
            sessions_cache: Vec::new(),
            active_session_id: None,
            current_model: model_name,
        };
        assert(r.cache().len() == 0);
        r
    }

    /// The store, read only.
    pub fn repository(&self) -> (r: &ConversationRepository)
        requires
            self.wf(),
        ensures
            r.wf(),
            r@ == self.store(),
    {
        &self.repository
    }

    /// Forgets every cached session and hands back the store.
    pub fn into_repository(self) -> (r: ConversationRepository)
        requires
            self.wf(),
        ensures
            r.wf(),
            r@ == self.store(),
    {
        self.repository
    }

    /// Sets the model name that new conversations are tagged with.
    pub fn set_current_model(&mut self, model_name: String)
        requires
            old(self).wf(),
        ensures
            final(self).wf(),
            final(self).next_id() == old(self).next_id(),
            final(self).model() == model_name@,
            final(self).store() == old(self).store(),
            final(self).cache() == old(self).cache(),
            final(self).active() == old(self).active(),
    {
        let ghost before = self.cache();
        self.current_model = model_name;
        assert(self.cache() == before);
        assert(self.store() == old(self).store());
    }

    /// Reads session `id` from the store, without caching it.
    fn read_session(&self, id: &str) -> (r: Result<ConversationSession, CoreError>)
        requires
            self.wf(),
        ensures
            r is Ok <==> has_conversation(self.store(), id@) && roles_valid(
                messages_of(self.store(), id@),
            ),
            r matches Ok(s) ==> s@.id == id@ && agrees(s@, self.store()),
            r matches Err(e) ==> {
                &&& (e matches CoreError::NotFound(x) ==> x@ == id@)
                &&& (e is NotFound <==> !has_conversation(self.store(), id@))
                &&& (e is InvalidRole <==> has_conversation(self.store(), id@))
            },
    {
        let conv = match self.repository.get_conversation(id) {
            Some(c) => c,
            None => {
                return Err(CoreError::NotFound(String::from_str(id)));
            },
        };
        let stored = self.repository.get_messages(id);
        rehydrate(&conv, &stored)
    }

    /// Reads session `id` from the store into the cache, at its end.
    fn load_session_to_cache(&mut self, id: &str) -> (r: Result<usize, CoreError>)
        requires
            old(self).wf(),
            !old(self).is_cached(id@),
        ensures
            final(self).wf(),
            final(self).store() == old(self).store(),
            final(self).active() == old(self).active(),
            final(self).model() == old(self).model(),
            final(self).next_id() == old(self).next_id(),
            r is Ok <==> has_conversation(old(self).store(), id@) && roles_valid(
                messages_of(old(self).store(), id@),
            ),
            match r {
                Ok(i) => {
                    &&& i == old(self).cache().len()
                    &&& final(self).cache() == old(self).cache().push(final(self).cache()[i as int])
                    &&& final(self).cache()[i as int].id == id@
                },
                Err(e) => {
                    &&& final(self).cache() == old(self).cache()
                    &&& (e matches CoreError::NotFound(x) ==> x@ == id@)
                    &&& (e is NotFound <==> !has_conversation(old(self).store(), id@))
                    &&& (e is InvalidRole <==> has_conversation(old(self).store(), id@))
                },
            },
    {
        let session = match self.read_session(id) {
            Ok(s) => s,
            Err(e) => {
                return Err(e);
            },
        };
        let ghost before = self.cache();
        let n = self.sessions_cache.len();
        self.sessions_cache.push(session);
        proof {
            assert(self.cache() =~= before.push(session@));
            assert forall|a: int, b: int|
                0 <= a < self.cache().len() && 0 <= b < self.cache().len() && (
                #[trigger] self.cache()[a]).id == (#[trigger] self.cache()[b]).id implies a == b by {
                if a < n && b == n {
                    assert(before[a].id == id@);
                }
                if b < n && a == n {
                    assert(before[b].id == id@);
                }
            }
        }
        Ok(n)
    }

    /// Session `id`: a copy of the cached session when there is one, which
    /// leaves the cache as it is; else the session read from the store,
    /// which is then cached. Fails with `NotFound` when the store lacks the
    /// conversation and with `InvalidRole` when one of its messages names an
    /// unknown role; a failure leaves the cache as it is.
    pub fn get_session(&mut self, id: &str) -> (r: Result<ConversationSession, CoreError>)
        requires
            old(self).wf(),
        ensures
            final(self).wf(),
            final(self).store() == old(self).store(),
            final(self).active() == old(self).active(),
            final(self).model() == old(self).model(),
            final(self).next_id() == old(self).next_id(),
            r is Ok <==> has_conversation(old(self).store(), id@) && roles_valid(
                messages_of(old(self).store(), id@),
            ),
            old(self).is_cached(id@) ==> final(self).cache() == old(self).cache(),
            old(self).is_cached(id@) ==> (r matches Ok(s) && s@ == old(self).cache()[cached_index(
                old(self).cache(),
                id@,
            )]),
            !old(self).is_cached(id@) ==> (r matches Ok(s) ==> final(self).cache() == old(
                self,
            ).cache().push(s@)),
            match r {
                Ok(s) => {
                    &&& s@.id == id@
                    &&& agrees(s@, final(self).store())
                    &&& final(self).is_cached(id@)
                },
                Err(e) => {
                    &&& final(self).cache() == old(self).cache()
                    &&& (e matches CoreError::NotFound(x) ==> x@ == id@)
                    &&& (e is NotFound <==> !has_conversation(old(self).store(), id@))
                    &&& (e is InvalidRole <==> has_conversation(old(self).store(), id@))
                },
            },
    {
        match self.find_cached(id) {
            Some(i) => {
                assert(self.cache()[i as int] == self.sessions_cache@[i as int]@);
                proof {
                    lemma_agrees_roles_valid(self.cache()[i as int], self.store());
                    lemma_cached_index(self.cache(), i as int);
                }
                Ok(self.sessions_cache[i].clone())
            },
            None => {
                match self.load_session_to_cache(id) {
                    Ok(i) => {
                        assert(self.cache().len() == i + 1);
                        assert(self.sessions_cache@.len() == self.cache().len());
                        assert(self.cache()[i as int] == self.sessions_cache@[i as int]@);
                        let s = self.sessions_cache[i].clone();
                        assert(self.cache() == old(self).cache().push(s@));
                        Ok(s)
                    },
                    Err(e) => Err(e),
                }
            },
        }
    }

    /// Creates a conversation titled `title`, tagged with the current model
    /// name, caches its empty session, and makes it the active session when
    /// none is. Returns the new identifier. Fails only when the fresh
    /// random identifier is already taken, which needs a conversation with a
    /// 36-character identifier, or when the store is full.
    pub fn create_session(&mut self, title: String) -> (r: Result<String, CoreError>)
        requires
            old(self).wf(),
        ensures
            final(self).wf(),
            final(self).next_id() == old(self).next_id(),
            final(self).model() == old(self).model(),
            r is Err ==> old(self).store().len() >= i64::MAX || exists|i: int|
                0 <= i < old(self).store().len() && (#[trigger] old(
                    self,
                ).store()[i]).conversation.id@.len() == 36,
            match r {
                Ok(id) => {
                    &&& !has_conversation(old(self).store(), id@)
                    &&& exists|c: Conversation|
                        {
                            &&& c.id@ == id@
                            &&& c.title@ == title@
                            &&& c.model_name@ == old(self).model()
                            &&& c.created_at == c.updated_at
                            &&& final(self).store() == old(self).store().push(
                                StoreEntry { conversation: c, messages: seq![] },
                            )
                            &&& final(self).cache() == old(self).cache().push(
                                SessionView {
                                    id: c.id@,
                                    title: c.title@,
                                    created_at: c.created_at,
                                    updated_at: c.updated_at,
                                    messages: seq![],
                                    metadata: seq![],
                                },
                            )
                        }
                    &&& final(self).is_cached(id@)
                    &&& final(self).active() == match old(self).active() {
                        Some(a) => Some(a),
                        None => Some(id@),
                    }
                },
                Err(e) => {
                    &&& e is Store
                    &&& final(self).store() == old(self).store()
                    &&& final(self).cache() == old(self).cache()
                    &&& final(self).active() == old(self).active()
                },
            },
    {
        let conv = match self.repository.create_conversation(
            title.as_str(),
            self.current_model.as_str(),
        ) {
            Ok(c) => c,
            Err(e) => {
                assert(self.cache() == old(self).cache());
                return Err(e);
            },
        };
        let ghost v = old(self).store();
        let ghost before = self.cache();
        assert(before == old(self).cache());
        let id = conv.id.clone();
        let session = ConversationSession {
            id: conv.id.clone(),
            title,
            created_at: conv.created_at,
            updated_at: conv.updated_at,
            messages: Vec::new(),
            metadata: Vec::new(),
        };
        let n = self.sessions_cache.len();
        self.sessions_cache.push(session);
        if self.active_session_id.is_none() {
            self.active_session_id = Some(id.clone());
        }
        proof {
            let e = StoreEntry { conversation: conv, messages: seq![] };
            lemma_frame_push(v, e);
            assert(self.cache() =~= before.push(session@));
            assert(session@.messages =~= Seq::<MessageView>::empty());
            assert(session@.metadata =~= Seq::<crate::session::MetadataEntry>::empty());
            assert(session_turns(session@.messages) =~= stored_turns(messages_of(self.store(), id@)));
            assert forall|i: int| 0 <= i < self.cache().len() implies agrees(
                #[trigger] self.cache()[i],
                self.store(),
            ) by {
                if i < n {
                    assert(agrees(before[i], v));
                    if before[i].id == id@ {
                        assert(has_conversation(v, id@));
                    }
                    lemma_agrees_frame(before[i], v, self.store());
                }
            }
            assert forall|a: int, b: int|
                0 <= a < self.cache().len() && 0 <= b < self.cache().len() && (
                #[trigger] self.cache()[a]).id == (#[trigger] self.cache()[b]).id implies a == b by {
                if a < n && b == n {
                    assert(agrees(before[a], v));
                }
                if b < n && a == n {
                    assert(agrees(before[b], v));
                }
            }
            assert(self.is_cached(id@)) by {
                assert(self.cache()[n as int].id == id@);
            }
        }
        Ok(id)
    }

    /// Appends `message` to session `session_id`. The session is looked up
    /// first (in the cache, else read from the store, which fails with
    /// `NotFound` or `InvalidRole` before anything is written). The message
    /// is then written to the store, and only once that succeeds appended
    /// to the cached copy, which is cached now if it was not, with the
    /// store's sequence number as its identifier and `updated_at` set to the
    /// time of the write. Any failure leaves store and cache as they were.
    pub fn add_message(&mut self, session_id: &str, message: Message) -> (r: Result<(), CoreError>)
        requires
            old(self).wf(),
        ensures
            final(self).wf(),
            final(self).active() == old(self).active(),
            final(self).model() == old(self).model(),
            r is Ok <==> has_conversation(old(self).store(), session_id@) && roles_valid(
                messages_of(old(self).store(), session_id@),
            ) && old(self).can_append(),
            r is Ok ==> final(self).next_id() == old(self).next_id() + 1,
            r is Ok ==> final(self).is_cached(session_id@) && has_conversation(
                final(self).store(),
                session_id@,
            ),
            r is Ok ==> exists|saved: StoredMessage, now: i64|
                {
                    &&& saved.conversation_id@ == session_id@
                    &&& saved.role@ == role_name(message.role)
                    &&& saved.content == message.content
                    &&& saved.created_at == message.timestamp
                    &&& saved.tokens is None
                    &&& saved.id == Some(old(self).next_id() as i64)
                    &&& final(self).store() == appended(old(self).store(), saved, now)
                    &&& appended_to_cache(
                        old(self).cache(),
                        final(self).cache(),
                        session_id@,
                        stored_view(message@, saved),
                        now,
                    )
                },
            r is Err ==> final(self).store() == old(self).store() && final(self).cache() == old(
                self,
            ).cache() && final(self).next_id() == old(self).next_id(),
            r matches Err(e) ==> (e is NotFound <==> !has_conversation(old(self).store(), session_id@)),
    {
        let found = self.find_cached(session_id);
        let fresh: Option<ConversationSession> = match found {
            Some(i) => {
                proof {
                    lemma_agrees_roles_valid(self.cache()[i as int], self.store());
                }
                None
            },
            None => match self.read_session(session_id) {
                Ok(s) => Some(s),
                Err(e) => {
                    return Err(e);
                },
            },
        };
        let now = now_seconds();
        let stored = StoredMessage {
            id: None,
            conversation_id: String::from_str(session_id),
            role: String::from_str(message.role.as_str()),
            content: message.content.clone(),
            tokens: None,
            created_at: message.timestamp,
        };
        let ghost v = self.store();
        let ghost before = self.cache();
        let ghost mv = message@;
        let saved = match self.repository.add_message_at(&stored, now) {
            Ok(m) => m,
            Err(e) => {
                assert(self.cache() == before);
                return Err(e);
            },
        };
        let ghost w = self.store();
        let cached_message = Message { id: message_id_text(saved.id), ..message };
        assert(cached_message@ == stored_view(mv, saved));
        proof {
            let k = index_of(v, session_id@);
            lemma_index_of(v, k);
            lemma_frame_update(v, w, k);
            lemma_appended(v, saved, now);
            assert(stored_turns(messages_of(w, session_id@)) =~= stored_turns(
                messages_of(v, session_id@),
            ).push(
                Turn {
                    id: id_text(saved.id),
                    role: saved.role@,
                    content: saved.content@,
                    time: saved.created_at,
                },
            ));
        }
        match found {
            Some(i) => {
                assert(before.len() == self.sessions_cache@.len());
                assert(before[i as int] == self.sessions_cache@[i as int]@);
                let mut s = self.sessions_cache.remove(i);
                s.add_message_at(cached_message, now);
                self.sessions_cache.insert(i, s);
                proof {
                    lemma_cached_index(before, i as int);
                    assert(message_views(s.messages@) =~= before[i as int].messages.push(
                        cached_message@,
                    ));
                    assert(s@ == SessionView {
                        messages: before[i as int].messages.push(cached_message@),
                        updated_at: now,
                        ..before[i as int]
                    });
                    assert(self.cache() =~= before.update(i as int, s@));
                    assert(session_turns(s@.messages) =~= session_turns(before[i as int].messages).push(
                        Turn {
                            id: id_text(saved.id),
                            role: role_name(mv.role),
                            content: mv.content,
                            time: mv.timestamp,
                        },
                    ));
                    assert(agrees(s@, w));
                    assert(self.cache()[i as int].id == session_id@);
                    assert forall|j: int| 0 <= j < self.cache().len() implies agrees(
                        #[trigger] self.cache()[j],
                        self.store(),
                    ) by {
                        if j != i {
                            assert(agrees(before[j], v));
                            assert(before[j].id != session_id@);
                            lemma_agrees_frame(before[j], v, w);
                        }
                    }
                    assert forall|a: int, b: int|
                        0 <= a < self.cache().len() && 0 <= b < self.cache().len() && (
                        #[trigger] self.cache()[a]).id == (#[trigger] self.cache()[b]).id implies a
                        == b by {
                        assert(before[a].id == self.cache()[a].id);
                        assert(before[b].id == self.cache()[b].id);
                    }
                }
            },
            None => {
                match fresh {
                    Some(s0) => {
                        let ghost f = s0@;
                        let mut s = s0;
                        s.add_message_at(cached_message, now);
                        let n = self.sessions_cache.len();
                        self.sessions_cache.push(s);
                        proof {
                            assert(message_views(s.messages@) =~= f.messages.push(cached_message@));
                            assert(self.cache() =~= before.push(s@));
                            assert(self.cache().drop_last() =~= before);
                            assert(session_turns(s@.messages) =~= session_turns(f.messages).push(
                                Turn {
                                    id: id_text(saved.id),
                                    role: role_name(mv.role),
                                    content: mv.content,
                                    time: mv.timestamp,
                                },
                            ));
                            assert(agrees(s@, w));
                            assert(self.cache()[n as int].id == session_id@);
                            assert forall|j: int| 0 <= j < self.cache().len() implies agrees(
                                #[trigger] self.cache()[j],
                                self.store(),
                            ) by {
                                if j < n {
                                    assert(agrees(before[j], v));
                                    assert(before[j].id != session_id@);
                                    lemma_agrees_frame(before[j], v, w);
                                }
                            }
                            assert forall|a: int, b: int|
                                0 <= a < self.cache().len() && 0 <= b < self.cache().len() && (
                                #[trigger] self.cache()[a]).id == (#[trigger] self.cache()[b]).id
                                implies a == b by {
                                if a < n && b == n {
                                    assert(before[a].id == session_id@);
                                }
                                if b < n && a == n {
                                    assert(before[b].id == session_id@);
                                }
                            }
                        }
                    },
                    None => {},
                }
            },
        }
        Ok(())
    }

    /// Summaries of the sessions, read from the store and not the cache:
    /// the `SESSION_LIST_LIMIT` most recently updated, most recent first.
    pub fn list_sessions(&self) -> (r: Vec<SessionSummary>)
        requires
            self.wf(),
        ensures
            r@.len() == listed(self.store()).len(),
            forall|i: int|
                0 <= i < r@.len() ==> summarizes(#[trigger] r@[i], listed(self.store())[i]),
            forall|i: int, j: int|
                0 <= i < j < r@.len() ==> (#[trigger] r@[i]).updated_at >= (#[trigger] r@[j]).updated_at,
    {
        let convs = self.repository.list_conversations(SESSION_LIST_LIMIT, 0);
        assert(newest_first_ordered(convs@));
        let mut out: Vec<SessionSummary> = Vec::new();
        let mut i: usize = 0;
        while i < convs.len()
            invariant
                convs@ == listed(self.store()),
                i <= convs@.len(),
                out@.len() == i,
                forall|j: int| 0 <= j < i ==> summarizes(#[trigger] out@[j], convs@[j]),
            decreases convs@.len() - i,
        {
            let c = &convs[i];
            out.push(
                SessionSummary {
                    id: c.id.clone(),
                    title: c.title.clone(),
                    created_at: c.created_at,
                    updated_at: c.updated_at,
                },
            );
            i = i + 1;
        }
        assert forall|a: int, b: int| 0 <= a < b < out@.len() implies (#[trigger] out@[a]).updated_at
            >= (#[trigger] out@[b]).updated_at by {
            assert(out@[a].updated_at == convs@[a].updated_at);
            assert(out@[b].updated_at == convs@[b].updated_at);
        }
        out
    }

    /// Deletes session `id` from the store with all its messages, drops it
    /// from the cache, and clears the active session when it was this one.
    pub fn delete_session(&mut self, id: &str)
        requires
            old(self).wf(),
        ensures
            final(self).wf(),
            final(self).next_id() == old(self).next_id(),
            final(self).model() == old(self).model(),
            final(self).store() == without(old(self).store(), id@),
            !final(self).is_cached(id@),
            forall|x: Seq<char>|
                x != id@ && old(self).is_cached(x) ==> #[trigger] final(self).is_cached(x),
            final(self).active() == (if old(self).active() == Some(id@) {
                None
            } else {
                old(self).active()
            }),
    {
        let ghost v = self.store();
        let ghost before = self.cache();
        self.repository.delete_conversation(id);
        let ghost w = self.store();
        let found = self.find_cached(id);
        let ghost c1 = self.cache();
        assert(c1 == before);
        match found {
            Some(i) => {
                self.sessions_cache.remove(i);
                assert(self.cache() =~= before.remove(i as int));
            },
            None => {},
        }
        let clear = match &self.active_session_id {
            Some(a) => same_text(a.as_str(), id),
            None => false,
        };
        if clear {
            self.active_session_id = None;
        }
        proof {
            if has_conversation(v, id@) {
                let k = index_of(v, id@);
                lemma_index_of(v, k);
                lemma_frame_remove(v, k);
            }
            assert forall|j: int| 0 <= j < self.cache().len() implies agrees(
                #[trigger] self.cache()[j],
                self.store(),
            ) by {
                let j1 = match found {
                    Some(i) => if j < i { j } else { j + 1 },
                    None => j,
                };
                assert(self.cache()[j] == before[j1]);
                assert(agrees(before[j1], v));
                assert(before[j1].id != id@);
                lemma_agrees_frame(before[j1], v, w);
            }
            assert forall|a: int, b: int|
                0 <= a < self.cache().len() && 0 <= b < self.cache().len() && (
                #[trigger] self.cache()[a]).id == (#[trigger] self.cache()[b]).id implies a == b by {
                let a1 = match found {
                    Some(i) => if a < i { a } else { a + 1 },
                    None => a,
                };
                let b1 = match found {
                    Some(i) => if b < i { b } else { b + 1 },
                    None => b,
                };
                assert(self.cache()[a] == before[a1]);
                assert(self.cache()[b] == before[b1]);
            }
            if self.is_cached(id@) {
                let a = choose|a: int| 0 <= a < self.cache().len() && (#[trigger] self.cache()[a]).id == id@;
                let a1 = match found {
                    Some(i) => if a < i { a } else { a + 1 },
                    None => a,
                };
                assert(self.cache()[a] == before[a1]);
            }
            assert forall|x: Seq<char>| x != id@ && old(self).is_cached(x) implies #[trigger] self.is_cached(
                x,
            ) by {
                let a = choose|a: int| 0 <= a < before.len() && (#[trigger] before[a]).id == x;
                match found {
                    Some(i) => {
                        assert(a != i);
                        let a1 = if a < i { a } else { a - 1 };
                        assert(self.cache()[a1] == before[a]);
                    },
                    None => {
                        assert(self.cache()[a] == before[a]);
                    },
                }
            }
        }
    }

    /// Retitles session `id` in the store and, when it is cached, in the
    /// cache; both `updated_at` move to the time of the rename, also when
    /// the title does not change. The cached messages stay as they were.
    pub fn rename_session(&mut self, id: &str, new_title: String)
        requires
            old(self).wf(),
        ensures
            final(self).wf(),
            final(self).next_id() == old(self).next_id(),
            final(self).model() == old(self).model(),
            final(self).active() == old(self).active(),
            exists|now: i64|
                {
                    &&& stamped(old(self).store(), final(self).store(), id@, Some(new_title@), now)
                    &&& renamed_in_cache(old(self).cache(), final(self).cache(), id@, new_title@, now)
                },
            forall|x: Seq<char>| #[trigger] final(self).is_cached(x) == old(self).is_cached(x),
    {
        let ghost v = self.store();
        let ghost before = self.cache();
        let ghost t = new_title@;
        let now = now_seconds();
        self.repository.update_conversation_title_at(id, new_title.as_str(), now);
        let ghost w = self.store();
        let found = self.find_cached(id);
        assert(self.cache() == before);
        match found {
            Some(i) => {
                let mut s = self.sessions_cache.remove(i);
                assert(s@ == before[i as int]);
                s.title = new_title;
                s.updated_at = now;
                self.sessions_cache.insert(i, s);
                assert(self.cache() =~= before.update(i as int, s@));
                proof {
                    lemma_cached_index(before, i as int);
                    assert(s@ == SessionView { title: t, updated_at: now, ..before[i as int] });
                }
            },
            None => {},
        }
        proof {
            if has_conversation(v, id@) {
                let k = index_of(v, id@);
                lemma_index_of(v, k);
                lemma_frame_update(v, w, k);
            }
            assert forall|j: int| 0 <= j < self.cache().len() implies agrees(
                #[trigger] self.cache()[j],
                self.store(),
            ) by {
                assert(agrees(before[j], v));
                if before[j].id != id@ {
                    assert(self.cache()[j] == before[j]);
                    lemma_agrees_frame(before[j], v, w);
                }
            }
            assert forall|a: int, b: int|
                0 <= a < self.cache().len() && 0 <= b < self.cache().len() && (
                #[trigger] self.cache()[a]).id == (#[trigger] self.cache()[b]).id implies a == b by {
                assert(before[a].id == self.cache()[a].id);
                assert(before[b].id == self.cache()[b].id);
            }
            assert(self.store() == w);
            assert(renamed_in_cache(before, self.cache(), id@, t, now));
            assert forall|x: Seq<char>| #[trigger] self.is_cached(x) == old(self).is_cached(x) by {
                if self.is_cached(x) {
                    let a = choose|a: int| 0 <= a < self.cache().len() && (#[trigger] self.cache()[a]).id == x;
                    assert(before[a].id == x);
                }
                if old(self).is_cached(x) {
                    let a = choose|a: int| 0 <= a < before.len() && (#[trigger] before[a]).id == x;
                    assert(self.cache()[a].id == x);
                }
            }
        }
    }

    /// Makes session `id` the active one; it must be cached.
    pub fn set_active_session(&mut self, id: &str) -> (r: Result<(), CoreError>)
        requires
            old(self).wf(),
        ensures
            final(self).wf(),
            final(self).next_id() == old(self).next_id(),
            final(self).store() == old(self).store(),
            final(self).cache() == old(self).cache(),
            final(self).model() == old(self).model(),
            r is Ok <==> old(self).is_cached(id@),
            r is Ok ==> final(self).active() == Some(id@),
            r is Err ==> final(self).active() == old(self).active(),
            r matches Err(e) ==> (e matches CoreError::NotFound(x) && x@ == id@),
    {
        match self.find_cached(id) {
            None => Err(CoreError::NotFound(String::from_str(id))),
            Some(_) => {
                let ghost before = self.cache();
                self.active_session_id = Some(String::from_str(id));
                assert(self.cache() == before);
                Ok(())
            },
        }
    }

    /// The active session, as `get_session` reads it.
    pub fn get_active_session(&mut self) -> (r: Result<ConversationSession, CoreError>)
        requires
            old(self).wf(),
        ensures
            final(self).wf(),
            final(self).store() == old(self).store(),
            final(self).active() == old(self).active(),
            old(self).active() is None ==> r == Err::<ConversationSession, CoreError>(CoreError::NoActiveSession),
            old(self).active() matches Some(id) ==> (r is Ok <==> has_conversation(old(self).store(), id) && roles_valid(messages_of(old(self).store(), id))),
            old(self).active() matches Some(id) ==> (r matches Ok(s) ==> s@.id == id && agrees(s@, final(self).store())),
    {
        let id = match &self.active_session_id {
            None => {
                return Err(CoreError::NoActiveSession);
            },
            Some(a) => a.clone(),
        };
        self.get_session(id.as_str())
    }

    /// Appends `message` to the active session, as `add_message` does.
    pub fn add_message_to_active(&mut self, message: Message) -> (r: Result<(), CoreError>)
        requires
            old(self).wf(),
        ensures
            final(self).wf(),
            final(self).active() == old(self).active(),
            old(self).active() is None ==> r == Err::<(), CoreError>(CoreError::NoActiveSession) && final(self).store() == old(self).store(),
            old(self).active() matches Some(id) ==> (r is Ok <==> has_conversation(old(self).store(), id) && roles_valid(messages_of(old(self).store(), id)) && old(self).can_append()),
            old(self).active() matches Some(id) ==> (r is Ok ==> exists|saved: StoredMessage, now: i64|
                {
                    &&& saved.conversation_id@ == id
                    &&& saved.role@ == role_name(message.role)
                    &&& saved.content == message.content
                    &&& final(self).store() == appended(old(self).store(), saved, now)
                }),
            r is Err ==> final(self).store() == old(self).store(),
    {
        let id = match &self.active_session_id {
            None => {
                return Err(CoreError::NoActiveSession);
            },
            Some(a) => a.clone(),
        };
        self.add_message(id.as_str(), message)
    }

    /// The prompt that asks the model to answer `prompt` with the whole of
    /// session `session_id` in view: its messages rendered one line each,
    /// then a user line holding `prompt`. Fails as `get_session` does.
    pub fn full_context_prompt(&mut self, session_id: &str, prompt: &str) -> (r: Result<
        String,
        CoreError,
    >)
        requires
            old(self).wf(),
        ensures
            final(self).wf(),
            final(self).store() == old(self).store(),
            final(self).active() == old(self).active(),
            r is Ok <==> has_conversation(old(self).store(), session_id@) && roles_valid(
                messages_of(old(self).store(), session_id@),
            ),
            r matches Ok(p) ==> exists|s: SessionView|
                {
                    &&& s.id == session_id@
                    &&& agrees(s, old(self).store())
                    &&& p@ == rendered(s.messages) + "User: "@ + prompt@ + "\n"@
                },
            r matches Err(e) ==> (e is NotFound <==> !has_conversation(old(self).store(), session_id@)),
    {
        match self.get_session(session_id) {
            Ok(s) => {
                let p = render_with_prompt(s.messages.as_slice(), prompt);
                assert(s@.messages == message_views(s.messages@));
                Ok(p)
            },
            Err(e) => Err(e),
        }
    }

    /// Starts a turn of session `session_id`: appends a user message with
    /// `content`, as `add_message` does, then returns the session's
    /// messages rendered one line each with an open assistant line after
    /// them, the text that asks the model for its reply.
    pub fn begin_turn(&mut self, session_id: &str, content: String) -> (r: Result<
        String,
        CoreError,
    >)
        requires
            old(self).wf(),
        ensures
            final(self).wf(),
            final(self).active() == old(self).active(),
            r is Ok <==> has_conversation(old(self).store(), session_id@) && roles_valid(
                messages_of(old(self).store(), session_id@),
            ) && old(self).can_append(),
            r is Err ==> final(self).store() == old(self).store() && final(self).cache() == old(
                self,
            ).cache(),
            r matches Ok(p) ==> exists|saved: StoredMessage, now: i64, s: SessionView|
                {
                    &&& saved.conversation_id@ == session_id@
                    &&& saved.role@ == role_name(MessageRole::User)
                    &&& saved.content == content
                    &&& final(self).store() == appended(old(self).store(), saved, now)
                    &&& s.id == session_id@
                    &&& agrees(s, final(self).store())
                    &&& p@ == rendered(s.messages) + "Assistant: "@
                },
    {
        let message = Message::user(content);
        match self.add_message(session_id, message) {
            Ok(_) => {},
            Err(e) => {
                return Err(e);
            },
        }
        let ghost mid = self.store();
        proof {
            let i = cached_index(self.cache(), session_id@);
            lemma_agrees_roles_valid(self.cache()[i], mid);
        }
        match self.get_session(session_id) {
            Ok(s) => {
                let p = render_for_reply(s.messages.as_slice());
                assert(s@.messages == message_views(s.messages@));
                Ok(p)
            },
            Err(e) => Err(e),
        }
    }

    fn find_cached(&self, id: &str) -> (r: Option<usize>)
        ensures
            r is None <==> !self.is_cached(id@),
            r matches Some(i) ==> i < self.cache().len() && self.cache()[i as int].id == id@,
            r matches Some(i) ==> i < self.sessions_cache@.len() && self.cache()[i as int]
                == self.sessions_cache@[i as int]@,
    {
        let mut i: usize = 0;
        while i < self.sessions_cache.len()
            invariant
                i <= self.sessions_cache@.len(),
                self.sessions_cache@.len() == self.cache().len(),
                forall|j: int| 0 <= j < i ==> (#[trigger] self.cache()[j]).id != id@,
            decreases self.sessions_cache@.len() - i,
        {
            assert(self.cache()[i as int] == self.sessions_cache@[i as int]@);
            if same_text(self.sessions_cache[i].id.as_str(), id) {
                return Some(i);
            }
            i = i + 1;
        }
        None
    }
}

} // verus!
