//! The conversation store: conversations, each with its messages in the
//! order in which they were appended. Deleting a conversation deletes its
//! messages. The tables are held in memory; keeping them across runs is left
//! to the program that owns the store.
use crate::error::CoreError;
use crate::models::{Conversation, StoredMessage};
use crate::stamp::{new_id, now_seconds};
use crate::text::same_text;
use vstd::multiset::Multiset;
use vstd::prelude::*;

verus! {

/// One conversation of the store with its messages, oldest first.
pub struct StoreEntry {
    pub conversation: Conversation,
    pub messages: Seq<StoredMessage>,
}

/// Whether the store holds a conversation with identifier `id`.
pub open spec fn has_conversation(v: Seq<StoreEntry>, id: Seq<char>) -> bool {
    exists|i: int| 0 <= i < v.len() && (#[trigger] v[i]).conversation.id@ == id
}

/// No two conversations of the store share an identifier.
pub open spec fn ids_unique(v: Seq<StoreEntry>) -> bool {
    forall|i: int, j: int|
        0 <= i < v.len() && 0 <= j < v.len() && (#[trigger] v[i]).conversation.id@ == (
        #[trigger] v[j]).conversation.id@ ==> i == j
}

/// The position of the conversation `id` in the store.
pub open spec fn index_of(v: Seq<StoreEntry>, id: Seq<char>) -> int {
    choose|i: int| 0 <= i < v.len() && (#[trigger] v[i]).conversation.id@ == id
}

/// The messages of conversation `id`, oldest first; empty when it is absent.
pub open spec fn messages_of(v: Seq<StoreEntry>, id: Seq<char>) -> Seq<StoredMessage> {
    if has_conversation(v, id) {
        v[index_of(v, id)].messages
    } else {
        Seq::empty()
    }
}

/// The conversations of the store, in the order in which they were created.
pub open spec fn conversations_of(v: Seq<StoreEntry>) -> Seq<Conversation> {
    v.map_values(|e: StoreEntry| e.conversation)
}

/// Places `c` after the leading conversations updated no earlier than it.
pub open spec fn insert_newest(s: Seq<Conversation>, c: Conversation) -> Seq<Conversation>
    decreases s.len(),
{
    if s.len() == 0 {
        seq![c]
    } else if s[0].updated_at >= c.updated_at {
        seq![s[0]] + insert_newest(s.drop_first(), c)
    } else {
        seq![c] + s
    }
}

/// The conversations ordered by `updated_at`, most recent first; among
/// equal times, in the order given.
pub open spec fn newest_first(s: Seq<Conversation>) -> Seq<Conversation>
    decreases s.len(),
{
    if s.len() == 0 {
        Seq::empty()
    } else {
        insert_newest(newest_first(s.drop_last()), s.last())
    }
}

/// Whether the conversations go from most to least recently updated.
pub open spec fn newest_first_ordered(s: Seq<Conversation>) -> bool {
    forall|i: int, j: int| 0 <= i < j < s.len() ==> (#[trigger] s[i]).updated_at >= (
    #[trigger] s[j]).updated_at
}

/// Inserting into an ordered sequence keeps it ordered and adds one item.
pub proof fn lemma_insert_newest_ordered(s: Seq<Conversation>, c: Conversation)
    requires
        newest_first_ordered(s),
    ensures
        newest_first_ordered(insert_newest(s, c)),
        insert_newest(s, c).to_multiset() == s.to_multiset().insert(c),
    decreases s.len(),
{
    if s.len() == 0 {
        assert(insert_newest(s, c) =~= seq![c] + s);
        lemma_multiset_prepend(c, s);
    } else if s[0].updated_at >= c.updated_at {
        let t = s.drop_first();
        assert forall|i: int, j: int| 0 <= i < j < t.len() implies (#[trigger] t[i]).updated_at >= (
        #[trigger] t[j]).updated_at by {
            assert(t[i] == s[i + 1] && t[j] == s[j + 1]);
        }
        lemma_insert_newest_ordered(t, c);
        let r = insert_newest(s, c);
        let u = insert_newest(t, c);
        assert(r == seq![s[0]] + u);
        assert forall|i: int, j: int| 0 <= i < j < r.len() implies (#[trigger] r[i]).updated_at >= (
        #[trigger] r[j]).updated_at by {
            if i == 0 {
                assert(r[j] == u[j - 1]);
                assert(u.to_multiset().count(u[j - 1]) > 0) by {
                    u.to_multiset_ensures();
                }
                if u[j - 1] != c {
                    assert(t.to_multiset().count(u[j - 1]) > 0);
                    t.to_multiset_ensures();
                    let k = choose|k: int| 0 <= k < t.len() && t[k] == u[j - 1];
                    assert(t[k] == s[k + 1]);
                }
            } else {
                assert(r[i] == u[i - 1] && r[j] == u[j - 1]);
            }
        }
        assert(s =~= seq![s[0]] + t);
        lemma_multiset_prepend(s[0], t);
        lemma_multiset_prepend(s[0], u);
        assert(r.to_multiset() =~= s.to_multiset().insert(c));
    } else {
        let r = seq![c] + s;
        assert forall|i: int, j: int| 0 <= i < j < r.len() implies (#[trigger] r[i]).updated_at >= (
        #[trigger] r[j]).updated_at by {
            if i == 0 {
                assert(s[0].updated_at >= s[j - 1].updated_at || j - 1 == 0);
            } else {
                assert(r[i] == s[i - 1] && r[j] == s[j - 1]);
            }
        }
        lemma_multiset_prepend(c, s);
        assert(r.to_multiset() =~= s.to_multiset().insert(c));
    }
}

/// The multiset of a sequence with an item in front.
pub proof fn lemma_multiset_prepend(x: Conversation, s: Seq<Conversation>)
    ensures
        (seq![x] + s).to_multiset() == s.to_multiset().insert(x),
{
    vstd::seq_lib::lemma_multiset_commutative(seq![x], s);
    assert(seq![x] =~= Seq::<Conversation>::empty().push(x));
    Seq::<Conversation>::empty().to_multiset_ensures();
    Seq::<Conversation>::empty().push(x).to_multiset_ensures();
    assert(seq![x].to_multiset() =~= Multiset::<Conversation>::empty().insert(x));
    assert((seq![x] + s).to_multiset() =~= s.to_multiset().insert(x));
}

/// The conversations ordered newest first are the same conversations, from
/// most to least recently updated.
pub proof fn lemma_newest_first(s: Seq<Conversation>)
    ensures
        newest_first_ordered(newest_first(s)),
        newest_first(s).to_multiset() == s.to_multiset(),
    decreases s.len(),
{
    if s.len() == 0 {
        assert(newest_first(s) =~= s);
    } else {
        lemma_newest_first(s.drop_last());
        lemma_insert_newest_ordered(newest_first(s.drop_last()), s.last());
        assert(s =~= s.drop_last().push(s.last()));
        s.drop_last().to_multiset_ensures();
    }
}

/// The page of `s` that skips `offset` items and keeps `limit` of them; a
/// negative limit keeps all the rest and a negative offset skips nothing.
pub open spec fn page<T>(s: Seq<T>, limit: int, offset: int) -> Seq<T> {
    let start = if offset < 0 {
        0
    } else if offset > s.len() {
        s.len() as int
    } else {
        offset
    };
    let end = if limit < 0 || start + limit > s.len() {
        s.len() as int
    } else {
        start + limit
    };
    s.subrange(start, end)
}

/// The last `n` items of `s`; all of them when `n` is negative or at least
/// the length.
pub open spec fn last_n<T>(s: Seq<T>, n: int) -> Seq<T> {
    if n < 0 || n >= s.len() {
        s
    } else {
        s.subrange(s.len() - n, s.len() as int)
    }
}

/// The sum of the token counts of `s`, a missing count taken as zero.
pub open spec fn token_sum(s: Seq<StoredMessage>) -> int
    decreases s.len(),
{
    if s.len() == 0 {
        0
    } else {
        token_sum(s.drop_last()) + match s.last().tokens {
            Some(t) => t as int,
            None => 0,
        }
    }
}

/// Whether `x` lies in the range of `i64`.
pub open spec fn fits_i64(x: int) -> bool {
    i64::MIN <= x <= i64::MAX
}

/// Whether every partial sum of the token counts of `s` lies in the range
/// of `i64`.
pub open spec fn sums_fit(s: Seq<StoredMessage>) -> bool {
    forall|k: int| 0 <= k <= s.len() ==> fits_i64(token_sum(#[trigger] s.take(k)))
}

/// Whether `w` is the store `v` after conversation `id` was stamped with
/// `now` (and retitled `title`, when one is given); `w` is `v` when `id` is
/// absent.
pub open spec fn stamped(
    v: Seq<StoreEntry>,
    w: Seq<StoreEntry>,
    id: Seq<char>,
    title: Option<Seq<char>>,
    now: i64,
) -> bool {
    if has_conversation(v, id) {
        let i = index_of(v, id);
        let c = v[i].conversation;
        let d = w[i].conversation;
        &&& w.len() == v.len()
        &&& forall|j: int| 0 <= j < v.len() && j != i ==> #[trigger] w[j] == v[j]
        &&& w[i].messages == v[i].messages
        &&& d.id == c.id
        &&& d.created_at == c.created_at
        &&& d.model_name == c.model_name
        &&& d.updated_at == now
        &&& match title {
            Some(t) => d.title@ == t,
            None => d.title == c.title,
        }
    } else {
        w == v
    }
}

/// The store after `m` was appended to its conversation at `now`.
pub open spec fn appended(v: Seq<StoreEntry>, m: StoredMessage, now: i64) -> Seq<StoreEntry> {
    let id = m.conversation_id@;
    let e = v[index_of(v, id)];
    v.update(
        index_of(v, id),
        StoreEntry {
            conversation: Conversation { updated_at: now, ..e.conversation },
            messages: e.messages.push(m),
        },
    )
}

/// The store after conversation `id` and all its messages were deleted.
pub open spec fn without(v: Seq<StoreEntry>, id: Seq<char>) -> Seq<StoreEntry> {
    if has_conversation(v, id) {
        v.remove(index_of(v, id))
    } else {
        v
    }
}

/// The store after all but the last `keep` messages of `id` were deleted;
/// unchanged when `keep` is negative.
pub open spec fn pruned(v: Seq<StoreEntry>, id: Seq<char>, keep: int) -> Seq<StoreEntry> {
    if has_conversation(v, id) && keep >= 0 {
        let e = v[index_of(v, id)];
        v.update(
            index_of(v, id),
            StoreEntry { conversation: e.conversation, messages: last_n(e.messages, keep) },
        )
    } else {
        v
    }
}

/// Whether every stored message has a sequence number below `next`.
pub open spec fn ids_below(v: Seq<StoreEntry>, next: int) -> bool {
    forall|i: int, j: int|
        0 <= i < v.len() && 0 <= j < v[i].messages.len() ==> ((#[trigger] v[i].messages[j]).id matches Some(
            x,
        ) && x < next)
}

/// With unique identifiers, the entry found for an identifier is the one
/// that holds it.
pub proof fn lemma_index_of(v: Seq<StoreEntry>, i: int)
    requires
        ids_unique(v),
        0 <= i < v.len(),
    ensures
        has_conversation(v, v[i].conversation.id@),
        index_of(v, v[i].conversation.id@) == i,
{
    let id = v[i].conversation.id@;
    assert(has_conversation(v, id));
    let j = index_of(v, id);
    assert(v[j].conversation.id@ == id);
}


/// Replacing an entry by one with the same identifier keeps identifiers unique.
pub proof fn lemma_update_unique(v: Seq<StoreEntry>, i: int, e: StoreEntry)
    requires
        ids_unique(v),
        0 <= i < v.len(),
        e.conversation.id@ == v[i].conversation.id@,
    ensures
        ids_unique(v.update(i, e)),
{
    let w = v.update(i, e);
    assert forall|a: int, b: int|
        0 <= a < w.len() && 0 <= b < w.len() && (#[trigger] w[a]).conversation.id@ == (
        #[trigger] w[b]).conversation.id@ implies a == b by {
        assert(w[a].conversation.id@ == v[a].conversation.id@);
        assert(w[b].conversation.id@ == v[b].conversation.id@);
    }
}

/// Removing an entry keeps identifiers unique, and its identifier is gone.
pub proof fn lemma_remove_unique(v: Seq<StoreEntry>, i: int)
    requires
        ids_unique(v),
        0 <= i < v.len(),
    ensures
        ids_unique(v.remove(i)),
        !has_conversation(v.remove(i), v[i].conversation.id@),
        forall|id: Seq<char>|
            id != v[i].conversation.id@ ==> (has_conversation(v.remove(i), id)
                == has_conversation(v, id)),
{
    let w = v.remove(i);
    assert forall|a: int, b: int|
        0 <= a < w.len() && 0 <= b < w.len() && (#[trigger] w[a]).conversation.id@ == (
        #[trigger] w[b]).conversation.id@ implies a == b by {
        let a1 = if a < i { a } else { a + 1 };
        let b1 = if b < i { b } else { b + 1 };
        assert(w[a] == v[a1]);
        assert(w[b] == v[b1]);
    }
    if has_conversation(w, v[i].conversation.id@) {
        let a = choose|a: int| 0 <= a < w.len() && (#[trigger] w[a]).conversation.id@ == v[i].conversation.id@;
        let a1 = if a < i { a } else { a + 1 };
        assert(w[a] == v[a1]);
    }
    assert forall|id: Seq<char>| id != v[i].conversation.id@ implies (has_conversation(w, id)
        == has_conversation(v, id)) by {
        if has_conversation(v, id) {
            let a = choose|a: int| 0 <= a < v.len() && (#[trigger] v[a]).conversation.id@ == id;
            assert(a != i);
            let a1 = if a < i { a } else { a - 1 };
            assert(w[a1] == v[a]);
        }
        if has_conversation(w, id) {
            let a = choose|a: int| 0 <= a < w.len() && (#[trigger] w[a]).conversation.id@ == id;
            let a1 = if a < i { a } else { a + 1 };
            assert(w[a] == v[a1]);
        }
    }
}

/// Inserting `c` at the first position whose conversation was updated
/// before it is what `insert_newest` does.
pub proof fn lemma_insert_newest(s: Seq<Conversation>, c: Conversation, p: int)
    requires
        0 <= p <= s.len(),
        forall|j: int| 0 <= j < p ==> (#[trigger] s[j]).updated_at >= c.updated_at,
        p == s.len() || s[p].updated_at < c.updated_at,
    ensures
        insert_newest(s, c) == s.insert(p, c),
    decreases p,
{
    if p == 0 {
        if s.len() == 0 {
            assert(s.insert(0, c) =~= seq![c]);
        } else {
            assert(s.insert(0, c) =~= seq![c] + s);
        }
    } else {
        let t = s.drop_first();
        assert forall|j: int| 0 <= j < p - 1 implies (#[trigger] t[j]).updated_at >= c.updated_at by {
            assert(t[j] == s[j + 1]);
        }
        lemma_insert_newest(t, c, p - 1);
        assert(s.insert(p, c) =~= seq![s[0]] + t.insert(p - 1, c));
    }
}

/// Appending a message adds it at the end of its conversation's messages
/// and leaves every other conversation's messages as they were.
pub proof fn lemma_appended(v: Seq<StoreEntry>, m: StoredMessage, now: i64)
    requires
        ids_unique(v),
        has_conversation(v, m.conversation_id@),
    ensures
        ids_unique(appended(v, m, now)),
        messages_of(appended(v, m, now), m.conversation_id@) == messages_of(
            v,
            m.conversation_id@,
        ).push(m),
        forall|id: Seq<char>|
            has_conversation(appended(v, m, now), id) == has_conversation(v, id),
        forall|id: Seq<char>|
            id != m.conversation_id@ ==> messages_of(appended(v, m, now), id) == messages_of(v, id),
{
    let i = index_of(v, m.conversation_id@);
    let w = appended(v, m, now);
    lemma_update_unique(v, i, w[i]);
    lemma_index_of(w, i);
    assert forall|id: Seq<char>| has_conversation(w, id) == has_conversation(v, id) by {
        if has_conversation(v, id) {
            let a = choose|a: int| 0 <= a < v.len() && (#[trigger] v[a]).conversation.id@ == id;
            assert(w[a].conversation.id@ == id);
        }
        if has_conversation(w, id) {
            let a = choose|a: int| 0 <= a < w.len() && (#[trigger] w[a]).conversation.id@ == id;
            assert(v[a].conversation.id@ == id);
        }
    }
    assert forall|id: Seq<char>| id != m.conversation_id@ implies messages_of(w, id) == messages_of(
        v,
        id,
    ) by {
        if has_conversation(v, id) {
            let a = index_of(v, id);
            lemma_index_of(v, a);
            lemma_index_of(w, a);
        }
    }
}

/// Messages appended one after another to a conversation come back in the
/// order in which they were appended, after those it held before.
pub proof fn lemma_append_order(
    v: Seq<StoreEntry>,
    m1: StoredMessage,
    m2: StoredMessage,
    m3: StoredMessage,
    t1: i64,
    t2: i64,
    t3: i64,
)
    requires
        ids_unique(v),
        has_conversation(v, m1.conversation_id@),
        m2.conversation_id@ == m1.conversation_id@,
        m3.conversation_id@ == m1.conversation_id@,
    ensures
        messages_of(
            appended(appended(appended(v, m1, t1), m2, t2), m3, t3),
            m1.conversation_id@,
        ) == messages_of(v, m1.conversation_id@) + seq![m1, m2, m3],
{
    let v1 = appended(v, m1, t1);
    lemma_appended(v, m1, t1);
    let v2 = appended(v1, m2, t2);
    lemma_appended(v1, m2, t2);
    lemma_appended(v2, m3, t3);
    assert(messages_of(v, m1.conversation_id@).push(m1).push(m2).push(m3) =~= messages_of(
        v,
        m1.conversation_id@,
    ) + seq![m1, m2, m3]);
}

/// Pruning a conversation to its last `k` messages keeps exactly the `k`
/// most recent in their order, or all of them when it holds no more than
/// `k`; other conversations keep their messages.
pub proof fn lemma_prune_keeps_most_recent(v: Seq<StoreEntry>, id: Seq<char>, k: int)
    requires
        ids_unique(v),
        k >= 0,
    ensures
        k < messages_of(v, id).len() ==> messages_of(pruned(v, id, k), id) == messages_of(
            v,
            id,
        ).subrange(messages_of(v, id).len() - k, messages_of(v, id).len() as int),
        k < messages_of(v, id).len() ==> messages_of(pruned(v, id, k), id).len() == k,
        k >= messages_of(v, id).len() ==> messages_of(pruned(v, id, k), id) == messages_of(v, id),
        forall|other: Seq<char>|
            other != id ==> messages_of(pruned(v, id, k), other) == messages_of(v, other),
{
    if has_conversation(v, id) {
        let i = index_of(v, id);
        let w = pruned(v, id, k);
        lemma_update_unique(v, i, w[i]);
        lemma_index_of(v, i);
        lemma_index_of(w, i);
        assert forall|other: Seq<char>| other != id implies messages_of(w, other) == messages_of(
            v,
            other,
        ) by {
            if has_conversation(v, other) {
                let a = index_of(v, other);
                lemma_index_of(v, a);
                lemma_index_of(w, a);
            } else if has_conversation(w, other) {
                let a = choose|a: int| 0 <= a < w.len() && (#[trigger] w[a]).conversation.id@ == other;
                assert(v[a].conversation.id@ == other);
            }
        }
    }
}

/// Once a conversation is deleted none of its messages remain, and asking
/// for them gives an empty list; other conversations keep their messages.
pub proof fn lemma_delete_cascades(v: Seq<StoreEntry>, id: Seq<char>)
    requires
        ids_unique(v),
    ensures
        !has_conversation(without(v, id), id),
        messages_of(without(v, id), id) == Seq::<StoredMessage>::empty(),
        forall|other: Seq<char>|
            other != id ==> messages_of(without(v, id), other) == messages_of(v, other),
{
    if has_conversation(v, id) {
        let i = index_of(v, id);
        let w = without(v, id);
        lemma_remove_unique(v, i);
        assert forall|other: Seq<char>| other != id implies messages_of(w, other) == messages_of(
            v,
            other,
        ) by {
            if has_conversation(v, other) {
                let a = index_of(v, other);
                lemma_index_of(v, a);
                assert(a != i);
                let a1 = if a < i { a } else { a - 1 };
                assert(w[a1] == v[a]);
                lemma_index_of(w, a1);
            }
        }
    }
}

/// Whether conversation `id` has the same presence, title and messages in
/// `v` and in `w`.
pub open spec fn same_for(v: Seq<StoreEntry>, w: Seq<StoreEntry>, id: Seq<char>) -> bool {
    &&& has_conversation(v, id) == has_conversation(w, id)
    &&& has_conversation(v, id) ==> v[index_of(v, id)].conversation.title == w[index_of(
        w,
        id,
    )].conversation.title
    &&& messages_of(v, id) == messages_of(w, id)
}

/// Replacing one entry by another with the same identifier changes nothing
/// for the other identifiers.
pub proof fn lemma_frame_update(v: Seq<StoreEntry>, w: Seq<StoreEntry>, i: int)
    requires
        ids_unique(v),
        0 <= i < v.len(),
        w.len() == v.len(),
        forall|j: int| 0 <= j < v.len() && j != i ==> #[trigger] w[j] == v[j],
        w[i].conversation.id@ == v[i].conversation.id@,
    ensures
        ids_unique(w),
        index_of(w, v[i].conversation.id@) == i,
        index_of(v, v[i].conversation.id@) == i,
        forall|other: Seq<char>| other != v[i].conversation.id@ ==> same_for(v, w, other),
{
    assert(w == v.update(i, w[i]));
    lemma_update_unique(v, i, w[i]);
    lemma_index_of(v, i);
    lemma_index_of(w, i);
    assert forall|other: Seq<char>| other != v[i].conversation.id@ implies same_for(v, w, other) by {
        if has_conversation(v, other) {
            let a = index_of(v, other);
            lemma_index_of(v, a);
            lemma_index_of(w, a);
        } else if has_conversation(w, other) {
            let a = choose|a: int| 0 <= a < w.len() && (#[trigger] w[a]).conversation.id@ == other;
            assert(v[a].conversation.id@ == other);
        }
    }
}

/// Removing one entry changes nothing for the other identifiers.
pub proof fn lemma_frame_remove(v: Seq<StoreEntry>, i: int)
    requires
        ids_unique(v),
        0 <= i < v.len(),
    ensures
        forall|other: Seq<char>|
            other != v[i].conversation.id@ ==> same_for(v, v.remove(i), other),
{
    let w = v.remove(i);
    lemma_remove_unique(v, i);
    assert forall|other: Seq<char>| other != v[i].conversation.id@ implies same_for(v, w, other) by {
        if has_conversation(v, other) {
            let a = index_of(v, other);
            lemma_index_of(v, a);
            assert(a != i);
            let a1 = if a < i { a } else { a - 1 };
            assert(w[a1] == v[a]);
            lemma_index_of(w, a1);
        }
    }
}

/// Adding a new entry changes nothing for the other identifiers.
pub proof fn lemma_frame_push(v: Seq<StoreEntry>, e: StoreEntry)
    requires
        ids_unique(v),
        !has_conversation(v, e.conversation.id@),
    ensures
        ids_unique(v.push(e)),
        has_conversation(v.push(e), e.conversation.id@),
        index_of(v.push(e), e.conversation.id@) == v.len(),
        forall|other: Seq<char>| other != e.conversation.id@ ==> same_for(v, v.push(e), other),
{
    let w = v.push(e);
    assert forall|a: int, b: int|
        0 <= a < w.len() && 0 <= b < w.len() && (#[trigger] w[a]).conversation.id@ == (
        #[trigger] w[b]).conversation.id@ implies a == b by {
        if a < v.len() && b < v.len() {
            assert(w[a] == v[a] && w[b] == v[b]);
        } else if a < v.len() {
            assert(w[a] == v[a]);
        } else if b < v.len() {
            assert(w[b] == v[b]);
        }
    }
    lemma_index_of(w, v.len() as int);
    assert forall|other: Seq<char>| other != e.conversation.id@ implies same_for(v, w, other) by {
        if has_conversation(v, other) {
            let a = index_of(v, other);
            lemma_index_of(v, a);
            assert(w[a] == v[a]);
            lemma_index_of(w, a);
        } else if has_conversation(w, other) {
            let a = choose|a: int| 0 <= a < w.len() && (#[trigger] w[a]).conversation.id@ == other;
            assert(a < v.len());
            assert(v[a] == w[a]);
        }
    }
}

struct Record {
    conversation: Conversation,
    messages: Vec<StoredMessage>,
}

impl Record {
    spec fn entry(&self) -> StoreEntry {
        StoreEntry { conversation: self.conversation, messages: self.messages@ }
    }
}

/// The conversation store.
pub struct ConversationRepository {
    records: Vec<Record>,
    next_message_id: i64,
}

impl View for ConversationRepository {
    type V = Seq<StoreEntry>;

    closed spec fn view(&self) -> Seq<StoreEntry> {
        self.records@.map_values(|r: Record| r.entry())
    }
}

impl ConversationRepository {
    /// Every message that the store holds has an identifier it assigned,
    /// below the next one; each conversation holds fewer messages than that.
    pub closed spec fn ids_assigned(&self) -> bool {
        &&& 1 <= self.next_message_id
        &&& self@.len() <= i64::MAX
        &&& forall|i: int|
            0 <= i < self@.len() ==> (#[trigger] self@[i]).messages.len()
                < self.next_message_id
    }

    /// The sequence number that the next appended message receives.
    pub closed spec fn next_id(&self) -> int {
        self.next_message_id as int
    }

    /// Whether one more message can be given an identifier.
    pub open spec fn can_append(&self) -> bool {
        self.next_id() < i64::MAX
    }

    /// How many more messages can be given an identifier.
    pub open spec fn ids_left(&self) -> int {
        i64::MAX - self.next_id()
    }

    /// The invariant of the store.
    pub open spec fn wf(&self) -> bool {
        &&& ids_unique(self@)
        &&& ids_below(self@, self.next_id())
        &&& self.ids_assigned()
    }

    /// An empty store.
    pub fn new() -> (r: ConversationRepository)
        ensures
            r.wf(),
            r@ == Seq::<StoreEntry>::empty(),
            r.next_id() == 1,
    {
        let r = ConversationRepository { records: Vec::new(), next_message_id: 1 };
        assert(r@ =~= Seq::<StoreEntry>::empty());
        r
    }

    fn find(&self, id: &str) -> (r: Option<usize>)
        requires
            self.wf(),
        ensures
            r is None <==> !has_conversation(self@, id@),
            r matches Some(i) ==> i < self@.len() && index_of(self@, id@) == i
                && self@[i as int].conversation.id@ == id@,
    {
        let mut i: usize = 0;
        while i < self.records.len()
            invariant
                self.wf(),
                i <= self.records@.len(),
                self.records@.len() == self@.len(),
                forall|j: int| 0 <= j < i ==> (#[trigger] self@[j]).conversation.id@ != id@,
            decreases self.records@.len() - i,
        {
            assert(self@[i as int] == self.records@[i as int].entry());
            if same_text(self.records[i].conversation.id.as_str(), id) {
                proof {
                    lemma_index_of(self@, i as int);
                }
                return Some(i);
            }
            i = i + 1;
        }
        None
    }

    /// Creates conversation `id`, created and updated at `now`, without
    /// messages. Fails when `id` is already taken or the store is full.
    pub fn create_conversation_at(
        &mut self,
        id: String,
        title: String,
        model_name: String,
        now: i64,
    ) -> (r: Result<Conversation, CoreError>)
        requires
            old(self).wf(),
        ensures
            final(self).wf(),
            final(self).next_id() == old(self).next_id(),
            match r {
                Ok(c) => {
                    &&& !has_conversation(old(self)@, id@)
                    &&& c == (Conversation { id, title, created_at: now, updated_at: now, model_name })
                    &&& final(self)@ == old(self)@.push(StoreEntry { conversation: c, messages: seq![] })
                },
                Err(e) => {
                    &&& e is Store
                    &&& final(self)@ == old(self)@
                    &&& (has_conversation(old(self)@, id@) || old(self)@.len() >= i64::MAX)
                },
            },
            !has_conversation(old(self)@, id@) && old(self)@.len() < i64::MAX ==> r is Ok,
    {
        if self.find(id.as_str()).is_some() {
            return Err(CoreError::Store(String::from_str("a conversation with this id exists")));
        }
        if self.records.len() as u64 >= i64::MAX as u64 {
            return Err(CoreError::Store(String::from_str("the store is full")));
        }
        let c = Conversation::new_at(id, title, model_name, now);
        let ghost before = self@;
        self.records.push(Record { conversation: c.clone(), messages: Vec::new() });
        proof {
            let e = StoreEntry { conversation: c, messages: seq![] };
            assert(self.records@.last().messages@ =~= Seq::<StoredMessage>::empty());
            assert(self@ =~= before.push(e));
            assert forall|i: int, j: int|
                0 <= i < self@.len() && 0 <= j < self@.len() && (#[trigger] self@[i]).conversation.id@
                    == (#[trigger] self@[j]).conversation.id@ implies i == j by {
                if i < before.len() && j < before.len() {
                } else if i < before.len() {
                    assert(before[i].conversation.id@ == c.id@);
                    assert(has_conversation(before, c.id@));
                } else if j < before.len() {
                    assert(before[j].conversation.id@ == c.id@);
                    assert(has_conversation(before, c.id@));
                }
            }
            assert forall|i: int| 0 <= i < self@.len() implies (#[trigger] self@[i]).messages.len()
                < self.next_message_id by {
                if i < before.len() {
                    assert(self@[i] == before[i]);
                }
            }
        }
        Ok(c)
    }

    /// Creates a conversation with a fresh random identifier, created now.
    /// Fails when that identifier is already taken or the store is full.
    pub fn create_conversation(&mut self, title: &str, model_name: &str) -> (r: Result<
        Conversation,
        CoreError,
    >)
        requires
            old(self).wf(),
        ensures
            final(self).wf(),
            final(self).next_id() == old(self).next_id(),
            match r {
                Ok(c) => {
                    &&& !has_conversation(old(self)@, c.id@)
                    &&& c.title@ == title@
                    &&& c.model_name@ == model_name@
                    &&& c.created_at == c.updated_at
                    &&& final(self)@ == old(self)@.push(StoreEntry { conversation: c, messages: seq![] })
                },
                Err(e) => e is Store && final(self)@ == old(self)@,
            },
            r is Err ==> old(self)@.len() >= i64::MAX || exists|i: int|
                0 <= i < old(self)@.len() && (#[trigger] old(self)@[i]).conversation.id@.len() == 36,
    {
        let id = new_id();
        let now = now_seconds();
        self.create_conversation_at(id, String::from_str(title), String::from_str(model_name), now)
    }

    /// The conversation `id`, if the store holds it.
    pub fn get_conversation(&self, id: &str) -> (r: Option<Conversation>)
        requires
            self.wf(),
        ensures
            r is None <==> !has_conversation(self@, id@),
            r matches Some(c) ==> c == self@[index_of(self@, id@)].conversation,
    {
        match self.find(id) {
            Some(i) => {
                assert(self@[i as int] == self.records@[i as int].entry());
                Some(self.records[i].conversation.clone())
            },
            None => None,
        }
    }

    /// How many conversations the store holds.
    pub fn count_conversations(&self) -> (r: i64)
        requires
            self.wf(),
        ensures
            r == self@.len(),
    {
        self.records.len() as i64
    }

    /// The conversations ordered most recently updated first, those updated
    /// at the same time in the order of creation.
    fn newest_first_vec(&self) -> (r: Vec<Conversation>)
        requires
            self.wf(),
        ensures
            r@ == newest_first(conversations_of(self@)),
    {
        let ghost all = conversations_of(self@);
        let mut out: Vec<Conversation> = Vec::new();
        let mut i: usize = 0;
        assert(all.take(0) =~= Seq::<Conversation>::empty());
        while i < self.records.len()
            invariant
                all == conversations_of(self@),
                self.records@.len() == all.len(),
                i <= all.len(),
                out@ == newest_first(all.take(i as int)),
            decreases all.len() - i,
        {
            assert(all[i as int] == self@[i as int].conversation);
            assert(self@[i as int] == self.records@[i as int].entry());
            let c = self.records[i].conversation.clone();
            let mut p: usize = 0;
            while p < out.len() && out[p].updated_at >= c.updated_at
                invariant
                    p <= out@.len(),
                    forall|j: int| 0 <= j < p ==> (#[trigger] out@[j]).updated_at >= c.updated_at,
                decreases out@.len() - p,
            {
                p = p + 1;
            }
            proof {
                lemma_insert_newest(out@, c, p as int);
                assert(all.take(i + 1).drop_last() =~= all.take(i as int));
                assert(all.take(i + 1).last() == c);
            }
            out.insert(p, c);
            i = i + 1;
        }
        assert(all.take(all.len() as int) =~= all);
        out
    }

    /// A page of the conversations ordered most recently updated first:
    /// `offset` of them skipped, then at most `limit` kept. A negative
    /// `limit` keeps all the rest; a negative `offset` skips none.
    pub fn list_conversations(&self, limit: i32, offset: i32) -> (r: Vec<Conversation>)
        requires
            self.wf(),
        ensures
            r@ == page(newest_first(conversations_of(self@)), limit as int, offset as int),
            newest_first_ordered(r@),
    {
        let mut sorted = self.newest_first_vec();
        let n = sorted.len();
        let start: usize = if offset < 0 {
            0
        } else if offset as usize > n {
            n
        } else {
            offset as usize
        };
        let end: usize = if limit < 0 || limit as usize > n - start {
            n
        } else {
            start + limit as usize
        };
        proof {
            lemma_newest_first(conversations_of(self@));
        }
        let ghost whole = sorted@;
        let mut tail = sorted.split_off(start);
        tail.truncate(end - start);
        assert forall|i: int, j: int| 0 <= i < j < tail@.len() implies (#[trigger] tail@[i]).updated_at
            >= (#[trigger] tail@[j]).updated_at by {
            assert(tail@[i] == whole[start + i] && tail@[j] == whole[start + j]);
        }
        assert(tail@ =~= page(newest_first(conversations_of(self@)), limit as int, offset as int));
        tail
    }

    /// Stamps conversation `id` with `now`, retitling it when `title` is given.
    fn stamp(&mut self, id: &str, title: Option<String>, now: i64)
        requires
            old(self).wf(),
        ensures
            final(self).wf(),
            final(self).next_id() == old(self).next_id(),
            stamped(
                old(self)@,
                final(self)@,
                id@,
                match title {
                    Some(t) => Some(t@),
                    None => None,
                },
                now,
            ),
    {
        match self.find(id) {
            None => {},
            Some(i) => {
                let ghost before = self@;
                let mut rec = self.records.remove(i);
                assert(before[i as int] == rec.entry());
                rec.conversation.updated_at = now;
                match title {
                    Some(t) => {
                        rec.conversation.title = t;
                    },
                    None => {},
                }
                self.records.insert(i, rec);
                proof {
                    assert(self@ =~= before.update(i as int, self@[i as int]));
                    lemma_update_unique(before, i as int, self@[i as int]);
                    assert forall|j: int| 0 <= j < self@.len() implies (
                    #[trigger] self@[j]).messages.len() < self.next_message_id by {
                        assert(self@[j].messages == before[j].messages);
                    }
                }
            },
        }
    }

    /// Sets the `updated_at` of conversation `id` to the current time; does
    /// nothing when `id` is absent.
    pub fn touch_conversation(&mut self, id: &str)
        requires
            old(self).wf(),
        ensures
            final(self).wf(),
            final(self).next_id() == old(self).next_id(),
            exists|now: i64| stamped(old(self)@, final(self)@, id@, None, now),
    {
        let now = now_seconds();
        self.stamp(id, None, now);
    }

    /// Retitles conversation `id` and sets its `updated_at` to `now`; does
    /// nothing when `id` is absent.
    pub fn update_conversation_title_at(&mut self, id: &str, new_title: &str, now: i64)
        requires
            old(self).wf(),
        ensures
            final(self).wf(),
            final(self).next_id() == old(self).next_id(),
            stamped(old(self)@, final(self)@, id@, Some(new_title@), now),
    {
        let t = String::from_str(new_title);
        self.stamp(id, Some(t), now);
    }

    /// Retitles conversation `id` and sets its `updated_at` to the current
    /// time; does nothing when `id` is absent.
    pub fn update_conversation_title(&mut self, id: &str, new_title: &str)
        requires
            old(self).wf(),
        ensures
            final(self).wf(),
            final(self).next_id() == old(self).next_id(),
            exists|now: i64| stamped(old(self)@, final(self)@, id@, Some(new_title@), now),
    {
        let now = now_seconds();
        let t = String::from_str(new_title);
        self.stamp(id, Some(t), now);
    }

    /// Deletes conversation `id` with all its messages; does nothing when it
    /// is absent.
    pub fn delete_conversation(&mut self, id: &str)
        requires
            old(self).wf(),
        ensures
            final(self).wf(),
            final(self).next_id() == old(self).next_id(),
            final(self)@ == without(old(self)@, id@),
    {
        match self.find(id) {
            None => {},
            Some(i) => {
                let ghost before = self@;
                self.records.remove(i);
                proof {
                    assert(self@ =~= before.remove(i as int));
                    lemma_remove_unique(before, i as int);
                    assert forall|j: int| 0 <= j < self@.len() implies (
                    #[trigger] self@[j]).messages.len() < self.next_message_id by {
                        let j1 = if j < i { j } else { j + 1 };
                        assert(self@[j] == before[j1]);
                    }
                }
            },
        }
    }

    /// Appends `message` to its conversation with the next message
    /// identifier, and sets the conversation's `updated_at` to `now`. Fails
    /// when the conversation is absent or the identifiers are used up.
    pub fn add_message_at(&mut self, message: &StoredMessage, now: i64) -> (r: Result<
        StoredMessage,
        CoreError,
    >)
        requires
            old(self).wf(),
        ensures
            final(self).wf(),
            match r {
                Ok(saved) => {
                    &&& has_conversation(old(self)@, message.conversation_id@)
                    &&& saved.id == Some(old(self).next_id() as i64)
                    &&& final(self).next_id() == old(self).next_id() + 1
                    &&& final(self).ids_left() == old(self).ids_left() - 1
                    &&& saved == (StoredMessage { id: saved.id, ..*message })
                    &&& final(self)@ == appended(old(self)@, saved, now)
                },
                Err(e) => {
                    &&& final(self)@ == old(self)@
                    &&& final(self).next_id() == old(self).next_id()
                    &&& (e == CoreError::NotFound(message.conversation_id) <==> !has_conversation(
                        old(self)@,
                        message.conversation_id@,
                    ))
                    &&& (e is Store <==> has_conversation(old(self)@, message.conversation_id@))
                },
            },
            r is Ok <==> has_conversation(old(self)@, message.conversation_id@) && old(self).can_append(),
    {
        match self.find(message.conversation_id.as_str()) {
            None => Err(CoreError::NotFound(message.conversation_id.clone())),
            Some(i) => {
                if self.next_message_id == i64::MAX {
                    return Err(CoreError::Store(String::from_str("message identifiers are used up")));
                }
                let ghost before = self@;
                let mut saved = message.clone();
                saved.id = Some(self.next_message_id);
                self.next_message_id = self.next_message_id + 1;
                let mut rec = self.records.remove(i);
                assert(before[i as int] == rec.entry());
                rec.conversation.updated_at = now;
                rec.messages.push(saved.clone());
                self.records.insert(i, rec);
                proof {
                    assert(self@ =~= appended(before, saved, now));
                    lemma_update_unique(before, i as int, self@[i as int]);
                    assert forall|j: int| 0 <= j < self@.len() implies (
                    #[trigger] self@[j]).messages.len() < self.next_message_id by {
                        if j != i {
                            assert(self@[j] == before[j]);
                        }
                    }
                }
                Ok(saved)
            },
        }
    }

    /// Appends `message` to its conversation, as `add_message_at` does, at
    /// the current time.
    pub fn add_message(&mut self, message: &StoredMessage) -> (r: Result<StoredMessage, CoreError>)
        requires
            old(self).wf(),
        ensures
            final(self).wf(),
            match r {
                Ok(saved) => {
                    &&& has_conversation(old(self)@, message.conversation_id@)
                    &&& saved.id == Some(old(self).next_id() as i64)
                    &&& final(self).next_id() == old(self).next_id() + 1
                    &&& final(self).ids_left() == old(self).ids_left() - 1
                    &&& saved == (StoredMessage { id: saved.id, ..*message })
                    &&& exists|now: i64| final(self)@ == appended(old(self)@, saved, now)
                },
                Err(e) => {
                    &&& final(self)@ == old(self)@
                    &&& final(self).next_id() == old(self).next_id()
                    &&& (e == CoreError::NotFound(message.conversation_id) <==> !has_conversation(
                        old(self)@,
                        message.conversation_id@,
                    ))
                    &&& (e is Store <==> has_conversation(old(self)@, message.conversation_id@))
                },
            },
            r is Ok <==> has_conversation(old(self)@, message.conversation_id@) && old(self).can_append(),
    {
        let now = now_seconds();
        self.add_message_at(message, now)
    }

    /// The messages of conversation `id` as a vector.
    fn copy_messages(&self, id: &str) -> (r: Vec<StoredMessage>)
        requires
            self.wf(),
        ensures
            r@ == messages_of(self@, id@),
    {
        match self.find(id) {
            None => {
                let v: Vec<StoredMessage> = Vec::new();
                assert(v@ =~= messages_of(self@, id@));
                v
            },
            Some(i) => {
                assert(self@[i as int] == self.records@[i as int].entry());
                let v = self.records[i].messages.clone();
                proof {
                    assert forall|j: int| 0 <= j < v@.len() implies v@[j]
                        == self.records@[i as int].messages@[j] by {
                        assert(cloned::<StoredMessage>(self.records@[i as int].messages@[j], v@[j]));
                    }
                    assert(v@ =~= messages_of(self@, id@));
                }
                v
            },
        }
    }

    /// The messages of conversation `id`, oldest first; empty when it is
    /// absent.
    pub fn get_messages(&self, conversation_id: &str) -> (r: Vec<StoredMessage>)
        requires
            self.wf(),
        ensures
            r@ == messages_of(self@, conversation_id@),
    {
        self.copy_messages(conversation_id)
    }

    /// The last `n` messages of conversation `id`, oldest first; all of them
    /// when `n` is negative.
    pub fn get_last_n_messages(&self, conversation_id: &str, n: i32) -> (r: Vec<StoredMessage>)
        requires
            self.wf(),
        ensures
            r@ == last_n(messages_of(self@, conversation_id@), n as int),
    {
        let mut v = self.copy_messages(conversation_id);
        if n < 0 || n as usize >= v.len() {
            return v;
        }
        let at = v.len() - n as usize;
        v.split_off(at)
    }

    /// Deletes all but the last `keep_last` messages of conversation `id`
    /// and returns how many were deleted. Nothing is deleted when
    /// `keep_last` is negative or `id` is absent.
    pub fn delete_old_messages(&mut self, conversation_id: &str, keep_last: i32) -> (r: usize)
        requires
            old(self).wf(),
        ensures
            final(self).wf(),
            final(self).next_id() == old(self).next_id(),
            final(self)@ == pruned(old(self)@, conversation_id@, keep_last as int),
            r == messages_of(old(self)@, conversation_id@).len() - last_n(
                messages_of(old(self)@, conversation_id@),
                keep_last as int,
            ).len(),
    {
        if keep_last < 0 {
            return 0;
        }
        match self.find(conversation_id) {
            None => 0,
            Some(i) => {
                let ghost before = self@;
                let mut rec = self.records.remove(i);
                assert(before[i as int] == rec.entry());
                let n = rec.messages.len();
                let keep = keep_last as usize;
                let deleted = if keep >= n {
                    0
                } else {
                    let kept = rec.messages.split_off(n - keep);
                    rec.messages = kept;
                    n - keep
                };
                self.records.insert(i, rec);
                proof {
                    assert(self@ =~= pruned(before, conversation_id@, keep_last as int));
                    lemma_update_unique(before, i as int, self@[i as int]);
                    assert forall|j: int| 0 <= j < self@.len() implies (
                    #[trigger] self@[j]).messages.len() < self.next_message_id by {
                        if j != i {
                            assert(self@[j] == before[j]);
                        }
                    }
                }
                deleted
            },
        }
    }

    /// How many messages conversation `id` holds.
    pub fn count_messages(&self, conversation_id: &str) -> (r: i64)
        requires
            self.wf(),
        ensures
            r == messages_of(self@, conversation_id@).len(),
    {
        match self.find(conversation_id) {
            None => 0,
            Some(i) => {
                assert(self@[i as int] == self.records@[i as int].entry());
                self.records[i].messages.len() as i64
            },
        }
    }

    /// The sum of the token counts of conversation `id`, a missing count
    /// taken as zero. Fails when a partial sum leaves the range of `i64`.
    pub fn calculate_total_tokens(&self, conversation_id: &str) -> (r: Result<i64, CoreError>)
        requires
            self.wf(),
        ensures
            sums_fit(messages_of(self@, conversation_id@)) <==> r is Ok,
            r matches Ok(t) ==> t == token_sum(messages_of(self@, conversation_id@)),
            r matches Err(e) ==> e is Store,
    {
        let ms = self.copy_messages(conversation_id);
        let ghost s = ms@;
        let mut total: i64 = 0;
        let mut i: usize = 0;
        assert(s.take(0) =~= Seq::<StoredMessage>::empty());
        while i < ms.len()
            invariant
                s == ms@,
                s == messages_of(self@, conversation_id@),
                i <= s.len(),
                total == token_sum(s.take(i as int)),
                forall|k: int| 0 <= k <= i ==> fits_i64(token_sum(#[trigger] s.take(k))),
            decreases s.len() - i,
        {
            let t: i64 = match ms[i].tokens {
                Some(x) => x as i64,
                None => 0,
            };
            assert(s.take(i + 1).drop_last() =~= s.take(i as int));
            assert(s.take(i + 1).last() == s[i as int]);
            match total.checked_add(t) {
                Some(x) => {
                    total = x;
                },
                None => {
                    assert(!fits_i64(token_sum(s.take(i + 1))));
                    assert(!sums_fit(s));
                    return Err(CoreError::Store(String::from_str("integer overflow")));
                },
            }
            i = i + 1;
        }
        assert(s.take(s.len() as int) =~= s);
        Ok(total)
    }
}

} // verus!
