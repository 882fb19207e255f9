//! A flat store of settings: text values under text keys, kept in key
//! order.
use crate::text::{
    lemma_text_less_irreflexive, lemma_text_less_total, lemma_text_less_transitive, less_text,
    same_text, text_less,
};
use vstd::prelude::*;

verus! {

/// One setting.
#[derive(Debug)]
pub struct Setting {
    pub key: String,
    pub value: String,
}

impl Clone for Setting {
    fn clone(&self) -> (r: Self)
        ensures
            r == *self,
    {
        Setting { key: self.key.clone(), value: self.value.clone() }
    }
}

/// The key under which the current model name is kept.
pub const CURRENT_MODEL_KEY: &'static str = "current_model";

/// The key under which the last session's identifier is kept.
pub const LAST_SESSION_KEY: &'static str = "last_session_id";

/// The pairs of keys and values, as texts.
pub open spec fn pairs(s: Seq<Setting>) -> Seq<(Seq<char>, Seq<char>)> {
    s.map_values(|e: Setting| (e.key@, e.value@))
}

/// Whether the keys go strictly up.
pub open spec fn keys_sorted(v: Seq<(Seq<char>, Seq<char>)>) -> bool {
    forall|i: int, j: int| 0 <= i < j < v.len() ==> text_less(#[trigger] v[i].0, #[trigger] v[j].0)
}

/// Whether some setting has key `k`.
pub open spec fn has_key(v: Seq<(Seq<char>, Seq<char>)>, k: Seq<char>) -> bool {
    exists|i: int| 0 <= i < v.len() && (#[trigger] v[i]).0 == k
}

/// The position of a setting with key `k`.
pub open spec fn key_index(v: Seq<(Seq<char>, Seq<char>)>, k: Seq<char>) -> int {
    choose|i: int| 0 <= i < v.len() && (#[trigger] v[i]).0 == k
}

/// The value under key `k`, if any.
pub open spec fn lookup(v: Seq<(Seq<char>, Seq<char>)>, k: Seq<char>) -> Option<Seq<char>> {
    if has_key(v, k) {
        Some(v[key_index(v, k)].1)
    } else {
        None
    }
}

/// In a sorted store the setting found for a key is the one that has it.
pub proof fn lemma_lookup_at(v: Seq<(Seq<char>, Seq<char>)>, i: int)
    requires
        keys_sorted(v),
        0 <= i < v.len(),
    ensures
        lookup(v, v[i].0) == Some(v[i].1),
{
    let k = v[i].0;
    assert(has_key(v, k));
    let j = key_index(v, k);
    if j != i {
        lemma_text_less_irreflexive(k);
        if j < i {
            assert(text_less(v[j].0, v[i].0));
        } else {
            assert(text_less(v[i].0, v[j].0));
        }
    }
}

/// The settings store.
pub struct SettingsRepository {
    entries: Vec<Setting>,
}

impl View for SettingsRepository {
    type V = Seq<(Seq<char>, Seq<char>)>;

    closed spec fn view(&self) -> Seq<(Seq<char>, Seq<char>)> {
        pairs(self.entries@)
    }
}

impl SettingsRepository {
    /// The invariant: keys go strictly up.
    pub open spec fn wf(&self) -> bool {
        keys_sorted(self@)
    }

    /// A store without settings.
    pub fn new() -> (r: SettingsRepository)
        ensures
            r.wf(),
            r@.len() == 0,
    {
        let r = SettingsRepository { entries: Vec::new() };
        assert(r@.len() == 0);
        r
    }

    /// The value under `key`, if any.
    pub fn get(&self, key: &str) -> (r: Option<String>)
        requires
            self.wf(),
        ensures
            r is None <==> lookup(self@, key@) is None,
            r matches Some(v) ==> lookup(self@, key@) == Some(v@),
    {
        let mut i: usize = 0;
        while i < self.entries.len()
            invariant
                self.wf(),
                i <= self.entries@.len(),
                self@.len() == self.entries@.len(),
                forall|j: int| 0 <= j < i ==> (#[trigger] self@[j]).0 != key@,
            decreases self.entries@.len() - i,
        {
            assert(self@[i as int] == (self.entries@[i as int].key@, self.entries@[i as int].value@));
            if same_text(self.entries[i].key.as_str(), key) {
                proof {
                    lemma_lookup_at(self@, i as int);
                }
                return Some(self.entries[i].value.clone());
            }
            i = i + 1;
        }
        None
    }

    /// Sets `key` to `value`, replacing an earlier value.
    pub fn set(&mut self, key: &str, value: &str)
        requires
            old(self).wf(),
        ensures
            final(self).wf(),
            lookup(final(self)@, key@) == Some(value@),
            forall|k: Seq<char>| k != key@ ==> #[trigger] lookup(final(self)@, k) == lookup(old(self)@, k),
    {
        let ghost v = self@;
        let mut p: usize = 0;
        while p < self.entries.len() && less_text(self.entries[p].key.as_str(), key)
            invariant
                v == self@,
                keys_sorted(v),
                p <= v.len(),
                v.len() == self.entries@.len(),
                forall|j: int| 0 <= j < p ==> text_less(#[trigger] v[j].0, key@),
            decreases v.len() - p,
        {
            assert(v[p as int] == (self.entries@[p as int].key@, self.entries@[p as int].value@));
            p = p + 1;
        }
        let entry = Setting { key: String::from_str(key), value: String::from_str(value) };
        if p < self.entries.len() && same_text(self.entries[p].key.as_str(), key) {
            assert(v[p as int] == (self.entries@[p as int].key@, self.entries@[p as int].value@));
            self.entries.set(p, entry);
            proof {
                assert(self@ =~= v.update(p as int, (key@, value@)));
                lemma_lookup_at(self@, p as int);
                assert forall|k: Seq<char>| k != key@ implies #[trigger] lookup(self@, k) == lookup(v, k) by {
                    if has_key(v, k) {
                        let j = choose|j: int| 0 <= j < v.len() && (#[trigger] v[j]).0 == k;
                        lemma_lookup_at(v, j);
                        lemma_lookup_at(self@, j);
                    } else if has_key(self@, k) {
                        let j = choose|j: int| 0 <= j < self@.len() && (#[trigger] self@[j]).0 == k;
                        assert(v[j].0 == k);
                    }
                }
            }
        } else {
            proof {
                if p < v.len() {
                    assert(v[p as int] == (self.entries@[p as int].key@, self.entries@[p as int].value@));
                    assert(!text_less(v[p as int].0, key@));
                    lemma_text_less_total(v[p as int].0, key@);
                    assert(text_less(key@, v[p as int].0));
                }
            }
            self.entries.insert(p, entry);
            proof {
                let w = self@;
                assert(w =~= v.insert(p as int, (key@, value@)));
                assert forall|i: int, j: int| 0 <= i < j < w.len() implies text_less(
                    #[trigger] w[i].0,
                    #[trigger] w[j].0,
                ) by {
                    if j < p {
                    } else if j == p {
                    } else if i < p {
                        assert(text_less(v[i].0, key@));
                        assert(text_less(key@, v[p as int].0));
                        lemma_text_less_transitive(v[i].0, key@, v[p as int].0);
                        if j - 1 > p {
                            lemma_text_less_transitive(v[i].0, v[p as int].0, v[j - 1].0);
                        }
                    } else if i == p {
                        if j - 1 > p {
                            lemma_text_less_transitive(key@, v[p as int].0, v[j - 1].0);
                        }
                    } else {
                        assert(w[i] == v[i - 1] && w[j] == v[j - 1]);
                    }
                }
                lemma_lookup_at(w, p as int);
                assert forall|k: Seq<char>| k != key@ implies #[trigger] lookup(w, k) == lookup(v, k) by {
                    if has_key(v, k) {
                        let j = choose|j: int| 0 <= j < v.len() && (#[trigger] v[j]).0 == k;
                        lemma_lookup_at(v, j);
                        let j1 = if j < p { j } else { j + 1 };
                        assert(w[j1] == v[j]);
                        lemma_lookup_at(w, j1);
                    } else if has_key(w, k) {
                        let j = choose|j: int| 0 <= j < w.len() && (#[trigger] w[j]).0 == k;
                        assert(j != p);
                        let j1 = if j < p { j } else { j - 1 };
                        assert(v[j1] == w[j]);
                    }
                }
            }
        }
    }

    /// Removes the setting under `key`, if any.
    pub fn delete(&mut self, key: &str)
        requires
            old(self).wf(),
        ensures
            final(self).wf(),
            lookup(final(self)@, key@) is None,
            forall|k: Seq<char>| k != key@ ==> #[trigger] lookup(final(self)@, k) == lookup(old(self)@, k),
    {
        let ghost v = self@;
        let mut i: usize = 0;
        while i < self.entries.len()
            invariant
                v == self@,
                v == old(self)@,
                keys_sorted(v),
                i <= v.len(),
                v.len() == self.entries@.len(),
                forall|j: int| 0 <= j < i ==> (#[trigger] v[j]).0 != key@,
            decreases v.len() - i,
        {
            assert(v[i as int] == (self.entries@[i as int].key@, self.entries@[i as int].value@));
            if same_text(self.entries[i].key.as_str(), key) {
                self.entries.remove(i);
                proof {
                    let w = self@;
                    assert(w =~= v.remove(i as int));
                    assert forall|a: int, b: int| 0 <= a < b < w.len() implies text_less(
                        #[trigger] w[a].0,
                        #[trigger] w[b].0,
                    ) by {
                        let a1 = if a < i { a } else { a + 1 };
                        let b1 = if b < i { b } else { b + 1 };
                        assert(w[a] == v[a1] && w[b] == v[b1]);
                    }
                    if has_key(w, key@) {
                        let j = choose|j: int| 0 <= j < w.len() && (#[trigger] w[j]).0 == key@;
                        let j1 = if j < i { j } else { j + 1 };
                        assert(w[j] == v[j1]);
                        lemma_text_less_irreflexive(key@);
                        if j1 < i {
                            assert(text_less(v[j1].0, v[i as int].0));
                        } else {
                            assert(text_less(v[i as int].0, v[j1].0));
                        }
                    }
                    assert forall|k: Seq<char>| k != key@ implies #[trigger] lookup(w, k) == lookup(v, k) by {
                        if has_key(v, k) {
                            let j = choose|j: int| 0 <= j < v.len() && (#[trigger] v[j]).0 == k;
                            lemma_lookup_at(v, j);
                            assert(j != i);
                            let j1 = if j < i { j } else { j - 1 };
                            assert(w[j1] == v[j]);
                            lemma_lookup_at(w, j1);
                        } else if has_key(w, k) {
                            let j = choose|j: int| 0 <= j < w.len() && (#[trigger] w[j]).0 == k;
                            let j1 = if j < i { j } else { j + 1 };
                            assert(v[j1] == w[j]);
                        }
                    }
                }
                return ;
            }
            i = i + 1;
        }
    }

    /// All the settings, in key order.
    pub fn list_all(&self) -> (r: Vec<(String, String)>)
        requires
            self.wf(),
        ensures
            r@.len() == self@.len(),
            forall|i: int| 0 <= i < r@.len() ==> (#[trigger] r@[i]).0@ == self@[i].0 && r@[i].1@ == self@[i].1,
    {
        let mut out: Vec<(String, String)> = Vec::new();
        let mut i: usize = 0;
        while i < self.entries.len()
            invariant
                i <= self.entries@.len(),
                self@.len() == self.entries@.len(),
                out@.len() == i,
                forall|j: int| 0 <= j < i ==> (#[trigger] out@[j]).0@ == self@[j].0 && out@[j].1@ == self@[j].1,
            decreases self.entries@.len() - i,
        {
            assert(self@[i as int] == (self.entries@[i as int].key@, self.entries@[i as int].value@));
            out.push((self.entries[i].key.clone(), self.entries[i].value.clone()));
            i = i + 1;
        }
        out
    }

    /// The current model name, if one was saved.
    pub fn get_current_model(&self) -> (r: Option<String>)
        requires
            self.wf(),
        ensures
            r is None <==> lookup(self@, CURRENT_MODEL_KEY@) is None,
            r matches Some(v) ==> lookup(self@, CURRENT_MODEL_KEY@) == Some(v@),
    {
        self.get(CURRENT_MODEL_KEY)
    }

    /// Saves the current model name.
    pub fn set_current_model(&mut self, model_name: &str)
        requires
            old(self).wf(),
        ensures
            final(self).wf(),
            lookup(final(self)@, CURRENT_MODEL_KEY@) == Some(model_name@),
            forall|k: Seq<char>|
                k != CURRENT_MODEL_KEY@ ==> #[trigger] lookup(final(self)@, k) == lookup(old(self)@, k),
    {
        self.set(CURRENT_MODEL_KEY, model_name)
    }

    /// The last session's identifier, if one was saved.
    pub fn get_last_session_id(&self) -> (r: Option<String>)
        requires
            self.wf(),
        ensures
            r is None <==> lookup(self@, LAST_SESSION_KEY@) is None,
            r matches Some(v) ==> lookup(self@, LAST_SESSION_KEY@) == Some(v@),
    {
        self.get(LAST_SESSION_KEY)
    }

    /// Saves the last session's identifier.
    pub fn set_last_session_id(&mut self, session_id: &str)
        requires
            old(self).wf(),
        ensures
            final(self).wf(),
            lookup(final(self)@, LAST_SESSION_KEY@) == Some(session_id@),
            forall|k: Seq<char>|
                k != LAST_SESSION_KEY@ ==> #[trigger] lookup(final(self)@, k) == lookup(old(self)@, k),
    {
        self.set(LAST_SESSION_KEY, session_id)
    }
}

} // verus!
