//! Expiring per-session state.
//!
//! A session is a key/value map of strings with an absolute expiry instant,
//! held in a store keyed by session id. A session is returned only while it
//! is live; expired sessions are removed on access or by a periodic sweep.
//! Every function that depends on the clock takes the instant as an
//! argument; the public variants without it read the clock once and defer
//! to them.

use vstd::prelude::*;

use crate::time::now_millis;

verus! {

/// The first value under `key` in an association list, if any.
pub open spec fn assoc_lookup<T>(items: Seq<(String, T)>, key: Seq<char>) -> Option<T>
    decreases items.len(),
{
    if items.len() == 0 {
        None
    } else if items[0].0@ == key {
        Some(items[0].1)
    } else {
        assoc_lookup(items.drop_first(), key)
    }
}

/// A lookup finds the entry at the first index whose key matches.
pub proof fn lemma_assoc_index<T>(items: Seq<(String, T)>, key: Seq<char>, idx: int)
    requires
        0 <= idx < items.len(),
        items[idx].0@ == key,
        forall|j: int| 0 <= j < idx ==> (#[trigger] items[j].0)@ != key,
    ensures
        assoc_lookup(items, key) == Some(items[idx].1),
    decreases idx,
{
    if idx > 0 {
        assert forall|j: int| 0 <= j < idx - 1 implies (#[trigger] items.drop_first()[j].0)@
            != key by {
            assert(items.drop_first()[j] == items[j + 1]);
        }
        assert(items.drop_first()[idx - 1] == items[idx]);
        lemma_assoc_index(items.drop_first(), key, idx - 1);
    }
}

/// A lookup for a key no entry carries finds nothing.
pub proof fn lemma_assoc_none<T>(items: Seq<(String, T)>, key: Seq<char>)
    requires
        forall|j: int| 0 <= j < items.len() ==> (#[trigger] items[j].0)@ != key,
    ensures
        assoc_lookup(items, key) is None,
    decreases items.len(),
{
    if items.len() > 0 {
        assert forall|j: int| 0 <= j < items.drop_first().len() implies (
        #[trigger] items.drop_first()[j].0)@ != key by {
            assert(items.drop_first()[j] == items[j + 1]);
        }
        lemma_assoc_none(items.drop_first(), key);
    }
}

/// Appending an entry does not change lookups that already hit, and serves
/// exactly its own key among the misses.
proof fn lemma_assoc_push<T>(items: Seq<(String, T)>, entry: (String, T), key: Seq<char>)
    ensures
        assoc_lookup(items, key) is Some ==> assoc_lookup(items.push(entry), key) == assoc_lookup(
            items,
            key,
        ),
        assoc_lookup(items, key) is None && entry.0@ == key ==> assoc_lookup(
            items.push(entry),
            key,
        ) == Some(entry.1),
        assoc_lookup(items, key) is None && entry.0@ != key ==> assoc_lookup(
            items.push(entry),
            key,
        ) is None,
    decreases items.len(),
{
    if items.len() == 0 {
        assert(items.push(entry)[0] == entry);
        assert(items.push(entry).drop_first() =~= Seq::<(String, T)>::empty());
        assert(assoc_lookup(Seq::<(String, T)>::empty(), key) is None);
    } else {
        assert(items.push(entry)[0] == items[0]);
        assert(items.push(entry).drop_first() =~= items.drop_first().push(entry));
        lemma_assoc_push(items.drop_first(), entry, key);
    }
}

/// Replacing the entry at one index changes only lookups for its key, which
/// every earlier entry misses.
proof fn lemma_assoc_update<T>(items: Seq<(String, T)>, idx: int, entry: (String, T), key: Seq<
    char,
>)
    requires
        0 <= idx < items.len(),
        entry.0@ == items[idx].0@,
        key != items[idx].0@,
    ensures
        assoc_lookup(items.update(idx, entry), key) == assoc_lookup(items, key),
    decreases idx,
{
    let updated = items.update(idx, entry);
    if idx == 0 {
        assert(updated[0] == entry);
        assert(updated.drop_first() =~= items.drop_first());
    } else {
        assert(updated[0] == items[0]);
        assert(updated.drop_first() =~= items.drop_first().update(idx - 1, entry));
        assert(items.drop_first()[idx - 1] == items[idx]);
        lemma_assoc_update(items.drop_first(), idx - 1, entry, key);
    }
}

/// One session: string items under string keys, and an absolute expiry
/// instant in milliseconds since the Unix epoch.
pub struct SessionItem {
    pub items: Vec<(String, String)>,
    pub expires_at: i64,
}

impl SessionItem {
    /// An empty session that expires at the given instant.
    pub fn new_at(expires_at: i64) -> (r: SessionItem)
        ensures
            r.items@ =~= Seq::<(String, String)>::empty(),
            r.expires_at == expires_at,
    {
        SessionItem { items: Vec::new(), expires_at }
    }

    /// An empty session stamped with the current instant, as the store's
    /// creation then overwrites.
    pub fn new() -> (r: SessionItem)
        ensures
            r.items@ =~= Seq::<(String, String)>::empty(),
            r.expires_at >= 0,
    {
        SessionItem::new_at(now_millis())
    }

    /// An owned copy whose items read the same.
    pub fn dup(&self) -> (r: SessionItem)
        ensures
            r.expires_at == self.expires_at,
            r.items@.len() == self.items@.len(),
            forall|k: int|
                0 <= k < self.items@.len() ==> (#[trigger] r.items@[k]).0@ == self.items@[k].0@
                    && r.items@[k].1@ == self.items@[k].1@,
            forall|key: Seq<char>|
                #![trigger assoc_lookup(r.items@, key)]
                match (assoc_lookup(r.items@, key), assoc_lookup(self.items@, key)) {
                    (Some(a), Some(b)) => a@ == b@,
                    (None, None) => true,
                    _ => false,
                },
    {
        let mut items: Vec<(String, String)> = Vec::new();
        let mut i: usize = 0;
        while i < self.items.len()
            invariant
                i <= self.items@.len(),
                items@.len() == i,
                forall|k: int|
                    0 <= k < i ==> (#[trigger] items@[k]).0@ == self.items@[k].0@
                        && items@[k].1@ == self.items@[k].1@,
            decreases self.items@.len() - i,
        {
            let entry = &self.items[i];
            items.push((entry.0.clone(), entry.1.clone()));
            i = i + 1;
        }
        let r = SessionItem { items, expires_at: self.expires_at };
        proof {
            assert forall|key: Seq<char>|
                #![trigger assoc_lookup(r.items@, key)]
                match (assoc_lookup(r.items@, key), assoc_lookup(self.items@, key)) {
                    (Some(a), Some(b)) => a@ == b@,
                    (None, None) => true,
                    _ => false,
                } by {
                lemma_assoc_parallel(r.items@, self.items@, key);
            }
        }
        r
    }

    /// Stores `value` under `key`, replacing any earlier value.
    pub fn set_item(&mut self, key: String, value: String)
        ensures
            match assoc_lookup(final(self).items@, key@) {
                Some(v) => v@ == value@,
                None => false,
            },
            forall|other: Seq<char>|
                #![trigger assoc_lookup(final(self).items@, other)]
                other != key@ ==> match (
                    assoc_lookup(final(self).items@, other),
                    assoc_lookup(old(self).items@, other),
                ) {
                    (Some(a), Some(b)) => a@ == b@,
                    (None, None) => true,
                    _ => false,
                },
            final(self).expires_at == old(self).expires_at,
    {
        let mut i: usize = 0;
        while i < self.items.len()
            invariant
                i <= self.items@.len(),
                forall|j: int| 0 <= j < i ==> (#[trigger] self.items@[j].0)@ != key@,
                *self == *old(self),
            decreases self.items@.len() - i,
        {
            if self.items[i].0.eq(&key) {
                proof {
                    lemma_assoc_index(self.items@.update(i as int, (key, value)), key@, i as int);
                    assert forall|other: Seq<char>|
                        #![trigger assoc_lookup(self.items@.update(i as int, (key, value)), other)]
                        other != key@ implies assoc_lookup(
                        self.items@.update(i as int, (key, value)),
                        other,
                    ) == assoc_lookup(self.items@, other) by {
                        lemma_assoc_update(self.items@, i as int, (key, value), other);
                    }
                }
                self.items.set(i, (key, value));
                return ;
            }
            i = i + 1;
        }
        proof {
            lemma_assoc_none(self.items@, key@);
            assert forall|other: Seq<char>| other != key@ implies assoc_lookup(
                #[trigger] self.items@.push((key, value)),
                other,
            ) == assoc_lookup(self.items@, other) by {
                lemma_assoc_push(self.items@, (key, value), other);
            }
            lemma_assoc_push(self.items@, (key, value), key@);
        }
        self.items.push((key, value));
    }

    /// The value stored under `key`, if any.
    pub fn get_item(&self, key: &str) -> (r: Option<String>)
        ensures
            match (r, assoc_lookup(self.items@, key@)) {
                (Some(a), Some(b)) => a@ == b@,
                (None, None) => true,
                _ => false,
            },
    {
        let owned_key = key.to_owned();
        let mut i: usize = 0;
        while i < self.items.len()
            invariant
                i <= self.items@.len(),
                owned_key@ == key@,
                forall|j: int| 0 <= j < i ==> (#[trigger] self.items@[j].0)@ != key@,
            decreases self.items@.len() - i,
        {
            if self.items[i].0.eq(&owned_key) {
                proof {
                    lemma_assoc_index(self.items@, key@, i as int);
                }
                return Some(self.items[i].1.clone());
            }
            i = i + 1;
        }
        proof {
            lemma_assoc_none(self.items@, key@);
        }
        None
    }
}

/// Removing the only entry under a key empties its lookups and leaves every
/// other lookup alone.
proof fn lemma_assoc_remove<T>(items: Seq<(String, T)>, idx: int, key: Seq<char>)
    requires
        0 <= idx < items.len(),
        forall|j: int|
            0 <= j < items.len() && j != idx ==> (#[trigger] items[j].0)@ != items[idx].0@,
    ensures
        assoc_lookup(items.remove(idx), items[idx].0@) is None,
        key != items[idx].0@ ==> assoc_lookup(items.remove(idx), key) == assoc_lookup(items, key),
    decreases idx,
{
    let removed = items.remove(idx);
    if idx == 0 {
        assert(removed =~= items.drop_first());
        assert forall|j: int|
            0 <= j < removed.len() implies (#[trigger] removed[j].0)@ != items[0].0@ by {
            assert(removed[j] == items[j + 1]);
        }
        lemma_assoc_none(removed, items[0].0@);
    } else {
        assert(removed[0] == items[0]);
        assert(removed.drop_first() =~= items.drop_first().remove(idx - 1));
        assert(items.drop_first()[idx - 1] == items[idx]);
        assert forall|j: int|
            0 <= j < items.drop_first().len() && j != idx - 1 implies (
        #[trigger] items.drop_first()[j].0)@ != items.drop_first()[idx - 1].0@ by {
            assert(items.drop_first()[j] == items[j + 1]);
        }
        lemma_assoc_remove(items.drop_first(), idx - 1, key);
        assert(items[0].0@ != items[idx].0@);
    }
}

// ---------------------------------------------------------------------------
// The store: sessions by id, with expiry.
// ---------------------------------------------------------------------------
/// Each key appears at most once in the association list.
pub open spec fn distinct_keys<T>(entries: Seq<(String, T)>) -> bool {
    forall|i: int, j: int|
        0 <= i < j < entries.len() ==> (#[trigger] entries[i].0)@ != (#[trigger] entries[j].0)@
}

/// In a list of distinct keys, every other entry misses the key at `idx`.
proof fn lemma_distinct_key<T>(entries: Seq<(String, T)>, idx: int)
    requires
        distinct_keys(entries),
        0 <= idx < entries.len(),
    ensures
        forall|j: int|
            0 <= j < entries.len() && j != idx ==> (#[trigger] entries[j].0)@ != entries[idx].0@,
{
    assert forall|j: int| 0 <= j < entries.len() && j != idx implies (#[trigger] entries[j].0)@
        != entries[idx].0@ by {
        if j < idx {
            assert((entries[j].0)@ != (entries[idx].0)@);
        } else {
            assert((entries[idx].0)@ != (entries[j].0)@);
        }
    }
}

/// Replacing an entry under the same key keeps the keys distinct.
proof fn lemma_distinct_update<T>(entries: Seq<(String, T)>, idx: int, entry: (String, T))
    requires
        distinct_keys(entries),
        0 <= idx < entries.len(),
        entry.0@ == entries[idx].0@,
    ensures
        distinct_keys(entries.update(idx, entry)),
{
    let updated = entries.update(idx, entry);
    assert forall|i: int, j: int| 0 <= i < j < updated.len() implies (#[trigger] updated[i].0)@
        != (#[trigger] updated[j].0)@ by {
        assert((entries[i].0)@ != (entries[j].0)@);
    }
}

/// Appending an entry under a fresh key keeps the keys distinct.
proof fn lemma_distinct_push<T>(entries: Seq<(String, T)>, entry: (String, T))
    requires
        distinct_keys(entries),
        forall|j: int| 0 <= j < entries.len() ==> (#[trigger] entries[j].0)@ != entry.0@,
    ensures
        distinct_keys(entries.push(entry)),
{
    let pushed = entries.push(entry);
    assert forall|i: int, j: int| 0 <= i < j < pushed.len() implies (#[trigger] pushed[i].0)@ != (
    #[trigger] pushed[j].0)@ by {
        if j < entries.len() {
            assert((entries[i].0)@ != (entries[j].0)@);
        } else {
            assert((entries[i].0)@ != entry.0@);
        }
    }
}

/// Removing an entry keeps the keys distinct.
proof fn lemma_distinct_remove<T>(entries: Seq<(String, T)>, idx: int)
    requires
        distinct_keys(entries),
        0 <= idx < entries.len(),
    ensures
        distinct_keys(entries.remove(idx)),
{
    let removed = entries.remove(idx);
    assert forall|i: int, j: int| 0 <= i < j < removed.len() implies (#[trigger] removed[i].0)@
        != (#[trigger] removed[j].0)@ by {
        let a = if i < idx {
            i
        } else {
            i + 1
        };
        let b = if j < idx {
            j
        } else {
            j + 1
        };
        assert(removed[i] == entries[a]);
        assert(removed[j] == entries[b]);
        assert((entries[a].0)@ != (entries[b].0)@);
    }
}

/// The store of sessions, keyed by session id.
pub struct SessionStore {
    pub store: Vec<(String, SessionItem)>,
}

/// What a lookup at instant `now` answers: the stored session, only while
/// it is live.
pub open spec fn spec_get_session(
    entries: Seq<(String, SessionItem)>,
    id: Seq<char>,
    now: i64,
) -> Option<SessionItem> {
    match assoc_lookup(entries, id) {
        Some(it) => if it.expires_at > now {
            Some(it)
        } else {
            None
        },
        None => None,
    }
}

/// The instant a session created at `now` with the given lifetime expires:
/// `now + seconds`, capped at the largest representable instant.
pub open spec fn spec_expiry(now: i64, expires_in_secs: i64) -> i64 {
    if expires_in_secs > (i64::MAX - now) / 1000 {
        i64::MAX
    } else {
        (now + expires_in_secs * 1000) as i64
    }
}

impl SessionStore {
    /// Each session id appears at most once.
    pub open spec fn wf(self) -> bool {
        distinct_keys(self.store@)
    }

    /// An empty store. The periodic sweep that evicts expired sessions is
    /// driven from outside by calling `sweep`.
    pub fn new() -> (r: SessionStore)
        ensures
            r.store@ =~= Seq::<(String, SessionItem)>::empty(),
            r.wf(),
    {
        SessionStore { store: Vec::new() }
    }

    /// Creates (or replaces) the session `id`, expiring `expires_in_secs`
    /// seconds after the instant `now`.
    #[verifier::loop_isolation(false)]
    pub fn create_session_at(&mut self, id: String, expires_in_secs: i64, now: i64)
        requires
            old(self).wf(),
            now >= 0,
            expires_in_secs >= 0,
        ensures
            final(self).wf(),
            match assoc_lookup(final(self).store@, id@) {
                Some(it) => it.expires_at == spec_expiry(now, expires_in_secs) && it.items@
                    =~= Seq::<(String, String)>::empty(),
                None => false,
            },
            forall|other: Seq<char>|
                other != id@ ==> #[trigger] assoc_lookup(final(self).store@, other)
                    == assoc_lookup(old(self).store@, other),
    {
        let expiry: i64 = if expires_in_secs > (i64::MAX - now) / 1000 {
            i64::MAX
        } else {
            now + expires_in_secs * 1000
        };
        let fresh = SessionItem::new_at(expiry);
        let mut i: usize = 0;
        while i < self.store.len()
            invariant
                i <= self.store@.len(),
                forall|j: int| 0 <= j < i ==> (#[trigger] self.store@[j].0)@ != id@,
                *self == *old(self),
            decreases self.store@.len() - i,
        {
            if self.store[i].0.eq(&id) {
                proof {
                    let updated = self.store@.update(i as int, (id, fresh));
                    lemma_distinct_update(self.store@, i as int, (id, fresh));
                    lemma_assoc_index(updated, id@, i as int);
                    assert forall|other: Seq<char>| other != id@ implies #[trigger] assoc_lookup(
                        updated,
                        other,
                    ) == assoc_lookup(self.store@, other) by {
                        lemma_assoc_update(self.store@, i as int, (id, fresh), other);
                    }
                }
                self.store.set(i, (id, fresh));
                return ;
            }
            i = i + 1;
        }
        proof {
            lemma_distinct_push(self.store@, (id, fresh));
            lemma_assoc_none(self.store@, id@);
            lemma_assoc_push(self.store@, (id, fresh), id@);
            assert forall|other: Seq<char>| other != id@ implies #[trigger] assoc_lookup(
                self.store@.push((id, fresh)),
                other,
            ) == assoc_lookup(self.store@, other) by {
                lemma_assoc_push(self.store@, (id, fresh), other);
            }
        }
        self.store.push((id, fresh));
    }

    /// Creates (or replaces) the session `id`, expiring the given number of
    /// seconds from the current instant.
    pub fn create_session(&mut self, id: String, expires_in_secs: i64)
        requires
            old(self).wf(),
            expires_in_secs >= 0,
        ensures
            final(self).wf(),
            match assoc_lookup(final(self).store@, id@) {
                Some(it) => it.items@ =~= Seq::<(String, String)>::empty(),
                None => false,
            },
            exists|now: i64|
                now >= 0 && (match assoc_lookup(final(self).store@, id@) {
                    Some(it) => it.expires_at == #[trigger] spec_expiry(now, expires_in_secs),
                    None => false,
                }),
            forall|other: Seq<char>|
                other != id@ ==> #[trigger] assoc_lookup(final(self).store@, other)
                    == assoc_lookup(old(self).store@, other),
    {
        let now = now_millis();
        self.create_session_at(id, expires_in_secs, now);
    }

    /// Whether any session, live or expired, stands under `id`. Expiry is
    /// not consulted and nothing is evicted.
    pub fn has_session(&self, session_id: &str) -> (r: bool)
        ensures
            r == (assoc_lookup(self.store@, session_id@) is Some),
    {
        let owned = session_id.to_owned();
        let mut i: usize = 0;
        while i < self.store.len()
            invariant
                i <= self.store@.len(),
                owned@ == session_id@,
                forall|j: int| 0 <= j < i ==> (#[trigger] self.store@[j].0)@ != session_id@,
            decreases self.store@.len() - i,
        {
            if self.store[i].0.eq(&owned) {
                proof {
                    lemma_assoc_index(self.store@, session_id@, i as int);
                }
                return true;
            }
            i = i + 1;
        }
        proof {
            lemma_assoc_none(self.store@, session_id@);
        }
        false
    }

    /// The session under `id` at instant `now`: a copy of the live session,
    /// or nothing. An expired session is removed on this access.
    #[verifier::loop_isolation(false)]
    pub fn get_session_at(&mut self, session_id: &str, now: i64) -> (r: Option<SessionItem>)
        requires
            old(self).wf(),
        ensures
            final(self).wf(),
            match (r, spec_get_session(old(self).store@, session_id@, now)) {
                (Some(a), Some(b)) => a.expires_at == b.expires_at && forall|key: Seq<char>|
                    #![trigger assoc_lookup(a.items@, key)]
                    match (assoc_lookup(a.items@, key), assoc_lookup(b.items@, key)) {
                        (Some(x), Some(y)) => x@ == y@,
                        (None, None) => true,
                        _ => false,
                    },
                (None, None) => true,
                _ => false,
            },
            assoc_lookup(final(self).store@, session_id@) == spec_get_session(
                old(self).store@,
                session_id@,
                now,
            ),
            forall|other: Seq<char>|
                other != session_id@ ==> #[trigger] assoc_lookup(final(self).store@, other)
                    == assoc_lookup(old(self).store@, other),
    {
        let owned = session_id.to_owned();
        let mut i: usize = 0;
        while i < self.store.len()
            invariant
                i <= self.store@.len(),
                owned@ == session_id@,
                forall|j: int| 0 <= j < i ==> (#[trigger] self.store@[j].0)@ != session_id@,
                *self == *old(self),
            decreases self.store@.len() - i,
        {
            if self.store[i].0.eq(&owned) {
                proof {
                    lemma_assoc_index(self.store@, session_id@, i as int);
                }
                if self.store[i].1.expires_at > now {
                    return Some(self.store[i].1.dup());
                }
                proof {
                    lemma_distinct_key(self.store@, i as int);
                    lemma_distinct_remove(self.store@, i as int);
                    lemma_assoc_remove(self.store@, i as int, session_id@);
                    assert forall|other: Seq<char>| other != session_id@ implies
                        #[trigger] assoc_lookup(self.store@.remove(i as int), other)
                        == assoc_lookup(self.store@, other) by {
                        lemma_assoc_remove(self.store@, i as int, other);
                    }
                }
                let _ = self.store.remove(i);
                return None;
            }
            i = i + 1;
        }
        proof {
            lemma_assoc_none(self.store@, session_id@);
        }
        None
    }

    /// The session under `id` at the current instant: at whatever instant
    /// the clock gave, the answer and the store agree with a read at that
    /// instant — an empty answer for a stored session means it expired and
    /// was evicted.
    pub fn get_session(&mut self, session_id: &String) -> (r: Option<SessionItem>)
        requires
            old(self).wf(),
        ensures
            final(self).wf(),
            match (r, assoc_lookup(old(self).store@, session_id@)) {
                (Some(a), Some(b)) => a.expires_at == b.expires_at && forall|key: Seq<char>|
                    #![trigger assoc_lookup(a.items@, key)]
                    match (assoc_lookup(a.items@, key), assoc_lookup(b.items@, key)) {
                        (Some(x), Some(y)) => x@ == y@,
                        (None, None) => true,
                        _ => false,
                    },
                (Some(_), None) => false,
                (None, _) => true,
            },
            exists|now: i64|
                now >= 0 && (r is Some <==> #[trigger] spec_get_session(
                    old(self).store@,
                    session_id@,
                    now,
                ) is Some) && assoc_lookup(final(self).store@, session_id@) == spec_get_session(
                    old(self).store@,
                    session_id@,
                    now,
                ),
            forall|other: Seq<char>|
                other != session_id@ ==> #[trigger] assoc_lookup(final(self).store@, other)
                    == assoc_lookup(old(self).store@, other),
    {
        let now = now_millis();
        self.get_session_at(session_id.as_str(), now)
    }

    /// Stores `value` under `key` in the session `id`, if that session
    /// exists; expiry is not consulted.
    #[verifier::loop_isolation(false)]
    pub fn set_session_value(&mut self, session_id: &str, key: String, value: String)
        requires
            old(self).wf(),
        ensures
            final(self).wf(),
            match (
                assoc_lookup(final(self).store@, session_id@),
                assoc_lookup(old(self).store@, session_id@),
            ) {
                (Some(a), Some(b)) => a.expires_at == b.expires_at && (match assoc_lookup(
                    a.items@,
                    key@,
                ) {
                    Some(v) => v@ == value@,
                    None => false,
                }) && forall|other: Seq<char>|
                    #![trigger assoc_lookup(a.items@, other)]
                    other != key@ ==> match (
                        assoc_lookup(a.items@, other),
                        assoc_lookup(b.items@, other),
                    ) {
                        (Some(x), Some(y)) => x@ == y@,
                        (None, None) => true,
                        _ => false,
                    },
                (None, None) => true,
                _ => false,
            },
            forall|other: Seq<char>|
                other != session_id@ ==> #[trigger] assoc_lookup(final(self).store@, other)
                    == assoc_lookup(old(self).store@, other),
    {
        let owned = session_id.to_owned();
        let mut i: usize = 0;
        while i < self.store.len()
            invariant
                i <= self.store@.len(),
                owned@ == session_id@,
                forall|j: int| 0 <= j < i ==> (#[trigger] self.store@[j].0)@ != session_id@,
                *self == *old(self),
            decreases self.store@.len() - i,
        {
            if self.store[i].0.eq(&owned) {
                proof {
                    lemma_assoc_index(self.store@, session_id@, i as int);
                }
                let mut entry = self.store.remove(i);
                entry.1.set_item(key, value);
                proof {
                    let updated = old(self).store@.update(i as int, entry);
                    assert(old(self).store@.remove(i as int).insert(i as int, entry) =~= updated);
                    lemma_distinct_update(old(self).store@, i as int, entry);
                    lemma_assoc_index(updated, session_id@, i as int);
                    assert forall|other: Seq<char>| other != session_id@ implies
                        #[trigger] assoc_lookup(updated, other) == assoc_lookup(
                        old(self).store@,
                        other,
                    ) by {
                        lemma_assoc_update(old(self).store@, i as int, entry, other);
                    }
                }
                self.store.insert(i, entry);
                return ;
            }
            i = i + 1;
        }
        proof {
            lemma_assoc_none(self.store@, session_id@);
        }
    }

    /// Drops the session `id`, live or not.
    #[verifier::loop_isolation(false)]
    pub fn invalidate_session(&mut self, session_id: &str)
        requires
            old(self).wf(),
        ensures
            final(self).wf(),
            assoc_lookup(final(self).store@, session_id@) is None,
            forall|other: Seq<char>|
                other != session_id@ ==> #[trigger] assoc_lookup(final(self).store@, other)
                    == assoc_lookup(old(self).store@, other),
    {
        let owned = session_id.to_owned();
        let mut i: usize = 0;
        while i < self.store.len()
            invariant
                i <= self.store@.len(),
                owned@ == session_id@,
                forall|j: int| 0 <= j < i ==> (#[trigger] self.store@[j].0)@ != session_id@,
                *self == *old(self),
            decreases self.store@.len() - i,
        {
            if self.store[i].0.eq(&owned) {
                proof {
                    lemma_assoc_index(self.store@, session_id@, i as int);
                    lemma_distinct_key(self.store@, i as int);
                    lemma_distinct_remove(self.store@, i as int);
                    lemma_assoc_remove(self.store@, i as int, session_id@);
                    assert forall|other: Seq<char>| other != session_id@ implies
                        #[trigger] assoc_lookup(self.store@.remove(i as int), other)
                        == assoc_lookup(self.store@, other) by {
                        lemma_assoc_remove(self.store@, i as int, other);
                    }
                }
                let _ = self.store.remove(i);
                return ;
            }
            i = i + 1;
        }
        proof {
            lemma_assoc_none(self.store@, session_id@);
        }
    }

    /// One pass of the reaper: evicts every session whose expiry is at or
    /// before `now`, and leaves every live session's state alone.
    #[verifier::loop_isolation(false)]
    pub fn sweep(&mut self, now: i64)
        requires
            old(self).wf(),
        ensures
            final(self).wf(),
            forall|id: Seq<char>|
                #[trigger] assoc_lookup(final(self).store@, id) == spec_get_session(
                    old(self).store@,
                    id,
                    now,
                ),
            forall|j: int|
                0 <= j < final(self).store@.len() ==> (#[trigger] final(self).store@[j]).1.expires_at
                    > now,
    {
        let mut i: usize = 0;
        while i < self.store.len()
            invariant
                i <= self.store@.len(),
                self.wf(),
                forall|j: int| 0 <= j < i ==> (#[trigger] self.store@[j]).1.expires_at > now,
                forall|id: Seq<char>|
                    #[trigger] spec_get_session(self.store@, id, now) == spec_get_session(
                        old(self).store@,
                        id,
                        now,
                    ),
            decreases self.store@.len() - i,
        {
            if self.store[i].1.expires_at > now {
                i = i + 1;
            } else {
                proof {
                    let cur = self.store@;
                    let gone = cur[i as int].0@;
                    lemma_distinct_key(cur, i as int);
                    lemma_distinct_remove(cur, i as int);
                    lemma_assoc_remove(cur, i as int, gone);
                    lemma_assoc_index(cur, gone, i as int);
                    assert forall|id: Seq<char>| #[trigger] spec_get_session(
                        cur.remove(i as int),
                        id,
                        now,
                    ) == spec_get_session(cur, id, now) by {
                        if id != gone {
                            lemma_assoc_remove(cur, i as int, id);
                        }
                    }
                }
                let _ = self.store.remove(i);
            }
        }
        proof {
            assert forall|id: Seq<char>| #[trigger] assoc_lookup(self.store@, id)
                == spec_get_session(old(self).store@, id, now) by {
                match assoc_lookup(self.store@, id) {
                    Some(it) => {
                        lemma_assoc_found_in(self.store@, id);
                        let j = choose|j: int|
                            0 <= j < self.store@.len() && (#[trigger] self.store@[j].0)@ == id
                                && self.store@[j].1 == assoc_lookup(self.store@, id)->Some_0;
                        assert(self.store@[j].1.expires_at > now);
                        assert(spec_get_session(self.store@, id, now) == Some(it));
                    },
                    None => {
                        assert(spec_get_session(self.store@, id, now) is None);
                    },
                }
            }
        }
    }
}

/// A successful lookup returns one of the entries.
proof fn lemma_assoc_found_in<T>(items: Seq<(String, T)>, key: Seq<char>)
    requires
        assoc_lookup(items, key) is Some,
    ensures
        exists|j: int|
            0 <= j < items.len() && (#[trigger] items[j].0)@ == key && items[j].1 == assoc_lookup(
                items,
                key,
            )->Some_0,
    decreases items.len(),
{
    if items.len() > 0 {
        if items[0].0@ == key {
            assert(items[0].0@ == key && items[0].1 == assoc_lookup(items, key)->Some_0);
        } else {
            lemma_assoc_found_in(items.drop_first(), key);
            let j = choose|j: int|
                0 <= j < items.drop_first().len() && (#[trigger] items.drop_first()[j].0)@ == key
                    && items.drop_first()[j].1 == assoc_lookup(items.drop_first(), key)->Some_0;
            assert(items[j + 1] == items.drop_first()[j]);
            assert(items[j + 1].0@ == key && items[j + 1].1 == assoc_lookup(items, key)->Some_0);
        }
    }
}

/// Session time-to-live: a session created at `created` with a lifetime
/// expires at `spec_expiry(created, ttl_secs)`. A read strictly before that
/// instant returns the live session; a read at or after it returns nothing.
pub proof fn lemma_session_ttl(
    entries: Seq<(String, SessionItem)>,
    id: Seq<char>,
    created: i64,
    ttl_secs: i64,
    now: i64,
)
    requires
        match assoc_lookup(entries, id) {
            Some(it) => it.expires_at == spec_expiry(created, ttl_secs),
            None => false,
        },
    ensures
        now >= spec_expiry(created, ttl_secs) ==> spec_get_session(entries, id, now) is None,
        now < spec_expiry(created, ttl_secs) ==> spec_get_session(entries, id, now)
            == assoc_lookup(entries, id),
{
}

/// Two item lists that read the same entry-wise serve the same lookups.
proof fn lemma_assoc_parallel(a: Seq<(String, String)>, b: Seq<(String, String)>, key: Seq<char>)
    requires
        a.len() == b.len(),
        forall|k: int| 0 <= k < a.len() ==> (#[trigger] a[k]).0@ == b[k].0@ && a[k].1@ == b[k].1@,
    ensures
        match (assoc_lookup(a, key), assoc_lookup(b, key)) {
            (Some(x), Some(y)) => x@ == y@,
            (None, None) => true,
            _ => false,
        },
    decreases a.len(),
{
    if a.len() > 0 {
        assert(a[0].0@ == b[0].0@);
        assert forall|k: int| 0 <= k < a.drop_first().len() implies (
        #[trigger] a.drop_first()[k]).0@ == b.drop_first()[k].0@ && a.drop_first()[k].1@
            == b.drop_first()[k].1@ by {
            assert(a.drop_first()[k] == a[k + 1]);
            assert(b.drop_first()[k] == b[k + 1]);
        }
        lemma_assoc_parallel(a.drop_first(), b.drop_first(), key);
    }
}

} // verus!
