//! Synchronous expiring cache.
//!
//! A [`Cache`] maps string keys to values of one cheaply duplicable
//! type.  Every entry remembers the clock reading at which it was last
//! stored; a lookup compares the entry's age against a timeout — the
//! entry's own override when present, the cache-wide default otherwise
//! — and reports the entry as [`CachedItemState::Active`] or
//! [`CachedItemState::Expired`].  Entries are never deleted; they
//! merely become stale and are replaced by the next store.
//!
//! Operations come in pairs: `get_state_at`, `retrieve_at`, and so on
//! take the clock reading (nanoseconds) as an argument and promise
//! exactly what they return for every reading, while `get_state`,
//! `retrieve`, … read the monotonic clock themselves and promise the
//! same for the reading they happened to take.

use vstd::prelude::*;

use crate::clock::{monotonic_now, nanos_between};
use crate::text::str_eq;

verus! {

/// State of a cached item, as observed by a lookup.
#[derive(Clone, Copy, Debug, PartialEq, Eq, Structural)]
pub enum CachedItemState {
    /// Item is not in the cache.
    Missing,
    /// Item is in the cache and has not reached its timeout.
    Active,
    /// Item is in the cache, but is expired.
    Expired,
    /// The cache could not be accessed at all (a poisoned lock in a
    /// shared wrapper).  Nothing in this module produces it; a
    /// concurrent wrapper around the cache reports it when its lock
    /// fails, so that callers fall back to recomputing.
    Error,
}

/// How long an entry stays fresh: a finite span in nanoseconds, or
/// never expiring at all.
#[derive(Clone, Copy, Debug, PartialEq, Eq, Structural)]
pub enum Timeout {
    /// The entry never expires.
    Never,
    /// The entry expires once its age exceeds this many nanoseconds.
    Nanos(u128),
}

/// One entry inside the cache.
struct CacheEntry<T> {
    /// The cached payload.
    value: T,
    /// Clock reading (nanoseconds) taken at the last store.
    last_update: u128,
    /// Per-entry timeout that supersedes the cache-wide default.
    timeout_override: Option<Timeout>,
}

/// What the contracts record about one stored entry: the payload, the
/// clock reading at which it was stored, and its timeout override.
pub struct EntryModel<T> {
    /// The stored payload.
    pub value: T,
    /// Clock reading (nanoseconds) taken at the last store.
    pub last_update: u128,
    /// Per-entry timeout that supersedes the cache-wide default.
    pub timeout_override: Option<Timeout>,
}

/// Generic key-value memoization store with timeout-based expiry.
///
/// Viewed as a `Map<Seq<char>, EntryModel<T>>` from key to entry
/// record.  Reads take `&self`; stores take `&mut self`.  A process
/// that shares one cache across request handlers wraps it in a
/// reference-counted read/write lock; the contracts here describe
/// what each operation does to the map between lock acquisition and
/// release.
pub struct Cache<T> {
    /// Stored entries, one per key.
    entries: Vec<(String, CacheEntry<T>)>,
    /// Time until an entry expires, unless overridden per entry.
    timeout: Timeout,
    /// Report every present entry as expired (a development aid,
    /// fixed at construction).
    force_expire: bool,
    /// The clock reading that all entry ages are measured from.
    epoch: std::time::Instant,
}

/// The ghost record for one stored pair.
spec fn entry_model<T>(e: CacheEntry<T>) -> EntryModel<T> {
    EntryModel { value: e.value, last_update: e.last_update, timeout_override: e.timeout_override }
}

/// The stored pairs as a map; on duplicate keys the later pair wins.
spec fn entries_model<T>(s: Seq<(String, CacheEntry<T>)>) -> Map<Seq<char>, EntryModel<T>>
    decreases s.len(),
{
    if s.len() == 0 {
        Map::empty()
    } else {
        entries_model(s.drop_last()).insert(s.last().0@, entry_model(s.last().1))
    }
}

/// No two stored pairs share a key.
spec fn keys_unique<T>(s: Seq<(String, CacheEntry<T>)>) -> bool {
    forall|i: int, j: int| 0 <= i < j < s.len() ==> s[i].0@ != s[j].0@
}

/// A key is in the map exactly when some stored pair carries it.
proof fn lemma_entries_model_domain<T>(s: Seq<(String, CacheEntry<T>)>, k: Seq<char>)
    ensures
        entries_model(s).contains_key(k) <==> exists|i: int| 0 <= i < s.len() && s[i].0@ == k,
    decreases s.len(),
{
    if s.len() > 0 {
        lemma_entries_model_domain(s.drop_last(), k);
        if s.last().0@ == k {
            assert(s[s.len() - 1].0@ == k);
        } else {
            if entries_model(s).contains_key(k) {
                let i = choose|i: int|
                    0 <= i < s.drop_last().len() && s.drop_last()[i].0@ == k;
                assert(s[i].0@ == k);
            }
            if exists|i: int| 0 <= i < s.len() && s[i].0@ == k {
                let i = choose|i: int| 0 <= i < s.len() && s[i].0@ == k;
                assert(s.drop_last()[i].0@ == k);
            }
        }
    }
}

/// Under unique keys, the map sends each stored key to its own entry.
proof fn lemma_entries_model_at<T>(s: Seq<(String, CacheEntry<T>)>, i: int)
    requires
        keys_unique(s),
        0 <= i < s.len(),
    ensures
        entries_model(s).contains_key(s[i].0@),
        entries_model(s)[s[i].0@] == entry_model(s[i].1),
    decreases s.len(),
{
    if i < s.len() - 1 {
        assert(keys_unique(s.drop_last())) by {
            assert forall|a: int, b: int|
                0 <= a < b < s.drop_last().len() implies s.drop_last()[a].0@
                != s.drop_last()[b].0@ by {
                assert(s[a].0@ != s[b].0@);
            }
        }
        lemma_entries_model_at(s.drop_last(), i);
        assert(s.last().0@ != s[i].0@);
    }
}

/// Replacing the pair at `i` by one with the same key updates exactly
/// that key in the map.
proof fn lemma_entries_model_update<T>(
    s: Seq<(String, CacheEntry<T>)>,
    i: int,
    p: (String, CacheEntry<T>),
)
    requires
        keys_unique(s),
        0 <= i < s.len(),
        p.0@ == s[i].0@,
    ensures
        entries_model(s.update(i, p)) =~= entries_model(s).insert(p.0@, entry_model(p.1)),
    decreases s.len(),
{
    let t = s.update(i, p);
    if i == s.len() - 1 {
        assert(t.drop_last() =~= s.drop_last());
        assert(t.last() == p);
    } else {
        assert(keys_unique(s.drop_last())) by {
            assert forall|a: int, b: int|
                0 <= a < b < s.drop_last().len() implies s.drop_last()[a].0@
                != s.drop_last()[b].0@ by {
                assert(s[a].0@ != s[b].0@);
            }
        }
        assert(t.drop_last() =~= s.drop_last().update(i, p));
        lemma_entries_model_update(s.drop_last(), i, p);
        assert(t.last() == s.last());
        assert(s.last().0@ != p.0@);
    }
}

/// Appending a pair inserts its key into the map.
proof fn lemma_entries_model_push<T>(s: Seq<(String, CacheEntry<T>)>, p: (String, CacheEntry<T>))
    ensures
        entries_model(s.push(p)) =~= entries_model(s).insert(p.0@, entry_model(p.1)),
{
    assert(s.push(p).drop_last() =~= s);
    assert(s.push(p).last() == p);
}

/// Whether an entry with record `e` counts as expired at clock
/// reading `now`: every entry does when `force_expire` is set;
/// otherwise the entry's age — saturating to zero for readings older
/// than its stamp — must exceed the timeout that applies to it, the
/// entry's own override when present, else the cache-wide default.
pub open spec fn model_expired<T>(
    e: EntryModel<T>,
    default_timeout: Timeout,
    force_expire: bool,
    now: u128,
) -> bool {
    let timeout = match e.timeout_override {
        Some(t) => t,
        None => default_timeout,
    };
    let age: int = if now >= e.last_update {
        now - e.last_update
    } else {
        0
    };
    force_expire || match timeout {
        Timeout::Never => false,
        Timeout::Nanos(n) => age > n,
    }
}

impl<T> View for Cache<T> {
    type V = Map<Seq<char>, EntryModel<T>>;

    closed spec fn view(&self) -> Map<Seq<char>, EntryModel<T>> {
        entries_model(self.entries@)
    }
}

impl<T> Cache<T> {
    /// Each key is stored at most once; every operation preserves this.
    pub closed spec fn wf(self) -> bool {
        keys_unique(self.entries@)
    }

    /// The cache-wide default timeout, fixed at construction.
    pub closed spec fn default_timeout(self) -> Timeout {
        self.timeout
    }

    /// Whether every present entry is reported expired (development
    /// mode), fixed at construction.
    pub closed spec fn always_expires(self) -> bool {
        self.force_expire
    }

    /// Whether the entry under `key` counts as expired at `now`.
    pub open spec fn spec_expired(self, key: Seq<char>, now: u128) -> bool
        recommends
            self@.contains_key(key),
    {
        model_expired(self@[key], self.default_timeout(), self.always_expires(), now)
    }

    /// The state a lookup of `key` observes at clock reading `now`.
    pub open spec fn spec_state(self, key: Seq<char>, now: u128) -> CachedItemState {
        if !self@.contains_key(key) {
            CachedItemState::Missing
        } else if self.spec_expired(key, now) {
            CachedItemState::Expired
        } else {
            CachedItemState::Active
        }
    }
}

/// Everything a store of `item` under `key` at clock reading `now`
/// guarantees: the entry under `key` now holds a clone of `item`,
/// stamped `now` and carrying `custom_timeout` as its override; no
/// other entry changes; the cache-wide policy is untouched.
pub open spec fn update_effect<T: Clone>(
    pre: Cache<T>,
    post: Cache<T>,
    key: Seq<char>,
    item: T,
    custom_timeout: Option<Timeout>,
    now: u128,
) -> bool {
    &&& post.wf()
    &&& post.default_timeout() == pre.default_timeout()
    &&& post.always_expires() == pre.always_expires()
    &&& post@.contains_key(key)
    &&& cloned(item, post@[key].value)
    &&& post@[key].last_update == now
    &&& post@[key].timeout_override == custom_timeout
    &&& post@ == pre@.insert(key, post@[key])
}

/// How a retrieval result at clock reading `now` relates to the
/// cache: a value comes back exactly when the entry is active, and it
/// is a clone of the stored payload; otherwise the observed non-active
/// state comes back as the error.
pub open spec fn retrieve_effect<T: Clone>(
    c: Cache<T>,
    key: Seq<char>,
    r: Result<T, CachedItemState>,
    now: u128,
) -> bool {
    match r {
        Ok(v) => c.spec_state(key, now) == CachedItemState::Active && cloned(c@[key].value, v),
        Err(state) => state == c.spec_state(key, now) && state != CachedItemState::Active,
    }
}

/// Everything `retrieve_or_update` guarantees at clock reading `now`:
/// on an active entry the cache is left alone and a clone of the
/// stored payload comes back; otherwise the result is an output of
/// `compute` and a clone of it is stored under `key` with the default
/// timeout, exactly as a plain store would.
pub open spec fn retrieve_or_update_effect<T: Clone, F: FnOnce() -> T>(
    pre: Cache<T>,
    post: Cache<T>,
    key: Seq<char>,
    compute: F,
    r: T,
    now: u128,
) -> bool {
    if pre.spec_state(key, now) == CachedItemState::Active {
        post == pre && cloned(pre@[key].value, r)
    } else {
        call_ensures(compute, (), r) && update_effect(pre, post, key, r, None, now)
    }
}

impl<T> CacheEntry<T> {
    /// Check whether this entry is expired at clock reading `now`.
    fn is_expired(&self, default_timeout: Timeout, force_expire: bool, now: u128) -> (r: bool)
        ensures
            r == model_expired(entry_model(*self), default_timeout, force_expire, now),
    {
        if force_expire {
            return true;
        }
        let timeout = match self.timeout_override {
            Some(t) => t,
            None => default_timeout,
        };
        match timeout {
            Timeout::Never => false,
            Timeout::Nanos(n) => {
                let age: u128 = if now >= self.last_update {
                    now - self.last_update
                } else {
                    0
                };
                age > n
            },
        }
    }
}

impl<T: Clone> Cache<T> {
    /// Create an empty cache whose entries expire `timeout` after
    /// each store.
    pub fn new(timeout: Timeout) -> (c: Self)
        ensures
            c.wf(),
            c@ == Map::<Seq<char>, EntryModel<T>>::empty(),
            c.default_timeout() == timeout,
            !c.always_expires(),
    {
        Self::new_with_policy(timeout, false)
    }

    /// Create an empty cache, choosing the development-mode policy
    /// that reports every present entry as expired so that each
    /// request recomputes.
    pub fn new_with_policy(timeout: Timeout, force_expire: bool) -> (c: Self)
        ensures
            c.wf(),
            c@ == Map::<Seq<char>, EntryModel<T>>::empty(),
            c.default_timeout() == timeout,
            c.always_expires() == force_expire,
    {
        let c = Cache {
            entries: Vec::new(),
            timeout,
            force_expire,
            epoch: monotonic_now(),
        };
        proof {
            assert(c.entries@.len() == 0);
        }
        c
    }

    /// Index of the pair stored under `name`, if any.
    fn find_index(&self, name: &str) -> (r: Option<usize>)
        ensures
            match r {
                Some(i) => i < self.entries@.len() && self.entries@[i as int].0@ == name@,
                None => forall|i: int|
                    0 <= i < self.entries@.len() ==> self.entries@[i].0@ != name@,
            },
    {
        let mut idx: usize = 0;
        while idx < self.entries.len()
            invariant
                idx <= self.entries@.len(),
                forall|i: int| 0 <= i < idx ==> self.entries@[i].0@ != name@,
            decreases self.entries@.len() - idx,
        {
            if str_eq(self.entries[idx].0.as_str(), name) {
                return Some(idx);
            }
            idx += 1;
        }
        None
    }

    /// Get the state of the item under `name` at clock reading `now`.
    pub fn get_state_at(&self, name: &str, now: u128) -> (state: CachedItemState)
        requires
            self.wf(),
        ensures
            state == self.spec_state(name@, now),
    {
        match self.find_index(name) {
            Some(i) => {
                proof {
                    lemma_entries_model_at(self.entries@, i as int);
                }
                let entry = &self.entries[i].1;
                if entry.is_expired(self.timeout, self.force_expire, now) {
                    CachedItemState::Expired
                } else {
                    CachedItemState::Active
                }
            },
            None => {
                proof {
                    lemma_entries_model_domain(self.entries@, name@);
                }
                CachedItemState::Missing
            },
        }
    }

    /// Get the state of the item under `name` at the clock reading
    /// taken during the call.
    pub fn get_state(&self, name: &str) -> (state: CachedItemState)
        requires
            self.wf(),
        ensures
            exists|now: u128| state == self.spec_state(name@, now),
    {
        let t = monotonic_now();
        let now = nanos_between(&self.epoch, &t);
        self.get_state_at(name, now)
    }

    /// Whether the item under `name` is in the cache and not expired
    /// at clock reading `now`.
    pub fn in_cache_at(&self, name: &str, now: u128) -> (r: bool)
        requires
            self.wf(),
        ensures
            r == (self.spec_state(name@, now) == CachedItemState::Active),
    {
        self.get_state_at(name, now) == CachedItemState::Active
    }

    /// Whether the item under `name` is in the cache and not expired
    /// at the clock reading taken during the call.
    pub fn in_cache(&self, name: &str) -> (r: bool)
        requires
            self.wf(),
        ensures
            exists|now: u128| r == (self.spec_state(name@, now) == CachedItemState::Active),
    {
        let t = monotonic_now();
        let now = nanos_between(&self.epoch, &t);
        self.in_cache_at(name, now)
    }

    /// Retrieve the item under `name` at clock reading `now`: a clone
    /// of the stored value if it is active, otherwise the observed
    /// state as the error.
    pub fn retrieve_at(&self, name: &str, now: u128) -> (r: Result<T, CachedItemState>)
        requires
            self.wf(),
        ensures
            retrieve_effect(*self, name@, r, now),
    {
        match self.find_index(name) {
            Some(i) => {
                proof {
                    lemma_entries_model_at(self.entries@, i as int);
                }
                let entry = &self.entries[i].1;
                if entry.is_expired(self.timeout, self.force_expire, now) {
                    Err(CachedItemState::Expired)
                } else {
                    Ok(entry.value.clone())
                }
            },
            None => {
                proof {
                    lemma_entries_model_domain(self.entries@, name@);
                }
                Err(CachedItemState::Missing)
            },
        }
    }

    /// Retrieve the item under `name` at the clock reading taken
    /// during the call.
    pub fn retrieve(&self, name: &str) -> (r: Result<T, CachedItemState>)
        requires
            self.wf(),
        ensures
            exists|now: u128| retrieve_effect(*self, name@, r, now),
    {
        let t = monotonic_now();
        let now = nanos_between(&self.epoch, &t);
        self.retrieve_at(name, now)
    }

    /// Retrieve the item under `name` even if it is expired; nothing
    /// comes back only when the key was never stored.
    pub fn retrieve_force(&self, name: &str) -> (r: Option<T>)
        requires
            self.wf(),
        ensures
            match r {
                Some(v) => self@.contains_key(name@) && cloned(self@[name@].value, v),
                None => !self@.contains_key(name@),
            },
    {
        match self.find_index(name) {
            Some(i) => {
                proof {
                    lemma_entries_model_at(self.entries@, i as int);
                }
                Some(self.entries[i].1.value.clone())
            },
            None => {
                proof {
                    lemma_entries_model_domain(self.entries@, name@);
                }
                None
            },
        }
    }

    /// Store `item` under `name` at clock reading `now` with a
    /// per-entry timeout override; the item is handed back so that a
    /// caller can compute, cache and use a value in one expression.
    pub fn update_override_at(
        &mut self,
        name: &str,
        item: T,
        custom_timeout: Option<Timeout>,
        now: u128,
    ) -> (r: T)
        requires
            old(self).wf(),
        ensures
            update_effect(*old(self), *final(self), name@, item, custom_timeout, now),
            r == item,
    {
        let entry = CacheEntry {
            value: item.clone(),
            last_update: now,
            timeout_override: custom_timeout,
        };
        let key = name.to_owned();
        match self.find_index(name) {
            Some(i) => {
                proof {
                    lemma_entries_model_update(self.entries@, i as int, (key, entry));
                }
                self.entries.set(i, (key, entry));
                proof {
                    assert(keys_unique(self.entries@)) by {
                        assert forall|a: int, b: int|
                            0 <= a < b < self.entries@.len() implies self.entries@[a].0@
                            != self.entries@[b].0@ by {
                            assert(old(self).entries@[a].0@ != old(self).entries@[b].0@);
                        }
                    }
                    lemma_entries_model_at(self.entries@, i as int);
                }
            },
            None => {
                proof {
                    lemma_entries_model_push(self.entries@, (key, entry));
                }
                self.entries.push((key, entry));
                proof {
                    assert(keys_unique(self.entries@)) by {
                        assert forall|a: int, b: int|
                            0 <= a < b < self.entries@.len() implies self.entries@[a].0@
                            != self.entries@[b].0@ by {
                            if b < self.entries@.len() - 1 {
                                assert(old(self).entries@[a].0@ != old(self).entries@[b].0@);
                            } else {
                                assert(old(self).entries@[a].0@ != name@);
                            }
                        }
                    }
                    lemma_entries_model_at(self.entries@, self.entries@.len() - 1);
                }
            },
        }
        item
    }

    /// Store `item` under `name` at clock reading `now` with the
    /// cache-wide default timeout, clearing any prior override.
    pub fn update_at(&mut self, name: &str, item: T, now: u128) -> (r: T)
        requires
            old(self).wf(),
        ensures
            update_effect(*old(self), *final(self), name@, item, None, now),
            r == item,
    {
        self.update_override_at(name, item, None, now)
    }

    /// Store `item` under `name` at the clock reading taken during
    /// the call, with a per-entry timeout override.
    pub fn update_override(&mut self, name: &str, item: T, custom_timeout: Option<Timeout>) -> (r:
        T)
        requires
            old(self).wf(),
        ensures
            exists|now: u128|
                update_effect(*old(self), *final(self), name@, item, custom_timeout, now),
            r == item,
    {
        let t = monotonic_now();
        let now = nanos_between(&self.epoch, &t);
        self.update_override_at(name, item, custom_timeout, now)
    }

    /// Store `item` under `name` at the clock reading taken during
    /// the call, with the cache-wide default timeout.
    pub fn update(&mut self, name: &str, item: T) -> (r: T)
        requires
            old(self).wf(),
        ensures
            exists|now: u128| update_effect(*old(self), *final(self), name@, item, None, now),
            r == item,
    {
        let t = monotonic_now();
        let now = nanos_between(&self.epoch, &t);
        self.update_at(name, item, now)
    }

    /// At clock reading `now`: hand back the cached value if it is
    /// active; otherwise run `compute`, store its result under `name`
    /// and hand the result back.  `compute` runs outside any lock a
    /// shared wrapper may hold, so two concurrent misses may both
    /// compute; the last store wins.
    pub fn retrieve_or_update_at<F: FnOnce() -> T>(
        &mut self,
        name: &str,
        compute: F,
        now: u128,
    ) -> (r: T)
        requires
            old(self).wf(),
            call_requires(compute, ()),
        ensures
            retrieve_or_update_effect(*old(self), *final(self), name@, compute, r, now),
    {
        match self.retrieve_at(name, now) {
            Ok(value) => value,
            Err(_) => {
                let value = compute();
                self.update_at(name, value, now)
            },
        }
    }

    /// Hand back the cached value if it is active at the clock
    /// reading taken during the call; otherwise run `compute`, store
    /// its result under `name` and hand the result back.
    pub fn retrieve_or_update<F: FnOnce() -> T>(&mut self, name: &str, compute: F) -> (r: T)
        requires
            old(self).wf(),
            call_requires(compute, ()),
        ensures
            exists|now: u128|
                retrieve_or_update_effect(*old(self), *final(self), name@, compute, r, now),
    {
        let t = monotonic_now();
        let now = nanos_between(&self.epoch, &t);
        self.retrieve_or_update_at(name, compute, now)
    }
}

/// A key that was never stored is reported `Missing` at every clock
/// reading; by `retrieve_effect` a retrieval then fails with
/// `Missing`, and `retrieve_force` hands nothing back.
pub proof fn lemma_never_stored_is_missing<T: Clone>(c: Cache<T>, key: Seq<char>, now: u128)
    requires
        !c@.contains_key(key),
    ensures
        c.spec_state(key, now) == CachedItemState::Missing,
{
}

/// After a store into a cache whose applicable timeout is `Never`
/// and which is not in development mode, the key is `Active` at every
/// clock reading, and the stored payload is a clone of the item.
pub proof fn lemma_store_never_expires<T: Clone>(
    pre: Cache<T>,
    post: Cache<T>,
    key: Seq<char>,
    item: T,
    stored_at: u128,
    now: u128,
)
    requires
        update_effect(pre, post, key, item, None, stored_at),
        post.default_timeout() == Timeout::Never,
        !post.always_expires(),
    ensures
        post.spec_state(key, now) == CachedItemState::Active,
        cloned(item, post@[key].value),
{
}

/// After a store into a cache with a finite default timeout, once
/// more than the timeout has elapsed the key is `Expired` — while the
/// stored payload is still present, so a forced retrieval still hands
/// it back.
pub proof fn lemma_store_expires_after_timeout<T: Clone>(
    pre: Cache<T>,
    post: Cache<T>,
    key: Seq<char>,
    item: T,
    timeout: u128,
    stored_at: u128,
    now: u128,
)
    requires
        update_effect(pre, post, key, item, None, stored_at),
        post.default_timeout() == Timeout::Nanos(timeout),
        now >= stored_at,
        now - stored_at > timeout,
    ensures
        post.spec_state(key, now) == CachedItemState::Expired,
        post@.contains_key(key),
        cloned(item, post@[key].value),
{
}

/// A per-entry override takes precedence over the cache-wide default:
/// two caches that hold the same entries and the same development
/// flag observe the same state for an overridden key, whatever their
/// default timeouts are.
pub proof fn lemma_override_takes_precedence<T: Clone>(
    c1: Cache<T>,
    c2: Cache<T>,
    key: Seq<char>,
    t: Timeout,
    now: u128,
)
    requires
        c1@ == c2@,
        c1.always_expires() == c2.always_expires(),
        c1@.contains_key(key),
        c1@[key].timeout_override == Some(t),
    ensures
        c1.spec_state(key, now) == c2.spec_state(key, now),
{
}

/// The second of two stores to the same key wins: the map holds the
/// later payload with the later stamp, exactly as if the first store
/// had never happened, and the staleness clock restarts at the later
/// store.
pub proof fn lemma_overwrite<T: Clone>(
    c0: Cache<T>,
    c1: Cache<T>,
    c2: Cache<T>,
    key: Seq<char>,
    item1: T,
    item2: T,
    first_at: u128,
    second_at: u128,
)
    requires
        update_effect(c0, c1, key, item1, None, first_at),
        update_effect(c1, c2, key, item2, None, second_at),
    ensures
        cloned(item2, c2@[key].value),
        c2@[key].last_update == second_at,
        c2@ == c0@.insert(key, c2@[key]),
{
    assert(c2@ =~= c0@.insert(key, c2@[key]));
}

/// A combined retrieve-or-update on an active key hands back a clone
/// of the cached value and leaves the cache untouched; in particular
/// no store happens on a hit.
pub proof fn lemma_hit_short_circuits<T: Clone, F: FnOnce() -> T>(
    pre: Cache<T>,
    post: Cache<T>,
    key: Seq<char>,
    compute: F,
    r: T,
    now: u128,
)
    requires
        retrieve_or_update_effect(pre, post, key, compute, r, now),
        pre.spec_state(key, now) == CachedItemState::Active,
    ensures
        post == pre,
        cloned(pre@[key].value, r),
{
}

/// A combined retrieve-or-update on a missing or expired key hands
/// back an output of `compute` and stores a clone of it, stamped with
/// the reading of the call and with no override; at any later reading
/// within the default timeout (development mode aside) the key is
/// `Active`, so a retrieval then hands that same stored result back.
pub proof fn lemma_miss_computes_and_stores<T: Clone, F: FnOnce() -> T>(
    pre: Cache<T>,
    post: Cache<T>,
    key: Seq<char>,
    compute: F,
    r: T,
    now: u128,
    later: u128,
)
    requires
        retrieve_or_update_effect(pre, post, key, compute, r, now),
        pre.spec_state(key, now) != CachedItemState::Active,
        !post.always_expires(),
        now <= later,
        match post.default_timeout() {
            Timeout::Never => true,
            Timeout::Nanos(n) => later - now <= n,
        },
    ensures
        call_ensures(compute, (), r),
        cloned(r, post@[key].value),
        post@[key].last_update == now,
        post@[key].timeout_override is None,
        post.spec_state(key, later) == CachedItemState::Active,
{
}

} // verus!
