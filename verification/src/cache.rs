//! A bounded cache of published keys: an entry lives for a fixed time, and the
//! entry that was used longest ago makes room for a new one.

use crate::config::{name_tells_algorithm, JwtAlgorithm};
use crate::jwk::{Jwk, JwkView};
use crate::text::{join, same_text};
use std::collections::VecDeque;
use vstd::prelude::*;

verus! {

/// What a cached key is found by: the document it stands in, and how a token
/// refers to it there.
#[derive(Debug, PartialEq, Eq)]
pub struct JwksKeyCacheKey {
    jwks_uri: String,
    selector: String,
}

/// What a cached key is found by, over texts.
pub struct CacheKeyView {
    pub jwks_uri: Seq<char>,
    pub selector: Seq<char>,
}

impl View for JwksKeyCacheKey {
    type V = CacheKeyView;

    closed spec fn view(&self) -> CacheKeyView {
        CacheKeyView { jwks_uri: self.jwks_uri@, selector: self.selector@ }
    }
}

/// How a token refers to a key: by its id, or else by its algorithm.
pub open spec fn selector_of(kid: Option<Seq<char>>, algorithm: JwtAlgorithm) -> Seq<char> {
    match kid {
        Some(kid) => "kid:"@ + kid,
        None => "algorithm:"@ + algorithm.spec_name(),
    }
}

/// What the key of a token is found by.
pub open spec fn cache_key_of(
    jwks_uri: Seq<char>,
    kid: Option<Seq<char>>,
    algorithm: JwtAlgorithm,
) -> CacheKeyView {
    CacheKeyView { jwks_uri, selector: selector_of(kid, algorithm) }
}

impl Clone for JwksKeyCacheKey {
    fn clone(&self) -> (r: Self)
        ensures
            r@ == self@,
    {
        JwksKeyCacheKey { jwks_uri: self.jwks_uri.clone(), selector: self.selector.clone() }
    }
}

impl JwksKeyCacheKey {
    /// What the key of a token is found by.
    pub fn new(jwks_uri: &str, kid: &Option<String>, algorithm: JwtAlgorithm) -> (r: Self)
        ensures
            r@ == cache_key_of(jwks_uri@, kid.deep_view(), algorithm),
    {
        let selector = match kid {
            Some(kid) => join("kid:", kid.as_str()),
            None => join("algorithm:", algorithm.name()),
        };
        JwksKeyCacheKey { jwks_uri: jwks_uri.to_string(), selector }
    }

    fn same(&self, other: &Self) -> (r: bool)
        ensures
            r == (self@ == other@),
    {
        same_text(self.jwks_uri.as_str(), other.jwks_uri.as_str()) && same_text(
            self.selector.as_str(),
            other.selector.as_str(),
        )
    }
}

/// A key, and the instant at which it is no longer to be used.
#[derive(Debug)]
pub struct CachedJwksKey {
    jwk: Jwk,
    expires_at: u128,
}

/// A key, and the instant at which it is no longer to be used.
pub struct CachedView {
    pub jwk: JwkView,
    pub expires_at: int,
}

impl View for CachedJwksKey {
    type V = CachedView;

    closed spec fn view(&self) -> CachedView {
        CachedView { jwk: self.jwk@, expires_at: self.expires_at as int }
    }
}

/// The keys of a cache, the order in which they were last used, and its limits.
pub struct CacheView {
    pub entries: Map<CacheKeyView, CachedView>,
    /// The key that was used longest ago comes first.
    pub recency: Seq<CacheKeyView>,
    pub capacity: nat,
    pub ttl: nat,
}

/// Any key but `key`.
pub open spec fn other_than(key: CacheKeyView) -> spec_fn(CacheKeyView) -> bool {
    |k: CacheKeyView| k != key
}

/// `s` without `key`.
pub open spec fn without(s: Seq<CacheKeyView>, key: CacheKeyView) -> Seq<CacheKeyView> {
    s.filter(other_than(key))
}

impl CacheView {
    /// Every entry has its place in the order of use, once, and there are no
    /// more entries than the capacity allows.
    pub open spec fn consistent(self) -> bool {
        &&& self.recency.no_duplicates()
        &&& self.recency.len() <= self.capacity
        &&& forall|key: CacheKeyView|
            #![trigger self.entries.contains_key(key)]
            #![trigger self.recency.contains(key)]
            self.entries.contains_key(key) <==> self.recency.contains(key)
    }

    /// There is an entry for `key`, and its time has not come.
    pub open spec fn live(self, key: CacheKeyView, now: int) -> bool {
        self.entries.contains_key(key) && now < self.entries[key].expires_at
    }

    /// What a lookup of `key` at the instant `now` finds.
    pub open spec fn found(self, key: CacheKeyView, now: int) -> Option<JwkView> {
        if self.live(key, now) {
            Some(self.entries[key].jwk)
        } else {
            None
        }
    }

    /// The cache after a lookup of `key` at the instant `now`: what was found
    /// counts as used, and what has expired is gone.
    pub open spec fn after_get(self, key: CacheKeyView, now: int) -> CacheView {
        if !self.entries.contains_key(key) {
            self
        } else if self.live(key, now) {
            CacheView { recency: without(self.recency, key).push(key), ..self }
        } else {
            CacheView {
                entries: self.entries.remove(key),
                recency: without(self.recency, key),
                ..self
            }
        }
    }

    /// The cache with a key put in as the one used last, whatever its size.
    pub open spec fn with_entry(self, key: CacheKeyView, jwk: JwkView, now: int) -> CacheView {
        CacheView {
            entries: self.entries.insert(
                key,
                CachedView { jwk, expires_at: now + self.ttl },
            ),
            recency: without(self.recency, key).push(key),
            ..self
        }
    }

    /// The keys whose entries live at the instant `now`.
    pub open spec fn living(self, now: int) -> spec_fn(CacheKeyView) -> bool {
        |k: CacheKeyView| self.live(k, now)
    }

    /// The cache without the entries that have expired.
    pub open spec fn without_expired(self, now: int) -> CacheView {
        CacheView {
            entries: Map::new(self.living(now), |k: CacheKeyView| self.entries[k]),
            recency: self.recency.filter(self.living(now)),
            ..self
        }
    }

    /// The cache without the entries used longest ago that go beyond the
    /// capacity.
    pub open spec fn without_surplus(self) -> CacheView {
        if self.recency.len() <= self.capacity {
            self
        } else {
            let kept = self.recency.skip(self.recency.len() - self.capacity);
            CacheView { entries: self.entries.restrict(kept.to_set()), recency: kept, ..self }
        }
    }

    /// The cache after a key has been put in at the instant `now`.
    pub open spec fn after_insert(self, key: CacheKeyView, jwk: JwkView, now: int) -> CacheView {
        if self.capacity == 0 {
            self
        } else {
            self.with_entry(key, jwk, now).without_expired(now).without_surplus()
        }
    }
}

/// The entries of a cache and the order of their use, which operations bring out
/// of step on their way.
#[derive(Debug)]
struct KeyStore {
    entries: Vec<(JwksKeyCacheKey, CachedJwksKey)>,
    recency: VecDeque<JwksKeyCacheKey>,
    capacity: usize,
    ttl: u64,
}

impl View for KeyStore {
    type V = CacheView;

    closed spec fn view(&self) -> CacheView {
        CacheView {
            entries: entry_map(self.entries@),
            recency: key_views(self.recency@),
            capacity: self.capacity as nat,
            ttl: self.ttl as nat,
        }
    }
}

/// The keys of a list, over texts.
pub open spec fn key_views(keys: Seq<JwksKeyCacheKey>) -> Seq<CacheKeyView> {
    keys.map_values(|key: JwksKeyCacheKey| key@)
}

spec fn entry_keys(entries: Seq<(JwksKeyCacheKey, CachedJwksKey)>) -> Seq<CacheKeyView> {
    entries.map_values(|entry: (JwksKeyCacheKey, CachedJwksKey)| entry.0@)
}

spec fn entry_map(entries: Seq<(JwksKeyCacheKey, CachedJwksKey)>) -> Map<
    CacheKeyView,
    CachedView,
> {
    Map::new(
        |key: CacheKeyView| entry_keys(entries).contains(key),
        |key: CacheKeyView| entries[entry_keys(entries).index_of(key)].1@,
    )
}

proof fn entry_lookup(entries: Seq<(JwksKeyCacheKey, CachedJwksKey)>, i: int)
    requires
        entry_keys(entries).no_duplicates(),
        0 <= i < entries.len(),
    ensures
        entry_keys(entries)[i] == entries[i].0@,
        entry_map(entries).contains_key(entries[i].0@),
        entry_map(entries)[entries[i].0@] == entries[i].1@,
{
    let key = entries[i].0@;
    assert(entry_keys(entries)[i] == key);
    assert(entry_keys(entries).contains(key));
    let j = entry_keys(entries).index_of(key);
    assert(entry_keys(entries)[j] == key);
}

/// Filtering keeps the elements that the predicate holds of, each as often as
/// before.
pub proof fn filter_members<A>(s: Seq<A>, p: spec_fn(A) -> bool)
    ensures
        forall|x: A| #[trigger] s.filter(p).contains(x) <==> s.contains(x) && p(x),
        s.no_duplicates() ==> s.filter(p).no_duplicates(),
    decreases s.len(),
{
    reveal(Seq::filter);
    if s.len() > 0 {
        let t = s.drop_last();
        filter_members(t, p);
        assert(s =~= t.push(s.last()));
        assert forall|x: A| #[trigger] s.filter(p).contains(x) <==> s.contains(x) && p(x) by {
            let f = t.filter(p);
            if s.contains(x) && p(x) {
                let i = s.index_of(x);
                if i < t.len() {
                    assert(t[i] == x);
                    assert(f.contains(x));
                    let j = f.index_of(x);
                    assert(s.filter(p)[j] == x);
                } else {
                    assert(s.filter(p)[f.len() as int] == x);
                }
            }
            if s.filter(p).contains(x) {
                let j = s.filter(p).index_of(x);
                if j < f.len() {
                    assert(f[j] == x);
                    assert(f.contains(x));
                    assert(t.contains(x));
                    let i = t.index_of(x);
                    assert(s[i] == x);
                } else {
                    assert(s[s.len() - 1] == x);
                }
            }
        }
        if s.no_duplicates() {
            assert(t.no_duplicates());
            let f = t.filter(p);
            if p(s.last()) {
                assert(!t.contains(s.last()));
                assert(!f.contains(s.last()));
                assert(s.filter(p) =~= f.push(s.last()));
            }
        }
    }
}

proof fn filter_same<A>(s: Seq<A>, p: spec_fn(A) -> bool, q: spec_fn(A) -> bool)
    requires
        forall|x: A| #[trigger] s.contains(x) ==> p(x) == q(x),
    ensures
        s.filter(p) == s.filter(q),
    decreases s.len(),
{
    reveal(Seq::filter);
    if s.len() > 0 {
        let t = s.drop_last();
        assert forall|x: A| #[trigger] t.contains(x) implies p(x) == q(x) by {
            let i = t.index_of(x);
            assert(s[i] == x);
            assert(s.contains(x));
        }
        filter_same(t, p, q);
        assert(s.contains(s[s.len() - 1]));
    }
}

proof fn filter_twice<A>(
    s: Seq<A>,
    p: spec_fn(A) -> bool,
    q: spec_fn(A) -> bool,
    both: spec_fn(A) -> bool,
)
    requires
        forall|x: A| #[trigger] both(x) == (p(x) && q(x)),
    ensures
        s.filter(p).filter(q) == s.filter(both),
    decreases s.len(),
{
    reveal(Seq::filter);
    if s.len() > 0 {
        let t = s.drop_last();
        filter_twice(t, p, q, both);
        if p(s.last()) {
            assert(s.filter(p).drop_last() =~= t.filter(p));
        }
    }
}

proof fn filter_all<A>(s: Seq<A>, p: spec_fn(A) -> bool)
    requires
        forall|x: A| #[trigger] s.contains(x) ==> p(x),
    ensures
        s.filter(p) == s,
    decreases s.len(),
{
    reveal(Seq::filter);
    if s.len() > 0 {
        let t = s.drop_last();
        assert forall|x: A| #[trigger] t.contains(x) implies p(x) by {
            let i = t.index_of(x);
            assert(s[i] == x);
            assert(s.contains(x));
        }
        filter_all(t, p);
        assert(s.contains(s[s.len() - 1]));
        assert(s =~= t.push(s.last()));
    }
}

impl KeyStore {
    /// The entries have distinct keys, and the cache is consistent.
    spec fn wf(&self) -> bool {
        &&& entry_keys(self.entries@).no_duplicates()
        &&& self@.consistent()
    }

    /// An empty store.
    fn new(capacity: usize, ttl: u64) -> (r: Self)
        ensures
            r.wf(),
            r@.consistent(),
            r@.entries == Map::<CacheKeyView, CachedView>::empty(),
            r@.recency == Seq::<CacheKeyView>::empty(),
            r@.capacity == capacity,
            r@.ttl == ttl,
    {
        let r = KeyStore { entries: Vec::new(), recency: VecDeque::new(), capacity, ttl };
        proof {
            assert(entry_map(r.entries@) =~= Map::<CacheKeyView, CachedView>::empty());
            assert(key_views(r.recency@) =~= Seq::<CacheKeyView>::empty());
            assert(r@.consistent());
        }
        r
    }

    /// Where the entry for `key` stands.
    fn find(&self, key: &JwksKeyCacheKey) -> (r: Option<usize>)
        requires
            entry_keys(self.entries@).no_duplicates(),
        ensures
            r is Some <==> self@.entries.contains_key(key@),
            r matches Some(i) ==> i < self.entries.len() && self.entries@[i as int].0@ == key@
                && self@.entries[key@] == self.entries@[i as int].1@,
    {
        let mut i: usize = 0;
        while i < self.entries.len()
            invariant
                i <= self.entries.len(),
                entry_keys(self.entries@).no_duplicates(),
                forall|j: int| 0 <= j < i ==> #[trigger] entry_keys(self.entries@)[j] != key@,
            decreases self.entries.len() - i,
        {
            if self.entries[i].0.same(key) {
                proof {
                    entry_lookup(self.entries@, i as int);
                }
                return Some(i);
            }
            i = i + 1;
        }
        None
    }

    /// Takes `key` out of the order of use.
    fn remove_from_recency(&mut self, key: &JwksKeyCacheKey)
        ensures
            final(self).entries == old(self).entries,
            final(self)@ == (CacheView { recency: without(old(self)@.recency, key@), ..old(self)@ }),
    {
        let ghost p = other_than(key@);
        let mut kept: VecDeque<JwksKeyCacheKey> = VecDeque::new();
        let mut i: usize = 0;
        proof {
            reveal(Seq::filter);
            assert(key_views(self.recency@).take(0).filter(p) =~= key_views(kept@));
        }
        while i < self.recency.len()
            invariant
                i <= self.recency.len(),
                p == other_than(key@),
                key_views(kept@) == key_views(self.recency@).take(i as int).filter(p),
            decreases self.recency.len() - i,
        {
            proof {
                reveal(Seq::filter);
                let views = key_views(self.recency@);
                assert(views.take(i + 1).drop_last() =~= views.take(i as int));
                assert(views.take(i + 1).last() == self.recency@[i as int]@);
            }
            let ghost before = kept@;
            if !self.recency[i].same(key) {
                kept.push_back(self.recency[i].clone());
                proof {
                    assert(key_views(kept@) =~= key_views(before).push(self.recency@[i as int]@));
                }
            }
            i = i + 1;
        }
        proof {
            assert(key_views(self.recency@).take(i as int) =~= key_views(self.recency@));
        }
        self.recency = kept;
    }

    /// Makes `key` the one used last.
    fn mark_used(&mut self, key: &JwksKeyCacheKey)
        ensures
            final(self).entries == old(self).entries,
            final(self)@ == (CacheView {
                recency: without(old(self)@.recency, key@).push(key@),
                ..old(self)@
            }),
    {
        self.remove_from_recency(key);
        let ghost before = self.recency@;
        self.recency.push_back(key.clone());
        proof {
            assert(key_views(self.recency@) =~= key_views(before).push(key@));
        }
    }

    /// Takes out the entry for `key`.
    fn remove_entry(&mut self, key: &JwksKeyCacheKey)
        requires
            entry_keys(old(self).entries@).no_duplicates(),
        ensures
            entry_keys(final(self).entries@).no_duplicates(),
            final(self)@ == (CacheView { entries: old(self)@.entries.remove(key@), ..old(self)@ }),
    {
        let ghost before = self.entries@;
        match self.find(key) {
            Some(i) => {
                self.entries.remove(i);
                proof {
                    let after = self.entries@;
                    assert(entry_keys(after) =~= entry_keys(before).remove(i as int));
                    assert(entry_keys(after).no_duplicates());
                    assert forall|k: CacheKeyView| #[trigger]
                        entry_map(after).contains_key(k) <==> entry_map(before).remove(
                            key@,
                        ).contains_key(k) by {
                        if entry_keys(before).contains(k) && k != key@ {
                            let p = entry_keys(before).index_of(k);
                            let q = if p < i { p } else { p - 1 };
                            assert(entry_keys(after)[q] == k);
                        }
                        if entry_keys(after).contains(k) {
                            let q = entry_keys(after).index_of(k);
                            let p = if q < i { q } else { q + 1 };
                            assert(entry_keys(before)[p] == k);
                            assert(entry_keys(before)[i as int] == key@);
                        }
                    }
                    assert forall|k: CacheKeyView| #[trigger]
                        entry_map(after).contains_key(k) implies entry_map(after)[k] == entry_map(
                        before,
                    ).remove(key@)[k] by {
                        let q = entry_keys(after).index_of(k);
                        assert(entry_keys(after).contains(k));
                        assert(entry_keys(after)[q] == k);
                        entry_lookup(after, q);
                        entry_lookup(before, if q < i { q } else { q + 1 });
                    }
                    assert(entry_map(after) =~= entry_map(before).remove(key@));
                }
            },
            None => {
                proof {
                    assert(entry_map(before).remove(key@) =~= entry_map(before));
                }
            },
        }
    }

    /// Puts in an entry for `key`, in place of the one it had.
    fn put_entry(&mut self, key: JwksKeyCacheKey, cached: CachedJwksKey)
        requires
            entry_keys(old(self).entries@).no_duplicates(),
        ensures
            entry_keys(final(self).entries@).no_duplicates(),
            final(self)@ == (CacheView {
                entries: old(self)@.entries.insert(key@, cached@),
                ..old(self)@
            }),
    {
        let ghost start = *self;
        self.remove_entry(&key);
        let ghost before = self.entries@;
        self.entries.push((key, cached));
        proof {
            let after = self.entries@;
            assert(entry_keys(after) =~= entry_keys(before).push(key@));
            assert(!entry_map(before).contains_key(key@));
            assert(entry_keys(after).no_duplicates());
            assert forall|k: CacheKeyView| #[trigger]
                entry_map(after).contains_key(k) <==> entry_map(before).insert(
                    key@,
                    cached@,
                ).contains_key(k) by {
                if entry_keys(before).contains(k) {
                    let p = entry_keys(before).index_of(k);
                    assert(entry_keys(after)[p] == k);
                }
                assert(entry_keys(after)[before.len() as int] == key@);
                if entry_keys(after).contains(k) && k != key@ {
                    let p = entry_keys(after).index_of(k);
                    assert(entry_keys(before)[p] == k);
                }
            }
            assert forall|k: CacheKeyView| #[trigger]
                entry_map(after).contains_key(k) implies entry_map(after)[k] == entry_map(
                before,
            ).insert(key@, cached@)[k] by {
                let q = entry_keys(after).index_of(k);
                assert(entry_keys(after).contains(k));
                assert(entry_keys(after)[q] == k);
                entry_lookup(after, q);
                if q < before.len() {
                    entry_lookup(before, q);
                }
            }
            assert(entry_map(after) =~= start@.entries.insert(key@, cached@));
        }
    }

    /// The keys of the entries whose time has come.
    fn expired_keys(&self, now: u64) -> (r: Vec<JwksKeyCacheKey>)
        requires
            entry_keys(self.entries@).no_duplicates(),
        ensures
            forall|k: CacheKeyView| #[trigger]
                key_views(r@).contains(k) <==> self@.entries.contains_key(k) && !self@.live(
                    k,
                    now as int,
                ),
    {
        let mut r: Vec<JwksKeyCacheKey> = Vec::new();
        let mut i: usize = 0;
        while i < self.entries.len()
            invariant
                i <= self.entries.len(),
                entry_keys(self.entries@).no_duplicates(),
                forall|k: CacheKeyView| #[trigger]
                    key_views(r@).contains(k) <==> entry_keys(self.entries@).take(
                        i as int,
                    ).contains(k) && !self@.live(k, now as int),
            decreases self.entries.len() - i,
        {
            let ghost before = r@;
            proof {
                entry_lookup(self.entries@, i as int);
            }
            if self.entries[i].1.expires_at <= now as u128 {
                r.push(self.entries[i].0.clone());
            }
            proof {
                let keys = entry_keys(self.entries@);
                let key = keys[i as int];
                assert(keys.take(i + 1) =~= keys.take(i as int).push(key));
                if r@.len() > before.len() {
                    assert(key_views(r@) =~= key_views(before).push(key));
                }
                assert forall|k: CacheKeyView| #[trigger]
                    key_views(r@).contains(k) <==> keys.take(i + 1).contains(k) && !self@.live(
                        k,
                        now as int,
                    ) by {
                    let taken = keys.take(i as int);
                    if taken.push(key).contains(k) {
                        let p = taken.push(key).index_of(k);
                        if p < i {
                            assert(taken[p] == k);
                        }
                    }
                    if taken.contains(k) {
                        let p = taken.index_of(k);
                        assert(taken.push(key)[p] == k);
                    }
                    assert(taken.push(key)[i as int] == key);
                    if r@.len() > before.len() {
                        let old_views = key_views(before);
                        if old_views.contains(k) {
                            let p = old_views.index_of(k);
                            assert(old_views.push(key)[p] == k);
                        }
                        if old_views.push(key).contains(k) {
                            let p = old_views.push(key).index_of(k);
                            if p < old_views.len() {
                                assert(old_views[p] == k);
                            }
                        }
                        assert(old_views.push(key)[old_views.len() as int] == key);
                    }
                }
            }
            i = i + 1;
        }
        proof {
            assert(entry_keys(self.entries@).take(i as int) =~= entry_keys(self.entries@));
        }
        r
    }

    /// Takes out the entries whose time has come.
    fn evict_expired(&mut self, now: u64)
        requires
            entry_keys(old(self).entries@).no_duplicates(),
            forall|k: CacheKeyView| #[trigger]
                old(self)@.recency.contains(k) ==> old(self)@.entries.contains_key(k),
        ensures
            entry_keys(final(self).entries@).no_duplicates(),
            final(self)@ == old(self)@.without_expired(now as int),
    {
        let ghost start = self@;
        let expired = self.expired_keys(now);
        let ghost gone = key_views(expired@);
        let mut i: usize = 0;
        proof {
            let p = |k: CacheKeyView| !gone.take(0).contains(k);
            assert(start.entries.remove_keys(gone.take(0).to_set()) =~= start.entries);
            filter_all(start.recency, p);
        }
        while i < expired.len()
            invariant
                i <= expired.len(),
                gone == key_views(expired@),
                entry_keys(self.entries@).no_duplicates(),
                self@.entries == start.entries.remove_keys(gone.take(i as int).to_set()),
                self@.recency == start.recency.filter(
                    |k: CacheKeyView| !gone.take(i as int).contains(k),
                ),
                self@.capacity == start.capacity,
                self@.ttl == start.ttl,
            decreases expired.len() - i,
        {
            self.remove_entry(&expired[i]);
            self.remove_from_recency(&expired[i]);
            proof {
                let key = gone[i as int];
                let before = gone.take(i as int);
                let after = gone.take(i + 1);
                assert(key == expired@[i as int]@);
                assert(after =~= before.push(key));
                assert forall|k: CacheKeyView| #[trigger]
                    after.contains(k) <==> before.contains(k) || k == key by {
                    if before.contains(k) {
                        let p = before.index_of(k);
                        assert(after[p] == k);
                    }
                    assert(after[i as int] == key);
                    if after.contains(k) && k != key {
                        let p = after.index_of(k);
                        assert(before[p] == k);
                    }
                }
                assert(start.entries.remove_keys(before.to_set()).remove(key)
                    =~= start.entries.remove_keys(after.to_set()));
                let p = |k: CacheKeyView| !before.contains(k);
                let q = other_than(key);
                let both = |k: CacheKeyView| !after.contains(k);
                filter_twice(start.recency, p, q, both);
            }
            i = i + 1;
        }
        proof {
            assert(gone.take(i as int) =~= gone);
            let p = |k: CacheKeyView| !gone.take(i as int).contains(k);
            let q = start.living(now as int);
            filter_same(start.recency, p, q);
            assert(self@.entries =~= start.without_expired(now as int).entries);
        }
    }

    /// Takes out the entries used longest ago that go beyond the capacity.
    fn evict_lru(&mut self)
        requires
            entry_keys(old(self).entries@).no_duplicates(),
            old(self)@.recency.no_duplicates(),
            forall|k: CacheKeyView| #[trigger]
                old(self)@.recency.contains(k) <==> old(self)@.entries.contains_key(k),
        ensures
            entry_keys(final(self).entries@).no_duplicates(),
            final(self)@ == old(self)@.without_surplus(),
    {
        let ghost start = self@;
        let ghost mut dropped: int = 0;
        proof {
            assert(start.recency.skip(0) =~= start.recency);
            assert(start.entries.restrict(start.recency.to_set()) =~= start.entries);
            self.same_length();
        }
        while self.entries.len() > self.capacity
            invariant
                0 <= dropped <= start.recency.len(),
                entry_keys(self.entries@).no_duplicates(),
                start.recency.no_duplicates(),
                forall|k: CacheKeyView| #[trigger]
                    start.recency.contains(k) <==> start.entries.contains_key(k),
                self@.recency == start.recency.skip(dropped),
                self@.entries == start.entries.restrict(
                    start.recency.skip(dropped).to_set(),
                ),
                self@.capacity == start.capacity,
                self@.ttl == start.ttl,
                self.entries.len() == self.recency.len(),
                dropped == 0 || start.recency.len() - dropped >= start.capacity,
            decreases self.entries.len(),
        {
            let key = match self.recency.pop_front() {
                Some(key) => key,
                None => {
                    return;
                },
            };
            let ghost kept = start.recency.skip(dropped);
            proof {
                assert(key_views(self.recency@) =~= kept.drop_first());
                assert(kept.drop_first() =~= start.recency.skip(dropped + 1));
                assert(key@ == kept[0]);
            }
            self.remove_entry(&key);
            proof {
                let rest = start.recency.skip(dropped + 1);
                assert forall|k: CacheKeyView| #[trigger]
                    rest.to_set().contains(k) <==> kept.to_set().contains(k) && k != key@ by {
                    if rest.contains(k) {
                        let p = rest.index_of(k);
                        assert(kept[p + 1] == k);
                        assert(start.recency[dropped + p + 1] == k);
                        assert(start.recency[dropped] == key@);
                    }
                    if kept.contains(k) && k != key@ {
                        let p = kept.index_of(k);
                        assert(rest[p - 1] == k);
                    }
                }
                assert(start.entries.restrict(kept.to_set()).remove(key@)
                    =~= start.entries.restrict(rest.to_set()));
                dropped = dropped + 1;
                assert(self@.recency == rest);
                assert forall|k: CacheKeyView| #[trigger]
                    self@.recency.contains(k) <==> self@.entries.contains_key(k) by {
                    if rest.contains(k) {
                        let p = rest.index_of(k);
                        assert(start.recency[dropped + p] == k);
                        assert(start.recency.contains(k));
                    }
                }
                assert(self@.recency.no_duplicates());
                self.same_length();
            }
        }
    }

    /// As many entries as keys in the order of use.
    proof fn same_length(&self)
        requires
            entry_keys(self.entries@).no_duplicates(),
            self@.recency.no_duplicates(),
            forall|k: CacheKeyView| #[trigger]
                self@.recency.contains(k) <==> self@.entries.contains_key(k),
        ensures
            self.entries.len() == self.recency.len(),
    {
        let keys = entry_keys(self.entries@);
        keys.unique_seq_to_set();
        self@.recency.unique_seq_to_set();
        assert forall|k: CacheKeyView| #[trigger]
            keys.to_set().contains(k) <==> self@.recency.to_set().contains(k) by {
            assert(self@.entries.contains_key(k) <==> keys.contains(k));
            assert(self@.recency.contains(k) <==> self@.entries.contains_key(k));
        }
        assert(keys.to_set() =~= self@.recency.to_set());
    }

    /// Looks a key up at the instant `now`.
    fn get(&mut self, key: &JwksKeyCacheKey, now: u64) -> (r: Option<Jwk>)
        requires
            old(self).wf(),
        ensures
            final(self).wf(),
            match r {
                Some(jwk) => old(self)@.found(key@, now as int) == Some(jwk@),
                None => old(self)@.found(key@, now as int) is None,
            },
            final(self)@ == old(self)@.after_get(key@, now as int),
    {
        let ghost start = self@;
        let (jwk, is_expired) = match self.find(key) {
            Some(i) => (self.entries[i].1.jwk.clone(), self.entries[i].1.expires_at <= now as u128),
            None => {
                return None;
            },
        };
        proof {
            start.kept_consistent(key@, now as int);
        }
        if is_expired {
            self.remove_entry(key);
            self.remove_from_recency(key);
            return None;
        }
        self.mark_used(key);
        Some(jwk)
    }

    /// Puts a key in at the instant `now`.
    fn insert(&mut self, key: JwksKeyCacheKey, jwk: Jwk, now: u64)
        requires
            old(self).wf(),
        ensures
            final(self).wf(),
            final(self)@ == old(self)@.after_insert(key@, jwk@, now as int),
    {
        if self.capacity == 0 {
            return;
        }
        let ghost start = self@;
        proof {
            start.insert_consistent(key@, jwk@, now as int);
        }
        let expires_at: u128 = now as u128 + self.ttl as u128;
        self.put_entry(key.clone(), CachedJwksKey { jwk, expires_at });
        self.mark_used(&key);
        proof {
            assert(self@ == start.with_entry(key@, jwk@, now as int));
            start.with_entry_listed(key@, jwk@, now as int);
            self@.without_expired_listed(now as int);
        }
        self.evict_expired(now);
        self.evict_lru();
    }
}

/// A bounded cache of published keys. Instants and the time to live are counted
/// in one unit, from any origin.
#[derive(Debug)]
pub struct JwksKeyCache {
    store: KeyStore,
}

impl View for JwksKeyCache {
    type V = CacheView;

    closed spec fn view(&self) -> CacheView {
        self.store@
    }
}

impl JwksKeyCache {
    #[verifier::type_invariant]
    spec fn in_step(&self) -> bool {
        self.store.wf()
    }

    /// An empty cache.
    pub fn new(capacity: usize, ttl: u64) -> (r: Self)
        ensures
            r@.consistent(),
            r@.entries == Map::<CacheKeyView, CachedView>::empty(),
            r@.recency == Seq::<CacheKeyView>::empty(),
            r@.capacity == capacity,
            r@.ttl == ttl,
    {
        JwksKeyCache { store: KeyStore::new(capacity, ttl) }
    }

    /// Are there no entries?
    pub fn is_empty(&self) -> (r: bool)
        ensures
            r <==> self@.entries == Map::<CacheKeyView, CachedView>::empty(),
            self@.consistent(),
    {
        proof {
            use_type_invariant(self);
            let keys = entry_keys(self.store.entries@);
            if self.store.entries.len() == 0 {
                assert(self@.entries =~= Map::<CacheKeyView, CachedView>::empty());
            } else {
                assert(keys.contains(keys[0]));
                assert(self@.entries.contains_key(keys[0]));
            }
        }
        self.store.entries.len() == 0
    }

    /// The keys in the order in which they were last used.
    pub fn recency(&self) -> (r: &VecDeque<JwksKeyCacheKey>)
        ensures
            key_views(r@) == self@.recency,
            self@.consistent(),
    {
        proof {
            use_type_invariant(self);
        }
        &self.store.recency
    }

    /// Takes the store out, leaving an empty one.
    fn take(&mut self) -> (r: KeyStore)
        ensures
            r == old(self).store,
            r.wf(),
    {
        proof {
            use_type_invariant(&*self);
        }
        let mut store = KeyStore::new(0, 0);
        std::mem::swap(&mut store, &mut self.store);
        store
    }

    /// Looks a key up at the instant `now`.
    pub fn get(&mut self, key: &JwksKeyCacheKey, now: u64) -> (r: Option<Jwk>)
        ensures
            old(self)@.consistent(),
            final(self)@.consistent(),
            match r {
                Some(jwk) => old(self)@.found(key@, now as int) == Some(jwk@),
                None => old(self)@.found(key@, now as int) is None,
            },
            final(self)@ == old(self)@.after_get(key@, now as int),
    {
        let mut store = self.take();
        let r = store.get(key, now);
        self.store = store;
        r
    }

    /// Puts a key in at the instant `now`.
    pub fn insert(&mut self, key: JwksKeyCacheKey, jwk: Jwk, now: u64)
        ensures
            old(self)@.consistent(),
            final(self)@.consistent(),
            final(self)@ == old(self)@.after_insert(key@, jwk@, now as int),
    {
        let mut store = self.take();
        store.insert(key, jwk, now);
        self.store = store;
    }
}

impl CacheView {
    /// A lookup keeps the cache consistent.
    pub proof fn kept_consistent(self, key: CacheKeyView, now: int)
        requires
            self.consistent(),
        ensures
            self.after_get(key, now).consistent(),
    {
        let others = other_than(key);
        filter_members(self.recency, others);
        self.without_shorter(key);
        push_members(without(self.recency, key), key);
    }

    proof fn without_shorter(self, key: CacheKeyView)
        requires
            self.consistent(),
        ensures
            without(self.recency, key).len() <= self.recency.len(),
            self.entries.contains_key(key) ==> without(self.recency, key).len() < self.recency.len(),
    {
        let others = other_than(key);
        filter_members(self.recency, others);
        self.recency.lemma_filter_len(others);
        let rest = without(self.recency, key);
        rest.unique_seq_to_set();
        self.recency.unique_seq_to_set();
        if self.entries.contains_key(key) {
            assert(self.recency.contains(key));
            assert(self.recency.to_set().contains(key));
            assert(rest.to_set() =~= self.recency.to_set().remove(key));
        }
    }

    /// Every entry has its place in the order of use, once.
    spec fn listed(self) -> bool {
        &&& self.recency.no_duplicates()
        &&& forall|key: CacheKeyView|
            #![trigger self.entries.contains_key(key)]
            #![trigger self.recency.contains(key)]
            self.entries.contains_key(key) <==> self.recency.contains(key)
    }

    proof fn with_entry_listed(self, key: CacheKeyView, jwk: JwkView, now: int)
        requires
            self.consistent(),
        ensures
            self.with_entry(key, jwk, now).listed(),
    {
        filter_members(self.recency, other_than(key));
        push_members(without(self.recency, key), key);
    }

    proof fn without_expired_listed(self, now: int)
        requires
            self.listed(),
        ensures
            self.without_expired(now).listed(),
    {
        filter_members(self.recency, self.living(now));
    }

    proof fn without_surplus_listed(self)
        requires
            self.listed(),
        ensures
            self.without_surplus().listed(),
            self.without_surplus().recency.len() <= self.capacity,
    {
        let n = self.recency.len() - self.capacity;
        if n > 0 {
            let kept = self.recency.skip(n);
            assert forall|key: CacheKeyView| #[trigger] kept.contains(key) implies
                self.recency.contains(key) by {
                let i = kept.index_of(key);
                assert(self.recency[n + i] == key);
            }
        }
    }

    /// Putting a key in keeps the cache consistent.
    pub proof fn insert_consistent(self, key: CacheKeyView, jwk: JwkView, now: int)
        requires
            self.consistent(),
        ensures
            self.after_insert(key, jwk, now).consistent(),
    {
        self.with_entry_listed(key, jwk, now);
        let one = self.with_entry(key, jwk, now);
        one.without_expired_listed(now);
        one.without_expired(now).without_surplus_listed();
    }
}

/// Pushing an element adds it and nothing else.
pub proof fn push_members<A>(s: Seq<A>, a: A)
    ensures
        forall|x: A| #[trigger] s.push(a).contains(x) <==> s.contains(x) || x == a,
        s.no_duplicates() && !s.contains(a) ==> s.push(a).no_duplicates(),
{
    assert forall|x: A| #[trigger] s.push(a).contains(x) <==> s.contains(x) || x == a by {
        assert(s.push(a)[s.len() as int] == a);
        if s.contains(x) {
            let i = s.index_of(x);
            assert(s.push(a)[i] == x);
        }
        if s.push(a).contains(x) {
            let i = s.push(a).index_of(x);
            if i < s.len() {
                assert(s[i] == x);
            }
        }
    }
}

impl CacheView {
    /// What stands in the cache after a key has been put in: the key, and of
    /// the other entries no more than there were.
    proof fn inserted(self, key: CacheKeyView, jwk: JwkView, now: int)
        requires
            self.consistent(),
            self.capacity > 0,
        ensures
            self.ttl > 0 ==> self.after_insert(key, jwk, now).entries.contains_key(key),
            forall|k: CacheKeyView| #[trigger]
                self.after_insert(key, jwk, now).entries.contains_key(k) ==> self.with_entry(
                    key,
                    jwk,
                    now,
                ).live(k, now) && self.after_insert(key, jwk, now).entries[k] == self.with_entry(
                    key,
                    jwk,
                    now,
                ).entries[k],
    {
        let one = self.with_entry(key, jwk, now);
        let two = one.without_expired(now);
        let p = one.living(now);
        reveal(Seq::filter);
        assert(one.recency.drop_last() =~= without(self.recency, key));
        if self.ttl > 0 {
            assert(one.live(key, now));
            assert(two.recency == without(self.recency, key).filter(p).push(key));
            let n = two.recency.len() - self.capacity;
            if n > 0 {
                let kept = two.recency.skip(n);
                assert(kept.last() == key);
                assert(kept.contains(key));
            }
        }
    }

    /// A key that was put in is found until its time has come.
    pub proof fn found_until_expiry(self, key: CacheKeyView, jwk: JwkView, now: int, later: int)
        requires
            self.consistent(),
            self.capacity > 0,
            now <= later < now + self.ttl,
        ensures
            self.after_insert(key, jwk, now).found(key, later) == Some(jwk),
    {
        self.inserted(key, jwk, now);
    }

    /// A key that was put in is not found when its time has come, and the
    /// lookup leaves nothing of it behind.
    pub proof fn not_found_after_expiry(self, key: CacheKeyView, jwk: JwkView, now: int, later: int)
        requires
            self.consistent(),
            now + self.ttl <= later,
        ensures
            self.after_insert(key, jwk, now).found(key, later) is None,
            !self.after_insert(key, jwk, now).after_get(key, later).entries.contains_key(key),
            !self.after_insert(key, jwk, now).after_get(key, later).recency.contains(key),
    {
        let after = self.after_insert(key, jwk, now);
        self.insert_consistent(key, jwk, now);
        after.kept_consistent(key, later);
        if self.capacity > 0 {
            self.inserted(key, jwk, now);
        } else {
            self.empty_without_capacity();
        }
    }

    /// Once a key has been put in, no entry is left whose time has come.
    pub proof fn insert_drops_expired(
        self,
        key: CacheKeyView,
        jwk: JwkView,
        now: int,
        other: CacheKeyView,
    )
        requires
            self.consistent(),
            self.after_insert(key, jwk, now).entries.contains_key(other),
        ensures
            self.after_insert(key, jwk, now).live(other, now),
    {
        if self.capacity > 0 {
            self.inserted(key, jwk, now);
        } else {
            self.empty_without_capacity();
        }
    }

    /// A cache without capacity holds nothing.
    pub proof fn empty_without_capacity(self)
        requires
            self.consistent(),
            self.capacity == 0,
        ensures
            self.entries == Map::<CacheKeyView, CachedView>::empty(),
    {
        assert forall|key: CacheKeyView| !#[trigger] self.entries.contains_key(key) by {
            assert(self.entries.contains_key(key) <==> self.recency.contains(key));
        }
        assert(self.entries =~= Map::<CacheKeyView, CachedView>::empty());
    }

    /// There are never more entries than the capacity allows.
    pub proof fn within_capacity(self)
        requires
            self.consistent(),
        ensures
            self.entries.dom().finite(),
            self.entries.dom().len() <= self.capacity,
    {
        self.recency.unique_seq_to_set();
        assert(self.entries.dom() =~= self.recency.to_set()) by {
            assert forall|key: CacheKeyView| #[trigger]
                self.entries.dom().contains(key) <==> self.recency.to_set().contains(key) by {
                assert(self.entries.contains_key(key) <==> self.recency.contains(key));
            }
        }
    }

    /// A lookup changes nothing of what later lookups find.
    pub proof fn get_changes_no_answer(
        self,
        key: CacheKeyView,
        now: int,
        other: CacheKeyView,
        later: int,
    )
        requires
            now <= later,
        ensures
            self.after_get(key, now).found(other, later) == self.found(other, later),
    {
    }

    /// Putting a key in changes nothing of what is found for another key, but
    /// that the other may be gone.
    pub proof fn insert_invents_nothing(
        self,
        key: CacheKeyView,
        jwk: JwkView,
        now: int,
        other: CacheKeyView,
        later: int,
    )
        requires
            self.consistent(),
            other != key,
        ensures
            self.after_insert(key, jwk, now).found(other, later) is Some
                ==> self.after_insert(key, jwk, now).found(other, later) == self.found(other, later),
    {
        if self.capacity > 0 {
            self.inserted(key, jwk, now);
        }
    }

    /// The keys, in the order of their use, when `key` has been put in as the
    /// one used last and what has expired has been dropped.
    pub open spec fn left(self, key: CacheKeyView, jwk: JwkView, now: int) -> Seq<CacheKeyView> {
        without(self.recency, key).push(key).filter(self.with_entry(key, jwk, now).living(now))
    }

    /// Putting a key in leaves a cache without capacity as it is. In any other
    /// cache the keys used last stay, as many as the capacity allows: the new
    /// one with its time to live, the others with what they had.
    pub proof fn insert_keeps_latest(self, key: CacheKeyView, jwk: JwkView, now: int)
        requires
            self.consistent(),
        ensures
            self.capacity == 0 ==> self.after_insert(key, jwk, now) == self,
            self.capacity > 0 ==> self.after_insert(key, jwk, now).recency == self.left(
                key,
                jwk,
                now,
            ).skip(
                if self.left(key, jwk, now).len() > self.capacity {
                    self.left(key, jwk, now).len() - self.capacity
                } else {
                    0
                },
            ),
            self.after_insert(key, jwk, now).consistent(),
            self.after_insert(key, jwk, now).entries.dom() == self.after_insert(
                key,
                jwk,
                now,
            ).recency.to_set(),
            self.after_insert(key, jwk, now).entries.dom().len() <= self.capacity,
            forall|k: CacheKeyView| #[trigger]
                self.after_insert(key, jwk, now).entries.contains_key(k) ==> self.after_insert(
                    key,
                    jwk,
                    now,
                ).entries[k] == (if k == key {
                    CachedView { jwk, expires_at: now + self.ttl }
                } else {
                    self.entries[k]
                }),
            self.after_insert(key, jwk, now).capacity == self.capacity,
            self.after_insert(key, jwk, now).ttl == self.ttl,
    {
        let after = self.after_insert(key, jwk, now);
        self.insert_consistent(key, jwk, now);
        after.within_capacity();
        assert forall|k: CacheKeyView| #[trigger]
            after.entries.dom().contains(k) <==> after.recency.to_set().contains(k) by {
            assert(after.entries.contains_key(k) <==> after.recency.contains(k));
        }
        assert(after.entries.dom() =~= after.recency.to_set());
        if self.capacity == 0 {
            self.empty_without_capacity();
        } else {
            self.inserted(key, jwk, now);
            let left = self.left(key, jwk, now);
            assert(left.skip(0) =~= left);
        }
    }

    /// `a` was last used before `b` was.
    pub open spec fn used_before(self, a: CacheKeyView, b: CacheKeyView) -> bool {
        exists|i: int, j: int|
            0 <= i < j < self.recency.len() && #[trigger] self.recency[i] == a
                && #[trigger] self.recency[j] == b
    }

    /// The entries that make room for a new key are those used longest ago:
    /// no live entry goes while one that was used before it stays.
    pub proof fn oldest_goes_first(
        self,
        key: CacheKeyView,
        jwk: JwkView,
        now: int,
        a: CacheKeyView,
        b: CacheKeyView,
    )
        requires
            self.consistent(),
            self.used_before(a, b),
            a != key,
            b != key,
            self.live(b, now),
            self.after_insert(key, jwk, now).entries.contains_key(a),
        ensures
            self.after_insert(key, jwk, now).entries.contains_key(b),
    {
        if self.capacity == 0 {
            self.empty_without_capacity();
        } else {
            let one = self.with_entry(key, jwk, now);
            let two = one.without_expired(now);
            let p = one.living(now);
            self.inserted(key, jwk, now);
            assert(one.live(a, now) && one.live(b, now));
            let rest = without(self.recency, key);
            filter_order(self.recency, other_than(key), a, b);
            let (i, j) = choose|i: int, j: int|
                0 <= i < j < rest.len() && #[trigger] rest[i] == a && #[trigger] rest[j] == b;
            assert(one.recency[i] == a && one.recency[j] == b);
            filter_order(one.recency, p, a, b);
            self.with_entry_listed(key, jwk, now);
            one.without_expired_listed(now);
            let n = two.recency.len() - self.capacity;
            if n > 0 {
                let kept = two.recency.skip(n);
                let (x, y) = choose|x: int, y: int|
                    0 <= x < y < two.recency.len() && #[trigger] two.recency[x] == a
                        && #[trigger] two.recency[y] == b;
                assert(kept.contains(a));
                let q = kept.index_of(a);
                assert(two.recency[n + q] == a);
                assert(kept[y - n] == b);
            }
        }
    }

    /// While there is room, a live entry stays when another key is put in.
    pub proof fn stays_while_room(
        self,
        key: CacheKeyView,
        jwk: JwkView,
        now: int,
        other: CacheKeyView,
        later: int,
    )
        requires
            self.consistent(),
            other != key,
            now <= later,
            self.recency.len() < self.capacity || self.entries.contains_key(key),
        ensures
            self.after_insert(key, jwk, now).found(other, later) == self.found(other, later),
    {
        let one = self.with_entry(key, jwk, now);
        self.without_shorter(key);
        one.recency.lemma_filter_len(one.living(now));
    }
}

/// Filtering keeps the order of the elements that it keeps.
pub proof fn filter_order<A>(s: Seq<A>, p: spec_fn(A) -> bool, a: A, b: A)
    requires
        exists|i: int, j: int|
            0 <= i < j < s.len() && #[trigger] s[i] == a && #[trigger] s[j] == b,
        p(a),
        p(b),
    ensures
        exists|i: int, j: int|
            0 <= i < j < s.filter(p).len() && #[trigger] s.filter(p)[i] == a
                && #[trigger] s.filter(p)[j] == b,
    decreases s.len(),
{
    reveal(Seq::filter);
    let (i, j) = choose|i: int, j: int|
        0 <= i < j < s.len() && #[trigger] s[i] == a && #[trigger] s[j] == b;
    let t = s.drop_last();
    let f = t.filter(p);
    if j < t.len() {
        assert(t[i] == a && t[j] == b);
        filter_order(t, p, a, b);
        let (x, y) = choose|x: int, y: int|
            0 <= x < y < f.len() && #[trigger] f[x] == a && #[trigger] f[y] == b;
        assert(s.filter(p)[x] == a && s.filter(p)[y] == b);
    } else {
        filter_members(t, p);
        assert(t[i] == a);
        assert(t.contains(a));
        assert(f.contains(a));
        let x = f.index_of(a);
        assert(s.filter(p)[x] == a && s.filter(p)[f.len() as int] == b);
    }
}

/// Two tokens share a place in the cache only if their keys stand in the same
/// document, and they refer to the key by the same id, or both have no id and
/// the same algorithm.
pub proof fn cache_key_tells_apart(
    uri_a: Seq<char>,
    kid_a: Option<Seq<char>>,
    algorithm_a: JwtAlgorithm,
    uri_b: Seq<char>,
    kid_b: Option<Seq<char>>,
    algorithm_b: JwtAlgorithm,
)
    ensures
        cache_key_of(uri_a, kid_a, algorithm_a) == cache_key_of(uri_b, kid_b, algorithm_b) <==> (
        uri_a == uri_b && kid_a == kid_b && (kid_a is None ==> algorithm_a == algorithm_b)),
{
    let a = selector_of(kid_a, algorithm_a);
    let b = selector_of(kid_b, algorithm_b);
    reveal_strlit("kid:");
    reveal_strlit("algorithm:");
    if a == b {
        assert(a[0] == b[0]);
        match (kid_a, kid_b) {
            (Some(x), Some(y)) => {
                assert(x =~= a.skip(4));
                assert(y =~= b.skip(4));
            },
            (None, None) => {
                assert(algorithm_a.spec_name() =~= a.skip(10));
                assert(algorithm_b.spec_name() =~= b.skip(10));
                name_tells_algorithm(algorithm_a);
                name_tells_algorithm(algorithm_b);
            },
            (Some(x), None) => {
                assert(a[0] == 'k' && b[0] == 'a');
            },
            (None, Some(y)) => {
                assert(a[0] == 'a' && b[0] == 'k');
            },
        }
    }
}

} // verus!
