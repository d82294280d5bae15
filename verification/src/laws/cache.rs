//! What holds of the cache of published keys.

use crate::cache::{
    cache_key_of, cache_key_tells_apart, filter_members, filter_order, key_views, other_than,
    push_members, without, CacheKeyView, CacheView, CachedView, JwksKeyCache, JwksKeyCacheKey,
};
use crate::config::JwtAlgorithm;
use crate::jwk::Jwk;
use std::collections::VecDeque;
use vstd::prelude::*;

verus! {

/// A consistent cache lists each of its keys once, and no more of them than its
/// capacity allows.
pub proof fn consistent_means(cache: CacheView)
    ensures
        cache.consistent() <==> cache.recency.no_duplicates() && cache.recency.to_set()
            == cache.entries.dom() && cache.recency.len() <= cache.capacity,
{
    if cache.consistent() {
        assert forall|key: CacheKeyView| #[trigger]
            cache.recency.to_set().contains(key) <==> cache.entries.dom().contains(key) by {
            assert(cache.entries.contains_key(key) <==> cache.recency.contains(key));
        }
        assert(cache.recency.to_set() =~= cache.entries.dom());
    }
    if cache.recency.no_duplicates() && cache.recency.to_set() == cache.entries.dom()
        && cache.recency.len() <= cache.capacity {
        assert forall|key: CacheKeyView|
            #![trigger cache.entries.contains_key(key)]
            #![trigger cache.recency.contains(key)]
            cache.entries.contains_key(key) <==> cache.recency.contains(key) by {
            assert(cache.recency.to_set().contains(key) <==> cache.recency.contains(key));
            assert(cache.entries.dom().contains(key) <==> cache.entries.contains_key(key));
        }
    }
}

/// A new cache holds nothing.
pub proof fn new_cache_is_empty(
    capacity: usize,
    ttl: u64,
    cache: JwksKeyCache,
    empty: bool,
    recency: &VecDeque<JwksKeyCacheKey>,
    any: JwksKeyCache,
    any_empty: bool,
    any_recency: &VecDeque<JwksKeyCacheKey>,
)
    requires
        call_ensures(JwksKeyCache::new, (capacity, ttl), cache),
        call_ensures(JwksKeyCache::is_empty, (&cache,), empty),
        call_ensures(JwksKeyCache::recency, (&cache,), recency),
        call_ensures(JwksKeyCache::is_empty, (&any,), any_empty),
        call_ensures(JwksKeyCache::recency, (&any,), any_recency),
    ensures
        empty,
        recency@.len() == 0,
        cache@.capacity == capacity,
        cache@.ttl == ttl,
        any_empty <==> any_recency@.len() == 0,
        any_recency@.len() == any@.recency.len(),
        forall|i: int| 0 <= i < any@.recency.len() ==> (#[trigger] any_recency@[i])@
            == any@.recency[i],
{
    assert(key_views(recency@).len() == recency@.len());
    assert(key_views(any_recency@).len() == any_recency@.len());
    assert forall|i: int| 0 <= i < any@.recency.len() implies (#[trigger] any_recency@[i])@
        == any@.recency[i] by {
        assert(key_views(any_recency@)[i] == any_recency@[i]@);
    }
    if any_recency@.len() == 0 {
        assert forall|key: CacheKeyView| !#[trigger] any@.entries.contains_key(key) by {
            assert(any@.entries.contains_key(key) <==> any@.recency.contains(key));
        }
        assert(any@.entries =~= Map::<CacheKeyView, CachedView>::empty());
    } else {
        assert(any@.recency.contains(any@.recency[0]));
        assert(any@.entries.contains_key(any@.recency[0]));
    }
}

/// Two tokens share a place in the cache if and only if their keys stand in the
/// same document, and they have the same key id, or none and the same algorithm.
pub proof fn places_in_the_cache(
    uri_a: &str,
    kid_a: Option<String>,
    algorithm_a: JwtAlgorithm,
    a: JwksKeyCacheKey,
    uri_b: &str,
    kid_b: Option<String>,
    algorithm_b: JwtAlgorithm,
    b: JwksKeyCacheKey,
    copy: JwksKeyCacheKey,
)
    requires
        call_ensures(JwksKeyCacheKey::new, (uri_a, &kid_a, algorithm_a), a),
        call_ensures(JwksKeyCacheKey::new, (uri_b, &kid_b, algorithm_b), b),
        call_ensures(JwksKeyCacheKey::clone, (&a,), copy),
    ensures
        a@ == b@ <==> uri_a@ == uri_b@ && match (kid_a, kid_b) {
            (Some(x), Some(y)) => x@ == y@,
            (None, None) => algorithm_a == algorithm_b,
            _ => false,
        },
        copy@ == a@,
{
    cache_key_tells_apart(
        uri_a@,
        kid_a.deep_view(),
        algorithm_a,
        uri_b@,
        kid_b.deep_view(),
        algorithm_b,
    );
}

/// Where a key is found in the cache is told by its document, and by its id or,
/// without one, by the algorithm.
pub proof fn place_tells_document(uri: Seq<char>, kid: Option<Seq<char>>, algorithm: JwtAlgorithm)
    ensures
        cache_key_of(uri, kid, algorithm).jwks_uri == uri,
{
}

/// The place of an element in a filtered list that has each element once.
proof fn filtered_order<A>(s: Seq<A>, p: spec_fn(A) -> bool, a: A, b: A)
    requires
        s.no_duplicates(),
        s.contains(a),
        s.contains(b),
        p(a),
        p(b),
    ensures
        s.filter(p).contains(a),
        s.filter(p).contains(b),
        s.filter(p).index_of(a) < s.filter(p).index_of(b) <==> s.index_of(a) < s.index_of(b),
{
    filter_members(s, p);
    let f = s.filter(p);
    assert(f.contains(a) && f.contains(b));
    let i = s.index_of(a);
    let j = s.index_of(b);
    let x = f.index_of(a);
    let y = f.index_of(b);
    assert(s[i] == a && s[j] == b && f[x] == a && f[y] == b);
    if i < j {
        filter_order(s, p, a, b);
        let (u, v) = choose|u: int, v: int|
            0 <= u < v < f.len() && #[trigger] f[u] == a && #[trigger] f[v] == b;
        assert(u == x && v == y);
    }
    if j < i {
        filter_order(s, p, b, a);
        let (u, v) = choose|u: int, v: int|
            0 <= u < v < f.len() && #[trigger] f[u] == b && #[trigger] f[v] == a;
        assert(u == y && v == x);
    }
}

proof fn place_of<A>(s: Seq<A>, i: int)
    requires
        s.no_duplicates(),
        0 <= i < s.len(),
    ensures
        s.contains(s[i]),
        s.index_of(s[i]) == i,
{
    let k = s.index_of(s[i]);
    assert(s.contains(s[i]));
    assert(s[k] == s[i]);
}

/// The order among the keys other than `key` when `key` is moved to the end.
proof fn moved_to_end(s: Seq<CacheKeyView>, key: CacheKeyView, a: CacheKeyView, b: CacheKeyView)
    requires
        s.no_duplicates(),
    ensures
        without(s, key).push(key).no_duplicates(),
        without(s, key).no_duplicates(),
        !without(s, key).contains(key),
        without(s, key).push(key).last() == key,
        s.contains(a) && a != key <==> without(s, key).contains(a),
        without(s, key).push(key).contains(a) <==> s.contains(a) || a == key,
        s.contains(a) && s.contains(b) && a != key && b != key ==> {
            &&& without(s, key).index_of(a) < without(s, key).index_of(b) <==> s.index_of(a)
                < s.index_of(b)
            &&& without(s, key).push(key).index_of(a) < without(s, key).push(key).index_of(b)
                <==> s.index_of(a) < s.index_of(b)
        },
{
    let p = other_than(key);
    let f = without(s, key);
    let g = f.push(key);
    filter_members(s, p);
    push_members(f, key);
    assert(f.contains(a) <==> s.contains(a) && p(a));
    if s.contains(a) && s.contains(b) && a != key && b != key {
        filtered_order(s, p, a, b);
        let x = f.index_of(a);
        let y = f.index_of(b);
        assert(f[x] == a && f[y] == b);
        assert(g[x] == a && g[y] == b);
        place_of(g, x);
        place_of(g, y);
    }
}

/// A lookup finds a key if and only if the cache has it and its time has not
/// come. What was found becomes the last in the order of use, and what has
/// expired is gone; the other keys keep what they have and the order among them.
pub proof fn lookup_counts_as_use(
    cache: &mut JwksKeyCache,
    key: &JwksKeyCacheKey,
    now: u64,
    r: Option<Jwk>,
    a: CacheKeyView,
    b: CacheKeyView,
)
    requires
        call_ensures(JwksKeyCache::get, (cache, key, now), r),
    ensures
        r is Some <==> old(cache)@.entries.contains_key(key@) && now
            < old(cache)@.entries[key@].expires_at,
        r is Some ==> r->0@ == old(cache)@.entries[key@].jwk,
        r is Some ==> final(cache)@.recency.len() > 0 && final(cache)@.recency.last() == key@,
        r is None ==> !final(cache)@.entries.contains_key(key@) && !final(cache)@.recency.contains(
            key@,
        ),
        a != key@ || r is Some ==> (final(cache)@.entries.contains_key(a) <==> old(cache)@.entries.contains_key(a)),
        final(cache)@.entries.contains_key(a) ==> final(cache)@.entries[a] == old(cache)@.entries[a],
        a != key@ && b != key@ && old(cache)@.entries.contains_key(a) && old(cache)@.entries.contains_key(b) ==> (final(cache)@.recency.index_of(a) < final(cache)@.recency.index_of(b) <==> old(cache)@.recency.index_of(a) < old(cache)@.recency.index_of(b)),
        final(cache)@.recency.no_duplicates(),
        final(cache)@.recency.contains(a) <==> final(cache)@.entries.contains_key(a),
        final(cache)@.capacity == old(cache)@.capacity,
        final(cache)@.ttl == old(cache)@.ttl,
{
    let before = old(cache)@;
    moved_to_end(before.recency, key@, a, b);
    assert(before.entries.contains_key(a) <==> before.recency.contains(a));
    assert(before.entries.contains_key(b) <==> before.recency.contains(b));
    assert(before.entries.contains_key(key@) <==> before.recency.contains(key@));
}

/// Putting a key in leaves a cache without capacity as it is. In any other cache
/// the key stands last, to expire after the time to live, unless that is none.
/// The entries that stay keep what they have and the order among them, and their
/// time has not come. A live entry goes only if the cache is then full, and only
/// if every entry that was used before it goes too.
pub proof fn insertion_drops_the_oldest(
    cache: &mut JwksKeyCache,
    key: JwksKeyCacheKey,
    jwk: Jwk,
    now: u64,
    a: CacheKeyView,
    b: CacheKeyView,
)
    requires
        call_ensures(JwksKeyCache::insert, (cache, key, jwk, now), ()),
    ensures
        final(cache)@.capacity == old(cache)@.capacity,
        final(cache)@.ttl == old(cache)@.ttl,
        old(cache)@.capacity == 0 ==> final(cache)@ == old(cache)@,
        final(cache)@.recency.len() <= old(cache)@.capacity,
        final(cache)@.recency.no_duplicates(),
        final(cache)@.recency.contains(a) <==> final(cache)@.entries.contains_key(a),
        old(cache)@.capacity > 0 ==> (final(cache)@.entries.contains_key(key@) <==> old(cache)@.ttl
            > 0),
        final(cache)@.entries.contains_key(key@) ==> final(cache)@.entries[key@].jwk == jwk@
            && final(cache)@.entries[key@].expires_at == now + old(cache)@.ttl && final(cache)@.recency.last() == key@,
        a != key@ && final(cache)@.entries.contains_key(a) ==> old(cache)@.entries.contains_key(a)
            && final(cache)@.entries[a] == old(cache)@.entries[a] && now < old(cache)@.entries[a].expires_at,
        a != key@ && b != key@ && final(cache)@.entries.contains_key(a) && final(cache)@.entries.contains_key(b) ==> (final(cache)@.recency.index_of(a) < final(cache)@.recency.index_of(b) <==> old(cache)@.recency.index_of(a) < old(cache)@.recency.index_of(b)),
        a != key@ && old(cache)@.entries.contains_key(a) && now < old(cache)@.entries[a].expires_at
            && !final(cache)@.entries.contains_key(a) ==> final(cache)@.recency.len() == old(cache)@.capacity,
        a != key@ && b != key@ && old(cache)@.entries.contains_key(b) && now < old(cache)@.entries[b].expires_at && old(cache)@.recency.index_of(a) < old(cache)@.recency.index_of(
            b,
        ) && final(cache)@.entries.contains_key(a) ==> final(cache)@.entries.contains_key(b),
{
    insertion_into_view(old(cache)@, key@, jwk@, now as int, a, b);
}

proof fn insertion_into_view(
    before: CacheView,
    key: CacheKeyView,
    jwk: crate::jwk::JwkView,
    now: int,
    a: CacheKeyView,
    b: CacheKeyView,
)
    requires
        before.consistent(),
    ensures
        ({
            let after = before.after_insert(key, jwk, now);
            &&& after.consistent()
            &&& after.capacity == before.capacity
            &&& after.ttl == before.ttl
            &&& before.capacity == 0 ==> after == before && before.entries == Map::<
                CacheKeyView,
                CachedView,
            >::empty()
            &&& before.capacity > 0 ==> (after.entries.contains_key(key) <==> before.ttl > 0)
            &&& after.entries.contains_key(key) ==> after.entries[key] == CachedView {
                jwk,
                expires_at: now + before.ttl,
            } && after.recency.last() == key
            &&& a != key && after.entries.contains_key(a) ==> before.entries.contains_key(a)
                && after.entries[a] == before.entries[a] && now < before.entries[a].expires_at
            &&& a != key && b != key && after.entries.contains_key(a) && after.entries.contains_key(
                b,
            ) ==> (after.recency.index_of(a) < after.recency.index_of(b) <==> before.recency.index_of(
                a,
            ) < before.recency.index_of(b))
            &&& a != key && before.entries.contains_key(a) && now < before.entries[a].expires_at
                && !after.entries.contains_key(a) ==> after.recency.len() == before.capacity
            &&& a != key && b != key && before.entries.contains_key(b) && now
                < before.entries[b].expires_at && before.recency.index_of(a)
                < before.recency.index_of(b) && after.entries.contains_key(a)
                ==> after.entries.contains_key(b)
        }),
{
    let after = before.after_insert(key, jwk, now);
    before.insert_consistent(key, jwk, now);
    before.insert_keeps_latest(key, jwk, now);
    assert(before.entries.contains_key(a) <==> before.recency.contains(a));
    assert(before.entries.contains_key(b) <==> before.recency.contains(b));
    assert(after.entries.contains_key(a) <==> after.recency.contains(a));
    assert(after.entries.contains_key(b) <==> after.recency.contains(b));
    assert(after.entries.contains_key(key) <==> after.recency.contains(key));
    if before.capacity == 0 {
        before.empty_without_capacity();
    } else {
        let one = before.with_entry(key, jwk, now);
        let p = one.living(now);
        let moved = without(before.recency, key).push(key);
        let left = moved.filter(p);
        let n = if left.len() > before.capacity {
            left.len() - before.capacity
        } else {
            0
        };
        moved_to_end(before.recency, key, a, b);
        moved_to_end(before.recency, key, b, a);
        filter_members(moved, p);
        assert(after.recency == left.skip(n));
        assert(p(key) <==> before.ttl > 0);
        assert(left.contains(key) <==> moved.contains(key) && p(key));
        assert(left.contains(a) <==> moved.contains(a) && p(a));
        assert(left.contains(b) <==> moved.contains(b) && p(b));
        if before.ttl > 0 {
            before.found_until_expiry(key, jwk, now, now);
            // the last of the keys moved is the last of those left
            reveal(Seq::filter);
            assert(moved.drop_last() =~= without(before.recency, key));
            assert(left == without(before.recency, key).filter(p).push(key));
            assert(after.recency.last() == key);
        }
        if after.recency.contains(key) {
            let i = after.recency.index_of(key);
            assert(left[n + i] == key);
        }
        if after.recency.contains(a) {
            let i = after.recency.index_of(a);
            assert(left[n + i] == a);
        }
        if after.recency.contains(b) {
            let i = after.recency.index_of(b);
            assert(left[n + i] == b);
        }
        if a != key && b != key && left.contains(a) && left.contains(b) {
            filtered_order(moved, p, a, b);
            let i = left.index_of(a);
            let j = left.index_of(b);
            if after.recency.contains(a) && i < j {
                place_of(left, n + after.recency.index_of(a));
                assert(after.recency[j - n] == b);
            }
            if after.recency.contains(a) && after.recency.contains(b) {
                place_of(left, n + after.recency.index_of(a));
                place_of(left, n + after.recency.index_of(b));
            }
        }
        if a != key && left.contains(a) && n == 0 {
            assert(left.skip(0) =~= left);
        }
        if before.recency.index_of(a) < before.recency.index_of(b) && after.recency.contains(a) && a
            != key {
            assert(before.recency.contains(a));
        }
    }
}

/// A key that a lookup has just found outlives the next insertion into a cache
/// that has room for two, until its own time comes.
pub proof fn used_key_survives(
    cache: &mut JwksKeyCache,
    key: &JwksKeyCacheKey,
    now: u64,
    found: Option<Jwk>,
    next: &mut JwksKeyCache,
    other: JwksKeyCacheKey,
    jwk: Jwk,
    later: u64,
)
    requires
        call_ensures(JwksKeyCache::get, (cache, key, now), found),
        found is Some,
        *old(next) == *final(cache),
        call_ensures(JwksKeyCache::insert, (next, other, jwk, later), ()),
        other@ != key@,
        old(cache)@.capacity >= 2,
        later < old(cache)@.entries[key@].expires_at,
    ensures
        final(next)@.entries.contains_key(key@),
        final(next)@.entries[key@] == old(cache)@.entries[key@],
{
    lookup_counts_as_use(cache, key, now, found, key@, key@);
    let before = old(next)@;
    insertion_drops_the_oldest(next, other, jwk, later, key@, key@);
    let after = final(next)@;
    if !after.entries.contains_key(key@) {
        assert(after.recency.len() == before.capacity);
        // then some other key stays, which was used before
        let i = if after.recency[0] == other@ {
            1
        } else {
            0
        };
        assert(after.recency[0] != after.recency[1]);
        let a = after.recency[i];
        assert(a != other@);
        assert(after.recency.contains(a));
        insertion_drops_the_oldest(next, other, jwk, later, a, key@);
        assert(a != key@);
        assert(before.entries.contains_key(a) && before.recency.contains(a));
        lookup_counts_as_use(cache, key, now, found, a, key@);
        let x = before.recency.index_of(a);
        assert(before.recency[x] == a);
        place_of(before.recency, before.recency.len() - 1);
        assert(before.recency.index_of(a) < before.recency.index_of(key@));
    }
}

} // verus!
