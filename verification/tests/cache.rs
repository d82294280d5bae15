use authzoo::cache::{JwksKeyCache, JwksKeyCacheKey};
use authzoo::discovery::cached_jwks_key;
use authzoo::jwk::{Jwk, KeyParameters, KeyUse};
use authzoo::JwtAlgorithm;

fn test_cache_key(jwks_uri: &str, kid: &str) -> JwksKeyCacheKey {
    JwksKeyCacheKey::new(jwks_uri, &Some(kid.to_string()), JwtAlgorithm::Hs256)
}

fn test_jwk(kid: &str) -> Jwk {
    Jwk {
        key_id: Some(kid.to_string()),
        public_key_use: Some(KeyUse::Signature),
        key_algorithm: Some("HS256".to_string()),
        parameters: KeyParameters::Octet("c2hhcmVkLXNlY3JldA".to_string()),
    }
}

#[test]
fn jwks_key_cache_returns_cached_key_before_ttl_expires() {
    let mut cache = JwksKeyCache::new(100, 60);
    let now = 1000;
    let key = test_cache_key("https://issuer.example/jwks", "one");

    cache.insert(key.clone(), test_jwk("one"), now);

    assert_eq!(cache.get(&key, now + 59).unwrap().key_id.as_deref(), Some("one"));
}

#[test]
fn jwks_key_cache_expires_keys_after_ttl() {
    let mut cache = JwksKeyCache::new(100, 60);
    let now = 1000;
    let key = test_cache_key("https://issuer.example/jwks", "one");

    cache.insert(key.clone(), test_jwk("one"), now);

    assert!(cache.get(&key, now + 60).is_none());
    assert!(cache.is_empty());
    assert!(cache.recency().is_empty());
}

#[test]
fn jwks_key_cache_evicts_least_recently_used_key() {
    let mut cache = JwksKeyCache::new(2, 60);
    let now = 1000;
    let first = test_cache_key("https://issuer.example/jwks", "one");
    let second = test_cache_key("https://issuer.example/jwks", "two");
    let third = test_cache_key("https://issuer.example/jwks", "three");

    cache.insert(first.clone(), test_jwk("one"), now);
    cache.insert(second.clone(), test_jwk("two"), now);
    assert!(cache.get(&first, now + 1).is_some());
    cache.insert(third.clone(), test_jwk("three"), now + 2);

    assert!(cache.get(&first, now + 3).is_some());
    assert!(cache.get(&second, now + 3).is_none());
    assert!(cache.get(&third, now + 3).is_some());
}

#[test]
fn a_cache_without_capacity_holds_nothing() {
    let mut cache = JwksKeyCache::new(0, 60);
    let key = test_cache_key("u", "one");
    cache.insert(key.clone(), test_jwk("one"), u64::MAX);
    assert!(cache.is_empty());
    assert!(cache.get(&key, 0).is_none());
}

#[test]
fn a_key_that_lives_no_time_is_not_kept() {
    let mut cache = JwksKeyCache::new(1, 0);
    let key = test_cache_key("u", "one");
    cache.insert(key.clone(), test_jwk("one"), 5);
    assert!(cache.is_empty());
    assert!(cache.get(&key, 5).is_none());
}

#[test]
fn an_expired_key_makes_room_before_a_live_one() {
    let mut cache = JwksKeyCache::new(2, 60);
    let old = test_cache_key("u", "old");
    let live = test_cache_key("u", "live");
    let new = test_cache_key("u", "new");
    cache.insert(live.clone(), test_jwk("first"), 0);
    cache.insert(old.clone(), test_jwk("old"), 10);
    cache.insert(live.clone(), test_jwk("live"), 40);
    assert!(cache.get(&old, 50).is_some());
    cache.insert(new.clone(), test_jwk("new"), 70);
    assert!(cache.get(&old, 70).is_none());
    assert_eq!(cache.get(&live, 70).unwrap().key_id.as_deref(), Some("live"));
    assert_eq!(cache.get(&new, 70).unwrap().key_id.as_deref(), Some("new"));
    assert_eq!(cache.recency().len(), 2);
}

#[test]
fn a_later_key_takes_the_place_of_an_earlier_one() {
    let mut cache = JwksKeyCache::new(2, 60);
    let key = test_cache_key("u", "k");
    cache.insert(key.clone(), test_jwk("one"), 0);
    cache.insert(key.clone(), test_jwk("two"), 30);
    assert_eq!(cache.recency().len(), 1);
    assert_eq!(cache.get(&key, 70).unwrap().key_id.as_deref(), Some("two"));
    assert_eq!(cache.get(&key, 89).unwrap().key_id.as_deref(), Some("two"));
    assert!(cache.get(&key, 90).is_none());
}

#[test]
fn cache_keys_tell_tokens_apart() {
    let none: Option<String> = None;
    let id = |kid: &str| Some(kid.to_string());
    let key = JwksKeyCacheKey::new("u", &id("a"), JwtAlgorithm::Rs256);
    assert_eq!(key, JwksKeyCacheKey::new("u", &id("a"), JwtAlgorithm::Es256));
    assert_eq!(key, key.clone());
    assert_ne!(key, JwksKeyCacheKey::new("v", &id("a"), JwtAlgorithm::Rs256));
    assert_ne!(key, JwksKeyCacheKey::new("u", &id("b"), JwtAlgorithm::Rs256));
    assert_ne!(key, JwksKeyCacheKey::new("u", &none, JwtAlgorithm::Rs256));
    assert_ne!(
        JwksKeyCacheKey::new("u", &none, JwtAlgorithm::Es256),
        JwksKeyCacheKey::new("u", &none, JwtAlgorithm::Rs256)
    );
    assert_ne!(
        JwksKeyCacheKey::new("u", &id("RS256"), JwtAlgorithm::Rs256),
        JwksKeyCacheKey::new("u", &none, JwtAlgorithm::Rs256)
    );
}

#[test]
fn a_cached_key_of_another_kind_is_passed_over() {
    let mut cache = JwksKeyCache::new(2, 60);
    let key = test_cache_key("u", "one");
    cache.insert(key.clone(), test_jwk("one"), 0);
    assert!(cached_jwks_key(&mut cache, &key, JwtAlgorithm::Rs256, 1).is_none());
    assert!(cached_jwks_key(&mut cache, &key, JwtAlgorithm::Hs512, 1).is_none());
    assert_eq!(
        cached_jwks_key(&mut cache, &key, JwtAlgorithm::Hs256, 1),
        Some(test_jwk("one"))
    );
    assert!(cached_jwks_key(&mut cache, &key, JwtAlgorithm::Hs256, 60).is_none());
}

#[test]
fn keeps_a_key_past_the_end_of_the_clock() {
    let mut cache = JwksKeyCache::new(1, 60);
    let key = test_cache_key("u", "one");
    cache.insert(key.clone(), test_jwk("one"), u64::MAX - 10);
    assert!(cache.get(&key, u64::MAX).is_some());
}

#[test]
fn keeps_the_keys_used_last() {
    let mut cache = JwksKeyCache::new(2, 60);
    for kid in ["one", "two", "three"] {
        cache.insert(test_cache_key("u", kid), test_jwk(kid), 0);
    }
    assert_eq!(cache.recency().len(), 2);
    assert_eq!(cache.recency()[0], test_cache_key("u", "two"));
    assert_eq!(cache.recency()[1], test_cache_key("u", "three"));
}
