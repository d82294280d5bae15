//! The discovery of the key that a token was signed with, from what the issuer
//! publishes. The requests are made by the caller, who hands each reply back.

use crate::cache::{cache_key_of, CacheKeyView, CacheView, JwksKeyCache, JwksKeyCacheKey};
use crate::config::{JwtAlgorithm, RoleConfig};
use crate::decoder::{key_set_document, parse_key_set};
use crate::error::{FetchFailure, KeyError};
use crate::jwk::{
    ensure_jwk_compatible, jwk_views, select_jwk_for_token, selected_once, selection_error, selects,
    Jwk, JwkView,
};
use crate::keys::{
    decoding_key_from_jwk, published_key, published_key_keeps_family, DecodingKey,
};
use crate::text::{
    join, same_text, trim_end, trim_end_of, trim_start, trimmed_end, trimmed_end_of,
    trimmed_start,
};
use crate::validator::{header_algorithm, header_kid, read_header};
use vstd::prelude::*;

verus! {

/// Where an issuer publishes its configuration.
pub open spec fn configuration_url(issuer: Seq<char>) -> Seq<char> {
    trimmed_end_of(issuer, '/') + "/.well-known/openid-configuration"@
}

/// The issuer is the API server of the cluster, slashes at the end aside.
pub open spec fn kubernetes_issuer(issuer: Seq<char>) -> bool {
    let host = trimmed_end_of(issuer, '/');
    host == "https://kubernetes.default.svc"@ || host
        == "https://kubernetes.default.svc.cluster.local"@
}

/// Is the issuer the API server of the cluster?
pub fn is_kubernetes_service_issuer(issuer: &str) -> (r: bool)
    ensures
        r == kubernetes_issuer(issuer@),
{
    let host = trim_end_of(issuer, '/');
    same_text(host, "https://kubernetes.default.svc") || same_text(
        host,
        "https://kubernetes.default.svc.cluster.local",
    )
}

/// The `Authorization` header for the token in a file, white space around it
/// aside, if the file holds one.
pub fn bearer_header(contents: &str) -> (r: Option<String>)
    ensures
        match r {
            Some(header) => header@ == "Bearer "@ + trimmed_end(trimmed_start(contents@))
                && trimmed_end(trimmed_start(contents@)).len() > 0,
            None => trimmed_end(trimmed_start(contents@)).len() == 0,
        },
{
    let token = trim_end(trim_start(contents));
    if token.is_empty() {
        None
    } else {
        Some(join("Bearer ", token))
    }
}

/// A request for the configuration of an issuer.
#[derive(Debug)]
pub struct ConfigurationRequest {
    /// Where the configuration is to be fetched.
    pub url: String,
    /// Whether the certificate and the token of the cluster are to be used.
    pub in_cluster: bool,
    /// The id of the key that is looked for.
    pub kid: Option<String>,
    /// The algorithm that the key must serve.
    pub algorithm: JwtAlgorithm,
}

/// A request for the keys of an issuer.
#[derive(Debug)]
pub struct KeysRequest {
    /// Where the keys are to be fetched.
    pub jwks_uri: String,
    /// The id of the key that is looked for.
    pub kid: Option<String>,
    /// The algorithm that the key must serve.
    pub algorithm: JwtAlgorithm,
}

/// What comes of the configuration of an issuer.
#[derive(Debug)]
pub enum Discovery {
    /// The keys have to be fetched.
    FetchKeys(KeysRequest),
    /// The key is known already.
    Found(DecodingKey),
}

/// Begins the discovery of the key that the token was signed with.
pub fn start_discovery(role: &RoleConfig, token: &str, algorithm: JwtAlgorithm) -> (r: Result<
    ConfigurationRequest,
    KeyError,
>)
    ensures
        match r {
            Ok(request) => {
                &&& header_algorithm(token@) is Some
                &&& request.url@ == configuration_url(role.issuer@)
                &&& request.in_cluster == kubernetes_issuer(role.issuer@)
                &&& request.kid.deep_view() == header_kid(token@)
                &&& request.algorithm == algorithm
            },
            Err(e) => header_algorithm(token@) is None && e == KeyError::HeaderForDiscovery,
        },
{
    match read_header(token) {
        Some(header) => Ok(
            ConfigurationRequest {
                url: join(
                    trim_end_of(role.issuer.as_str(), '/'),
                    "/.well-known/openid-configuration",
                ),
                in_cluster: is_kubernetes_service_issuer(role.issuer.as_str()),
                kid: header.kid,
                algorithm,
            },
        ),
        None => Err(KeyError::HeaderForDiscovery),
    }
}

/// The key that the cache holds for a token, unless its time has come or it may
/// not verify the token.
pub open spec fn cached_key(
    cache: CacheView,
    key: CacheKeyView,
    algorithm: JwtAlgorithm,
    now: int,
) -> Option<JwkView> {
    match cache.found(key, now) {
        Some(jwk) => if jwk.matches_algorithm(algorithm) {
            Some(jwk)
        } else {
            None
        },
        None => None,
    }
}

/// Looks up the key that the cache holds for a token.
pub fn cached_jwks_key(
    cache: &mut JwksKeyCache,
    cache_key: &JwksKeyCacheKey,
    algorithm: JwtAlgorithm,
    now: u64,
) -> (r: Option<Jwk>)
    ensures
        final(cache)@ == old(cache)@.after_get(cache_key@, now as int),
        match r {
            Some(jwk) => cached_key(old(cache)@, cache_key@, algorithm, now as int) == Some(jwk@),
            None => cached_key(old(cache)@, cache_key@, algorithm, now as int) is None,
        },
{
    match cache.get(cache_key, now) {
        Some(jwk) => if ensure_jwk_compatible(&jwk, algorithm).is_ok() {
            Some(jwk)
        } else {
            None
        },
        None => None,
    }
}

impl ConfigurationRequest {
    /// What comes of the address of an issuer's keys: the key that the cache
    /// holds for the token counts as used and is answered, or else the keys have
    /// to be fetched.
    pub open spec fn answered(
        self,
        jwks_uri: String,
        before: CacheView,
        now: int,
        after: CacheView,
        r: Result<Discovery, KeyError>,
    ) -> bool {
        let key = cache_key_of(jwks_uri@, self.kid.deep_view(), self.algorithm);
        &&& after == before.after_get(key, now)
        &&& match cached_key(before, key, self.algorithm, now) {
            Some(jwk) => match published_key(jwk.parameters) {
                Some(found) => r matches Ok(Discovery::Found(decoding_key)) && decoding_key@
                    == found,
                None => r matches Err(KeyError::CachedKey { key_id })
                    && key_id.deep_view() == jwk.key_id,
            },
            None => r == Ok::<Discovery, KeyError>(
                Discovery::FetchKeys(
                    KeysRequest { jwks_uri, kid: self.kid, algorithm: self.algorithm },
                ),
            ),
        }
    }

    /// Goes on from the reply to the request: the address of the issuer's keys,
    /// or why it could not be had. The cache may spare the next request.
    pub fn received(
        self,
        reply: Result<String, FetchFailure>,
        cache: &mut JwksKeyCache,
        now: u64,
    ) -> (r: Result<Discovery, KeyError>)
        ensures
            match reply {
                Err(failure) => {
                    &&& final(cache)@ == old(cache)@
                    &&& r == Err::<Discovery, KeyError>(
                        KeyError::Configuration { url: self.url, failure },
                    )
                },
                Ok(jwks_uri) => self.answered(
                    jwks_uri,
                    old(cache)@,
                    now as int,
                    final(cache)@,
                    r,
                ),
            },
    {
        match reply {
            Err(failure) => Err(KeyError::Configuration { url: self.url, failure }),
            Ok(jwks_uri) => {
                let key = JwksKeyCacheKey::new(jwks_uri.as_str(), &self.kid, self.algorithm);
                match cached_jwks_key(cache, &key, self.algorithm, now) {
                    Some(jwk) => match decoding_key_from_jwk(&jwk) {
                        Some(decoding_key) => Ok(Discovery::Found(decoding_key)),
                        None => Err(KeyError::CachedKey { key_id: jwk.key_id }),
                    },
                    None => Ok(
                        Discovery::FetchKeys(
                            KeysRequest { jwks_uri, kid: self.kid, algorithm: self.algorithm },
                        ),
                    ),
                }
            },
        }
    }
}

impl KeysRequest {
    /// What the key is found by in the cache.
    pub open spec fn cache_key(self) -> CacheKeyView {
        cache_key_of(self.jwks_uri@, self.kid.deep_view(), self.algorithm)
    }

    /// Ends the discovery with the reply to the request: the document that was
    /// fetched, or why it could not be had. The key that the token refers to is
    /// put in the cache.
    pub fn received(
        self,
        reply: Result<Vec<u8>, FetchFailure>,
        cache: &mut JwksKeyCache,
        now: u64,
    ) -> (r: Result<DecodingKey, KeyError>)
        ensures
            match reply {
                Err(failure) => {
                    &&& final(cache)@ == old(cache)@
                    &&& r == Err::<DecodingKey, KeyError>(
                        KeyError::Keys { url: self.jwks_uri, failure },
                    )
                },
                Ok(body) => match key_set_document(body@) {
                    None => {
                        &&& final(cache)@ == old(cache)@
                        &&& r == Err::<DecodingKey, KeyError>(
                            KeyError::Keys { url: self.jwks_uri, failure: FetchFailure::Body },
                        )
                    },
                    Some(keys) => self.concluded(keys, old(cache)@, now as int, final(cache)@, r),
                },
            },
    {
        let body = match reply {
            Ok(body) => body,
            Err(failure) => {
                return Err(KeyError::Keys { url: self.jwks_uri, failure });
            },
        };
        match parse_key_set(body.as_slice()) {
            Some(keys) => self.select(&keys, cache, now),
            None => Err(KeyError::Keys { url: self.jwks_uri, failure: FetchFailure::Body }),
        }
    }

    /// What comes of the keys that an issuer publishes: the one that the token
    /// refers to is put in the cache and answered, or else the cache is left
    /// alone and the error tells why there is none.
    pub open spec fn concluded(
        self,
        keys: Seq<JwkView>,
        before: CacheView,
        now: int,
        after: CacheView,
        r: Result<DecodingKey, KeyError>,
    ) -> bool {
        if exists|i: int| #[trigger] selects(keys, self.kid.deep_view(), self.algorithm, i) {
            exists|i: int| #[trigger]
                selects(keys, self.kid.deep_view(), self.algorithm, i) && after
                    == before.after_insert(self.cache_key(), keys[i], now) && match r {
                    Ok(key) => published_key(keys[i].parameters) == Some(key@),
                    Err(e) => published_key(keys[i].parameters) is None && (e matches
                        KeyError::DiscoveredKey { key_id } && key_id.deep_view()
                        == keys[i].key_id),
                }
        } else {
            after == before && (r matches Err(e) && selection_error(
                keys,
                self.kid.deep_view(),
                self.algorithm,
                e,
            ))
        }
    }

    /// Ends the discovery with the keys that an issuer publishes.
    pub fn select(self, keys: &Vec<Jwk>, cache: &mut JwksKeyCache, now: u64) -> (r: Result<
        DecodingKey,
        KeyError,
    >)
        ensures
            self.concluded(jwk_views(keys@), old(cache)@, now as int, final(cache)@, r),
    {
        let jwk = match select_jwk_for_token(keys, &self.kid, self.algorithm) {
            Ok(jwk) => jwk.clone(),
            Err(e) => {
                return Err(e);
            },
        };
        let ghost i = choose|i: int| #[trigger]
            selects(jwk_views(keys@), self.kid.deep_view(), self.algorithm, i) && jwk == keys@[i];
        proof {
            assert(jwk_views(keys@)[i] == jwk@);
        }
        let key = JwksKeyCacheKey::new(self.jwks_uri.as_str(), &self.kid, self.algorithm);
        cache.insert(key, jwk.clone(), now);
        match decoding_key_from_jwk(&jwk) {
            Some(key) => Ok(key),
            None => Err(KeyError::DiscoveredKey { key_id: jwk.key_id }),
        }
    }
}

/// Slashes at the end of an issuer make no difference.
pub proof fn slash_makes_no_difference(issuer: Seq<char>)
    ensures
        kubernetes_issuer(issuer.push('/')) == kubernetes_issuer(issuer),
        configuration_url(issuer.push('/')) == configuration_url(issuer),
{
    assert(issuer.push('/').drop_last() =~= issuer);
}

/// A key that was fetched serves the algorithm of the token, and until its time
/// has come it is found again without being fetched, if the cache has room for
/// any key at all.
pub proof fn fetched_key_is_found_again(
    request: KeysRequest,
    keys: Seq<JwkView>,
    before: CacheView,
    now: int,
    after: CacheView,
    key: DecodingKey,
    later: int,
)
    requires
        before.consistent(),
        before.capacity > 0,
        request.concluded(keys, before, now, after, Ok(key)),
        now <= later < now + before.ttl,
    ensures
        key@.family() == request.algorithm.spec_family(),
        cached_key(after, request.cache_key(), request.algorithm, later) matches Some(jwk)
            && published_key(jwk.parameters) == Some(key@),
{
    let i = choose|i: int| #[trigger]
        selects(keys, request.kid.deep_view(), request.algorithm, i) && after
            == before.after_insert(request.cache_key(), keys[i], now) && published_key(
            keys[i].parameters,
        ) == Some(key@);
    before.found_until_expiry(request.cache_key(), keys[i], now, later);
    published_key_keeps_family(keys[i].parameters);
}

/// Where the cache has no key for the token, the keys at the address are fetched,
/// and the one that the token refers to decides: it is the answer, if a decoding
/// key can be made of it, and it is in the cache from then on, if the cache keeps
/// anything at all. Where the token refers to none, the answer is an error and
/// nothing is added to the cache.
pub proof fn fetched_keys_decide(
    request: ConfigurationRequest,
    jwks_uri: String,
    before: CacheView,
    now: int,
    middle: CacheView,
    step: Result<Discovery, KeyError>,
    next: KeysRequest,
    keys: Seq<JwkView>,
    later: int,
    after: CacheView,
    r: Result<DecodingKey, KeyError>,
    i: int,
)
    requires
        before.consistent(),
        request.answered(jwks_uri, before, now, middle, step),
        cached_key(
            before,
            cache_key_of(jwks_uri@, request.kid.deep_view(), request.algorithm),
            request.algorithm,
            now,
        ) is None,
        step == Ok::<Discovery, KeyError>(Discovery::FetchKeys(next)),
        next.concluded(keys, middle, later, after, r),
    ensures
        next.jwks_uri == jwks_uri && next.kid == request.kid && next.algorithm == request.algorithm,
        selects(keys, request.kid.deep_view(), request.algorithm, i) ==> {
            &&& after == middle.after_insert(next.cache_key(), keys[i], later)
            &&& before.capacity > 0 && before.ttl > 0 ==> after.found(next.cache_key(), later)
                == Some(keys[i])
            &&& match r {
                Ok(key) => published_key(keys[i].parameters) == Some(key@),
                Err(e) => published_key(keys[i].parameters) is None,
            }
        },
        (forall|j: int| !#[trigger] selects(keys, request.kid.deep_view(), request.algorithm, j))
            ==> r is Err && after == middle && after.entries.submap_of(before.entries),
{
    let key = next.cache_key();
    before.kept_consistent(key, now);
    if selects(keys, request.kid.deep_view(), request.algorithm, i) {
        let j = choose|j: int| #[trigger]
            selects(keys, next.kid.deep_view(), next.algorithm, j) && after == middle.after_insert(
                key,
                keys[j],
                later,
            ) && match r {
                Ok(key) => published_key(keys[j].parameters) == Some(key@),
                Err(e) => published_key(keys[j].parameters) is None && (e matches
                    KeyError::DiscoveredKey { key_id } && key_id.deep_view()
                    == keys[j].key_id),
            };
        selected_once(keys, request.kid.deep_view(), request.algorithm, i, j);
        if before.capacity > 0 && before.ttl > 0 {
            middle.found_until_expiry(key, keys[i], later, later);
        }
    }
}

/// What the cache answers serves the algorithm of the token.
pub proof fn cached_key_serves_algorithm(
    cache: CacheView,
    key: CacheKeyView,
    algorithm: JwtAlgorithm,
    now: int,
)
    ensures
        cached_key(cache, key, algorithm, now) matches Some(jwk) ==> (published_key(
            jwk.parameters,
        ) matches Some(found) ==> found.family() == algorithm.spec_family()),
{
    match cached_key(cache, key, algorithm, now) {
        Some(jwk) => {
            published_key_keeps_family(jwk.parameters);
        },
        None => {},
    }
}

} // verus!
