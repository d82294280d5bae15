//! What holds of the discovery of keys.

use crate::cache::{JwksKeyCache, JwksKeyCacheKey};
use crate::config::{name_tells_algorithm, JwtAlgorithm, RoleConfig};
use crate::decoder::{key_set_document, token_header};
use crate::discovery::{
    bearer_header, cached_jwks_key, configuration_url, is_kubernetes_service_issuer,
    kubernetes_issuer, start_discovery, ConfigurationRequest, Discovery, KeysRequest,
};
use crate::error::{key_id_text, FetchFailure, KeyError};
use crate::jwk::{
    jwk_views, select_jwk_for_token, selected_once, selection_error, selects, Jwk, JwkView,
};
use crate::keys::{decoding_key_from_jwk, published_key, DecodingKey};
use crate::laws::text::{end_is_trimmed, end_is_trimmed_of, front_is_trimmed};
use crate::text::white_space;
use crate::validator::{header_algorithm, header_kid};
use vstd::prelude::*;

verus! {

/// The header of a token names an algorithm by its name, and the key by its id.
pub proof fn header_names_algorithm_and_key(token: Seq<char>, algorithm: JwtAlgorithm)
    ensures
        header_algorithm(token) == Some(algorithm) <==> token_header(token) is Some && (
        token_header(token)->0).0 == algorithm.spec_name(),
        token_header(token) is Some ==> header_kid(token) == (token_header(token)->0).1,
        token_header(token) is None ==> header_algorithm(token) is None && header_kid(token) is None,
{
    name_tells_algorithm(algorithm);
    if header_algorithm(token) == Some(algorithm) {
        assert((token_header(token)->0).0 == algorithm.spec_name());
    }
}

/// The configuration of every issuer, that of the cluster too, is looked for at
/// one place below its address, slashes at the end of the address aside.
pub proof fn configuration_is_below_the_issuer(issuer: Seq<char>, k: int)
    requires
        0 <= k <= issuer.len(),
        forall|j: int| k <= j < issuer.len() ==> #[trigger] issuer[j] == '/',
        k > 0 ==> issuer[k - 1] != '/',
    ensures
        configuration_url(issuer) == issuer.take(k) + "/.well-known/openid-configuration"@,
        kubernetes_issuer(issuer) <==> issuer.take(k) == "https://kubernetes.default.svc"@
            || issuer.take(k) == "https://kubernetes.default.svc.cluster.local"@,
{
    end_is_trimmed_of(issuer, '/', k);
}

/// A discovery begins with a request for the configuration of the role's issuer,
/// and remembers the key id of the token and the algorithm. Only a token whose
/// header cannot be read begins none.
pub proof fn discovery_begins_at_the_issuer(
    role: RoleConfig,
    token: &str,
    algorithm: JwtAlgorithm,
    r: Result<ConfigurationRequest, KeyError>,
    in_cluster: bool,
    issuer: &str,
    k: int,
)
    requires
        call_ensures(start_discovery, (&role, token, algorithm), r),
        call_ensures(is_kubernetes_service_issuer, (issuer,), in_cluster),
        issuer@ == role.issuer@,
        0 <= k <= issuer@.len(),
        forall|j: int| k <= j < issuer@.len() ==> #[trigger] issuer@[j] == '/',
        k > 0 ==> issuer@[k - 1] != '/',
    ensures
        r is Ok <==> header_algorithm(token@) is Some,
        r matches Err(e) ==> e == KeyError::HeaderForDiscovery,
        r matches Ok(request) ==> {
            &&& request.url@ == issuer@.take(k) + "/.well-known/openid-configuration"@
            &&& k == issuer@.len() ==> request.url@ == issuer@
                + "/.well-known/openid-configuration"@
            &&& request.in_cluster == in_cluster
            &&& request.algorithm == algorithm
            &&& token_header(token@) is Some
            &&& request.kid is Some <==> (token_header(token@)->0).1 is Some
            &&& request.kid is Some ==> (token_header(token@)->0).1 == Some(request.kid->0@)
        },
        in_cluster <==> issuer@.take(k) == "https://kubernetes.default.svc"@ || issuer@.take(k)
            == "https://kubernetes.default.svc.cluster.local"@,
{
    configuration_is_below_the_issuer(issuer@, k);
    if k == issuer@.len() {
        assert(issuer@.take(k) =~= issuer@);
    }
    if r is Ok {
        let kid = (r->Ok_0).kid;
        assert(kid.deep_view() == header_kid(token@));
    }
}

/// The header for a token in a file holds the token, from its first to its last
/// character that is no white space; a file of white space gives none.
pub proof fn bearer_header_holds_the_token(contents: &str, r: Option<String>, i: int, j: int)
    requires
        call_ensures(bearer_header, (contents,), r),
        0 <= i <= j <= contents@.len(),
        forall|n: int| 0 <= n < i ==> white_space(#[trigger] contents@[n]),
        forall|n: int| j <= n < contents@.len() ==> white_space(#[trigger] contents@[n]),
        i < j ==> !white_space(contents@[i]) && !white_space(contents@[j - 1]),
        i == j ==> i == contents@.len(),
    ensures
        i < j ==> (r matches Some(header) && header@ == "Bearer "@ + contents@.subrange(i, j)),
        i == j ==> r is None,
{
    front_is_trimmed(contents@, i);
    let tail = contents@.skip(i);
    assert forall|n: int| j - i <= n < tail.len() implies white_space(#[trigger] tail[n]) by {
        assert(tail[n] == contents@[i + n]);
    }
    if i < j {
        assert(tail[j - i - 1] == contents@[j - 1]);
    }
    end_is_trimmed(tail, j - i);
    assert(tail.take(j - i) =~= contents@.subrange(i, j));
}

/// The cache answers for a token if and only if it has a live key for it that
/// fits the algorithm. Either way the lookup is an ordinary one.
pub proof fn cache_answers_with_fitting_keys(
    cache: &mut JwksKeyCache,
    key: &JwksKeyCacheKey,
    algorithm: JwtAlgorithm,
    now: u64,
    r: Option<Jwk>,
    plain: &mut JwksKeyCache,
    found: Option<Jwk>,
)
    requires
        call_ensures(cached_jwks_key, (cache, key, algorithm, now), r),
        call_ensures(JwksKeyCache::get, (plain, key, now), found),
        old(plain)@ == old(cache)@,
    ensures
        r is Some <==> found is Some && found->0@.matches_algorithm(algorithm),
        r is Some ==> r->0@ == found->0@,
        final(cache)@ == final(plain)@,
{
}

/// A request for the configuration that fails is told with its address and how,
/// and leaves the cache alone. One that succeeds goes on to the key that the
/// cache holds for the token, or to the keys at the address that was given.
pub proof fn configuration_leads_to_the_keys(
    request: ConfigurationRequest,
    uri: String,
    failure: FetchFailure,
    cache: &mut JwksKeyCache,
    now: u64,
    r: Result<Discovery, KeyError>,
    failed_cache: &mut JwksKeyCache,
    failed: Result<Discovery, KeyError>,
    address: &str,
    key: JwksKeyCacheKey,
    plain: &mut JwksKeyCache,
    found: Option<Jwk>,
    made: Option<DecodingKey>,
)
    requires
        call_ensures(ConfigurationRequest::received, (request, Ok(uri), cache, now), r),
        call_ensures(
            ConfigurationRequest::received,
            (request, Err(failure), failed_cache, now),
            failed,
        ),
        address@ == uri@,
        call_ensures(JwksKeyCacheKey::new, (address, &request.kid, request.algorithm), key),
        call_ensures(cached_jwks_key, (plain, &key, request.algorithm, now), found),
        old(plain)@ == old(cache)@,
        found is Some ==> call_ensures(decoding_key_from_jwk, (&found->0,), made),
    ensures
        failed == Err::<Discovery, KeyError>(
            KeyError::Configuration { url: request.url, failure },
        ),
        final(failed_cache)@ == old(failed_cache)@,
        final(cache)@ == final(plain)@,
        found is None ==> (r matches Ok(Discovery::FetchKeys(next)) && next.jwks_uri == uri
            && next.kid == request.kid && next.algorithm == request.algorithm),
        found is Some && made is Some ==> (r matches Ok(Discovery::Found(decoding_key))
            && decoding_key@ == made->0@),
        found is Some && made is None ==> (r matches Err(KeyError::CachedKey { key_id }) && (
        key_id is Some <==> found->0@.key_id is Some) && (key_id is Some ==> found->0@.key_id == Some(
            key_id->0@,
        ))),
{
    if found is Some && made is None {
        let key_id = r->Err_0->CachedKey_key_id;
        assert(key_id.deep_view() == found->0@.key_id);
    }
}

proof fn selection_errors_agree(
    keys: Seq<JwkView>,
    kid: Option<Seq<char>>,
    algorithm: JwtAlgorithm,
    a: KeyError,
    b: KeyError,
)
    requires
        selection_error(keys, kid, algorithm, a),
        selection_error(keys, kid, algorithm, b),
    ensures
        a.message() == b.message(),
{
    if a is IncompatibleKey && b is IncompatibleKey {
        let x = a->IncompatibleKey_key_id;
        let y = b->IncompatibleKey_key_id;
        assert(x.deep_view() == y.deep_view());
        assert(key_id_text(x) == key_id_text(y));
    }
}

/// The keys of an issuer lead to the key that the token refers to: it is put in
/// the cache as any other, and answered, or told with its id if no decoding key
/// can be made of it. Where the token refers to none, the error tells why, and
/// the cache is left alone.
pub proof fn keys_lead_to_the_one_referred_to(
    request: KeysRequest,
    keys: Vec<Jwk>,
    cache: &mut JwksKeyCache,
    now: u64,
    r: Result<DecodingKey, KeyError>,
    selected: Result<&Jwk, KeyError>,
    address: &str,
    key: JwksKeyCacheKey,
    plain: &mut JwksKeyCache,
    made: Option<DecodingKey>,
)
    requires
        call_ensures(KeysRequest::select, (request, &keys, cache, now), r),
        call_ensures(select_jwk_for_token, (&keys, &request.kid, request.algorithm), selected),
        address@ == request.jwks_uri@,
        call_ensures(JwksKeyCacheKey::new, (address, &request.kid, request.algorithm), key),
        selected is Ok ==> call_ensures(
            JwksKeyCache::insert,
            (plain, key, *selected->Ok_0, now),
            (),
        ),
        old(plain)@ == old(cache)@,
        selected is Ok ==> call_ensures(decoding_key_from_jwk, (selected->Ok_0,), made),
    ensures
        selected is Err ==> final(cache)@ == old(cache)@ && r is Err && r->Err_0.message()
            == selected->Err_0.message(),
        selected is Ok ==> final(cache)@ == final(plain)@,
        selected is Ok && made is Some ==> r is Ok && r->Ok_0@ == made->0@,
        selected is Ok && made is None ==> (r matches Err(KeyError::DiscoveredKey { key_id }) && (
        key_id is Some <==> selected->Ok_0@.key_id is Some) && (key_id is Some
            ==> selected->Ok_0@.key_id == Some(key_id->0@))),
{
    let views = jwk_views(keys@);
    let kid = request.kid.deep_view();
    if selected is Ok {
        let i = choose|i: int| #[trigger]
            selects(views, kid, request.algorithm, i) && *selected->Ok_0 == keys@[i];
        assert(views[i] == keys@[i]@);
        let j = choose|j: int| #[trigger]
            selects(views, kid, request.algorithm, j) && final(cache)@ == old(cache)@.after_insert(
                request.cache_key(),
                views[j],
                now as int,
            ) && match r {
                Ok(key) => published_key(views[j].parameters) == Some(key@),
                Err(e) => published_key(views[j].parameters) is None && (e matches
                    KeyError::DiscoveredKey { key_id } && key_id.deep_view() == views[j].key_id),
            };
        selected_once(views, kid, request.algorithm, i, j);
        if r is Err {
            let key_id = r->Err_0->DiscoveredKey_key_id;
            assert(key_id.deep_view() == views[j].key_id);
        }
    } else {
        assert(!exists|i: int| #[trigger] selects(views, kid, request.algorithm, i));
        selection_errors_agree(views, kid, request.algorithm, r->Err_0, selected->Err_0);
    }
}

/// A request for the keys that fails is told with its address and how, a document
/// that is no key set likewise; neither touches the cache. A key set leads to
/// what its keys lead to.
pub proof fn document_stands_for_its_keys(
    request: KeysRequest,
    body: Vec<u8>,
    failure: FetchFailure,
    cache: &mut JwksKeyCache,
    now: u64,
    r: Result<DecodingKey, KeyError>,
    failed_cache: &mut JwksKeyCache,
    failed: Result<DecodingKey, KeyError>,
    keys: Vec<Jwk>,
    plain: &mut JwksKeyCache,
    selected: Result<DecodingKey, KeyError>,
)
    requires
        call_ensures(KeysRequest::received, (request, Ok(body), cache, now), r),
        call_ensures(KeysRequest::received, (request, Err(failure), failed_cache, now), failed),
        key_set_document(body@) is Some ==> key_set_document(body@) == Some(jwk_views(keys@)),
        call_ensures(KeysRequest::select, (request, &keys, plain, now), selected),
        old(plain)@ == old(cache)@,
    ensures
        failed == Err::<DecodingKey, KeyError>(
            KeyError::Keys { url: request.jwks_uri, failure },
        ),
        final(failed_cache)@ == old(failed_cache)@,
        key_set_document(body@) is None ==> final(cache)@ == old(cache)@ && r == Err::<
            DecodingKey,
            KeyError,
        >(KeyError::Keys { url: request.jwks_uri, failure: FetchFailure::Body }),
        key_set_document(body@) is Some ==> {
            &&& final(cache)@ == final(plain)@
            &&& r is Ok <==> selected is Ok
            &&& r is Ok ==> r->Ok_0@ == selected->Ok_0@
            &&& r is Err ==> r->Err_0.message() == selected->Err_0.message()
        },
{
    if key_set_document(body@) is Some {
        let views = jwk_views(keys@);
        let kid = request.kid.deep_view();
        if exists|i: int| #[trigger] selects(views, kid, request.algorithm, i) {
            let i = choose|i: int| #[trigger]
                selects(views, kid, request.algorithm, i) && final(cache)@
                    == old(cache)@.after_insert(request.cache_key(), views[i], now as int)
                    && match r {
                    Ok(key) => published_key(views[i].parameters) == Some(key@),
                    Err(e) => published_key(views[i].parameters) is None && (e matches
                        KeyError::DiscoveredKey { key_id } && key_id.deep_view()
                        == views[i].key_id),
                };
            let j = choose|j: int| #[trigger]
                selects(views, kid, request.algorithm, j) && final(plain)@
                    == old(plain)@.after_insert(request.cache_key(), views[j], now as int)
                    && match selected {
                    Ok(key) => published_key(views[j].parameters) == Some(key@),
                    Err(e) => published_key(views[j].parameters) is None && (e matches
                        KeyError::DiscoveredKey { key_id } && key_id.deep_view()
                        == views[j].key_id),
                };
            selected_once(views, kid, request.algorithm, i, j);
            if r is Err {
                let x = r->Err_0->DiscoveredKey_key_id;
                let y = selected->Err_0->DiscoveredKey_key_id;
                assert(x.deep_view() == y.deep_view());
                assert(key_id_text(x) == key_id_text(y));
            }
        } else {
            selection_errors_agree(views, kid, request.algorithm, r->Err_0, selected->Err_0);
        }
    }
}

} // verus!
