use authzoo::cache::JwksKeyCache;
use authzoo::discovery::{
    bearer_header, is_kubernetes_service_issuer, start_discovery, Discovery, KeysRequest,
};
use authzoo::error::{FetchFailure, KeyError};
use authzoo::jwk::{select_jwk_for_token, Jwk, KeyParameters, KeyUse};
use authzoo::keys::{decoding_key_for_algorithm, decoding_key_from_jwk, looks_like_pem, DecodingKey};
use authzoo::name_map::NameMap;
use authzoo::validator::validate_token_for_role;
use authzoo::{JwtAlgorithm, RoleConfig, TokenValidator};

const RSA_PEM: &str = "-----BEGIN PUBLIC KEY-----
MIIBIjANBgkqhkiG9w0BAQEFAAOCAQ8AMIIBCgKCAQEAxkIXQgpdzFZYF1AN2aTy
pFVr9KktHxRqqHuIF5OoAEMFJq5XfhIg1QGg6YAZCJa2jhXHGSAt2fFPwJ4oMh1V
pO0c1bzJgO7QCAjNsNU/CND7uYs2MvV6KQ+dXn+PwNx3Os3PqNsK2K2X7aMa/QPo
CfBV1dt5z7H58HKuoz0X8X8Cp1Z+Wn9iCfSto+4Y+RFFaf0rxvBCA3HIiF2mF51B
WUkaNIvy2ts8GcSXTU23D6FTdqppQpa8ss8g+D+aXTwJJJzChb5s5n46xMPi+6RF
057oMs8ksced41NYSupAHNN9OJTrLPET1B/oIJ5zFIQb8HZQ6vMqQUWIfYkzx6u6
hwIDAQAB
-----END PUBLIC KEY-----
";
const EC_PEM: &str = "-----BEGIN PUBLIC KEY-----
MFkwEwYHKoZIzj0CAQYIKoZIzj0DAQcDQgAE6jwm15HQ6g+H4VdHv1cpGExAuH86
tRZOidajBBAsXs6I3xzzeUe+a5e+qLzZpKJC8CUd2/RX3b5CsFPn56vqUg==
-----END PUBLIC KEY-----
";
const ED_PEM: &str = "-----BEGIN PUBLIC KEY-----
MCowBQYDK2VwAyEA3r/0i7VZAusdW2tG/08XKjWLMEzWoh7EeHEPsSskqNc=
-----END PUBLIC KEY-----
";
const RSA_N: &str = "xkIXQgpdzFZYF1AN2aTypFVr9KktHxRqqHuIF5OoAEMFJq5XfhIg1QGg6YAZCJa2jhXHGSAt2fFPwJ4o\
    Mh1VpO0c1bzJgO7QCAjNsNU_CND7uYs2MvV6KQ-dXn-PwNx3Os3PqNsK2K2X7aMa_QPoCfBV1dt5z7H5\
    8HKuoz0X8X8Cp1Z-Wn9iCfSto-4Y-RFFaf0rxvBCA3HIiF2mF51BWUkaNIvy2ts8GcSXTU23D6FTdqpp\
    Qpa8ss8g-D-aXTwJJJzChb5s5n46xMPi-6RF057oMs8ksced41NYSupAHNN9OJTrLPET1B_oIJ5zFIQb\
    8HZQ6vMqQUWIfYkzx6u6hw";
const RS256: &str = "JvFpp5qgvGGZj3wA1BlKSA-nTp919V4nDeWU2MxMQPn5Z_WtWBq4q49bkJwbMrMeMwxLTE0OAl1rvPOZ\
    nrjSXc9n72WguxEGrRuB8WdN6FCCLqWE8xV8MIfDM9tlzmOlVRHq_7UKlinLWHFTje9HI6B8VBsBwgXD\
    2KfrJPNnWX3MHU9G6cm_PzJ_v_thf0R12i47Laz4Oj2jnnYXzgoVeuIi5tC1I2fq-QTmncmqyPQxenNq\
    Qsty6NUz4amTuAAH3ruWwmA2ja05y7Tf_CJIB02Z8tRazC1BDFqs9vQ80nnJDT6NDqa3rSHTrWDaVBwv\
    Mq736giJ-Tq1rUGFVV8vZA";
const PS256: &str = "Hfi_nkArAwswXtgOb5ObTRQ194MNQ1zuwlpWzVnU1wezl5GmvOxzj-6gddlJHGAFNvHNbNbSiWvEVr96\
    EvjOO3bvaYcDp1gNQlTSrSXkEPXbGKwCT0Kht-0AH7bPJJb80HDpJWHEUkup7wuV8ws5Iad1aqVgxKva\
    76R3Ba_yBuXuFNvB8W3G-3AQ_HtLipamAljC9tXpd5zypKaawOS9-NIXlLG2ONBkNdoAiiPUcKxZnv76\
    ruXoYZ91LgzXl2Xg8XaL00baBfeFkP_nMDtBmy7qakdaAUsgSYceja-Q82-Q-pBpKIrUeu7F1YXgKI5h\
    X9D7e4nu0KZVCjxLbaWLYg";
const EC_X: &str = "6jwm15HQ6g-H4VdHv1cpGExAuH86tRZOidajBBAsXs4";
const EC_Y: &str = "iN8c83lHvmuXvqi82aSiQvAlHdv0V92-QrBT5-er6lI";
const ES256: &str = "nvYeoXPuh8mOJ-GFF90FRNxG1PTFmsB3O0C-OUbnTxW5CgHA-yRX5iD5zNbBS6x_ufL9DgJOfeZdXdW0\
    yi3fNw";
const ED_X: &str = "3r_0i7VZAusdW2tG_08XKjWLMEzWoh7EeHEPsSskqNc";
const EDDSA: &str = "wLigG-iYgx-A00mxyXcPZoiPiQOj_gaIrVxV--bWr8DNscuSbDP7bjlDj29CBdbEUavWYIOFiDcMRXPQ\
    bXqIDA";

const PAYLOAD: &str = "{\"sub\":\"builder\",\"iss\":\"https://issuer.example\",\
    \"aud\":\"artifact-service\",\"exp\":18446744073709551615}";

fn base64url(bytes: &[u8]) -> String {
    let digits = b"ABCDEFGHIJKLMNOPQRSTUVWXYZabcdefghijklmnopqrstuvwxyz0123456789-_";
    let mut text = String::new();
    for chunk in bytes.chunks(3) {
        let mut bits: u32 = 0;
        for i in 0..3 {
            bits = bits * 256 + u32::from(*chunk.get(i).unwrap_or(&0));
        }
        for i in 0..chunk.len() + 1 {
            let digit = (bits >> (18 - 6 * i)) & 63;
            text.push(char::from(digits[digit as usize]));
        }
    }
    text
}

fn token(algorithm: &str, signature: &str) -> String {
    let header = format!("{{\"alg\":\"{algorithm}\",\"kid\":\"key-1\"}}");
    format!(
        "{}.{}.{}",
        base64url(header.as_bytes()),
        base64url(PAYLOAD.as_bytes()),
        signature
    )
}

fn role(algorithm: JwtAlgorithm, validation_key: Option<&str>) -> RoleConfig {
    RoleConfig {
        name: "local-ci".to_string(),
        issuer: "https://issuer.example".to_string(),
        audience: "artifact-service".to_string(),
        validation_key: validation_key.map(str::to_string),
        algorithms: vec![algorithm],
        claims: NameMap::new(),
    }
}

fn jwk(kid: Option<&str>, algorithm: Option<&str>, parameters: KeyParameters) -> Jwk {
    Jwk {
        key_id: kid.map(str::to_string),
        public_key_use: Some(KeyUse::Signature),
        key_algorithm: algorithm.map(str::to_string),
        parameters,
    }
}

fn rsa() -> KeyParameters {
    KeyParameters::Rsa(RSA_N.to_string(), "AQAB".to_string())
}

fn ec() -> KeyParameters {
    KeyParameters::EllipticCurve(EC_X.to_string(), EC_Y.to_string())
}

fn ed() -> KeyParameters {
    KeyParameters::OctetKeyPair(ED_X.to_string())
}

fn document(keys: &[&str]) -> Vec<u8> {
    format!("{{\"keys\":[{}]}}", keys.join(",")).into_bytes()
}

fn rsa_json(kid: &str) -> String {
    format!(
        "{{\"kty\":\"RSA\",\"kid\":\"{kid}\",\"use\":\"sig\",\"alg\":\"RS256\",\"n\":\"{RSA_N}\",\"e\":\"AQAB\"}}"
    )
}

fn keys_request(kid: Option<&str>, algorithm: JwtAlgorithm) -> KeysRequest {
    KeysRequest {
        jwks_uri: "https://issuer.example/jwks".to_string(),
        kid: kid.map(str::to_string),
        algorithm,
    }
}

fn undiscovered() -> Result<&'static DecodingKey, KeyError> {
    Err(KeyError::HeaderForDiscovery)
}

#[test]
fn verifies_signatures_under_configured_public_keys() {
    let cases = [
        (JwtAlgorithm::Rs256, RSA_PEM, RS256),
        (JwtAlgorithm::Ps256, RSA_PEM, PS256),
        (JwtAlgorithm::Es256, EC_PEM, ES256),
        (JwtAlgorithm::EdDsa, ED_PEM, EDDSA),
    ];
    for (algorithm, pem, signature) in cases {
        let signed = token(algorithm.name(), signature);
        let claims = validate_token_for_role(&role(algorithm, Some(pem)), &signed, undiscovered()).unwrap();
        assert_eq!(claims.subject(), Some("builder"));
        let first = if signature.starts_with('B') { "C" } else { "B" };
        let forged = token(algorithm.name(), &format!("{first}{}", &signature[1..]));
        assert!(validate_token_for_role(&role(algorithm, Some(pem)), &forged, undiscovered()).is_err());
    }
}

#[test]
fn refuses_configured_keys_of_another_kind() {
    let error = |key: &str, algorithm: JwtAlgorithm| {
        decoding_key_for_algorithm(key, algorithm).unwrap_err().to_string()
    };
    assert_eq!(error(EC_PEM, JwtAlgorithm::Rs256), "failed to parse RSA validation key");
    assert_eq!(error("secret", JwtAlgorithm::Ps512), "failed to parse RSA validation key");
    assert_eq!(error(ED_PEM, JwtAlgorithm::Es384), "failed to parse EC validation key");
    assert_eq!(error(RSA_PEM, JwtAlgorithm::EdDsa), "failed to parse EdDSA validation key");
    assert_eq!(
        error(RSA_PEM, JwtAlgorithm::Hs384),
        "refusing to validate HMAC token with PEM validation key; issuer token algorithm was 'HS384'"
    );
    assert!(matches!(
        decoding_key_for_algorithm("secret", JwtAlgorithm::Hs256),
        Ok(DecodingKey::Hmac(bytes)) if bytes == b"secret"
    ));
}

#[test]
fn recognises_pem_documents() {
    assert!(looks_like_pem(RSA_PEM));
    assert!(looks_like_pem("\t\r\n\u{a0}-----BEGIN X"));
    assert!(!looks_like_pem("-----BEGIN"));
    assert!(!looks_like_pem("x-----BEGIN "));
    assert!(!looks_like_pem(""));
}

#[test]
fn makes_keys_of_published_ones() {
    let key = |parameters: KeyParameters| decoding_key_from_jwk(&jwk(None, None, parameters));
    assert!(matches!(
        key(KeyParameters::Octet("c2hhcmVkLXNlY3JldA".to_string())),
        Some(DecodingKey::Hmac(bytes)) if bytes == b"shared-secret"
    ));
    assert!(matches!(
        key(rsa()),
        Some(DecodingKey::RsaComponents(n, e)) if n.len() == 256 && e == [1, 0, 1]
    ));
    assert!(matches!(
        key(ec()),
        Some(DecodingKey::Ec(point)) if point.len() == 65 && point[0] == 4
    ));
    assert!(matches!(key(ed()), Some(DecodingKey::Ed(bytes)) if bytes.len() == 32));
    assert!(key(KeyParameters::Octet("not base64!".to_string())).is_none());
    assert!(key(KeyParameters::Rsa("AQAB".to_string(), "*".to_string())).is_none());
    assert!(key(KeyParameters::EllipticCurve("*".to_string(), EC_Y.to_string())).is_none());
    assert!(key(KeyParameters::OctetKeyPair("=".to_string())).is_none());
}

#[test]
fn verifies_signatures_under_published_keys() {
    let cases = [
        (JwtAlgorithm::Rs256, rsa(), RS256),
        (JwtAlgorithm::Ps256, rsa(), PS256),
        (JwtAlgorithm::Es256, ec(), ES256),
        (JwtAlgorithm::EdDsa, ed(), EDDSA),
    ];
    for (algorithm, parameters, signature) in cases {
        let key = decoding_key_from_jwk(&jwk(None, None, parameters)).unwrap();
        let token = token(algorithm.name(), signature);
        assert!(validate_token_for_role(&role(algorithm, None), &token, Ok(&key)).is_ok());
        let wrong = DecodingKey::Hmac(b"x".to_vec());
        assert!(validate_token_for_role(&role(algorithm, None), &token, Ok(&wrong)).is_err());
    }
}

#[test]
fn refuses_a_key_with_too_few_bytes() {
    let token = token("EdDSA", EDDSA);
    let short = DecodingKey::Ed(vec![0; 31]);
    assert!(!short.usable());
    assert_eq!(
        validate_token_for_role(&role(JwtAlgorithm::EdDsa, None), &token, Ok(&short))
            .unwrap_err()
            .to_string(),
        "validation key for role 'local-ci' is too short"
    );
}

#[test]
fn knows_the_issuer_of_a_cluster() {
    for issuer in [
        "https://kubernetes.default.svc",
        "https://kubernetes.default.svc/",
        "https://kubernetes.default.svc//",
        "https://kubernetes.default.svc.cluster.local",
        "https://kubernetes.default.svc.cluster.local/",
    ] {
        assert!(is_kubernetes_service_issuer(issuer));
    }
    for issuer in [
        "",
        "/",
        "http://kubernetes.default.svc",
        "https://kubernetes.default.svc/x",
        "https://kubernetes.default.svc.other",
    ] {
        assert!(!is_kubernetes_service_issuer(issuer));
    }
}

#[test]
fn builds_the_bearer_header() {
    assert_eq!(bearer_header(" abc.def\n").as_deref(), Some("Bearer abc.def"));
    assert_eq!(bearer_header("a b").as_deref(), Some("Bearer a b"));
    assert_eq!(bearer_header(" \n\t"), None);
    assert_eq!(bearer_header(""), None);
}

#[test]
fn starts_discovery_at_the_issuer() {
    let token = token("RS256", RS256);
    let with_slash = RoleConfig {
        issuer: "https://issuer.example/realm//".to_string(),
        ..role(JwtAlgorithm::Rs256, None)
    };
    let request = start_discovery(&with_slash, &token, JwtAlgorithm::Rs256).unwrap();
    assert_eq!(request.url, "https://issuer.example/realm/.well-known/openid-configuration");
    assert!(!request.in_cluster);
    assert_eq!(request.kid.as_deref(), Some("key-1"));
    assert_eq!(request.algorithm, JwtAlgorithm::Rs256);
    let cluster = RoleConfig {
        issuer: "https://kubernetes.default.svc".to_string(),
        ..role(JwtAlgorithm::Rs256, None)
    };
    assert!(start_discovery(&cluster, &token, JwtAlgorithm::Rs256).unwrap().in_cluster);
    assert_eq!(
        start_discovery(&cluster, "x", JwtAlgorithm::Rs256).unwrap_err().to_string(),
        "failed to decode token header for key discovery"
    );
}

#[test]
fn discovers_a_key_once_and_finds_it_again() {
    let token = token("RS256", RS256);
    let role = role(JwtAlgorithm::Rs256, None);
    let validator = TokenValidator::new(vec![role.clone()]).unwrap();
    assert_eq!(validator.roles_to_discover(&token), vec!["local-ci".to_string()]);
    let mut cache = JwksKeyCache::new(100, 3600);

    let request = start_discovery(&role, &token, JwtAlgorithm::Rs256).unwrap();
    let keys = match request.received(Ok("https://issuer.example/jwks".to_string()), &mut cache, 5) {
        Ok(Discovery::FetchKeys(keys)) => keys,
        other => panic!("{:?}", other),
    };
    assert_eq!(keys.jwks_uri, "https://issuer.example/jwks");
    assert_eq!(keys.kid.as_deref(), Some("key-1"));
    let body = document(&[&rsa_json("key-0"), &rsa_json("key-1")]);
    let key = keys.received(Ok(body), &mut cache, 6).unwrap();
    let discovered = NameMap::from_entries(vec![("local-ci".to_string(), Ok(key))]);
    assert_eq!(validator.validate(&token, &discovered), vec!["local-ci".to_string()]);

    let again = start_discovery(&role, &token, JwtAlgorithm::Rs256).unwrap();
    match again.received(Ok("https://issuer.example/jwks".to_string()), &mut cache, 3605) {
        Ok(Discovery::Found(key)) => {
            assert!(validate_token_for_role(&role, &token, Ok(&key)).is_ok());
        }
        other => panic!("{:?}", other),
    }
    let later = start_discovery(&role, &token, JwtAlgorithm::Rs256).unwrap();
    assert!(matches!(
        later.received(Ok("https://issuer.example/jwks".to_string()), &mut cache, 3606),
        Ok(Discovery::FetchKeys(_))
    ));
    assert!(cache.is_empty());
}

#[test]
fn tells_how_a_request_failed() {
    let token = token("RS256", RS256);
    let role = role(JwtAlgorithm::Rs256, None);
    let mut cache = JwksKeyCache::new(1, 1);
    let url = "https://issuer.example/.well-known/openid-configuration";
    for (failure, message) in [
        (
            FetchFailure::Unreachable,
            format!("failed to fetch OpenID configuration from '{url}'"),
        ),
        (
            FetchFailure::Status,
            format!("OpenID configuration request to '{url}' returned an error status"),
        ),
        (
            FetchFailure::Body,
            format!("failed to parse OpenID configuration from '{url}'"),
        ),
    ] {
        let request = start_discovery(&role, &token, JwtAlgorithm::Rs256).unwrap();
        let error = request.received(Err(failure), &mut cache, 0).unwrap_err();
        assert_eq!(error.to_string(), message);
    }
    for (failure, message) in [
        (FetchFailure::Unreachable, "failed to fetch JWKS from 'https://issuer.example/jwks'"),
        (
            FetchFailure::Status,
            "JWKS request to 'https://issuer.example/jwks' returned an error status",
        ),
        (FetchFailure::Body, "failed to parse JWKS from 'https://issuer.example/jwks'"),
    ] {
        let error = keys_request(None, JwtAlgorithm::Rs256)
            .received(Err(failure), &mut cache, 0)
            .unwrap_err();
        assert_eq!(error.to_string(), message);
    }
    let error = keys_request(None, JwtAlgorithm::Rs256)
        .received(Ok(b"{\"keys\":1}".to_vec()), &mut cache, 0)
        .unwrap_err();
    assert_eq!(error.to_string(), "failed to parse JWKS from 'https://issuer.example/jwks'");
    assert!(cache.is_empty());
}

#[test]
fn reads_a_key_set() {
    let mut cache = JwksKeyCache::new(10, 10);
    let oct = "{\"kty\":\"oct\",\"k\":\"c2hhcmVkLXNlY3JldA\",\"kid\":\"s\"}";
    let ec_key = format!(
        "{{\"kty\":\"EC\",\"crv\":\"P-256\",\"x\":\"{EC_X}\",\"y\":\"{EC_Y}\",\"kid\":\"c\",\"use\":\"enc\"}}"
    );
    let ed_key = format!(
        "{{\"kty\":\"OKP\",\"crv\":\"Ed25519\",\"x\":\"{ED_X}\",\"kid\":\"d\",\"alg\":\"EdDSA\"}}"
    );
    let body = document(&[oct, &ec_key, &ed_key, &rsa_json("r")]);
    let mut fetch = |kid: &str, algorithm: JwtAlgorithm| {
        keys_request(Some(kid), algorithm).received(Ok(body.clone()), &mut cache, 0)
    };
    assert!(matches!(fetch("s", JwtAlgorithm::Hs512), Ok(DecodingKey::Hmac(bytes))
        if bytes == b"shared-secret"));
    assert!(matches!(fetch("r", JwtAlgorithm::Rs256), Ok(DecodingKey::RsaComponents(_, _))));
    assert!(matches!(fetch("d", JwtAlgorithm::EdDsa), Ok(DecodingKey::Ed(_))));
    assert_eq!(
        fetch("c", JwtAlgorithm::Es256).unwrap_err().to_string(),
        "discovered JWK 'c' is not compatible with algorithm 'ES256'"
    );
    assert_eq!(
        fetch("r", JwtAlgorithm::Rs512).unwrap_err().to_string(),
        "discovered JWK 'r' is not compatible with algorithm 'RS512'"
    );
    assert_eq!(
        fetch("r", JwtAlgorithm::Hs256).unwrap_err().to_string(),
        "discovered JWK 'r' is not compatible with algorithm 'HS256'"
    );
    assert_eq!(
        fetch("x", JwtAlgorithm::Rs256).unwrap_err().to_string(),
        "no JWK found for token kid 'x'"
    );
    assert_eq!(cache.recency().len(), 3);
}

#[test]
fn selects_the_key_of_a_token() {
    let none: Option<String> = None;
    let kid = |text: &str| Some(text.to_string());
    let keys = vec![
        jwk(Some("a"), None, ec()),
        jwk(Some("b"), Some("RS256"), rsa()),
        jwk(Some("b"), None, ec()),
        jwk(None, Some("RS384"), rsa()),
    ];
    let select = |kid: &Option<String>, algorithm: JwtAlgorithm| {
        select_jwk_for_token(&keys, kid, algorithm)
    };
    assert_eq!(select(&kid("a"), JwtAlgorithm::Es256).unwrap(), &keys[0]);
    assert_eq!(select(&kid("b"), JwtAlgorithm::Rs256).unwrap(), &keys[1]);
    assert_eq!(
        select(&kid("b"), JwtAlgorithm::Es256).unwrap_err().to_string(),
        "discovered JWK 'b' is not compatible with algorithm 'ES256'"
    );
    assert_eq!(select(&none, JwtAlgorithm::Rs256).unwrap(), &keys[1]);
    assert_eq!(select(&none, JwtAlgorithm::Rs384).unwrap(), &keys[3]);
    assert_eq!(
        select(&none, JwtAlgorithm::Rs512).unwrap_err().to_string(),
        "no compatible JWK found for algorithm 'RS512'"
    );
    assert_eq!(
        select(&none, JwtAlgorithm::Es384).unwrap_err().to_string(),
        "multiple compatible JWKs found for algorithm 'ES384' but the token header did not include a kid"
    );
    assert_eq!(
        select(&kid("c"), JwtAlgorithm::Es384).unwrap_err().to_string(),
        "no JWK found for token kid 'c'"
    );
}

#[test]
fn passes_over_keys_that_are_not_for_signatures() {
    let none: Option<String> = None;
    for key_use in [KeyUse::Encryption, KeyUse::Other("x".to_string())] {
        let keys = vec![Jwk { public_key_use: Some(key_use), ..jwk(None, None, rsa()) }];
        assert!(select_jwk_for_token(&keys, &none, JwtAlgorithm::Rs256).is_err());
    }
    let keys = vec![Jwk { public_key_use: None, ..jwk(None, None, rsa()) }];
    assert!(select_jwk_for_token(&keys, &none, JwtAlgorithm::Rs256).is_ok());
}

#[test]
fn keeps_a_key_that_cannot_be_used() {
    let mut cache = JwksKeyCache::new(10, 10);
    let broken = jwk(Some("key-1"), None, KeyParameters::Rsa("*".to_string(), "*".to_string()));
    let error = keys_request(Some("key-1"), JwtAlgorithm::Rs256)
        .select(&vec![broken], &mut cache, 0)
        .unwrap_err();
    assert_eq!(
        error.to_string(),
        "failed to construct decoding key from discovered JWK 'key-1'"
    );
    assert!(matches!(error, KeyError::DiscoveredKey { .. }));
    let request =
        start_discovery(&role(JwtAlgorithm::Rs256, None), &token("RS256", RS256), JwtAlgorithm::Rs256)
            .unwrap();
    let error = request
        .received(Ok("https://issuer.example/jwks".to_string()), &mut cache, 1)
        .unwrap_err();
    assert_eq!(
        error.to_string(),
        "failed to construct decoding key from cached JWK 'key-1'"
    );
    assert_eq!(
        KeyError::DiscoveredKey { key_id: None }.to_string(),
        "failed to construct decoding key from discovered JWK '<no kid>'"
    );
}
