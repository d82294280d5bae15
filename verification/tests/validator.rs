use authzoo::claims::ClaimValue;
use authzoo::error::{FetchFailure, KeyError, TokenError};
use authzoo::keys::{resolving_decoding_key, DecodingKey};
use authzoo::name_map::NameMap;
use authzoo::validator::{assumed_roles, judge_decoded, read_header, validate_token_for_role};
use authzoo::{
    AuthzooError, ClaimRequirement, Config, JwtAlgorithm, RoleConfig, TokenValidator,
    ValidatedClaims,
};
use jsonwebtoken::{encode, Algorithm, EncodingKey, Header};
use serde_json::Value;
use std::time::{SystemTime, UNIX_EPOCH};

fn buildkite_role() -> RoleConfig {
    RoleConfig {
        name: "buildkite-release".to_string(),
        issuer: "https://agent.buildkite.com".to_string(),
        audience: "reposnake".to_string(),
        validation_key: Some("shared-secret".to_string()),
        algorithms: vec![JwtAlgorithm::Hs256],
        claims: NameMap::from_entries(vec![
            (
                "organization_slug".to_string(),
                ClaimRequirement::Equals("my-org".to_string()),
            ),
            (
                "pipeline_slug".to_string(),
                ClaimRequirement::Equals("release".to_string()),
            ),
            (
                "sub".to_string(),
                ClaimRequirement::AnyOf(vec!["builder".to_string(), "release-bot".to_string()]),
            ),
        ]),
    }
}

fn in_an_hour() -> u64 {
    SystemTime::now()
        .duration_since(UNIX_EPOCH)
        .unwrap()
        .as_secs()
        + 3600
}

fn claims(subject: &str, organization_slug: &str, pipeline_slug: &str) -> serde_json::Map<String, Value> {
    let mut claims = serde_json::Map::new();
    claims.insert("sub".to_string(), Value::from(subject));
    claims.insert("iss".to_string(), Value::from("https://agent.buildkite.com"));
    claims.insert("aud".to_string(), Value::from("reposnake"));
    claims.insert("exp".to_string(), Value::from(in_an_hour()));
    claims.insert("organization_slug".to_string(), Value::from(organization_slug));
    claims.insert("pipeline_slug".to_string(), Value::from(pipeline_slug));
    claims
}

fn sign(claims: &serde_json::Map<String, Value>) -> String {
    encode(
        &Header::new(Algorithm::HS256),
        claims,
        &EncodingKey::from_secret(b"shared-secret"),
    )
    .unwrap()
}

fn test_token(subject: &str, organization_slug: &str, pipeline_slug: &str) -> String {
    sign(&claims(subject, organization_slug, pipeline_slug))
}

fn with(name: &str, value: Value) -> String {
    let mut claims = claims("builder", "my-org", "release");
    claims.insert(name.to_string(), value);
    sign(&claims)
}

fn without(name: &str) -> String {
    let mut claims = claims("builder", "my-org", "release");
    claims.remove(name);
    sign(&claims)
}

fn assumed(validator: &TokenValidator, token: &str) -> Vec<String> {
    validator.validate(token, &NameMap::new())
}

fn undiscovered() -> Result<&'static DecodingKey, KeyError> {
    Err(KeyError::HeaderForDiscovery)
}

fn refusal(role: &RoleConfig, token: &str) -> AuthzooError {
    validate_token_for_role(role, token, undiscovered()).unwrap_err()
}

#[test]
fn matches_role_when_signature_registered_claims_and_role_claims_match() {
    let validator = TokenValidator::new(vec![buildkite_role()]).unwrap();
    let token = test_token("builder", "my-org", "release");

    assert_eq!(
        assumed(&validator, &token),
        vec!["buildkite-release".to_string()]
    );
}

#[test]
fn omits_role_when_claims_do_not_match() {
    let validator = TokenValidator::new(vec![buildkite_role()]).unwrap();
    let token = test_token("builder", "my-org", "other");

    assert!(assumed(&validator, &token).is_empty());
}

#[test]
fn returns_only_roles_whose_claims_match() {
    let validator = TokenValidator::new(vec![
        RoleConfig {
            name: "other".to_string(),
            claims: NameMap::from_entries(vec![(
                "pipeline_slug".to_string(),
                ClaimRequirement::Equals("other".to_string()),
            )]),
            ..buildkite_role()
        },
        buildkite_role(),
    ])
    .unwrap();
    let token = test_token("builder", "my-org", "release");

    assert_eq!(
        assumed(&validator, &token),
        vec!["buildkite-release".to_string()]
    );
}

#[test]
fn validates_duplicate_role_names() {
    let error = TokenValidator::new(vec![buildkite_role(), buildkite_role()]).unwrap_err();

    assert_eq!(error.to_string(), "duplicate role 'buildkite-release'");
}

#[test]
fn reports_unknown_role_references() {
    let validator = TokenValidator::new(vec![buildkite_role()]).unwrap();

    let error = validator.ensure_roles_exist(&["missing"]).unwrap_err();

    assert_eq!(error.to_string(), "unknown role 'missing'");
}

#[test]
fn accepts_references_to_roles() {
    let validator = TokenValidator::new(vec![buildkite_role()]).unwrap();
    assert!(validator.ensure_roles_exist(&[]).is_ok());
    assert!(validator.ensure_roles_exist(&["buildkite-release"]).is_ok());
    let error = validator
        .ensure_roles_exist(&["buildkite-release", "first", "second"])
        .unwrap_err();
    assert_eq!(error.to_string(), "unknown role 'first'");
}

#[test]
fn builds_a_validator_from_a_configuration() {
    let config = Config {
        roles: vec![
            RoleConfig { name: "b".to_string(), ..buildkite_role() },
            RoleConfig { name: "a".to_string(), ..buildkite_role() },
        ],
    };
    let validator = TokenValidator::try_from(config.clone()).unwrap();
    assert_eq!(validator.roles().len(), 2);
    assert_eq!(validator.roles().name_at(0), "a");
    assert_eq!(validator.roles().value_at(1).name, "b");
    assert_eq!(
        assumed(&validator.clone(), &test_token("release-bot", "my-org", "release")),
        vec!["a".to_string(), "b".to_string()]
    );
    let faulty = Config {
        roles: vec![
            RoleConfig { name: "a".to_string(), ..buildkite_role() },
            RoleConfig { issuer: String::new(), ..buildkite_role() },
            RoleConfig { name: "a".to_string(), ..buildkite_role() },
        ],
    };
    assert_eq!(
        TokenValidator::try_from(faulty).unwrap_err().to_string(),
        "role 'buildkite-release' issuer must not be empty"
    );
    assert!(TokenValidator::new(Vec::new()).is_ok());
}

#[test]
fn the_order_of_the_roles_makes_no_difference() {
    let first = RoleConfig { name: "first".to_string(), ..buildkite_role() };
    let second = RoleConfig { name: "second".to_string(), ..buildkite_role() };
    let token = test_token("builder", "my-org", "release");
    let one = TokenValidator::new(vec![first.clone(), second.clone()]).unwrap();
    let other = TokenValidator::new(vec![second, first]).unwrap();
    assert_eq!(assumed(&one, &token), assumed(&other, &token));
    assert_eq!(assumed(&one, &token).len(), 2);
}

#[test]
fn refuses_a_token_of_another_issuer_or_audience() {
    let role = buildkite_role();
    for token in [
        with("iss", Value::from("https://other.example")),
        with("aud", Value::from("other")),
        with("iss", Value::from(7)),
        with("aud", Value::Array(Vec::new())),
    ] {
        assert!(matches!(
            refusal(&role, &token),
            AuthzooError::TokenValidation { source: TokenError::Invalid(_), .. }
        ));
    }
    assert_eq!(
        refusal(&role, &with("iss", Value::from("https://other.example"))).to_string(),
        "failed to validate token for role 'buildkite-release': InvalidIssuer"
    );
}

#[test]
fn refuses_a_token_without_issuer_audience_or_expiry() {
    let role = buildkite_role();
    for name in ["iss", "aud", "exp"] {
        assert_eq!(
            refusal(&role, &without(name)).to_string(),
            format!(
                "failed to validate token for role 'buildkite-release': Missing required claim: {name}"
            )
        );
    }
}

#[test]
fn a_token_needs_a_subject_only_where_one_is_required() {
    let undemanding = RoleConfig {
        name: "undemanding".to_string(),
        claims: NameMap::new(),
        ..buildkite_role()
    };
    let validator = TokenValidator::new(vec![buildkite_role(), undemanding.clone()]).unwrap();
    for token in [without("sub"), with("sub", Value::from(1))] {
        let claims = validate_token_for_role(&undemanding, &token, undiscovered()).unwrap();
        assert_eq!(claims.subject(), None);
        assert_eq!(claims.claim_value("sub"), None);
        assert!(!claims.claims().contains_key("sub"));
        assert_eq!(
            refusal(&buildkite_role(), &token).to_string(),
            "claim 'sub' must satisfy one of [\"builder\", \"release-bot\"]"
        );
        assert_eq!(assumed(&validator, &token), vec!["undemanding".to_string()]);
    }
}

#[test]
fn lists_the_roles_for_which_the_token_was_accepted() {
    let other = RoleConfig {
        name: "another".to_string(),
        claims: NameMap::from_entries(vec![("x".to_string(), ClaimRequirement::equals("y"))]),
        ..buildkite_role()
    };
    let last = RoleConfig { name: "last".to_string(), ..buildkite_role() };
    let validator =
        TokenValidator::new(vec![last, other.clone(), buildkite_role()]).unwrap();
    let token = test_token("builder", "my-org", "release");
    let outcomes = validator.outcomes(&token, &NameMap::new());
    assert_eq!(outcomes.len(), 3);
    assert_eq!(
        outcomes.get("another").unwrap().as_ref().unwrap_err().to_string(),
        refusal(&other, &token).to_string()
    );
    assert!(outcomes.get("last").unwrap().is_ok());
    assert_eq!(
        assumed_roles(&outcomes),
        vec!["buildkite-release".to_string(), "last".to_string()]
    );
    assert_eq!(assumed_roles(&outcomes), assumed(&validator, &token));
    assert!(assumed_roles(&NameMap::new()).is_empty());
}

#[test]
fn accepts_lists_of_audiences() {
    let token = with(
        "aud",
        Value::Array(vec![Value::from("other"), Value::from("reposnake")]),
    );
    let claims = validate_token_for_role(&buildkite_role(), &token, undiscovered()).unwrap();
    assert_eq!(claims.claim_value("aud"), None);
    assert_eq!(
        claims.claims().get("aud").unwrap().json,
        "[\"other\",\"reposnake\"]"
    );
}

#[test]
fn refuses_an_expired_token() {
    let error = refusal(&buildkite_role(), &with("exp", Value::from(1)));
    assert!(matches!(
        error,
        AuthzooError::TokenValidation { source: TokenError::Expired, .. }
    ));
    assert_eq!(
        error.to_string(),
        "failed to validate token for role 'buildkite-release': ExpiredSignature"
    );
}

#[test]
fn accepts_a_token_that_never_expires() {
    let token = with("exp", Value::from(u64::MAX));
    assert!(validate_token_for_role(&buildkite_role(), &token, undiscovered()).is_ok());
}

#[test]
fn refuses_a_wrong_signature() {
    let token = encode(
        &Header::new(Algorithm::HS256),
        &claims("builder", "my-org", "release"),
        &EncodingKey::from_secret(b"other-secret"),
    )
    .unwrap();
    assert_eq!(
        refusal(&buildkite_role(), &token).to_string(),
        "failed to validate token for role 'buildkite-release': InvalidSignature"
    );
}

#[test]
fn refuses_an_algorithm_that_the_role_does_not_allow() {
    let token = encode(
        &Header::new(Algorithm::HS512),
        &claims("builder", "my-org", "release"),
        &EncodingKey::from_secret(b"shared-secret"),
    )
    .unwrap();
    assert_eq!(
        refusal(&buildkite_role(), &token).to_string(),
        "token algorithm 'HS512' is not allowed for role 'buildkite-release'"
    );
    let both = RoleConfig {
        algorithms: vec![JwtAlgorithm::Hs256, JwtAlgorithm::Hs512],
        ..buildkite_role()
    };
    assert!(validate_token_for_role(&both, &token, undiscovered()).is_ok());
}

#[test]
fn refuses_a_token_that_cannot_be_read() {
    for token in ["", "a.b", "a.b.c", "..."] {
        assert_eq!(
            refusal(&buildkite_role(), token).to_string(),
            "failed to decode token header for role 'buildkite-release'"
        );
        assert!(read_header(token).is_none());
        let validator = TokenValidator::new(vec![buildkite_role()]).unwrap();
        assert!(assumed(&validator, token).is_empty());
        assert!(validator.roles_to_discover(token).is_empty());
    }
}

#[test]
fn reads_the_header_of_a_token() {
    let mut header = Header::new(Algorithm::HS384);
    header.kid = Some("key-7".to_string());
    let token = encode(
        &header,
        &claims("builder", "my-org", "release"),
        &EncodingKey::from_secret(b"x"),
    )
    .unwrap();
    let read = read_header(&token).unwrap();
    assert_eq!(read.algorithm, JwtAlgorithm::Hs384);
    assert_eq!(read.kid.as_deref(), Some("key-7"));
    assert_eq!(read_header(&test_token("a", "b", "c")).unwrap().kid, None);
}

#[test]
fn names_the_first_claim_that_is_not_met() {
    let token = test_token("intruder", "other-org", "release");
    assert_eq!(
        refusal(&buildkite_role(), &token).to_string(),
        "claim 'organization_slug' must satisfy equals 'my-org'"
    );
    assert_eq!(
        refusal(&buildkite_role(), &test_token("intruder", "my-org", "release")).to_string(),
        "claim 'sub' must satisfy one of [\"builder\", \"release-bot\"]"
    );
    assert_eq!(
        refusal(&buildkite_role(), &with("pipeline_slug", Value::from(5))).to_string(),
        "claim 'pipeline_slug' must satisfy equals 'release'"
    );
}

#[test]
fn hands_out_the_claims_of_the_token() {
    let claims =
        validate_token_for_role(&buildkite_role(), &test_token("builder", "my-org", "release"), undiscovered())
            .unwrap();
    assert_eq!(claims.subject(), Some("builder"));
    assert_eq!(claims.clone().subject(), Some("builder"));
    assert_eq!(claims.claim_value("sub"), Some("builder"));
    assert_eq!(claims.claim_value("iss"), Some("https://agent.buildkite.com"));
    assert_eq!(claims.claim_value("pipeline_slug"), Some("release"));
    assert_eq!(claims.claim_value("exp"), None);
    assert!(claims.claims().contains_key("exp"));
    assert_eq!(claims.claim_value("missing"), None);
    assert!(!claims.claims().contains_key("sub"));
    assert_eq!(claims.claims().len(), 5);
    assert_eq!(claims.claims().get("aud").unwrap().json, "\"reposnake\"");
}

#[test]
fn a_role_without_a_key_wants_one_discovered() {
    let discovered = RoleConfig {
        name: "discovered".to_string(),
        validation_key: None,
        ..buildkite_role()
    };
    let other_algorithm = RoleConfig {
        name: "other-algorithm".to_string(),
        validation_key: None,
        algorithms: vec![JwtAlgorithm::Rs256],
        ..buildkite_role()
    };
    let token = test_token("builder", "my-org", "release");
    let validator =
        TokenValidator::new(vec![discovered, other_algorithm, buildkite_role()]).unwrap();
    assert_eq!(validator.roles_to_discover(&token), vec!["discovered".to_string()]);
    assert_eq!(assumed(&validator, &token), vec!["buildkite-release".to_string()]);
    let reason = |outcomes: &NameMap<Result<ValidatedClaims, AuthzooError>>, name: &str| {
        outcomes.get(name).unwrap().as_ref().unwrap_err().to_string()
    };
    assert_eq!(
        reason(&validator.outcomes(&token, &NameMap::new()), "discovered"),
        "no validation key discovered for role 'discovered'"
    );
    let key = |secret: &[u8]| Ok(DecodingKey::Hmac(secret.to_vec()));
    let keys = NameMap::from_entries(vec![("discovered".to_string(), key(b"shared-secret"))]);
    assert_eq!(
        validator.validate(&token, &keys),
        vec!["buildkite-release".to_string(), "discovered".to_string()]
    );
    let wrong = NameMap::from_entries(vec![
        ("discovered".to_string(), key(b"wrong")),
        ("buildkite-release".to_string(), key(b"wrong")),
    ]);
    assert_eq!(
        validator.validate(&token, &wrong),
        vec!["buildkite-release".to_string()]
    );
    let failed = NameMap::from_entries(vec![
        ("discovered".to_string(), Err(KeyError::NoKeyForKid("k".to_string()))),
        ("buildkite-release".to_string(), Err(KeyError::Client)),
    ]);
    assert_eq!(
        validator.validate(&token, &failed),
        vec!["buildkite-release".to_string()]
    );
    assert_eq!(
        reason(&validator.outcomes(&token, &failed), "discovered"),
        "no JWK found for token kid 'k'"
    );
}

#[test]
fn hands_on_the_error_of_a_discovery() {
    let role = RoleConfig { validation_key: None, ..buildkite_role() };
    let token = test_token("builder", "my-org", "release");
    let errors = [
        KeyError::Keys { url: "u".to_string(), failure: FetchFailure::Status },
        KeyError::Configuration { url: "u".to_string(), failure: FetchFailure::Unreachable },
        KeyError::SeveralKeysForAlgorithm(JwtAlgorithm::Hs256),
        KeyError::NoKeyForAlgorithm(JwtAlgorithm::Hs256),
        KeyError::DiscoveredKey { key_id: None },
        KeyError::Client,
        KeyError::Certificate { path: "/ca".to_string() },
        KeyError::Authorization { path: "/token".to_string() },
    ];
    for error in errors {
        let message = error.to_string();
        let handed = resolving_decoding_key(&role, JwtAlgorithm::Hs256, Err(error.clone()));
        assert_eq!(handed.unwrap_err().to_string(), message);
        let refused = validate_token_for_role(&role, &token, Err(error.clone())).unwrap_err();
        assert_eq!(refused.to_string(), message);
        assert!(matches!(
            resolving_decoding_key(&buildkite_role(), JwtAlgorithm::Hs256, Err(error)),
            Ok(DecodingKey::Hmac(secret)) if secret == b"shared-secret"
        ));
    }
    assert_eq!(
        KeyError::Client.to_string(),
        "failed to build HTTP client for validation key discovery"
    );
    assert_eq!(
        KeyError::Certificate { path: "/ca".to_string() }.to_string(),
        "failed to parse Kubernetes CA certificate bundle at '/ca'"
    );
    assert_eq!(
        KeyError::Authorization { path: "/token".to_string() }.to_string(),
        "failed to build Authorization header from Kubernetes token at '/token'"
    );
}

#[test]
fn a_pem_document_is_not_a_shared_secret() {
    let role = RoleConfig {
        validation_key: Some("\n -----BEGIN PUBLIC KEY-----".to_string()),
        ..buildkite_role()
    };
    let token = encode(
        &Header::new(Algorithm::HS256),
        &claims("builder", "my-org", "release"),
        &EncodingKey::from_secret(b"\n -----BEGIN PUBLIC KEY-----"),
    )
    .unwrap();
    let error = refusal(&role, &token);
    assert!(matches!(error, AuthzooError::Other(KeyError::PemForHmac(JwtAlgorithm::Hs256))));
    assert_eq!(
        error.to_string(),
        "refusing to validate HMAC token with PEM validation key; issuer token algorithm was 'HS256'"
    );
}

#[test]
fn judges_what_the_decoder_answers() {
    let role = RoleConfig {
        claims: NameMap::from_entries(vec![("team".to_string(), ClaimRequirement::equals("a"))]),
        ..buildkite_role()
    };
    let entry = |name: &str, text: Option<&str>, json: &str| {
        (name.to_string(), text.map(str::to_string), json.to_string())
    };
    let accepted = judge_decoded(
        &role,
        Ok(vec![
            entry("sub", Some("me"), "\"me\""),
            entry("team", Some("a"), "\"a\""),
        ]),
    )
    .unwrap();
    assert_eq!(accepted.subject(), Some("me"));
    assert!(matches!(
        judge_decoded(&role, Ok(vec![entry("sub", Some("me"), "\"me\"")])),
        Err(AuthzooError::MissingClaim { .. })
    ));
    let nameless = judge_decoded(
        &role,
        Ok(vec![entry("sub", None, "1"), entry("team", Some("a"), "\"a\"")]),
    );
    assert_eq!(nameless.unwrap().subject(), None);
    assert!(matches!(
        judge_decoded(&role, Err("ExpiredSignature".to_string())),
        Err(AuthzooError::TokenValidation { source: TokenError::Expired, .. })
    ));
    assert_eq!(
        judge_decoded(&role, Err("InvalidToken".to_string())).unwrap_err().to_string(),
        "failed to validate token for role 'buildkite-release': InvalidToken"
    );
}

#[test]
fn claims_are_taken_from_a_payload() {
    let value = |text: Option<&str>, json: &str| ClaimValue {
        text: text.map(str::to_string),
        json: json.to_string(),
    };
    let payload = NameMap::from_entries(vec![
        ("sub".to_string(), value(Some("me"), "\"me\"")),
        ("level".to_string(), value(None, "3")),
    ]);
    let claims = ValidatedClaims::from_payload(payload);
    assert_eq!(claims.subject(), Some("me"));
    let required = NameMap::from_entries(vec![
        ("level".to_string(), ClaimRequirement::equals("3")),
        ("alias".to_string(), ClaimRequirement::equals("x")),
        ("sub".to_string(), ClaimRequirement::equals("me")),
    ]);
    let (name, requirement) = claims.first_missing_required_claim(&required).unwrap();
    assert_eq!(name, "alias");
    assert_eq!(*requirement, ClaimRequirement::equals("x"));
    assert!(claims.require_claims(&NameMap::new()).is_ok());
    assert_eq!(
        claims.require_claims(&required).unwrap_err().to_string(),
        "claim 'alias' must satisfy equals 'x'"
    );
    let empty = ValidatedClaims::from_payload(NameMap::new());
    assert_eq!(empty.subject(), None);
    assert_eq!(empty.claims().len(), 0);
}

#[test]
fn each_requirement_counts() {
    let claims =
        validate_token_for_role(&buildkite_role(), &test_token("builder", "my-org", "release"), undiscovered())
            .unwrap();
    let requirement = |name: &str, value: &str| (name.to_string(), ClaimRequirement::equals(value));
    let met = requirement("organization_slug", "my-org");
    let unmet = requirement("pipeline_slug", "other");
    assert!(claims.require_claims(&NameMap::from_entries(vec![met.clone()])).is_ok());
    assert!(claims.require_claims(&NameMap::from_entries(vec![unmet.clone()])).is_err());
    assert!(claims.require_claims(&NameMap::from_entries(vec![met, unmet])).is_err());
}

#[test]
fn a_role_that_demands_less_is_assumed_too() {
    let fewer = RoleConfig {
        name: "fewer".to_string(),
        claims: NameMap::from_entries(vec![(
            "organization_slug".to_string(),
            ClaimRequirement::equals("my-org"),
        )]),
        ..buildkite_role()
    };
    let none = RoleConfig { name: "none".to_string(), claims: NameMap::new(), ..buildkite_role() };
    let validator = TokenValidator::new(vec![buildkite_role(), fewer, none]).unwrap();
    assert_eq!(
        assumed(&validator, &test_token("builder", "my-org", "release")),
        vec!["buildkite-release".to_string(), "fewer".to_string(), "none".to_string()]
    );
    assert_eq!(
        assumed(&validator, &test_token("builder", "my-org", "other")),
        vec!["fewer".to_string(), "none".to_string()]
    );
    assert_eq!(
        assumed(&validator, &test_token("builder", "other", "release")),
        vec!["none".to_string()]
    );
}
