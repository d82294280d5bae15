use authzoo::config::default_algorithms;
use authzoo::name_map::NameMap;
use authzoo::{ClaimRequirement, DetailedClaimRequirement, JwtAlgorithm, RoleConfig};

fn buildkite_role_with_claims(claims: Vec<(String, ClaimRequirement)>) -> RoleConfig {
    RoleConfig {
        name: "buildkite-release".to_string(),
        issuer: "https://agent.buildkite.com".to_string(),
        audience: "reposnake".to_string(),
        validation_key: Some("shared-secret".to_string()),
        algorithms: vec![JwtAlgorithm::Hs256],
        claims: NameMap::from_entries(claims),
    }
}

fn rejection(role: RoleConfig) -> String {
    role.validate().unwrap_err().to_string()
}

#[test]
fn rejects_empty_claim_requirement_values() {
    let error = buildkite_role_with_claims(vec![(
        "sub".to_string(),
        ClaimRequirement::AnyOf(Vec::new()),
    )])
    .validate()
    .unwrap_err();

    assert_eq!(
        error.to_string(),
        "role 'buildkite-release' claim 'sub' must define at least one acceptable value"
    );
}

#[test]
fn accepts_a_complete_role() {
    let role = buildkite_role_with_claims(vec![
        ("a".to_string(), ClaimRequirement::equals("x")),
        ("b".to_string(), ClaimRequirement::any_of(&["x", "y"])),
    ]);
    assert!(role.validate().is_ok());
    assert!(role.clone().validate().is_ok());
    assert!(buildkite_role_with_claims(Vec::new()).validate().is_ok());
    let discovered = RoleConfig { validation_key: None, ..role };
    assert!(discovered.validate().is_ok());
}

#[test]
fn rejects_each_empty_part_of_a_role() {
    let role = || buildkite_role_with_claims(Vec::new());
    assert_eq!(
        rejection(RoleConfig { name: String::new(), ..role() }),
        "role names must not be empty"
    );
    assert_eq!(
        rejection(RoleConfig { audience: String::new(), ..role() }),
        "role 'buildkite-release' audience must not be empty"
    );
    assert_eq!(
        rejection(RoleConfig { issuer: String::new(), ..role() }),
        "role 'buildkite-release' issuer must not be empty"
    );
    assert_eq!(
        rejection(RoleConfig { validation_key: Some(String::new()), ..role() }),
        "role 'buildkite-release' validation-key must not be empty"
    );
    assert_eq!(
        rejection(RoleConfig { algorithms: Vec::new(), ..role() }),
        "role 'buildkite-release' must allow at least one algorithm"
    );
    assert_eq!(
        rejection(buildkite_role_with_claims(vec![(
            String::new(),
            ClaimRequirement::equals("x"),
        )])),
        "role 'buildkite-release' claim names must not be empty"
    );
}

#[test]
fn rejects_the_first_fault_only() {
    let role = RoleConfig {
        audience: String::new(),
        issuer: String::new(),
        algorithms: Vec::new(),
        ..buildkite_role_with_claims(Vec::new())
    };
    assert_eq!(rejection(role), "role 'buildkite-release' audience must not be empty");
    let claims = buildkite_role_with_claims(vec![
        ("z".to_string(), ClaimRequirement::equals("")),
        ("b".to_string(), ClaimRequirement::any_of(&["x", ""])),
        ("a".to_string(), ClaimRequirement::equals("x")),
    ]);
    assert_eq!(
        rejection(claims),
        "role 'buildkite-release' claim 'b' must define at least one acceptable value"
    );
}

#[test]
fn rejects_requirements_that_accept_the_empty_text() {
    let detailed = |values: Vec<&str>| {
        ClaimRequirement::Detailed(DetailedClaimRequirement {
            any_of: values.iter().map(|value| value.to_string()).collect(),
        })
    };
    assert!(ClaimRequirement::equals("x").validate("role", "claim").is_ok());
    assert!(ClaimRequirement::equals("").validate("role", "claim").is_err());
    assert!(ClaimRequirement::any_of(&["x"]).validate("role", "claim").is_ok());
    assert!(ClaimRequirement::any_of(&["", "x"]).validate("role", "claim").is_err());
    assert!(detailed(vec!["x", "y"]).validate("role", "claim").is_ok());
    assert!(detailed(vec![]).validate("role", "claim").is_err());
    assert_eq!(
        detailed(vec!["x", ""]).validate("role", "claim").unwrap_err().to_string(),
        "role 'role' claim 'claim' must define at least one acceptable value"
    );
}

#[test]
fn requirements_match_their_values() {
    let equals = ClaimRequirement::equals("a");
    assert!(equals.matches(Some("a")));
    assert!(!equals.matches(Some("A")));
    assert!(!equals.matches(Some("")));
    assert!(!equals.matches(None));
    let any_of = ClaimRequirement::any_of(&["a", "b"]);
    assert!(any_of.matches(Some("a")));
    assert!(any_of.matches(Some("b")));
    assert!(!any_of.matches(Some("ab")));
    assert!(!any_of.matches(None));
    assert!(!ClaimRequirement::any_of(&[]).matches(Some("a")));
    let detailed = ClaimRequirement::Detailed(DetailedClaimRequirement {
        any_of: vec!["a".to_string(), "b".to_string()],
    });
    assert!(detailed.matches(Some("b")));
    assert!(!detailed.matches(Some("c")));
    assert!(!detailed.matches(None));
}

#[test]
fn requirements_describe_themselves() {
    assert_eq!(ClaimRequirement::equals("a'b").to_string(), "equals 'a'b'");
    assert_eq!(ClaimRequirement::any_of(&["a", "b\n\""]).to_string(), "one of [\"a\", \"b\\n\\\"\"]");
    assert_eq!(
        ClaimRequirement::Detailed(DetailedClaimRequirement { any_of: vec!["x".to_string()] })
            .to_string(),
        "one of [\"x\"]"
    );
    assert_eq!(ClaimRequirement::any_of(&[]).to_string(), "one of []");
}

#[test]
fn requirements_are_equal_by_their_values() {
    assert_eq!(ClaimRequirement::equals("a"), ClaimRequirement::Equals("a".to_string()));
    assert_eq!(
        ClaimRequirement::any_of(&["a", "b"]),
        ClaimRequirement::AnyOf(vec!["a".to_string(), "b".to_string()])
    );
    assert_eq!(ClaimRequirement::any_of(&["a"]).clone(), ClaimRequirement::any_of(&["a"]));
    assert_ne!(ClaimRequirement::equals("a"), ClaimRequirement::any_of(&["a"]));
}

#[test]
fn algorithms_are_told_by_their_names() {
    let all = [
        (JwtAlgorithm::Hs256, "HS256"),
        (JwtAlgorithm::Hs384, "HS384"),
        (JwtAlgorithm::Hs512, "HS512"),
        (JwtAlgorithm::Rs256, "RS256"),
        (JwtAlgorithm::Rs384, "RS384"),
        (JwtAlgorithm::Rs512, "RS512"),
        (JwtAlgorithm::Ps256, "PS256"),
        (JwtAlgorithm::Ps384, "PS384"),
        (JwtAlgorithm::Ps512, "PS512"),
        (JwtAlgorithm::Es256, "ES256"),
        (JwtAlgorithm::Es384, "ES384"),
        (JwtAlgorithm::EdDsa, "EdDSA"),
    ];
    for (algorithm, name) in all {
        assert_eq!(algorithm.name(), name);
        assert_eq!(JwtAlgorithm::from_name(name), Some(algorithm));
    }
    assert_eq!(JwtAlgorithm::from_name("none"), None);
    assert_eq!(JwtAlgorithm::from_name("hs256"), None);
    assert_eq!(default_algorithms(), vec![JwtAlgorithm::Rs256]);
}

#[test]
fn name_maps_keep_their_order_and_the_last_value() {
    let mut map = NameMap::from_entries(vec![
        ("b".to_string(), 1),
        ("a".to_string(), 2),
        ("b".to_string(), 3),
    ]);
    assert_eq!(map.len(), 2);
    assert_eq!((map.name_at(0).as_str(), *map.value_at(0)), ("a", 2));
    assert_eq!((map.name_at(1).as_str(), *map.value_at(1)), ("b", 3));
    map.insert("".to_string(), 4);
    assert_eq!(map.name_at(0), "");
    assert_eq!(map.get("b"), Some(&3));
    assert_eq!(map.get("c"), None);
    assert_eq!(map.remove("a"), Some(2));
    assert_eq!(map.remove("a"), None);
    assert!(!map.contains_key("a"));
    assert_eq!(map.clone().len(), 2);
}
