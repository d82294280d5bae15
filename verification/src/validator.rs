//! Which roles can the bearer of a token assume?

use crate::claims::{
    claim_views, claims_of_payload, unmet_claim_error, ClaimValue, ClaimsView, ValidatedClaims,
};
use crate::config::{
    name_tells_algorithm, ClaimRequirement, Config, JwtAlgorithm, RoleConfig,
};
use crate::decoder::{
    answers_come_from_calls, decode_header, decode_token, decoder_answers, payload_of, required_claims, token_header, verified_token,
    VerifiedToken,
};
use crate::error::{AuthzooError, KeyError, TokenError};
use crate::jwk::KeyFamily;
use crate::keys::{
    key_view, pem_is_no_secret, pem_like, resolving_decoding_key, role_key,
    DecodingKey, KeyView,
};
use crate::name_map::{ascending, NameMap};
use crate::text::{same_text, text_lt};
use vstd::prelude::*;

verus! {

/// What the header of a token says of its signature.
#[derive(Debug)]
pub struct TokenHeader {
    /// The algorithm that it was made with.
    pub algorithm: JwtAlgorithm,
    /// The id of the key that it was made with.
    pub kid: Option<String>,
}

/// The algorithm that the header of a token names.
pub open spec fn header_algorithm(token: Seq<char>) -> Option<JwtAlgorithm> {
    match token_header(token) {
        Some((name, _)) => JwtAlgorithm::named(name),
        None => None,
    }
}

/// The key id that the header of a token gives.
pub open spec fn header_kid(token: Seq<char>) -> Option<Seq<char>> {
    match token_header(token) {
        Some((_, kid)) => kid,
        None => None,
    }
}

/// Reads the header of a token.
pub fn read_header(token: &str) -> (r: Option<TokenHeader>)
    ensures
        match r {
            Some(header) => header_algorithm(token@) == Some(header.algorithm) && header_kid(token@)
                == header.kid.deep_view(),
            None => header_algorithm(token@) is None,
        },
{
    match decode_header(token) {
        Some((name, kid)) => match JwtAlgorithm::from_name(name.as_str()) {
            Some(algorithm) => Some(TokenHeader { algorithm, kid }),
            None => None,
        },
        None => None,
    }
}

/// What the decoder reads in the token when it is held against the role: the
/// role allows the token's algorithm, there is a key, and the signature is right
/// under it.
pub open spec fn verified_for(
    role: RoleConfig,
    token: Seq<char>,
    discovered: Result<KeyView, KeyError>,
) -> Option<VerifiedToken> {
    match header_algorithm(token) {
        Some(algorithm) => if role.algorithms@.contains(algorithm) {
            match role_key(role, algorithm, discovered) {
                Ok(key) => if key.usable() {
                    verified_token(token, algorithm.spec_name(), key)
                } else {
                    None
                },
                Err(_) => None,
            }
        } else {
            None
        },
        None => None,
    }
}

/// The claims of the token, if it satisfies the issuer, the audience, the
/// signature and the claim requirements of the role.
pub open spec fn assumable(
    role: RoleConfig,
    token: Seq<char>,
    discovered: Result<KeyView, KeyError>,
) -> Option<ClaimsView> {
    match verified_for(role, token, discovered) {
        Some(v) => if v.names(role.audience@, role.issuer@) && claims_of_payload(v.claims).satisfy(
            role.claims@,
        ) {
            Some(claims_of_payload(v.claims))
        } else {
            None
        },
        None => None,
    }
}

/// The token expires at the last second that a clock can show.
pub open spec fn lasting(
    role: RoleConfig,
    token: Seq<char>,
    discovered: Result<KeyView, KeyError>,
) -> bool {
    verified_for(role, token, discovered) matches Some(v) && v.never_expires()
}

/// The key of the role is of the kind that the token's algorithm takes.
pub open spec fn key_serves_algorithm(
    role: RoleConfig,
    token: Seq<char>,
    discovered: Result<KeyView, KeyError>,
) -> bool {
    header_algorithm(token) matches Some(algorithm) && (role_key(role, algorithm, discovered) matches
        Ok(key) && key.family() == algorithm.spec_family())
}

/// `e` tells why the bearer of the token cannot assume the role.
pub open spec fn refusal(
    role: RoleConfig,
    token: Seq<char>,
    discovered: Result<KeyView, KeyError>,
    e: AuthzooError,
) -> bool {
    match header_algorithm(token) {
        None => e == AuthzooError::Other(KeyError::HeaderForRole(role.name)),
        Some(algorithm) => if !role.algorithms@.contains(algorithm) {
            e == (AuthzooError::AlgorithmNotAllowed { role: role.name, algorithm })
        } else {
            match role_key(role, algorithm, discovered) {
                Err(missing) => e == AuthzooError::Other(missing),
                Ok(key) => if !key.usable() {
                    e == AuthzooError::Other(KeyError::ShortKey(role.name))
                } else {
                    match e {
                        AuthzooError::TokenValidation { role: name, source } => name == role.name
                            && token_refusal(role, verified_for(role, token, discovered), source),
                        _ => claims_refusal(role, verified_for(role, token, discovered), e),
                    }
                },
            }
        },
    }
}

/// `e` tells which requirement of the role the claims do not meet.
pub open spec fn claims_refusal(
    role: RoleConfig,
    verified: Option<VerifiedToken>,
    e: AuthzooError,
) -> bool {
    &&& verified matches Some(v)
    &&& v.names(role.audience@, role.issuer@)
    &&& unmet_claim_error(claims_of_payload(v.claims), role.claims@, e)
}

/// `e` tells why the decoder does not accept the token.
pub open spec fn token_refusal(
    role: RoleConfig,
    verified: Option<VerifiedToken>,
    e: TokenError,
) -> bool {
    match e {
        TokenError::Expired => verified matches Some(v) && !v.never_expires(),
        TokenError::Invalid(_) => !(verified matches Some(v) && v.names(
            role.audience@,
            role.issuer@,
        )),
    }
}

/// The claims that the decoder hands over, by name.
fn payload_from(entries: Vec<(String, Option<String>, String)>) -> (r: NameMap<ClaimValue>)
    ensures
        claim_views(r@) == payload_of(entries@),
{
    let mut r: NameMap<ClaimValue> = NameMap::new();
    proof {
        assert(entries@.take(0) =~= Seq::<(String, Option<String>, String)>::empty());
        assert(claim_views(r@) =~= payload_of(entries@.take(0)));
    }
    for entry in it: entries
        invariant
            it.seq() == entries@,
            claim_views(r@) == payload_of(entries@.take(it.index())),
    {
        let ghost before = r@;
        proof {
            let n = it.index();
            assert(entries@.take(n + 1).drop_last() =~= entries@.take(n));
            assert(entries@.take(n + 1).last() == entries@[n]);
        }
        let value = ClaimValue { text: entry.1, json: entry.2 };
        r.insert(entry.0, value);
        proof {
            assert(claim_views(r@) =~= claim_views(before).insert(entry.0@, value@));
        }
    }
    proof {
        assert(entries@.take(entries@.len() as int) =~= entries@);
    }
    r
}

/// `r` is what the answer of the decoder comes to for the role: the claims, if it
/// accepted the token and they meet the role's requirements, or why not.
pub open spec fn judgement(
    role: RoleConfig,
    decoded: Result<Vec<(String, Option<String>, String)>, String>,
    r: Result<ValidatedClaims, AuthzooError>,
) -> bool {
    match decoded {
        Ok(entries) => {
            let claims = claims_of_payload(payload_of(entries@));
            match r {
                Ok(validated) => validated@ == claims && claims.satisfy(role.claims@),
                Err(e) => !claims.satisfy(role.claims@) && unmet_claim_error(
                    claims,
                    role.claims@,
                    e,
                ),
            }
        },
        Err(reason) => r == Err::<ValidatedClaims, AuthzooError>(
            AuthzooError::TokenValidation {
                role: role.name,
                source: if reason@ == "ExpiredSignature"@ {
                    TokenError::Expired
                } else {
                    TokenError::Invalid(reason)
                },
            },
        ),
    }
}

/// Judges what the decoder answered for a role: the claims, if it accepted the
/// token and they meet the role's requirements.
pub fn judge_decoded(
    role: &RoleConfig,
    decoded: Result<Vec<(String, Option<String>, String)>, String>,
) -> (r: Result<ValidatedClaims, AuthzooError>)
    ensures
        judgement(*role, decoded, r),
{
    match decoded {
        Ok(entries) => {
            let claims = ValidatedClaims::from_payload(payload_from(entries));
            match claims.require_claims(&role.claims) {
                Ok(()) => Ok(claims),
                Err(e) => Err(e),
            }
        },
        Err(reason) => {
            let source = if same_text(reason.as_str(), "ExpiredSignature") {
                TokenError::Expired
            } else {
                TokenError::Invalid(reason)
            };
            Err(AuthzooError::TokenValidation { role: role.name.clone(), source })
        },
    }
}

/// The names of the registered claims that every token must have.
fn required_claim_names() -> (r: Vec<String>)
    ensures
        r.deep_view() == required_claims(),
{
    let mut r: Vec<String> = Vec::new();
    r.push("exp".to_string());
    r.push("iss".to_string());
    r.push("aud".to_string());
    proof {
        assert(r.deep_view() =~= required_claims());
    }
    r
}

/// Where the token gets as far as the decoder, `r` is what an answer of the
/// decoder comes to.
pub open spec fn decoder_decides(
    role: RoleConfig,
    token: Seq<char>,
    discovered: Result<KeyView, KeyError>,
    r: Result<ValidatedClaims, AuthzooError>,
) -> bool {
    match header_algorithm(token) {
        Some(algorithm) => match role_key(role, algorithm, discovered) {
            Ok(key) => role.algorithms@.contains(algorithm) && key.usable() ==> exists|
                answer: Result<Vec<(String, Option<String>, String)>, String>,
            | #[trigger]
                judgement(role, answer, r) && decoder_answers(
                    token,
                    algorithm.spec_name(),
                    key,
                    role.audience@,
                    role.issuer@,
                    answer,
                ),
            Err(_) => true,
        },
        None => true,
    }
}

/// `r` is what may come of holding a token against a role: the claims, if the
/// token satisfies the role, or why it does not. A token that satisfies the role
/// is refused only because it has expired, and whether it has is for the decoder
/// to say: what it answers decides.
pub open spec fn outcome(
    role: RoleConfig,
    token: Seq<char>,
    discovered: Result<KeyView, KeyError>,
    r: Result<ValidatedClaims, AuthzooError>,
) -> bool {
    &&& match r {
        Ok(claims) => {
            &&& assumable(role, token, discovered) == Some(claims@)
            &&& claims@.claims_no_text("exp"@)
            &&& claims@.claims_only("iss"@, role.issuer@)
            &&& claims@.claims_only("aud"@, role.audience@)
            &&& key_serves_algorithm(role, token, discovered)
        },
        Err(e) => refusal(role, token, discovered, e),
    }
    &&& assumable(role, token, discovered) is Some && lasting(role, token, discovered) ==> r is Ok
    &&& decoder_decides(role, token, discovered, r)
}

/// Holds a token against a role. A role without a configured key takes what came
/// of the discovery of one.
pub fn validate_token_for_role(
    role: &RoleConfig,
    token: &str,
    discovered: Result<&DecodingKey, KeyError>,
) -> (r: Result<ValidatedClaims, AuthzooError>)
    ensures
        outcome(*role, token@, key_view(discovered), r),
{
    let algorithm = match read_header(token) {
        Some(header) => header.algorithm,
        None => {
            return Err(AuthzooError::Other(KeyError::HeaderForRole(role.name.clone())));
        },
    };
    if !role.allows_algorithm(algorithm) {
        return Err(AuthzooError::AlgorithmNotAllowed { role: role.name.clone(), algorithm });
    }
    let key = match resolving_decoding_key(role, algorithm, discovered) {
        Ok(key) => key,
        Err(e) => {
            return Err(AuthzooError::Other(e));
        },
    };
    if !key.usable() {
        return Err(AuthzooError::Other(KeyError::ShortKey(role.name.clone())));
    }
    proof {
        name_tells_algorithm(algorithm);
    }
    let name = algorithm.name();
    let audience = role.audience.as_str();
    let issuer = role.issuer.as_str();
    let required = required_claim_names();
    let decoded = decode_token(token, &key, name, audience, issuer, &required);
    proof {
        answers_come_from_calls(token, &key, name, audience, issuer, &required, decoded);
        reveal_strlit("sub");
        reveal_strlit("exp");
        reveal_strlit("iss");
        reveal_strlit("aud");
        assert("sub"@[0] == 's' && "exp"@[0] == 'e' && "iss"@[0] == 'i' && "aud"@[0] == 'a');
    }
    judge_decoded(role, decoded)
}

/// The role at `i` cannot be accepted: it is not valid, or its name has been
/// given to a role before it.
pub open spec fn faulty(roles: Seq<RoleConfig>, i: int) -> bool {
    !roles[i].valid() || exists|j: int| 0 <= j < i && #[trigger] roles[j].name@ == roles[i].name@
}

/// The role at `i` is the first that cannot be accepted, and `e` tells why.
pub open spec fn first_fault(roles: Seq<RoleConfig>, i: int, e: AuthzooError) -> bool {
    &&& 0 <= i < roles.len()
    &&& faulty(roles, i)
    &&& forall|j: int| 0 <= j < i ==> !#[trigger] faulty(roles, j)
    &&& if roles[i].valid() {
        e == AuthzooError::DuplicateRole(roles[i].name)
    } else {
        roles[i].rejected_with(e)
    }
}

/// The map holds the roles by their names, and nothing else.
pub open spec fn holds_by_name(by_name: Map<Seq<char>, RoleConfig>, roles: Seq<RoleConfig>) -> bool {
    &&& forall|i: int|
        0 <= i < roles.len() ==> by_name.contains_key((#[trigger] roles[i]).name@)
            && by_name[roles[i].name@] == roles[i]
    &&& forall|name: Seq<char>| #[trigger]
        by_name.contains_key(name) ==> exists|i: int|
            0 <= i < roles.len() && #[trigger] roles[i].name@ == name
}

/// The name at `i` is that of a role.
pub open spec fn known(roles: Map<Seq<char>, RoleConfig>, names: Seq<&str>, i: int) -> bool {
    roles.contains_key(names[i]@)
}

/// Every one of the names is that of a role.
pub open spec fn all_known(roles: Map<Seq<char>, RoleConfig>, names: Seq<&str>) -> bool {
    forall|i: int| 0 <= i < names.len() ==> #[trigger] known(roles, names, i)
}

/// Every role stands under its own name and is valid.
pub open spec fn sound_roles(by_name: Map<Seq<char>, RoleConfig>) -> bool {
    forall|name: Seq<char>| #[trigger]
        by_name.contains_key(name) ==> by_name[name].name@ == name && by_name[name].valid()
}

/// Answers which roles a token can assume.
#[derive(Debug)]
pub struct TokenValidator {
    roles: NameMap<RoleConfig>,
}

impl View for TokenValidator {
    type V = Map<Seq<char>, RoleConfig>;

    closed spec fn view(&self) -> Map<Seq<char>, RoleConfig> {
        self.roles@
    }
}

impl TokenValidator {
    #[verifier::type_invariant]
    spec fn sound(&self) -> bool {
        sound_roles(self.roles@)
    }

    /// A validator for the roles, unless one of them is not valid or has the
    /// name of another.
    pub fn new(roles: Vec<RoleConfig>) -> (r: Result<Self, AuthzooError>)
        ensures
            r is Ok <==> forall|i: int| 0 <= i < roles@.len() ==> !#[trigger] faulty(roles@, i),
            match r {
                Ok(validator) => holds_by_name(validator@, roles@),
                Err(e) => exists|i: int| #[trigger] first_fault(roles@, i, e),
            },
    {
        let mut by_name: NameMap<RoleConfig> = NameMap::new();
        for role in it: roles
            invariant
                it.seq() == roles@,
                forall|j: int| 0 <= j < it.index() ==> !#[trigger] faulty(roles@, j),
                holds_by_name(by_name@, roles@.take(it.index())),
                sound_roles(by_name@),
        {
            let ghost n = it.index();
            let ghost before = by_name@;
            proof {
                assert(roles@[n] == role);
            }
            match role.validate() {
                Ok(()) => {},
                Err(e) => {
                    proof {
                        assert(first_fault(roles@, n, e));
                    }
                    return Err(e);
                },
            }
            if by_name.contains_key(role.name.as_str()) {
                proof {
                    let i = choose|i: int|
                        0 <= i < n && #[trigger] roles@.take(n)[i].name@ == role.name@;
                    assert(roles@[i].name@ == role.name@);
                    assert(faulty(roles@, n));
                    assert(first_fault(roles@, n, AuthzooError::DuplicateRole(role.name)));
                }
                return Err(AuthzooError::DuplicateRole(role.name));
            }
            let name = role.name.clone();
            by_name.insert(name, role);
            proof {
                let head = roles@.take(n);
                let longer = roles@.take(n + 1);
                assert forall|i: int| 0 <= i < longer.len() implies by_name@.contains_key(
                    (#[trigger] longer[i]).name@,
                ) && by_name@[longer[i].name@] == longer[i] by {
                    if i < n {
                        assert(head[i] == longer[i]);
                        assert(before.contains_key(head[i].name@));
                    }
                }
                assert forall|name: Seq<char>| #[trigger] by_name@.contains_key(name) implies exists|
                    i: int,
                |
                    0 <= i < longer.len() && #[trigger] longer[i].name@ == name by {
                    if before.contains_key(name) {
                        let i = choose|i: int|
                            0 <= i < head.len() && #[trigger] head[i].name@ == name;
                        assert(longer[i].name@ == name);
                    } else {
                        assert(longer[n].name@ == name);
                    }
                }
                assert(!faulty(roles@, n)) by {
                    if exists|j: int| 0 <= j < n && #[trigger] roles@[j].name@ == roles@[n].name@ {
                        let j = choose|j: int|
                            0 <= j < n && #[trigger] roles@[j].name@ == roles@[n].name@;
                        assert(head[j] == roles@[j]);
                        assert(before.contains_key(head[j].name@));
                    }
                }
            }
        }
        proof {
            assert(roles@.take(roles@.len() as int) =~= roles@);
        }
        Ok(TokenValidator { roles: by_name })
    }

    /// The roles by name.
    pub fn roles(&self) -> (r: &NameMap<RoleConfig>)
        ensures
            r@ == self@,
            sound_roles(r@),
    {
        proof {
            use_type_invariant(self);
        }
        &self.roles
    }

    /// Demands that every one of the names is that of a role.
    pub fn ensure_roles_exist(&self, role_names: &[&str]) -> (r: Result<(), AuthzooError>)
        ensures
            r is Ok <==> all_known(self@, role_names@),
            r matches Err(e) ==> exists|i: int|
                0 <= i < role_names@.len() && !#[trigger] known(self@, role_names@, i) && (forall|
                    j: int,
                |
                    0 <= j < i ==> #[trigger] known(self@, role_names@, j)) && (e matches
                    AuthzooError::UnknownRole(name) && name@ == role_names@[i]@),
    {
        let mut i: usize = 0;
        while i < role_names.len()
            invariant
                i <= role_names@.len(),
                forall|j: int| 0 <= j < i ==> #[trigger] known(self@, role_names@, j),
            decreases role_names@.len() - i,
        {
            proof {
                assert(known(self@, role_names@, i as int) == self@.contains_key(
                    role_names@[i as int]@,
                ));
            }
            if !self.roles.contains_key(role_names[i]) {
                return Err(AuthzooError::UnknownRole(role_names[i].to_string()));
            }
            i = i + 1;
        }
        Ok(())
    }
}

/// What came of the discovery of a key for the role.
pub open spec fn discovery_of(
    discovered: Map<Seq<char>, Result<DecodingKey, KeyError>>,
    role: RoleConfig,
) -> Result<KeyView, KeyError> {
    if discovered.contains_key(role.name@) {
        match discovered[role.name@] {
            Ok(key) => Ok(key@),
            Err(e) => Err(e),
        }
    } else {
        Err(KeyError::NotDiscovered(role.name))
    }
}

/// There is a role of that name, and the token satisfies its issuer, audience,
/// signature and claim requirements.
pub open spec fn can_assume(
    roles: Map<Seq<char>, RoleConfig>,
    name: Seq<char>,
    token: Seq<char>,
    discovered: Map<Seq<char>, Result<DecodingKey, KeyError>>,
) -> bool {
    roles.contains_key(name) && assumable(
        roles[name],
        token,
        discovery_of(discovered, roles[name]),
    ) is Some
}

/// There is a role of that name whose key has to be discovered before the token
/// can be held against it.
pub open spec fn wants_key(
    roles: Map<Seq<char>, RoleConfig>,
    name: Seq<char>,
    token: Seq<char>,
) -> bool {
    &&& roles.contains_key(name)
    &&& roles[name].validation_key is None
    &&& header_algorithm(token) matches Some(algorithm)
    &&& roles[name].algorithms@.contains(algorithm)
}

/// A name behind those of an ascending list keeps the list ascending, and is all
/// that the longer list holds besides.
proof fn push_ascending(names: Vec<String>, name: String, longer: Vec<String>)
    requires
        ascending(names.deep_view()),
        longer@ == names@.push(name),
        forall|k: int| 0 <= k < names@.len() ==> text_lt(#[trigger] names@[k]@, name@),
    ensures
        ascending(longer.deep_view()),
        forall|x: Seq<char>| #[trigger]
            longer.deep_view().contains(x) <==> names.deep_view().contains(x) || x == name@,
{
    let before = names.deep_view();
    let after = longer.deep_view();
    assert(after =~= before.push(name@));
    assert forall|i: int, j: int| 0 <= i < j < after.len() implies text_lt(
        #[trigger] after[i],
        #[trigger] after[j],
    ) by {
        if j < before.len() {
            assert(after[i] == before[i] && after[j] == before[j]);
        } else {
            assert(after[i] == names@[i]@);
        }
    }
    assert forall|x: Seq<char>| #[trigger] after.contains(x) <==> before.contains(x) || x
        == name@ by {
        assert(after[before.len() as int] == name@);
        if before.contains(x) {
            let k = before.index_of(x);
            assert(after[k] == x);
        }
        if after.contains(x) {
            let k = after.index_of(x);
            if k < before.len() {
                assert(before[k] == x);
            }
        }
    }
}

/// Every role has an outcome, and nothing else has.
pub open spec fn judged(
    roles: Map<Seq<char>, RoleConfig>,
    token: Seq<char>,
    discovered: Map<Seq<char>, Result<DecodingKey, KeyError>>,
    outcomes: Map<Seq<char>, Result<ValidatedClaims, AuthzooError>>,
) -> bool {
    &&& outcomes.dom() == roles.dom()
    &&& forall|name: Seq<char>| #[trigger]
        outcomes.contains_key(name) ==> outcome(
            roles[name],
            token,
            discovery_of(discovered, roles[name]),
            outcomes[name],
        )
}

/// The list holds the names whose outcome is a success, in ascending order, and
/// no others.
pub open spec fn lists_accepted(
    list: Seq<Seq<char>>,
    outcomes: Map<Seq<char>, Result<ValidatedClaims, AuthzooError>>,
) -> bool {
    &&& ascending(list)
    &&& forall|name: Seq<char>| #[trigger]
        list.contains(name) <==> outcomes.contains_key(name) && outcomes[name] is Ok
}

/// The names whose outcome is a success, in ascending order.
pub fn assumed_roles(outcomes: &NameMap<Result<ValidatedClaims, AuthzooError>>) -> (r: Vec<String>)
    ensures
        lists_accepted(r.deep_view(), outcomes@),
{
    let mut r: Vec<String> = Vec::new();
    let n: usize = outcomes.len();
    let ghost names = outcomes.names();
    let mut i: usize = 0;
    while i < n
        invariant
            i <= n,
            names == outcomes.names(),
            n == names.len(),
            outcomes.listed(),
            ascending(r.deep_view()),
            forall|k: int, j: int|
                0 <= k < r@.len() && i <= j < n ==> text_lt(
                    (#[trigger] r@[k])@,
                    #[trigger] names[j],
                ),
            forall|name: Seq<char>| #[trigger]
                r.deep_view().contains(name) ==> outcomes@.contains_key(name)
                    && outcomes@[name] is Ok,
            forall|j: int|
                0 <= j < i && outcomes@[#[trigger] names[j]] is Ok ==> r.deep_view().contains(
                    names[j],
                ),
        decreases n - i,
    {
        let name = outcomes.name_at(i);
        if outcomes.value_at(i).is_ok() {
            let ghost before = r;
            r.push(name.clone());
            proof {
                push_ascending(before, r@.last(), r);
            }
        }
        i = i + 1;
    }
    proof {
        assert forall|name: Seq<char>| outcomes@.contains_key(name)
            && outcomes@[name] is Ok implies #[trigger] r.deep_view().contains(name) by {
            assert(names.contains(name));
            let j = names.index_of(name);
            assert(names[j] == name);
        }
    }
    r
}

impl TokenValidator {
    /// What comes of holding the token against each role, by the role's name.
    pub fn outcomes(&self, token: &str, discovered: &NameMap<Result<DecodingKey, KeyError>>) -> (r: NameMap<
        Result<ValidatedClaims, AuthzooError>,
    >)
        ensures
            judged(self@, token@, discovered@, r@),
    {
        let mut r: NameMap<Result<ValidatedClaims, AuthzooError>> = NameMap::new();
        let n: usize = self.roles.len();
        let ghost names = self.roles.names();
        let mut i: usize = 0;
        while i < n
            invariant
                i <= n,
                names == self.roles.names(),
                n == names.len(),
                self.roles.listed(),
                forall|name: Seq<char>| #[trigger]
                    r@.contains_key(name) ==> self@.contains_key(name) && outcome(
                        self@[name],
                        token@,
                        discovery_of(discovered@, self@[name]),
                        r@[name],
                    ),
                forall|j: int| 0 <= j < i ==> r@.contains_key(#[trigger] names[j]),
            decreases n - i,
        {
            let name = self.roles.name_at(i);
            let role = self.roles.value_at(i);
            let found = match discovered.get(role.name.as_str()) {
                Some(Ok(key)) => Ok(key),
                Some(Err(e)) => Err(e.clone()),
                None => Err(KeyError::NotDiscovered(role.name.clone())),
            };
            let result = validate_token_for_role(role, token, found);
            r.insert(name.clone(), result);
            i = i + 1;
        }
        proof {
            assert forall|name: Seq<char>| #[trigger]
                r@.dom().contains(name) <==> self@.dom().contains(name) by {
                assert(r@.contains_key(name) == r@.dom().contains(name));
                assert(self@.contains_key(name) == self@.dom().contains(name));
                if self@.contains_key(name) {
                    assert(names.contains(name));
                    let j = names.index_of(name);
                    assert(names[j] == name);
                }
            }
            assert(r@.dom() =~= self@.dom());
        }
        r
    }

    /// The names of the roles that the token can assume, in ascending order.
    /// A role without a configured key is judged by what came of the discovery of
    /// one, given under the role's name. A token that satisfies a role may still have expired.
    pub fn validate(&self, token: &str, discovered: &NameMap<Result<DecodingKey, KeyError>>) -> (r: Vec<String>)
        ensures
            exists|outcomes: Map<Seq<char>, Result<ValidatedClaims, AuthzooError>>| #[trigger]
                judged(self@, token@, discovered@, outcomes) && lists_accepted(
                    r.deep_view(),
                    outcomes,
                ),
            ascending(r.deep_view()),
            forall|name: Seq<char>| #[trigger]
                r.deep_view().contains(name) ==> can_assume(self@, name, token@, discovered@),
            forall|name: Seq<char>| #[trigger]
                can_assume(self@, name, token@, discovered@) && lasting(
                    self@[name],
                    token@,
                    discovery_of(discovered@, self@[name]),
                ) ==> r.deep_view().contains(name),
    {
        let outcomes = self.outcomes(token, discovered);
        let r = assumed_roles(&outcomes);
        proof {
            assert forall|name: Seq<char>| self@.contains_key(name) == #[trigger] outcomes@.contains_key(
                name,
            ) by {
                assert(self@.contains_key(name) == self@.dom().contains(name));
                assert(outcomes@.contains_key(name) == outcomes@.dom().contains(name));
            }
        }
        r
    }

    /// The names of the roles whose keys have to be discovered before the token
    /// can be held against them, in ascending order.
    pub fn roles_to_discover(&self, token: &str) -> (r: Vec<String>)
        ensures
            ascending(r.deep_view()),
            forall|name: Seq<char>| #[trigger]
                r.deep_view().contains(name) <==> wants_key(self@, name, token@),
    {
        let mut r: Vec<String> = Vec::new();
        let algorithm = match read_header(token) {
            Some(header) => header.algorithm,
            None => {
                proof {
                    assert(r.deep_view().len() == 0);
                }
                return r;
            },
        };
        let n: usize = self.roles.len();
        let ghost names = self.roles.names();
        let mut i: usize = 0;
        while i < n
            invariant
                i <= n,
                names == self.roles.names(),
                n == names.len(),
                self.roles.listed(),
                header_algorithm(token@) == Some(algorithm),
                ascending(r.deep_view()),
                forall|k: int, j: int|
                    0 <= k < r@.len() && i <= j < n ==> text_lt(
                        (#[trigger] r@[k])@,
                        #[trigger] names[j],
                    ),
                forall|name: Seq<char>| #[trigger]
                    r.deep_view().contains(name) ==> wants_key(self@, name, token@),
                forall|j: int|
                    0 <= j < i && wants_key(self@, #[trigger] names[j], token@)
                        ==> r.deep_view().contains(names[j]),
            decreases n - i,
        {
            let name = self.roles.name_at(i);
            let role = self.roles.value_at(i);
            let ghost before = r;
            if role.validation_key.is_none() && role.allows_algorithm(algorithm) {
                r.push(name.clone());
                proof {
                    push_ascending(before, r@.last(), r);
                }
            }
            i = i + 1;
        }
        proof {
            assert forall|name: Seq<char>| wants_key(
                self@,
                name,
                token@,
            ) implies #[trigger] r.deep_view().contains(name) by {
                assert(names.contains(name));
                let j = names.index_of(name);
                assert(names[j] == name);
            }
        }
        r
    }
}

impl Clone for TokenValidator {
    fn clone(&self) -> (r: Self)
        ensures
            r@.dom() == self@.dom(),
            forall|name: Seq<char>| #[trigger]
                r@.contains_key(name) ==> r@[name].same_as(self@[name]),
    {
        proof {
            use_type_invariant(self);
        }
        let roles = self.roles.clone();
        proof {
            assert forall|name: Seq<char>| #[trigger] roles@.contains_key(name) implies roles@[name].name@
                == name && roles@[name].valid() by {
                assert(self.roles@.contains_key(name));
                same_roles_valid(roles@[name], self.roles@[name]);
            }
        }
        TokenValidator { roles }
    }
}

/// A role that holds the same as a valid one is valid.
proof fn same_roles_valid(a: RoleConfig, b: RoleConfig)
    requires
        a.same_as(b),
        b.valid(),
    ensures
        a.valid(),
{
    assert forall|claim: Seq<char>| !#[trigger] a.faulty_claim(claim) by {
        assert(!b.faulty_claim(claim));
        assert(a.claims@.contains_key(claim) == a.claims@.dom().contains(claim));
        assert(b.claims@.contains_key(claim) == b.claims@.dom().contains(claim));
    }
}

impl vstd::std_specs::convert::TryFromSpecImpl<Config> for TokenValidator {
    open spec fn obeys_try_from_spec() -> bool {
        false
    }

    open spec fn try_from_spec(config: Config) -> Result<Self, AuthzooError> {
        arbitrary()
    }
}

impl TryFrom<Config> for TokenValidator {
    type Error = AuthzooError;

    /// A validator for the roles of a configuration.
    fn try_from(config: Config) -> (r: Result<Self, Self::Error>)
        ensures
            r is Ok <==> forall|i: int|
                0 <= i < config.roles@.len() ==> !#[trigger] faulty(config.roles@, i),
            match r {
                Ok(validator) => holds_by_name(validator@, config.roles@),
                Err(e) => exists|i: int| #[trigger] first_fault(config.roles@, i, e),
            },
    {
        TokenValidator::new(config.roles)
    }
}

/// A role that can be assumed allows the token's algorithm, has a key under
/// which the signature is right, is named by the token's issuer and audience,
/// and has every one of its claim requirements met.
pub proof fn assumed_role_trusts_token(
    role: RoleConfig,
    token: Seq<char>,
    discovered: Result<KeyView, KeyError>,
    claim: Seq<char>,
)
    requires
        assumable(role, token, discovered) is Some,
    ensures
        header_algorithm(token) matches Some(algorithm) && role.algorithms@.contains(algorithm) && (
        role_key(role, algorithm, discovered) matches Ok(key) && (verified_token(
            token,
            algorithm.spec_name(),
            key,
        ) matches Some(v) && v.names(role.audience@, role.issuer@))),
        role.claims@.contains_key(claim) ==> role.claims@[claim]@.met_by(
            assumable(role, token, discovered)->0.value(claim),
        ),
{
    let claims = assumable(role, token, discovered)->0;
    assert(!claims.unmet(role.claims@, claim));
}

/// A token whose header cannot be read assumes no role and wants no key.
pub proof fn unreadable_token_assumes_nothing(
    roles: Map<Seq<char>, RoleConfig>,
    name: Seq<char>,
    token: Seq<char>,
    discovered: Map<Seq<char>, Result<DecodingKey, KeyError>>,
)
    requires
        header_algorithm(token) is None,
    ensures
        !can_assume(roles, name, token, discovered),
        !wants_key(roles, name, token),
{
}

/// A role with a configured key does not depend on the discovery.
pub proof fn configured_key_needs_no_discovery(
    role: RoleConfig,
    token: Seq<char>,
    algorithm: JwtAlgorithm,
    a: Result<KeyView, KeyError>,
    b: Result<KeyView, KeyError>,
)
    requires
        role.validation_key is Some,
    ensures
        role_key(role, algorithm, a) == role_key(role, algorithm, b),
        assumable(role, token, a) == assumable(role, token, b),
{
}

/// A role without a configured key has what the discovery gave. Where that is an
/// error, a token of an allowed algorithm is refused with that very error.
pub proof fn discovery_error_is_handed_on(
    role: RoleConfig,
    token: Seq<char>,
    algorithm: JwtAlgorithm,
    discovered: Result<KeyView, KeyError>,
    r: Result<ValidatedClaims, AuthzooError>,
)
    requires
        role.validation_key is None,
    ensures
        role_key(role, algorithm, discovered) == discovered,
        discovered is Err ==> assumable(role, token, discovered) is None,
        discovered is Err && outcome(role, token, discovered, r) && header_algorithm(token) == Some(
            algorithm,
        ) && role.algorithms@.contains(algorithm) ==> r == Err::<ValidatedClaims, AuthzooError>(
            AuthzooError::Other(discovered->Err_0),
        ),
{
}

/// A role whose configured key is a PEM document is not assumed by a token that
/// is signed with a shared secret.
pub proof fn pem_role_refuses_shared_secret(
    role: RoleConfig,
    token: Seq<char>,
    discovered: Result<KeyView, KeyError>,
)
    requires
        role.validation_key matches Some(text) && pem_like(text@),
        header_algorithm(token) matches Some(algorithm) && algorithm.spec_family()
            == KeyFamily::Hmac,
    ensures
        assumable(role, token, discovered) is None,
{
    pem_is_no_secret(role.validation_key->0@, header_algorithm(token)->0);
}

/// Whether a role can be assumed does not depend on the other roles.
pub proof fn roles_are_judged_apart(
    roles: Map<Seq<char>, RoleConfig>,
    name: Seq<char>,
    other: Seq<char>,
    role: RoleConfig,
    token: Seq<char>,
    discovered: Map<Seq<char>, Result<DecodingKey, KeyError>>,
)
    requires
        name != other,
    ensures
        can_assume(roles.insert(other, role), name, token, discovered) == can_assume(
            roles,
            name,
            token,
            discovered,
        ),
        can_assume(roles.remove(other), name, token, discovered) == can_assume(
            roles,
            name,
            token,
            discovered,
        ),
{
}

/// A role that demands less is assumed by every token that assumes one that
/// demands more.
pub proof fn fewer_demands_more_tokens(
    fewer: RoleConfig,
    more: RoleConfig,
    token: Seq<char>,
    discovered: Result<KeyView, KeyError>,
)
    requires
        fewer.audience == more.audience,
        fewer.issuer == more.issuer,
        fewer.validation_key == more.validation_key,
        fewer.algorithms == more.algorithms,
        fewer.claims@.submap_of(more.claims@),
        assumable(more, token, discovered) is Some,
    ensures
        assumable(fewer, token, discovered) == assumable(more, token, discovered),
{
    let claims = assumable(more, token, discovered)->0;
    claims.satisfy_fewer(fewer.claims@, more.claims@);
}

/// Roles that hold the same are assumed by the same tokens.
pub proof fn same_roles_agree(
    a: RoleConfig,
    b: RoleConfig,
    token: Seq<char>,
    discovered: Result<KeyView, KeyError>,
)
    requires
        a.same_as(b),
    ensures
        assumable(a, token, discovered) == assumable(b, token, discovered),
        lasting(a, token, discovered) == lasting(b, token, discovered),
{
    assert(a.validation_key.deep_view() == b.validation_key.deep_view());
    assert(verified_for(a, token, discovered) == verified_for(b, token, discovered));
    assert forall|claims: ClaimsView|
        #![trigger claims.satisfy(a.claims@)]
        #![trigger claims.satisfy(b.claims@)]
        claims.satisfy(a.claims@) == claims.satisfy(b.claims@) by {
        assert forall|name: Seq<char>|
            #![trigger claims.unmet(a.claims@, name)]
            #![trigger claims.unmet(b.claims@, name)]
            claims.unmet(a.claims@, name) == claims.unmet(b.claims@, name) by {
            assert(a.claims@.contains_key(name) == a.claims@.dom().contains(name));
            assert(b.claims@.contains_key(name) == b.claims@.dom().contains(name));
        }
    }
}

/// The order in which roles are listed makes no difference.
pub proof fn order_of_roles_makes_no_difference(
    a: Map<Seq<char>, RoleConfig>,
    b: Map<Seq<char>, RoleConfig>,
    listed: Seq<RoleConfig>,
    reordered: Seq<RoleConfig>,
)
    requires
        holds_by_name(a, listed),
        holds_by_name(b, reordered),
        forall|role: RoleConfig| #[trigger] listed.contains(role) <==> reordered.contains(role),
    ensures
        a == b,
{
    assert forall|name: Seq<char>| #[trigger] a.contains_key(name) implies b.contains_key(name)
        && a[name] == b[name] by {
        let i = choose|i: int| 0 <= i < listed.len() && #[trigger] listed[i].name@ == name;
        assert(listed.contains(listed[i]));
        assert(reordered.contains(listed[i]));
        let j = reordered.index_of(listed[i]);
        assert(reordered[j] == listed[i]);
    }
    assert forall|name: Seq<char>| #[trigger] b.contains_key(name) implies a.contains_key(name) by {
        let i = choose|i: int| 0 <= i < reordered.len() && #[trigger] reordered[i].name@ == name;
        assert(reordered.contains(reordered[i]));
        assert(listed.contains(reordered[i]));
        let j = listed.index_of(reordered[i]);
        assert(listed[j] == reordered[i]);
    }
    assert(a =~= b);
}

/// A role is listed if and only if the token was accepted for it.
pub proof fn list_holds_accepted_roles(
    roles: Map<Seq<char>, RoleConfig>,
    token: Seq<char>,
    discovered: Map<Seq<char>, Result<DecodingKey, KeyError>>,
    outcomes: Map<Seq<char>, Result<ValidatedClaims, AuthzooError>>,
    list: Seq<Seq<char>>,
    name: Seq<char>,
)
    requires
        judged(roles, token, discovered, outcomes),
        lists_accepted(list, outcomes),
    ensures
        list.contains(name) <==> roles.contains_key(name) && outcomes[name] is Ok,
{
    assert(roles.contains_key(name) == roles.dom().contains(name));
    assert(outcomes.contains_key(name) == outcomes.dom().contains(name));
}

/// A role is listed if and only if the token is accepted when it is held against
/// that role alone, unless only the time of the call tells whether the token has
/// expired.
pub proof fn list_agrees_with_single_role(
    roles: Map<Seq<char>, RoleConfig>,
    token: Seq<char>,
    discovered: Map<Seq<char>, Result<DecodingKey, KeyError>>,
    outcomes: Map<Seq<char>, Result<ValidatedClaims, AuthzooError>>,
    list: Seq<Seq<char>>,
    name: Seq<char>,
    single: Result<ValidatedClaims, AuthzooError>,
)
    requires
        judged(roles, token, discovered, outcomes),
        lists_accepted(list, outcomes),
        roles.contains_key(name),
        outcome(roles[name], token, discovery_of(discovered, roles[name]), single),
        can_assume(roles, name, token, discovered) ==> lasting(
            roles[name],
            token,
            discovery_of(discovered, roles[name]),
        ),
    ensures
        list.contains(name) <==> single is Ok,
{
    list_holds_accepted_roles(roles, token, discovered, outcomes, list, name);
    assert(roles.contains_key(name) == roles.dom().contains(name));
    assert(outcomes.contains_key(name));
}

/// What comes of one role, a refusal above all, hides no other role.
pub proof fn outcome_hides_no_other(
    outcomes: Map<Seq<char>, Result<ValidatedClaims, AuthzooError>>,
    list: Seq<Seq<char>>,
    other: Seq<char>,
    result: Result<ValidatedClaims, AuthzooError>,
    changed: Seq<Seq<char>>,
    name: Seq<char>,
)
    requires
        lists_accepted(list, outcomes),
        lists_accepted(changed, outcomes.insert(other, result)),
        name != other,
    ensures
        changed.contains(name) <==> list.contains(name),
{
}

/// A role that demands nothing of the claims is assumed by every token with the
/// right signature, issuer and audience, whether or not it has a subject.
pub proof fn undemanding_role_needs_no_subject(
    role: RoleConfig,
    token: Seq<char>,
    discovered: Result<KeyView, KeyError>,
)
    requires
        role.claims@ == Map::<Seq<char>, ClaimRequirement>::empty(),
        verified_for(role, token, discovered) matches Some(v) && v.names(
            role.audience@,
            role.issuer@,
        ),
    ensures
        assumable(role, token, discovered) is Some,
{
    claims_of_payload(verified_for(role, token, discovered)->0.claims).nothing_required();
}

} // verus!
