//! What holds of the roles that a token can assume.

use crate::claims::{claims_of_payload, ClaimView, ValidatedClaims};
use crate::config::{ClaimRequirement, Config, JwtAlgorithm, RoleConfig};
use crate::decoder::{
    answers_come_from_calls, decode_token, decoder_answers, payload_of, token_header,
    verified_token, VerifiedToken,
};
use crate::error::{AuthzooError, KeyError, TokenError};
use crate::keys::{key_view, role_key, DecodingKey, KeyView};
use crate::laws::claims::{
    every_requirement_counts, first_unmet_claim_is_told, values_come_from_the_payload,
};
use crate::laws::discovery::header_names_algorithm_and_key;
use crate::laws::text::ascending_means;
use crate::name_map::NameMap;
use crate::text::text_lt;
use crate::validator::{
    assumable, assumed_roles, can_assume, discovery_of, faulty, first_fault, header_algorithm, header_kid,
    judge_decoded, judged, judgement, known, lasting, lists_accepted, outcome, read_header, refusal, validate_token_for_role, verified_for,
    wants_key, TokenHeader, TokenValidator,
};
use vstd::prelude::*;

verus! {

/// Every claim that is required has a text in the payload that is accepted.
pub open spec fn payload_meets(
    payload: Map<Seq<char>, ClaimView>,
    required: Map<Seq<char>, ClaimRequirement>,
) -> bool {
    forall|name: Seq<char>| #[trigger]
        required.contains_key(name) ==> payload.contains_key(name) && payload[name].text is Some
            && required[name]@.accepted().contains(payload[name].text->0)
}

proof fn payload_satisfies(
    payload: Map<Seq<char>, ClaimView>,
    required: Map<Seq<char>, ClaimRequirement>,
)
    ensures
        claims_of_payload(payload).satisfy(required) <==> payload_meets(payload, required),
{
    let claims = claims_of_payload(payload);
    every_requirement_counts(claims, required);
    assert forall|name: Seq<char>|
        #![trigger required.contains_key(name)]
        claims.value(name) == if payload.contains_key(name) {
            payload[name].text
        } else {
            None
        } by {
        values_come_from_the_payload(payload, name);
    }
}

/// The header that is read tells the algorithm and the key id that the token
/// gives.
pub proof fn header_is_read(token: &str, r: Option<TokenHeader>)
    requires
        call_ensures(read_header, (token,), r),
    ensures
        r is Some ==> token_header(token@) is Some && (token_header(token@)->0).0
            == r->0.algorithm.spec_name(),
        r is Some ==> (r->0.kid is Some <==> (token_header(token@)->0).1 is Some),
        r is Some && r->0.kid is Some ==> (token_header(token@)->0).1 == Some(r->0.kid->0@),
        r is None ==> forall|algorithm: JwtAlgorithm|
            !(token_header(token@) is Some && (token_header(token@)->0).0
                == #[trigger] algorithm.spec_name()),
{
    if r is Some {
        header_names_algorithm_and_key(token@, r->0.algorithm);
        let kid = r->0.kid;
        assert(kid.deep_view() == header_kid(token@));
    } else {
        assert forall|algorithm: JwtAlgorithm|
            !(token_header(token@) is Some && (token_header(token@)->0).0
                == #[trigger] algorithm.spec_name()) by {
            header_names_algorithm_and_key(token@, algorithm);
        }
    }
}

/// A role can be assumed if and only if the header names an algorithm that stands
/// anywhere in the role's list, the role has a key with enough bytes, the
/// signature is right under it, the token has a time of expiry and names the
/// role's issuer and audience, and every claim requirement is met. The claims
/// are those of the token.
pub proof fn role_is_assumed_by_what_satisfies_it(
    role: RoleConfig,
    token: Seq<char>,
    discovered: Result<KeyView, KeyError>,
    algorithm: JwtAlgorithm,
    key: KeyView,
    v: VerifiedToken,
    i: int,
)
    requires
        token_header(token) is Some,
        (token_header(token)->0).0 == algorithm.spec_name(),
        role_key(role, algorithm, discovered) == Ok::<KeyView, KeyError>(key),
        key matches KeyView::Ed(bytes) ==> bytes.len() >= 32,
        verified_token(token, algorithm.spec_name(), key) == Some(v),
        0 <= i < role.algorithms@.len(),
        role.algorithms@[i] == algorithm,
    ensures
        verified_for(role, token, discovered) == Some(v),
        assumable(role, token, discovered) is Some <==> {
            &&& v.expires_at is Some
            &&& v.issuers is Some && v.issuers->0.contains(role.issuer@)
            &&& v.audiences is Some && v.audiences->0.contains(role.audience@)
            &&& payload_meets(v.claims, role.claims@)
        },
        assumable(role, token, discovered) is Some ==> assumable(role, token, discovered)
            == Some(claims_of_payload(v.claims)),
        lasting(role, token, discovered) <==> v.expires_at == Some(0xffff_ffff_ffff_ffffu64),
{
    header_names_algorithm_and_key(token, algorithm);
    payload_satisfies(v.claims, role.claims@);
}

/// A role cannot be assumed if the header names no algorithm of its list, there
/// is no key, the key has too few bytes, or the signature is not right under it.
pub proof fn role_is_not_assumed_without(
    role: RoleConfig,
    token: Seq<char>,
    discovered: Result<KeyView, KeyError>,
)
    requires
        assumable(role, token, discovered) is Some || verified_for(role, token, discovered) is Some,
    ensures
        exists|i: int|
            #![trigger role.algorithms@[i]]
            0 <= i < role.algorithms@.len() && token_header(token) is Some && (token_header(
                token,
            )->0).0 == role.algorithms@[i].spec_name() && role_key(
                role,
                role.algorithms@[i],
                discovered,
            ) is Ok && verified_token(
                token,
                role.algorithms@[i].spec_name(),
                role_key(role, role.algorithms@[i], discovered)->Ok_0,
            ) is Some && (role_key(role, role.algorithms@[i], discovered)->Ok_0 matches KeyView::Ed(
                bytes,
            ) ==> bytes.len() >= 32),
{
    let algorithm = header_algorithm(token)->0;
    header_names_algorithm_and_key(token, algorithm);
    let i = role.algorithms@.index_of(algorithm);
    assert(role.algorithms@[i] == algorithm);
}

/// The order in which a role lists its algorithms makes no difference.
pub proof fn order_of_algorithms_makes_no_difference(
    a: RoleConfig,
    b: RoleConfig,
    token: Seq<char>,
    discovered: Result<KeyView, KeyError>,
    e: AuthzooError,
)
    requires
        a.name == b.name,
        a.audience == b.audience,
        a.issuer == b.issuer,
        a.validation_key == b.validation_key,
        a.claims == b.claims,
        a.algorithms@.to_set() == b.algorithms@.to_set(),
    ensures
        assumable(a, token, discovered) == assumable(b, token, discovered),
        lasting(a, token, discovered) == lasting(b, token, discovered),
        refusal(a, token, discovered, e) <==> refusal(b, token, discovered, e),
{
    assert forall|algorithm: JwtAlgorithm| #[trigger]
        a.algorithms@.contains(algorithm) <==> b.algorithms@.contains(algorithm) by {
        assert(a.algorithms@.to_set().contains(algorithm) <==> a.algorithms@.contains(algorithm));
        assert(b.algorithms@.to_set().contains(algorithm) <==> b.algorithms@.contains(algorithm));
    }
    assert(verified_for(a, token, discovered) == verified_for(b, token, discovered));
}

/// A token that satisfies a role is accepted with its claims, or has expired. One
/// that expires at the last second that a clock can show is accepted.
pub proof fn satisfying_token_is_accepted(
    role: RoleConfig,
    token: &str,
    discovered: Result<&DecodingKey, KeyError>,
    r: Result<ValidatedClaims, AuthzooError>,
    algorithm: JwtAlgorithm,
    key: KeyView,
    v: VerifiedToken,
    i: int,
    name: &str,
    value: Option<&str>,
)
    requires
        call_ensures(validate_token_for_role, (&role, token, discovered), r),
        token_header(token@) is Some,
        (token_header(token@)->0).0 == algorithm.spec_name(),
        role_key(role, algorithm, key_view(discovered)) == Ok::<KeyView, KeyError>(key),
        key matches KeyView::Ed(bytes) ==> bytes.len() >= 32,
        verified_token(token@, algorithm.spec_name(), key) == Some(v),
        0 <= i < role.algorithms@.len(),
        role.algorithms@[i] == algorithm,
        v.expires_at is Some,
        v.issuers is Some && v.issuers->0.contains(role.issuer@),
        v.audiences is Some && v.audiences->0.contains(role.audience@),
        payload_meets(v.claims, role.claims@),
        r is Ok ==> call_ensures(ValidatedClaims::claim_value, (&r->Ok_0, name), value),
    ensures
        v.expires_at == Some(0xffff_ffff_ffff_ffffu64) ==> r is Ok,
        r is Ok ==> key.family() == algorithm.spec_family(),
        r is Ok ==> (value is Some <==> v.claims.contains_key(name@) && v.claims[name@].text is Some),
        r is Ok && value is Some ==> v.claims[name@].text == Some(value->0@),
        r matches Err(e) ==> e == (AuthzooError::TokenValidation {
            role: role.name,
            source: TokenError::Expired,
        }),
{
    let d = key_view(discovered);
    role_is_assumed_by_what_satisfies_it(role, token@, d, algorithm, key, v, i);
    header_names_algorithm_and_key(token@, algorithm);
    values_come_from_the_payload(v.claims, name@);
    payload_satisfies(v.claims, role.claims@);
    if r is Ok {
        assert(value.deep_view() == r->Ok_0@.value(name@));
    } else {
        let e = r->Err_0;
        assert(refusal(role, token@, d, e));
        if e !is TokenValidation {
            first_unmet_claim_is_told(claims_of_payload(v.claims), role.claims@, e, Seq::empty());
            let claim = e->MissingClaim_claim@;
            assert(claims_of_payload(v.claims).unmet(role.claims@, claim));
        }
    }
}

/// A token is refused before it is decoded for the first of these: its header
/// cannot be read, its algorithm is nowhere in the role's list, there is no key,
/// or the key has too few bytes. The error tells which.
pub proof fn refusals_before_decoding(
    role: RoleConfig,
    token: &str,
    discovered: Result<&DecodingKey, KeyError>,
    r: Result<ValidatedClaims, AuthzooError>,
    algorithm: JwtAlgorithm,
)
    requires
        call_ensures(validate_token_for_role, (&role, token, discovered), r),
    ensures
        header_algorithm(token@) is None ==> r == Err::<ValidatedClaims, AuthzooError>(
            AuthzooError::Other(KeyError::HeaderForRole(role.name)),
        ),
        header_algorithm(token@) == Some(algorithm) && (forall|i: int|
            0 <= i < role.algorithms@.len() ==> #[trigger] role.algorithms@[i] != algorithm) ==> r
            == Err::<ValidatedClaims, AuthzooError>(
            AuthzooError::AlgorithmNotAllowed { role: role.name, algorithm },
        ),
        header_algorithm(token@) == Some(algorithm) && role.algorithms@.contains(algorithm)
            && role_key(role, algorithm, key_view(discovered)) is Err ==> r == Err::<
            ValidatedClaims,
            AuthzooError,
        >(AuthzooError::Other(role_key(role, algorithm, key_view(discovered))->Err_0)),
        header_algorithm(token@) == Some(algorithm) && role.algorithms@.contains(algorithm)
            && role_key(role, algorithm, key_view(discovered)) is Ok && role_key(
            role,
            algorithm,
            key_view(discovered),
        )->Ok_0 is Ed && role_key(role, algorithm, key_view(discovered))->Ok_0->Ed_0.len() < 32 ==> r
            == Err::<ValidatedClaims, AuthzooError>(
            AuthzooError::Other(KeyError::ShortKey(role.name)),
        ),
{
}

/// A token that is decoded is refused for the first of these: its signature is
/// not right, it does not name the role, a requirement is not met; or because it
/// has expired, which only a token with the right signature is refused for. The
/// error tells which, and of the requirements the first by name.
pub proof fn refusals_after_decoding(
    role: RoleConfig,
    token: &str,
    discovered: Result<&DecodingKey, KeyError>,
    r: Result<ValidatedClaims, AuthzooError>,
    algorithm: JwtAlgorithm,
    key: KeyView,
    claim: Seq<char>,
)
    requires
        call_ensures(validate_token_for_role, (&role, token, discovered), r),
        header_algorithm(token@) == Some(algorithm),
        role.algorithms@.contains(algorithm),
        role_key(role, algorithm, key_view(discovered)) == Ok::<KeyView, KeyError>(key),
        key matches KeyView::Ed(bytes) ==> bytes.len() >= 32,
    ensures
        match verified_token(token@, algorithm.spec_name(), key) {
            None => r matches Err(
                AuthzooError::TokenValidation { role: name, source: TokenError::Invalid(_) },
            ) && name == role.name,
            Some(v) => {
                ||| v.expires_at != Some(0xffff_ffff_ffff_ffffu64) && r == Err::<
                    ValidatedClaims,
                    AuthzooError,
                >(
                    AuthzooError::TokenValidation {
                        role: role.name,
                        source: TokenError::Expired,
                    },
                )
                ||| if v.expires_at is Some && v.issuers is Some && v.issuers->0.contains(
                    role.issuer@,
                ) && v.audiences is Some && v.audiences->0.contains(role.audience@) {
                    if payload_meets(v.claims, role.claims@) {
                        r is Ok && r->Ok_0@ == claims_of_payload(v.claims)
                    } else {
                        r matches Err(AuthzooError::MissingClaim { claim: named, requirement })
                            && role.claims@.contains_key(named@) && requirement@
                            == role.claims@[named@]@ && !(v.claims.contains_key(named@)
                            && v.claims[named@].text is Some && requirement@.accepted().contains(
                            v.claims[named@].text->0,
                        )) && (role.claims@.contains_key(claim) && text_lt(claim, named@)
                            ==> v.claims.contains_key(claim) && v.claims[claim].text is Some
                            && role.claims@[claim]@.accepted().contains(v.claims[claim].text->0))
                    }
                } else {
                    r matches Err(
                        AuthzooError::TokenValidation { role: name, source: TokenError::Invalid(_) },
                    ) && name == role.name
                }
            },
        },
{
    match verified_token(token@, algorithm.spec_name(), key) {
        None => {},
        Some(v) => {
            let claims = claims_of_payload(v.claims);
            payload_satisfies(v.claims, role.claims@);
            assert(verified_for(role, token@, key_view(discovered)) == Some(v));
            if r is Err && r->Err_0 !is TokenValidation {
                let e = r->Err_0;
                first_unmet_claim_is_told(claims, role.claims@, e, claim);
                let named = e->MissingClaim_claim@;
                values_come_from_the_payload(v.claims, named);
                values_come_from_the_payload(v.claims, claim);
                assert(claims.unmet(role.claims@, named));
            }
        },
    }
}

/// A token that gets as far as the decoder is judged by an answer of the decoder,
/// asked about this token with the role's algorithm, key, audience and issuer: it
/// is accepted if and only if the decoder hands over claims that meet the
/// requirements, and refused as expired if and only if the decoder says so.
pub proof fn decoder_has_the_say(
    role: RoleConfig,
    token: &str,
    discovered: Result<&DecodingKey, KeyError>,
    r: Result<ValidatedClaims, AuthzooError>,
    algorithm: JwtAlgorithm,
    key: KeyView,
)
    requires
        call_ensures(validate_token_for_role, (&role, token, discovered), r),
        token_header(token@) is Some,
        (token_header(token@)->0).0 == algorithm.spec_name(),
        role.algorithms@.contains(algorithm),
        role_key(role, algorithm, key_view(discovered)) == Ok::<KeyView, KeyError>(key),
        key matches KeyView::Ed(bytes) ==> bytes.len() >= 32,
    ensures
        exists|answer: Result<Vec<(String, Option<String>, String)>, String>|
            #[trigger] decoder_answers(
                token@,
                algorithm.spec_name(),
                key,
                role.audience@,
                role.issuer@,
                answer,
            ) && match answer {
                Ok(entries) => (r is Ok <==> payload_meets(payload_of(entries@), role.claims@)) && (
                r is Ok ==> r->Ok_0@ == claims_of_payload(payload_of(entries@))) && (r is Err
                    ==> r->Err_0 is MissingClaim),
                Err(reason) => if reason@ == "ExpiredSignature"@ {
                    r == Err::<ValidatedClaims, AuthzooError>(
                        AuthzooError::TokenValidation {
                            role: role.name,
                            source: TokenError::Expired,
                        },
                    )
                } else {
                    r == Err::<ValidatedClaims, AuthzooError>(
                        AuthzooError::TokenValidation {
                            role: role.name,
                            source: TokenError::Invalid(reason),
                        },
                    )
                },
            },
{
    header_names_algorithm_and_key(token@, algorithm);
    let answer = choose|answer: Result<Vec<(String, Option<String>, String)>, String>| #[trigger]
        judgement(role, answer, r) && decoder_answers(
            token@,
            algorithm.spec_name(),
            key,
            role.audience@,
            role.issuer@,
            answer,
        );
    if answer is Ok {
        payload_satisfies(payload_of(answer->Ok_0@), role.claims@);
    }
}

/// An answer of the decoder comes from a call of it. It hands over the claims of
/// a token whose signature is right under a key that fits the algorithm, and
/// which names the issuer and the audience; it says that a token has expired only
/// of one with the right signature that does not last for ever, and refuses one
/// that names issuer and audience for nothing else.
pub(crate) proof fn decoder_answers_truly(
    token: &str,
    algorithm: &str,
    key: &DecodingKey,
    audience: &str,
    issuer: &str,
    required: &Vec<String>,
    answer: Result<Vec<(String, Option<String>, String)>, String>,
)
    requires
        decoder_answers(token@, algorithm@, key@, audience@, issuer@, answer),
    ensures
        exists|t: &str, k: &DecodingKey, a: &str, u: &str, i: &str, q: &Vec<String>|
            t@ == token@ && k@ == key@ && a@ == algorithm@ && u@ == audience@ && i@ == issuer@
                && #[trigger] call_ensures(decode_token, (t, k, a, u, i, q), answer),
        match answer {
            Ok(entries) => verified_token(token@, algorithm@, key@) matches Some(v) && v.claims
                == payload_of(entries@) && v.expires_at is Some && v.issuers is Some
                && v.issuers->0.contains(issuer@) && v.audiences is Some
                && v.audiences->0.contains(audience@),
            Err(reason) => if reason@ == "ExpiredSignature"@ {
                verified_token(token@, algorithm@, key@) matches Some(v) && v.expires_at != Some(
                    0xffff_ffff_ffff_ffffu64,
                )
            } else {
                !(verified_token(token@, algorithm@, key@) matches Some(v) && v.expires_at is Some
                    && v.issuers is Some && v.issuers->0.contains(issuer@) && v.audiences is Some
                    && v.audiences->0.contains(audience@))
            },
        },
{
    answers_come_from_calls(token, key, algorithm, audience, issuer, required, answer);
}

/// What the decoder answers decides: claims that meet the requirements are
/// accepted as they are, others refused for the first unmet one by name, and a
/// refusal of the decoder is handed on.
pub proof fn answers_are_judged(
    role: RoleConfig,
    entries: Vec<(String, Option<String>, String)>,
    r: Result<ValidatedClaims, AuthzooError>,
    reason: String,
    refused: Result<ValidatedClaims, AuthzooError>,
)
    requires
        call_ensures(judge_decoded, (&role, Ok(entries)), r),
        call_ensures(judge_decoded, (&role, Err(reason)), refused),
    ensures
        r is Ok <==> payload_meets(payload_of(entries@), role.claims@),
        r is Ok ==> r->Ok_0@ == claims_of_payload(payload_of(entries@)),
        r matches Err(e) ==> (e matches AuthzooError::MissingClaim { claim, requirement }
            && role.claims@.contains_key(claim@) && requirement@ == role.claims@[claim@]@),
        reason@ == "ExpiredSignature"@ ==> refused == Err::<ValidatedClaims, AuthzooError>(
            AuthzooError::TokenValidation { role: role.name, source: TokenError::Expired },
        ),
        reason@ != "ExpiredSignature"@ ==> refused == Err::<ValidatedClaims, AuthzooError>(
            AuthzooError::TokenValidation { role: role.name, source: TokenError::Invalid(reason) },
        ),
{
    payload_satisfies(payload_of(entries@), role.claims@);
    if r is Err {
        first_unmet_claim_is_told(
            claims_of_payload(payload_of(entries@)),
            role.claims@,
            r->Err_0,
            Seq::empty(),
        );
    }
}

/// A validator is made of roles if and only if each is valid and no two share a
/// name. It has each of them under its name, and nothing else. Made of a
/// configuration it is the same.
pub proof fn validator_has_the_roles(
    roles: Vec<RoleConfig>,
    r: Result<TokenValidator, AuthzooError>,
    config: Config,
    of_config: Result<TokenValidator, AuthzooError>,
    by_name: &NameMap<RoleConfig>,
    i: int,
    name: Seq<char>,
)
    requires
        call_ensures(TokenValidator::new, (roles,), r),
        config.roles == roles,
        call_ensures(TokenValidator::try_from, (config,), of_config),
        r is Ok ==> call_ensures(TokenValidator::roles, (&r->Ok_0,), by_name),
    ensures
        r is Ok <==> (forall|j: int| 0 <= j < roles@.len() ==> (#[trigger] roles@[j]).valid()) && (
        forall|j: int, k: int|
            0 <= j < k < roles@.len() ==> (#[trigger] roles@[j]).name@ != (
            #[trigger] roles@[k]).name@),
        r is Ok && 0 <= i < roles@.len() ==> by_name@.contains_key(roles@[i].name@)
            && by_name@[roles@[i].name@] == roles@[i],
        r is Ok && by_name@.contains_key(name) ==> exists|j: int|
            0 <= j < roles@.len() && (#[trigger] roles@[j]).name@ == name,
        r is Ok <==> of_config is Ok,
        r is Ok ==> r->Ok_0@ == of_config->Ok_0@ && by_name@ == r->Ok_0@,
{
    if r is Ok {
        assert forall|j: int| 0 <= j < roles@.len() implies (#[trigger] roles@[j]).valid() by {
            assert(!faulty(roles@, j));
        }
        assert forall|j: int, k: int| 0 <= j < k < roles@.len() implies (#[trigger] roles@[j]).name@
            != (#[trigger] roles@[k]).name@ by {
            assert(!faulty(roles@, k));
        }
        crate::validator::order_of_roles_makes_no_difference(
            r->Ok_0@,
            of_config->Ok_0@,
            roles@,
            roles@,
        );
    }
    if (forall|j: int| 0 <= j < roles@.len() ==> (#[trigger] roles@[j]).valid()) && (forall|
        j: int,
        k: int,
    |
        0 <= j < k < roles@.len() ==> (#[trigger] roles@[j]).name@ != (#[trigger] roles@[k]).name@) {
        assert forall|k: int| 0 <= k < roles@.len() implies !#[trigger] faulty(roles@, k) by {
            assert(roles@[k].valid());
        }
    }
}

/// Of the roles that a validator cannot be made of, the first in the list is told:
/// with its own fault, or as a duplicate.
pub proof fn first_faulty_role_is_told(
    roles: Vec<RoleConfig>,
    r: Result<TokenValidator, AuthzooError>,
    i: int,
)
    requires
        call_ensures(TokenValidator::new, (roles,), r),
        0 <= i < roles@.len(),
        forall|j: int| 0 <= j < i ==> (#[trigger] roles@[j]).valid(),
        forall|j: int, k: int|
            0 <= j < k < i ==> (#[trigger] roles@[j]).name@ != (#[trigger] roles@[k]).name@,
        !roles@[i].valid() || exists|j: int|
            0 <= j < i && (#[trigger] roles@[j]).name@ == roles@[i].name@,
    ensures
        !roles@[i].valid() ==> r is Err && roles@[i].rejected_with(r->Err_0),
        roles@[i].valid() ==> r == Err::<TokenValidator, AuthzooError>(
            AuthzooError::DuplicateRole(roles@[i].name),
        ),
{
    assert(faulty(roles@, i));
    let k = choose|k: int| #[trigger] first_fault(roles@, k, r->Err_0);
    if k < i {
        assert(roles@[k].valid());
    } else if k > i {
        assert(!faulty(roles@, i));
    }
}

/// A reference to roles is right if and only if each name is that of a role; else
/// the first that is not is told.
pub proof fn first_unknown_role_is_told(
    validator: TokenValidator,
    by_name: &NameMap<RoleConfig>,
    names: &[&str],
    r: Result<(), AuthzooError>,
    i: int,
)
    requires
        call_ensures(TokenValidator::roles, (&validator,), by_name),
        call_ensures(TokenValidator::ensure_roles_exist, (&validator, names), r),
        0 <= i <= names@.len(),
        forall|j: int| 0 <= j < i ==> by_name@.contains_key(#[trigger] names@[j]@),
        i < names@.len() ==> !by_name@.contains_key(names@[i]@),
    ensures
        i == names@.len() ==> r is Ok,
        i < names@.len() ==> (r matches Err(AuthzooError::UnknownRole(name)) && name@
            == names@[i]@),
{
    assert forall|j: int| 0 <= j < i implies #[trigger] known(validator@, names@, j) by {
        assert(by_name@.contains_key(names@[j]@));
    }
    if i < names@.len() {
        assert(!known(validator@, names@, i));
        assert(r is Err);
        let k = choose|k: int|
            0 <= k < names@.len() && !#[trigger] known(validator@, names@, k) && (forall|j: int|
                0 <= j < k ==> #[trigger] known(validator@, names@, j)) && (r->Err_0 matches
                AuthzooError::UnknownRole(name) && name@ == names@[k]@);
        assert(known(validator@, names@, i) <==> i < k);
    }
}

/// What came of the discovery for a role is what stands under its name.
pub proof fn discovery_is_given_by_name(
    discovered: Map<Seq<char>, Result<DecodingKey, KeyError>>,
    role: RoleConfig,
)
    ensures
        discovered.contains_key(role.name@) && discovered[role.name@] is Ok ==> discovery_of(
            discovered,
            role,
        ) == Ok::<KeyView, KeyError>(discovered[role.name@]->Ok_0@),
        discovered.contains_key(role.name@) && discovered[role.name@] is Err ==> discovery_of(
            discovered,
            role,
        ) == Err::<KeyView, KeyError>(discovered[role.name@]->Err_0),
        !discovered.contains_key(role.name@) ==> discovery_of(discovered, role) == Err::<
            KeyView,
            KeyError,
        >(KeyError::NotDiscovered(role.name)),
{
}

/// Every role of a validator has an outcome, which is one of holding the token
/// against that role with what was discovered for it.
pub proof fn every_role_is_judged(
    validator: TokenValidator,
    by_name: &NameMap<RoleConfig>,
    token: &str,
    discovered: &NameMap<Result<DecodingKey, KeyError>>,
    outcomes: NameMap<Result<ValidatedClaims, AuthzooError>>,
    name: Seq<char>,
)
    requires
        call_ensures(TokenValidator::roles, (&validator,), by_name),
        call_ensures(TokenValidator::outcomes, (&validator, token, discovered), outcomes),
    ensures
        outcomes@.contains_key(name) <==> by_name@.contains_key(name),
        outcomes@.contains_key(name) ==> outcome(
            by_name@[name],
            token@,
            discovery_of(discovered@, by_name@[name]),
            outcomes@[name],
        ),
        by_name@.contains_key(name) ==> by_name@[name].name@ == name && by_name@[name].valid(),
{
    assert(outcomes@.contains_key(name) == outcomes@.dom().contains(name));
    assert(by_name@.contains_key(name) == by_name@.dom().contains(name));
}

/// What may come of holding a token against a role, told by the parts: a success
/// has the claims of a token that satisfies the role, and a refusal of one that
/// does is for its expiry.
pub proof fn outcomes_follow_satisfaction(
    role: RoleConfig,
    token: Seq<char>,
    discovered: Result<KeyView, KeyError>,
    r: Result<ValidatedClaims, AuthzooError>,
)
    requires
        outcome(role, token, discovered, r),
    ensures
        r is Ok ==> assumable(role, token, discovered) == Some(r->Ok_0@),
        r is Err && assumable(role, token, discovered) is Some ==> r->Err_0 == (
        AuthzooError::TokenValidation { role: role.name, source: TokenError::Expired }) && !lasting(
            role,
            token,
            discovered,
        ),
        r is Ok ==> {
            let claims = r->Ok_0@.claims;
            &&& claims.contains_key("exp"@) && claims["exp"@].text is None
            &&& claims.contains_key("iss"@) && (claims["iss"@].text is Some ==> claims["iss"@].text
                == Some(role.issuer@))
            &&& claims.contains_key("aud"@) && (claims["aud"@].text is Some ==> claims["aud"@].text
                == Some(role.audience@))
        },
{
    if r is Err && assumable(role, token, discovered) is Some {
        let e = r->Err_0;
        let v = verified_for(role, token, discovered)->0;
        if e !is TokenValidation {
            let claims = claims_of_payload(v.claims);
            first_unmet_claim_is_told(claims, role.claims@, e, Seq::empty());
            assert(claims.unmet(role.claims@, e->MissingClaim_claim@));
        }
    }
}

/// The list of accepted names has those whose outcome is a success, and no
/// others, each before those that come after it.
pub proof fn accepted_names_are_listed(
    outcomes: NameMap<Result<ValidatedClaims, AuthzooError>>,
    list: Vec<String>,
    name: Seq<char>,
)
    requires
        call_ensures(assumed_roles, (&outcomes,), list),
    ensures
        (exists|i: int| 0 <= i < list@.len() && (#[trigger] list@[i])@ == name)
            <==> outcomes@.contains_key(name) && outcomes@[name] is Ok,
        forall|i: int, j: int|
            0 <= i < j < list@.len() ==> text_lt((#[trigger] list@[i])@, (#[trigger] list@[j])@),
{
    names_in_list(list, name);
    ascending_list(list);
}

proof fn names_in_list(list: Vec<String>, name: Seq<char>)
    ensures
        (exists|i: int| 0 <= i < list@.len() && (#[trigger] list@[i])@ == name)
            <==> list.deep_view().contains(name),
{
    let names = list.deep_view();
    if names.contains(name) {
        let i = names.index_of(name);
        assert(list@[i]@ == name);
    }
    if exists|i: int| 0 <= i < list@.len() && (#[trigger] list@[i])@ == name {
        let i = choose|i: int| 0 <= i < list@.len() && (#[trigger] list@[i])@ == name;
        assert(names[i] == name);
    }
}

proof fn ascending_list(list: Vec<String>)
    requires
        crate::name_map::ascending(list.deep_view()),
    ensures
        forall|i: int, j: int|
            0 <= i < j < list@.len() ==> text_lt((#[trigger] list@[i])@, (#[trigger] list@[j])@),
{
    let names = list.deep_view();
    ascending_means(names);
    assert forall|i: int, j: int| 0 <= i < j < list@.len() implies text_lt(
        (#[trigger] list@[i])@,
        (#[trigger] list@[j])@,
    ) by {
        assert(names[i] == list@[i]@ && names[j] == list@[j]@);
    }
}

/// The roles that a token can assume, told by what it satisfies: every listed
/// name is that of a role that the token satisfies, and every role that it
/// satisfies is listed unless the token may have expired. The list agrees with
/// the outcomes wherever the time of the call does not decide.
pub proof fn satisfied_roles_are_listed(
    validator: TokenValidator,
    by_name: &NameMap<RoleConfig>,
    token: &str,
    discovered: &NameMap<Result<DecodingKey, KeyError>>,
    list: Vec<String>,
    outcomes: NameMap<Result<ValidatedClaims, AuthzooError>>,
    name: Seq<char>,
)
    requires
        call_ensures(TokenValidator::roles, (&validator,), by_name),
        call_ensures(TokenValidator::validate, (&validator, token, discovered), list),
        call_ensures(TokenValidator::outcomes, (&validator, token, discovered), outcomes),
    ensures
        forall|i: int, j: int|
            0 <= i < j < list@.len() ==> text_lt((#[trigger] list@[i])@, (#[trigger] list@[j])@),
        (exists|i: int| 0 <= i < list@.len() && (#[trigger] list@[i])@ == name)
            ==> by_name@.contains_key(name) && assumable(
            by_name@[name],
            token@,
            discovery_of(discovered@, by_name@[name]),
        ) is Some,
        by_name@.contains_key(name) && assumable(
            by_name@[name],
            token@,
            discovery_of(discovered@, by_name@[name]),
        ) is Some && lasting(by_name@[name], token@, discovery_of(discovered@, by_name@[name]))
            ==> exists|i: int| 0 <= i < list@.len() && (#[trigger] list@[i])@ == name,
        by_name@.contains_key(name) && (assumable(
            by_name@[name],
            token@,
            discovery_of(discovered@, by_name@[name]),
        ) is None || lasting(by_name@[name], token@, discovery_of(discovered@, by_name@[name])))
            ==> ((exists|i: int| 0 <= i < list@.len() && (#[trigger] list@[i])@ == name)
            <==> outcomes@[name] is Ok),
{
    names_in_list(list, name);
    ascending_list(list);
    every_role_is_judged(validator, by_name, token, discovered, outcomes, name);
    let names = list.deep_view();
    if names.contains(name) {
        assert(can_assume(validator@, name, token@, discovered@));
    }
    if by_name@.contains_key(name) {
        assert(can_assume(validator@, name, token@, discovered@) <==> assumable(
            by_name@[name],
            token@,
            discovery_of(discovered@, by_name@[name]),
        ) is Some);
    }
}

/// The list comes from holding the token against every role: there is an outcome
/// for each, and a name is listed if and only if its outcome is a success.
pub proof fn list_comes_from_outcomes(
    validator: TokenValidator,
    by_name: &NameMap<RoleConfig>,
    token: &str,
    discovered: &NameMap<Result<DecodingKey, KeyError>>,
    list: Vec<String>,
)
    requires
        call_ensures(TokenValidator::roles, (&validator,), by_name),
        call_ensures(TokenValidator::validate, (&validator, token, discovered), list),
    ensures
        exists|outcomes: Map<Seq<char>, Result<ValidatedClaims, AuthzooError>>|
            #[trigger] outcomes.dom() == by_name@.dom() && forall|name: Seq<char>| #[trigger]
                by_name@.contains_key(name) ==> outcome(
                    by_name@[name],
                    token@,
                    discovery_of(discovered@, by_name@[name]),
                    outcomes[name],
                ) && (outcomes[name] is Ok <==> exists|i: int|
                    0 <= i < list@.len() && (#[trigger] list@[i])@ == name),
{
    let outcomes = choose|outcomes: Map<Seq<char>, Result<ValidatedClaims, AuthzooError>>| #[trigger]
        judged(validator@, token@, discovered@, outcomes) && lists_accepted(
            list.deep_view(),
            outcomes,
        );
    assert forall|name: Seq<char>| #[trigger] by_name@.contains_key(name) implies outcome(
        by_name@[name],
        token@,
        discovery_of(discovered@, by_name@[name]),
        outcomes[name],
    ) && (outcomes[name] is Ok <==> exists|i: int|
        0 <= i < list@.len() && (#[trigger] list@[i])@ == name) by {
        names_in_list(list, name);
        assert(by_name@.contains_key(name) == by_name@.dom().contains(name));
        assert(outcomes.contains_key(name) == outcomes.dom().contains(name));
        assert(list.deep_view().contains(name) <==> outcomes.contains_key(name)
            && outcomes[name] is Ok);
    }
}

/// The roles whose keys have to be discovered are those without a configured key
/// that list the token's algorithm, at whatever place.
pub proof fn keys_to_discover(
    validator: TokenValidator,
    by_name: &NameMap<RoleConfig>,
    token: &str,
    list: Vec<String>,
    name: Seq<char>,
    algorithm: JwtAlgorithm,
)
    requires
        call_ensures(TokenValidator::roles, (&validator,), by_name),
        call_ensures(TokenValidator::roles_to_discover, (&validator, token), list),
    ensures
        header_algorithm(token@) is None ==> list@.len() == 0,
        header_algorithm(token@) == Some(algorithm) ==> ((exists|i: int|
            0 <= i < list@.len() && (#[trigger] list@[i])@ == name) <==> by_name@.contains_key(name)
            && by_name@[name].validation_key is None && exists|j: int|
            0 <= j < by_name@[name].algorithms@.len() && #[trigger] by_name@[name].algorithms@[j]
                == algorithm),
        forall|i: int, j: int|
            0 <= i < j < list@.len() ==> text_lt((#[trigger] list@[i])@, (#[trigger] list@[j])@),
{
    names_in_list(list, name);
    ascending_list(list);
    let names = list.deep_view();
    if header_algorithm(token@) is None && list@.len() > 0 {
        assert(names[0] == list@[0]@);
        assert(names.contains(names[0]));
        assert(wants_key(validator@, names[0], token@));
    }
    if header_algorithm(token@) == Some(algorithm) {
        assert(names.contains(name) <==> wants_key(validator@, name, token@));
        let algorithms = by_name@[name].algorithms@;
        if exists|j: int| 0 <= j < algorithms.len() && #[trigger] algorithms[j] == algorithm {
            assert(algorithms.contains(algorithm));
        }
        if algorithms.contains(algorithm) {
            let j = algorithms.index_of(algorithm);
            assert(algorithms[j] == algorithm);
        }
    }
}

/// A copy of a validator has copies of the same roles.
pub proof fn copies_of_validators(
    validator: TokenValidator,
    copy: TokenValidator,
    by_name: &NameMap<RoleConfig>,
    copied: &NameMap<RoleConfig>,
    name: Seq<char>,
)
    requires
        call_ensures(TokenValidator::clone, (&validator,), copy),
        call_ensures(TokenValidator::roles, (&validator,), by_name),
        call_ensures(TokenValidator::roles, (&copy,), copied),
    ensures
        copied@.contains_key(name) <==> by_name@.contains_key(name),
        copied@.contains_key(name) ==> copied@[name].same_as(by_name@[name]),
{
    assert(copied@.contains_key(name) == copied@.dom().contains(name));
    assert(by_name@.contains_key(name) == by_name@.dom().contains(name));
}

} // verus!
