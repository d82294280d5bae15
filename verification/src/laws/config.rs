//! What holds of roles and claim requirements.

use crate::config::{
    debug_list, default_algorithms, name_tells_algorithm, ClaimRequirement, Config,
    DetailedClaimRequirement, JwtAlgorithm, RequirementView, RoleConfig,
};
use crate::error::AuthzooError;
use crate::jwk::KeyFamily;
use crate::text::text_lt;
use vstd::prelude::*;

verus! {

/// A requirement accepts the values that it lists, at whatever place, and no
/// other.
pub proof fn listed_values_are_accepted(value: String, values: Vec<String>, v: Seq<char>)
    ensures
        ClaimRequirement::Equals(value)@.accepted().contains(v) <==> v == value@,
        ClaimRequirement::AnyOf(values)@.accepted().contains(v) <==> exists|i: int|
            0 <= i < values@.len() && #[trigger] values@[i]@ == v,
        ClaimRequirement::Detailed(
            DetailedClaimRequirement { any_of: values },
        )@.accepted().contains(v) <==> exists|i: int|
            0 <= i < values@.len() && #[trigger] values@[i]@ == v,
{
    let one = ClaimRequirement::Equals(value)@.accepted();
    assert(one[0] == value@);
    let all = ClaimRequirement::AnyOf(values)@.accepted();
    if all.contains(v) {
        let i = all.index_of(v);
        assert(values@[i]@ == v);
    }
    if exists|i: int| 0 <= i < values@.len() && #[trigger] values@[i]@ == v {
        let i = choose|i: int| 0 <= i < values@.len() && #[trigger] values@[i]@ == v;
        assert(all[i] == v);
    }
}

/// A requirement is met by every value that it accepts and by nothing else.
pub proof fn accepted_values_meet(requirement: RequirementView, i: int, v: Seq<char>)
    ensures
        requirement.met_by(Some(v)) <==> requirement.accepted().contains(v),
        0 <= i < requirement.accepted().len() ==> requirement.met_by(
            Some(requirement.accepted()[i]),
        ),
        !requirement.met_by(None),
{
}

/// A claim matches a requirement if and only if its value is one of those
/// listed, at whatever place.
pub proof fn matches_listed_values(
    value: String,
    values: Vec<String>,
    claim: Option<&str>,
    equals: bool,
    any_of: bool,
    detailed: bool,
)
    requires
        call_ensures(ClaimRequirement::matches, (&ClaimRequirement::Equals(value), claim), equals),
        call_ensures(ClaimRequirement::matches, (&ClaimRequirement::AnyOf(values), claim), any_of),
        call_ensures(
            ClaimRequirement::matches,
            (&ClaimRequirement::Detailed(DetailedClaimRequirement { any_of: values }), claim),
            detailed,
        ),
    ensures
        equals <==> claim is Some && claim->0@ == value@,
        any_of <==> claim is Some && exists|i: int|
            0 <= i < values@.len() && #[trigger] values@[i]@ == claim->0@,
        detailed <==> any_of,
{
    if claim is Some {
        listed_values_are_accepted(value, values, claim->0@);
    }
}

/// The constructors keep the values that they are given, in their order.
pub proof fn requirements_keep_their_values(
    value: &str,
    values: &[&str],
    equals: ClaimRequirement,
    any_of: ClaimRequirement,
)
    requires
        call_ensures(ClaimRequirement::equals, (value,), equals),
        call_ensures(ClaimRequirement::any_of, (values,), any_of),
    ensures
        equals matches ClaimRequirement::Equals(kept) && kept@ == value@,
        any_of matches ClaimRequirement::AnyOf(kept) && kept@.len() == values@.len()
            && forall|i: int| 0 <= i < values@.len() ==> (#[trigger] kept@[i])@ == values@[i]@,
{
    let kept = any_of->AnyOf_0;
    assert(kept.deep_view().len() == kept@.len());
    assert forall|i: int| 0 <= i < values@.len() implies (#[trigger] kept@[i])@ == values@[i]@ by {
        assert(kept.deep_view()[i] == kept@[i]@);
    }
}

/// A requirement is rejected if and only if it lists nothing or lists the empty
/// text, and the error names the role and the claim.
pub proof fn empty_values_are_rejected(
    value: String,
    values: Vec<String>,
    role: &str,
    claim: &str,
    equals: Result<(), AuthzooError>,
    any_of: Result<(), AuthzooError>,
    detailed: Result<(), AuthzooError>,
)
    requires
        call_ensures(
            ClaimRequirement::validate,
            (&ClaimRequirement::Equals(value), role, claim),
            equals,
        ),
        call_ensures(
            ClaimRequirement::validate,
            (&ClaimRequirement::AnyOf(values), role, claim),
            any_of,
        ),
        call_ensures(
            ClaimRequirement::validate,
            (&ClaimRequirement::Detailed(DetailedClaimRequirement { any_of: values }), role, claim),
            detailed,
        ),
    ensures
        equals is Ok <==> value@.len() > 0,
        any_of is Ok <==> values@.len() > 0 && forall|i: int|
            0 <= i < values@.len() ==> #[trigger] values@[i]@.len() > 0,
        detailed is Ok <==> any_of is Ok,
        equals matches Err(e) ==> (e matches AuthzooError::EmptyClaimRequirement {
            role: r,
            claim: c,
        } && r@ == role@ && c@ == claim@),
        any_of matches Err(e) ==> (e matches AuthzooError::EmptyClaimRequirement {
            role: r,
            claim: c,
        } && r@ == role@ && c@ == claim@),
        detailed matches Err(e) ==> (e matches AuthzooError::EmptyClaimRequirement {
            role: r,
            claim: c,
        } && r@ == role@ && c@ == claim@),
{
    valid_lists_texts(value, values);
}

/// A requirement is valid if and only if it lists something, and no empty text.
pub proof fn valid_lists_texts(value: String, values: Vec<String>)
    ensures
        ClaimRequirement::Equals(value)@.valid() <==> value@.len() > 0,
        ClaimRequirement::AnyOf(values)@.valid() <==> values@.len() > 0 && forall|i: int|
            0 <= i < values@.len() ==> #[trigger] values@[i]@.len() > 0,
        ClaimRequirement::Detailed(DetailedClaimRequirement { any_of: values })@.valid()
            <==> ClaimRequirement::AnyOf(values)@.valid(),
{
    let empty = Seq::<char>::empty();
    listed_values_are_accepted(value, values, empty);
    assert(value@.len() == 0 ==> value@ =~= empty);
    assert(ClaimRequirement::AnyOf(values)@.accepted().len() == values@.len());
    if ClaimRequirement::AnyOf(values)@.valid() {
        assert forall|i: int| 0 <= i < values@.len() implies #[trigger] values@[i]@.len() > 0 by {
            if values@[i]@.len() == 0 {
                assert(values@[i]@ =~= empty);
            }
        }
    }
    if exists|i: int| 0 <= i < values@.len() && #[trigger] values@[i]@ == empty {
        let i = choose|i: int| 0 <= i < values@.len() && #[trigger] values@[i]@ == empty;
        assert(values@[i]@.len() == 0);
    }
}

/// A requirement describes itself by its values.
pub proof fn requirements_describe_themselves(
    value: String,
    values: Vec<String>,
    equals: String,
    any_of: String,
    detailed: String,
)
    requires
        call_ensures(ClaimRequirement::to_string, (&ClaimRequirement::Equals(value),), equals),
        call_ensures(ClaimRequirement::to_string, (&ClaimRequirement::AnyOf(values),), any_of),
        call_ensures(
            ClaimRequirement::to_string,
            (&ClaimRequirement::Detailed(DetailedClaimRequirement { any_of: values }),),
            detailed,
        ),
    ensures
        equals@ == "equals '"@ + value@ + "'"@,
        any_of@ == "one of "@ + debug_list(values.deep_view()),
        detailed@ == any_of@,
{
}

/// A role passes if and only if nothing that a token is held against is left
/// empty; of several faults the error tells the first, in this order.
pub proof fn faults_of_a_role(role: RoleConfig, r: Result<(), AuthzooError>)
    requires
        call_ensures(RoleConfig::validate, (&role,), r),
    ensures
        r is Ok <==> {
            &&& role.name@.len() > 0
            &&& role.audience@.len() > 0
            &&& role.issuer@.len() > 0
            &&& role.validation_key is Some ==> role.validation_key->0@.len() > 0
            &&& role.algorithms@.len() > 0
            &&& forall|claim: Seq<char>| #[trigger]
                role.claims@.contains_key(claim) ==> claim.len() > 0 && role.claims@[claim]@.valid()
        },
        role.name@.len() == 0 ==> r == Err::<(), AuthzooError>(AuthzooError::EmptyRoleName),
        role.name@.len() > 0 && role.audience@.len() == 0 ==> r == Err::<(), AuthzooError>(
            AuthzooError::EmptyAudience(role.name),
        ),
        role.name@.len() > 0 && role.audience@.len() > 0 && role.issuer@.len() == 0 ==> r == Err::<
            (),
            AuthzooError,
        >(AuthzooError::EmptyIssuer(role.name)),
        role.name@.len() > 0 && role.audience@.len() > 0 && role.issuer@.len() > 0 && (
        role.validation_key is Some && role.validation_key->0@.len() == 0) ==> r == Err::<
            (),
            AuthzooError,
        >(AuthzooError::EmptyValidationKey(role.name)),
        role.name@.len() > 0 && role.audience@.len() > 0 && role.issuer@.len() > 0 && (
        role.validation_key is Some ==> role.validation_key->0@.len() > 0) && role.algorithms@.len()
            == 0 ==> r == Err::<(), AuthzooError>(AuthzooError::EmptyAlgorithms(role.name)),
{
    let fine = forall|claim: Seq<char>| #[trigger]
        role.claims@.contains_key(claim) ==> claim.len() > 0 && role.claims@[claim]@.valid();
    if role.valid() {
        assert forall|claim: Seq<char>| #[trigger] role.claims@.contains_key(claim) implies claim.len()
            > 0 && role.claims@[claim]@.valid() by {
            assert(!role.faulty_claim(claim));
        }
    }
    if fine {
        assert forall|claim: Seq<char>| !#[trigger] role.faulty_claim(claim) by {
            assert(role.claims@.contains_key(claim) ==> claim.len() > 0
                && role.claims@[claim]@.valid());
        }
    }
}

/// Of the faults in the claims of a role the error tells the one whose name
/// comes first: that the claim has no name, or else which one it is.
pub proof fn faults_of_claims(
    role: RoleConfig,
    r: Result<(), AuthzooError>,
    claim: Seq<char>,
)
    requires
        call_ensures(RoleConfig::validate, (&role,), r),
        role.name@.len() > 0,
        role.audience@.len() > 0,
        role.issuer@.len() > 0,
        role.validation_key is Some ==> role.validation_key->0@.len() > 0,
        role.algorithms@.len() > 0,
        role.claims@.contains_key(claim),
        claim.len() == 0 || !role.claims@[claim]@.valid(),
        forall|other: Seq<char>| #[trigger]
            role.claims@.contains_key(other) && text_lt(other, claim) ==> other.len() > 0
                && role.claims@[other]@.valid(),
    ensures
        claim.len() == 0 ==> r == Err::<(), AuthzooError>(
            AuthzooError::EmptyClaimName { role: role.name },
        ),
        claim.len() > 0 ==> (r matches Err(
            AuthzooError::EmptyClaimRequirement { role: of_role, claim: of_claim },
        ) && of_role@ == role.name@ && of_claim@ == claim),
{
    assert(role.faulty_claim(claim));
    let first = choose|first: Seq<char>| #[trigger]
        role.first_faulty_claim(first) && if first.len() == 0 {
            r->Err_0 == AuthzooError::EmptyClaimName { role: role.name }
        } else {
            r->Err_0 matches AuthzooError::EmptyClaimRequirement {
                role: of_role,
                claim: of_claim,
            } && of_role@ == role.name@ && of_claim@ == first
        };
    if first != claim {
        assert(text_lt(first, claim));
        assert(role.faulty_claim(first));
        assert(role.claims@.contains_key(first));
    }
}

/// An algorithm is found by its own name and by no other text.
pub proof fn names_and_algorithms(
    algorithm: JwtAlgorithm,
    name: &'static str,
    text: &str,
    found: Option<JwtAlgorithm>,
)
    requires
        call_ensures(JwtAlgorithm::name, (algorithm,), name),
        call_ensures(JwtAlgorithm::from_name, (text,), found),
    ensures
        found == Some(algorithm) <==> text@ == name@,
        found is Some ==> text@ == found->0.spec_name(),
{
    name_tells_algorithm(algorithm);
}

/// The first letters of an algorithm's name tell its family.
pub proof fn name_tells_family(algorithm: JwtAlgorithm, family: KeyFamily)
    requires
        call_ensures(JwtAlgorithm::family, (algorithm,), family),
    ensures
        family == KeyFamily::Hmac <==> algorithm.spec_name()[0] == 'H',
        family == KeyFamily::Rsa <==> algorithm.spec_name()[0] == 'R' || algorithm.spec_name()[0]
            == 'P',
        family == KeyFamily::Ec <==> algorithm.spec_name()[0] == 'E' && algorithm.spec_name()[1]
            == 'S',
        family == KeyFamily::Ed <==> algorithm.spec_name()[0] == 'E' && algorithm.spec_name()[1]
            == 'd',
        family == algorithm.spec_family(),
{
    reveal_strlit("HS256");
    reveal_strlit("HS384");
    reveal_strlit("HS512");
    reveal_strlit("RS256");
    reveal_strlit("RS384");
    reveal_strlit("RS512");
    reveal_strlit("PS256");
    reveal_strlit("PS384");
    reveal_strlit("PS512");
    reveal_strlit("ES256");
    reveal_strlit("ES384");
    reveal_strlit("EdDSA");
}

/// A role whose configuration names no algorithm allows one, RS256.
pub proof fn default_is_rs256(algorithms: Vec<JwtAlgorithm>)
    requires
        call_ensures(default_algorithms, (), algorithms),
    ensures
        algorithms@ == seq![JwtAlgorithm::Rs256],
{
}

/// A copy of a role has the same texts, algorithms and requirements.
pub proof fn copies_of_roles(role: RoleConfig, copy: RoleConfig, claim: Seq<char>)
    requires
        call_ensures(RoleConfig::clone, (&role,), copy),
    ensures
        copy.name@ == role.name@,
        copy.audience@ == role.audience@,
        copy.issuer@ == role.issuer@,
        copy.validation_key is Some <==> role.validation_key is Some,
        copy.validation_key is Some ==> copy.validation_key->0@ == role.validation_key->0@,
        copy.algorithms@ == role.algorithms@,
        copy.claims@.contains_key(claim) <==> role.claims@.contains_key(claim),
        copy.claims@.contains_key(claim) ==> copy.claims@[claim]@ == role.claims@[claim]@,
{
    assert(copy.validation_key.deep_view() == role.validation_key.deep_view());
    assert(copy.claims@.contains_key(claim) == copy.claims@.dom().contains(claim));
    assert(role.claims@.contains_key(claim) == role.claims@.dom().contains(claim));
}

/// A copy of a requirement lists the same values in the same form.
pub proof fn copies_of_requirements(requirement: ClaimRequirement, copy: ClaimRequirement, i: int)
    requires
        call_ensures(ClaimRequirement::clone, (&requirement,), copy),
    ensures
        match requirement {
            ClaimRequirement::Equals(value) => copy matches ClaimRequirement::Equals(copied)
                && copied@ == value@,
            ClaimRequirement::AnyOf(values) => copy matches ClaimRequirement::AnyOf(copied)
                && copied@.len() == values@.len() && (0 <= i < values@.len() ==> copied@[i]@
                == values@[i]@),
            ClaimRequirement::Detailed(detailed) => copy matches ClaimRequirement::Detailed(copied)
                && copied.any_of@.len() == detailed.any_of@.len() && (0 <= i
                < detailed.any_of@.len() ==> copied.any_of@[i]@ == detailed.any_of@[i]@),
        },
{
    match requirement {
        ClaimRequirement::Equals(_) => {},
        ClaimRequirement::AnyOf(values) => {
            let copied = copy->AnyOf_0;
            assert(copied.deep_view() == values.deep_view());
            assert(copied.deep_view().len() == copied@.len());
            assert(values.deep_view().len() == values@.len());
            if 0 <= i < values@.len() {
                assert(copied.deep_view()[i] == copied@[i]@);
                assert(values.deep_view()[i] == values@[i]@);
            }
        },
        ClaimRequirement::Detailed(detailed) => {
            let copied = (copy->Detailed_0).any_of;
            let values = detailed.any_of;
            assert(copied.deep_view() == values.deep_view());
            assert(copied.deep_view().len() == copied@.len());
            assert(values.deep_view().len() == values@.len());
            if 0 <= i < values@.len() {
                assert(copied.deep_view()[i] == copied@[i]@);
                assert(values.deep_view()[i] == values@[i]@);
            }
        },
    }
}

/// A copy of a configuration lists copies of the same roles in the same order.
pub proof fn copies_of_configurations(config: Config, copy: Config, i: int)
    requires
        call_ensures(Config::clone, (&config,), copy),
    ensures
        copy.roles@.len() == config.roles@.len(),
        0 <= i < copy.roles@.len() ==> copy.roles@[i].same_as(config.roles@[i]),
{
}

} // verus!
