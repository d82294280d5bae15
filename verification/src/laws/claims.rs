//! What holds of the claims of a token.

use crate::claims::{
    claim_views, claims_of_payload, unmet_claim_error, ClaimValue, ClaimView, ClaimsView,
    ValidatedClaims,
};
use crate::config::ClaimRequirement;
use crate::decoder::{payload_of, required_claims, VerifiedToken};
use crate::error::AuthzooError;
use crate::name_map::NameMap;
use crate::text::{text_lt, text_lt_irreflexive, text_lt_transitive};
use vstd::prelude::*;

verus! {

/// A claim has the value that the payload of the token gives it, the subject no
/// less than any other.
pub proof fn values_come_from_the_payload(payload: Map<Seq<char>, ClaimView>, name: Seq<char>)
    ensures
        claims_of_payload(payload).value(name) == if payload.contains_key(name) {
            payload[name].text
        } else {
            None
        },
        claims_of_payload(payload).claims.contains_key(name) <==> payload.contains_key(name) && name
            != "sub"@,
        claims_of_payload(payload).claims.contains_key(name) ==> claims_of_payload(
            payload,
        ).claims[name] == payload[name],
        claims_of_payload(payload).subject == claims_of_payload(payload).value("sub"@),
{
}

/// A lookup of a claim answers the text that the payload of the token gives it.
pub proof fn claims_are_looked_up_in_the_payload(
    payload: NameMap<ClaimValue>,
    claims: ValidatedClaims,
    name: &str,
    value: Option<&str>,
    subject: Option<&str>,
    others: &NameMap<ClaimValue>,
)
    requires
        call_ensures(ValidatedClaims::from_payload, (payload,), claims),
        call_ensures(ValidatedClaims::claim_value, (&claims, name), value),
        call_ensures(ValidatedClaims::subject, (&claims,), subject),
        call_ensures(ValidatedClaims::claims, (&claims,), others),
    ensures
        value is Some <==> payload@.contains_key(name@) && payload@[name@].text is Some,
        value is Some ==> value->0@ == payload@[name@].text->0@,
        name@ == "sub"@ ==> (subject is Some <==> value is Some),
        name@ == "sub"@ && subject is Some ==> subject->0@ == value->0@,
        others@.contains_key(name@) <==> payload@.contains_key(name@) && name@ != "sub"@,
        others@.contains_key(name@) ==> others@[name@]@ == payload@[name@]@,
{
    let views = claim_views(payload@);
    values_come_from_the_payload(views, name@);
    assert(value.deep_view() == claims@.value(name@));
    assert(subject.deep_view() == claims@.subject);
    assert(views.contains_key(name@) <==> payload@.contains_key(name@));
    if payload@.contains_key(name@) {
        assert(views[name@].text == payload@[name@].text.deep_view());
    }
    assert(claim_views(others@).contains_key(name@) <==> others@.contains_key(name@));
    if others@.contains_key(name@) {
        assert(claim_views(others@)[name@] == others@[name@]@);
    }
}

/// The value of a claim is seen by its text and its JSON, whole.
pub proof fn claims_are_seen_whole(value: ClaimValue)
    ensures
        value@.text is Some <==> value.text is Some,
        value.text is Some ==> value@.text == Some(value.text->0@),
        value@.json == value.json@,
{
}

/// Requirements are satisfied if and only if each claim that they name has a
/// text that its requirement accepts.
pub proof fn every_requirement_counts(
    claims: ClaimsView,
    required: Map<Seq<char>, ClaimRequirement>,
)
    ensures
        claims.satisfy(required) <==> forall|name: Seq<char>| #[trigger]
            required.contains_key(name) ==> claims.value(name) is Some
                && required[name]@.accepted().contains(claims.value(name)->0),
{
    if claims.satisfy(required) {
        assert forall|name: Seq<char>| #[trigger] required.contains_key(name) implies claims.value(
            name,
        ) is Some && required[name]@.accepted().contains(claims.value(name)->0) by {
            assert(!claims.unmet(required, name));
        }
    }
    if forall|name: Seq<char>| #[trigger]
        required.contains_key(name) ==> claims.value(name) is Some
            && required[name]@.accepted().contains(claims.value(name)->0) {
        assert forall|name: Seq<char>| !#[trigger] claims.unmet(required, name) by {
            assert(required.contains_key(name) ==> claims.value(name) is Some);
        }
    }
}

/// The error about unmet requirements names a claim that is required and has no
/// accepted text, with what is required of it, and every required claim whose
/// name comes before has one.
pub proof fn first_unmet_claim_is_told(
    claims: ClaimsView,
    required: Map<Seq<char>, ClaimRequirement>,
    e: AuthzooError,
    other: Seq<char>,
)
    requires
        unmet_claim_error(claims, required, e),
    ensures
        e matches AuthzooError::MissingClaim { claim, requirement } && required.contains_key(claim@)
            && requirement@ == required[claim@]@ && !(claims.value(claim@) is Some
            && required[claim@]@.accepted().contains(claims.value(claim@)->0)) && (
        required.contains_key(other) && text_lt(other, claim@) ==> claims.value(other) is Some
            && required[other]@.accepted().contains(claims.value(other)->0)),
{
    let claim = e->MissingClaim_claim@;
    if required.contains_key(other) && text_lt(other, claim) {
        if claims.unmet(required, other) {
            if other != claim {
                text_lt_transitive(other, claim, other);
            }
            text_lt_irreflexive(other);
        }
    }
}

/// Holding the claims of a payload against requirements succeeds if and only if
/// each required claim has an accepted text there; else both functions tell the
/// required claim without one whose name comes first.
pub proof fn payload_decides_requirements(
    payload: NameMap<ClaimValue>,
    claims: ValidatedClaims,
    required: &NameMap<ClaimRequirement>,
    r: Result<(), AuthzooError>,
    missing: Option<(&str, &ClaimRequirement)>,
)
    requires
        call_ensures(ValidatedClaims::from_payload, (payload,), claims),
        call_ensures(ValidatedClaims::require_claims, (&claims, required), r),
        call_ensures(ValidatedClaims::first_missing_required_claim, (&claims, required), missing),
    ensures
        r is Ok <==> forall|name: Seq<char>| #[trigger]
            required@.contains_key(name) ==> payload@.contains_key(name)
                && payload@[name].text is Some && required@[name]@.accepted().contains(
                payload@[name].text->0@,
            ),
        r is Ok <==> missing is None,
        missing matches Some((name, requirement)) ==> required@.contains_key(name@) && *requirement
            == required@[name@] && !(payload@.contains_key(name@) && payload@[name@].text is Some
            && requirement@.accepted().contains(payload@[name@].text->0@)),
        r matches Err(e) ==> (e matches AuthzooError::MissingClaim { claim, requirement }
            && missing is Some && claim@ == (missing->0).0@ && requirement@ == (missing->0).1@),
{
    let views = claim_views(payload@);
    assert forall|name: Seq<char>|
        #![trigger required@.contains_key(name)]
        #![trigger payload@.contains_key(name)]
        claims@.value(name) == if payload@.contains_key(name) {
            payload@[name].text.deep_view()
        } else {
            None
        } by {
        values_come_from_the_payload(views, name);
        assert(views.contains_key(name) <==> payload@.contains_key(name));
    }
    every_requirement_counts(claims@, required@);
    if r is Err {
        let claim = r->Err_0->MissingClaim_claim@;
        let name = (missing->0).0@;
        first_unmet_claim_is_told(claims@, required@, r->Err_0, name);
        assert(claims@.unmet(required@, claim) && claims@.unmet(required@, name));
        if claim != name {
            text_lt_transitive(claim, name, claim);
            text_lt_irreflexive(claim);
        }
    }
    if missing is Some {
        assert(claims@.unmet(required@, (missing->0).0@));
    }
}

/// A claim that has a text only if it is a given one, or has none at all.
pub proof fn claims_with_known_texts(claims: ClaimsView, name: Seq<char>, text: Seq<char>)
    ensures
        claims.claims_only(name, text) <==> claims.claims.contains_key(name) && (
        claims.claims[name].text is None || claims.claims[name].text == Some(text)),
        claims.claims_no_text(name) <==> claims.claims.contains_key(name)
            && claims.claims[name].text is None,
{
}

/// A copy of the claims of a token is equal to them.
pub proof fn copies_of_claims(claims: ValidatedClaims, copy: ValidatedClaims)
    requires
        call_ensures(ValidatedClaims::clone, (&claims,), copy),
    ensures
        copy@ == claims@,
{
}

/// A verified token names a role if and only if it has a time of expiry, and the
/// role's issuer and audience are among its own.
pub proof fn token_names_issuer_and_audience(
    token: VerifiedToken,
    audience: Seq<char>,
    issuer: Seq<char>,
)
    ensures
        token.names(audience, issuer) <==> token.expires_at is Some && token.issuers is Some
            && token.issuers->0.contains(issuer) && token.audiences is Some
            && token.audiences->0.contains(audience),
        token.never_expires() <==> token.expires_at == Some(0xffff_ffff_ffff_ffffu64),
        token.claims_only("iss"@, issuer) <==> token.claims.contains_key("iss"@) && (
        token.claims["iss"@].text is None || token.claims["iss"@].text == Some(issuer)),
        token.claims_only("aud"@, audience) <==> token.claims.contains_key("aud"@) && (
        token.claims["aud"@].text is None || token.claims["aud"@].text == Some(audience)),
        token.claims_no_text("exp"@) <==> token.claims.contains_key("exp"@)
            && token.claims["exp"@].text is None,
{
}

/// A token must have a time of expiry, an issuer and an audience; no other claim
/// is asked for.
pub proof fn claims_that_are_asked_for(name: Seq<char>)
    ensures
        required_claims().contains(name) <==> name == "exp"@ || name == "iss"@ || name == "aud"@,
{
    assert(required_claims()[0] == "exp"@);
    assert(required_claims()[1] == "iss"@);
    assert(required_claims()[2] == "aud"@);
}

/// A payload read from a list has, under each name, what the last entry of that
/// name gives.
pub proof fn last_claim_counts(entries: Seq<(String, Option<String>, String)>, i: int)
    requires
        0 <= i < entries.len(),
        forall|j: int| i < j < entries.len() ==> (#[trigger] entries[j]).0@ != entries[i].0@,
    ensures
        payload_of(entries).contains_key(entries[i].0@),
        payload_of(entries)[entries[i].0@].json == entries[i].2@,
        payload_of(entries)[entries[i].0@].text is Some <==> entries[i].1 is Some,
        entries[i].1 is Some ==> payload_of(entries)[entries[i].0@].text == Some(entries[i].1->0@),
    decreases entries.len(),
{
    if i < entries.len() - 1 {
        let t = entries.drop_last();
        assert forall|j: int| i < j < t.len() implies (#[trigger] t[j]).0@ != t[i].0@ by {
            assert(t[j] == entries[j]);
        }
        last_claim_counts(t, i);
        assert(entries[entries.len() - 1].0@ != entries[i].0@);
    }
}

/// A payload read from a list has no other names than its entries.
pub proof fn entries_give_all_claims(
    entries: Seq<(String, Option<String>, String)>,
    name: Seq<char>,
)
    requires
        payload_of(entries).contains_key(name),
    ensures
        exists|i: int| 0 <= i < entries.len() && (#[trigger] entries[i]).0@ == name,
    decreases entries.len(),
{
    if entries.len() > 0 {
        let n = entries.len() - 1;
        if entries[n].0@ != name {
            entries_give_all_claims(entries.drop_last(), name);
            let i = choose|i: int| 0 <= i < n && (#[trigger] entries.drop_last()[i]).0@ == name;
            assert(entries[i].0@ == name);
        }
    }
}

} // verus!
