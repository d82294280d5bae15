//! What a verified token says of its bearer.

use crate::config::ClaimRequirement;
use crate::error::AuthzooError;
use crate::name_map::NameMap;
use crate::text::{clone_option, same_text, text_lt};
use vstd::prelude::*;

verus! {

/// The value of a claim.
#[derive(Debug, PartialEq, Eq)]
pub struct ClaimValue {
    /// The text that the value is, if it is one.
    pub text: Option<String>,
    /// The value in JSON.
    pub json: String,
}

/// The value of a claim, over texts.
pub struct ClaimView {
    pub text: Option<Seq<char>>,
    pub json: Seq<char>,
}

impl View for ClaimValue {
    type V = ClaimView;

    open spec fn view(&self) -> ClaimView {
        ClaimView { text: self.text.deep_view(), json: self.json@ }
    }
}

impl Clone for ClaimValue {
    fn clone(&self) -> (r: Self)
        ensures
            r == *self,
    {
        ClaimValue { text: clone_option(&self.text), json: self.json.clone() }
    }
}

/// The claims of a map, over texts.
pub open spec fn claim_views(claims: Map<Seq<char>, ClaimValue>) -> Map<Seq<char>, ClaimView> {
    claims.map_values(|value: ClaimValue| value@)
}

/// The subject of a token, if it has one that is a text, and the other claims by
/// name.
pub struct ClaimsView {
    pub subject: Option<Seq<char>>,
    pub claims: Map<Seq<char>, ClaimView>,
}

impl ClaimsView {
    /// The text that is the value of a claim, if it is one.
    pub open spec fn value(self, name: Seq<char>) -> Option<Seq<char>> {
        if name == "sub"@ {
            self.subject
        } else if self.claims.contains_key(name) {
            self.claims[name].text
        } else {
            None
        }
    }

    /// The claim is there, and its value is no text.
    pub open spec fn claims_no_text(self, name: Seq<char>) -> bool {
        self.claims.contains_key(name) && self.claims[name].text is None
    }

    /// The claim is there, and if its value is a text, it is the given one.
    pub open spec fn claims_only(self, name: Seq<char>, value: Seq<char>) -> bool {
        self.claims.contains_key(name) && (self.claims[name].text matches Some(text) ==> text
            == value)
    }

    /// A requirement on the claim that its value does not meet.
    pub open spec fn unmet(
        self,
        required: Map<Seq<char>, ClaimRequirement>,
        name: Seq<char>,
    ) -> bool {
        required.contains_key(name) && !required[name]@.met_by(self.value(name))
    }

    /// The first unmet requirement in the order of the names.
    pub open spec fn first_unmet(
        self,
        required: Map<Seq<char>, ClaimRequirement>,
        name: Seq<char>,
    ) -> bool {
        &&& self.unmet(required, name)
        &&& forall|other: Seq<char>| #[trigger]
            self.unmet(required, other) ==> other == name || text_lt(name, other)
    }

    /// Every requirement is met.
    pub open spec fn satisfy(self, required: Map<Seq<char>, ClaimRequirement>) -> bool {
        forall|name: Seq<char>| !#[trigger] self.unmet(required, name)
    }
}

/// The claims that the payload of a token holds: the subject, if there is one
/// that is a text, is told apart from the other claims.
pub open spec fn claims_of_payload(payload: Map<Seq<char>, ClaimView>) -> ClaimsView {
    ClaimsView {
        subject: if payload.contains_key("sub"@) {
            payload["sub"@].text
        } else {
            None
        },
        claims: payload.remove("sub"@),
    }
}

/// The claims of a token whose signature and registered claims have been
/// checked.
#[derive(Debug)]
pub struct ValidatedClaims {
    sub: Option<String>,
    claims: NameMap<ClaimValue>,
}

impl View for ValidatedClaims {
    type V = ClaimsView;

    closed spec fn view(&self) -> ClaimsView {
        ClaimsView { subject: self.sub.deep_view(), claims: claim_views(self.claims@) }
    }
}

impl Clone for ValidatedClaims {
    fn clone(&self) -> (r: Self)
        ensures
            r@ == self@,
    {
        let r = ValidatedClaims { sub: clone_option(&self.sub), claims: self.claims.clone() };
        proof {
            assert(claim_views(r.claims@) =~= claim_views(self.claims@));
        }
        r
    }
}

impl ValidatedClaims {
    /// The claims that a payload holds.
    pub fn from_payload(payload: NameMap<ClaimValue>) -> (r: ValidatedClaims)
        ensures
            r@ == claims_of_payload(claim_views(payload@)),
    {
        let mut claims = payload;
        let sub = match claims.remove("sub") {
            Some(value) => value.text,
            None => None,
        };
        proof {
            assert(claim_views(claims@) =~= claim_views(payload@).remove("sub"@));
        }
        ValidatedClaims { sub, claims }
    }

    /// The subject of the token, if it has one that is a text.
    pub fn subject(&self) -> (r: Option<&str>)
        ensures
            r.deep_view() == self@.subject,
    {
        match &self.sub {
            Some(sub) => Some(sub.as_str()),
            None => None,
        }
    }

    /// The claims besides the subject.
    pub fn claims(&self) -> (r: &NameMap<ClaimValue>)
        ensures
            claim_views(r@) == self@.claims,
    {
        &self.claims
    }

    /// The value of a claim, if it is a text.
    pub fn claim_value(&self, claim_name: &str) -> (r: Option<&str>)
        ensures
            r.deep_view() == self@.value(claim_name@),
    {
        if same_text(claim_name, "sub") {
            return self.subject();
        }
        match self.claims.get(claim_name) {
            Some(ClaimValue { text: Some(text), json: _ }) => Some(text.as_str()),
            _ => None,
        }
    }

    /// The first requirement, in the order of the claims' names, that the
    /// claims do not meet.
    pub fn first_missing_required_claim<'a>(
        &self,
        required_claims: &'a NameMap<ClaimRequirement>,
    ) -> (r: Option<(&'a str, &'a ClaimRequirement)>)
        ensures
            r is None <==> self@.satisfy(required_claims@),
            r matches Some((claim, requirement)) ==> self@.first_unmet(required_claims@, claim@)
                && *requirement == required_claims@[claim@],
    {
        let n: usize = required_claims.len();
        let mut i: usize = 0;
        while i < n
            invariant
                i <= n,
                n == required_claims.names().len(),
                required_claims.listed(),
                forall|j: int|
                    0 <= j < i ==> !self@.unmet(
                        required_claims@,
                        #[trigger] required_claims.names()[j],
                    ),
            decreases n - i,
        {
            let claim = required_claims.name_at(i).as_str();
            let requirement = required_claims.value_at(i);
            if !requirement.matches(self.claim_value(claim)) {
                proof {
                    assert(self@.unmet(required_claims@, claim@));
                    assert forall|other: Seq<char>| #[trigger]
                        self@.unmet(required_claims@, other) implies other == claim@ || text_lt(
                        claim@,
                        other,
                    ) by {
                        let p = required_claims.names().index_of(other);
                        assert(required_claims.names().contains(other));
                        assert(required_claims.names()[p] == other);
                    }
                }
                return Some((claim, requirement));
            }
            i = i + 1;
        }
        proof {
            assert forall|name: Seq<char>| !#[trigger] self@.unmet(required_claims@, name) by {
                if required_claims@.contains_key(name) {
                    let p = required_claims.names().index_of(name);
                    assert(required_claims.names().contains(name));
                    assert(required_claims.names()[p] == name);
                }
            }
        }
        None
    }

    /// Demands that the claims meet every requirement.
    pub fn require_claims(&self, required_claims: &NameMap<ClaimRequirement>) -> (r: Result<
        (),
        AuthzooError,
    >)
        ensures
            r is Ok <==> self@.satisfy(required_claims@),
            r matches Err(e) ==> unmet_claim_error(self@, required_claims@, e),
    {
        match self.first_missing_required_claim(required_claims) {
            Some((claim, requirement)) => Err(
                AuthzooError::MissingClaim {
                    claim: claim.to_string(),
                    requirement: requirement.clone(),
                },
            ),
            None => Ok(()),
        }
    }
}

/// `e` tells of the first requirement that the claims do not meet.
pub open spec fn unmet_claim_error(
    claims: ClaimsView,
    required: Map<Seq<char>, ClaimRequirement>,
    e: AuthzooError,
) -> bool {
    e matches AuthzooError::MissingClaim { claim, requirement } && claims.first_unmet(
        required,
        claim@,
    ) && requirement@ == required[claim@]@
}

impl ClaimsView {
    /// Where nothing is required, every token satisfies it.
    pub proof fn nothing_required(self)
        ensures
            self.satisfy(Map::<Seq<char>, ClaimRequirement>::empty()),
    {
    }

    /// Where a subject is required, a token without one does not satisfy it.
    pub proof fn required_subject(self, required: Map<Seq<char>, ClaimRequirement>)
        requires
            required.contains_key("sub"@),
            self.subject is None,
        ensures
            !self.satisfy(required),
    {
        assert(self.unmet(required, "sub"@));
    }

    /// Claims that satisfy some requirements satisfy any part of them.
    pub proof fn satisfy_fewer(
        self,
        fewer: Map<Seq<char>, ClaimRequirement>,
        more: Map<Seq<char>, ClaimRequirement>,
    )
        requires
            fewer.submap_of(more),
            self.satisfy(more),
        ensures
            self.satisfy(fewer),
    {
        assert forall|name: Seq<char>| !#[trigger] self.unmet(fewer, name) by {
            assert(!self.unmet(more, name));
            assert(fewer.contains_key(name) == fewer.dom().contains(name));
            assert(more.contains_key(name) == more.dom().contains(name));
        }
    }

    /// Requirements are met together if and only if each is met on its own.
    pub proof fn satisfy_each(
        self,
        required: Map<Seq<char>, ClaimRequirement>,
        name: Seq<char>,
        requirement: ClaimRequirement,
    )
        requires
            !required.contains_key(name),
        ensures
            self.satisfy(required.insert(name, requirement)) <==> self.satisfy(required)
                && requirement@.met_by(self.value(name)),
    {
        let more = required.insert(name, requirement);
        if self.satisfy(more) {
            assert(!self.unmet(more, name));
            assert forall|other: Seq<char>| !#[trigger] self.unmet(required, other) by {
                assert(!self.unmet(more, other));
            }
        }
        if self.satisfy(required) && requirement@.met_by(self.value(name)) {
            assert forall|other: Seq<char>| !#[trigger] self.unmet(more, other) by {
                assert(!self.unmet(required, other));
            }
        }
    }
}

} // verus!
