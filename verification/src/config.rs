//! Roles as they are configured: whom they trust and what they demand.

use crate::error::AuthzooError;
use crate::name_map::NameMap;
use crate::text::{clone_option, join, join3, same_text, text_lt};
use vstd::prelude::*;

verus! {

/// All the roles of an application.
#[derive(Debug)]
pub struct Config {
    pub roles: Vec<RoleConfig>,
}

/// The tokens that are trusted to assume a role.
#[derive(Debug)]
pub struct RoleConfig {
    pub name: String,
    pub audience: String,
    pub issuer: String,
    pub validation_key: Option<String>,
    pub algorithms: Vec<JwtAlgorithm>,
    pub claims: NameMap<ClaimRequirement>,
}

/// The algorithms that a token can be signed with.
#[derive(Debug, Clone, Copy, PartialEq, Eq, Structural)]
pub enum JwtAlgorithm {
    Hs256,
    Hs384,
    Hs512,
    Rs256,
    Rs384,
    Rs512,
    Ps256,
    Ps384,
    Ps512,
    Es256,
    Es384,
    EdDsa,
}

/// What a role demands of one claim.
#[derive(Debug, PartialEq, Eq)]
pub enum ClaimRequirement {
    Equals(String),
    AnyOf(Vec<String>),
    Detailed(DetailedClaimRequirement),
}

/// The values of which a claim must have one.
#[derive(Debug, PartialEq, Eq)]
pub struct DetailedClaimRequirement {
    pub any_of: Vec<String>,
}

/// What a claim requirement says, over texts.
pub enum RequirementView {
    Equals(Seq<char>),
    AnyOf(Seq<Seq<char>>),
    Detailed(Seq<Seq<char>>),
}

impl RequirementView {
    /// The values that meet the requirement.
    pub open spec fn accepted(self) -> Seq<Seq<char>> {
        match self {
            RequirementView::Equals(value) => seq![value],
            RequirementView::AnyOf(values) => values,
            RequirementView::Detailed(values) => values,
        }
    }

    /// The claim has one of the accepted values.
    pub open spec fn met_by(self, value: Option<Seq<char>>) -> bool {
        value matches Some(v) && self.accepted().contains(v)
    }

    /// There is a value to accept, and the empty text is none.
    pub open spec fn valid(self) -> bool {
        &&& self.accepted().len() > 0
        &&& !self.accepted().contains(Seq::<char>::empty())
    }
}

impl View for ClaimRequirement {
    type V = RequirementView;

    open spec fn view(&self) -> RequirementView {
        match *self {
            ClaimRequirement::Equals(value) => RequirementView::Equals(value@),
            ClaimRequirement::AnyOf(values) => RequirementView::AnyOf(values.deep_view()),
            ClaimRequirement::Detailed(detailed) => RequirementView::Detailed(
                detailed.any_of.deep_view(),
            ),
        }
    }
}

/// What the formatter writes for a list of texts with `{:?}`.
pub uninterp spec fn debug_list(values: Seq<Seq<char>>) -> Seq<char>;

/// Calls std's `Debug` formatting of a list of strings, whose result depends on
/// the strings alone. How it quotes and escapes them is not stated.
#[verifier::external_body]
fn debug_text(values: &Vec<String>) -> (r: String)
    ensures
        r@ == debug_list(values.deep_view()),
{
    format!("{:?}", values)
}

/// A copy of a list of texts.
fn clone_texts(values: &Vec<String>) -> (r: Vec<String>)
    ensures
        r.deep_view() == values.deep_view(),
{
    let mut r: Vec<String> = Vec::new();
    let mut i: usize = 0;
    while i < values.len()
        invariant
            i <= values.len(),
            r.len() == i,
            forall|j: int| 0 <= j < i ==> #[trigger] r@[j]@ == values@[j]@,
        decreases values.len() - i,
    {
        r.push(values[i].clone());
        i = i + 1;
    }
    proof {
        assert(r.deep_view() =~= values.deep_view());
    }
    r
}

/// Is `value` one of `values`?
fn contains_text(values: &Vec<String>, value: &str) -> (r: bool)
    ensures
        r == values.deep_view().contains(value@),
{
    let mut i: usize = 0;
    while i < values.len()
        invariant
            i <= values.len(),
            forall|j: int| 0 <= j < i ==> #[trigger] values@[j]@ != value@,
        decreases values.len() - i,
    {
        if same_text(values[i].as_str(), value) {
            proof {
                assert(values.deep_view()[i as int] == value@);
            }
            return true;
        }
        i = i + 1;
    }
    proof {
        if values.deep_view().contains(value@) {
            let j = values.deep_view().index_of(value@);
            assert(values@[j]@ == value@);
        }
    }
    false
}

impl Clone for ClaimRequirement {
    fn clone(&self) -> (r: Self)
        ensures
            r@ == self@,
    {
        match self {
            ClaimRequirement::Equals(value) => ClaimRequirement::Equals(value.clone()),
            ClaimRequirement::AnyOf(values) => ClaimRequirement::AnyOf(clone_texts(values)),
            ClaimRequirement::Detailed(detailed) => ClaimRequirement::Detailed(detailed.clone()),
        }
    }
}

impl Clone for DetailedClaimRequirement {
    fn clone(&self) -> (r: Self)
        ensures
            r.any_of.deep_view() == self.any_of.deep_view(),
    {
        DetailedClaimRequirement { any_of: clone_texts(&self.any_of) }
    }
}

impl ClaimRequirement {
    /// Demands one value.
    pub fn equals(value: &str) -> (r: Self)
        ensures
            r@ == RequirementView::Equals(value@),
    {
        ClaimRequirement::Equals(value.to_string())
    }

    /// Demands one of several values.
    pub fn any_of(values: &[&str]) -> (r: Self)
        ensures
            r@ == RequirementView::AnyOf(values.deep_view()),
    {
        let mut r: Vec<String> = Vec::new();
        let mut i: usize = 0;
        while i < values.len()
            invariant
                i <= values.len(),
                r.len() == i,
                forall|j: int| 0 <= j < i ==> #[trigger] r@[j]@ == values@[j]@,
            decreases values.len() - i,
        {
            r.push(values[i].to_string());
            i = i + 1;
        }
        proof {
            assert(r.deep_view() =~= values.deep_view());
        }
        ClaimRequirement::AnyOf(r)
    }

    /// Rejects a requirement that accepts nothing, or the empty text.
    pub fn validate(&self, role: &str, claim: &str) -> (r: Result<(), AuthzooError>)
        ensures
            r is Ok <==> self@.valid(),
            r matches Err(e) ==> e matches AuthzooError::EmptyClaimRequirement {
                role: of_role,
                claim: of_claim,
            } && of_role@ == role@ && of_claim@ == claim@,
    {
        let is_empty = match self {
            ClaimRequirement::Equals(value) => {
                proof {
                    let empty = Seq::<char>::empty();
                    if value@.len() == 0 {
                        assert(value@ =~= empty);
                        assert(self@.accepted()[0] == empty);
                    }
                }
                value.as_str().is_empty()
            },
            ClaimRequirement::AnyOf(values) => values.is_empty() || contains_text(values, ""),
            ClaimRequirement::Detailed(detailed) => detailed.any_of.is_empty() || contains_text(
                &detailed.any_of,
                "",
            ),
        };
        proof {
            reveal_strlit("");
            assert(""@ =~= Seq::<char>::empty());
        }
        if is_empty {
            return Err(
                AuthzooError::EmptyClaimRequirement {
                    role: role.to_string(),
                    claim: claim.to_string(),
                },
            );
        }
        Ok(())
    }

    /// Does the claim's value meet the requirement?
    pub fn matches(&self, value: Option<&str>) -> (r: bool)
        ensures
            r == self@.met_by(value.deep_view()),
    {
        match value {
            None => false,
            Some(value) => match self {
                ClaimRequirement::Equals(required) => {
                    proof {
                        assert(self@.accepted()[0] == required@);
                    }
                    same_text(required.as_str(), value)
                },
                ClaimRequirement::AnyOf(required) => contains_text(required, value),
                ClaimRequirement::Detailed(required) => contains_text(&required.any_of, value),
            },
        }
    }

    /// The requirement in words.
    pub open spec fn description(&self) -> Seq<char> {
        match self@ {
            RequirementView::Equals(value) => "equals '"@ + value + "'"@,
            RequirementView::AnyOf(values) => "one of "@ + debug_list(values),
            RequirementView::Detailed(values) => "one of "@ + debug_list(values),
        }
    }

    /// The requirement in words.
    pub fn to_string(&self) -> (r: String)
        ensures
            r@ == self.description(),
    {
        match self {
            ClaimRequirement::Equals(value) => join3("equals '", value, "'"),
            ClaimRequirement::AnyOf(values) => join("one of ", &debug_text(values)),
            ClaimRequirement::Detailed(detailed) => join(
                "one of ",
                &debug_text(&detailed.any_of),
            ),
        }
    }
}

impl JwtAlgorithm {
    /// The registered name of the algorithm.
    pub open spec fn spec_name(self) -> Seq<char> {
        match self {
            JwtAlgorithm::Hs256 => "HS256"@,
            JwtAlgorithm::Hs384 => "HS384"@,
            JwtAlgorithm::Hs512 => "HS512"@,
            JwtAlgorithm::Rs256 => "RS256"@,
            JwtAlgorithm::Rs384 => "RS384"@,
            JwtAlgorithm::Rs512 => "RS512"@,
            JwtAlgorithm::Ps256 => "PS256"@,
            JwtAlgorithm::Ps384 => "PS384"@,
            JwtAlgorithm::Ps512 => "PS512"@,
            JwtAlgorithm::Es256 => "ES256"@,
            JwtAlgorithm::Es384 => "ES384"@,
            JwtAlgorithm::EdDsa => "EdDSA"@,
        }
    }

    /// The registered name of the algorithm.
    pub fn name(self) -> (r: &'static str)
        ensures
            r@ == self.spec_name(),
    {
        match self {
            JwtAlgorithm::Hs256 => "HS256",
            JwtAlgorithm::Hs384 => "HS384",
            JwtAlgorithm::Hs512 => "HS512",
            JwtAlgorithm::Rs256 => "RS256",
            JwtAlgorithm::Rs384 => "RS384",
            JwtAlgorithm::Rs512 => "RS512",
            JwtAlgorithm::Ps256 => "PS256",
            JwtAlgorithm::Ps384 => "PS384",
            JwtAlgorithm::Ps512 => "PS512",
            JwtAlgorithm::Es256 => "ES256",
            JwtAlgorithm::Es384 => "ES384",
            JwtAlgorithm::EdDsa => "EdDSA",
        }
    }
}

impl JwtAlgorithm {
    /// The algorithm of a name.
    pub open spec fn named(name: Seq<char>) -> Option<JwtAlgorithm> {
        if name == "HS256"@ {
            Some(JwtAlgorithm::Hs256)
        } else if name == "HS384"@ {
            Some(JwtAlgorithm::Hs384)
        } else if name == "HS512"@ {
            Some(JwtAlgorithm::Hs512)
        } else if name == "RS256"@ {
            Some(JwtAlgorithm::Rs256)
        } else if name == "RS384"@ {
            Some(JwtAlgorithm::Rs384)
        } else if name == "RS512"@ {
            Some(JwtAlgorithm::Rs512)
        } else if name == "PS256"@ {
            Some(JwtAlgorithm::Ps256)
        } else if name == "PS384"@ {
            Some(JwtAlgorithm::Ps384)
        } else if name == "PS512"@ {
            Some(JwtAlgorithm::Ps512)
        } else if name == "ES256"@ {
            Some(JwtAlgorithm::Es256)
        } else if name == "ES384"@ {
            Some(JwtAlgorithm::Es384)
        } else if name == "EdDSA"@ {
            Some(JwtAlgorithm::EdDsa)
        } else {
            None
        }
    }

    /// The algorithm of a name.
    pub fn from_name(name: &str) -> (r: Option<JwtAlgorithm>)
        ensures
            r == JwtAlgorithm::named(name@),
    {
        if same_text(name, "HS256") {
            Some(JwtAlgorithm::Hs256)
        } else if same_text(name, "HS384") {
            Some(JwtAlgorithm::Hs384)
        } else if same_text(name, "HS512") {
            Some(JwtAlgorithm::Hs512)
        } else if same_text(name, "RS256") {
            Some(JwtAlgorithm::Rs256)
        } else if same_text(name, "RS384") {
            Some(JwtAlgorithm::Rs384)
        } else if same_text(name, "RS512") {
            Some(JwtAlgorithm::Rs512)
        } else if same_text(name, "PS256") {
            Some(JwtAlgorithm::Ps256)
        } else if same_text(name, "PS384") {
            Some(JwtAlgorithm::Ps384)
        } else if same_text(name, "PS512") {
            Some(JwtAlgorithm::Ps512)
        } else if same_text(name, "ES256") {
            Some(JwtAlgorithm::Es256)
        } else if same_text(name, "ES384") {
            Some(JwtAlgorithm::Es384)
        } else if same_text(name, "EdDSA") {
            Some(JwtAlgorithm::EdDsa)
        } else {
            None
        }
    }
}

/// The name of an algorithm names it and no other.
pub proof fn name_tells_algorithm(algorithm: JwtAlgorithm)
    ensures
        JwtAlgorithm::named(algorithm.spec_name()) == Some(algorithm),
{
    reveal_strlit("HS256");
    assert("HS256"@[0] == 'H' && "HS256"@[2] == '2');
    reveal_strlit("HS384");
    assert("HS384"@[0] == 'H' && "HS384"@[2] == '3');
    reveal_strlit("HS512");
    assert("HS512"@[0] == 'H' && "HS512"@[2] == '5');
    reveal_strlit("RS256");
    assert("RS256"@[0] == 'R' && "RS256"@[2] == '2');
    reveal_strlit("RS384");
    assert("RS384"@[0] == 'R' && "RS384"@[2] == '3');
    reveal_strlit("RS512");
    assert("RS512"@[0] == 'R' && "RS512"@[2] == '5');
    reveal_strlit("PS256");
    assert("PS256"@[0] == 'P' && "PS256"@[2] == '2');
    reveal_strlit("PS384");
    assert("PS384"@[0] == 'P' && "PS384"@[2] == '3');
    reveal_strlit("PS512");
    assert("PS512"@[0] == 'P' && "PS512"@[2] == '5');
    reveal_strlit("ES256");
    assert("ES256"@[0] == 'E' && "ES256"@[2] == '2');
    reveal_strlit("ES384");
    assert("ES384"@[0] == 'E' && "ES384"@[2] == '3');
    reveal_strlit("EdDSA");
    assert("EdDSA"@[0] == 'E' && "EdDSA"@[2] == 'D');
}

/// The algorithms of a role whose configuration names none.
pub fn default_algorithms() -> (r: Vec<JwtAlgorithm>)
    ensures
        r@ == seq![JwtAlgorithm::Rs256],
{
    let mut r: Vec<JwtAlgorithm> = Vec::new();
    r.push(JwtAlgorithm::Rs256);
    r
}

impl Clone for RoleConfig {
    fn clone(&self) -> (r: Self)
        ensures
            r.same_as(*self),
    {
        let mut algorithms: Vec<JwtAlgorithm> = Vec::new();
        let mut i: usize = 0;
        while i < self.algorithms.len()
            invariant
                i <= self.algorithms.len(),
                algorithms@ == self.algorithms@.take(i as int),
            decreases self.algorithms.len() - i,
        {
            algorithms.push(self.algorithms[i]);
            i = i + 1;
        }
        let r = RoleConfig {
            name: self.name.clone(),
            audience: self.audience.clone(),
            issuer: self.issuer.clone(),
            validation_key: clone_option(&self.validation_key),
            algorithms,
            claims: self.claims.clone(),
        };
        proof {
            assert(r.algorithms@ =~= self.algorithms@);
        }
        r
    }
}

impl Clone for Config {
    fn clone(&self) -> (r: Self)
        ensures
            r.roles@.len() == self.roles@.len(),
            forall|i: int|
                0 <= i < r.roles@.len() ==> (#[trigger] r.roles@[i]).same_as(self.roles@[i]),
    {
        let mut roles: Vec<RoleConfig> = Vec::new();
        let mut i: usize = 0;
        while i < self.roles.len()
            invariant
                i <= self.roles.len(),
                roles.len() == i,
                forall|j: int| 0 <= j < i ==> (#[trigger] roles@[j]).same_as(self.roles@[j]),
            decreases self.roles.len() - i,
        {
            roles.push(self.roles[i].clone());
            i = i + 1;
        }
        Config { roles }
    }
}

impl RoleConfig {
    /// The two roles hold the same texts, algorithms and requirements.
    pub open spec fn same_as(self, other: RoleConfig) -> bool {
        &&& self.name@ == other.name@
        &&& self.audience@ == other.audience@
        &&& self.issuer@ == other.issuer@
        &&& self.validation_key.deep_view() == other.validation_key.deep_view()
        &&& self.algorithms@ == other.algorithms@
        &&& self.claims@.dom() == other.claims@.dom()
        &&& forall|claim: Seq<char>| #[trigger]
            self.claims@.contains_key(claim) ==> self.claims@[claim]@ == other.claims@[claim]@
    }

    /// The role demands something of a claim that has no name, or accepts
    /// nothing or the empty text for it.
    pub open spec fn faulty_claim(&self, claim: Seq<char>) -> bool {
        self.claims@.contains_key(claim) && (claim.len() == 0 || !self.claims@[claim]@.valid())
    }

    /// `claim` is the first faulty claim in the order of the names.
    pub open spec fn first_faulty_claim(&self, claim: Seq<char>) -> bool {
        &&& self.faulty_claim(claim)
        &&& forall|other: Seq<char>| #[trigger]
            self.faulty_claim(other) ==> other == claim || text_lt(claim, other)
    }

    /// Nothing in the role is left empty that a token is held against.
    pub open spec fn valid(&self) -> bool {
        &&& self.name@.len() > 0
        &&& self.audience@.len() > 0
        &&& self.issuer@.len() > 0
        &&& self.validation_key matches Some(key) ==> key@.len() > 0
        &&& self.algorithms@.len() > 0
        &&& forall|claim: Seq<char>| !#[trigger] self.faulty_claim(claim)
    }

    /// `e` tells of the first fault of the role.
    pub open spec fn rejected_with(&self, e: AuthzooError) -> bool {
        if self.name@.len() == 0 {
            e == AuthzooError::EmptyRoleName
        } else if self.audience@.len() == 0 {
            e == AuthzooError::EmptyAudience(self.name)
        } else if self.issuer@.len() == 0 {
            e == AuthzooError::EmptyIssuer(self.name)
        } else if self.validation_key matches Some(key) && key@.len() == 0 {
            e == AuthzooError::EmptyValidationKey(self.name)
        } else if self.algorithms@.len() == 0 {
            e == AuthzooError::EmptyAlgorithms(self.name)
        } else {
            exists|claim: Seq<char>| #[trigger]
                self.first_faulty_claim(claim) && if claim.len() == 0 {
                    e == AuthzooError::EmptyClaimName { role: self.name }
                } else {
                    e matches AuthzooError::EmptyClaimRequirement {
                        role: of_role,
                        claim: of_claim,
                    } && of_role@ == self.name@ && of_claim@ == claim
                }
        }
    }

    /// Rejects a role that leaves something empty, for the first such thing.
    pub fn validate(&self) -> (r: Result<(), AuthzooError>)
        ensures
            r is Ok <==> self.valid(),
            r matches Err(e) ==> self.rejected_with(e),
    {
        if self.name.as_str().is_empty() {
            return Err(AuthzooError::EmptyRoleName);
        }
        if self.audience.as_str().is_empty() {
            return Err(AuthzooError::EmptyAudience(self.name.clone()));
        }
        if self.issuer.as_str().is_empty() {
            return Err(AuthzooError::EmptyIssuer(self.name.clone()));
        }
        if let Some(key) = &self.validation_key {
            if key.as_str().is_empty() {
                return Err(AuthzooError::EmptyValidationKey(self.name.clone()));
            }
        }
        if self.algorithms.is_empty() {
            return Err(AuthzooError::EmptyAlgorithms(self.name.clone()));
        }
        let n: usize = self.claims.len();
        let mut i: usize = 0;
        while i < n
            invariant
                i <= n,
                n == self.claims.names().len(),
                self.claims.listed(),
                self.name@.len() > 0,
                self.audience@.len() > 0,
                self.issuer@.len() > 0,
                self.validation_key matches Some(key) ==> key@.len() > 0,
                self.algorithms@.len() > 0,
                forall|j: int| 0 <= j < i ==> !self.faulty_claim(#[trigger] self.claims.names()[j]),
            decreases n - i,
        {
            let claim = self.claims.name_at(i);
            let requirement = self.claims.value_at(i);
            proof {
                assert forall|other: Seq<char>| #[trigger]
                    self.faulty_claim(other) implies other == claim@ || text_lt(claim@, other) by {
                    let p = self.claims.names().index_of(other);
                    assert(self.claims.names().contains(other));
                    assert(self.claims.names()[p] == other);
                }
            }
            if claim.as_str().is_empty() {
                proof {
                    assert(self.first_faulty_claim(claim@));
                }
                return Err(AuthzooError::EmptyClaimName { role: self.name.clone() });
            }
            let checked = requirement.validate(self.name.as_str(), claim.as_str());
            if checked.is_err() {
                proof {
                    assert(self.first_faulty_claim(claim@));
                }
                return checked;
            }
            i = i + 1;
        }
        proof {
            assert forall|claim: Seq<char>| !#[trigger] self.faulty_claim(claim) by {
                if self.faulty_claim(claim) {
                    let p = self.claims.names().index_of(claim);
                    assert(self.claims.names().contains(claim));
                    assert(self.claims.names()[p] == claim);
                }
            }
        }
        Ok(())
    }

    /// May a token of the role be signed with the algorithm?
    pub(crate) fn allows_algorithm(&self, algorithm: JwtAlgorithm) -> (r: bool)
        ensures
            r == self.algorithms@.contains(algorithm),
    {
        let mut i: usize = 0;
        while i < self.algorithms.len()
            invariant
                i <= self.algorithms.len(),
                forall|j: int| 0 <= j < i ==> self.algorithms@[j] != algorithm,
            decreases self.algorithms.len() - i,
        {
            if self.algorithms[i] == algorithm {
                return true;
            }
            i = i + 1;
        }
        false
    }
}

impl RequirementView {
    /// A requirement of one value is the same as one of a list with that value
    /// alone, and the two ways to write a list mean the same.
    pub proof fn forms_agree(value: Seq<char>, values: Seq<Seq<char>>, claim: Option<Seq<char>>)
        ensures
            RequirementView::Equals(value).met_by(claim) == RequirementView::AnyOf(
                seq![value],
            ).met_by(claim),
            RequirementView::Equals(value).valid() == RequirementView::AnyOf(seq![value]).valid(),
            RequirementView::Detailed(values).met_by(claim) == RequirementView::AnyOf(values).met_by(
                claim,
            ),
            RequirementView::Detailed(values).valid() == RequirementView::AnyOf(values).valid(),
    {
    }

    /// A requirement of one value is met by that value and no other.
    pub proof fn equals_meets_exactly(value: Seq<char>, claim: Option<Seq<char>>)
        ensures
            RequirementView::Equals(value).met_by(claim) <==> claim == Some(value),
    {
        assert(seq![value][0] == value);
    }

    /// No requirement is met by a claim that is absent or not a text, and a
    /// valid one is not met by the empty text either.
    pub proof fn nothing_meets_no_requirement(self)
        ensures
            !self.met_by(None),
            self.valid() ==> !self.met_by(Some(Seq::<char>::empty())),
    {
    }

    /// A valid requirement can be met.
    pub proof fn valid_can_be_met(self)
        requires
            self.valid(),
        ensures
            exists|value: Seq<char>| #[trigger] self.met_by(Some(value)),
    {
        let value = self.accepted()[0];
        assert(self.accepted().contains(value));
        assert(self.met_by(Some(value)));
    }
}

} // verus!
