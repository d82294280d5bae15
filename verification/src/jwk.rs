//! Published keys, and which of them fits a token.

use crate::config::JwtAlgorithm;
use crate::error::KeyError;
use crate::text::{clone_option, same_text};
use vstd::prelude::*;

verus! {

/// A published key: how it may be used, and what it is made of.
#[derive(Debug, PartialEq, Eq)]
pub struct Jwk {
    /// The id by which tokens refer to the key.
    pub key_id: Option<String>,
    /// What the key is meant for.
    pub public_key_use: Option<KeyUse>,
    /// The name of the one algorithm that the key is meant for.
    pub key_algorithm: Option<String>,
    /// The numbers that make up the key.
    pub parameters: KeyParameters,
}

/// What a key is meant for.
#[derive(Debug, PartialEq, Eq)]
pub enum KeyUse {
    Signature,
    Encryption,
    Other(String),
}

/// The numbers that make up a key, in URL-safe base64.
#[derive(Debug, PartialEq, Eq)]
pub enum KeyParameters {
    /// The coordinates `x` and `y` of a point on a curve.
    EllipticCurve(String, String),
    /// The modulus `n` and the exponent `e`.
    Rsa(String, String),
    /// A shared secret.
    Octet(String),
    /// The public half of a key pair.
    OctetKeyPair(String),
}

/// A published key, over texts.
pub struct JwkView {
    pub key_id: Option<Seq<char>>,
    pub public_key_use: Option<KeyUseView>,
    pub key_algorithm: Option<Seq<char>>,
    pub parameters: ParametersView,
}

/// What a key is meant for, over texts.
pub enum KeyUseView {
    Signature,
    Encryption,
    Other(Seq<char>),
}

/// The numbers that make up a key, over texts.
pub enum ParametersView {
    EllipticCurve(Seq<char>, Seq<char>),
    Rsa(Seq<char>, Seq<char>),
    Octet(Seq<char>),
    OctetKeyPair(Seq<char>),
}

impl View for KeyUse {
    type V = KeyUseView;

    open spec fn view(&self) -> KeyUseView {
        match *self {
            KeyUse::Signature => KeyUseView::Signature,
            KeyUse::Encryption => KeyUseView::Encryption,
            KeyUse::Other(text) => KeyUseView::Other(text@),
        }
    }
}

impl View for KeyParameters {
    type V = ParametersView;

    open spec fn view(&self) -> ParametersView {
        match *self {
            KeyParameters::EllipticCurve(x, y) => ParametersView::EllipticCurve(x@, y@),
            KeyParameters::Rsa(n, e) => ParametersView::Rsa(n@, e@),
            KeyParameters::Octet(value) => ParametersView::Octet(value@),
            KeyParameters::OctetKeyPair(x) => ParametersView::OctetKeyPair(x@),
        }
    }
}

impl View for Jwk {
    type V = JwkView;

    open spec fn view(&self) -> JwkView {
        JwkView {
            key_id: self.key_id.deep_view(),
            public_key_use: match self.public_key_use {
                Some(public_key_use) => Some(public_key_use@),
                None => None,
            },
            key_algorithm: self.key_algorithm.deep_view(),
            parameters: self.parameters@,
        }
    }
}

/// The keys of a list, over texts.
pub open spec fn jwk_views(jwks: Seq<Jwk>) -> Seq<JwkView> {
    jwks.map_values(|jwk: Jwk| jwk@)
}

impl Clone for Jwk {
    fn clone(&self) -> (r: Self)
        ensures
            r == *self,
    {
        Jwk {
            key_id: clone_option(&self.key_id),
            public_key_use: match &self.public_key_use {
                Some(KeyUse::Signature) => Some(KeyUse::Signature),
                Some(KeyUse::Encryption) => Some(KeyUse::Encryption),
                Some(KeyUse::Other(text)) => Some(KeyUse::Other(text.clone())),
                None => None,
            },
            key_algorithm: clone_option(&self.key_algorithm),
            parameters: self.parameters.clone(),
        }
    }
}

impl Clone for KeyParameters {
    fn clone(&self) -> (r: Self)
        ensures
            r == *self,
    {
        match self {
            KeyParameters::EllipticCurve(x, y) => KeyParameters::EllipticCurve(
                x.clone(),
                y.clone(),
            ),
            KeyParameters::Rsa(n, e) => KeyParameters::Rsa(n.clone(), e.clone()),
            KeyParameters::Octet(value) => KeyParameters::Octet(value.clone()),
            KeyParameters::OctetKeyPair(x) => KeyParameters::OctetKeyPair(x.clone()),
        }
    }
}

/// The families of algorithms, each with its own kind of key.
#[derive(Debug, Clone, Copy, PartialEq, Eq, Structural)]
pub enum KeyFamily {
    Hmac,
    Rsa,
    Ec,
    Ed,
}

impl JwtAlgorithm {
    /// The family of the algorithm.
    pub open spec fn spec_family(self) -> KeyFamily {
        match self {
            JwtAlgorithm::Hs256 | JwtAlgorithm::Hs384 | JwtAlgorithm::Hs512 => KeyFamily::Hmac,
            JwtAlgorithm::Rs256
            | JwtAlgorithm::Rs384
            | JwtAlgorithm::Rs512
            | JwtAlgorithm::Ps256
            | JwtAlgorithm::Ps384
            | JwtAlgorithm::Ps512 => KeyFamily::Rsa,
            JwtAlgorithm::Es256 | JwtAlgorithm::Es384 => KeyFamily::Ec,
            JwtAlgorithm::EdDsa => KeyFamily::Ed,
        }
    }

    /// The family of the algorithm.
    pub fn family(self) -> (r: KeyFamily)
        ensures
            r == self.spec_family(),
    {
        match self {
            JwtAlgorithm::Hs256 | JwtAlgorithm::Hs384 | JwtAlgorithm::Hs512 => KeyFamily::Hmac,
            JwtAlgorithm::Rs256
            | JwtAlgorithm::Rs384
            | JwtAlgorithm::Rs512
            | JwtAlgorithm::Ps256
            | JwtAlgorithm::Ps384
            | JwtAlgorithm::Ps512 => KeyFamily::Rsa,
            JwtAlgorithm::Es256 | JwtAlgorithm::Es384 => KeyFamily::Ec,
            JwtAlgorithm::EdDsa => KeyFamily::Ed,
        }
    }
}

impl ParametersView {
    /// The family of algorithms that a key of this kind serves.
    pub open spec fn family(self) -> KeyFamily {
        match self {
            ParametersView::EllipticCurve(_, _) => KeyFamily::Ec,
            ParametersView::Rsa(_, _) => KeyFamily::Rsa,
            ParametersView::Octet(_) => KeyFamily::Hmac,
            ParametersView::OctetKeyPair(_) => KeyFamily::Ed,
        }
    }
}

impl JwkView {
    /// The key may verify a token signed with the algorithm: it is not meant
    /// for anything but signatures, nor for another algorithm, and is of the
    /// kind that the algorithm takes.
    pub open spec fn matches_algorithm(self, algorithm: JwtAlgorithm) -> bool {
        &&& self.public_key_use matches Some(u) ==> u is Signature
        &&& self.key_algorithm matches Some(name) ==> name == algorithm.spec_name()
        &&& self.parameters.family() == algorithm.spec_family()
    }

    /// The key has the id.
    pub open spec fn has_id(self, kid: Seq<char>) -> bool {
        self.key_id == Some(kid)
    }
}

/// Does the key's own algorithm, if it names one, equal the given one?
pub fn key_algorithm_matches(jwk: &Jwk, algorithm: JwtAlgorithm) -> (r: bool)
    ensures
        r == (jwk@.key_algorithm matches Some(name) ==> name == algorithm.spec_name()),
{
    match &jwk.key_algorithm {
        Some(name) => same_text(name.as_str(), algorithm.name()),
        None => true,
    }
}

/// May the key verify a token signed with the algorithm?
pub fn jwk_matches_algorithm(jwk: &Jwk, algorithm: JwtAlgorithm) -> (r: bool)
    ensures
        r == jwk@.matches_algorithm(algorithm),
{
    match &jwk.public_key_use {
        Some(KeyUse::Signature) | None => {},
        _ => {
            return false;
        },
    }
    if !key_algorithm_matches(jwk, algorithm) {
        return false;
    }
    let family = match &jwk.parameters {
        KeyParameters::EllipticCurve(_, _) => KeyFamily::Ec,
        KeyParameters::Rsa(_, _) => KeyFamily::Rsa,
        KeyParameters::Octet(_) => KeyFamily::Hmac,
        KeyParameters::OctetKeyPair(_) => KeyFamily::Ed,
    };
    family == algorithm.family()
}

/// Rejects a key that may not verify a token signed with the algorithm.
pub fn ensure_jwk_compatible(jwk: &Jwk, algorithm: JwtAlgorithm) -> (r: Result<(), KeyError>)
    ensures
        r is Ok <==> jwk@.matches_algorithm(algorithm),
        r matches Err(e) ==> e == (KeyError::IncompatibleKey { key_id: jwk.key_id, algorithm }),
{
    if !jwk_matches_algorithm(jwk, algorithm) {
        return Err(KeyError::IncompatibleKey { key_id: clone_option(&jwk.key_id), algorithm });
    }
    Ok(())
}

/// The key at `i` is the one that a token refers to: with a key id in its
/// header, the first key that has the id; without, the only key that may
/// verify the token. Either way the key may verify the token.
pub open spec fn selects(
    jwks: Seq<JwkView>,
    kid: Option<Seq<char>>,
    algorithm: JwtAlgorithm,
    i: int,
) -> bool {
    &&& 0 <= i < jwks.len()
    &&& jwks[i].matches_algorithm(algorithm)
    &&& match kid {
        Some(kid) => jwks[i].has_id(kid) && forall|j: int|
            0 <= j < i ==> !(#[trigger] jwks[j]).has_id(kid),
        None => forall|j: int|
            0 <= j < jwks.len() && j != i ==> !(#[trigger] jwks[j]).matches_algorithm(algorithm),
    }
}

/// `e` tells why no key is selected.
pub open spec fn selection_error(
    jwks: Seq<JwkView>,
    kid: Option<Seq<char>>,
    algorithm: JwtAlgorithm,
    e: KeyError,
) -> bool {
    match kid {
        Some(kid) => if forall|j: int| 0 <= j < jwks.len() ==> !(#[trigger] jwks[j]).has_id(kid) {
            e matches KeyError::NoKeyForKid(id) && id@ == kid
        } else {
            &&& e matches KeyError::IncompatibleKey { key_id, algorithm: named } && named
                == algorithm && key_id.deep_view() == Some(kid)
            &&& exists|i: int|
                0 <= i < jwks.len() && (#[trigger] jwks[i]).has_id(kid)
                    && !jwks[i].matches_algorithm(algorithm) && forall|j: int|
                    0 <= j < i ==> !(#[trigger] jwks[j]).has_id(kid)
        },
        None => if forall|j: int|
            0 <= j < jwks.len() ==> !(#[trigger] jwks[j]).matches_algorithm(algorithm) {
            e == KeyError::NoKeyForAlgorithm(algorithm)
        } else {
            &&& e == KeyError::SeveralKeysForAlgorithm(algorithm)
            &&& exists|i: int, j: int|
                0 <= i < j < jwks.len() && (#[trigger] jwks[i]).matches_algorithm(algorithm) && (
                #[trigger] jwks[j]).matches_algorithm(algorithm)
        },
    }
}

/// Picks the key that a token refers to.
pub fn select_jwk_for_token<'a>(
    jwks: &'a Vec<Jwk>,
    kid: &Option<String>,
    algorithm: JwtAlgorithm,
) -> (r: Result<&'a Jwk, KeyError>)
    ensures
        r matches Ok(jwk) ==> exists|i: int| #[trigger]
            selects(jwk_views(jwks@), kid.deep_view(), algorithm, i) && *jwk == jwks@[i],
        r matches Err(e) ==> selection_error(jwk_views(jwks@), kid.deep_view(), algorithm, e)
            && forall|i: int| !#[trigger]
            selects(jwk_views(jwks@), kid.deep_view(), algorithm, i),
{
    let ghost views = jwk_views(jwks@);
    let ghost wanted = kid.deep_view();
    if let Some(id) = kid {
        let mut i: usize = 0;
        while i < jwks.len()
            invariant
                i <= jwks.len(),
                views == jwk_views(jwks@),
                wanted == kid.deep_view(),
                wanted == Some(id@),
                forall|j: int| 0 <= j < i ==> !(#[trigger] views[j]).has_id(id@),
            decreases jwks.len() - i,
        {
            let found = match &jwks[i].key_id {
                Some(key_id) => same_text(key_id.as_str(), id.as_str()),
                None => false,
            };
            proof {
                assert(views[i as int] == jwks@[i as int]@);
                assert(found == views[i as int].has_id(id@));
            }
            if found {
                let checked = ensure_jwk_compatible(&jwks[i], algorithm);
                match checked {
                    Ok(()) => {
                        proof {
                            assert(selects(views, wanted, algorithm, i as int));
                        }
                        return Ok(&jwks[i]);
                    },
                    Err(e) => {
                        proof {
                            assert forall|k: int| !#[trigger]
                                selects(views, wanted, algorithm, k) by {
                                if selects(views, wanted, algorithm, k) {
                                    if k < i {
                                        assert(!views[k].has_id(id@));
                                    } else if k > i {
                                        assert(!views[i as int].has_id(id@));
                                    }
                                }
                            }
                        }
                        return Err(e);
                    },
                }
            }
            i = i + 1;
        }
        return Err(KeyError::NoKeyForKid(id.clone()));
    }
    let mut first: Option<usize> = None;
    let mut i: usize = 0;
    while i < jwks.len()
        invariant
            i <= jwks.len(),
            wanted == kid.deep_view(),
            wanted is None,
            views == jwk_views(jwks@),
            match first {
                None => forall|j: int|
                    0 <= j < i ==> !(#[trigger] views[j]).matches_algorithm(algorithm),
                Some(f) => f < i && views[f as int].matches_algorithm(algorithm) && forall|j: int|
                    0 <= j < i && j != f ==> !(#[trigger] views[j]).matches_algorithm(algorithm),
            },
        decreases jwks.len() - i,
    {
        proof {
            assert(views[i as int] == jwks@[i as int]@);
        }
        if jwk_matches_algorithm(&jwks[i], algorithm) {
            if let Some(f) = first {
                proof {
                    assert(views[f as int].matches_algorithm(algorithm)
                        && views[i as int].matches_algorithm(algorithm));
                    assert forall|k: int| !#[trigger] selects(views, wanted, algorithm, k) by {
                        if k == f {
                            assert(views[i as int].matches_algorithm(algorithm));
                        } else {
                            assert(views[f as int].matches_algorithm(algorithm));
                        }
                    }
                }
                return Err(KeyError::SeveralKeysForAlgorithm(algorithm));
            }
            first = Some(i);
        }
        i = i + 1;
    }
    match first {
        Some(f) => {
            proof {
                assert(selects(views, wanted, algorithm, f as int));
            }
            Ok(&jwks[f])
        },
        None => Err(KeyError::NoKeyForAlgorithm(algorithm)),
    }
}

/// A key set has at most one key that a token refers to.
pub proof fn selected_once(
    jwks: Seq<JwkView>,
    kid: Option<Seq<char>>,
    algorithm: JwtAlgorithm,
    i: int,
    j: int,
)
    requires
        selects(jwks, kid, algorithm, i),
        selects(jwks, kid, algorithm, j),
    ensures
        i == j,
{
    match kid {
        Some(kid) => {
            assert(jwks[i].has_id(kid) && jwks[j].has_id(kid));
        },
        None => {
            assert(jwks[i].matches_algorithm(algorithm) && jwks[j].matches_algorithm(algorithm));
        },
    }
}

/// A key never serves two families of algorithms: a public key cannot be taken
/// for a shared secret.
pub proof fn key_serves_one_family(jwk: JwkView, a: JwtAlgorithm, b: JwtAlgorithm)
    requires
        jwk.matches_algorithm(a),
        jwk.matches_algorithm(b),
    ensures
        a.spec_family() == b.spec_family(),
{
}

} // verus!
