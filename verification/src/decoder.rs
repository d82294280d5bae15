//! The calls into the JWT library and the JSON parser. Their contracts are
//! taken from those libraries, not proved here.

use crate::claims::ClaimView;
use crate::config::JwtAlgorithm;
use crate::jwk::{jwk_views, Jwk, JwkView, KeyParameters, KeyUse, ParametersView};
use crate::keys::DecodingKey::{Ec, Ed, Hmac, RsaComponents, RsaDer};
use crate::keys::{DecodingKey, KeyView};
use jsonwebtoken::jwk;
use jsonwebtoken::jwk::AlgorithmParameters::{EllipticCurve, OctetKey, OctetKeyPair, RSA};
use jsonwebtoken::jwk::{
    EllipticCurveKeyParameters, JwkSet, OctetKeyPairParameters, OctetKeyParameters, PublicKeyUse,
    RSAKeyParameters,
};
use jsonwebtoken::DecodingKey as Key;
use jsonwebtoken::{decode, DecodingKeyKind, Validation};
use serde_json::Value;
use std::collections::BTreeMap;
use vstd::prelude::*;

verus! {

/// The name of the algorithm and the key id that the header of a token gives.
pub uninterp spec fn token_header(token: Seq<char>) -> Option<(Seq<char>, Option<Seq<char>>)>;

/// Calls `jsonwebtoken::decode_header`, which reads the header of a token and
/// nothing else: what it finds depends on the token alone, and the algorithm is
/// one of those that the library knows.
#[verifier::external_body]
pub(crate) fn decode_header(token: &str) -> (r: Option<(String, Option<String>)>)
    ensures
        match r {
            Some((algorithm, kid)) => token_header(token@) == Some((algorithm@, kid.deep_view()))
                && JwtAlgorithm::named(algorithm@) is Some,
            None => token_header(token@) is None,
        },
{
    let header = jsonwebtoken::decode_header(token).ok()?;
    Some((format!("{:?}", header.alg), header.kid))
}

/// What the decoder reads in a token whose signature it has verified.
pub struct VerifiedToken {
    /// The claims by name.
    pub claims: Map<Seq<char>, ClaimView>,
    /// The `exp` claim, if it is a time.
    pub expires_at: Option<u64>,
    /// The `iss` claim, if it is a text or a list of texts.
    pub issuers: Option<Set<Seq<char>>>,
    /// The `aud` claim, if it is a text or a list of texts.
    pub audiences: Option<Set<Seq<char>>>,
}

/// What the decoder reads in the token, if the header names the algorithm, the
/// signature is right under the key, and the payload is a JSON object that it
/// can read.
pub uninterp spec fn verified_token(
    token: Seq<char>,
    algorithm: Seq<char>,
    key: KeyView,
) -> Option<VerifiedToken>;

impl VerifiedToken {
    /// The token has a time of expiry, is issued by `issuer`, and is meant for
    /// `audience`.
    pub open spec fn names(self, audience: Seq<char>, issuer: Seq<char>) -> bool {
        &&& self.expires_at is Some
        &&& self.issuers matches Some(issuers) && issuers.contains(issuer)
        &&& self.audiences matches Some(audiences) && audiences.contains(audience)
    }

    /// No clock reaches the time of expiry.
    pub open spec fn never_expires(self) -> bool {
        self.expires_at == Some(u64::MAX)
    }

    /// The claim is there, and its value is no text.
    pub open spec fn claims_no_text(self, name: Seq<char>) -> bool {
        self.claims.contains_key(name) && self.claims[name].text is None
    }

    /// The claim is there, and if its value is a text, it is the given one.
    pub open spec fn claims_only(self, name: Seq<char>, value: Seq<char>) -> bool {
        self.claims.contains_key(name) && (self.claims[name].text matches Some(text) ==> text
            == value)
    }
}

/// The claims that a list of names, texts and JSON values gives.
pub open spec fn payload_of(entries: Seq<(String, Option<String>, String)>) -> Map<
    Seq<char>,
    ClaimView,
>
    decreases entries.len(),
{
    if entries.len() == 0 {
        Map::empty()
    } else {
        payload_of(entries.drop_last()).insert(
            entries.last().0@,
            ClaimView { text: entries.last().1.deep_view(), json: entries.last().2@ },
        )
    }
}

/// The registered claims that every token must have.
pub open spec fn required_claims() -> Seq<Seq<char>> {
    seq!["exp"@, "iss"@, "aud"@]
}

/// Calls `jsonwebtoken::decode` with one algorithm, one audience and one issuer
/// to accept, and the registered claims that must be there. A token is accepted
/// only if the key is of the kind that the algorithm takes, its signature is
/// right, it has a number for its time of expiry, and its claims name the issuer
/// and the audience. Such a token is refused as expired or not at all, and one that
/// expires at the last second that a clock can show is not refused. Whether any
/// other token has expired depends on the system's clock, so nothing is said of
/// it. An error other than expiry is told in words of the library.
#[verifier::external_body]
pub(crate) fn decode_token(
    token: &str,
    key: &DecodingKey,
    algorithm: &str,
    audience: &str,
    issuer: &str,
    required: &Vec<String>,
) -> (r: Result<Vec<(String, Option<String>, String)>, String>)
    requires
        JwtAlgorithm::named(algorithm@) is Some,
        required.deep_view() == required_claims(),
        key@.usable(),
    ensures
        match r {
            Ok(entries) => verified_token(token@, algorithm@, key@) matches Some(v) && v.names(
                audience@,
                issuer@,
            ) && v.claims == payload_of(entries@) && v.claims_no_text("exp"@) && v.claims_only("iss"@, issuer@)
                && v.claims_only("aud"@, audience@) && JwtAlgorithm::named(
                algorithm@,
            )->0.spec_family() == key@.family(),
            Err(reason) => if reason@ == "ExpiredSignature"@ {
                verified_token(token@, algorithm@, key@) matches Some(v) && !v.never_expires()
            } else {
                !(verified_token(token@, algorithm@, key@) matches Some(v) && v.names(
                    audience@,
                    issuer@,
                ))
            },
        },
{
    let mut validation = Validation::new(algorithm.parse().unwrap());
    validation.set_audience(&[audience]);
    validation.set_issuer(&[issuer]);
    validation.set_required_spec_claims(required);
    let key = match key {
        Hmac(secret) => Key::from_secret(secret),
        RsaDer(der) => Key::from_rsa_der(der),
        RsaComponents(n, e) => Key::from_rsa_raw_components(n, e),
        Ec(der) => Key::from_ec_der(der),
        Ed(der) => Key::from_ed_der(der),
    };
    let decoded = decode::<BTreeMap<String, Value>>(token, &key, &validation)
        .map_err(|error| error.to_string())?;
    Ok(decoded.claims.into_iter()
        .map(|(n, v)| (n, v.as_str().map(str::to_string), v.to_string())).collect())
}

/// The decoder, asked about the token with these, has come to the answer: there
/// is a call of it that returns that.
pub closed spec fn decoder_answers(
    token: Seq<char>,
    algorithm: Seq<char>,
    key: KeyView,
    audience: Seq<char>,
    issuer: Seq<char>,
    answer: Result<Vec<(String, Option<String>, String)>, String>,
) -> bool {
    exists|t: &str, k: &DecodingKey, a: &str, u: &str, i: &str, required: &Vec<String>|
        t@ == token && k@ == key && a@ == algorithm && u@ == audience && i@ == issuer
            && #[trigger] call_ensures(decode_token, (t, k, a, u, i, required), answer)
}

/// An answer of the decoder comes from a call of it, and from nothing else.
pub(crate) proof fn answers_come_from_calls(
    token: &str,
    key: &DecodingKey,
    algorithm: &str,
    audience: &str,
    issuer: &str,
    required: &Vec<String>,
    answer: Result<Vec<(String, Option<String>, String)>, String>,
)
    ensures
        call_ensures(decode_token, (token, key, algorithm, audience, issuer, required), answer)
            ==> decoder_answers(token@, algorithm@, key@, audience@, issuer@, answer),
        decoder_answers(token@, algorithm@, key@, audience@, issuer@, answer) ==> exists|
            t: &str,
            k: &DecodingKey,
            a: &str,
            u: &str,
            i: &str,
            q: &Vec<String>,
        |
            t@ == token@ && k@ == key@ && a@ == algorithm@ && u@ == audience@ && i@ == issuer@
                && #[trigger] call_ensures(decode_token, (t, k, a, u, i, q), answer),
{
}

/// The content of the PEM document of an RSA key.
pub uninterp spec fn rsa_pem_content(text: Seq<char>) -> Option<Seq<u8>>;

/// Calls `jsonwebtoken::DecodingKey::from_rsa_pem`, which finds the key in the
/// document, depending on the document alone.
#[verifier::external_body]
pub(crate) fn rsa_pem_key(text: &str) -> (r: Option<Vec<u8>>)
    ensures
        match r {
            Some(bytes) => rsa_pem_content(text@) == Some(bytes@),
            None => rsa_pem_content(text@) is None,
        },
{
    let key = Key::from_rsa_pem(text.as_bytes()).ok()?;
    Some(key.as_bytes().to_vec())
}

/// The content of the PEM document of a key on an elliptic curve.
pub uninterp spec fn ec_pem_content(text: Seq<char>) -> Option<Seq<u8>>;

/// Calls `jsonwebtoken::DecodingKey::from_ec_pem`, which finds the key in the
/// document, depending on the document alone.
#[verifier::external_body]
pub(crate) fn ec_pem_key(text: &str) -> (r: Option<Vec<u8>>)
    ensures
        match r {
            Some(bytes) => ec_pem_content(text@) == Some(bytes@),
            None => ec_pem_content(text@) is None,
        },
{
    let key = Key::from_ec_pem(text.as_bytes()).ok()?;
    Some(key.as_bytes().to_vec())
}

/// The content of the PEM document of an Edwards-curve key.
pub uninterp spec fn ed_pem_content(text: Seq<char>) -> Option<Seq<u8>>;

/// Calls `jsonwebtoken::DecodingKey::from_ed_pem`, which finds the key in the
/// document, depending on the document alone.
#[verifier::external_body]
pub(crate) fn ed_pem_key(text: &str) -> (r: Option<Vec<u8>>)
    ensures
        match r {
            Some(bytes) => ed_pem_content(text@) == Some(bytes@),
            None => ed_pem_content(text@) is None,
        },
{
    let key = Key::from_ed_pem(text.as_bytes()).ok()?;
    Some(key.as_bytes().to_vec())
}

/// The bytes that a text encodes in URL-safe base64 without padding.
pub uninterp spec fn base64url(text: Seq<char>) -> Option<Seq<u8>>;

/// Calls `jsonwebtoken::DecodingKey::from_jwk`, which decodes the numbers of the
/// key from base64: of an RSA key the modulus and the exponent; of a point on a
/// curve both coordinates, which it joins behind the byte that says so; of any
/// other key the one number. What the base64 decoder makes of a text depends on
/// the text alone.
#[verifier::external_body]
pub(crate) fn jwk_material(parameters: KeyParameters) -> (r: Option<(Vec<u8>, Vec<u8>)>)
    ensures
        match r {
            Some((bytes, exponent)) => match parameters@ {
                ParametersView::EllipticCurve(x, y) => base64url(x) is Some && base64url(y) is Some
                    && bytes@ == seq![0x04u8] + base64url(x)->0 + base64url(y)->0,
                ParametersView::Rsa(n, e) => base64url(n) == Some(bytes@) && base64url(e) == Some(
                    exponent@,
                ),
                ParametersView::Octet(value) => base64url(value) == Some(bytes@),
                ParametersView::OctetKeyPair(x) => base64url(x) == Some(bytes@),
            },
            None => match parameters@ {
                ParametersView::EllipticCurve(x, y) => base64url(x) is None || base64url(y) is None,
                ParametersView::Rsa(n, e) => base64url(n) is None || base64url(e) is None,
                ParametersView::Octet(value) => base64url(value) is None,
                ParametersView::OctetKeyPair(x) => base64url(x) is None,
            },
        },
{
    let algorithm = match parameters {
        KeyParameters::EllipticCurve(x, y) => {
            EllipticCurve(EllipticCurveKeyParameters { x, y, ..Default::default() })
        },
        KeyParameters::Rsa(n, e) => RSA(RSAKeyParameters { n, e, ..Default::default() }),
        KeyParameters::Octet(value) => OctetKey(OctetKeyParameters { value, ..Default::default() }),
        KeyParameters::OctetKeyPair(x) => {
            OctetKeyPair(OctetKeyPairParameters { x, ..Default::default() })
        },
    };
    let key = Key::from_jwk(&jwk::Jwk { common: Default::default(), algorithm }).ok()?;
    Some(match key.kind() {
        DecodingKeyKind::SecretOrDer(bytes) => (bytes.clone(), Vec::new()),
        DecodingKeyKind::RsaModulusExponent { n, e } => (n.clone(), e.clone()),
    })
}

/// The keys that a key set document lists.
pub uninterp spec fn key_set_document(body: Seq<u8>) -> Option<Seq<JwkView>>;

/// Calls `serde_json::from_slice` for `jsonwebtoken::jwk::JwkSet`, whose result
/// depends on the document alone.
#[verifier::external_body]
pub(crate) fn parse_key_set(body: &[u8]) -> (r: Option<Vec<Jwk>>)
    ensures
        match r {
            Some(keys) => key_set_document(body@) == Some(jwk_views(keys@)),
            None => key_set_document(body@) is None,
        },
{
    Some(serde_json::from_slice::<JwkSet>(body).ok()?.keys.into_iter().map(|key| Jwk {
        key_id: key.common.key_id,
        public_key_use: key.common.public_key_use.map(|key_use| match key_use {
            PublicKeyUse::Signature => KeyUse::Signature,
            PublicKeyUse::Encryption => KeyUse::Encryption,
            PublicKeyUse::Other(text) => KeyUse::Other(text),
        }),
        key_algorithm: key.common.key_algorithm.map(|algorithm| algorithm.to_string()),
        parameters: match key.algorithm {
            EllipticCurve(key) => KeyParameters::EllipticCurve(key.x, key.y),
            RSA(key) => KeyParameters::Rsa(key.n, key.e),
            OctetKey(key) => KeyParameters::Octet(key.value),
            OctetKeyPair(key) => KeyParameters::OctetKeyPair(key.x),
        },
    }).collect())
}

} // verus!
