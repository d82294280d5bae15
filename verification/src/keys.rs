//! The keys that tokens are verified with.

use crate::config::{JwtAlgorithm, RoleConfig};
use crate::decoder::{
    base64url, ec_pem_content, ec_pem_key, ed_pem_content, ed_pem_key, jwk_material, rsa_pem_content,
    rsa_pem_key,
};
use crate::error::KeyError;
use crate::jwk::{Jwk, KeyFamily, KeyParameters, ParametersView};
use crate::text::{starts_with, trim_start, trimmed_start, white_space};
use vstd::prelude::*;
use vstd::utf8::encode_utf8;

verus! {

/// A key to verify signatures with.
#[derive(Debug)]
pub enum DecodingKey {
    /// A shared secret.
    Hmac(Vec<u8>),
    /// A public key in DER.
    RsaDer(Vec<u8>),
    /// The modulus and the exponent of a public key.
    RsaComponents(Vec<u8>, Vec<u8>),
    /// A point on a curve.
    Ec(Vec<u8>),
    /// The public half of a key pair.
    Ed(Vec<u8>),
}

/// A key to verify signatures with, over bytes.
pub enum KeyView {
    Hmac(Seq<u8>),
    RsaDer(Seq<u8>),
    RsaComponents(Seq<u8>, Seq<u8>),
    Ec(Seq<u8>),
    Ed(Seq<u8>),
}

impl View for DecodingKey {
    type V = KeyView;

    open spec fn view(&self) -> KeyView {
        match *self {
            DecodingKey::Hmac(bytes) => KeyView::Hmac(bytes@),
            DecodingKey::RsaDer(bytes) => KeyView::RsaDer(bytes@),
            DecodingKey::RsaComponents(n, e) => KeyView::RsaComponents(n@, e@),
            DecodingKey::Ec(bytes) => KeyView::Ec(bytes@),
            DecodingKey::Ed(bytes) => KeyView::Ed(bytes@),
        }
    }
}

impl KeyView {
    /// The key has the bytes that its kind needs.
    pub open spec fn usable(self) -> bool {
        self matches KeyView::Ed(bytes) ==> bytes.len() >= 32
    }

    /// The family of algorithms that the key serves.
    pub open spec fn family(self) -> KeyFamily {
        match self {
            KeyView::Hmac(_) => KeyFamily::Hmac,
            KeyView::RsaDer(_) | KeyView::RsaComponents(_, _) => KeyFamily::Rsa,
            KeyView::Ec(_) => KeyFamily::Ec,
            KeyView::Ed(_) => KeyFamily::Ed,
        }
    }
}

impl DecodingKey {
    /// Has the key the bytes that its kind needs?
    pub fn usable(&self) -> (r: bool)
        ensures
            r == self@.usable(),
    {
        match self {
            DecodingKey::Ed(bytes) => bytes.len() >= 32,
            _ => true,
        }
    }
}

impl Clone for DecodingKey {
    fn clone(&self) -> (r: Self)
        ensures
            r@ == self@,
    {
        match self {
            DecodingKey::Hmac(bytes) => DecodingKey::Hmac(bytes.clone()),
            DecodingKey::RsaDer(bytes) => DecodingKey::RsaDer(bytes.clone()),
            DecodingKey::RsaComponents(n, e) => DecodingKey::RsaComponents(n.clone(), e.clone()),
            DecodingKey::Ec(bytes) => DecodingKey::Ec(bytes.clone()),
            DecodingKey::Ed(bytes) => DecodingKey::Ed(bytes.clone()),
        }
    }
}

/// The text, white space in front of it aside, begins like a PEM document.
pub open spec fn pem_like(value: Seq<char>) -> bool {
    "-----BEGIN "@.is_prefix_of(trimmed_start(value))
}

/// Does the text look like a PEM document?
pub fn looks_like_pem(value: &str) -> (r: bool)
    ensures
        r == pem_like(value@),
{
    starts_with(trim_start(value), "-----BEGIN ")
}

/// The key that a configured text stands for under an algorithm: the text
/// itself as a shared secret, unless it looks like a PEM document, or the
/// public key in a PEM document.
pub open spec fn static_key(validation_key: Seq<char>, algorithm: JwtAlgorithm) -> Option<
    KeyView,
> {
    match algorithm.spec_family() {
        KeyFamily::Hmac => if pem_like(validation_key) {
            None
        } else {
            Some(KeyView::Hmac(encode_utf8(validation_key)))
        },
        KeyFamily::Rsa => match rsa_pem_content(validation_key) {
            Some(bytes) => Some(KeyView::RsaDer(bytes)),
            None => None,
        },
        KeyFamily::Ec => match ec_pem_content(validation_key) {
            Some(bytes) => Some(KeyView::Ec(bytes)),
            None => None,
        },
        KeyFamily::Ed => match ed_pem_content(validation_key) {
            Some(bytes) => Some(KeyView::Ed(bytes)),
            None => None,
        },
    }
}

/// Why a configured text stands for no key under an algorithm.
pub open spec fn static_key_error(algorithm: JwtAlgorithm) -> KeyError {
    match algorithm.spec_family() {
        KeyFamily::Hmac => KeyError::PemForHmac(algorithm),
        KeyFamily::Rsa => KeyError::InvalidRsaKey,
        KeyFamily::Ec => KeyError::InvalidEcKey,
        KeyFamily::Ed => KeyError::InvalidEdKey,
    }
}

/// The key that a configured text stands for under an algorithm.
pub fn decoding_key_for_algorithm(validation_key: &str, algorithm: JwtAlgorithm) -> (r: Result<
    DecodingKey,
    KeyError,
>)
    ensures
        match r {
            Ok(key) => static_key(validation_key@, algorithm) == Some(key@),
            Err(e) => static_key(validation_key@, algorithm) is None && e == static_key_error(
                algorithm,
            ),
        },
{
    match algorithm.family() {
        KeyFamily::Hmac => {
            if looks_like_pem(validation_key) {
                return Err(KeyError::PemForHmac(algorithm));
            }
            Ok(DecodingKey::Hmac(validation_key.as_bytes_vec()))
        },
        KeyFamily::Rsa => match rsa_pem_key(validation_key) {
            Some(bytes) => Ok(DecodingKey::RsaDer(bytes)),
            None => Err(KeyError::InvalidRsaKey),
        },
        KeyFamily::Ec => match ec_pem_key(validation_key) {
            Some(bytes) => Ok(DecodingKey::Ec(bytes)),
            None => Err(KeyError::InvalidEcKey),
        },
        KeyFamily::Ed => match ed_pem_key(validation_key) {
            Some(bytes) => Ok(DecodingKey::Ed(bytes)),
            None => Err(KeyError::InvalidEdKey),
        },
    }
}

/// What came of a discovery, over bytes.
pub open spec fn key_view(discovered: Result<&DecodingKey, KeyError>) -> Result<KeyView, KeyError> {
    match discovered {
        Ok(key) => Ok(key@),
        Err(e) => Err(e),
    }
}

/// The key that tokens for the role are verified with, or why there is none: a
/// configured text decides alone, and without one the discovery does.
pub open spec fn role_key(
    role: RoleConfig,
    algorithm: JwtAlgorithm,
    discovered: Result<KeyView, KeyError>,
) -> Result<KeyView, KeyError> {
    match role.validation_key {
        Some(text) => match static_key(text@, algorithm) {
            Some(key) => Ok(key),
            None => Err(static_key_error(algorithm)),
        },
        None => discovered,
    }
}

/// The key that tokens for the role are verified with: the configured one, or
/// else what came of the discovery.
pub fn resolving_decoding_key(
    role: &RoleConfig,
    algorithm: JwtAlgorithm,
    discovered: Result<&DecodingKey, KeyError>,
) -> (r: Result<DecodingKey, KeyError>)
    ensures
        match r {
            Ok(key) => role_key(*role, algorithm, key_view(discovered)) == Ok::<KeyView, KeyError>(
                key@,
            ),
            Err(e) => role_key(*role, algorithm, key_view(discovered)) == Err::<KeyView, KeyError>(
                e,
            ),
        },
{
    match &role.validation_key {
        Some(validation_key) => decoding_key_for_algorithm(validation_key.as_str(), algorithm),
        None => match discovered {
            Ok(key) => Ok(key.clone()),
            Err(e) => Err(e),
        },
    }
}

/// The key that a published key stands for, if its numbers are rightly encoded.
pub open spec fn published_key(parameters: ParametersView) -> Option<KeyView> {
    match parameters {
        ParametersView::EllipticCurve(x, y) => match (base64url(x), base64url(y)) {
            (Some(x), Some(y)) => Some(KeyView::Ec(seq![0x04u8] + x + y)),
            _ => None,
        },
        ParametersView::Rsa(n, e) => match (base64url(n), base64url(e)) {
            (Some(n), Some(e)) => Some(KeyView::RsaComponents(n, e)),
            _ => None,
        },
        ParametersView::Octet(value) => match base64url(value) {
            Some(bytes) => Some(KeyView::Hmac(bytes)),
            None => None,
        },
        ParametersView::OctetKeyPair(x) => match base64url(x) {
            Some(bytes) => Some(KeyView::Ed(bytes)),
            None => None,
        },
    }
}

/// The key that a published key stands for.
pub fn decoding_key_from_jwk(jwk: &Jwk) -> (r: Option<DecodingKey>)
    ensures
        match r {
            Some(key) => published_key(jwk@.parameters) == Some(key@),
            None => published_key(jwk@.parameters) is None,
        },
{
    match jwk_material(jwk.parameters.clone()) {
        Some((bytes, exponent)) => Some(
            match &jwk.parameters {
                KeyParameters::EllipticCurve(_, _) => DecodingKey::Ec(bytes),
                KeyParameters::Rsa(_, _) => DecodingKey::RsaComponents(bytes, exponent),
                KeyParameters::Octet(_) => DecodingKey::Hmac(bytes),
                KeyParameters::OctetKeyPair(_) => DecodingKey::Ed(bytes),
            },
        ),
        None => None,
    }
}

/// A configured text gives an algorithm only a key that the algorithm takes.
pub proof fn static_key_serves_algorithm(validation_key: Seq<char>, algorithm: JwtAlgorithm)
    ensures
        static_key(validation_key, algorithm) matches Some(key) ==> key.family()
            == algorithm.spec_family(),
{
}

/// A PEM document is never taken for a shared secret.
pub proof fn pem_is_no_secret(validation_key: Seq<char>, algorithm: JwtAlgorithm)
    requires
        pem_like(validation_key),
        algorithm.spec_family() == KeyFamily::Hmac,
    ensures
        static_key(validation_key, algorithm) is None,
{
}

/// White space in front does not hide a PEM document.
pub proof fn pem_behind_white_space(c: char, value: Seq<char>)
    requires
        white_space(c),
    ensures
        pem_like(seq![c] + value) == pem_like(value),
{
    assert((seq![c] + value).drop_first() =~= value);
}

/// A published key gives only a key of its own kind.
pub proof fn published_key_keeps_family(parameters: ParametersView)
    ensures
        published_key(parameters) matches Some(key) ==> key.family() == parameters.family(),
{
}

} // verus!
