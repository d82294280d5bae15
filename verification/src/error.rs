//! What can go wrong, and how it is told.

use crate::config::{ClaimRequirement, JwtAlgorithm};
use crate::text::{clone_option, join, join3};
use vstd::prelude::*;

verus! {

/// Why a role configuration, a reference to a role, or a token is rejected.
#[derive(Debug)]
pub enum AuthzooError {
    EmptyRoleName,
    EmptyAudience(String),
    EmptyIssuer(String),
    EmptyValidationKey(String),
    EmptyAlgorithms(String),
    EmptyClaimName { role: String },
    EmptyClaimRequirement { role: String, claim: String },
    DuplicateRole(String),
    UnknownRole(String),
    AlgorithmNotAllowed { role: String, algorithm: JwtAlgorithm },
    TokenValidation { role: String, source: TokenError },
    MissingClaim { claim: String, requirement: ClaimRequirement },
    Other(KeyError),
}

/// Why the decoder does not accept a token.
#[derive(Debug)]
pub enum TokenError {
    /// The time in the `exp` claim has passed.
    Expired,
    /// The decoder's own words for any other reason.
    Invalid(String),
}

/// Why there is no key to verify a token with.
#[derive(Debug)]
pub enum KeyError {
    HeaderForRole(String),
    HeaderForDiscovery,
    PemForHmac(JwtAlgorithm),
    InvalidRsaKey,
    InvalidEcKey,
    InvalidEdKey,
    Configuration { url: String, failure: FetchFailure },
    Keys { url: String, failure: FetchFailure },
    NoKeyForKid(String),
    NoKeyForAlgorithm(JwtAlgorithm),
    SeveralKeysForAlgorithm(JwtAlgorithm),
    IncompatibleKey { key_id: Option<String>, algorithm: JwtAlgorithm },
    CachedKey { key_id: Option<String> },
    DiscoveredKey { key_id: Option<String> },
    /// The client for the requests cannot be built.
    Client,
    /// The certificate of the cluster, at the path, cannot be read as one.
    Certificate { path: String },
    /// The token of the cluster, at the path, cannot be sent in a header.
    Authorization { path: String },
    /// No discovery has been made for the role.
    NotDiscovered(String),
    /// The key has too few bytes for its kind.
    ShortKey(String),
}

/// At which point the request for a document failed.
#[derive(Clone, Copy, PartialEq, Eq, Structural, Debug)]
pub enum FetchFailure {
    /// No response came.
    Unreachable,
    /// The response has an error status.
    Status,
    /// The body is not the document that was asked for.
    Body,
}

/// The id of a key as messages give it.
pub open spec fn key_id_text(key_id: Option<String>) -> Seq<char> {
    match key_id {
        Some(id) => id@,
        None => "<no kid>"@,
    }
}

fn key_id_str(key_id: &Option<String>) -> (r: &str)
    ensures
        r@ == key_id_text(*key_id),
{
    match key_id {
        Some(id) => id.as_str(),
        None => "<no kid>",
    }
}

impl AuthzooError {
    /// The message.
    pub open spec fn message(&self) -> Seq<char> {
        match *self {
            AuthzooError::EmptyRoleName => "role names must not be empty"@,
            AuthzooError::EmptyAudience(role) => "role '"@ + role@
                + "' audience must not be empty"@,
            AuthzooError::EmptyIssuer(role) => "role '"@ + role@ + "' issuer must not be empty"@,
            AuthzooError::EmptyValidationKey(role) => "role '"@ + role@
                + "' validation-key must not be empty"@,
            AuthzooError::EmptyAlgorithms(role) => "role '"@ + role@
                + "' must allow at least one algorithm"@,
            AuthzooError::EmptyClaimName { role } => "role '"@ + role@
                + "' claim names must not be empty"@,
            AuthzooError::EmptyClaimRequirement { role, claim } => "role '"@ + role@ + "' claim '"@
                + claim@ + "' must define at least one acceptable value"@,
            AuthzooError::DuplicateRole(role) => "duplicate role '"@ + role@ + "'"@,
            AuthzooError::UnknownRole(role) => "unknown role '"@ + role@ + "'"@,
            AuthzooError::AlgorithmNotAllowed { role, algorithm } => "token algorithm '"@
                + algorithm.spec_name() + "' is not allowed for role '"@ + role@ + "'"@,
            AuthzooError::TokenValidation { role, source } => "failed to validate token for role '"@
                + role@ + "': "@ + source.message(),
            AuthzooError::MissingClaim { claim, requirement } => "claim '"@ + claim@
                + "' must satisfy "@ + requirement.description(),
            AuthzooError::Other(error) => error.message(),
        }
    }

    /// The message.
    pub fn to_string(&self) -> (r: String)
        ensures
            r@ == self.message(),
    {
        match self {
            AuthzooError::EmptyRoleName => "role names must not be empty".to_string(),
            AuthzooError::EmptyAudience(role) => join3(
                "role '",
                role,
                "' audience must not be empty",
            ),
            AuthzooError::EmptyIssuer(role) => join3("role '", role, "' issuer must not be empty"),
            AuthzooError::EmptyValidationKey(role) => join3(
                "role '",
                role,
                "' validation-key must not be empty",
            ),
            AuthzooError::EmptyAlgorithms(role) => join3(
                "role '",
                role,
                "' must allow at least one algorithm",
            ),
            AuthzooError::EmptyClaimName { role } => join3(
                "role '",
                role,
                "' claim names must not be empty",
            ),
            AuthzooError::EmptyClaimRequirement { role, claim } => join3(
                &join3("role '", role, "' claim '"),
                claim,
                "' must define at least one acceptable value",
            ),
            AuthzooError::DuplicateRole(role) => join3("duplicate role '", role, "'"),
            AuthzooError::UnknownRole(role) => join3("unknown role '", role, "'"),
            AuthzooError::AlgorithmNotAllowed { role, algorithm } => join3(
                &join3("token algorithm '", algorithm.name(), "' is not allowed for role '"),
                role,
                "'",
            ),
            AuthzooError::TokenValidation { role, source } => join(
                &join3("failed to validate token for role '", role, "': "),
                &source.to_string(),
            ),
            AuthzooError::MissingClaim { claim, requirement } => join(
                &join3("claim '", claim, "' must satisfy "),
                &requirement.to_string(),
            ),
            AuthzooError::Other(error) => error.to_string(),
        }
    }
}

impl TokenError {
    /// The message.
    pub open spec fn message(&self) -> Seq<char> {
        match *self {
            TokenError::Expired => "ExpiredSignature"@,
            TokenError::Invalid(text) => text@,
        }
    }

    /// The message.
    pub fn to_string(&self) -> (r: String)
        ensures
            r@ == self.message(),
    {
        match self {
            TokenError::Expired => "ExpiredSignature".to_string(),
            TokenError::Invalid(text) => text.clone(),
        }
    }
}

impl Clone for KeyError {
    fn clone(&self) -> (r: Self)
        ensures
            r == *self,
    {
        match self {
            KeyError::HeaderForRole(role) => KeyError::HeaderForRole(role.clone()),
            KeyError::HeaderForDiscovery => KeyError::HeaderForDiscovery,
            KeyError::PemForHmac(algorithm) => KeyError::PemForHmac(*algorithm),
            KeyError::InvalidRsaKey => KeyError::InvalidRsaKey,
            KeyError::InvalidEcKey => KeyError::InvalidEcKey,
            KeyError::InvalidEdKey => KeyError::InvalidEdKey,
            KeyError::Configuration { url, failure } => KeyError::Configuration {
                url: url.clone(),
                failure: *failure,
            },
            KeyError::Keys { url, failure } => KeyError::Keys {
                url: url.clone(),
                failure: *failure,
            },
            KeyError::NoKeyForKid(kid) => KeyError::NoKeyForKid(kid.clone()),
            KeyError::NoKeyForAlgorithm(algorithm) => KeyError::NoKeyForAlgorithm(*algorithm),
            KeyError::SeveralKeysForAlgorithm(algorithm) => KeyError::SeveralKeysForAlgorithm(
                *algorithm,
            ),
            KeyError::IncompatibleKey { key_id, algorithm } => KeyError::IncompatibleKey {
                key_id: clone_option(key_id),
                algorithm: *algorithm,
            },
            KeyError::CachedKey { key_id } => KeyError::CachedKey { key_id: clone_option(key_id) },
            KeyError::DiscoveredKey { key_id } => KeyError::DiscoveredKey {
                key_id: clone_option(key_id),
            },
            KeyError::Client => KeyError::Client,
            KeyError::Certificate { path } => KeyError::Certificate { path: path.clone() },
            KeyError::Authorization { path } => KeyError::Authorization { path: path.clone() },
            KeyError::NotDiscovered(role) => KeyError::NotDiscovered(role.clone()),
            KeyError::ShortKey(role) => KeyError::ShortKey(role.clone()),
        }
    }
}

impl KeyError {
    /// The message.
    pub open spec fn message(&self) -> Seq<char> {
        match *self {
            KeyError::HeaderForRole(role) => "failed to decode token header for role '"@ + role@
                + "'"@,
            KeyError::HeaderForDiscovery => "failed to decode token header for key discovery"@,
            KeyError::PemForHmac(algorithm) =>
                "refusing to validate HMAC token with PEM validation key; issuer token algorithm was '"@
                + algorithm.spec_name() + "'"@,
            KeyError::InvalidRsaKey => "failed to parse RSA validation key"@,
            KeyError::InvalidEcKey => "failed to parse EC validation key"@,
            KeyError::InvalidEdKey => "failed to parse EdDSA validation key"@,
            KeyError::Configuration { url, failure } => match failure {
                FetchFailure::Unreachable => "failed to fetch OpenID configuration from '"@ + url@
                    + "'"@,
                FetchFailure::Status => "OpenID configuration request to '"@ + url@
                    + "' returned an error status"@,
                FetchFailure::Body => "failed to parse OpenID configuration from '"@ + url@ + "'"@,
            },
            KeyError::Keys { url, failure } => match failure {
                FetchFailure::Unreachable => "failed to fetch JWKS from '"@ + url@ + "'"@,
                FetchFailure::Status => "JWKS request to '"@ + url@
                    + "' returned an error status"@,
                FetchFailure::Body => "failed to parse JWKS from '"@ + url@ + "'"@,
            },
            KeyError::NoKeyForKid(kid) => "no JWK found for token kid '"@ + kid@ + "'"@,
            KeyError::NoKeyForAlgorithm(algorithm) => "no compatible JWK found for algorithm '"@
                + algorithm.spec_name() + "'"@,
            KeyError::SeveralKeysForAlgorithm(algorithm) =>
                "multiple compatible JWKs found for algorithm '"@ + algorithm.spec_name()
                + "' but the token header did not include a kid"@,
            KeyError::IncompatibleKey { key_id, algorithm } => "discovered JWK '"@ + key_id_text(
                key_id,
            ) + "' is not compatible with algorithm '"@ + algorithm.spec_name() + "'"@,
            KeyError::CachedKey { key_id } => "failed to construct decoding key from cached JWK '"@
                + key_id_text(key_id) + "'"@,
            KeyError::DiscoveredKey { key_id } =>
                "failed to construct decoding key from discovered JWK '"@ + key_id_text(key_id)
                + "'"@,
            KeyError::Client => "failed to build HTTP client for validation key discovery"@,
            KeyError::Certificate { path } =>
                "failed to parse Kubernetes CA certificate bundle at '"@ + path@ + "'"@,
            KeyError::Authorization { path } =>
                "failed to build Authorization header from Kubernetes token at '"@ + path@ + "'"@,
            KeyError::NotDiscovered(role) => "no validation key discovered for role '"@ + role@
                + "'"@,
            KeyError::ShortKey(role) => "validation key for role '"@ + role@ + "' is too short"@,
        }
    }

    /// The message.
    pub fn to_string(&self) -> (r: String)
        ensures
            r@ == self.message(),
    {
        match self {
            KeyError::HeaderForRole(role) => join3(
                "failed to decode token header for role '",
                role,
                "'",
            ),
            KeyError::HeaderForDiscovery => "failed to decode token header for key discovery".to_string(),
            KeyError::PemForHmac(algorithm) => join3(
                "refusing to validate HMAC token with PEM validation key; issuer token algorithm was '",
                algorithm.name(),
                "'",
            ),
            KeyError::InvalidRsaKey => "failed to parse RSA validation key".to_string(),
            KeyError::InvalidEcKey => "failed to parse EC validation key".to_string(),
            KeyError::InvalidEdKey => "failed to parse EdDSA validation key".to_string(),
            KeyError::Configuration { url, failure } => match failure {
                FetchFailure::Unreachable => join3(
                    "failed to fetch OpenID configuration from '",
                    url,
                    "'",
                ),
                FetchFailure::Status => join3(
                    "OpenID configuration request to '",
                    url,
                    "' returned an error status",
                ),
                FetchFailure::Body => join3(
                    "failed to parse OpenID configuration from '",
                    url,
                    "'",
                ),
            },
            KeyError::Keys { url, failure } => match failure {
                FetchFailure::Unreachable => join3("failed to fetch JWKS from '", url, "'"),
                FetchFailure::Status => join3(
                    "JWKS request to '",
                    url,
                    "' returned an error status",
                ),
                FetchFailure::Body => join3("failed to parse JWKS from '", url, "'"),
            },
            KeyError::NoKeyForKid(kid) => join3("no JWK found for token kid '", kid, "'"),
            KeyError::NoKeyForAlgorithm(algorithm) => join3(
                "no compatible JWK found for algorithm '",
                algorithm.name(),
                "'",
            ),
            KeyError::SeveralKeysForAlgorithm(algorithm) => join3(
                "multiple compatible JWKs found for algorithm '",
                algorithm.name(),
                "' but the token header did not include a kid",
            ),
            KeyError::IncompatibleKey { key_id, algorithm } => join3(
                &join3(
                    "discovered JWK '",
                    key_id_str(key_id),
                    "' is not compatible with algorithm '",
                ),
                algorithm.name(),
                "'",
            ),
            KeyError::CachedKey { key_id } => join3(
                "failed to construct decoding key from cached JWK '",
                key_id_str(key_id),
                "'",
            ),
            KeyError::DiscoveredKey { key_id } => join3(
                "failed to construct decoding key from discovered JWK '",
                key_id_str(key_id),
                "'",
            ),
            KeyError::Client => "failed to build HTTP client for validation key discovery".to_string(),
            KeyError::Certificate { path } => join3(
                "failed to parse Kubernetes CA certificate bundle at '",
                path,
                "'",
            ),
            KeyError::Authorization { path } => join3(
                "failed to build Authorization header from Kubernetes token at '",
                path,
                "'",
            ),
            KeyError::NotDiscovered(role) => join3(
                "no validation key discovered for role '",
                role,
                "'",
            ),
            KeyError::ShortKey(role) => join3(
                "validation key for role '",
                role,
                "' is too short",
            ),
        }
    }
}

} // verus!
