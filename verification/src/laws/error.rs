//! What holds of the messages of errors.

use crate::error::{key_id_text, AuthzooError, KeyError, TokenError};
use vstd::prelude::*;

verus! {

/// The messages `m` and `n` are the same words around `a` and around `b`.
pub open spec fn same_words(m: Seq<char>, a: Seq<char>, n: Seq<char>, b: Seq<char>) -> bool {
    exists|before: Seq<char>, after: Seq<char>|
        m == #[trigger] (before + a + after) && n == before + b + after
}

/// The messages `m` and `n` are the same words around two texts each.
pub open spec fn same_words_twice(
    m: Seq<char>,
    a: (Seq<char>, Seq<char>),
    n: Seq<char>,
    b: (Seq<char>, Seq<char>),
) -> bool {
    exists|before: Seq<char>, between: Seq<char>, after: Seq<char>|
        m == #[trigger] (before + a.0 + between + a.1 + after) && n == before + b.0 + between + b.1
            + after
}

proof fn words(before: Seq<char>, a: Seq<char>, b: Seq<char>, after: Seq<char>)
    ensures
        same_words(before + a + after, a, before + b + after, b),
{
    assert(before + a + after == (before + a + after));
}

proof fn words_twice(
    before: Seq<char>,
    a: (Seq<char>, Seq<char>),
    b: (Seq<char>, Seq<char>),
    between: Seq<char>,
    after: Seq<char>,
)
    ensures
        same_words_twice(
            before + a.0 + between + a.1 + after,
            a,
            before + b.0 + between + b.1 + after,
            b,
        ),
{
    assert(before + a.0 + between + a.1 + after == (before + a.0 + between + a.1 + after));
}

/// The message of a fault gives the names that it is about, whatever they are, in
/// the same words.
pub proof fn faults_tell_names(a: AuthzooError, m: String, b: AuthzooError, n: String)
    requires
        call_ensures(AuthzooError::to_string, (&a,), m),
        call_ensures(AuthzooError::to_string, (&b,), n),
    ensures
        match (a, b) {
            (AuthzooError::EmptyRoleName, AuthzooError::EmptyRoleName) => m@ == n@,
            (AuthzooError::EmptyAudience(x), AuthzooError::EmptyAudience(y)) => same_words(
                m@,
                x@,
                n@,
                y@,
            ),
            (AuthzooError::EmptyIssuer(x), AuthzooError::EmptyIssuer(y)) => same_words(
                m@,
                x@,
                n@,
                y@,
            ),
            (AuthzooError::EmptyValidationKey(x), AuthzooError::EmptyValidationKey(y)) => same_words(
                m@,
                x@,
                n@,
                y@,
            ),
            (AuthzooError::EmptyAlgorithms(x), AuthzooError::EmptyAlgorithms(y)) => same_words(
                m@,
                x@,
                n@,
                y@,
            ),
            (AuthzooError::EmptyClaimName { role: x }, AuthzooError::EmptyClaimName { role: y }) =>
                same_words(m@, x@, n@, y@),
            (
                AuthzooError::EmptyClaimRequirement { role: x, claim: u },
                AuthzooError::EmptyClaimRequirement { role: y, claim: v },
            ) => same_words_twice(m@, (x@, u@), n@, (y@, v@)),
            (AuthzooError::DuplicateRole(x), AuthzooError::DuplicateRole(y)) => same_words(
                m@,
                x@,
                n@,
                y@,
            ),
            (AuthzooError::UnknownRole(x), AuthzooError::UnknownRole(y)) => same_words(
                m@,
                x@,
                n@,
                y@,
            ),
            (
                AuthzooError::AlgorithmNotAllowed { role: x, algorithm: u },
                AuthzooError::AlgorithmNotAllowed { role: y, algorithm: v },
            ) => same_words_twice(m@, (u.spec_name(), x@), n@, (v.spec_name(), y@)),
            (
                AuthzooError::TokenValidation { role: x, source: u },
                AuthzooError::TokenValidation { role: y, source: v },
            ) => same_words_twice(m@, (x@, u.message()), n@, (y@, v.message())),
            (
                AuthzooError::MissingClaim { claim: x, requirement: u },
                AuthzooError::MissingClaim { claim: y, requirement: v },
            ) => same_words_twice(m@, (x@, u.description()), n@, (y@, v.description())),
            _ => true,
        },
{
    let none = Seq::<char>::empty();
    match (a, b) {
        (AuthzooError::EmptyAudience(x), AuthzooError::EmptyAudience(y)) => {
            words("role '"@, x@, y@, "' audience must not be empty"@);
        },
        (AuthzooError::EmptyIssuer(x), AuthzooError::EmptyIssuer(y)) => {
            words("role '"@, x@, y@, "' issuer must not be empty"@);
        },
        (AuthzooError::EmptyValidationKey(x), AuthzooError::EmptyValidationKey(y)) => {
            words("role '"@, x@, y@, "' validation-key must not be empty"@);
        },
        (AuthzooError::EmptyAlgorithms(x), AuthzooError::EmptyAlgorithms(y)) => {
            words("role '"@, x@, y@, "' must allow at least one algorithm"@);
        },
        (AuthzooError::EmptyClaimName { role: x }, AuthzooError::EmptyClaimName { role: y }) => {
            words("role '"@, x@, y@, "' claim names must not be empty"@);
        },
        (
            AuthzooError::EmptyClaimRequirement { role: x, claim: u },
            AuthzooError::EmptyClaimRequirement { role: y, claim: v },
        ) => {
            words_twice(
                "role '"@,
                (x@, u@),
                (y@, v@),
                "' claim '"@,
                "' must define at least one acceptable value"@,
            );
        },
        (AuthzooError::DuplicateRole(x), AuthzooError::DuplicateRole(y)) => {
            words("duplicate role '"@, x@, y@, "'"@);
        },
        (AuthzooError::UnknownRole(x), AuthzooError::UnknownRole(y)) => {
            words("unknown role '"@, x@, y@, "'"@);
        },
        (
            AuthzooError::AlgorithmNotAllowed { role: x, algorithm: u },
            AuthzooError::AlgorithmNotAllowed { role: y, algorithm: v },
        ) => {
            words_twice(
                "token algorithm '"@,
                (u.spec_name(), x@),
                (v.spec_name(), y@),
                "' is not allowed for role '"@,
                "'"@,
            );
        },
        (
            AuthzooError::TokenValidation { role: x, source: u },
            AuthzooError::TokenValidation { role: y, source: v },
        ) => {
            assert(m@ + none =~= m@);
            assert(n@ + none =~= n@);
            words_twice(
                "failed to validate token for role '"@,
                (x@, u.message()),
                (y@, v.message()),
                "': "@,
                none,
            );
        },
        (
            AuthzooError::MissingClaim { claim: x, requirement: u },
            AuthzooError::MissingClaim { claim: y, requirement: v },
        ) => {
            assert(m@ + none =~= m@);
            assert(n@ + none =~= n@);
            words_twice(
                "claim '"@,
                (x@, u.description()),
                (y@, v.description()),
                "' must satisfy "@,
                none,
            );
        },
        _ => {},
    }
}

/// The message of an error of the decoder is the decoder's own, and that of an
/// error about keys is its own, however it is wrapped.
pub proof fn wrapped_errors_speak_for_themselves(
    error: KeyError,
    wrapped: String,
    plain: String,
    reason: String,
    invalid: String,
    expired: String,
)
    requires
        call_ensures(AuthzooError::to_string, (&AuthzooError::Other(error),), wrapped),
        call_ensures(KeyError::to_string, (&error,), plain),
        call_ensures(TokenError::to_string, (&TokenError::Invalid(reason),), invalid),
        call_ensures(TokenError::to_string, (&TokenError::Expired,), expired),
    ensures
        wrapped@ == plain@,
        invalid@ == reason@,
        expired@ == "ExpiredSignature"@,
        TokenError::Invalid(reason).message() == reason@,
        TokenError::Expired.message() == "ExpiredSignature"@,
{
}

/// The message of an error about keys gives the names that it is about, whatever
/// they are, in the same words. A key without an id is called `<no kid>`.
pub proof fn key_errors_tell_names(a: KeyError, m: String, b: KeyError, n: String)
    requires
        call_ensures(KeyError::to_string, (&a,), m),
        call_ensures(KeyError::to_string, (&b,), n),
    ensures
        a == b ==> m@ == n@,
        match (a, b) {
            (KeyError::HeaderForRole(x), KeyError::HeaderForRole(y)) => same_words(m@, x@, n@, y@),
            (KeyError::PemForHmac(x), KeyError::PemForHmac(y)) => same_words(
                m@,
                x.spec_name(),
                n@,
                y.spec_name(),
            ),
            (
                KeyError::Configuration { url: x, failure: f },
                KeyError::Configuration { url: y, failure: g },
            ) => f == g ==> same_words(m@, x@, n@, y@),
            (KeyError::Keys { url: x, failure: f }, KeyError::Keys { url: y, failure: g }) => f == g
                ==> same_words(m@, x@, n@, y@),
            (KeyError::NoKeyForKid(x), KeyError::NoKeyForKid(y)) => same_words(m@, x@, n@, y@),
            (KeyError::NoKeyForAlgorithm(x), KeyError::NoKeyForAlgorithm(y)) => same_words(
                m@,
                x.spec_name(),
                n@,
                y.spec_name(),
            ),
            (KeyError::SeveralKeysForAlgorithm(x), KeyError::SeveralKeysForAlgorithm(y)) =>
                same_words(m@, x.spec_name(), n@, y.spec_name()),
            (
                KeyError::IncompatibleKey { key_id: x, algorithm: u },
                KeyError::IncompatibleKey { key_id: y, algorithm: v },
            ) => same_words_twice(
                m@,
                (
                    if x is Some {
                        x->0@
                    } else {
                        "<no kid>"@
                    },
                    u.spec_name(),
                ),
                n@,
                (
                    if y is Some {
                        y->0@
                    } else {
                        "<no kid>"@
                    },
                    v.spec_name(),
                ),
            ),
            (KeyError::CachedKey { key_id: x }, KeyError::CachedKey { key_id: y }) => same_words(
                m@,
                if x is Some {
                    x->0@
                } else {
                    "<no kid>"@
                },
                n@,
                if y is Some {
                    y->0@
                } else {
                    "<no kid>"@
                },
            ),
            (KeyError::DiscoveredKey { key_id: x }, KeyError::DiscoveredKey { key_id: y }) =>
                same_words(
                m@,
                if x is Some {
                    x->0@
                } else {
                    "<no kid>"@
                },
                n@,
                if y is Some {
                    y->0@
                } else {
                    "<no kid>"@
                },
            ),
            (KeyError::Certificate { path: x }, KeyError::Certificate { path: y }) => same_words(
                m@,
                x@,
                n@,
                y@,
            ),
            (KeyError::Authorization { path: x }, KeyError::Authorization { path: y }) =>
                same_words(m@, x@, n@, y@),
            (KeyError::NotDiscovered(x), KeyError::NotDiscovered(y)) => same_words(m@, x@, n@, y@),
            (KeyError::ShortKey(x), KeyError::ShortKey(y)) => same_words(m@, x@, n@, y@),
            _ => true,
        },
{
    match (a, b) {
        (KeyError::HeaderForRole(x), KeyError::HeaderForRole(y)) => {
            words("failed to decode token header for role '"@, x@, y@, "'"@);
        },
        (KeyError::PemForHmac(x), KeyError::PemForHmac(y)) => {
            words(
                "refusing to validate HMAC token with PEM validation key; issuer token algorithm was '"@,
                x.spec_name(),
                y.spec_name(),
                "'"@,
            );
        },
        (
            KeyError::Configuration { url: x, failure: f },
            KeyError::Configuration { url: y, failure: g },
        ) => {
            words("failed to fetch OpenID configuration from '"@, x@, y@, "'"@);
            words("OpenID configuration request to '"@, x@, y@, "' returned an error status"@);
            words("failed to parse OpenID configuration from '"@, x@, y@, "'"@);
        },
        (KeyError::Keys { url: x, failure: f }, KeyError::Keys { url: y, failure: g }) => {
            words("failed to fetch JWKS from '"@, x@, y@, "'"@);
            words("JWKS request to '"@, x@, y@, "' returned an error status"@);
            words("failed to parse JWKS from '"@, x@, y@, "'"@);
        },
        (KeyError::NoKeyForKid(x), KeyError::NoKeyForKid(y)) => {
            words("no JWK found for token kid '"@, x@, y@, "'"@);
        },
        (KeyError::NoKeyForAlgorithm(x), KeyError::NoKeyForAlgorithm(y)) => {
            words(
                "no compatible JWK found for algorithm '"@,
                x.spec_name(),
                y.spec_name(),
                "'"@,
            );
        },
        (KeyError::SeveralKeysForAlgorithm(x), KeyError::SeveralKeysForAlgorithm(y)) => {
            words(
                "multiple compatible JWKs found for algorithm '"@,
                x.spec_name(),
                y.spec_name(),
                "' but the token header did not include a kid"@,
            );
        },
        (
            KeyError::IncompatibleKey { key_id: x, algorithm: u },
            KeyError::IncompatibleKey { key_id: y, algorithm: v },
        ) => {
            words_twice(
                "discovered JWK '"@,
                (key_id_text(x), u.spec_name()),
                (key_id_text(y), v.spec_name()),
                "' is not compatible with algorithm '"@,
                "'"@,
            );
        },
        (KeyError::CachedKey { key_id: x }, KeyError::CachedKey { key_id: y }) => {
            words(
                "failed to construct decoding key from cached JWK '"@,
                key_id_text(x),
                key_id_text(y),
                "'"@,
            );
        },
        (KeyError::DiscoveredKey { key_id: x }, KeyError::DiscoveredKey { key_id: y }) => {
            words(
                "failed to construct decoding key from discovered JWK '"@,
                key_id_text(x),
                key_id_text(y),
                "'"@,
            );
        },
        (KeyError::Certificate { path: x }, KeyError::Certificate { path: y }) => {
            words("failed to parse Kubernetes CA certificate bundle at '"@, x@, y@, "'"@);
        },
        (KeyError::Authorization { path: x }, KeyError::Authorization { path: y }) => {
            words(
                "failed to build Authorization header from Kubernetes token at '"@,
                x@,
                y@,
                "'"@,
            );
        },
        (KeyError::NotDiscovered(x), KeyError::NotDiscovered(y)) => {
            words("no validation key discovered for role '"@, x@, y@, "'"@);
        },
        (KeyError::ShortKey(x), KeyError::ShortKey(y)) => {
            words("validation key for role '"@, x@, y@, "' is too short"@);
        },
        _ => {},
    }
}

/// A copy of an error about keys is equal to it.
pub proof fn copies_of_key_errors(error: KeyError, copy: KeyError)
    requires
        call_ensures(KeyError::clone, (&error,), copy),
    ensures
        copy == error,
{
}

} // verus!
