//! What holds of keys and of how they are chosen.

use crate::config::{JwtAlgorithm, RoleConfig};
use crate::decoder::{base64url, ec_pem_content, ed_pem_content, rsa_pem_content};
use crate::error::KeyError;
use crate::jwk::{
    ensure_jwk_compatible, jwk_matches_algorithm, jwk_views, key_algorithm_matches,
    select_jwk_for_token, selection_error, selects, Jwk, JwkView, KeyFamily, KeyParameters, KeyUse,
    KeyUseView, ParametersView,
};
use crate::keys::{
    decoding_key_for_algorithm, decoding_key_from_jwk, looks_like_pem, pem_like,
    resolving_decoding_key, role_key, static_key, DecodingKey, KeyView,
};
use crate::laws::text::front_is_trimmed;
use crate::text::white_space;
use vstd::prelude::*;
use vstd::utf8::{
    decode_utf8, encode_utf8_decode_utf8, encode_utf8_valid_utf8, valid_utf8,
};

verus! {

/// A text looks like a PEM document if and only if, behind the white space in
/// front of it, it goes on with the beginning of one.
pub proof fn pem_is_told_by_its_beginning(value: &str, k: int, r: bool)
    requires
        call_ensures(looks_like_pem, (value,), r),
        0 <= k <= value@.len(),
        forall|j: int| 0 <= j < k ==> white_space(#[trigger] value@[j]),
        k < value@.len() ==> !white_space(value@[k]),
    ensures
        r <==> exists|rest: Seq<char>| value@.skip(k) == #[trigger] ("-----BEGIN "@ + rest),
        r <==> pem_like(value@),
{
    front_is_trimmed(value@, k);
    let tail = value@.skip(k);
    let head = "-----BEGIN "@;
    if r {
        assert(tail =~= head + tail.skip(head.len() as int));
    }
    if exists|rest: Seq<char>| tail == #[trigger] (head + rest) {
        let rest = choose|rest: Seq<char>| tail == #[trigger] (head + rest);
        assert(head =~= tail.take(head.len() as int));
    }
}

/// A configured text that does not look like a PEM document is a shared secret
/// as it stands: its bytes are the whole text, which can be read back from them.
pub proof fn secret_is_the_whole_text(
    text: &str,
    algorithm: JwtAlgorithm,
    r: Result<DecodingKey, KeyError>,
)
    requires
        call_ensures(decoding_key_for_algorithm, (text, algorithm), r),
        algorithm.spec_family() == KeyFamily::Hmac,
    ensures
        r is Ok <==> !pem_like(text@),
        r matches Ok(key) ==> (key matches DecodingKey::Hmac(bytes) && valid_utf8(bytes@)
            && decode_utf8(bytes@) == text@),
        r matches Err(e) ==> e == KeyError::PemForHmac(algorithm),
{
    encode_utf8_valid_utf8(text@);
    encode_utf8_decode_utf8(text@);
}

/// Two different secrets never give the same key.
pub proof fn different_secrets_different_keys(
    a: Seq<char>,
    b: Seq<char>,
    m: JwtAlgorithm,
    n: JwtAlgorithm,
)
    requires
        m.spec_family() == KeyFamily::Hmac,
        n.spec_family() == KeyFamily::Hmac,
        !pem_like(a),
        !pem_like(b),
    ensures
        static_key(a, m) is Some,
        static_key(a, m) == static_key(b, n) <==> a == b,
{
    encode_utf8_decode_utf8(a);
    encode_utf8_decode_utf8(b);
}

/// A configured public key is what its PEM document holds, for every algorithm
/// that takes it, and the error tells which kind was looked for.
pub proof fn public_key_is_what_the_document_holds(
    text: &str,
    algorithm: JwtAlgorithm,
    r: Result<DecodingKey, KeyError>,
)
    requires
        call_ensures(decoding_key_for_algorithm, (text, algorithm), r),
    ensures
        algorithm.spec_family() == KeyFamily::Rsa ==> match rsa_pem_content(text@) {
            Some(content) => r matches Ok(DecodingKey::RsaDer(bytes)) && bytes@ == content,
            None => r == Err::<DecodingKey, KeyError>(KeyError::InvalidRsaKey),
        },
        algorithm.spec_family() == KeyFamily::Ec ==> match ec_pem_content(text@) {
            Some(content) => r matches Ok(DecodingKey::Ec(bytes)) && bytes@ == content,
            None => r == Err::<DecodingKey, KeyError>(KeyError::InvalidEcKey),
        },
        algorithm.spec_family() == KeyFamily::Ed ==> match ed_pem_content(text@) {
            Some(content) => r matches Ok(DecodingKey::Ed(bytes)) && bytes@ == content,
            None => r == Err::<DecodingKey, KeyError>(KeyError::InvalidEdKey),
        },
{
}

/// A configured text gives the algorithms of one family one key.
pub proof fn family_shares_the_key(text: Seq<char>, a: JwtAlgorithm, b: JwtAlgorithm)
    requires
        a.spec_family() == b.spec_family(),
    ensures
        static_key(text, a) == static_key(text, b),
{
}

/// A role with a configured text has the key that the text stands for, or the
/// error about it, whatever was discovered; one without has what was discovered.
pub proof fn configured_text_comes_first(
    role: RoleConfig,
    algorithm: JwtAlgorithm,
    discovered: Result<&DecodingKey, KeyError>,
    r: Result<DecodingKey, KeyError>,
    text: &str,
    configured: Result<DecodingKey, KeyError>,
)
    requires
        call_ensures(resolving_decoding_key, (&role, algorithm, discovered), r),
        call_ensures(decoding_key_for_algorithm, (text, algorithm), configured),
        role.validation_key is Some ==> text@ == role.validation_key->0@,
    ensures
        role.validation_key is Some ==> (r is Ok <==> configured is Ok),
        role.validation_key is Some && r is Ok ==> r->Ok_0@ == configured->Ok_0@,
        role.validation_key is Some && r is Err ==> r == configured,
        role.validation_key is None ==> (r is Ok <==> discovered is Ok),
        role.validation_key is None && r is Ok ==> r->Ok_0@ == (*discovered->Ok_0)@,
        role.validation_key is None && r is Err ==> r->Err_0 == discovered->Err_0,
{
}

/// The key of a role is the one that its configured text stands for, or the
/// discovered one.
pub proof fn key_of_a_role(
    role: RoleConfig,
    algorithm: JwtAlgorithm,
    discovered: Result<KeyView, KeyError>,
)
    ensures
        role.validation_key is None ==> role_key(role, algorithm, discovered) == discovered,
        role.validation_key is Some ==> (role_key(role, algorithm, discovered) is Ok <==> static_key(
            role.validation_key->0@,
            algorithm,
        ) is Some),
        role.validation_key is Some && role_key(role, algorithm, discovered) is Ok ==> static_key(
            role.validation_key->0@,
            algorithm,
        ) == Some(role_key(role, algorithm, discovered)->Ok_0),
{
}

/// A decoding key is seen by its bytes, whole, and only an Edwards-curve key can
/// have too few of them.
pub proof fn decoding_keys_are_seen_whole(key: DecodingKey, usable: bool, copy: DecodingKey)
    requires
        call_ensures(DecodingKey::usable, (&key,), usable),
        call_ensures(DecodingKey::clone, (&key,), copy),
    ensures
        match key {
            DecodingKey::Hmac(bytes) => key@ == KeyView::Hmac(bytes@),
            DecodingKey::RsaDer(bytes) => key@ == KeyView::RsaDer(bytes@),
            DecodingKey::RsaComponents(n, e) => key@ == KeyView::RsaComponents(n@, e@),
            DecodingKey::Ec(bytes) => key@ == KeyView::Ec(bytes@),
            DecodingKey::Ed(bytes) => key@ == KeyView::Ed(bytes@),
        },
        usable <==> (key is Ed ==> key->Ed_0@.len() >= 32),
        usable <==> key@.usable(),
        copy@ == key@,
        key@.family() == KeyFamily::Hmac <==> key is Hmac,
        key@.family() == KeyFamily::Rsa <==> key is RsaDer || key is RsaComponents,
        key@.family() == KeyFamily::Ec <==> key is Ec,
        key@.family() == KeyFamily::Ed <==> key is Ed,
{
}

/// A published key becomes a decoding key of its own kind, made of all its
/// numbers, if and only if each of them is rightly encoded.
pub proof fn published_keys_are_decoded(jwk: Jwk, r: Option<DecodingKey>)
    requires
        call_ensures(decoding_key_from_jwk, (&jwk,), r),
    ensures
        match jwk.parameters {
            KeyParameters::EllipticCurve(x, y) => {
                &&& r is Some <==> base64url(x@) is Some && base64url(y@) is Some
                &&& r matches Some(key) ==> (key matches DecodingKey::Ec(point) && point@
                    == seq![4u8] + base64url(x@)->0 + base64url(y@)->0)
            },
            KeyParameters::Rsa(n, e) => {
                &&& r is Some <==> base64url(n@) is Some && base64url(e@) is Some
                &&& r matches Some(key) ==> (key matches DecodingKey::RsaComponents(a, b)
                    && base64url(n@) == Some(a@) && base64url(e@) == Some(b@))
            },
            KeyParameters::Octet(value) => {
                &&& r is Some <==> base64url(value@) is Some
                &&& r matches Some(key) ==> (key matches DecodingKey::Hmac(bytes) && base64url(
                    value@,
                ) == Some(bytes@))
            },
            KeyParameters::OctetKeyPair(x) => {
                &&& r is Some <==> base64url(x@) is Some
                &&& r matches Some(key) ==> (key matches DecodingKey::Ed(bytes) && base64url(x@)
                    == Some(bytes@))
            },
        },
{
}

/// A published key is seen by all that it holds.
pub proof fn published_keys_are_seen_whole(jwk: Jwk, copy: Jwk)
    requires
        call_ensures(Jwk::clone, (&jwk,), copy),
    ensures
        jwk@.key_id is Some <==> jwk.key_id is Some,
        jwk.key_id is Some ==> jwk@.key_id == Some(jwk.key_id->0@),
        jwk@.key_algorithm is Some <==> jwk.key_algorithm is Some,
        jwk.key_algorithm is Some ==> jwk@.key_algorithm == Some(jwk.key_algorithm->0@),
        jwk@.public_key_use is Some <==> jwk.public_key_use is Some,
        match jwk.public_key_use {
            Some(KeyUse::Signature) => jwk@.public_key_use == Some(KeyUseView::Signature),
            Some(KeyUse::Encryption) => jwk@.public_key_use == Some(KeyUseView::Encryption),
            Some(KeyUse::Other(text)) => jwk@.public_key_use == Some(KeyUseView::Other(text@)),
            None => true,
        },
        match jwk.parameters {
            KeyParameters::EllipticCurve(x, y) => jwk@.parameters == ParametersView::EllipticCurve(
                x@,
                y@,
            ),
            KeyParameters::Rsa(n, e) => jwk@.parameters == ParametersView::Rsa(n@, e@),
            KeyParameters::Octet(value) => jwk@.parameters == ParametersView::Octet(value@),
            KeyParameters::OctetKeyPair(x) => jwk@.parameters == ParametersView::OctetKeyPair(x@),
        },
        copy == jwk,
{
}

/// A published key may verify a token of an algorithm if and only if its use, if
/// it tells one, is signatures, its algorithm, if it tells one, is that one, and
/// its numbers are of the kind that the algorithm takes.
pub proof fn key_fits_algorithm(
    jwk: Jwk,
    algorithm: JwtAlgorithm,
    own: bool,
    fits: bool,
    checked: Result<(), KeyError>,
)
    requires
        call_ensures(key_algorithm_matches, (&jwk, algorithm), own),
        call_ensures(jwk_matches_algorithm, (&jwk, algorithm), fits),
        call_ensures(ensure_jwk_compatible, (&jwk, algorithm), checked),
    ensures
        own <==> jwk.key_algorithm is None || jwk.key_algorithm->0@ == algorithm.spec_name(),
        fits <==> {
            &&& jwk.public_key_use is None || jwk.public_key_use->0 is Signature
            &&& own
            &&& match algorithm.spec_family() {
                KeyFamily::Hmac => jwk.parameters is Octet,
                KeyFamily::Rsa => jwk.parameters is Rsa,
                KeyFamily::Ec => jwk.parameters is EllipticCurve,
                KeyFamily::Ed => jwk.parameters is OctetKeyPair,
            }
        },
        fits <==> jwk@.matches_algorithm(algorithm),
        checked is Ok <==> fits,
        checked matches Err(e) ==> e == (KeyError::IncompatibleKey {
            key_id: jwk.key_id,
            algorithm,
        }),
{
}

/// For a token with a key id the first key of that id decides: it is the one, if
/// it fits, or else the error; without such a key the error tells the id.
pub proof fn key_id_decides(
    keys: Vec<Jwk>,
    id: String,
    algorithm: JwtAlgorithm,
    r: Result<&Jwk, KeyError>,
    i: int,
)
    requires
        call_ensures(select_jwk_for_token, (&keys, &Some(id), algorithm), r),
        0 <= i <= keys@.len(),
        forall|j: int| 0 <= j < i ==> (#[trigger] keys@[j])@.key_id != Some(id@),
        i < keys@.len() ==> keys@[i]@.key_id == Some(id@),
    ensures
        i < keys@.len() && keys@[i]@.matches_algorithm(algorithm) ==> r == Ok::<&Jwk, KeyError>(
            &keys@[i],
        ),
        i < keys@.len() && !keys@[i]@.matches_algorithm(algorithm) ==> (r matches Err(
            KeyError::IncompatibleKey { key_id, algorithm: named },
        ) && named == algorithm && key_id is Some && key_id->0@ == id@),
        i == keys@.len() ==> (r matches Err(KeyError::NoKeyForKid(named)) && named@ == id@),
{
    let views = jwk_views(keys@);
    let kid = Some(id);
    assert(kid.deep_view() == Some(id@));
    assert forall|j: int| 0 <= j < i implies !(#[trigger] views[j]).has_id(id@) by {
        assert(views[j] == keys@[j]@);
    }
    if i < keys@.len() {
        assert(views[i] == keys@[i]@);
        assert(views[i].has_id(id@));
        if keys@[i]@.matches_algorithm(algorithm) {
            assert(selects(views, kid.deep_view(), algorithm, i));
        }
        if r is Ok {
            let k = choose|k: int| #[trigger]
                selects(views, kid.deep_view(), algorithm, k) && *r->Ok_0 == keys@[k];
            assert(views[k].has_id(id@));
            assert(k == i);
        } else {
            let e = r->Err_0;
            assert(selection_error(views, kid.deep_view(), algorithm, e));
            if e is IncompatibleKey {
                let key_id = e->IncompatibleKey_key_id;
                assert(key_id.deep_view() == Some(id@));
            }
        }
    } else {
        assert forall|j: int| 0 <= j < views.len() implies !(#[trigger] views[j]).has_id(id@) by {
            assert(views[j] == keys@[j]@);
        }
        if r is Ok {
            let k = choose|k: int| #[trigger]
                selects(views, kid.deep_view(), algorithm, k) && *r->Ok_0 == keys@[k];
            assert(views[k].has_id(id@));
        }
    }
}

/// For a token without a key id the only key that fits is the one, wherever it
/// stands; with none or several the error tells which.
pub proof fn only_fitting_key_is_taken(
    keys: Vec<Jwk>,
    algorithm: JwtAlgorithm,
    r: Result<&Jwk, KeyError>,
    i: int,
    j: int,
)
    requires
        call_ensures(select_jwk_for_token, (&keys, &None, algorithm), r),
    ensures
        0 <= i < keys@.len() && keys@[i]@.matches_algorithm(algorithm) && (forall|k: int|
            0 <= k < keys@.len() && k != i ==> !(#[trigger] keys@[k])@.matches_algorithm(algorithm))
            ==> r == Ok::<&Jwk, KeyError>(&keys@[i]),
        (forall|k: int|
            0 <= k < keys@.len() ==> !(#[trigger] keys@[k])@.matches_algorithm(algorithm)) ==> r
            == Err::<&Jwk, KeyError>(KeyError::NoKeyForAlgorithm(algorithm)),
        0 <= i < j < keys@.len() && keys@[i]@.matches_algorithm(algorithm)
            && keys@[j]@.matches_algorithm(algorithm) ==> r == Err::<&Jwk, KeyError>(
            KeyError::SeveralKeysForAlgorithm(algorithm),
        ),
{
    let views = jwk_views(keys@);
    let kid: Option<String> = None;
    assert(kid.deep_view() is None);
    assert forall|k: int| 0 <= k < keys@.len() implies views[k] == #[trigger] keys@[k]@ by {}
    if r is Ok {
        let k = choose|k: int| #[trigger]
            selects(views, kid.deep_view(), algorithm, k) && *r->Ok_0 == keys@[k];
        assert(views[k].matches_algorithm(algorithm));
        assert(keys@[k]@.matches_algorithm(algorithm));
        if 0 <= i < keys@.len() && keys@[i]@.matches_algorithm(algorithm) {
            assert(views[i].matches_algorithm(algorithm));
        }
        if 0 <= j < keys@.len() && keys@[j]@.matches_algorithm(algorithm) {
            assert(views[j].matches_algorithm(algorithm));
        }
    } else {
        let e = r->Err_0;
        assert(selection_error(views, kid.deep_view(), algorithm, e));
        if 0 <= i < keys@.len() && keys@[i]@.matches_algorithm(algorithm) {
            assert(views[i].matches_algorithm(algorithm));
            if forall|k: int|
                0 <= k < keys@.len() && k != i ==> !(#[trigger] keys@[k])@.matches_algorithm(
                    algorithm,
                ) {
                assert forall|k: int| 0 <= k < views.len() && k != i implies !(#[trigger]
                views[k]).matches_algorithm(algorithm) by {
                    assert(views[k] == keys@[k]@);
                }
                assert(selects(views, kid.deep_view(), algorithm, i));
            }
        }
        if forall|k: int|
            0 <= k < keys@.len() ==> !(#[trigger] keys@[k])@.matches_algorithm(algorithm) {
            assert forall|k: int| 0 <= k < views.len() implies !(#[trigger]
            views[k]).matches_algorithm(algorithm) by {
                assert(views[k] == keys@[k]@);
            }
        }
    }
}

/// The list of what keys hold has them all, in their order.
pub proof fn lists_of_keys_are_seen_whole(keys: Seq<Jwk>, i: int)
    ensures
        jwk_views(keys).len() == keys.len(),
        0 <= i < keys.len() ==> jwk_views(keys)[i] == keys[i]@,
{
}

/// The key that a token refers to in a list: the first of the token's key id, or
/// the only one that fits the algorithm. It always fits.
pub proof fn key_a_token_refers_to(
    keys: Seq<JwkView>,
    kid: Option<Seq<char>>,
    algorithm: JwtAlgorithm,
    i: int,
)
    ensures
        kid is Some ==> (selects(keys, kid, algorithm, i) <==> 0 <= i < keys.len() && keys[i].key_id
            == kid && keys[i].matches_algorithm(algorithm) && forall|j: int|
            0 <= j < i ==> (#[trigger] keys[j]).key_id != kid),
        kid is None ==> (selects(keys, kid, algorithm, i) <==> 0 <= i < keys.len()
            && keys[i].matches_algorithm(algorithm) && forall|j: int|
            0 <= j < keys.len() && j != i ==> !(#[trigger] keys[j]).matches_algorithm(algorithm)),
{
    if kid is Some {
        if selects(keys, kid, algorithm, i) {
            assert forall|j: int| 0 <= j < i implies (#[trigger] keys[j]).key_id != kid by {
                assert(!keys[j].has_id(kid->0));
            }
        }
        if 0 <= i < keys.len() && keys[i].key_id == kid && keys[i].matches_algorithm(algorithm) && (
        forall|j: int| 0 <= j < i ==> (#[trigger] keys[j]).key_id != kid) {
            assert forall|j: int| 0 <= j < i implies !(#[trigger] keys[j]).has_id(kid->0) by {
                assert(keys[j].key_id != kid);
            }
        }
    }
}

} // verus!
