//! The session issuer: signed access tokens carrying identity claims.
//!
//! A token is minted with issue time `now` and expiry exactly one access
//! lifetime later, and signed under a server-held secret. Decoding verifies
//! the signature and structure only; it deliberately does not reject an
//! expired token, so that the refresh-rotation protocol can compare the
//! expiry against the current time itself.

use vstd::prelude::*;

use crate::constants::BEARER_EXPIRATION_SECONDS;
use crate::errors::AuthError;

verus! {

/// The decoded identity payload of an access token.
#[derive(Debug, Clone)]
pub struct JwtClaims {
    /// Expiry time of the token, seconds since the epoch.
    pub exp: u64,
    /// Issue time of the token, seconds since the epoch.
    pub iat: u64,
    pub id: i32,
    pub name: String,
    pub email: String,
}

impl View for JwtClaims {
    type V = (int, Seq<char>, Seq<char>, int, int);

    open spec fn view(&self) -> (int, Seq<char>, Seq<char>, int, int) {
        (self.id as int, self.name@, self.email@, self.iat as int, self.exp as int)
    }
}

/// What verifying and deserializing `token` under `secret` yields:
/// the claims (id, name, email, iat, exp) when the signature and structure
/// are valid, and nothing otherwise. Deterministic in its two arguments;
/// expiry plays no part.
pub uninterp spec fn jwt_claims(secret: Seq<char>, token: Seq<char>) -> Option<
    (int, Seq<char>, Seq<char>, int, int),
>;

/// Relies on jsonwebtoken::encode with an HS256 secret: the signed token,
/// when verified and deserialized under the same secret, yields exactly the
/// claims given here. Encoding cannot fail: an HMAC key accepts any length,
/// and serializing this claims map and signing the payload are infallible,
/// so the call always returns a token.
#[verifier::external_body]
fn jwt_encode_raw(secret: &str, id: i32, name: &str, email: &str, iat: u64, exp: u64) -> (r:
    Option<String>)
    ensures
        r is Some,
        r matches Some(t) ==> jwt_claims(secret@, t@) == Some(
            (id as int, name@, email@, iat as int, exp as int),
        ),
{
    let mut m = serde_json::Map::new();
    m.insert("id".to_string(), serde_json::Value::from(id));
    m.insert("name".to_string(), serde_json::Value::from(name));
    m.insert("email".to_string(), serde_json::Value::from(email));
    m.insert("iat".to_string(), serde_json::Value::from(iat));
    m.insert("exp".to_string(), serde_json::Value::from(exp));
    let key = jsonwebtoken::EncodingKey::from_secret(secret.as_bytes());
    jsonwebtoken::encode(&jsonwebtoken::Header::default(), &serde_json::Value::Object(m), &key).ok()
}

/// Relies on jsonwebtoken::decode with an HS256 secret, expiry validation
/// switched off: succeeds exactly on tokens whose signature and claim
/// structure are valid, and returns the claims they carry. Deterministic in
/// secret and token.
#[verifier::external_body]
fn jwt_decode_raw(secret: &str, token: &str) -> (r: Option<(i32, String, String, u64, u64)>)
    ensures
        r is Some <==> jwt_claims(secret@, token@) is Some,
        r matches Some(c) ==> jwt_claims(secret@, token@) == Some(
            (c.0 as int, c.1@, c.2@, c.3 as int, c.4 as int),
        ),
{
    let mut validation = jsonwebtoken::Validation::new(jsonwebtoken::Algorithm::HS256);
    validation.validate_exp = false;
    validation.required_spec_claims = std::collections::HashSet::new();
    let key = jsonwebtoken::DecodingKey::from_secret(secret.as_bytes());
    let data = jsonwebtoken::decode::<serde_json::Value>(token, &key, &validation).ok()?;
    let c = data.claims;
    let id = i32::try_from(c.get("id")?.as_i64()?).ok()?;
    let name = c.get("name")?.as_str()?.to_string();
    let email = c.get("email")?.as_str()?.to_string();
    let iat = c.get("iat")?.as_u64()?;
    let exp = c.get("exp")?.as_u64()?;
    Some((id, name, email, iat, exp))
}

/// Mints a signed access token for the given identity at time `now`,
/// expiring exactly one access lifetime later. Always succeeds: HMAC
/// signing is infallible.
pub fn encode_jwt(secret: &str, id: &i32, name: &str, email: &str, now: u64) -> (r: Result<
    String,
    AuthError,
>)
    requires
        now + BEARER_EXPIRATION_SECONDS <= u64::MAX,
    ensures
        r is Ok,
        r matches Ok(t) ==> jwt_claims(secret@, t@) == Some(
            (
                *id as int,
                name@,
                email@,
                now as int,
                now as int + BEARER_EXPIRATION_SECONDS as int,
            ),
        ),
{
    match jwt_encode_raw(secret, *id, name, email, now, now + BEARER_EXPIRATION_SECONDS) {
        Some(t) => Ok(t),
        None => Err(AuthError::InternalFailure),
    }
}

/// Verifies signature and structure of a token and returns its claims.
///
/// Succeeds exactly on structurally valid, correctly signed tokens; an
/// expired token still decodes, and callers compare `exp` with the current
/// time themselves.
pub fn decode_jwt(secret: &str, jwt: &str) -> (r: Result<JwtClaims, AuthError>)
    ensures
        r is Ok <==> jwt_claims(secret@, jwt@) is Some,
        r matches Ok(c) ==> jwt_claims(secret@, jwt@) == Some(c@),
        r is Err ==> r == Result::<JwtClaims, AuthError>::Err(AuthError::InvalidToken),
{
    match jwt_decode_raw(secret, jwt) {
        Some((id, name, email, iat, exp)) => Ok(JwtClaims { exp, iat, id, name, email }),
        None => Err(AuthError::InvalidToken),
    }
}

/// Decodes a token and additionally checks that it belongs to `expected_id`.
pub fn verify_jwt(secret: &str, jwt: &str, expected_id: &i32) -> (r: Result<JwtClaims, AuthError>)
    ensures
        r is Ok <==> (jwt_claims(secret@, jwt@) matches Some(c) && c.0 == *expected_id as int),
        r matches Ok(c) ==> jwt_claims(secret@, jwt@) == Some(c@),
        r is Err ==> r == Result::<JwtClaims, AuthError>::Err(AuthError::AuthenticationFailure),
{
    match jwt_decode_raw(secret, jwt) {
        Some((id, name, email, iat, exp)) => {
            if id == *expected_id {
                Ok(JwtClaims { exp, iat, id, name, email })
            } else {
                Err(AuthError::AuthenticationFailure)
            }
        },
        None => Err(AuthError::AuthenticationFailure),
    }
}

/// Law: decoding any token minted for (id, name, email) at time `now`
/// recovers exactly that identity, and its expiry exceeds its issue time by
/// exactly the configured access lifetime.
pub proof fn lemma_decode_recovers_encoded(
    secret: Seq<char>,
    token: Seq<char>,
    id: int,
    name: Seq<char>,
    email: Seq<char>,
    now: int,
)
    requires
        jwt_claims(secret, token) == Some(
            (id, name, email, now, now + BEARER_EXPIRATION_SECONDS as int),
        ),
    ensures
        jwt_claims(secret, token) matches Some(c) ==> {
            &&& c.0 == id
            &&& c.1 == name
            &&& c.2 == email
            &&& c.4 - c.3 == BEARER_EXPIRATION_SECONDS as int
            &&& c.4 > c.3
        },
{
}

} // verus!
