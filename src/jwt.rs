//! Trusted boundary to `jsonwebtoken` and to the JSON claims it decodes.
use vstd::prelude::*;
use jsonwebtoken::{Algorithm, DecodingKey, Validation};
use serde_json::Value;
use crate::auth::{AudClaim, AuthError, KeySource, KeyView, SigningAlg, TokenHeader};

verus! {

#[verifier::external_type_specification]
#[verifier::external_body]
pub struct ExJwtError(jsonwebtoken::errors::Error);

#[verifier::external_type_specification]
#[verifier::external_body]
pub struct ExValue(Value);

/// The signing algorithm and key id that a token's header names, when the
/// header decodes; a function of the token text alone.
pub uninterp spec fn token_header(token: Seq<char>) -> Option<(SigningAlg, Option<Seq<char>>)>;

/// Relies on jsonwebtoken::decode_header: it reads the header segment of the
/// token without checking the signature.
#[verifier::external_body]
pub(crate) fn read_header(token: &str) -> (r: Option<TokenHeader>)
    ensures
        r is Some <==> token_header(token@) is Some,
        r matches Some(h) ==> token_header(token@) == Some((h.alg, crate::store::opt_view(h.kid))),
{
    jsonwebtoken::decode_header(token).ok().map(|h| TokenHeader {
        alg: match h.alg {
            Algorithm::HS256 => SigningAlg::Hs256,
            Algorithm::RS256 => SigningAlg::Rs256,
            _ => SigningAlg::Other,
        },
        kid: h.kid,
    })
}

/// Whether jsonwebtoken accepts `token` under the key and audience: the
/// header names the key's algorithm, the signature verifies, an `exp` claim
/// is present and the audience claim names `audience`. Expiry itself is not
/// checked here, so no clock is read: a function of its arguments alone.
pub uninterp spec fn token_verifies(token: Seq<char>, key: KeyView, audience: Seq<char>) -> bool;

/// Relies on jsonwebtoken::decode (with DecodingKey::from_secret or
/// from_rsa_components, and Validation::new without the expiry check): the
/// token's claims as JSON, when the token verifies.
#[verifier::external_body]
pub(crate) fn decode_claims(token: &str, key: &KeySource, audience: &str) -> (r: Result<Value, jsonwebtoken::errors::Error>)
    ensures
        r is Ok <==> token_verifies(token@, key@, audience@),
{
    let (dk, alg) = match key {
        KeySource::Secret(s) => (DecodingKey::from_secret(s.as_bytes()), Algorithm::HS256),
        KeySource::Rsa { n, e } => (DecodingKey::from_rsa_components(n, e)?, Algorithm::RS256),
    };
    let mut rules = Validation::new(alg);
    rules.validate_exp = false;
    rules.set_audience(&[audience]);
    jsonwebtoken::decode::<Value>(token, &dk, &rules).map(|d| d.claims)
}

/// Relies on jsonwebtoken::errors::Error::kind: which check refused the token.
#[verifier::external_body]
pub(crate) fn refusal_of(e: &jsonwebtoken::errors::Error) -> AuthError {
    match e.kind() {
        jsonwebtoken::errors::ErrorKind::ExpiredSignature => AuthError::Expired,
        jsonwebtoken::errors::ErrorKind::InvalidSignature => AuthError::BadSignature,
        jsonwebtoken::errors::ErrorKind::InvalidAudience => AuthError::AudienceMismatch,
        jsonwebtoken::errors::ErrorKind::InvalidAlgorithm => AuthError::UnsupportedAlgorithm,
        _ => AuthError::Malformed,
    }
}

/// Relies on serde_json::Value::get: the string held under `name`, if the
/// claims hold a string there.
#[verifier::external_body]
pub(crate) fn claim_text(claims: &Value, name: &str) -> Option<String> {
    match claims.get(name) {
        Some(Value::String(s)) => Some(s.clone()),
        _ => None,
    }
}

/// Relies on serde_json::Value::get: the unsigned integer held under `name`, if any.
#[verifier::external_body]
pub(crate) fn claim_u64(claims: &Value, name: &str) -> Option<u64> {
    claims.get(name).and_then(|v| v.as_u64())
}

/// Relies on serde_json::Value::get and Value::as_str: the audience claim as
/// it arrives, a string, a list (each entry a string or not), or another shape.
#[verifier::external_body]
pub(crate) fn claim_audience(claims: &Value) -> Option<AudClaim> {
    match claims.get("aud") {
        Some(Value::String(s)) => Some(AudClaim::One(s.clone())),
        Some(Value::Array(items)) => Some(AudClaim::Many(items.iter().map(|i| i.as_str().map(String::from)).collect())),
        Some(_) => Some(AudClaim::Other),
        None => None,
    }
}

} // verus!
