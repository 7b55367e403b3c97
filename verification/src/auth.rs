//! Validation of the claims carried by a session token. The cryptographic
//! check of the Ed25519 signature is the key holder's affair; once the
//! claims are out of the envelope, this module decides — exactly — whether
//! they admit the bearer: right issuer, right audience, not yet expired.
//! A rejected token surfaces as `401` and the session never enters the
//! registry.

use vstd::prelude::*;

use crate::text::str_eq;

verus! {

/// The claims a session token carries: subject (user id), workspace id,
/// issuer, audience, and expiry in UTC seconds.
pub struct TokenClaims {
    pub sub: i64,
    pub wid: i64,
    pub iss: String,
    pub aud: String,
    pub exp: i64,
}

/// Why a token was rejected.
#[derive(Clone, Copy, Debug, PartialEq, Eq, Structural)]
pub enum AuthError {
    WrongIssuer,
    WrongAudience,
    Expired,
}

/// Whether claims admit the bearer at time `now`.
pub open spec fn spec_claims_valid(claims: &TokenClaims, now: i64) -> bool {
    claims.iss@ == "chat_server"@ && claims.aud@ == "chat_web"@ && now < claims.exp
}

/// Decides whether the claims admit the bearer at time `now`, yielding the
/// routing identity `(user_id, workspace_id)` exactly when the issuer is
/// `chat_server`, the audience is `chat_web` and the expiry lies in the
/// future — and otherwise the first reason, in that order, why not.
pub fn validate_claims(claims: &TokenClaims, now: i64) -> (r: Result<(i64, i64), AuthError>)
    ensures
        match r {
            Ok((user_id, workspace_id)) => spec_claims_valid(claims, now) && user_id == claims.sub
                && workspace_id == claims.wid,
            Err(AuthError::WrongIssuer) => claims.iss@ != "chat_server"@,
            Err(AuthError::WrongAudience) => claims.iss@ == "chat_server"@ && claims.aud@
                != "chat_web"@,
            Err(AuthError::Expired) => claims.iss@ == "chat_server"@ && claims.aud@ == "chat_web"@
                && now >= claims.exp,
        },
{
    if !str_eq(claims.iss.as_str(), "chat_server") {
        Err(AuthError::WrongIssuer)
    } else if !str_eq(claims.aud.as_str(), "chat_web") {
        Err(AuthError::WrongAudience)
    } else if now >= claims.exp {
        Err(AuthError::Expired)
    } else {
        Ok((claims.sub, claims.wid))
    }
}

/// What the session handler answers: a valid token opens the stream with
/// `200`, anything else — a missing bearer, a bad signature (no claims at
/// all), or claims that fail validation — is `401`.
pub fn response_status(claims: Option<&TokenClaims>, now: i64) -> (r: u16)
    ensures
        r == 200 <==> (claims is Some && spec_claims_valid(claims->Some_0, now)),
        r == 200 || r == 401,
{
    match claims {
        None => 401,
        Some(c) => match validate_claims(c, now) {
            Ok(_) => 200,
            Err(_) => 401,
        },
    }
}

/// The body answered by the sign-in endpoints: a freshly signed token.
pub struct AuthOutput {
    pub token: String,
}

} // verus!
