use vstd::prelude::*;
use crate::errors::AppError;

verus! {

/// A server-held signing secret, supplied at process start and treated as
/// an opaque string.
#[derive(Debug)]
pub struct JwtSecret(String);

impl JwtSecret {
    /// The secret's characters.
    pub closed spec fn view(&self) -> Seq<char> {
        self.0@
    }

    /// Wraps a signing secret.
    pub fn new(secret: String) -> (r: JwtSecret)
        ensures
            r@ == secret@,
    {
        JwtSecret(secret)
    }

    pub(crate) fn secret_str(&self) -> (r: &str)
        ensures
            r@ == self@,
    {
        self.0.as_str()
    }
}

impl From<String> for JwtSecret {
    fn from(secret: String) -> (r: Self)
        ensures
            r@ == secret@,
    {
        JwtSecret(secret)
    }
}

impl vstd::std_specs::convert::FromSpecImpl<String> for JwtSecret {
    closed spec fn obeys_from_spec() -> bool {
        true
    }

    closed spec fn from_spec(secret: String) -> Self {
        JwtSecret(secret)
    }
}

/// The claim set carried by a bearer token: the subject user's id and
/// username, and the expiry in seconds since the epoch.
#[derive(Debug)]
pub struct TokenClaims {
    pub sub: u64,
    pub username: String,
    pub exp: u64,
}

/// The token that HS256 signing produces for this claim set under this
/// secret: a deterministic function of the four arguments alone.
pub uninterp spec fn token_of(sub: u64, username: Seq<char>, exp: u64, secret: Seq<char>) -> Seq<
    char,
>;

/// The claim set that decoding recovers from a token under a secret, or
/// `None` where the token is malformed, its signature does not match the
/// secret, or its claims are not a subject id, a username and an expiry.
/// With time-based checks left to the caller this is a deterministic
/// function of the two arguments alone.
pub uninterp spec fn token_claims(token: Seq<char>, secret: Seq<char>) -> Option<
    (u64, Seq<char>, u64),
>;

/// Relies on jsonwebtoken::encode with the default HS256 header and an HMAC
/// secret, which signs deterministically and does not fail, and on
/// jsonwebtoken::decode under the same secret recovering exactly the claims
/// that were signed.
#[verifier::external_body]
pub(crate) fn encode_token(sub: u64, username: &str, exp: u64, secret: &str) -> (r: String)
    ensures
        r@ == token_of(sub, username@, exp, secret@),
        token_claims(r@, secret@) == Some((sub, username@, exp)),
{
    let mut claims = serde_json::Map::new();
    claims.insert("sub".to_owned(), serde_json::Value::from(sub));
    claims.insert("username".to_owned(), serde_json::Value::from(username));
    claims.insert("exp".to_owned(), serde_json::Value::from(exp));
    let key = jsonwebtoken::EncodingKey::from_secret(secret.as_bytes());
    jsonwebtoken::encode(
        &jsonwebtoken::Header::default(),
        &serde_json::Value::Object(claims),
        &key,
    ).expect("HMAC signing of a JSON object does not fail")
}

/// Relies on jsonwebtoken::decode restricted to HS256 and with its
/// time-based checks turned off: the outcome is then a deterministic
/// function of the token and the secret, and a token whose signature does
/// not match the secret is rejected. Expiry is checked by the callers, in
/// verified code.
#[verifier::external_body]
pub(crate) fn decode_token(token: &str, secret: &str) -> (r: Result<(u64, String, u64), ()>)
    ensures
        match r {
            Ok(c) => token_claims(token@, secret@) == Some((c.0, c.1@, c.2)),
            Err(()) => token_claims(token@, secret@) is None,
        },
{
    let mut validation = jsonwebtoken::Validation::new(jsonwebtoken::Algorithm::HS256);
    validation.validate_exp = false;
    validation.required_spec_claims.clear();
    let key = jsonwebtoken::DecodingKey::from_secret(secret.as_bytes());
    let data = jsonwebtoken::decode::<serde_json::Value>(token, &key, &validation).map_err(
        |_| (),
    )?;
    let sub = data.claims.get("sub").and_then(serde_json::Value::as_u64).ok_or(())?;
    let exp = data.claims.get("exp").and_then(serde_json::Value::as_u64).ok_or(())?;
    let username = data.claims.get("username").and_then(serde_json::Value::as_str).ok_or(())?;
    Ok((sub, username.to_owned(), exp))
}

/// Relies on chrono::Utc::now for the time now, in seconds since the epoch;
/// of the clock's value nothing is promised. chrono panics if the system
/// clock is set before the epoch; that is environmental, not input-driven.
#[verifier::external_body]
pub(crate) fn current_timestamp() -> (t: i64) {
    chrono::Utc::now().timestamp()
}

/// The one message for every token failure.
pub open spec fn token_error_msg() -> Seq<char> {
    "Authentication token error"@
}

/// Checks a presented bearer token as of the given time: the signature must
/// match the secret and the expiry must not lie in the past — a token is
/// good through its expiry instant and rejected once that has passed. There
/// are no partial-validity states: any failure is the one `Unauthorized`
/// error, and a tampered token never verifies, whatever its expiry.
pub fn verify_token(token: &str, secret: &JwtSecret, now: u64) -> (r: Result<
    TokenClaims,
    AppError,
>)
    ensures
        match r {
            Ok(c) => token_claims(token@, secret@) == Some((c.sub, c.username@, c.exp)) && now
                <= c.exp,
            Err(e) => {
                &&& e matches AppError::Unauthorized(m) && m@ == token_error_msg()
                &&& match token_claims(token@, secret@) {
                    Some(c) => c.2 < now,
                    None => true,
                }
            },
        },
        r is Ok <==> match token_claims(token@, secret@) {
            Some(c) => now <= c.2,
            None => false,
        },
{
    match decode_token(token, secret.secret_str()) {
        Ok((sub, username, exp)) => {
            if now <= exp {
                Ok(TokenClaims { sub, username, exp })
            } else {
                Err(AppError::Unauthorized("Authentication token error".to_owned()))
            }
        },
        Err(()) => Err(AppError::Unauthorized("Authentication token error".to_owned())),
    }
}

} // verus!
