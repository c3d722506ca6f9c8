//! The credential boundary: issuing a signed bearer token at login and
//! establishing the caller identity from one. The signing and validation
//! themselves are jsonwebtoken's work, relied on through two trusted
//! wrappers; everything around them is verified.

use vstd::prelude::*;

use crate::model::{AuthError, AuthUser, Claims, OpError};
use crate::text::{valid_password, valid_username};

verus! {

/// The subject claim that `jsonwebtoken::decode` reads out of a token's
/// payload: a function of the token text alone.
pub uninterp spec fn token_subject(token: Seq<char>) -> Seq<char>;

/// Relies on jsonwebtoken::encode (default header, HS256): it signs a
/// payload carrying exactly the given subject and expiry, so decoding the
/// produced token yields that subject.
#[verifier::external_body]
fn jwt_encode(subject: &String, exp: usize, secret: &[u8]) -> (r: Result<String, ()>)
    ensures
        r is Ok ==> token_subject(r->Ok_0@) == subject@,
{
    let mut claims = serde_json::Map::new();
    claims.insert("subject".to_string(), serde_json::Value::String(subject.clone()));
    claims.insert("exp".to_string(), serde_json::Value::from(exp as u64));
    jsonwebtoken::encode(
        &jsonwebtoken::Header::default(),
        &serde_json::Value::Object(claims),
        &jsonwebtoken::EncodingKey::from_secret(secret),
    ).map_err(|_| ())
}

/// Relies on jsonwebtoken::decode (default validation: HS256, expiry
/// checked): success depends on the signature, the secret and the clock,
/// but the subject returned on success is read from the token alone.
#[verifier::external_body]
fn jwt_decode_subject(token: &str, secret: &[u8]) -> (r: Result<String, ()>)
    ensures
        r is Ok ==> r->Ok_0@ == token_subject(token@),
{
    let key = jsonwebtoken::DecodingKey::from_secret(secret);
    let data = jsonwebtoken::decode::<serde_json::Value>(
        token,
        &key,
        &jsonwebtoken::Validation::default(),
    ).map_err(|_| ())?;
    match data.claims.get("subject").and_then(|v| v.as_str()) {
        Some(s) => Ok(s.to_string()),
        None => Err(()),
    }
}

/// Signs `claims` into a bearer token; a failure inside the signer surfaces
/// as an infrastructure error.
pub fn issue_token(claims: &Claims, secret: &[u8]) -> (r: Result<String, OpError>)
    ensures
        r is Ok ==> token_subject(r->Ok_0@) == claims.subject@,
        r is Err ==> (r matches Err(OpError::Infrastructure)),
{
    match jwt_encode(&claims.subject, claims.exp, secret) {
        Ok(t) => Ok(t),
        Err(_) => Err(OpError::Infrastructure),
    }
}

/// The auth gate: no bearer credential is a missing token; one that does
/// not validate is an invalid token; a valid one authenticates the subject
/// it carries.
pub fn authenticate(bearer: Option<&str>, secret: &[u8]) -> (r: Result<AuthUser, AuthError>)
    ensures
        bearer is None <==> (r matches Err(AuthError::MissingToken)),
        r is Ok ==> bearer is Some && r->Ok_0.username@ == token_subject(bearer->Some_0@),
        bearer is Some && (r is Err) ==> (r matches Err(AuthError::InvalidToken)),
{
    match bearer {
        None => Err(AuthError::MissingToken),
        Some(token) => match jwt_decode_subject(token, secret) {
            Ok(subject) => Ok(AuthUser { username: subject }),
            Err(_) => Err(AuthError::InvalidToken),
        },
    }
}

/// The login decision ladder, in the order the endpoint applies it:
/// malformed credentials are validation errors, an unknown user is not
/// found, a wrong password and a session already open elsewhere are both
/// refusals of authority.
pub fn login_gate(
    username: &String,
    password: &String,
    found: bool,
    credentials_match: bool,
    already_online: bool,
) -> (r: Result<(), OpError>)
    ensures
        (!valid_username(username@) || !valid_password(password@)) <==> (r matches Err(
            OpError::Validation,
        )),
        valid_username(username@) && valid_password(password@) && !found <==> (r matches Err(
            OpError::NotFound,
        )),
        valid_username(username@) && valid_password(password@) && found && !credentials_match <==> (
        r matches Err(OpError::Authorization)),
        valid_username(username@) && valid_password(password@) && found && credentials_match
            && already_online <==> (r matches Err(OpError::Conflict)),
        valid_username(username@) && valid_password(password@) && found && credentials_match
            && !already_online <==> r is Ok,
{
    if !crate::text::check_username(username.as_str()) {
        return Err(OpError::Validation);
    }
    if !crate::text::check_password(password.as_str()) {
        return Err(OpError::Validation);
    }
    if !found {
        return Err(OpError::NotFound);
    }
    if !credentials_match {
        return Err(OpError::Authorization);
    }
    if already_online {
        return Err(OpError::Conflict);
    }
    Ok(())
}

} // verus!
