use vstd::prelude::*;

use jsonwebtoken::errors::ErrorKind;
use serde_json::Value;

verus! {

/// The identity carried by a signed token: user id, username, admin flag,
/// and the expiry instant in seconds since the Unix epoch.
#[derive(Debug)]
pub struct Claims {
    pub sub: i32,
    pub username: String,
    pub is_admin: bool,
    pub exp: usize,
}

#[verifier::ext_equal]
pub struct ClaimsView {
    pub sub: int,
    pub username: Seq<char>,
    pub is_admin: bool,
    pub exp: int,
}

impl View for Claims {
    type V = ClaimsView;

    open spec fn view(&self) -> ClaimsView {
        ClaimsView {
            sub: self.sub as int,
            username: self.username@,
            is_admin: self.is_admin,
            exp: self.exp as int,
        }
    }
}

pub open spec fn claims_view(sub: int, username: Seq<char>, is_admin: bool, exp: int) -> ClaimsView {
    ClaimsView { sub, username, is_admin, exp }
}

/// The claim fields carried by a token that is HS256-signed with the given
/// secret: `Some` exactly when the token is validly signed with that secret
/// and its payload carries the four fields with these values. Signing is a
/// function of the payload and the secret alone, so this is well defined.
pub uninterp spec fn token_claims(token: Seq<char>, secret: Seq<char>) -> Option<ClaimsView>;

#[verifier::external_type_specification]
#[verifier::external_body]
pub struct ExJwtError(jsonwebtoken::errors::Error);

/// Relies on jsonwebtoken::encode with the default header (HS256) and an
/// HMAC secret: the token it returns is signed with that secret and its
/// payload carries exactly the claim fields handed in. Encoding cannot
/// fail: under the rust_crypto provider this crate is built with, the
/// HS256 signer accepts a secret of any length and signing is infallible,
/// and serializing the four plain claim fields cannot fail either.
#[verifier::external_body]
fn encode_claims(sub: i32, username: &str, is_admin: bool, exp: usize, secret: &str) -> (r: Result<
    String,
    jsonwebtoken::errors::Error,
>)
    ensures
        r is Ok,
        r matches Ok(t) ==> token_claims(t@, secret@) == Some(
            claims_view(sub as int, username@, is_admin, exp as int),
        ),
{
    let mut claims = serde_json::Map::new();
    claims.insert("sub".to_owned(), Value::from(sub));
    claims.insert("username".to_owned(), Value::from(username));
    claims.insert("is_admin".to_owned(), Value::from(is_admin));
    claims.insert("exp".to_owned(), Value::from(exp as u64));
    jsonwebtoken::encode(
        &jsonwebtoken::Header::default(),
        &Value::Object(claims),
        &jsonwebtoken::EncodingKey::from_secret(secret.as_bytes()),
    )
}

/// Verifies a bearer token against the signing secret.
///
/// Relies on jsonwebtoken::decode with the default validation (HS256 only,
/// expiry required and checked against the system clock with 60 s leeway):
/// a token it accepts was signed with the given secret, and the claims
/// returned are the ones signed into it. Whether a live token is accepted
/// depends on the clock, so success is never promised here.
#[verifier::external_body]
pub fn verify_token(token: &str, secret: &str) -> (r: Result<Claims, jsonwebtoken::errors::Error>)
    ensures
        r matches Ok(c) ==> token_claims(token@, secret@) == Some(c@),
{
    let key = jsonwebtoken::DecodingKey::from_secret(secret.as_bytes());
    let v = jsonwebtoken::decode::<Value>(token, &key, &jsonwebtoken::Validation::default())?.claims;
    let sub = v.get("sub").and_then(Value::as_i64).ok_or(ErrorKind::InvalidToken)?;
    let sub = i32::try_from(sub).or(Err(ErrorKind::InvalidToken))?;
    let username = v.get("username").and_then(Value::as_str).ok_or(ErrorKind::InvalidToken)?.to_owned();
    let is_admin = v.get("is_admin").and_then(Value::as_bool).ok_or(ErrorKind::InvalidToken)?;
    let exp = v.get("exp").and_then(Value::as_u64).ok_or(ErrorKind::InvalidToken)?;
    let exp = usize::try_from(exp).or(Err(ErrorKind::InvalidToken))?;
    Ok(Claims { sub, username, is_admin, exp })
}

/// The number of seconds an issued token stays valid.
pub open spec fn token_lifetime() -> int {
    86400
}

/// Issues a signed token for the given identity, expiring 24 hours after
/// `now` (seconds since the Unix epoch). Issuance always succeeds.
pub fn create_token(user_id: i32, username: &str, is_admin: bool, secret: &str, now: i64) -> (r:
    Result<String, jsonwebtoken::errors::Error>)
    requires
        0 <= now,
        now + token_lifetime() <= i64::MAX,
        now + token_lifetime() <= usize::MAX,
    ensures
        r is Ok,
        r matches Ok(t) ==> token_claims(t@, secret@) == Some(
            claims_view(user_id as int, username@, is_admin, now + token_lifetime()),
        ),
{
    let exp: usize = (now + 86400) as usize;
    encode_claims(user_id, username, is_admin, exp, secret)
}

} // verus!
