//! The session issuer and verifier: signed bearer tokens carrying the
//! subject id, the role code and the issue time. Signing and verification
//! go through jsonwebtoken with HS256 and a process-wide secret; both are
//! deterministic functions of their arguments.

use vstd::prelude::*;

use crate::model::{AccountType, Claims, Error};

verus! {

/// The token that jsonwebtoken::encode signs for these claims under the
/// process-wide secret: a deterministic function of the three fields.
pub uninterp spec fn token_of(sub: i32, role_code: i32, iat: u64) -> Seq<char>;

/// What jsonwebtoken::decode recovers from a token under the process-wide
/// secret: the subject, role code and issue time, or nothing when the
/// signature or shape is wrong. Deterministic in the token text alone.
pub uninterp spec fn token_claims(token: Seq<char>) -> Option<(i64, i64, u64)>;

/// The claims a token yields under `decode_jwt`: the decoded triple, when
/// the subject fits an account id and the role code names a role.
pub open spec fn claims_of_token(token: Seq<char>) -> Option<Claims> {
    match token_claims(token) {
        None => None,
        Some(t) => if i32::MIN <= t.0 <= i32::MAX {
            match AccountType::spec_from_code(t.1 as int) {
                Some(account_type) => Some(Claims { sub: t.0 as i32, account_type, iat: t.2 }),
                None => None,
            }
        } else {
            None
        },
    }
}

/// Relies on jsonwebtoken::encode with HS256: a deterministic signed
/// encoding of the claims, which jsonwebtoken::decode under the same
/// secret recovers. Signing cannot fail here: an HMAC key of any length
/// is accepted and a JSON object of plain numbers always serializes.
#[verifier::external_body]
fn jwt_encode(sub: i32, role_code: i32, iat: u64) -> (r: Option<String>)
    ensures
        r is Some,
        r matches Some(t) ==> t@ == token_of(sub, role_code, iat),
        r matches Some(t) ==> token_claims(t@) == Some((sub as i64, role_code as i64, iat)),
{
    let mut claims = serde_json::Map::new();
    claims.insert("sub".to_string(), serde_json::Value::from(sub));
    claims.insert("account_type".to_string(), serde_json::Value::from(role_code));
    claims.insert("iat".to_string(), serde_json::Value::from(iat));
    jsonwebtoken::encode(
        &jsonwebtoken::Header::default(),
        &serde_json::Value::Object(claims),
        &jsonwebtoken::EncodingKey::from_secret("secret".as_bytes()),
    )
        .ok()
}

/// Relies on jsonwebtoken::decode with HS256, expiry checks off: the
/// claims are a deterministic function of the token text.
#[verifier::external_body]
fn jwt_decode(token: &str) -> (r: Option<(i64, i64, u64)>)
    ensures
        r == token_claims(token@),
{
    let mut validation = jsonwebtoken::Validation::new(jsonwebtoken::Algorithm::HS256);
    validation.set_required_spec_claims::<&str>(&[]);
    validation.validate_exp = false;
    let data = jsonwebtoken::decode::<serde_json::Value>(
        token,
        &jsonwebtoken::DecodingKey::from_secret("secret".as_bytes()),
        &validation,
    )
        .ok()?;
    let sub = data.claims.get("sub")?.as_i64()?;
    let role = data.claims.get("account_type")?.as_i64()?;
    let iat = data.claims.get("iat")?.as_u64()?;
    Some((sub, role, iat))
}

/// Relies on std::time::SystemTime::now: seconds since the Unix epoch.
/// Nothing is assumed of the value.
#[verifier::external_body]
fn now_unix_secs() -> u64 {
    std::time::SystemTime::now()
        .duration_since(std::time::UNIX_EPOCH)
        .map(|d| d.as_secs())
        .unwrap_or(0)
}

/// Mints a token for an account, stamped with the present time; decoding
/// the token recovers the account's id and role.
pub fn issue_token(sub: i32, account_type: AccountType) -> (r: Result<String, Error>)
    ensures
        r is Ok,
        r matches Ok(t) ==> exists|iat: u64|
            t@ == #[trigger] token_of(sub, account_type.spec_code(), iat) && claims_of_token(t@)
                == Some(Claims { sub, account_type, iat }),
{
    let iat = now_unix_secs();
    match jwt_encode(sub, account_type.code(), iat) {
        Some(t) => {
            proof {
                assert(claims_of_token(t@) == Some(Claims { sub, account_type, iat }));
            }
            Ok(t)
        },
        None => Err(Error::TokenError),
    }
}

/// Verifies a bearer token and reconstructs the claims: the subject id
/// must fit an account id and the role code must name a role. Succeeds
/// exactly on the tokens `claims_of_token` accepts, with that value.
pub fn decode_jwt(jwt: &str) -> (r: Result<Claims, Error>)
    ensures
        ({
            match claims_of_token(jwt@) {
                Some(c) => r == Ok::<Claims, Error>(c),
                None => r == Err::<Claims, Error>(Error::TokenError),
            }
        }),
        r matches Ok(c) ==> token_claims(jwt@) == Some(
            (c.sub as i64, c.account_type.spec_code() as i64, c.iat),
        ),
{
    match jwt_decode(jwt) {
        None => Err(Error::TokenError),
        Some((sub, role, iat)) => {
            if sub < i32::MIN as i64 || sub > i32::MAX as i64 {
                return Err(Error::TokenError);
            }
            if role < i32::MIN as i64 || role > i32::MAX as i64 {
                return Err(Error::TokenError);
            }
            match AccountType::from_code(role as i32) {
                None => Err(Error::TokenError),
                Some(account_type) => Ok(Claims { sub: sub as i32, account_type, iat }),
            }
        },
    }
}

} // verus!
