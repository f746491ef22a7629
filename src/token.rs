//! The token codec: a signed identity claim (subject, issued-at, expiry)
//! under one symmetric secret key. Tokens are not stored: a token stays
//! valid until it expires.

use vstd::prelude::*;

verus! {

/// How long a token stays valid, in seconds.
pub const ONE_DAY: i64 = 86400;

/// The identity claim a token carries.
#[derive(Debug, Clone, Copy, PartialEq, Eq, Structural)]
pub struct Claims {
    pub user_id: i64,
    pub iat: i64,
    pub exp: i64,
}

/// Why a token is refused.
#[derive(Debug, Clone, Copy, PartialEq, Eq, Structural)]
pub enum TokenError {
    /// Well formed, but not signed with the key.
    InvalidSignature,
    /// Not a token, or a claim is missing.
    Malformed,
    /// The expiry lies before the current time.
    Expired,
}

/// The claims a signed token holds under a key, read without looking at
/// the current time: subject, issued-at and expiry, each if present.
pub uninterp spec fn decoded_fields(token: Seq<char>, key: Seq<u8>) -> Result<
    (Option<i64>, Option<i64>, Option<i64>),
    TokenError,
>;

/// Relies on `jsonwebtoken::decode` (HS256, `Validation::default()` with
/// the expiry check switched off, so the answer depends on token and key
/// alone): the claims `user_id`, `iat` and `exp` of a token signed with
/// `key`; a bad signature and every other failure kept apart.
#[verifier::external_body]
fn decode_fields(token: &str, key: &[u8]) -> (r: Result<(Option<i64>, Option<i64>, Option<i64>), TokenError>)
    ensures
        r == decoded_fields(token@, key@),
{
    let mut validation = jsonwebtoken::Validation::default();
    validation.validate_exp = false;
    let key = jsonwebtoken::DecodingKey::from_secret(key);
    match jsonwebtoken::decode::<std::collections::BTreeMap<String, i64>>(token, &key, &validation) {
        Ok(d) => Ok((d.claims.get("user_id").copied(), d.claims.get("iat").copied(), d.claims.get("exp").copied())),
        Err(e) => match e.kind() {
            jsonwebtoken::errors::ErrorKind::InvalidSignature => Err(TokenError::InvalidSignature),
            _ => Err(TokenError::Malformed),
        },
    }
}

/// The decoded fields of a token issued with these claims.
pub open spec fn issued_fields(user_id: i64, iat: i64, exp: i64) -> Result<
    (Option<i64>, Option<i64>, Option<i64>),
    TokenError,
> {
    Ok((Some(user_id), Some(iat), Some(exp)))
}

/// Relies on `jsonwebtoken::encode` (default HS256 header, HMAC key from
/// `key`): a token carrying the claims `user_id`, `iat` and `exp`, which
/// `jsonwebtoken::decode` with the same key gives back when `exp` is not
/// negative (its validation reads `exp` as an unsigned number). It is
/// always `Some`: `encode` fails only when key and header belong to
/// different algorithm families (both are HMAC here), when the claims do
/// not serialize (a map of strings to integers always does) or when
/// signing fails (HMAC signing cannot).
#[verifier::external_body]
fn encode_fields(user_id: i64, iat: i64, exp: i64, key: &[u8]) -> (r: Option<String>)
    ensures
        r is Some,
        r matches Some(t) ==> (0 <= exp ==> decoded_fields(t@, key@) == issued_fields(user_id, iat, exp)),
{
    let claims = std::collections::BTreeMap::from([
        ("user_id".to_string(), user_id),
        ("iat".to_string(), iat),
        ("exp".to_string(), exp),
    ]);
    let key = jsonwebtoken::EncodingKey::from_secret(key);
    jsonwebtoken::encode(&jsonwebtoken::Header::default(), &claims, &key).ok()
}

/// The claims of decoded fields at time `now`: all three must be present
/// and the expiry must not lie before `now`.
pub open spec fn claims_result(
    fields: Result<(Option<i64>, Option<i64>, Option<i64>), TokenError>,
    now: i64,
) -> Result<Claims, TokenError> {
    match fields {
        Err(e) => Err(e),
        Ok((Some(user_id), Some(iat), Some(exp))) => if exp < now {
            Err(TokenError::Expired)
        } else {
            Ok(Claims { user_id, iat, exp })
        },
        Ok(_) => Err(TokenError::Malformed),
    }
}

impl Claims {
    /// The claim issued to `user_id` at `now`, expiring a day later.
    pub fn new(user_id: i64, now: i64) -> (r: Claims)
        requires
            now <= i64::MAX - ONE_DAY,
        ensures
            r == (Claims { user_id, iat: now, exp: (now + ONE_DAY) as i64 }),
    {
        Claims { user_id, iat: now, exp: now + ONE_DAY }
    }
}

/// The claims of decoded fields at time `now` (see `claims_result`).
pub fn claims_from_fields(fields: Result<(Option<i64>, Option<i64>, Option<i64>), TokenError>, now: i64) -> (r:
    Result<Claims, TokenError>)
    ensures
        r == claims_result(fields, now),
{
    match fields {
        Err(e) => Err(e),
        Ok((Some(user_id), Some(iat), Some(exp))) => {
            if exp < now {
                Err(TokenError::Expired)
            } else {
                Ok(Claims { user_id, iat, exp })
            }
        },
        Ok(_) => Err(TokenError::Malformed),
    }
}

/// Decodes `token` under `key` at time `now`.
pub fn decode(token: &str, key: &[u8], now: i64) -> (r: Result<Claims, TokenError>)
    ensures
        r == claims_result(decoded_fields(token@, key@), now),
{
    claims_from_fields(decode_fields(token, key), now)
}

/// Issues a token for `user_id` at `now`, expiring a day later. Until it
/// expires it decodes to that claim; a token expiring before the Unix
/// epoch is not readable back.
pub fn generate(user_id: i64, now: i64, key: &[u8]) -> (r: String)
    requires
        now <= i64::MAX - ONE_DAY,
    ensures
        0 <= now + ONE_DAY ==> decoded_fields(r@, key@) == issued_fields(
            user_id,
            now,
            (now + ONE_DAY) as i64,
        ),
        0 <= now + ONE_DAY ==> forall|t: i64|
            t <= now + ONE_DAY ==> #[trigger] claims_result(decoded_fields(r@, key@), t) == Ok::<
                Claims,
                TokenError,
            >(Claims { user_id, iat: now, exp: (now + ONE_DAY) as i64 }),
{
    let claims = Claims::new(user_id, now);
    match encode_fields(claims.user_id, claims.iat, claims.exp, key) {
        Some(t) => t,
        None => {
            proof {
                assert(false);
            }
            String::new()
        },
    }
}

/// A token issued at `iat` decodes, at any time up to its expiry, to the
/// claim it was issued with.
pub proof fn lemma_issued_token_decodes(token: Seq<char>, key: Seq<u8>, user_id: i64, iat: i64, now: i64)
    requires
        iat <= i64::MAX - ONE_DAY,
        decoded_fields(token, key) == issued_fields(user_id, iat, (iat + ONE_DAY) as i64),
        now <= iat + ONE_DAY,
    ensures
        claims_result(decoded_fields(token, key), now) == Ok::<Claims, TokenError>(
            Claims { user_id, iat, exp: (iat + ONE_DAY) as i64 },
        ),
{
}

} // verus!
