//! Short-lived signed bearer tokens binding a subject (user id).
//!
//! A token embeds the subject and an absolute expiry set to issuance time
//! plus [`TOKEN_LIFETIME_SECS`]. The signature is a symmetric keyed MAC over
//! the claims. Validation is strict: a token whose expiry is not strictly in
//! the future fails, with no clock-skew leeway. The signature check is done by
//! an outside crate; the expiry policy is checked here, in verified code.

use vstd::prelude::*;

verus! {

/// Lifetime of a bearer token, in seconds.
pub const TOKEN_LIFETIME_SECS: usize = 180;

/// The transient claims a token carries: subject (user id) and absolute
/// expiry in unix seconds. Never persisted.
pub struct Claims {
    pub sub: String,
    pub exp: usize,
}

/// The token that signing produces for a secret, a subject and an expiry.
/// HS256 signing is a deterministic MAC over the serialized claims, so the
/// token is a function of these three values alone; `None` stands for an
/// internal signing failure.
pub uninterp spec fn token_of(secret: Seq<char>, sub: Seq<char>, exp: nat) -> Option<Seq<char>>;

/// The claims that signature verification recovers from a token under a
/// secret: `None` when the token is malformed or its MAC does not verify.
/// The check recomputes the MAC from the token text and the secret, so the
/// outcome is a function of the two strings alone. Expiry plays no part here.
pub uninterp spec fn claims_of(secret: Seq<char>, token: Seq<char>) -> Option<(Seq<char>, nat)>;

pub open spec fn opt_str_view(r: Option<String>) -> Option<Seq<char>> {
    match r {
        Some(s) => Some(s@),
        None => None,
    }
}

pub open spec fn claims_view(r: Option<Claims>) -> Option<(Seq<char>, nat)> {
    match r {
        Some(c) => Some((c.sub@, c.exp as nat)),
        None => None,
    }
}

/// Relies on `jsonwebtoken::encode` with HS256: signing is a deterministic
/// keyed MAC over the serialized claims; a token it returns is never empty
/// (it is always header, claims and signature joined by dots) and decodes,
/// under the same secret, back to exactly the claims that were signed.
#[verifier::external_body]
fn encode_token(secret: &str, sub: &str, exp: usize) -> (r: Option<String>)
    ensures
        opt_str_view(r) == token_of(secret@, sub@, exp as nat),
        r matches Some(t) ==> t@.len() > 0,
        r matches Some(t) ==> claims_of(secret@, t@) == Some((sub@, exp as nat)),
{
    let mut claims = serde_json::Map::new();
    claims.insert("sub".to_string(), serde_json::Value::String(sub.to_string()));
    claims.insert("exp".to_string(), serde_json::Value::from(exp as u64));
    let header = jsonwebtoken::Header::new(jsonwebtoken::Algorithm::HS256);
    let key = jsonwebtoken::EncodingKey::from_secret(secret.as_bytes());
    jsonwebtoken::encode(&header, &serde_json::Value::Object(claims), &key).ok()
}

/// Relies on `jsonwebtoken::decode` with HS256: it verifies the keyed MAC
/// and deserializes the embedded claims, a deterministic function of the
/// secret and the token text. Expiry validation is switched off here on
/// purpose: callers enforce the strict expiry policy themselves.
#[verifier::external_body]
fn decode_token(secret: &str, token: &str) -> (r: Option<Claims>)
    ensures
        claims_view(r) == claims_of(secret@, token@),
{
    let key = jsonwebtoken::DecodingKey::from_secret(secret.as_bytes());
    let mut validation = jsonwebtoken::Validation::new(jsonwebtoken::Algorithm::HS256);
    validation.validate_exp = false;
    validation.required_spec_claims.clear();
    let data = match jsonwebtoken::decode::<serde_json::Value>(token, &key, &validation) {
        Ok(d) => d,
        Err(_) => return None,
    };
    let sub = data.claims.get("sub").and_then(|v| v.as_str()).map(|s| s.to_string());
    let exp = data.claims.get("exp").and_then(|v| v.as_u64()).and_then(|e| usize::try_from(e).ok());
    match (sub, exp) {
        (Some(sub), Some(exp)) => Some(Claims { sub, exp }),
        _ => None,
    }
}

/// The subject a token resolves to under `secret` at time `now`: the embedded
/// subject when the signature verifies and the expiry is strictly in the
/// future, and nothing otherwise.
pub open spec fn token_subject(secret: Seq<char>, token: Seq<char>, now: int) -> Option<Seq<char>> {
    match claims_of(secret, token) {
        Some((sub, exp)) => if exp > now {
            Some(sub)
        } else {
            None
        },
        None => None,
    }
}

/// Mint a signed token for `user_id` that expires [`TOKEN_LIFETIME_SECS`]
/// seconds after `now`. `None` stands for an internal signing failure.
pub fn make_jwt_3min(secret: &str, user_id: &str, now: usize) -> (r: Option<String>)
    requires
        now + TOKEN_LIFETIME_SECS <= usize::MAX,
    ensures
        opt_str_view(r) == token_of(secret@, user_id@, (now + TOKEN_LIFETIME_SECS) as nat),
        r matches Some(t) ==> t@.len() > 0,
        r matches Some(t) ==> claims_of(secret@, t@) == Some((
            user_id@,
            (now + TOKEN_LIFETIME_SECS) as nat,
        )),
{
    encode_token(secret, user_id, now + TOKEN_LIFETIME_SECS)
}

/// Validate a token at time `now`: the subject when the signature verifies
/// and the expiry is strictly in the future, `None` otherwise. The two
/// failure causes are deliberately not distinguished.
pub fn parse_jwt(secret: &str, token: &str, now: i64) -> (r: Option<String>)
    ensures
        opt_str_view(r) == token_subject(secret@, token@, now as int),
{
    match decode_token(secret, token) {
        Some(c) => {
            if now < 0 || c.exp as u64 > now as u64 {
                Some(c.sub)
            } else {
                None
            }
        },
        None => None,
    }
}

/// A token that was signed for a subject with a given expiry validates to
/// that subject at any instant strictly before the expiry.
pub proof fn lemma_token_validates_before_expiry(
    secret: Seq<char>,
    token: Seq<char>,
    sub: Seq<char>,
    exp: nat,
    now: int,
)
    ensures
        claims_of(secret, token) == Some((sub, exp)) && now < exp ==> token_subject(
            secret,
            token,
            now,
        ) == Some(sub),
{
}

/// A token whose embedded expiry has been reached fails validation even
/// though its signature still verifies.
pub proof fn lemma_token_expires(
    secret: Seq<char>,
    token: Seq<char>,
    sub: Seq<char>,
    exp: nat,
    now: int,
)
    ensures
        claims_of(secret, token) == Some((sub, exp)) && exp <= now ==> token_subject(
            secret,
            token,
            now,
        ) is None,
{
}

} // verus!
