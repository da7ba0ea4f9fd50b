//! The authorization gate: extracts a bearer token from the transport-level
//! `Authorization` header value, resolves it to a verified identity, and
//! enforces "authenticated" / "admin" requirements.
//!
//! A header that does not carry the exact, case-sensitive prefix `Bearer `
//! followed by a non-empty token leaves the caller anonymous; no error is
//! raised at that stage. Role checks are re-evaluated on every request.

use vstd::prelude::*;

use crate::errors::ApiError;
use crate::text::opt_str_deep_view;
use crate::token::token_subject;

verus! {

/// The token a header value carries: the remainder after the exact prefix
/// `Bearer `, provided that remainder is non-empty. Anything else is
/// anonymous.
pub open spec fn bearer_of(header: Option<Seq<char>>) -> Option<Seq<char>> {
    match header {
        None => None,
        Some(s) => if s.len() > 7 && s.subrange(0, 7) == "Bearer "@ {
            Some(s.subrange(7, s.len() as int))
        } else {
            None
        },
    }
}

/// The identity a header value resolves to under `secret` at time `now`:
/// the validated subject of the carried token, if any.
pub open spec fn subject_of(header: Option<Seq<char>>, secret: Seq<char>, now: int) -> Option<
    Seq<char>,
> {
    match bearer_of(header) {
        None => None,
        Some(t) => token_subject(secret, t, now),
    }
}

/// Extract the bearer token from a header value: the text after the exact,
/// case-sensitive prefix `Bearer `, when that text is non-empty.
pub fn bearer_token(header: &str) -> (r: Option<String>)
    ensures
        crate::token::opt_str_view(r) == bearer_of(Some(header@)),
{
    proof {
        reveal_strlit("Bearer ");
    }
    let n = header.unicode_len();
    if n <= 7 {
        return None;
    }
    let mut i: usize = 0;
    while i < 7
        invariant
            0 <= i <= 7,
            7 < header@.len(),
            forall|j: int| 0 <= j < i ==> header@.index(j) == "Bearer "@.index(j),
        decreases 7 - i,
    {
        proof {
            reveal_strlit("Bearer ");
        }
        if header.get_char(i) != "Bearer ".get_char(i) {
            proof {
                assert(header@.subrange(0, 7).index(i as int) == header@.index(i as int));
                assert(header@.subrange(0, 7) != "Bearer "@);
            }
            return None;
        }
        i = i + 1;
    }
    let tok = header.substring_char(7, n);
    proof {
        reveal_strlit("Bearer ");
        assert(header@.subrange(0, 7) =~= "Bearer "@);
    }
    Some(tok.to_owned())
}

/// A non-empty token survives the header round trip: prefixing it with
/// `Bearer ` yields a header value that carries exactly that token.
pub proof fn lemma_bearer_roundtrip(t: Seq<char>)
    ensures
        t.len() > 0 ==> bearer_of(Some("Bearer "@ + t)) == Some(t),
{
    reveal_strlit("Bearer ");
    if t.len() > 0 {
        let h = "Bearer "@ + t;
        assert(h.subrange(0, 7) =~= "Bearer "@);
        assert(h.subrange(7, h.len() as int) =~= t);
    }
}

/// Resolve the caller's identity. `Ok(Some(uid))` for a valid token,
/// `Ok(None)` for an anonymous caller (no or malformed header), and
/// `Err(Unauthorized)` for a carried token that is invalid or expired.
pub fn resolve_identity(header: Option<&str>, secret: &str, now: i64) -> (r: Result<
    Option<String>,
    ApiError,
>)
    ensures
        match r {
            Ok(Some(u)) => subject_of(opt_str_deep_view(header), secret@, now as int) == Some(u@),
            Ok(None) => bearer_of(opt_str_deep_view(header)) is None,
            Err(e) => e == ApiError::Unauthorized && bearer_of(opt_str_deep_view(header)) is Some
                && subject_of(opt_str_deep_view(header), secret@, now as int) is None,
        },
{
    match header {
        None => Ok(None),
        Some(h) => {
            match bearer_token(h) {
                None => Ok(None),
                Some(t) => {
                    match crate::token::parse_jwt(secret, t.as_str(), now) {
                        Some(uid) => Ok(Some(uid)),
                        None => Err(ApiError::Unauthorized),
                    }
                },
            }
        },
    }
}

/// The subject id of the caller; fails `Unauthorized` when the caller is
/// anonymous or carries an invalid or expired token.
pub fn require_user(header: Option<&str>, secret: &str, now: i64) -> (r: Result<String, ApiError>)
    ensures
        match r {
            Ok(u) => subject_of(opt_str_deep_view(header), secret@, now as int) == Some(u@),
            Err(e) => e == ApiError::Unauthorized && subject_of(
                opt_str_deep_view(header),
                secret@,
                now as int,
            ) is None,
        },
{
    match resolve_identity(header, secret, now) {
        Ok(Some(u)) => Ok(u),
        Ok(None) => Err(ApiError::Unauthorized),
        Err(_) => Err(ApiError::Unauthorized),
    }
}

/// The subject id of the caller, required to be an admin. Fails
/// `Unauthorized` when no valid token is carried, and `Forbidden` when the
/// resolved identity lacks the admin flag or no longer exists in the store:
/// an unknown identity is treated as lacking privilege, not as a distinct
/// error. The check is re-evaluated on every request.
pub fn require_admin(
    header: Option<&str>,
    secret: &str,
    users: &crate::accounts::UserStore,
    now: i64,
) -> (r: Result<String, ApiError>)
    ensures
        match subject_of(opt_str_deep_view(header), secret@, now as int) {
            None => r == Err::<String, ApiError>(ApiError::Unauthorized),
            Some(u) => if crate::accounts::is_admin_of(users@, u) {
                r matches Ok(x) && x@ == u
            } else {
                r == Err::<String, ApiError>(ApiError::Forbidden)
            },
        },
{
    match require_user(header, secret, now) {
        Err(e) => Err(e),
        Ok(uid) => {
            if users.is_user_admin(uid.as_str()) {
                Ok(uid)
            } else {
                Err(ApiError::Forbidden)
            }
        },
    }
}

} // verus!
