use coupon_ledger::errors::ApiError;
use coupon_ledger::service::{AppState, LoginInput, MutationRoot, QueryRoot, RegisterInput};
use coupon_ledger::token::{make_jwt_3min, parse_jwt};

fn reg(email: &str, pw: &str) -> RegisterInput {
    RegisterInput { email: email.to_string(), password: pw.to_string() }
}

fn log(email: &str, pw: &str) -> LoginInput {
    LoginInput { email: email.to_string(), password: pw.to_string() }
}

#[test]
fn register_then_login_validates_to_same_user() {
    let m = MutationRoot;
    let mut st = AppState::new("test-secret".to_string());
    let u = m.register(&mut st, reg("a@x.com", "pw1"), 1000).expect("registration");
    let token = m.login(&st, log("a@x.com", "pw1"), 1000).expect("login");
    let subject = parse_jwt("test-secret", &token, 1000).expect("valid token");
    assert_eq!(subject, u.id);
}

#[test]
fn token_fails_181_seconds_after_issuance() {
    let m = MutationRoot;
    let mut st = AppState::new("test-secret".to_string());
    m.register(&mut st, reg("a@x.com", "pw1"), 1000).expect("registration");
    let token = m.login(&st, log("a@x.com", "pw1"), 1000).expect("login");
    // Correctly signed, but the expiry (issuance + 180) has passed.
    assert_eq!(parse_jwt("test-secret", &token, 1000 + 181), None);
    // The boundary is strict: at exactly the expiry the token already fails.
    assert_eq!(parse_jwt("test-secret", &token, 1000 + 180), None);
    // One second before the expiry it still validates.
    assert!(parse_jwt("test-secret", &token, 1000 + 179).is_some());
}

#[test]
fn token_with_wrong_secret_fails() {
    let token = make_jwt_3min("right-secret", "user-1", 1000).expect("minting");
    assert_eq!(parse_jwt("wrong-secret", &token, 1000), None);
    assert_eq!(parse_jwt("right-secret", &token, 1000).as_deref(), Some("user-1"));
}

#[test]
fn login_failures_are_indistinguishable() {
    let m = MutationRoot;
    let mut st = AppState::new("test-secret".to_string());
    m.register(&mut st, reg("a@x.com", "pw1"), 1000).expect("registration");
    // Unknown email and wrong password both come back empty.
    assert_eq!(m.login(&st, log("nobody@x.com", "pw1"), 1000), None);
    assert_eq!(m.login(&st, log("a@x.com", "wrong"), 1000), None);
}

#[test]
fn first_user_is_admin_later_users_are_not() {
    let m = MutationRoot;
    let mut st = AppState::new("test-secret".to_string());
    let u1 = m.register(&mut st, reg("a@x.com", "pw1"), 1000).expect("first");
    let u2 = m.register(&mut st, reg("b@x.com", "pw2"), 1001).expect("second");
    let u3 = m.register(&mut st, reg("c@x.com", "pw3"), 1002).expect("third");
    assert!(u1.is_admin);
    assert!(!u2.is_admin);
    assert!(!u3.is_admin);
    // Identifiers are unique across registrations.
    assert_ne!(u1.id, u2.id);
    assert_ne!(u2.id, u3.id);
    assert_ne!(u1.id, u3.id);
}

#[test]
fn registration_is_idempotent_on_email() {
    let m = MutationRoot;
    let mut st = AppState::new("test-secret".to_string());
    let u1 = m.register(&mut st, reg("a@x.com", "pw1"), 1000).expect("first");
    // Same email again: the existing account comes back, password untouched.
    let again = m.register(&mut st, reg("a@x.com", "other-pw"), 2000).expect("again");
    assert_eq!(again.id, u1.id);
    assert!(again.is_admin);
    // The stored password is still the first one.
    assert!(m.login(&st, log("a@x.com", "pw1"), 3000).is_some());
    assert_eq!(m.login(&st, log("a@x.com", "other-pw"), 3000), None);
}

#[test]
fn user_ids_are_36_characters() {
    let m = MutationRoot;
    let mut st = AppState::new("test-secret".to_string());
    let u = m.register(&mut st, reg("a@x.com", "pw1"), 1000).expect("registration");
    assert_eq!(u.id.chars().count(), 36);
}

#[test]
fn me_resolves_identity_through_bearer_header() {
    let q = QueryRoot;
    let m = MutationRoot;
    let mut st = AppState::new("test-secret".to_string());
    let u = m.register(&mut st, reg("a@x.com", "pw1"), 1000).expect("registration");
    let token = m.login(&st, log("a@x.com", "pw1"), 1000).expect("login");
    let header = format!("Bearer {}", token);

    // A valid token resolves to the user's own record.
    let me = q.me(&st, Some(header.as_str()), 1000).expect("no error");
    let me = me.expect("a record");
    assert_eq!(me.id, u.id);
    assert_eq!(me.email, "a@x.com");

    // No header at all: anonymous, no error.
    assert!(matches!(q.me(&st, None, 1000), Ok(None)));
    // A lower-case prefix is not the exact prefix: anonymous.
    let lower = format!("bearer {}", token);
    assert!(matches!(q.me(&st, Some(lower.as_str()), 1000), Ok(None)));
    // The bare word without a token: anonymous.
    assert!(matches!(q.me(&st, Some("Bearer"), 1000), Ok(None)));
    // The exact prefix with an empty token: anonymous.
    assert!(matches!(q.me(&st, Some("Bearer "), 1000), Ok(None)));
    // A carried but invalid token is an authorization error, not anonymity.
    assert_eq!(q.me(&st, Some("Bearer not-a-token"), 1000), Err(ApiError::Unauthorized));
    // A carried but expired token likewise.
    assert_eq!(q.me(&st, Some(header.as_str()), 1000 + 181), Err(ApiError::Unauthorized));
}

#[test]
fn two_hashes_of_one_password_differ() {
    // The salt is fresh per call, so equal passwords hash differently, and
    // each hash still verifies its own password.
    let h1 = coupon_ledger::vault::hash_password("pw1").expect("hash");
    let h2 = coupon_ledger::vault::hash_password("pw1").expect("hash");
    assert_ne!(h1, h2);
    assert!(coupon_ledger::vault::verify_password(&h1, "pw1"));
    assert!(coupon_ledger::vault::verify_password(&h2, "pw1"));
    assert!(!coupon_ledger::vault::verify_password(&h1, "pw2"));
    // A malformed stored hash verifies as false rather than erroring.
    assert!(!coupon_ledger::vault::verify_password("not-a-hash", "pw1"));
}
