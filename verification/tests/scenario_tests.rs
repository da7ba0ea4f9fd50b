use coupon_ledger::errors::ApiError;
use coupon_ledger::service::{
    AppState, CreateCouponInput, LoginInput, MutationRoot, QueryRoot, RegisterInput,
    UpdateCouponInput,
};

const DAY: i64 = 86400;

fn reg(email: &str, pw: &str) -> RegisterInput {
    RegisterInput { email: email.to_string(), password: pw.to_string() }
}

fn log(email: &str, pw: &str) -> LoginInput {
    LoginInput { email: email.to_string(), password: pw.to_string() }
}

fn create_input(code: &str, days: i64, owner: Option<&str>) -> CreateCouponInput {
    CreateCouponInput {
        code: code.to_string(),
        description: "A tenner off".to_string(),
        service: "shop".to_string(),
        expires_in_days: days,
        owner_id: owner.map(|s| s.to_string()),
    }
}

#[test]
fn full_claim_scenario() {
    let q = QueryRoot;
    let m = MutationRoot;
    let mut st = AppState::new("scenario-secret".to_string());
    let now = 1000;

    // register("a@x.com","pw1") -> U1, the first user, an admin.
    let u1 = m.register(&mut st, reg("a@x.com", "pw1"), now).expect("U1");
    assert!(u1.is_admin);
    // register("b@x.com","pw2") -> U2, not an admin.
    let u2 = m.register(&mut st, reg("b@x.com", "pw2"), now).expect("U2");
    assert!(!u2.is_admin);

    // login both; T1 is valid for U1.
    let t1 = m.login(&st, log("a@x.com", "pw1"), now).expect("T1");
    let t2 = m.login(&st, log("b@x.com", "pw2"), now).expect("T2");
    let h1 = format!("Bearer {}", t1);
    let h2 = format!("Bearer {}", t2);
    assert_eq!(
        coupon_ledger::token::parse_jwt("scenario-secret", &t1, now).as_deref(),
        Some(u1.id.as_str())
    );

    // createCoupon with T2: Forbidden - U2 is no admin.
    let refused = m.create_coupon(&mut st, Some(h2.as_str()), create_input("SAVE10", 30, None), now);
    assert_eq!(refused.unwrap_err(), ApiError::Forbidden);

    // createCoupon with T1, code="SAVE10", expiresInDays=30: owner absent.
    let coupon =
        m.create_coupon(&mut st, Some(h1.as_str()), create_input("SAVE10", 30, None), now).expect("created");
    assert_eq!(coupon.code, "SAVE10");
    assert_eq!(coupon.owner_id, None);
    assert_eq!(coupon.expires_at, now + 30 * DAY);
    assert_eq!(coupon.created_at, now);

    // claimCoupon("SAVE10") as U2: the coupon, now owned by U2.
    let claimed = m.claim_coupon(&mut st, Some(h2.as_str()), "SAVE10", now).expect("no error");
    let claimed = claimed.expect("won the claim");
    assert_eq!(claimed.owner_id.as_deref(), Some(u2.id.as_str()));

    // Second claimCoupon("SAVE10") as U1: empty.
    let second = m.claim_coupon(&mut st, Some(h1.as_str()), "SAVE10", now).expect("no error");
    assert!(second.is_none());
}

#[test]
fn anonymous_callers_cannot_claim_or_release() {
    let m = MutationRoot;
    let mut st = AppState::new("secret".to_string());
    assert_eq!(m.claim_coupon(&mut st, None, "X", 1000).unwrap_err(), ApiError::Unauthorized);
    assert_eq!(m.release_coupon(&mut st, None, "X", 1000).unwrap_err(), ApiError::Unauthorized);
}

#[test]
fn admin_surface_rejects_non_admins_and_anonymous() {
    let m = MutationRoot;
    let mut st = AppState::new("secret".to_string());
    let now = 1000;
    m.register(&mut st, reg("admin@x.com", "pw"), now).expect("admin");
    m.register(&mut st, reg("user@x.com", "pw"), now).expect("user");
    let tu = m.login(&st, log("user@x.com", "pw"), now).expect("token");
    let hu = format!("Bearer {}", tu);

    let upd = UpdateCouponInput {
        code: "X".to_string(),
        description: None,
        service: None,
        expires_in_days: None,
        owner_id: None,
        clear_owner: None,
    };
    assert_eq!(
        m.create_coupon(&mut st, None, create_input("X", 1, None), now).unwrap_err(),
        ApiError::Unauthorized
    );
    assert_eq!(m.update_coupon(&mut st, Some(hu.as_str()), upd, now).unwrap_err(), ApiError::Forbidden);
    assert_eq!(m.delete_coupon(&mut st, Some(hu.as_str()), "X", now).unwrap_err(), ApiError::Forbidden);
}

#[test]
fn update_through_surface_keeps_three_state_owner_semantics() {
    let m = MutationRoot;
    let q = QueryRoot;
    let mut st = AppState::new("secret".to_string());
    let now = 1000;
    m.register(&mut st, reg("admin@x.com", "pw"), now).expect("admin");
    let ta = m.login(&st, log("admin@x.com", "pw"), now).expect("token");
    let ha = format!("Bearer {}", ta);
    let u2 = m.register(&mut st, reg("user@x.com", "pw"), now).expect("user");

    m.create_coupon(&mut st, Some(ha.as_str()), create_input("C", 30, None), now).expect("created");

    // Explicit owner wins over a clear instruction given at the same time.
    let set_owner = UpdateCouponInput {
        code: "C".to_string(),
        description: None,
        service: None,
        expires_in_days: None,
        owner_id: Some(u2.id.clone()),
        clear_owner: Some(true),
    };
    assert_eq!(m.update_coupon(&mut st, Some(ha.as_str()), set_owner, now), Ok(true));
    let c = q.get_coupon(&st, "C").expect("present");
    assert_eq!(c.owner_id.as_deref(), Some(u2.id.as_str()));

    // No instruction at all: the owner stays.
    let untouched = UpdateCouponInput {
        code: "C".to_string(),
        description: Some("re-described".to_string()),
        service: None,
        expires_in_days: None,
        owner_id: None,
        clear_owner: None,
    };
    assert_eq!(m.update_coupon(&mut st, Some(ha.as_str()), untouched, now), Ok(true));
    let c = q.get_coupon(&st, "C").expect("present");
    assert_eq!(c.owner_id.as_deref(), Some(u2.id.as_str()));
    assert_eq!(c.description, "re-described");

    // A clear instruction with no owner given: the owner becomes absent.
    let cleared = UpdateCouponInput {
        code: "C".to_string(),
        description: None,
        service: None,
        expires_in_days: None,
        owner_id: None,
        clear_owner: Some(true),
    };
    assert_eq!(m.update_coupon(&mut st, Some(ha.as_str()), cleared, now), Ok(true));
    let c = q.get_coupon(&st, "C").expect("present");
    assert_eq!(c.owner_id, None);

    // A day count is resolved against now.
    let re_dated = UpdateCouponInput {
        code: "C".to_string(),
        description: None,
        service: None,
        expires_in_days: Some(7),
        owner_id: None,
        clear_owner: None,
    };
    assert_eq!(m.update_coupon(&mut st, Some(ha.as_str()), re_dated, 1100), Ok(true));
    let c = q.get_coupon(&st, "C").expect("present");
    assert_eq!(c.expires_at, 1100 + 7 * DAY);
}

#[test]
fn my_coupons_through_surface() {
    let m = MutationRoot;
    let q = QueryRoot;
    let mut st = AppState::new("secret".to_string());
    let now = 1000;
    m.register(&mut st, reg("admin@x.com", "pw"), now).expect("admin");
    let ta = m.login(&st, log("admin@x.com", "pw"), now).expect("token");
    let ha = format!("Bearer {}", ta);
    m.register(&mut st, reg("user@x.com", "pw"), now).expect("user");
    let tu = m.login(&st, log("user@x.com", "pw"), now).expect("token");
    let hu = format!("Bearer {}", tu);

    m.create_coupon(&mut st, Some(ha.as_str()), create_input("C1", 30, None), now).expect("created");
    m.create_coupon(&mut st, Some(ha.as_str()), create_input("C2", 30, None), now).expect("created");
    m.claim_coupon(&mut st, Some(hu.as_str()), "C2", now).expect("claims").expect("won");

    let mine = q.my_coupons(&st, Some(hu.as_str()), now).expect("listed");
    let codes: Vec<&str> = mine.iter().map(|c| c.code.as_str()).collect();
    assert_eq!(codes, vec!["C2"]);
    assert_eq!(q.my_coupons(&st, None, now).unwrap_err(), ApiError::Unauthorized);
}

#[test]
fn health_answers_ok() {
    let q = QueryRoot;
    assert_eq!(q.health(), "ok");
}

#[test]
fn create_rejects_a_day_count_out_of_range() {
    let m = MutationRoot;
    let mut st = AppState::new("secret".to_string());
    let now = 1000;
    m.register(&mut st, reg("admin@x.com", "pw"), now).expect("admin");
    let ta = m.login(&st, log("admin@x.com", "pw"), now).expect("token");
    let ha = format!("Bearer {}", ta);
    let r = m.create_coupon(&mut st, Some(ha.as_str()), create_input("C", i64::MAX, None), now);
    assert_eq!(r.unwrap_err(), ApiError::ValidationFailure);
}
