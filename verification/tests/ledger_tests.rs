use coupon_ledger::errors::ApiError;
use coupon_ledger::ledger::{CouponPatch, CouponStore, OwnerPatch};

const DAY: i64 = 86400;

fn store_with(code: &str, expires_at: i64, owner: Option<&str>) -> CouponStore {
    let mut s = CouponStore::new();
    s.create_coupon(code, "desc", "svc", expires_at, owner, 100).expect("create");
    s
}

#[test]
fn claim_exactly_one_winner() {
    let mut s = store_with("SAVE10", 1000 + DAY, None);
    // Two claims race for one unowned, unexpired coupon: the first wins...
    let won = s.claim_coupon("SAVE10", "user-1", 1000).expect("first claim");
    assert_eq!(won.owner_id.as_deref(), Some("user-1"));
    // ...and every later claim comes back empty, whoever asks.
    assert!(s.claim_coupon("SAVE10", "user-2", 1000).is_none());
    assert!(s.claim_coupon("SAVE10", "user-3", 1001).is_none());
    // The owner is still the winner.
    let c = s.get_coupon_by_code("SAVE10").expect("present");
    assert_eq!(c.owner_id.as_deref(), Some("user-1"));
}

#[test]
fn claim_unknown_code_is_empty() {
    let mut s = store_with("SAVE10", 1000 + DAY, None);
    assert!(s.claim_coupon("NOSUCH", "user-1", 1000).is_none());
}

#[test]
fn expired_coupon_is_never_claimable() {
    // Expiry exactly now: not claimable (the bound is strict).
    let mut s = store_with("OLD", 1000, None);
    assert!(s.claim_coupon("OLD", "user-1", 1000).is_none());
    // Expiry in the past, unowned: not claimable.
    let mut s = store_with("OLD", 999, None);
    assert!(s.claim_coupon("OLD", "user-1", 1000).is_none());
    // Expiry in the past, owned: not claimable either - owner state is
    // irrelevant once the expiry has been reached.
    let mut s = store_with("OLD", 999, Some("user-9"));
    assert!(s.claim_coupon("OLD", "user-1", 1000).is_none());
}

#[test]
fn release_succeeds_only_for_current_owner() {
    let mut s = store_with("SAVE10", 1000 + DAY, Some("user-1"));
    // A non-owner cannot release, and the owner is unchanged.
    assert!(!s.release_coupon("SAVE10", "user-2"));
    let c = s.get_coupon_by_code("SAVE10").expect("present");
    assert_eq!(c.owner_id.as_deref(), Some("user-1"));
    // The owner can.
    assert!(s.release_coupon("SAVE10", "user-1"));
    let c = s.get_coupon_by_code("SAVE10").expect("present");
    assert_eq!(c.owner_id, None);
    // Releasing an already-unowned coupon reports failure the same way.
    assert!(!s.release_coupon("SAVE10", "user-1"));
    // So does releasing a code that does not exist.
    assert!(!s.release_coupon("NOSUCH", "user-1"));
}

#[test]
fn update_owner_patch_unchanged() {
    let mut s = store_with("C", 1000 + DAY, Some("user-1"));
    let patch = CouponPatch {
        description: Some("new desc".to_string()),
        service: None,
        expires_at: None,
        owner: OwnerPatch::Unchanged,
    };
    assert!(s.update_coupon_by_code("C", &patch));
    let c = s.get_coupon_by_code("C").expect("present");
    // No owner instruction: the owner stays exactly as it was.
    assert_eq!(c.owner_id.as_deref(), Some("user-1"));
    assert_eq!(c.description, "new desc");
    assert_eq!(c.service, "svc");
    assert_eq!(c.expires_at, 1000 + DAY);
}

#[test]
fn update_owner_patch_set() {
    let mut s = store_with("C", 1000 + DAY, None);
    let patch = CouponPatch {
        description: None,
        service: None,
        expires_at: None,
        owner: OwnerPatch::SetTo("user-7".to_string()),
    };
    assert!(s.update_coupon_by_code("C", &patch));
    let c = s.get_coupon_by_code("C").expect("present");
    assert_eq!(c.owner_id.as_deref(), Some("user-7"));
    assert_eq!(c.description, "desc");
}

#[test]
fn update_owner_patch_clear() {
    let mut s = store_with("C", 1000 + DAY, Some("user-1"));
    let patch = CouponPatch {
        description: None,
        service: None,
        expires_at: None,
        owner: OwnerPatch::Clear,
    };
    assert!(s.update_coupon_by_code("C", &patch));
    let c = s.get_coupon_by_code("C").expect("present");
    // An explicit clear removes the owner.
    assert_eq!(c.owner_id, None);
}

#[test]
fn update_unknown_code_reports_false() {
    let mut s = store_with("C", 1000 + DAY, None);
    let patch = CouponPatch {
        description: Some("x".to_string()),
        service: None,
        expires_at: None,
        owner: OwnerPatch::Unchanged,
    };
    assert!(!s.update_coupon_by_code("NOSUCH", &patch));
}

#[test]
fn create_duplicate_code_is_a_uniqueness_violation() {
    let mut s = store_with("C", 1000 + DAY, None);
    let r = s.create_coupon("C", "other", "svc2", 2000 + DAY, None, 200);
    assert_eq!(r.unwrap_err(), ApiError::ValidationFailure);
}

#[test]
fn delete_is_idempotent() {
    let mut s = store_with("C", 1000 + DAY, None);
    assert!(s.delete_coupon_by_code("C"));
    assert!(s.get_coupon_by_code("C").is_none());
    assert!(!s.delete_coupon_by_code("C"));
}

#[test]
fn list_is_newest_first_and_active_only_filters() {
    let mut s = CouponStore::new();
    s.create_coupon("A", "d", "s", 1000 + DAY, None, 100).expect("create");
    s.create_coupon("B", "d", "s", 999, None, 200).expect("create");
    s.create_coupon("C", "d", "s", 1000 + 2 * DAY, None, 300).expect("create");
    // Everything, newest-created-first.
    let all = s.list_coupons(false, 1000);
    let codes: Vec<&str> = all.iter().map(|c| c.code.as_str()).collect();
    assert_eq!(codes, vec!["C", "B", "A"]);
    // Only coupons whose expiry is strictly in the future.
    let active = s.list_coupons(true, 1000);
    let codes: Vec<&str> = active.iter().map(|c| c.code.as_str()).collect();
    assert_eq!(codes, vec!["C", "A"]);
}

#[test]
fn owned_active_coupons_lists_only_the_callers_live_coupons() {
    let mut s = CouponStore::new();
    s.create_coupon("A", "d", "s", 1000 + DAY, Some("u1"), 100).expect("create");
    s.create_coupon("B", "d", "s", 1000 + DAY, Some("u2"), 200).expect("create");
    s.create_coupon("C", "d", "s", 999, Some("u1"), 300).expect("create");
    s.create_coupon("D", "d", "s", 1000 + DAY, Some("u1"), 400).expect("create");
    let mine = s.owned_active_coupons("u1", 1000);
    let codes: Vec<&str> = mine.iter().map(|c| c.code.as_str()).collect();
    // Newest first, u1's only, and the expired "C" is gone.
    assert_eq!(codes, vec!["D", "A"]);
}

#[test]
fn listing_sorts_by_creation_time_when_created_out_of_order() {
    // The listing is newest-created-first by the creation stamp itself, not
    // by the order in which rows happened to be inserted.
    let mut s = CouponStore::new();
    s.create_coupon("A", "d", "s", 1000 + DAY, None, 300).expect("create");
    s.create_coupon("B", "d", "s", 1000 + DAY, None, 100).expect("create");
    s.create_coupon("C", "d", "s", 1000 + DAY, None, 200).expect("create");
    let all = s.list_coupons(false, 1000);
    let stamps: Vec<i64> = all.iter().map(|c| c.created_at).collect();
    assert_eq!(stamps, vec![300, 200, 100]);
    let codes: Vec<&str> = all.iter().map(|c| c.code.as_str()).collect();
    assert_eq!(codes, vec!["A", "C", "B"]);
}

#[test]
fn owned_listing_sorts_by_creation_time_when_created_out_of_order() {
    let mut s = CouponStore::new();
    s.create_coupon("A", "d", "s", 1000 + DAY, Some("u1"), 300).expect("create");
    s.create_coupon("B", "d", "s", 1000 + DAY, Some("u1"), 100).expect("create");
    let mine = s.owned_active_coupons("u1", 1000);
    let stamps: Vec<i64> = mine.iter().map(|c| c.created_at).collect();
    assert_eq!(stamps, vec![300, 100]);
}

#[test]
fn coupon_ids_are_distinct() {
    let mut s = CouponStore::new();
    let a = s.create_coupon("A", "d", "s", 1000 + DAY, None, 100).expect("create");
    let b = s.create_coupon("B", "d", "s", 1000 + DAY, None, 200).expect("create");
    assert_ne!(a.id, b.id);
}
