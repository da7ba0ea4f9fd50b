//! The coupon ledger: atomic claim, release, create, update, delete and list
//! operations over coupon rows.
//!
//! A coupon is claimable iff its owner is absent and its expiry is strictly
//! in the future. Claim is an atomic test-and-set of the owner; release is an
//! atomic compare-and-clear. Both collapse every failure cause — code not
//! found, already owned, expired, not the owner — into one empty result, so
//! that a caller learns nothing it is not owed.

use vstd::prelude::*;

use crate::errors::ApiError;
use crate::text::str_eq;

verus! {

/// One coupon row.
#[derive(Debug, Clone, PartialEq, Eq)]
pub struct DbCoupon {
    pub id: String,
    pub code: String,
    pub description: String,
    pub service: String,
    /// Absolute expiry, unix seconds.
    pub expires_at: i64,
    /// The exclusive current holder, if any.
    pub owner_id: Option<String>,
    pub created_at: i64,
}

/// The mathematical model of a coupon row.
pub struct CouponV {
    pub id: Seq<char>,
    pub code: Seq<char>,
    pub description: Seq<char>,
    pub service: Seq<char>,
    pub expires_at: int,
    pub owner_id: Option<Seq<char>>,
    pub created_at: int,
}

impl View for DbCoupon {
    type V = CouponV;

    open spec fn view(&self) -> CouponV {
        CouponV {
            id: self.id@,
            code: self.code@,
            description: self.description@,
            service: self.service@,
            expires_at: self.expires_at as int,
            owner_id: match self.owner_id {
                Some(o) => Some(o@),
                None => None,
            },
            created_at: self.created_at as int,
        }
    }
}

/// A coupon is claimable iff its owner is absent and its expiry is strictly
/// in the future.
pub open spec fn coupon_claimable(c: CouponV, now: int) -> bool {
    c.owner_id is None && c.expires_at > now
}

/// Codes are unique: they are the human-facing key used for every lookup and
/// mutation.
pub open spec fn codes_unique(rows: Seq<CouponV>) -> bool {
    forall|i: int, j: int|
        0 <= i < rows.len() && 0 <= j < rows.len() && i != j ==> #[trigger] rows[i].code
            != #[trigger] rows[j].code
}

/// Identifiers are unique, as the store's unique column enforces.
pub open spec fn ids_unique(rows: Seq<CouponV>) -> bool {
    forall|i: int, j: int|
        0 <= i < rows.len() && 0 <= j < rows.len() && i != j ==> #[trigger] rows[i].id
            != #[trigger] rows[j].id
}

/// Creation stamps never decrease along the rows: reading the rows backwards
/// is reading them newest-created-first. Creation keeps this by inserting
/// each row after every row created at or before its stamp.
pub open spec fn stamps_nondecreasing(rows: Seq<CouponV>) -> bool {
    forall|i: int, j: int|
        0 <= i <= j < rows.len() ==> #[trigger] rows[i].created_at <= #[trigger] rows[j].created_at
}

/// Stamps never increase along the rows: sorted newest-created-first.
pub open spec fn stamps_nonincreasing(rows: Seq<CouponV>) -> bool {
    forall|i: int, j: int|
        0 <= i <= j < rows.len() ==> #[trigger] rows[i].created_at >= #[trigger] rows[j].created_at
}

/// The store's row invariant: unique codes, unique identifiers, and creation
/// stamps in insertion order.
pub open spec fn wf_rows(rows: Seq<CouponV>) -> bool {
    codes_unique(rows) && ids_unique(rows) && stamps_nondecreasing(rows)
}

pub open spec fn has_id(rows: Seq<CouponV>, id: Seq<char>) -> bool {
    exists|i: int| 0 <= i < rows.len() && #[trigger] rows[i].id == id
}

pub open spec fn has_code(rows: Seq<CouponV>, code: Seq<char>) -> bool {
    exists|i: int| 0 <= i < rows.len() && #[trigger] rows[i].code == code
}

/// The index of the row carrying `code`; meaningful only when `has_code`
/// holds, and then, under `wf_rows`, the one such index.
pub open spec fn code_idx(rows: Seq<CouponV>, code: Seq<char>) -> int {
    choose|i: int| 0 <= i < rows.len() && #[trigger] rows[i].code == code
}

pub open spec fn with_owner(c: CouponV, owner: Option<Seq<char>>) -> CouponV {
    CouponV { owner_id: owner, ..c }
}

/// Whether a claim of `code` at `now` succeeds against `rows`.
pub open spec fn can_claim(rows: Seq<CouponV>, code: Seq<char>, now: int) -> bool {
    exists|i: int|
        0 <= i < rows.len() && #[trigger] rows[i].code == code && coupon_claimable(rows[i], now)
}

/// The rows after a claim of `code` by `user` at `now`: ownership is
/// transferred iff the coupon is present, unowned and unexpired; otherwise
/// nothing changes.
pub open spec fn claim_step(
    rows: Seq<CouponV>,
    code: Seq<char>,
    user: Seq<char>,
    now: int,
) -> Seq<CouponV> {
    if can_claim(rows, code, now) {
        let i = code_idx(rows, code);
        rows.update(i, with_owner(rows[i], Some(user)))
    } else {
        rows
    }
}

/// What a claim returns: the updated coupon on success, nothing otherwise.
/// The empty result deliberately conflates not-found, already-owned and
/// expired.
pub open spec fn claim_result(
    rows: Seq<CouponV>,
    code: Seq<char>,
    user: Seq<char>,
    now: int,
) -> Option<CouponV> {
    if can_claim(rows, code, now) {
        Some(with_owner(rows[code_idx(rows, code)], Some(user)))
    } else {
        None
    }
}

/// Whether a release of `code` by `user` succeeds: only the current owner
/// may release.
pub open spec fn release_ok(rows: Seq<CouponV>, code: Seq<char>, user: Seq<char>) -> bool {
    exists|i: int|
        0 <= i < rows.len() && #[trigger] rows[i].code == code && rows[i].owner_id == Some(user)
}

/// The rows after a release of `code` by `user`: the owner is cleared iff
/// `user` is the current owner; otherwise nothing changes.
pub open spec fn release_step(rows: Seq<CouponV>, code: Seq<char>, user: Seq<char>) -> Seq<
    CouponV,
> {
    if release_ok(rows, code, user) {
        let i = code_idx(rows, code);
        rows.update(i, with_owner(rows[i], None))
    } else {
        rows
    }
}

/// A three-state owner patch: leaving the owner alone and clearing it are
/// different instructions, so they are represented distinctly.
#[derive(Debug, Clone, PartialEq, Eq)]
pub enum OwnerPatch {
    Unchanged,
    SetTo(String),
    Clear,
}

/// A patch over the mutable fields of a coupon: each descriptive field is
/// independently left unchanged or replaced, and the owner follows the
/// three-state instruction.
#[derive(Debug, Clone, PartialEq, Eq)]
pub struct CouponPatch {
    pub description: Option<String>,
    pub service: Option<String>,
    /// Absolute expiry, unix seconds, already resolved from a day count.
    pub expires_at: Option<i64>,
    pub owner: OwnerPatch,
}

/// The row that merging a patch into a row yields.
pub open spec fn patched(c: CouponV, p: CouponPatch) -> CouponV {
    CouponV {
        id: c.id,
        code: c.code,
        description: match p.description {
            Some(d) => d@,
            None => c.description,
        },
        service: match p.service {
            Some(s) => s@,
            None => c.service,
        },
        expires_at: match p.expires_at {
            Some(e) => e as int,
            None => c.expires_at,
        },
        owner_id: match p.owner {
            OwnerPatch::Unchanged => c.owner_id,
            OwnerPatch::SetTo(u) => Some(u@),
            OwnerPatch::Clear => None,
        },
        created_at: c.created_at,
    }
}

/// The listing order: the reverse of row order, keeping the rows that match
/// `p`. The store keeps creation stamps nondecreasing along its rows (see
/// [`wf_rows`]), so over a well-formed store this is newest-created-first —
/// sorted by creation stamp, descending — which
/// [`lemma_newest_first_sorted`] proves.
pub open spec fn newest_first_matching(
    rows: Seq<CouponV>,
    p: spec_fn(CouponV) -> bool,
) -> Seq<CouponV>
    decreases rows.len(),
{
    if rows.len() == 0 {
        Seq::empty()
    } else {
        newest_first_matching(rows.drop_first(), p) + (if p(rows[0]) {
            seq![rows[0]]
        } else {
            Seq::empty()
        })
    }
}

/// The filter that listing applies: everything, or only the unexpired.
pub open spec fn active_filter(active_only: bool, now: int) -> spec_fn(CouponV) -> bool {
    |c: CouponV| active_only ==> c.expires_at > now
}

/// The filter for a user's own coupons: owned by the user and unexpired.
pub open spec fn owned_active_filter(user: Seq<char>, now: int) -> spec_fn(CouponV) -> bool {
    |c: CouponV| c.owner_id == Some(user) && c.expires_at > now
}

/// The model of a sequence of rows.
pub open spec fn rows_view(s: Seq<DbCoupon>) -> Seq<CouponV> {
    Seq::new(s.len(), |i: int| s[i]@)
}

pub open spec fn opt_coupon_view(r: Option<DbCoupon>) -> Option<CouponV> {
    match r {
        Some(c) => Some(c@),
        None => None,
    }
}

/// How many of a sequence of claim calls on one code succeed when they run
/// one after the other. The store serializes concurrent claims (each is one
/// atomic conditional write), so any concurrent execution is some such order.
pub open spec fn claim_wins(
    rows: Seq<CouponV>,
    code: Seq<char>,
    users: Seq<Seq<char>>,
    now: int,
) -> nat
    decreases users.len(),
{
    if users.len() == 0 {
        0
    } else {
        ((if can_claim(rows, code, now) {
            1nat
        } else {
            0nat
        }) + claim_wins(claim_step(rows, code, users[0], now), code, users.drop_first(), now)) as nat
    }
}

/// Once a claim on a code has succeeded, no later claim on that code can
/// succeed at any instant, until the owner is cleared again.
pub proof fn lemma_claimed_not_claimable(
    rows: Seq<CouponV>,
    code: Seq<char>,
    user: Seq<char>,
    now: int,
    later: int,
)
    requires
        codes_unique(rows),
        can_claim(rows, code, now),
    ensures
        !can_claim(claim_step(rows, code, user, now), code, later),
{
    let i = code_idx(rows, code);
    let stepped = claim_step(rows, code, user, now);
    assert(0 <= i < rows.len() && rows[i].code == code);
    assert(stepped[i].owner_id == Some(user));
    assert forall|j: int|
        0 <= j < stepped.len() && #[trigger] stepped[j].code == code implies !coupon_claimable(
        stepped[j],
        later,
    ) by {
        if j != i {
            assert(rows[j].code == rows[i].code);
        }
    }
}

/// Against a store where the coupon is not claimable, a whole sequence of
/// claims wins nothing and changes nothing.
pub proof fn lemma_no_claim_no_wins(
    rows: Seq<CouponV>,
    code: Seq<char>,
    users: Seq<Seq<char>>,
    now: int,
)
    requires
        !can_claim(rows, code, now),
    ensures
        claim_wins(rows, code, users, now) == 0,
    decreases users.len(),
{
    if users.len() > 0 {
        assert(claim_step(rows, code, users[0], now) == rows);
        lemma_no_claim_no_wins(rows, code, users.drop_first(), now);
    }
}

/// Exclusivity: given one unowned, unexpired coupon code and any number of
/// claim calls racing for it, exactly one wins and the rest come back empty.
pub proof fn lemma_claim_exclusive(
    rows: Seq<CouponV>,
    code: Seq<char>,
    users: Seq<Seq<char>>,
    now: int,
)
    requires
        codes_unique(rows),
        can_claim(rows, code, now),
        users.len() > 0,
    ensures
        claim_wins(rows, code, users, now) == 1,
{
    let stepped = claim_step(rows, code, users[0], now);
    lemma_claimed_not_claimable(rows, code, users[0], now, now);
    lemma_no_claim_no_wins(stepped, code, users.drop_first(), now);
}

/// A coupon whose expiry has been reached is never claimable, whatever its
/// owner state; a claim against it changes nothing and returns nothing.
pub proof fn lemma_expired_never_claimable(
    rows: Seq<CouponV>,
    code: Seq<char>,
    user: Seq<char>,
    now: int,
    i: int,
)
    ensures
        codes_unique(rows) && 0 <= i < rows.len() && rows[i].code == code && rows[i].expires_at
            <= now ==> !can_claim(rows, code, now) && claim_step(rows, code, user, now) == rows
            && claim_result(rows, code, user, now) is None,
{
    if codes_unique(rows) && 0 <= i < rows.len() && rows[i].code == code && rows[i].expires_at
        <= now {
        assert(!can_claim(rows, code, now)) by {
            if can_claim(rows, code, now) {
                let j = choose|j: int|
                    0 <= j < rows.len() && #[trigger] rows[j].code == code && coupon_claimable(
                        rows[j],
                        now,
                    );
                assert(j == i);
            }
        }
    }
}

/// A release by anyone but the current owner reports failure and leaves
/// every row — the owner in particular — unchanged.
pub proof fn lemma_release_by_non_owner(rows: Seq<CouponV>, code: Seq<char>, user: Seq<char>)
    ensures
        !release_ok(rows, code, user) ==> release_step(rows, code, user) == rows,
{
}

/// Every listed row is one of the rows it was drawn from.
pub proof fn lemma_newest_first_from_rows(rows: Seq<CouponV>, p: spec_fn(CouponV) -> bool)
    ensures
        forall|i: int|
            0 <= i < newest_first_matching(rows, p).len() ==> exists|j: int|
                0 <= j < rows.len() && #[trigger] newest_first_matching(rows, p)[i] == rows[j],
    decreases rows.len(),
{
    if rows.len() > 0 {
        let rest = rows.drop_first();
        lemma_newest_first_from_rows(rest, p);
        let out = newest_first_matching(rows, p);
        let out_rest = newest_first_matching(rest, p);
        assert forall|i: int| 0 <= i < out.len() implies exists|j: int|
            0 <= j < rows.len() && #[trigger] out[i] == rows[j] by {
            if i < out_rest.len() {
                assert(out[i] == out_rest[i]);
                let j = choose|j: int| 0 <= j < rest.len() && #[trigger] out_rest[i] == rest[j];
                assert(out[i] == rows[j + 1]);
            } else {
                assert(out[i] == rows[0]);
            }
        }
    }
}

/// Over rows whose stamps never decrease, the listing's stamps never
/// increase: the listing is sorted newest-created-first.
pub proof fn lemma_newest_first_sorted(rows: Seq<CouponV>, p: spec_fn(CouponV) -> bool)
    requires
        stamps_nondecreasing(rows),
    ensures
        stamps_nonincreasing(newest_first_matching(rows, p)),
    decreases rows.len(),
{
    if rows.len() > 0 {
        let rest = rows.drop_first();
        assert(stamps_nondecreasing(rest)) by {
            assert(forall|k: int| 0 <= k < rest.len() ==> #[trigger] rest[k] == rows[k + 1]);
        }
        lemma_newest_first_sorted(rest, p);
        lemma_newest_first_from_rows(rest, p);
        let out = newest_first_matching(rows, p);
        let out_rest = newest_first_matching(rest, p);
        assert forall|i: int, j: int|
            0 <= i <= j < out.len() implies #[trigger] out[i].created_at
            >= #[trigger] out[j].created_at by {
            if j < out_rest.len() {
                assert(out[i] == out_rest[i] && out[j] == out_rest[j]);
                assert(out_rest[i].created_at >= out_rest[j].created_at);
            } else if i < out_rest.len() {
                // out[j] is the appended rows[0], the oldest stamp of all
                assert(out[j] == rows[0]);
                assert(out[i] == out_rest[i]);
                let k = choose|k: int| 0 <= k < rest.len() && #[trigger] out_rest[i] == rest[k];
                assert(rest[k] == rows[k + 1]);
                assert(rows[0].created_at <= rows[k + 1].created_at);
            }
        }
    }
}

/// The three states of the owner patch act independently: no instruction
/// leaves the owner as it was, an explicit owner replaces it, and a clear
/// instruction removes it — whatever the other fields of the patch do.
pub proof fn lemma_owner_patch_three_states(c: CouponV, p: CouponPatch)
    ensures
        p.owner matches OwnerPatch::Unchanged ==> patched(c, p).owner_id == c.owner_id,
        p.owner matches OwnerPatch::SetTo(u) ==> patched(c, p).owner_id == Some(u@),
        p.owner matches OwnerPatch::Clear ==> patched(c, p).owner_id is None,
{
}

/// An exact copy of a row.
fn clone_coupon(c: &DbCoupon) -> (r: DbCoupon)
    ensures
        r@ == c@,
{
    DbCoupon {
        id: c.id.clone(),
        code: c.code.clone(),
        description: c.description.clone(),
        service: c.service.clone(),
        expires_at: c.expires_at,
        owner_id: match &c.owner_id {
            Some(o) => Some(o.clone()),
            None => None,
        },
        created_at: c.created_at,
    }
}

/// The pool of coupon rows. Stands for the durable `coupons` table; every
/// mutation below is one atomic operation on it, as a store's conditional
/// single-statement writes make the corresponding table mutations.
pub struct CouponStore {
    rows: Vec<DbCoupon>,
}

impl View for CouponStore {
    type V = Seq<CouponV>;

    closed spec fn view(&self) -> Seq<CouponV> {
        rows_view(self.rows@)
    }
}

impl CouponStore {
    /// Code uniqueness holds of the rows.
    pub open spec fn wf(&self) -> bool {
        wf_rows(self@)
    }

    pub fn new() -> (r: CouponStore)
        ensures
            r@ == Seq::<CouponV>::empty(),
            r.wf(),
    {
        let r = CouponStore { rows: Vec::new() };
        proof {
            assert(r@ =~= Seq::<CouponV>::empty());
        }
        r
    }

    /// The index of the row carrying `code`, if any; the first match, which
    /// under `wf` is the only one.
    fn find_index(&self, code: &str) -> (r: Option<usize>)
        ensures
            match r {
                Some(i) => 0 <= i < self@.len() && self@[i as int].code == code@,
                None => !has_code(self@, code@),
            },
    {
        let mut i: usize = 0;
        while i < self.rows.len()
            invariant
                0 <= i <= self.rows.len(),
                self@.len() == self.rows@.len(),
                forall|j: int| 0 <= j < i ==> #[trigger] self@[j].code != code@,
            decreases self.rows.len() - i,
        {
            assert(self@[i as int] == self.rows@[i as int]@);
            if str_eq(self.rows[i].code.as_str(), code) {
                return Some(i);
            }
            i = i + 1;
        }
        None
    }

    /// Fetch the coupon carrying `code`, if any.
    pub fn get_coupon_by_code(&self, code: &str) -> (r: Option<DbCoupon>)
        requires
            self.wf(),
        ensures
            match r {
                Some(c) => has_code(self@, code@) && c@ == self@[code_idx(self@, code@)],
                None => !has_code(self@, code@),
            },
    {
        match self.find_index(code) {
            Some(i) => {
                let c = clone_coupon(&self.rows[i]);
                proof {
                    assert(c@ == self@[i as int]);
                    let k = code_idx(self@, code@);
                    assert(0 <= k < self@.len() && self@[k].code == code@);
                    assert(k == i as int);
                }
                Some(c)
            },
            None => None,
        }
    }

    /// Atomically claim an unowned, unexpired coupon: transfer ownership to
    /// `user_id` iff, at this instant, the owner is absent and the expiry is
    /// strictly in the future. The empty result deliberately does not say
    /// whether the code was missing, the coupon owned, or the coupon expired.
    pub fn claim_coupon(&mut self, code: &str, user_id: &str, now: i64) -> (r: Option<DbCoupon>)
        requires
            old(self).wf(),
        ensures
            final(self).wf(),
            final(self)@ == claim_step(old(self)@, code@, user_id@, now as int),
            opt_coupon_view(r) == claim_result(old(self)@, code@, user_id@, now as int),
    {
        match self.find_index(code) {
            None => {
                proof {
                    assert(!can_claim(self@, code@, now as int));
                }
                None
            },
            Some(i) => {
                let unowned = self.rows[i].owner_id.is_none();
                if unowned && self.rows[i].expires_at > now {
                    let mut updated = clone_coupon(&self.rows[i]);
                    updated.owner_id = Some(user_id.to_owned());
                    let ret = clone_coupon(&updated);
                    proof {
                        assert(coupon_claimable(old(self)@[i as int], now as int));
                        assert(can_claim(old(self)@, code@, now as int));
                        let k = code_idx(old(self)@, code@);
                        assert(0 <= k < old(self)@.len() && old(self)@[k].code == code@);
                        assert(k == i as int);
                        assert(updated@ == with_owner(old(self)@[i as int], Some(user_id@)));
                    }
                    self.rows.set(i, updated);
                    proof {
                        assert(self@ =~= claim_step(old(self)@, code@, user_id@, now as int));
                        assert(forall|j: int|
                            0 <= j < self@.len() ==> #[trigger] self@[j].code == old(
                                self,
                            )@[j].code);
                    }
                    Some(ret)
                } else {
                    proof {
                        assert(!can_claim(self@, code@, now as int)) by {
                            if can_claim(self@, code@, now as int) {
                                let j = choose|j: int|
                                    0 <= j < self@.len() && #[trigger] self@[j].code == code@
                                        && coupon_claimable(self@[j], now as int);
                                assert(j == i as int);
                            }
                        }
                    }
                    None
                }
            },
        }
    }

    /// Atomically release a coupon: clear the owner iff `user_id` is the
    /// current owner. Returns false alike for not-found, not-owner and
    /// already-unowned.
    pub fn release_coupon(&mut self, code: &str, user_id: &str) -> (r: bool)
        requires
            old(self).wf(),
        ensures
            final(self).wf(),
            final(self)@ == release_step(old(self)@, code@, user_id@),
            r == release_ok(old(self)@, code@, user_id@),
    {
        match self.find_index(code) {
            None => {
                proof {
                    assert(!release_ok(self@, code@, user_id@));
                }
                false
            },
            Some(i) => {
                let owned_by_caller = match &self.rows[i].owner_id {
                    Some(o) => str_eq(o.as_str(), user_id),
                    None => false,
                };
                if owned_by_caller {
                    let mut updated = clone_coupon(&self.rows[i]);
                    updated.owner_id = None;
                    proof {
                        assert(old(self)@[i as int].owner_id == Some(user_id@));
                        assert(release_ok(old(self)@, code@, user_id@));
                        let k = code_idx(old(self)@, code@);
                        assert(0 <= k < old(self)@.len() && old(self)@[k].code == code@);
                        assert(k == i as int);
                        assert(updated@ == with_owner(old(self)@[i as int], None));
                    }
                    self.rows.set(i, updated);
                    proof {
                        assert(self@ =~= release_step(old(self)@, code@, user_id@));
                        assert(forall|j: int|
                            0 <= j < self@.len() ==> #[trigger] self@[j].code == old(
                                self,
                            )@[j].code);
                    }
                    true
                } else {
                    proof {
                        assert(!release_ok(self@, code@, user_id@)) by {
                            if release_ok(self@, code@, user_id@) {
                                let j = choose|j: int|
                                    0 <= j < self@.len() && #[trigger] self@[j].code == code@
                                        && self@[j].owner_id == Some(user_id@);
                                assert(j == i as int);
                            }
                        }
                    }
                    false
                }
            },
        }
    }

    /// Whether a row already carries this identifier.
    fn id_taken(&self, id: &str) -> (r: bool)
        ensures
            r == has_id(self@, id@),
    {
        let mut i: usize = 0;
        while i < self.rows.len()
            invariant
                0 <= i <= self.rows.len(),
                self@.len() == self.rows@.len(),
                forall|j: int| 0 <= j < i ==> #[trigger] self@[j].id != id@,
            decreases self.rows.len() - i,
        {
            assert(self@[i as int] == self.rows@[i as int]@);
            if str_eq(self.rows[i].id.as_str(), id) {
                proof {
                    assert(self@[i as int].id == id@);
                }
                return true;
            }
            i = i + 1;
        }
        false
    }

    /// Insert a new coupon row, keeping creation stamps in order: the row
    /// goes after every row created at or before `now`. Fails with a
    /// uniqueness violation iff the code is already taken, or — as the
    /// store's unique column would — if the freshly generated identifier
    /// collides with an existing row's.
    pub fn create_coupon(
        &mut self,
        code: &str,
        description: &str,
        service: &str,
        expires_at: i64,
        owner_id: Option<&str>,
        now: i64,
    ) -> (r: Result<DbCoupon, ApiError>)
        requires
            old(self).wf(),
        ensures
            final(self).wf(),
            has_code(old(self)@, code@) ==> r == Err::<DbCoupon, ApiError>(
                ApiError::ValidationFailure,
            ) && final(self)@ == old(self)@,
            !has_code(old(self)@, code@) ==> match r {
                Ok(c) => {
                    &&& c@.code == code@
                    &&& c@.description == description@
                    &&& c@.service == service@
                    &&& c@.expires_at == expires_at as int
                    &&& c@.owner_id == crate::text::opt_str_deep_view(owner_id)
                    &&& c@.created_at == now as int
                    &&& c@.id.len() == 36
                    &&& !has_id(old(self)@, c@.id)
                    &&& exists|k: int|
                        0 <= k <= old(self)@.len() && #[trigger] final(self)@ == old(
                            self,
                        )@.insert(k, c@) && (forall|j: int|
                            0 <= j < k ==> old(self)@[j].created_at <= now as int) && (k < old(
                            self,
                        )@.len() ==> old(self)@[k].created_at > now as int)
                },
                Err(e) => e == ApiError::ValidationFailure && final(self)@ == old(self)@,
            },
    {
        match self.find_index(code) {
            Some(_) => Err(ApiError::ValidationFailure),
            None => {
                let id = crate::ids::new_id();
                if self.id_taken(id.as_str()) {
                    return Err(ApiError::ValidationFailure);
                }
                let mut pos: usize = 0;
                while pos < self.rows.len() && self.rows[pos].created_at <= now
                    invariant
                        0 <= pos <= self.rows.len(),
                        self@.len() == self.rows@.len(),
                        self@ == rows_view(self.rows@),
                        forall|j: int| 0 <= j < pos ==> #[trigger] self@[j].created_at <= now as int,
                    decreases self.rows.len() - pos,
                {
                    assert(self@[pos as int] == self.rows@[pos as int]@);
                    pos = pos + 1;
                }
                proof {
                    assert(pos < self.rows@.len() ==> self@[pos as int].created_at > now as int);
                }
                let row = DbCoupon {
                    id,
                    code: code.to_owned(),
                    description: description.to_owned(),
                    service: service.to_owned(),
                    expires_at,
                    owner_id: match owner_id {
                        Some(o) => Some(o.to_owned()),
                        None => None,
                    },
                    created_at: now,
                };
                let ret = clone_coupon(&row);
                let ghost rowv = row@;
                self.rows.insert(pos, row);
                proof {
                    let pre = old(self)@;
                    pre.insert_ensures(pos as int, rowv);
                    old(self).rows@.insert_ensures(pos as int, row);
                    assert(self@ =~= pre.insert(pos as int, rowv));
                    let post = self@;
                    assert(forall|j: int| 0 <= j < pos ==> #[trigger] post[j] == pre[j]);
                    assert(forall|j: int|
                        pos < j < post.len() ==> #[trigger] post[j] == pre[j - 1]);
                    assert(post[pos as int] == rowv);
                    assert(wf_rows(post)) by {
                        assert(codes_unique(post)) by {
                            assert(forall|j: int|
                                0 <= j < pre.len() ==> #[trigger] pre[j].code != rowv.code);
                        }
                        assert(ids_unique(post)) by {
                            assert(forall|j: int|
                                0 <= j < pre.len() ==> #[trigger] pre[j].id != rowv.id);
                        }
                        assert(stamps_nondecreasing(post)) by {
                            assert(forall|j: int|
                                0 <= j < pos ==> #[trigger] pre[j].created_at <= now as int);
                            assert(forall|j: int|
                                pos <= j < pre.len() ==> #[trigger] pre[j].created_at
                                    > now as int);
                        }
                    }
                }
                Ok(ret)
            },
        }
    }

    /// Merge a patch into the coupon carrying `code`: each descriptive field
    /// is independently left unchanged or replaced, and the owner follows the
    /// three-state instruction. Returns false iff the code does not exist.
    pub fn update_coupon_by_code(&mut self, code: &str, patch: &CouponPatch) -> (r: bool)
        requires
            old(self).wf(),
        ensures
            final(self).wf(),
            r == has_code(old(self)@, code@),
            !has_code(old(self)@, code@) ==> final(self)@ == old(self)@,
            has_code(old(self)@, code@) ==> final(self)@ == old(self)@.update(
                code_idx(old(self)@, code@),
                patched(old(self)@[code_idx(old(self)@, code@)], *patch),
            ),
    {
        match self.find_index(code) {
            None => false,
            Some(i) => {
                let cur = &self.rows[i];
                let updated = DbCoupon {
                    id: cur.id.clone(),
                    code: cur.code.clone(),
                    description: match &patch.description {
                        Some(d) => d.clone(),
                        None => cur.description.clone(),
                    },
                    service: match &patch.service {
                        Some(s) => s.clone(),
                        None => cur.service.clone(),
                    },
                    expires_at: match patch.expires_at {
                        Some(e) => e,
                        None => cur.expires_at,
                    },
                    owner_id: match &patch.owner {
                        OwnerPatch::Unchanged => match &cur.owner_id {
                            Some(o) => Some(o.clone()),
                            None => None,
                        },
                        OwnerPatch::SetTo(u) => Some(u.clone()),
                        OwnerPatch::Clear => None,
                    },
                    created_at: cur.created_at,
                };
                proof {
                    let k = code_idx(old(self)@, code@);
                    assert(0 <= k < old(self)@.len() && old(self)@[k].code == code@);
                    assert(k == i as int);
                    assert(updated@ == patched(old(self)@[i as int], *patch));
                }
                self.rows.set(i, updated);
                proof {
                    assert(self@ =~= old(self)@.update(
                        code_idx(old(self)@, code@),
                        patched(old(self)@[code_idx(old(self)@, code@)], *patch),
                    ));
                    assert(forall|j: int|
                        0 <= j < self@.len() ==> #[trigger] self@[j].code == old(self)@[j].code);
                }
                true
            },
        }
    }

    /// Delete the coupon carrying `code`. Idempotent: returns false iff
    /// nothing was deleted. Deletion is final.
    pub fn delete_coupon_by_code(&mut self, code: &str) -> (r: bool)
        requires
            old(self).wf(),
        ensures
            final(self).wf(),
            r == has_code(old(self)@, code@),
            !has_code(old(self)@, code@) ==> final(self)@ == old(self)@,
            has_code(old(self)@, code@) ==> final(self)@ == old(self)@.remove(
                code_idx(old(self)@, code@),
            ),
    {
        match self.find_index(code) {
            None => false,
            Some(i) => {
                proof {
                    let k = code_idx(old(self)@, code@);
                    assert(0 <= k < old(self)@.len() && old(self)@[k].code == code@);
                    assert(k == i as int);
                }
                self.rows.remove(i);
                proof {
                    old(self)@.remove_ensures(i as int);
                    assert(self@ =~= old(self)@.remove(i as int));
                    assert(wf_rows(self@)) by {
                        assert(forall|j: int|
                            0 <= j < i ==> #[trigger] self@[j] == old(self)@[j]);
                        assert(forall|j: int|
                            i <= j < self@.len() ==> #[trigger] self@[j] == old(self)@[j + 1]);
                    }
                }
                true
            },
        }
    }

    /// List coupons, newest-created-first — the listing is sorted by
    /// creation stamp, descending; when `active_only` is set, only coupons
    /// whose expiry is strictly in the future appear. The sequence is finite
    /// and computed fresh per call.
    pub fn list_coupons(&self, active_only: bool, now: i64) -> (r: Vec<DbCoupon>)
        requires
            self.wf(),
        ensures
            rows_view(r@) == newest_first_matching(self@, active_filter(active_only, now as int)),
            stamps_nonincreasing(rows_view(r@)),
    {
        proof {
            lemma_newest_first_sorted(self@, active_filter(active_only, now as int));
        }
        let ghost p = active_filter(active_only, now as int);
        let mut out: Vec<DbCoupon> = Vec::new();
        let mut i: usize = self.rows.len();
        proof {
            assert(self@.subrange(i as int, self@.len() as int) =~= Seq::<CouponV>::empty());
            assert(rows_view(out@) =~= Seq::<CouponV>::empty());
        }
        while i > 0
            invariant
                i <= self.rows.len(),
                self@.len() == self.rows@.len(),
                self@ == rows_view(self.rows@),
                p == active_filter(active_only, now as int),
                rows_view(out@) == newest_first_matching(
                    self@.subrange(i as int, self@.len() as int),
                    p,
                ),
            decreases i,
        {
            i = i - 1;
            let ghost prev = out@;
            if !active_only || self.rows[i].expires_at > now {
                let c = clone_coupon(&self.rows[i]);
                out.push(c);
            }
            proof {
                let sub = self@.subrange(i as int, self@.len() as int);
                assert(sub.drop_first() =~= self@.subrange(i + 1, self@.len() as int));
                assert(sub[0] == self@[i as int]);
                if p(self@[i as int]) {
                    assert(rows_view(out@) =~= rows_view(prev).push(self@[i as int]));
                    assert(newest_first_matching(sub, p) =~= newest_first_matching(
                        sub.drop_first(),
                        p,
                    ).push(sub[0]));
                } else {
                    assert(rows_view(out@) =~= rows_view(prev));
                    assert(newest_first_matching(sub, p) =~= newest_first_matching(
                        sub.drop_first(),
                        p,
                    ));
                }
            }
        }
        proof {
            assert(self@.subrange(0, self@.len() as int) =~= self@);
        }
        out
    }

    /// The coupons a user currently holds and that are still active,
    /// newest-created-first: sorted by creation stamp, descending.
    pub fn owned_active_coupons(&self, user_id: &str, now: i64) -> (r: Vec<DbCoupon>)
        requires
            self.wf(),
        ensures
            rows_view(r@) == newest_first_matching(
                self@,
                owned_active_filter(user_id@, now as int),
            ),
            stamps_nonincreasing(rows_view(r@)),
    {
        proof {
            lemma_newest_first_sorted(self@, owned_active_filter(user_id@, now as int));
        }
        let ghost p = owned_active_filter(user_id@, now as int);
        let mut out: Vec<DbCoupon> = Vec::new();
        let mut i: usize = self.rows.len();
        proof {
            assert(self@.subrange(i as int, self@.len() as int) =~= Seq::<CouponV>::empty());
            assert(rows_view(out@) =~= Seq::<CouponV>::empty());
        }
        while i > 0
            invariant
                i <= self.rows.len(),
                self@.len() == self.rows@.len(),
                self@ == rows_view(self.rows@),
                p == owned_active_filter(user_id@, now as int),
                rows_view(out@) == newest_first_matching(
                    self@.subrange(i as int, self@.len() as int),
                    p,
                ),
            decreases i,
        {
            i = i - 1;
            let ghost prev = out@;
            let owned = match &self.rows[i].owner_id {
                Some(o) => str_eq(o.as_str(), user_id),
                None => false,
            };
            if owned && self.rows[i].expires_at > now {
                let c = clone_coupon(&self.rows[i]);
                out.push(c);
            }
            proof {
                let sub = self@.subrange(i as int, self@.len() as int);
                assert(sub.drop_first() =~= self@.subrange(i + 1, self@.len() as int));
                assert(sub[0] == self@[i as int]);
                if p(self@[i as int]) {
                    assert(rows_view(out@) =~= rows_view(prev).push(self@[i as int]));
                    assert(newest_first_matching(sub, p) =~= newest_first_matching(
                        sub.drop_first(),
                        p,
                    ).push(sub[0]));
                } else {
                    assert(rows_view(out@) =~= rows_view(prev));
                    assert(newest_first_matching(sub, p) =~= newest_first_matching(
                        sub.drop_first(),
                        p,
                    ));
                }
            }
        }
        proof {
            assert(self@.subrange(0, self@.len() as int) =~= self@);
        }
        out
    }
}

} // verus!
