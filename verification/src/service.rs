//! The operation surface: stateless request handlers over the process-wide
//! context (signing secret plus stores), gated by the authorization rules.
//!
//! Every handler takes the caller's `Authorization` header value and the
//! current time as plain values; transport, clock and durable storage live
//! outside this core.

use vstd::prelude::*;

use crate::accounts::{email_idx, has_email, is_admin_of, UserStore, UserV};
use crate::errors::ApiError;
use crate::gate::{bearer_of, require_admin, require_user, resolve_identity, subject_of};
use crate::ledger::{
    active_filter, claim_result, claim_step, code_idx, has_code, newest_first_matching,
    owned_active_filter, patched, release_ok, release_step, rows_view, CouponPatch, CouponStore,
    CouponV, DbCoupon, OwnerPatch,
};
use crate::text::opt_str_deep_view;
use crate::token::{claims_of, opt_str_view, token_of, TOKEN_LIFETIME_SECS};
use crate::vault::password_verifies;

verus! {

/// The process-wide context: established once at startup, then handed into
/// every request handler. The stores stand for the durable tables behind the
/// connection pool.
pub struct AppState {
    pub users: UserStore,
    pub coupons: CouponStore,
    pub jwt_secret: String,
}

impl AppState {
    pub open spec fn wf(&self) -> bool {
        self.users.wf() && self.coupons.wf()
    }

    pub fn new(jwt_secret: String) -> (r: AppState)
        ensures
            r.wf(),
            r.users@ == Seq::<UserV>::empty(),
            r.coupons@ == Seq::<CouponV>::empty(),
            r.jwt_secret == jwt_secret,
    {
        AppState { users: UserStore::new(), coupons: CouponStore::new(), jwt_secret }
    }
}

/// A user as the operation surface reports it: the password hash and the
/// creation time stay inside.
#[derive(Debug, Clone, PartialEq, Eq)]
pub struct User {
    pub id: String,
    pub email: String,
    pub is_admin: bool,
}

/// The model of a reported user.
pub struct UserGqlV {
    pub id: Seq<char>,
    pub email: Seq<char>,
    pub is_admin: bool,
}

impl View for User {
    type V = UserGqlV;

    open spec fn view(&self) -> UserGqlV {
        UserGqlV { id: self.id@, email: self.email@, is_admin: self.is_admin }
    }
}

/// What a user row looks like on the operation surface.
pub open spec fn user_summary(u: UserV) -> UserGqlV {
    UserGqlV { id: u.id, email: u.email, is_admin: u.is_admin }
}

/// A coupon as the operation surface reports it; it carries every field of
/// the row.
#[derive(Debug, Clone, PartialEq, Eq)]
pub struct Coupon {
    pub id: String,
    pub code: String,
    pub description: String,
    pub service: String,
    pub expires_at: i64,
    pub owner_id: Option<String>,
    pub created_at: i64,
}

impl View for Coupon {
    type V = CouponV;

    open spec fn view(&self) -> CouponV {
        CouponV {
            id: self.id@,
            code: self.code@,
            description: self.description@,
            service: self.service@,
            expires_at: self.expires_at as int,
            owner_id: match self.owner_id {
                Some(o) => Some(o@),
                None => None,
            },
            created_at: self.created_at as int,
        }
    }
}

pub open spec fn coupons_gql_view(s: Seq<Coupon>) -> Seq<CouponV> {
    Seq::new(s.len(), |i: int| s[i]@)
}

pub open spec fn opt_coupon_gql_view(r: Option<Coupon>) -> Option<CouponV> {
    match r {
        Some(c) => Some(c@),
        None => None,
    }
}

/// Turn a ledger row into its surface form; nothing is changed or hidden.
pub fn db_coupon_to_gql(c: DbCoupon) -> (r: Coupon)
    ensures
        r@ == c@,
{
    Coupon {
        id: c.id,
        code: c.code,
        description: c.description,
        service: c.service,
        expires_at: c.expires_at,
        owner_id: c.owner_id,
        created_at: c.created_at,
    }
}

/// Turn a user row into its surface form, dropping the password hash and the
/// creation time.
pub fn db_user_to_gql(u: crate::accounts::DbUser) -> (r: User)
    ensures
        r@ == user_summary(u@),
{
    User { id: u.id, email: u.email, is_admin: u.is_admin }
}

fn coupons_to_gql(rows: Vec<DbCoupon>) -> (r: Vec<Coupon>)
    ensures
        coupons_gql_view(r@) == rows_view(rows@),
{
    let mut i: usize = 0;
    let src: Vec<DbCoupon> = rows;
    let mut taken: Vec<Coupon> = Vec::new();
    proof {
        assert(coupons_gql_view(taken@) =~= rows_view(src@).subrange(0, 0));
    }
    while i < src.len()
        invariant
            0 <= i <= src.len(),
            src@ == rows@,
            coupons_gql_view(taken@) == rows_view(src@).subrange(0, i as int),
        decreases src.len() - i,
    {
        let ghost prev = taken@;
        let c = clone_gql(&src[i]);
        taken.push(c);
        proof {
            assert(prev.len() == i as int) by {
                assert(coupons_gql_view(prev).len() == prev.len());
                assert(rows_view(src@).subrange(0, i as int).len() == i as int);
            }
            assert(taken@.len() == i as int + 1);
            assert(taken@[i as int]@ == src@[i as int]@);
            assert forall|j: int|
                0 <= j <= i as int implies coupons_gql_view(taken@)[j] == rows_view(
                src@,
            ).subrange(0, i as int + 1)[j] by {
                if j < i as int {
                    assert(taken@[j] == prev[j]);
                    assert(coupons_gql_view(prev)[j] == rows_view(src@).subrange(0, i as int)[j]);
                }
            }
            assert(coupons_gql_view(taken@) =~= rows_view(src@).subrange(0, i as int + 1));
        }
        i = i + 1;
    }
    proof {
        assert(rows_view(src@).subrange(0, src@.len() as int) =~= rows_view(src@));
    }
    taken
}

/// An exact surface copy of a row.
fn clone_gql(c: &DbCoupon) -> (r: Coupon)
    ensures
        r@ == c@,
{
    Coupon {
        id: c.id.clone(),
        code: c.code.clone(),
        description: c.description.clone(),
        service: c.service.clone(),
        expires_at: c.expires_at,
        owner_id: match &c.owner_id {
            Some(o) => Some(o.clone()),
            None => None,
        },
        created_at: c.created_at,
    }
}

/// Registration input.
pub struct RegisterInput {
    pub email: String,
    pub password: String,
}

/// Login input.
pub struct LoginInput {
    pub email: String,
    pub password: String,
}

/// Creation input: the expiry is given as a day count from now.
pub struct CreateCouponInput {
    pub code: String,
    pub description: String,
    pub service: String,
    pub expires_in_days: i64,
    pub owner_id: Option<String>,
}

/// Update input: omitted fields stay unchanged. An explicit `owner_id` sets
/// the owner and takes precedence; `clear_owner` without an `owner_id`
/// clears it; neither leaves it alone.
pub struct UpdateCouponInput {
    pub code: String,
    pub description: Option<String>,
    pub service: Option<String>,
    pub expires_in_days: Option<i64>,
    pub owner_id: Option<String>,
    pub clear_owner: Option<bool>,
}

/// The queries of the operation surface.
pub struct QueryRoot;

/// The mutations of the operation surface.
pub struct MutationRoot;

/// The largest day count whose second count fits the expiry field.
pub const MAX_EXPIRY_DAYS: i64 = 106751991167300;

/// Whether `now + days * 86400` stays within the expiry field's range.
pub open spec fn expiry_in_range(now: int, days: int) -> bool {
    &&& -MAX_EXPIRY_DAYS <= days <= MAX_EXPIRY_DAYS
    &&& i64::MIN <= now + days * 86400 <= i64::MAX
}

/// The absolute expiry a day count resolves to, when it is in range.
pub open spec fn resolved_expiry(now: int, days: Option<i64>) -> Option<i64> {
    match days {
        Some(d) => Some(((now + d * 86400) as i64)),
        None => None,
    }
}

/// Compute `now + days * 86400`, or nothing when that leaves the expiry
/// field's range.
pub fn expiry_from_days(now: i64, days: i64) -> (r: Option<i64>)
    ensures
        match r {
            Some(e) => expiry_in_range(now as int, days as int) && e == now + days * 86400,
            None => !expiry_in_range(now as int, days as int),
        },
{
    if days < -MAX_EXPIRY_DAYS || days > MAX_EXPIRY_DAYS {
        return None;
    }
    let secs: i64 = days * 86400;
    if secs >= 0 {
        if now > i64::MAX - secs {
            None
        } else {
            Some(now + secs)
        }
    } else {
        if now < i64::MIN - secs {
            None
        } else {
            Some(now + secs)
        }
    }
}

impl QueryRoot {
    /// Liveness probe.
    pub fn health(&self) -> (r: &'static str)
        ensures
            r@ == "ok"@,
    {
        "ok"
    }

    /// The caller's own user record: nothing for an anonymous caller, the
    /// record for a valid token, `Unauthorized` for an invalid or expired
    /// one.
    pub fn me(&self, st: &AppState, header: Option<&str>, now: i64) -> (r: Result<
        Option<User>,
        ApiError,
    >)
        ensures
            bearer_of(opt_str_deep_view(header)) is None ==> r == Ok::<Option<User>, ApiError>(
                None,
            ),
            bearer_of(opt_str_deep_view(header)) is Some && subject_of(
                opt_str_deep_view(header),
                st.jwt_secret@,
                now as int,
            ) is None ==> r == Err::<Option<User>, ApiError>(ApiError::Unauthorized),
            subject_of(opt_str_deep_view(header), st.jwt_secret@, now as int) matches Some(u)
                ==> match r {
                Ok(Some(gu)) => exists|i: int|
                    0 <= i < st.users@.len() && #[trigger] st.users@[i].id == u && gu@
                        == user_summary(st.users@[i]),
                Ok(None) => forall|i: int|
                    0 <= i < st.users@.len() ==> #[trigger] st.users@[i].id != u,
                Err(_) => false,
            },
    {
        match resolve_identity(header, st.jwt_secret.as_str(), now) {
            Err(_) => Err(ApiError::Unauthorized),
            Ok(None) => Ok(None),
            Ok(Some(uid)) => {
                match st.users.find_user_by_id(uid.as_str()) {
                    Some(u) => Ok(Some(db_user_to_gql(u))),
                    None => Ok(None),
                }
            },
        }
    }

    /// The public coupon list, newest-created-first — sorted by creation
    /// stamp, descending; `active_only` keeps only coupons whose expiry is
    /// strictly in the future.
    pub fn list_coupons(&self, st: &AppState, active_only: bool, now: i64) -> (r: Vec<Coupon>)
        requires
            st.wf(),
        ensures
            coupons_gql_view(r@) == newest_first_matching(
                st.coupons@,
                active_filter(active_only, now as int),
            ),
            crate::ledger::stamps_nonincreasing(coupons_gql_view(r@)),
    {
        coupons_to_gql(st.coupons.list_coupons(active_only, now))
    }

    /// Fetch a single coupon by code.
    pub fn get_coupon(&self, st: &AppState, code: &str) -> (r: Option<Coupon>)
        requires
            st.wf(),
        ensures
            match r {
                Some(c) => has_code(st.coupons@, code@) && c@ == st.coupons@[code_idx(
                    st.coupons@,
                    code@,
                )],
                None => !has_code(st.coupons@, code@),
            },
    {
        match st.coupons.get_coupon_by_code(code) {
            Some(c) => Some(db_coupon_to_gql(c)),
            None => None,
        }
    }

    /// The caller's active, owned coupons, newest-created-first: sorted by
    /// creation stamp, descending.
    pub fn my_coupons(&self, st: &AppState, header: Option<&str>, now: i64) -> (r: Result<
        Vec<Coupon>,
        ApiError,
    >)
        requires
            st.wf(),
        ensures
            match subject_of(opt_str_deep_view(header), st.jwt_secret@, now as int) {
                None => r == Err::<Vec<Coupon>, ApiError>(ApiError::Unauthorized),
                Some(u) => match r {
                    Ok(v) => coupons_gql_view(v@) == newest_first_matching(
                        st.coupons@,
                        owned_active_filter(u, now as int),
                    ) && crate::ledger::stamps_nonincreasing(coupons_gql_view(v@)),
                    Err(_) => false,
                },
            },
    {
        match require_user(header, st.jwt_secret.as_str(), now) {
            Err(e) => Err(e),
            Ok(uid) => Ok(coupons_to_gql(st.coupons.owned_active_coupons(uid.as_str(), now))),
        }
    }
}

/// The owner instruction an update input resolves to: an explicit owner id
/// sets the owner and takes precedence; a clear instruction without an owner
/// id clears it; neither leaves it alone.
pub open spec fn gql_owner_patch(owner_id: Option<String>, clear_owner: Option<bool>) -> OwnerPatch {
    match owner_id {
        Some(u) => OwnerPatch::SetTo(u),
        None => if clear_owner == Some(true) {
            OwnerPatch::Clear
        } else {
            OwnerPatch::Unchanged
        },
    }
}

/// The ledger patch an update input resolves to, once the day count has been
/// turned into an absolute expiry.
pub open spec fn gql_patch(input: UpdateCouponInput, expires_at: Option<i64>) -> CouponPatch {
    CouponPatch {
        description: input.description,
        service: input.service,
        expires_at,
        owner: gql_owner_patch(input.owner_id, input.clear_owner),
    }
}

/// The register-then-login round trip: when a user is created with a fresh
/// email and login later mints a token whose claims bind the id that a
/// lookup by that email finds, then that token validates, at any instant
/// strictly before its expiry, to exactly the created user's id.
pub proof fn lemma_register_login_roundtrip(
    users: Seq<UserV>,
    w: UserV,
    secret: Seq<char>,
    t: Seq<char>,
    exp: nat,
    later: int,
)
    ensures
        (crate::accounts::wf_users(users) && !has_email(users, w.email) && claims_of(secret, t)
            == Some((users.push(w)[email_idx(users.push(w), w.email)].id, exp)) && later < exp)
            ==> crate::token::token_subject(secret, t, later) == Some(w.id),
{
    if crate::accounts::wf_users(users) && !has_email(users, w.email) {
        crate::accounts::lemma_registered_user_found(users, w);
        assert(users.push(w)[email_idx(users.push(w), w.email)] == w);
    }
}

impl MutationRoot {
    /// Register a user. Idempotent on email: an existing account comes back
    /// unchanged, its password untouched, and registration never errors on a
    /// duplicate. A new account carries the admin flag iff no user existed at
    /// the instant of creation; the check and the insert are one atomic
    /// operation here. The empty result stands for an internal hashing
    /// failure, which changes nothing.
    pub fn register(&self, st: &mut AppState, input: RegisterInput, now: i64) -> (r: Option<User>)
        requires
            old(st).wf(),
        ensures
            final(st).wf(),
            final(st).coupons@ == old(st).coupons@,
            final(st).jwt_secret == old(st).jwt_secret,
            has_email(old(st).users@, input.email@) ==> final(st).users@ == old(st).users@ && (
            r matches Some(u) && u@ == user_summary(
                old(st).users@[email_idx(old(st).users@, input.email@)],
            )),
            !has_email(old(st).users@, input.email@) ==> match r {
                Some(u) => ({
                    let w = final(st).users@.last();
                    &&& final(st).users@ == old(st).users@.push(w)
                    &&& w.email == input.email@
                    &&& password_verifies(w.password_hash, input.password@)
                    &&& w.is_admin == (old(st).users@.len() == 0)
                    &&& w.created_at == now as int
                    &&& !crate::accounts::has_user_id(old(st).users@, w.id)
                    &&& u@ == user_summary(w)
                }),
                None => final(st).users@ == old(st).users@,
            },
    {
        match st.users.find_user_by_email(input.email.as_str()) {
            Some(u) => Some(db_user_to_gql(u)),
            None => {
                match crate::vault::hash_password(input.password.as_str()) {
                    None => None,
                    Some(hash) => {
                        let is_first = !st.users.first_user_exists();
                        match st.users.create_user(
                            input.email.as_str(),
                            hash.as_str(),
                            is_first,
                            now,
                        ) {
                            Ok(u) => Some(db_user_to_gql(u)),
                            // the freshly drawn identifier collided with an
                            // existing row's; the store is unchanged
                            Err(_) => None,
                        }
                    },
                }
            },
        }
    }

    /// Log in. An unknown email and a failing password are indistinguishable:
    /// both come back empty, so login responses cannot be used to enumerate
    /// accounts. On success the token binds the user's id and expires
    /// [`TOKEN_LIFETIME_SECS`] seconds after `now`.
    pub fn login(&self, st: &AppState, input: LoginInput, now: i64) -> (r: Option<String>)
        requires
            st.wf(),
            0 <= now,
            now as int + TOKEN_LIFETIME_SECS as int <= usize::MAX as int,
        ensures
            !has_email(st.users@, input.email@) ==> r is None,
            has_email(st.users@, input.email@) && !password_verifies(
                st.users@[email_idx(st.users@, input.email@)].password_hash,
                input.password@,
            ) ==> r is None,
            has_email(st.users@, input.email@) && password_verifies(
                st.users@[email_idx(st.users@, input.email@)].password_hash,
                input.password@,
            ) ==> opt_str_view(r) == token_of(
                st.jwt_secret@,
                st.users@[email_idx(st.users@, input.email@)].id,
                (now as int + TOKEN_LIFETIME_SECS as int) as nat,
            ),
            r matches Some(t) ==> ({
                let u = st.users@[email_idx(st.users@, input.email@)];
                &&& t@.len() > 0
                &&& has_email(st.users@, input.email@)
                &&& password_verifies(u.password_hash, input.password@)
                &&& claims_of(st.jwt_secret@, t@) == Some(
                    (u.id, (now as int + TOKEN_LIFETIME_SECS as int) as nat),
                )
            }),
    {
        match st.users.find_user_by_email(input.email.as_str()) {
            None => None,
            Some(u) => {
                if crate::vault::verify_password(
                    u.password_hash.as_str(),
                    input.password.as_str(),
                ) {
                    crate::token::make_jwt_3min(
                        st.jwt_secret.as_str(),
                        u.id.as_str(),
                        now as usize,
                    )
                } else {
                    None
                }
            },
        }
    }

    /// Claim an unowned, unexpired coupon for the caller. The empty result
    /// deliberately does not distinguish not-found, already-owned and
    /// expired.
    pub fn claim_coupon(
        &self,
        st: &mut AppState,
        header: Option<&str>,
        code: &str,
        now: i64,
    ) -> (r: Result<Option<Coupon>, ApiError>)
        requires
            old(st).wf(),
        ensures
            final(st).wf(),
            final(st).users@ == old(st).users@,
            final(st).jwt_secret == old(st).jwt_secret,
            match subject_of(opt_str_deep_view(header), old(st).jwt_secret@, now as int) {
                None => r == Err::<Option<Coupon>, ApiError>(ApiError::Unauthorized) && final(st).coupons@ == old(st).coupons@,
                Some(u) => {
                    &&& final(st).coupons@ == claim_step(old(st).coupons@, code@, u, now as int)
                    &&& match r {
                        Ok(opt) => opt_coupon_gql_view(opt) == claim_result(
                            old(st).coupons@,
                            code@,
                            u,
                            now as int,
                        ),
                        Err(_) => false,
                    }
                },
            },
    {
        match require_user(header, st.jwt_secret.as_str(), now) {
            Err(e) => Err(e),
            Ok(uid) => {
                match st.coupons.claim_coupon(code, uid.as_str(), now) {
                    Some(c) => Ok(Some(db_coupon_to_gql(c))),
                    None => Ok(None),
                }
            },
        }
    }

    /// Release a coupon the caller currently owns. False alike for
    /// not-found, not-owner and already-unowned.
    pub fn release_coupon(
        &self,
        st: &mut AppState,
        header: Option<&str>,
        code: &str,
        now: i64,
    ) -> (r: Result<bool, ApiError>)
        requires
            old(st).wf(),
        ensures
            final(st).wf(),
            final(st).users@ == old(st).users@,
            final(st).jwt_secret == old(st).jwt_secret,
            match subject_of(opt_str_deep_view(header), old(st).jwt_secret@, now as int) {
                None => r == Err::<bool, ApiError>(ApiError::Unauthorized) && final(st).coupons@
                    == old(st).coupons@,
                Some(u) => final(st).coupons@ == release_step(old(st).coupons@, code@, u) && r
                    == Ok::<bool, ApiError>(release_ok(old(st).coupons@, code@, u)),
            },
    {
        match require_user(header, st.jwt_secret.as_str(), now) {
            Err(e) => Err(e),
            Ok(uid) => Ok(st.coupons.release_coupon(code, uid.as_str())),
        }
    }

    /// Create a coupon; admin only. The absolute expiry is `now` plus the
    /// given day count; a day count whose expiry leaves the field's range is
    /// malformed input, and a taken code is a uniqueness violation.
    pub fn create_coupon(
        &self,
        st: &mut AppState,
        header: Option<&str>,
        input: CreateCouponInput,
        now: i64,
    ) -> (r: Result<Coupon, ApiError>)
        requires
            old(st).wf(),
        ensures
            final(st).wf(),
            final(st).users@ == old(st).users@,
            final(st).jwt_secret == old(st).jwt_secret,
            match subject_of(opt_str_deep_view(header), old(st).jwt_secret@, now as int) {
                None => r == Err::<Coupon, ApiError>(ApiError::Unauthorized) && final(st).coupons@
                    == old(st).coupons@,
                Some(u) => if !is_admin_of(old(st).users@, u) {
                    r == Err::<Coupon, ApiError>(ApiError::Forbidden) && final(st).coupons@ == old(st).coupons@
                } else if !expiry_in_range(now as int, input.expires_in_days as int) {
                    r == Err::<Coupon, ApiError>(ApiError::ValidationFailure) && final(st).coupons@
                        == old(st).coupons@
                } else if has_code(old(st).coupons@, input.code@) {
                    r == Err::<Coupon, ApiError>(ApiError::ValidationFailure) && final(st).coupons@
                        == old(st).coupons@
                } else {
                    match r {
                        Ok(c) => {
                            &&& c@.code == input.code@
                            &&& c@.description == input.description@
                            &&& c@.service == input.service@
                            &&& c@.expires_at == now as int + input.expires_in_days as int * 86400
                            &&& c@.owner_id == (match input.owner_id {
                                Some(o) => Some(o@),
                                None => None,
                            })
                            &&& c@.created_at == now as int
                            &&& c@.id.len() == 36
                            &&& !crate::ledger::has_id(old(st).coupons@, c@.id)
                            &&& exists|k: int|
                                0 <= k <= old(st).coupons@.len() && #[trigger] final(st).coupons@
                                    == old(st).coupons@.insert(k, c@) && (forall|j: int|
                                    0 <= j < k ==> old(st).coupons@[j].created_at <= now as int)
                                    && (k < old(st).coupons@.len() ==> old(
                                    st,
                                ).coupons@[k].created_at > now as int)
                        },
                        Err(e) => e == ApiError::ValidationFailure && final(st).coupons@ == old(
                            st,
                        ).coupons@,
                    }
                },
            },
    {
        match require_admin(header, st.jwt_secret.as_str(), &st.users, now) {
            Err(e) => Err(e),
            Ok(_) => {
                match expiry_from_days(now, input.expires_in_days) {
                    None => Err(ApiError::ValidationFailure),
                    Some(exp) => {
                        let owner: Option<&str> = match &input.owner_id {
                            Some(o) => Some(o.as_str()),
                            None => None,
                        };
                        match st.coupons.create_coupon(
                            input.code.as_str(),
                            input.description.as_str(),
                            input.service.as_str(),
                            exp,
                            owner,
                            now,
                        ) {
                            Ok(c) => Ok(db_coupon_to_gql(c)),
                            Err(e2) => Err(e2),
                        }
                    },
                }
            },
        }
    }

    /// Merge a patch into a coupon; admin only. Omitted fields stay as they
    /// are; the owner follows the three-state instruction. False iff the
    /// code does not exist.
    pub fn update_coupon(
        &self,
        st: &mut AppState,
        header: Option<&str>,
        input: UpdateCouponInput,
        now: i64,
    ) -> (r: Result<bool, ApiError>)
        requires
            old(st).wf(),
        ensures
            final(st).wf(),
            final(st).users@ == old(st).users@,
            final(st).jwt_secret == old(st).jwt_secret,
            match subject_of(opt_str_deep_view(header), old(st).jwt_secret@, now as int) {
                None => r == Err::<bool, ApiError>(ApiError::Unauthorized) && final(st).coupons@
                    == old(st).coupons@,
                Some(u) => if !is_admin_of(old(st).users@, u) {
                    r == Err::<bool, ApiError>(ApiError::Forbidden) && final(st).coupons@ == old(st).coupons@
                } else if (input.expires_in_days matches Some(d) && !expiry_in_range(
                    now as int,
                    d as int,
                )) {
                    r == Err::<bool, ApiError>(ApiError::ValidationFailure) && final(st).coupons@
                        == old(st).coupons@
                } else {
                    &&& r == Ok::<bool, ApiError>(has_code(old(st).coupons@, input.code@))
                    &&& !has_code(old(st).coupons@, input.code@) ==> final(st).coupons@ == old(st).coupons@
                    &&& has_code(old(st).coupons@, input.code@) ==> final(st).coupons@ == old(st).coupons@.update(
                        code_idx(old(st).coupons@, input.code@),
                        patched(
                            old(st).coupons@[code_idx(old(st).coupons@, input.code@)],
                            gql_patch(input, resolved_expiry(now as int, input.expires_in_days)),
                        ),
                    )
                },
            },
    {
        match require_admin(header, st.jwt_secret.as_str(), &st.users, now) {
            Err(e) => Err(e),
            Ok(_) => {
                let expires_at: Option<i64> = match input.expires_in_days {
                    Some(d) => match expiry_from_days(now, d) {
                        None => {
                            return Err(ApiError::ValidationFailure);
                        },
                        Some(e) => Some(e),
                    },
                    None => None,
                };
                let patch = CouponPatch {
                    description: input.description,
                    service: input.service,
                    expires_at,
                    owner: match input.owner_id {
                        Some(u) => OwnerPatch::SetTo(u),
                        None => match input.clear_owner {
                            Some(true) => OwnerPatch::Clear,
                            _ => OwnerPatch::Unchanged,
                        },
                    },
                };
                proof {
                    assert(patch == gql_patch(
                        input,
                        resolved_expiry(now as int, input.expires_in_days),
                    ));
                }
                Ok(st.coupons.update_coupon_by_code(input.code.as_str(), &patch))
            },
        }
    }

    /// Delete a coupon; admin only. Idempotent: false iff nothing was
    /// deleted. Deletion is final.
    pub fn delete_coupon(
        &self,
        st: &mut AppState,
        header: Option<&str>,
        code: &str,
        now: i64,
    ) -> (r: Result<bool, ApiError>)
        requires
            old(st).wf(),
        ensures
            final(st).wf(),
            final(st).users@ == old(st).users@,
            final(st).jwt_secret == old(st).jwt_secret,
            match subject_of(opt_str_deep_view(header), old(st).jwt_secret@, now as int) {
                None => r == Err::<bool, ApiError>(ApiError::Unauthorized) && final(st).coupons@
                    == old(st).coupons@,
                Some(u) => if !is_admin_of(old(st).users@, u) {
                    r == Err::<bool, ApiError>(ApiError::Forbidden) && final(st).coupons@ == old(st).coupons@
                } else {
                    &&& r == Ok::<bool, ApiError>(has_code(old(st).coupons@, code@))
                    &&& !has_code(old(st).coupons@, code@) ==> final(st).coupons@ == old(st).coupons@
                    &&& has_code(old(st).coupons@, code@) ==> final(st).coupons@ == old(st).coupons@.remove(code_idx(old(st).coupons@, code@))
                },
            },
    {
        match require_admin(header, st.jwt_secret.as_str(), &st.users, now) {
            Err(e) => Err(e),
            Ok(_) => Ok(st.coupons.delete_coupon_by_code(code)),
        }
    }
}

} // verus!
