//! The user table: created once at registration, never mutated or deleted
//! within this core. Emails are unique; the admin flag is set once at
//! creation.

use vstd::prelude::*;

use crate::errors::ApiError;
use crate::text::str_eq;

verus! {

/// One user row.
#[derive(Debug, Clone, PartialEq, Eq)]
pub struct DbUser {
    pub id: String,
    pub email: String,
    /// Opaque salted hash; never a plaintext password.
    pub password_hash: String,
    /// Set once at creation, never updated.
    pub is_admin: bool,
    pub created_at: i64,
}

/// The mathematical model of a user row.
pub struct UserV {
    pub id: Seq<char>,
    pub email: Seq<char>,
    pub password_hash: Seq<char>,
    pub is_admin: bool,
    pub created_at: int,
}

impl View for DbUser {
    type V = UserV;

    open spec fn view(&self) -> UserV {
        UserV {
            id: self.id@,
            email: self.email@,
            password_hash: self.password_hash@,
            is_admin: self.is_admin,
            created_at: self.created_at as int,
        }
    }
}

/// Emails are unique, as the store enforces.
pub open spec fn emails_unique(users: Seq<UserV>) -> bool {
    forall|i: int, j: int|
        0 <= i < users.len() && 0 <= j < users.len() && i != j ==> #[trigger] users[i].email
            != #[trigger] users[j].email
}

/// Identifiers are unique, as the store's unique column enforces.
pub open spec fn user_ids_unique(users: Seq<UserV>) -> bool {
    forall|i: int, j: int|
        0 <= i < users.len() && 0 <= j < users.len() && i != j ==> #[trigger] users[i].id
            != #[trigger] users[j].id
}

/// The store's row invariant: unique emails and unique identifiers.
pub open spec fn wf_users(users: Seq<UserV>) -> bool {
    emails_unique(users) && user_ids_unique(users)
}

pub open spec fn has_user_id(users: Seq<UserV>, id: Seq<char>) -> bool {
    exists|i: int| 0 <= i < users.len() && #[trigger] users[i].id == id
}

pub open spec fn has_email(users: Seq<UserV>, email: Seq<char>) -> bool {
    exists|i: int| 0 <= i < users.len() && #[trigger] users[i].email == email
}

/// The index of the user with `email`; meaningful only when `has_email`
/// holds, and then, under `wf_users`, the one such index.
pub open spec fn email_idx(users: Seq<UserV>, email: Seq<char>) -> int {
    choose|i: int| 0 <= i < users.len() && #[trigger] users[i].email == email
}

/// Whether some user with this id exists and carries the admin flag. An
/// unknown id is simply not an admin: fail closed.
pub open spec fn is_admin_of(users: Seq<UserV>, user_id: Seq<char>) -> bool {
    exists|i: int|
        0 <= i < users.len() && #[trigger] users[i].id == user_id && users[i].is_admin
}

pub open spec fn users_view(s: Seq<DbUser>) -> Seq<UserV> {
    Seq::new(s.len(), |i: int| s[i]@)
}

pub open spec fn opt_user_view(r: Option<DbUser>) -> Option<UserV> {
    match r {
        Some(u) => Some(u@),
        None => None,
    }
}

/// Creating a user with a fresh email keeps emails unique, and lookups by
/// that email find exactly the new row.
pub proof fn lemma_registered_user_found(users: Seq<UserV>, w: UserV)
    requires
        emails_unique(users),
        !has_email(users, w.email),
    ensures
        emails_unique(users.push(w)),
        has_email(users.push(w), w.email),
        email_idx(users.push(w), w.email) == users.len(),
{
    let post = users.push(w);
    assert(post[users.len() as int].email == w.email);
    assert(forall|j: int| 0 <= j < users.len() ==> #[trigger] post[j].email != w.email);
    let k = email_idx(post, w.email);
    assert(0 <= k < post.len() && post[k].email == w.email);
}

/// The admin bootstrap: the first user ever registered carries the admin
/// flag, and every user registered after it does not. The flag is decided by
/// whether the table was empty at the instant of that user's creation.
pub proof fn lemma_bootstrap_admin(
    pre: Seq<UserV>,
    u1: UserV,
    mid: Seq<UserV>,
    u2: UserV,
    post: Seq<UserV>,
)
    ensures
        pre.len() == 0 && mid == pre.push(u1) && u1.is_admin == (pre.len() == 0) && post
            == mid.push(u2) && u2.is_admin == (mid.len() == 0) ==> u1.is_admin && !u2.is_admin,
{
}

/// An exact copy of a row.
fn clone_user(u: &DbUser) -> (r: DbUser)
    ensures
        r@ == u@,
{
    DbUser {
        id: u.id.clone(),
        email: u.email.clone(),
        password_hash: u.password_hash.clone(),
        is_admin: u.is_admin,
        created_at: u.created_at,
    }
}

/// The pool of user rows. Stands for the durable `users` table.
pub struct UserStore {
    users: Vec<DbUser>,
}

impl View for UserStore {
    type V = Seq<UserV>;

    closed spec fn view(&self) -> Seq<UserV> {
        users_view(self.users@)
    }
}

impl UserStore {
    /// Email uniqueness holds of the rows.
    pub open spec fn wf(&self) -> bool {
        wf_users(self@)
    }

    pub fn new() -> (r: UserStore)
        ensures
            r@ == Seq::<UserV>::empty(),
            r.wf(),
    {
        let r = UserStore { users: Vec::new() };
        proof {
            assert(r@ =~= Seq::<UserV>::empty());
        }
        r
    }

    /// The index of the user with `email`, if any.
    fn find_index(&self, email: &str) -> (r: Option<usize>)
        ensures
            match r {
                Some(i) => 0 <= i < self@.len() && self@[i as int].email == email@,
                None => !has_email(self@, email@),
            },
    {
        let mut i: usize = 0;
        while i < self.users.len()
            invariant
                0 <= i <= self.users.len(),
                self@.len() == self.users@.len(),
                forall|j: int| 0 <= j < i ==> #[trigger] self@[j].email != email@,
            decreases self.users.len() - i,
        {
            assert(self@[i as int] == self.users@[i as int]@);
            if str_eq(self.users[i].email.as_str(), email) {
                return Some(i);
            }
            i = i + 1;
        }
        None
    }

    /// Look a user up by email.
    pub fn find_user_by_email(&self, email: &str) -> (r: Option<DbUser>)
        requires
            self.wf(),
        ensures
            match r {
                Some(u) => has_email(self@, email@) && u@ == self@[email_idx(self@, email@)],
                None => !has_email(self@, email@),
            },
    {
        match self.find_index(email) {
            Some(i) => {
                let u = clone_user(&self.users[i]);
                proof {
                    let k = email_idx(self@, email@);
                    assert(0 <= k < self@.len() && self@[k].email == email@);
                    assert(k == i as int);
                }
                Some(u)
            },
            None => None,
        }
    }

    /// Whether any user at all exists yet; decides the admin bootstrap.
    pub fn first_user_exists(&self) -> (r: bool)
        ensures
            r == (self@.len() > 0),
    {
        self.users.len() > 0
    }

    /// Whether a row already carries this identifier.
    fn id_taken(&self, id: &str) -> (r: bool)
        ensures
            r == has_user_id(self@, id@),
    {
        let mut i: usize = 0;
        while i < self.users.len()
            invariant
                0 <= i <= self.users.len(),
                self@.len() == self.users@.len(),
                forall|j: int| 0 <= j < i ==> #[trigger] self@[j].id != id@,
            decreases self.users.len() - i,
        {
            assert(self@[i as int] == self.users@[i as int]@);
            if str_eq(self.users[i].id.as_str(), id) {
                proof {
                    assert(self@[i as int].id == id@);
                }
                return true;
            }
            i = i + 1;
        }
        false
    }

    /// Insert a new user row. Fails with a uniqueness violation iff the
    /// email is already taken, or — as the store's unique column would — if
    /// the freshly generated identifier collides with an existing row's.
    pub fn create_user(
        &mut self,
        email: &str,
        password_hash: &str,
        is_admin: bool,
        now: i64,
    ) -> (r: Result<DbUser, ApiError>)
        requires
            old(self).wf(),
        ensures
            final(self).wf(),
            has_email(old(self)@, email@) ==> r == Err::<DbUser, ApiError>(
                ApiError::ValidationFailure,
            ) && final(self)@ == old(self)@,
            !has_email(old(self)@, email@) ==> match r {
                Ok(u) => {
                    &&& final(self)@ == old(self)@.push(u@)
                    &&& u@.email == email@
                    &&& u@.password_hash == password_hash@
                    &&& u@.is_admin == is_admin
                    &&& u@.created_at == now as int
                    &&& u@.id.len() == 36
                    &&& !has_user_id(old(self)@, u@.id)
                },
                Err(e) => e == ApiError::ValidationFailure && final(self)@ == old(self)@,
            },
    {
        match self.find_index(email) {
            Some(_) => Err(ApiError::ValidationFailure),
            None => {
                let id = crate::ids::new_id();
                if self.id_taken(id.as_str()) {
                    return Err(ApiError::ValidationFailure);
                }
                let row = DbUser {
                    id,
                    email: email.to_owned(),
                    password_hash: password_hash.to_owned(),
                    is_admin,
                    created_at: now,
                };
                let ret = clone_user(&row);
                self.users.push(row);
                proof {
                    assert(self@ =~= old(self)@.push(ret@));
                    assert(forall|j: int|
                        0 <= j < old(self)@.len() ==> #[trigger] self@[j].email == old(
                            self,
                        )@[j].email);
                    assert(forall|j: int|
                        0 <= j < old(self)@.len() ==> #[trigger] self@[j].id == old(self)@[j].id);
                }
                Ok(ret)
            },
        }
    }

    /// Whether the user with this id exists and is an admin. An unknown id
    /// is treated as lacking privilege, not as a distinct error.
    pub fn is_user_admin(&self, user_id: &str) -> (r: bool)
        ensures
            r == is_admin_of(self@, user_id@),
    {
        let mut i: usize = 0;
        while i < self.users.len()
            invariant
                0 <= i <= self.users.len(),
                self@.len() == self.users@.len(),
                forall|j: int|
                    0 <= j < i ==> !(#[trigger] self@[j].id == user_id@ && self@[j].is_admin),
            decreases self.users.len() - i,
        {
            assert(self@[i as int] == self.users@[i as int]@);
            if self.users[i].is_admin && str_eq(self.users[i].id.as_str(), user_id) {
                proof {
                    assert(self@[i as int].id == user_id@ && self@[i as int].is_admin);
                }
                return true;
            }
            i = i + 1;
        }
        false
    }

    /// Look a user up by id; the first match.
    pub(crate) fn find_user_by_id(&self, user_id: &str) -> (r: Option<DbUser>)
        ensures
            match r {
                Some(u) => exists|i: int|
                    0 <= i < self@.len() && #[trigger] self@[i] == u@ && u@.id == user_id@,
                None => forall|i: int| 0 <= i < self@.len() ==> #[trigger] self@[i].id != user_id@,
            },
    {
        let mut i: usize = 0;
        while i < self.users.len()
            invariant
                0 <= i <= self.users.len(),
                self@.len() == self.users@.len(),
                forall|j: int| 0 <= j < i ==> #[trigger] self@[j].id != user_id@,
            decreases self.users.len() - i,
        {
            assert(self@[i as int] == self.users@[i as int]@);
            if str_eq(self.users[i].id.as_str(), user_id) {
                return Some(clone_user(&self.users[i]));
            }
            i = i + 1;
        }
        None
    }
}

} // verus!
