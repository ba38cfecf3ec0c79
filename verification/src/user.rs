//! User records, credentials and permission grants.
use vstd::prelude::*;

use crate::error::Error;
use crate::password::{
    generate_salt, pbkdf2_check, pbkdf2_hash, phc_parses, salt_is_valid, salt_parses,
};
use crate::{
    clone_opt_string, grant_is, lemma_filter_preserves_pairwise, lemma_filter_take_all,
    lemma_filter_take_step, same_grant, str_eq, Database, Permission, PermissionRow, SessionRow,
    User, UserRow,
};

verus! {

/// A registration request.
pub struct CreateUser {
    pub username: String,
    pub password: String,
    pub email: Option<String>,
}

/// The stored fields of one freshly inserted user row.
pub open spec fn user_row_is(
    row: UserRow,
    id: i64,
    username: Seq<char>,
    password_hash: Seq<char>,
    password_salt: Seq<char>,
    password_method: Seq<char>,
    email: Option<String>,
) -> bool {
    &&& row.id == id
    &&& row.username@ == username
    &&& row.password_hash@ == password_hash
    &&& row.password_salt@ == password_salt
    &&& row.password_method@ == password_method
    &&& row.email == email
}

impl Database {
    /// The index of the first user row carrying this username, if any.
    fn find_user_index_by_name(&self, username: &str) -> (r: Option<usize>)
        ensures
            r matches Some(i) ==> i < self.users@.len()
                && self.users@[i as int].username@ == username@,
            r is None ==> !self.has_username(username@),
    {
        let mut i: usize = 0;
        while i < self.users.len()
            invariant
                i <= self.users@.len(),
                forall|k: int| 0 <= k < i ==> (#[trigger] self.users@[k]).username@ != username@,
            decreases self.users@.len() - i,
        {
            if str_eq(self.users[i].username.as_str(), username) {
                return Some(i);
            }
            i = i + 1;
        }
        None
    }

    /// The index of the first user row carrying this id, if any.
    pub(crate) fn find_user_index_by_id(&self, user_id: i64) -> (r: Option<usize>)
        ensures
            r matches Some(i) ==> i < self.users@.len() && self.users@[i as int].id == user_id,
            r is None ==> !self.has_user_id(user_id),
    {
        let mut i: usize = 0;
        while i < self.users.len()
            invariant
                i <= self.users@.len(),
                forall|k: int| 0 <= k < i ==> (#[trigger] self.users@[k]).id != user_id,
            decreases self.users@.len() - i,
        {
            if self.users[i].id == user_id {
                return Some(i);
            }
            i = i + 1;
        }
        None
    }

    /// Insert a user row whose hash, salt and method were derived elsewhere.
    /// Succeeds exactly on a fresh username while ids remain; a duplicate
    /// username is a `DuplicateUsername` error and leaves the store unchanged.
    pub fn create_user_with_hash_password(
        &mut self,
        username: &str,
        email: &Option<String>,
        password_hash: &str,
        password_salt: &str,
        password_method: &str,
    ) -> (r: Result<i64, Error>)
        requires
            old(self).wf(),
        ensures
            final(self).wf(),
            old(self).has_username(username@) ==> r == Err::<i64, Error>(Error::DuplicateUsername)
                && *final(self) == *old(self),
            !old(self).has_username(username@) && old(self).next_user_id == i64::MAX
                ==> r == Err::<i64, Error>(Error::StorageFailure) && *final(self) == *old(self),
            !old(self).has_username(username@) && old(self).next_user_id < i64::MAX ==> {
                &&& r == Ok::<i64, Error>(old(self).next_user_id)
                &&& final(self).next_user_id == old(self).next_user_id + 1
                &&& final(self).users@.len() == old(self).users@.len() + 1
                &&& forall|k: int| 0 <= k < old(self).users@.len()
                    ==> final(self).users@[k] == old(self).users@[k]
                &&& user_row_is(
                    final(self).users@.last(),
                    old(self).next_user_id,
                    username@,
                    password_hash@,
                    password_salt@,
                    password_method@,
                    *email,
                )
                &&& final(self).permissions == old(self).permissions
                &&& final(self).sessions == old(self).sessions
            },
    {
        if self.find_user_index_by_name(username).is_some() {
            return Err(Error::DuplicateUsername);
        }
        if self.next_user_id == i64::MAX {
            return Err(Error::StorageFailure);
        }
        let id = self.next_user_id;
        let row = UserRow {
            id,
            username: username.to_owned(),
            password_hash: password_hash.to_owned(),
            password_salt: password_salt.to_owned(),
            password_method: password_method.to_owned(),
            email: clone_opt_string(email),
        };
        self.users.push(row);
        self.next_user_id = id + 1;
        proof {
            assert forall|i: int| 0 <= i < self.sessions@.len()
                implies self.has_user_id((#[trigger] self.sessions@[i]).user_id) by {
                assert(old(self).has_user_id(old(self).sessions@[i].user_id));
                let w = choose|w: int| 0 <= w < old(self).users@.len()
                    && (#[trigger] old(self).users@[w]).id == old(self).sessions@[i].user_id;
                assert(self.users@[w].id == self.sessions@[i].user_id);
            }
            assert forall|i: int| 0 <= i < self.permissions@.len()
                implies self.has_user_id((#[trigger] self.permissions@[i]).user_id) by {
                assert(old(self).has_user_id(old(self).permissions@[i].user_id));
                let w = choose|w: int| 0 <= w < old(self).users@.len()
                    && (#[trigger] old(self).users@[w]).id == old(self).permissions@[i].user_id;
                assert(self.users@[w].id == self.permissions@[i].user_id);
            }
        }
        Ok(id)
    }

    /// Register a user: draw a fresh salt, derive the password hash, insert
    /// the row tagged with the hashing method. Succeeds exactly on a fresh
    /// username while ids remain: a generated salt always hashes, so the
    /// only errors are the duplicate username and id exhaustion.
    pub fn create_user(&mut self, user: CreateUser) -> (r: Result<i64, Error>)
        requires
            old(self).wf(),
        ensures
            final(self).wf(),
            r is Ok <==> !old(self).has_username(user.username@)
                && old(self).next_user_id < i64::MAX,
            old(self).has_username(user.username@)
                ==> r == Err::<i64, Error>(Error::DuplicateUsername) && *final(self) == *old(self),
            !old(self).has_username(user.username@) && old(self).next_user_id == i64::MAX
                ==> r == Err::<i64, Error>(Error::StorageFailure) && *final(self) == *old(self),
            r matches Ok(id) ==> {
                &&& !old(self).has_username(user.username@)
                &&& id == old(self).next_user_id
                &&& final(self).next_user_id == old(self).next_user_id + 1
                &&& final(self).users@.len() == old(self).users@.len() + 1
                &&& forall|k: int| 0 <= k < old(self).users@.len()
                    ==> final(self).users@[k] == old(self).users@[k]
                &&& {
                    let row = final(self).users@.last();
                    &&& row.id == id
                    &&& row.username@ == user.username@
                    &&& row.email == user.email
                    &&& row.password_method@ == "pbkdf2-sha256"@
                    &&& salt_parses(row.password_salt@)
                    &&& row.password_hash@ == pbkdf2_hash(user.password@, row.password_salt@)
                    &&& phc_parses(row.password_hash@)
                    &&& pbkdf2_check(user.password@, row.password_hash@)
                }
                &&& final(self).permissions == old(self).permissions
                &&& final(self).sessions == old(self).sessions
            },
    {
        let password_salt = generate_salt();
        let password_hash = match self.hash_password(password_salt.as_str(), user.password.as_str()) {
            Ok(h) => h,
            Err(e) => {
                return Err(e);
            },
        };
        self.create_user_with_hash_password(
            user.username.as_str(),
            &user.email,
            password_hash.as_str(),
            password_salt.as_str(),
            "pbkdf2-sha256",
        )
    }
}

impl Database {
    /// The index of the first grant row carrying exactly this triple, if any.
    fn find_grant_index(&self, user_id: i64, site: &str, permission: &str) -> (r: Option<usize>)
        ensures
            r matches Some(i) ==> i < self.permissions@.len()
                && grant_is(self.permissions@[i as int], user_id, site@, permission@),
            r is None ==> !self.spec_has_grant(user_id, site@, permission@),
    {
        let mut i: usize = 0;
        while i < self.permissions.len()
            invariant
                i <= self.permissions@.len(),
                forall|k: int| 0 <= k < i
                    ==> !grant_is(#[trigger] self.permissions@[k], user_id, site@, permission@),
            decreases self.permissions@.len() - i,
        {
            let p = &self.permissions[i];
            if p.user_id == user_id && str_eq(p.site.as_str(), site)
                && str_eq(p.permission.as_str(), permission) {
                return Some(i);
            }
            i = i + 1;
        }
        None
    }

    /// Grant (site, permission) to a user. Inserting a triple that is
    /// already present succeeds and changes nothing; a grant for a missing
    /// user is refused, so no orphaned grant row can appear.
    pub fn add_permission(&mut self, user_id: i64, site: &str, permission: &str) -> (r: Result<(), Error>)
        requires
            old(self).wf(),
        ensures
            final(self).wf(),
            !old(self).has_user_id(user_id) ==> r == Err::<(), Error>(Error::UserNotFound)
                && *final(self) == *old(self),
            old(self).has_user_id(user_id) ==> r == Ok::<(), Error>(())
                && final(self).spec_has_grant(user_id, site@, permission@),
            old(self).has_user_id(user_id) && old(self).spec_has_grant(user_id, site@, permission@)
                ==> *final(self) == *old(self),
            old(self).has_user_id(user_id) && !old(self).spec_has_grant(user_id, site@, permission@)
                ==> {
                &&& final(self).permissions@.len() == old(self).permissions@.len() + 1
                &&& forall|k: int| 0 <= k < old(self).permissions@.len()
                    ==> final(self).permissions@[k] == old(self).permissions@[k]
                &&& grant_is(final(self).permissions@.last(), user_id, site@, permission@)
                &&& final(self).users == old(self).users
                &&& final(self).sessions == old(self).sessions
                &&& final(self).next_user_id == old(self).next_user_id
            },
    {
        if self.find_user_index_by_id(user_id).is_none() {
            return Err(Error::UserNotFound);
        }
        if self.find_grant_index(user_id, site, permission).is_some() {
            return Ok(());
        }
        let row = PermissionRow {
            user_id,
            site: site.to_owned(),
            permission: permission.to_owned(),
        };
        self.permissions.push(row);
        proof {
            let ghost last = self.permissions@.len() - 1;
            assert forall|i: int, j: int| 0 <= i < j < self.permissions@.len()
                implies !same_grant(#[trigger] self.permissions@[i], #[trigger] self.permissions@[j]) by {
                if j == last {
                    assert(!grant_is(old(self).permissions@[i], user_id, site@, permission@));
                }
            }
            assert forall|i: int| 0 <= i < self.permissions@.len()
                implies self.has_user_id((#[trigger] self.permissions@[i]).user_id) by {
                if i < last {
                    assert(old(self).has_user_id(old(self).permissions@[i].user_id));
                }
            }
            assert(grant_is(self.permissions@[last], user_id, site@, permission@));
            assert(self.spec_has_grant(user_id, site@, permission@));
        }
        Ok(())
    }

    /// Revoke (site, permission) from a user. Removing an absent triple
    /// succeeds and changes nothing.
    pub fn remove_permission(&mut self, user_id: i64, site: &str, permission: &str) -> (r: Result<(), Error>)
        requires
            old(self).wf(),
        ensures
            final(self).wf(),
            r == Ok::<(), Error>(()),
            final(self).permissions@ == old(self).permissions@.filter(
                |p: PermissionRow| !grant_is(p, user_id, site@, permission@),
            ),
            !final(self).spec_has_grant(user_id, site@, permission@),
            final(self).users == old(self).users,
            final(self).sessions == old(self).sessions,
            final(self).next_user_id == old(self).next_user_id,
    {
        let ghost pred = |p: PermissionRow| !grant_is(p, user_id, site@, permission@);
        let mut kept: Vec<PermissionRow> = Vec::new();
        let mut i: usize = 0;
        while i < self.permissions.len()
            invariant
                *self == *old(self),
                i <= self.permissions@.len(),
                kept@ == self.permissions@.take(i as int).filter(pred),
                pred == (|p: PermissionRow| !grant_is(p, user_id, site@, permission@)),
            decreases self.permissions@.len() - i,
        {
            let p = &self.permissions[i];
            let matches_triple = p.user_id == user_id && str_eq(p.site.as_str(), site)
                && str_eq(p.permission.as_str(), permission);
            proof {
                lemma_filter_take_step(self.permissions@, pred, i as int);
            }
            if !matches_triple {
                let copy = PermissionRow {
                    user_id: p.user_id,
                    site: p.site.clone(),
                    permission: p.permission.clone(),
                };
                assert(copy == self.permissions@[i as int]);
                kept.push(copy);
            }
            i = i + 1;
        }
        proof {
            lemma_filter_take_all(self.permissions@, pred);
        }
        self.permissions = kept;
        proof {
            lemma_filter_preserves_pairwise(
                old(self).permissions@,
                pred,
                |a: PermissionRow, b: PermissionRow| same_grant(a, b),
            );
            assert forall|i: int| 0 <= i < self.permissions@.len()
                implies self.has_user_id((#[trigger] self.permissions@[i]).user_id) by {
                old(self).permissions@.lemma_filter_contains_rev(pred, self.permissions@[i]);
                let k = choose|k: int| 0 <= k < old(self).permissions@.len()
                    && old(self).permissions@[k] == self.permissions@[i];
                assert(old(self).has_user_id(old(self).permissions@[k].user_id));
            }
            assert forall|i: int| 0 <= i < self.permissions@.len()
                implies !grant_is(#[trigger] self.permissions@[i], user_id, site@, permission@) by {
                old(self).permissions@.lemma_filter_pred(pred, i);
            }
        }
        Ok(())
    }

    /// The hydrated `Permission` values of one user, in grant insertion
    /// order.
    pub fn get_user_permissions(&self, user_id: i64) -> (r: Vec<Permission>)
        ensures
            r@ == self.spec_user_perms(user_id),
    {
        let ghost pred = |p: PermissionRow| p.user_id == user_id;
        let ghost f = |p: PermissionRow| Permission { site: p.site, permission: p.permission };
        let mut out: Vec<Permission> = Vec::new();
        let mut i: usize = 0;
        while i < self.permissions.len()
            invariant
                i <= self.permissions@.len(),
                out@ == self.permissions@.take(i as int).filter(pred).map_values(f),
                pred == (|p: PermissionRow| p.user_id == user_id),
                f == (|p: PermissionRow| Permission { site: p.site, permission: p.permission }),
            decreases self.permissions@.len() - i,
        {
            let p = &self.permissions[i];
            proof {
                lemma_filter_take_step(self.permissions@, pred, i as int);
            }
            if p.user_id == user_id {
                let item = Permission {
                    site: p.site.clone(),
                    permission: p.permission.clone(),
                };
                assert(item == f(self.permissions@[i as int]));
                out.push(item);
                assert(out@ =~= self.permissions@.take(i + 1 as int).filter(pred).map_values(f));
            } else {
                assert(out@ =~= self.permissions@.take(i + 1 as int).filter(pred).map_values(f));
            }
            i = i + 1;
        }
        proof {
            lemma_filter_take_all(self.permissions@, pred);
        }
        out
    }
}

impl Database {
    /// What credential verification returns, as a function of the store and
    /// the supplied strings: `Ok(None)` both for an unknown username and for
    /// a failed check, so that callers cannot tell the two apart; an error
    /// only when the stored credential material itself is malformed.
    pub open spec fn spec_verify_credentials(self, username: Seq<char>, password: Seq<char>) -> Result<Option<i64>, Error> {
        if !self.has_username(username) {
            Ok(None)
        } else {
            let row = self.users@[self.user_idx_by_name(username)];
            if !salt_parses(row.password_salt@) {
                Err(Error::InvalidPasswordSalt)
            } else if !phc_parses(row.password_hash@) {
                Err(Error::InvalidPasswordHash)
            } else if pbkdf2_check(password, row.password_hash@) {
                Ok(Some(row.id))
            } else {
                Ok(None)
            }
        }
    }

    /// The stored credential material of one user: id, hash, salt and
    /// method, with the salt checked to still parse.
    pub(crate) fn get_user_password(&self, username: &str) -> (r: Result<(i64, String, String, String), Error>)
        requires
            self.wf(),
        ensures
            !self.has_username(username@) ==> r == Err::<(i64, String, String, String), Error>(Error::UserNotFound),
            self.has_username(username@) ==> {
                let row = self.users@[self.user_idx_by_name(username@)];
                if !salt_parses(row.password_salt@) {
                    r == Err::<(i64, String, String, String), Error>(Error::InvalidPasswordSalt)
                } else {
                    r matches Ok(t) && t.0 == row.id && t.1 == row.password_hash
                        && t.2 == row.password_salt && t.3 == row.password_method
                }
            },
    {
        let i = match self.find_user_index_by_name(username) {
            Some(i) => i,
            None => {
                return Err(Error::UserNotFound);
            },
        };
        proof {
            self.lemma_user_idx_by_name(i as int);
        }
        let row = &self.users[i];
        if !salt_is_valid(row.password_salt.as_str()) {
            return Err(Error::InvalidPasswordSalt);
        }
        Ok((
            row.id,
            row.password_hash.clone(),
            row.password_salt.clone(),
            row.password_method.clone(),
        ))
    }

    /// Verify a username/password pair against the stored credential.
    /// Returns the user id on a match and `None` both for an unknown
    /// username and for a failed check.
    pub fn verify_credentials(&self, username: &str, password: &str) -> (r: Result<Option<i64>, Error>)
        requires
            self.wf(),
        ensures
            r == self.spec_verify_credentials(username@, password@),
    {
        let (user_id, password_hash, password_salt, password_method) =
            match self.get_user_password(username) {
                Ok(t) => t,
                Err(Error::UserNotFound) => {
                    return Ok(None);
                },
                Err(e) => {
                    return Err(e);
                },
            };
        match Database::verify_password(
            password,
            password_hash.as_str(),
            password_salt.as_str(),
            password_method.as_str(),
        ) {
            Ok(true) => Ok(Some(user_id)),
            Ok(false) => Ok(None),
            Err(e) => Err(e),
        }
    }

    /// The fully hydrated user with this id.
    pub fn get_user_by_id(&mut self, user_id: i64) -> (r: Result<User, Error>)
        requires
            old(self).wf(),
        ensures
            *final(self) == *old(self),
            !old(self).has_user_id(user_id) ==> r == Err::<User, Error>(Error::UserNotFound),
            old(self).has_user_id(user_id) ==> (r matches Ok(u)
                && old(self).is_user_view(old(self).user_idx_by_id(user_id), u)),
    {
        let i = match self.find_user_index_by_id(user_id) {
            Some(i) => i,
            None => {
                return Err(Error::UserNotFound);
            },
        };
        proof {
            self.lemma_user_idx_by_id(i as int);
        }
        let row = &self.users[i];
        Ok(User {
            id: row.id,
            username: row.username.clone(),
            permissions: self.get_user_permissions(row.id),
        })
    }

    /// The fully hydrated user with this username.
    pub fn get_user_by_username(&self, username: &str) -> (r: Result<User, Error>)
        requires
            self.wf(),
        ensures
            !self.has_username(username@) ==> r == Err::<User, Error>(Error::UserNotFound),
            self.has_username(username@) ==> (r matches Ok(u)
                && self.is_user_view(self.user_idx_by_name(username@), u)),
    {
        let i = match self.find_user_index_by_name(username) {
            Some(i) => i,
            None => {
                return Err(Error::UserNotFound);
            },
        };
        proof {
            self.lemma_user_idx_by_name(i as int);
        }
        let row = &self.users[i];
        Ok(User {
            id: row.id,
            username: row.username.clone(),
            permissions: self.get_user_permissions(row.id),
        })
    }

    /// All users, fully hydrated, in insertion order.
    pub fn list_users(&mut self) -> (r: Result<Vec<User>, Error>)
        requires
            old(self).wf(),
        ensures
            *final(self) == *old(self),
            r matches Ok(v) && v@.len() == old(self).users@.len()
                && forall|i: int| 0 <= i < v@.len() ==> old(self).is_user_view(i, #[trigger] v@[i]),
    {
        let mut out: Vec<User> = Vec::new();
        let mut i: usize = 0;
        while i < self.users.len()
            invariant
                *self == *old(self),
                self.wf(),
                i <= self.users@.len(),
                out@.len() == i,
                forall|k: int| 0 <= k < i ==> self.is_user_view(k, #[trigger] out@[k]),
            decreases self.users@.len() - i,
        {
            let row = &self.users[i];
            let user = User {
                id: row.id,
                username: row.username.clone(),
                permissions: self.get_user_permissions(row.id),
            };
            out.push(user);
            i = i + 1;
        }
        Ok(out)
    }

    /// Delete a user by username, cascading to the user's sessions and
    /// grants so that no orphaned row remains; an unknown username is a
    /// silent no-op.
    pub fn delete_user_by_username(&mut self, username: &str) -> (r: Result<(), Error>)
        requires
            old(self).wf(),
        ensures
            final(self).wf(),
            r == Ok::<(), Error>(()),
            !old(self).has_username(username@) ==> *final(self) == *old(self),
            old(self).has_username(username@) ==> {
                let idx = old(self).user_idx_by_name(username@);
                let uid = old(self).users@[idx].id;
                &&& final(self).users@ == old(self).users@.remove(idx)
                &&& final(self).sessions@ == old(self).sessions@.filter(|s: SessionRow| s.user_id != uid)
                &&& final(self).permissions@ == old(self).permissions@.filter(|p: PermissionRow| p.user_id != uid)
                &&& final(self).next_user_id == old(self).next_user_id
                &&& !final(self).has_user_id(uid)
                &&& !final(self).has_username(username@)
            },
    {
        let i = match self.find_user_index_by_name(username) {
            Some(i) => i,
            None => {
                return Ok(());
            },
        };
        proof {
            self.lemma_user_idx_by_name(i as int);
        }
        let user_id = self.users[i].id;
        self.users.remove(i);
        self.retain_sessions_not_of(user_id);
        self.retain_permissions_not_of(user_id);
        proof {
            old(self).lemma_delete_user_wf(i as int, *self);
        }
        Ok(())
    }

    /// Drop every session row of one user, keeping the rest in order.
    fn retain_sessions_not_of(&mut self, user_id: i64)
        ensures
            final(self).sessions@ == old(self).sessions@.filter(|s: SessionRow| s.user_id != user_id),
            final(self).users == old(self).users,
            final(self).permissions == old(self).permissions,
            final(self).next_user_id == old(self).next_user_id,
    {
        let ghost pred = |s: SessionRow| s.user_id != user_id;
        let mut kept: Vec<SessionRow> = Vec::new();
        let mut i: usize = 0;
        while i < self.sessions.len()
            invariant
                *self == *old(self),
                i <= self.sessions@.len(),
                kept@ == self.sessions@.take(i as int).filter(pred),
                pred == (|s: SessionRow| s.user_id != user_id),
            decreases self.sessions@.len() - i,
        {
            let s = &self.sessions[i];
            proof {
                lemma_filter_take_step(self.sessions@, pred, i as int);
            }
            if s.user_id != user_id {
                let copy = clone_session_row(s);
                assert(copy == self.sessions@[i as int]);
                kept.push(copy);
            }
            i = i + 1;
        }
        proof {
            lemma_filter_take_all(self.sessions@, pred);
        }
        self.sessions = kept;
    }

    /// Drop every grant row of one user, keeping the rest in order.
    fn retain_permissions_not_of(&mut self, user_id: i64)
        ensures
            final(self).permissions@ == old(self).permissions@.filter(|p: PermissionRow| p.user_id != user_id),
            final(self).users == old(self).users,
            final(self).sessions == old(self).sessions,
            final(self).next_user_id == old(self).next_user_id,
    {
        let ghost pred = |p: PermissionRow| p.user_id != user_id;
        let mut kept: Vec<PermissionRow> = Vec::new();
        let mut i: usize = 0;
        while i < self.permissions.len()
            invariant
                *self == *old(self),
                i <= self.permissions@.len(),
                kept@ == self.permissions@.take(i as int).filter(pred),
                pred == (|p: PermissionRow| p.user_id != user_id),
            decreases self.permissions@.len() - i,
        {
            let p = &self.permissions[i];
            proof {
                lemma_filter_take_step(self.permissions@, pred, i as int);
            }
            if p.user_id != user_id {
                let copy = PermissionRow {
                    user_id: p.user_id,
                    site: p.site.clone(),
                    permission: p.permission.clone(),
                };
                assert(copy == self.permissions@[i as int]);
                kept.push(copy);
            }
            i = i + 1;
        }
        proof {
            lemma_filter_take_all(self.permissions@, pred);
        }
        self.permissions = kept;
    }

    /// After removing the user row at `idx` and filtering out that user's
    /// session and grant rows, the store invariants hold again.
    proof fn lemma_delete_user_wf(self, idx: int, post: Database)
        requires
            self.wf(),
            0 <= idx < self.users@.len(),
            post.users@ == self.users@.remove(idx),
            post.sessions@ == self.sessions@.filter(|s: SessionRow| s.user_id != self.users@[idx].id),
            post.permissions@ == self.permissions@.filter(|p: PermissionRow| p.user_id != self.users@[idx].id),
            post.next_user_id == self.next_user_id,
        ensures
            post.wf(),
            !post.has_user_id(self.users@[idx].id),
            !post.has_username(self.users@[idx].username@),
    {
        let uid = self.users@[idx].id;
        let uname = self.users@[idx].username@;
        let spred = |s: SessionRow| s.user_id != uid;
        let ppred = |p: PermissionRow| p.user_id != uid;
        assert(post.users@.len() == self.users@.len() - 1);
        assert forall|m: int| 0 <= m < post.users@.len()
            implies #[trigger] post.users@[m] == if m < idx { self.users@[m] } else { self.users@[m + 1] } by {
        }
        assert forall|m: int| 0 <= m < post.users@.len()
            implies (#[trigger] post.users@[m]).id != uid && post.users@[m].username@ != uname by {
            if m < idx {
                assert(self.users@[m].id != self.users@[idx].id);
                assert(self.users@[m].username@ != self.users@[idx].username@);
            } else {
                assert(self.users@[idx].id != self.users@[m + 1].id);
                assert(self.users@[idx].username@ != self.users@[m + 1].username@);
            }
        }
        lemma_filter_preserves_pairwise(
            self.sessions@,
            spred,
            |a: SessionRow, b: SessionRow| a.session_token@ == b.session_token@,
        );
        lemma_filter_preserves_pairwise(
            self.permissions@,
            ppred,
            |a: PermissionRow, b: PermissionRow| same_grant(a, b),
        );
        assert forall|k: int| 0 <= k < post.sessions@.len()
            implies post.has_user_id((#[trigger] post.sessions@[k]).user_id) by {
            self.sessions@.lemma_filter_pred(spred, k);
            self.sessions@.lemma_filter_contains_rev(spred, post.sessions@[k]);
            let sid = post.sessions@[k].user_id;
            assert(self.has_user_id(sid));
            let w = choose|w: int| 0 <= w < self.users@.len() && (#[trigger] self.users@[w]).id == sid;
            assert(w != idx);
            if w < idx {
                assert(post.users@[w].id == sid);
            } else {
                assert(post.users@[w - 1].id == sid);
            }
        }
        assert forall|k: int| 0 <= k < post.permissions@.len()
            implies post.has_user_id((#[trigger] post.permissions@[k]).user_id) by {
            self.permissions@.lemma_filter_pred(ppred, k);
            self.permissions@.lemma_filter_contains_rev(ppred, post.permissions@[k]);
            let pid = post.permissions@[k].user_id;
            assert(self.has_user_id(pid));
            let w = choose|w: int| 0 <= w < self.users@.len() && (#[trigger] self.users@[w]).id == pid;
            assert(w != idx);
            if w < idx {
                assert(post.users@[w].id == pid);
            } else {
                assert(post.users@[w - 1].id == pid);
            }
        }
    }
}

/// A freshly registered user's credentials verify: in any store whose last
/// user row carries this username, this id, and credential material whose
/// stored check accepts the password — exactly what registration ensures —
/// checking that username and password yields that id.
pub proof fn lemma_created_user_verifies(
    db: Database,
    username: Seq<char>,
    password: Seq<char>,
    id: i64,
)
    requires
        db.wf(),
        db.users@.len() > 0,
        ({
            let row = db.users@.last();
            &&& row.username@ == username
            &&& row.id == id
            &&& salt_parses(row.password_salt@)
            &&& phc_parses(row.password_hash@)
            &&& pbkdf2_check(password, row.password_hash@)
        }),
    ensures
        db.spec_verify_credentials(username, password) == Ok::<Option<i64>, Error>(Some(id)),
{
    db.lemma_user_idx_by_name(db.users@.len() - 1);
}

/// A password the stored check rejects is turned away: verification
/// returns `None`, not an id. (Any password other than the registered one
/// is rejected unless the key-derivation function collides on it, which
/// no contract here claims impossible.)
pub proof fn lemma_wrong_password_rejected(db: Database, username: Seq<char>, password: Seq<char>)
    requires
        db.wf(),
        db.has_username(username),
        ({
            let row = db.users@[db.user_idx_by_name(username)];
            &&& salt_parses(row.password_salt@)
            &&& phc_parses(row.password_hash@)
            &&& !pbkdf2_check(password, row.password_hash@)
        }),
    ensures
        db.spec_verify_credentials(username, password) == Ok::<Option<i64>, Error>(None),
{
}

/// A grant triple occupies at most one row: two rows carrying the same
/// (user, site, permission) are one and the same. Hence granting twice
/// leaves exactly one row — the second insert finds the triple present and
/// changes nothing.
pub proof fn lemma_grant_row_unique(
    db: Database,
    user_id: i64,
    site: Seq<char>,
    permission: Seq<char>,
    i: int,
    j: int,
)
    requires
        db.wf(),
        0 <= i < db.permissions@.len(),
        0 <= j < db.permissions@.len(),
        grant_is(db.permissions@[i], user_id, site, permission),
        grant_is(db.permissions@[j], user_id, site, permission),
    ensures
        i == j,
{
    if i < j {
        assert(!same_grant(db.permissions@[i], db.permissions@[j]));
    } else if j < i {
        assert(!same_grant(db.permissions@[j], db.permissions@[i]));
    }
}

/// No orphaned rows are reachable: while the store invariants hold, every
/// session row and every grant row resolves to an existing user; once a
/// user id is gone — as after the cascading delete — no session or grant
/// row carries it.
pub proof fn lemma_no_orphan_rows(db: Database, user_id: i64)
    requires
        db.wf(),
        !db.has_user_id(user_id),
    ensures
        forall|i: int| 0 <= i < db.sessions@.len()
            ==> (#[trigger] db.sessions@[i]).user_id != user_id,
        forall|i: int| 0 <= i < db.permissions@.len()
            ==> (#[trigger] db.permissions@[i]).user_id != user_id,
{
}

/// Copy a session row field by field, keeping the value.
pub(crate) fn clone_session_row(s: &SessionRow) -> (r: SessionRow)
    ensures
        r == *s,
{
    SessionRow {
        user_id: s.user_id,
        session_token: s.session_token.clone(),
        expiry_date: s.expiry_date,
        created_at: s.created_at,
        last_used_at: s.last_used_at,
        track: crate::clone_track(&s.track),
    }
}

} // verus!
