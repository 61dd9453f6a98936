//! The user, repository and key store: an in-memory model of the
//! relational rows the forge keeps, with the lookups the transports need.

use vstd::prelude::*;
use crate::access::{spec_decide, AccessMode, Decision, decide};
use crate::text::str_eq;
use crate::crypto::{bcrypt_verify, bcrypt_verify_of};
use crate::types::{Login, NewSshKey, NewUser, Repo, SshKey};

verus! {

/// A stored user row.
pub struct User {
    pub id: i32,
    pub username: String,
    pub password: String,
    pub email: String,
    pub num_repos: i64,
}

/// A stored repository row: metadata plus the bookkeeping columns.
pub struct RepoRow {
    pub id: i64,
    pub repo: Repo,
    pub last_updated: i64,
}

/// The store: users, repositories and SSH keys, with the counters that
/// assign fresh row ids.
pub struct Store {
    pub users: Vec<User>,
    pub repos: Vec<RepoRow>,
    pub keys: Vec<SshKey>,
    pub next_user_id: i32,
    pub next_repo_id: i64,
    pub next_key_id: i32,
}

/// The user rows are well-formed: ids below the counter, ids and
/// usernames pairwise distinct.
pub open spec fn users_wf(us: Seq<User>, next: i32) -> bool {
    &&& forall|i: int| 0 <= i < us.len() ==> (#[trigger] us[i]).id < next
    &&& forall|i: int, j: int|
        0 <= i < j < us.len() ==> (#[trigger] us[i]).id != (#[trigger] us[j]).id
    &&& forall|i: int, j: int|
        0 <= i < j < us.len() ==> (#[trigger] us[i]).username@ != (#[trigger] us[j]).username@
}

/// The repository rows are well-formed: ids below the counter, ids and
/// `(owner, name)` pairs pairwise distinct.
pub open spec fn repos_wf(rs: Seq<RepoRow>, next: i64) -> bool {
    &&& forall|i: int| 0 <= i < rs.len() ==> (#[trigger] rs[i]).id < next
    &&& forall|i: int, j: int|
        0 <= i < j < rs.len() ==> (#[trigger] rs[i]).id != (#[trigger] rs[j]).id
    &&& forall|i: int, j: int|
        0 <= i < j < rs.len() ==> !((#[trigger] rs[i]).repo.owner == (#[trigger] rs[j]).repo.owner
            && rs[i].repo.name@ == rs[j].repo.name@)
}

/// The key rows are well-formed: ids below the counter and pairwise
/// distinct.
pub open spec fn keys_wf(ks: Seq<SshKey>, next: i32) -> bool {
    &&& forall|i: int| 0 <= i < ks.len() ==> (#[trigger] ks[i]).id < next
    &&& forall|i: int, j: int|
        0 <= i < j < ks.len() ==> (#[trigger] ks[i]).id != (#[trigger] ks[j]).id
}

impl Store {
    /// Well-formedness: ids are unique and below their counter, usernames
    /// are unique, and a repository's `(owner, name)` pair is unique.
    pub open spec fn wf(self) -> bool {
        &&& users_wf(self.users@, self.next_user_id)
        &&& repos_wf(self.repos@, self.next_repo_id)
        &&& keys_wf(self.keys@, self.next_key_id)
    }

    /// A user with this username exists.
    pub open spec fn spec_has_user(self, name: Seq<char>) -> bool {
        exists|i: int|
            0 <= i < self.users@.len() && (#[trigger] self.users@[i]).username@ == name
    }

    /// The index of the user with this username.
    pub open spec fn spec_user_index(self, name: Seq<char>) -> int {
        choose|i: int|
            0 <= i < self.users@.len() && (#[trigger] self.users@[i]).username@ == name
    }

    /// The id of the user with this username, if any.
    pub open spec fn spec_user_id(self, name: Seq<char>) -> Option<i32> {
        if self.spec_has_user(name) {
            Option::Some(self.users@[self.spec_user_index(name)].id)
        } else {
            Option::None
        }
    }

    /// A user with this id exists.
    pub open spec fn spec_has_user_id(self, id: i32) -> bool {
        exists|i: int| 0 <= i < self.users@.len() && (#[trigger] self.users@[i]).id == id
    }

    /// The index of the user with this id.
    pub open spec fn spec_user_id_index(self, id: i32) -> int {
        choose|i: int| 0 <= i < self.users@.len() && (#[trigger] self.users@[i]).id == id
    }

    /// A repository named `name` owned by the user with id `oid` exists.
    pub open spec fn spec_has_repo(self, oid: i32, name: Seq<char>) -> bool {
        exists|i: int|
            0 <= i < self.repos@.len() && (#[trigger] self.repos@[i]).repo.owner == oid
                && self.repos@[i].repo.name@ == name
    }

    /// The index of that repository row.
    pub open spec fn spec_repo_index(self, oid: i32, name: Seq<char>) -> int {
        choose|i: int|
            0 <= i < self.repos@.len() && (#[trigger] self.repos@[i]).repo.owner == oid
                && self.repos@[i].repo.name@ == name
    }

    /// The repository's `private` flag, if owner and repository exist.
    pub open spec fn spec_repo_private(self, oid: i32, name: Seq<char>) -> Option<bool> {
        if self.spec_has_repo(oid, name) {
            Option::Some(self.repos@[self.spec_repo_index(oid, name)].repo.private)
        } else {
            Option::None
        }
    }

    /// The store's two answers that the decision rule consumes, for an
    /// owner given by username: the owner's id if the owner exists, and
    /// the `private` flag if the repository exists under that owner.
    pub open spec fn spec_lookup_private(self, owner: Seq<char>, name: Seq<char>) -> Option<
        bool,
    > {
        match self.spec_user_id(owner) {
            Option::None => Option::None,
            Option::Some(oid) => self.spec_repo_private(oid, name),
        }
    }

    /// The repository named `name` under the owner named `owner` exists.
    pub open spec fn spec_repo_exists(self, owner: Seq<char>, name: Seq<char>) -> bool {
        match self.spec_user_id(owner) {
            Option::None => false,
            Option::Some(oid) => self.spec_has_repo(oid, name),
        }
    }

    /// The `last_updated` column of that repository row.
    pub open spec fn spec_last_updated(self, owner: Seq<char>, name: Seq<char>) -> Option<
        i64,
    > {
        match self.spec_user_id(owner) {
            Option::None => Option::None,
            Option::Some(oid) => if self.spec_has_repo(oid, name) {
                Option::Some(self.repos@[self.spec_repo_index(oid, name)].last_updated)
            } else {
                Option::None
            },
        }
    }

    /// A key with this id exists.
    pub open spec fn spec_has_key(self, id: i32) -> bool {
        exists|i: int| 0 <= i < self.keys@.len() && (#[trigger] self.keys@[i]).id == id
    }

    /// The index of the key with this id.
    pub open spec fn spec_key_index(self, id: i32) -> int {
        choose|i: int| 0 <= i < self.keys@.len() && (#[trigger] self.keys@[i]).id == id
    }

    /// The id of the user owning the key with this id, if any.
    pub open spec fn spec_key_owner(self, id: i32) -> Option<i32> {
        if self.spec_has_key(id) {
            Option::Some(self.keys@[self.spec_key_index(id)].owner)
        } else {
            Option::None
        }
    }

    /// Look up a user's id by username.
    pub fn user_id(&self, username: &str) -> (r: Option<i32>)
        requires
            self.wf(),
        ensures
            r == self.spec_user_id(username@),
    {
        let n = self.users.len();
        let mut i: usize = 0;
        while i < n
            invariant
                self.wf(),
                n == self.users@.len(),
                i <= n,
                forall|j: int| 0 <= j < i ==> (#[trigger] self.users@[j]).username@
                    != username@,
            decreases n - i,
        {
            if str_eq(self.users[i].username.as_str(), username) {
                proof {
                    assert(self.spec_has_user(username@));
                    let k = self.spec_user_index(username@);
                    assert(self.users@[k].username@ == username@);
                    if k != i {
                        assert(self.users@[k].username@ != self.users@[i as int].username@);
                        assert(false);
                    }
                }
                return Some(self.users[i].id);
            }
            i += 1;
        }
        proof {
            if self.spec_has_user(username@) {
                let k = self.spec_user_index(username@);
                assert(self.users@[k].username@ == username@);
                assert(false);
            }
        }
        None
    }

    /// Look up a user's username by id.
    pub fn user_name(&self, id: i32) -> (r: Option<String>)
        requires
            self.wf(),
        ensures
            r matches Some(name) ==> self.spec_has_user_id(id)
                && name@ == self.users@[self.spec_user_id_index(id)].username@,
            r is None ==> !self.spec_has_user_id(id),
    {
        let n = self.users.len();
        let mut i: usize = 0;
        while i < n
            invariant
                self.wf(),
                n == self.users@.len(),
                i <= n,
                forall|j: int| 0 <= j < i ==> (#[trigger] self.users@[j]).id != id,
            decreases n - i,
        {
            if self.users[i].id == id {
                proof {
                    assert(self.spec_has_user_id(id));
                    let k = self.spec_user_id_index(id);
                    assert(self.users@[k].id == id);
                    if k != i {
                        assert(self.users@[k].id != self.users@[i as int].id);
                        assert(false);
                    }
                }
                return Some(self.users[i].username.clone());
            }
            i += 1;
        }
        proof {
            if self.spec_has_user_id(id) {
                let k = self.spec_user_id_index(id);
                assert(self.users@[k].id == id);
                assert(false);
            }
        }
        None
    }

    /// Whether a user with this username exists.
    pub fn user_exists(&self, username: &str) -> (r: bool)
        requires
            self.wf(),
        ensures
            r == self.spec_has_user(username@),
    {
        self.user_id(username).is_some()
    }

    /// The index of the repository row for `(oid, name)`, if it exists.
    fn repo_row_index(&self, oid: i32, name: &str) -> (r: Option<usize>)
        requires
            self.wf(),
        ensures
            r matches Some(i) ==> self.spec_has_repo(oid, name@) && i == self.spec_repo_index(
                oid,
                name@,
            ),
            r is None ==> !self.spec_has_repo(oid, name@),
    {
        let n = self.repos.len();
        let mut i: usize = 0;
        while i < n
            invariant
                self.wf(),
                n == self.repos@.len(),
                i <= n,
                forall|j: int| 0 <= j < i ==> !((#[trigger] self.repos@[j]).repo.owner == oid
                    && self.repos@[j].repo.name@ == name@),
            decreases n - i,
        {
            if self.repos[i].repo.owner == oid && str_eq(self.repos[i].repo.name.as_str(), name) {
                proof {
                    assert(self.spec_has_repo(oid, name@));
                    let k = self.spec_repo_index(oid, name@);
                    assert(self.repos@[k].repo.owner == oid && self.repos@[k].repo.name@
                        == name@);
                    if k != i {
                        assert(!(self.repos@[k].repo.owner == self.repos@[i as int].repo.owner
                            && self.repos@[k].repo.name@ == self.repos@[i as int].repo.name@));
                        assert(false);
                    }
                }
                return Some(i);
            }
            i += 1;
        }
        proof {
            if self.spec_has_repo(oid, name@) {
                let k = self.spec_repo_index(oid, name@);
                assert(self.repos@[k].repo.owner == oid && self.repos@[k].repo.name@ == name@);
                assert(false);
            }
        }
        None
    }

    /// Look up a repository's row id; `None` when the owner or the
    /// repository does not exist.
    pub fn repo_id(&self, username: &str, reponame: &str) -> (r: Option<i64>)
        requires
            self.wf(),
        ensures
            r is Some <==> self.spec_repo_exists(username@, reponame@),
            r matches Some(id) ==> id == self.repos@[self.spec_repo_index(
                self.spec_user_id(username@).unwrap(),
                reponame@,
            )].id,
    {
        match self.user_id(username) {
            None => None,
            Some(oid) => match self.repo_row_index(oid, reponame) {
                None => None,
                Some(i) => Some(self.repos[i].id),
            },
        }
    }

    /// Whether the repository exists under that owner.
    pub fn repo_exists(&self, username: &str, reponame: &str) -> (r: bool)
        requires
            self.wf(),
        ensures
            r == self.spec_repo_exists(username@, reponame@),
    {
        self.repo_id(username, reponame).is_some()
    }

    /// The repository's `private` flag; a missing repository reads as
    /// private, and a missing owner as no answer at all.
    pub fn repo_is_private(&self, username: &str, reponame: &str) -> (r: Option<bool>)
        requires
            self.wf(),
        ensures
            r == match self.spec_user_id(username@) {
                Option::None => Option::<bool>::None,
                Option::Some(oid) => match self.spec_repo_private(oid, reponame@) {
                    Option::None => Option::Some(true),
                    Option::Some(p) => Option::Some(p),
                },
            },
    {
        match self.user_id(username) {
            None => None,
            Some(oid) => match self.repo_row_index(oid, reponame) {
                None => Some(true),
                Some(i) => Some(self.repos[i].repo.private),
            },
        }
    }

    /// Look up the repository's metadata.
    pub fn repo(&self, username: &str, reponame: &str) -> (r: Option<Repo>)
        requires
            self.wf(),
        ensures
            r is Some <==> self.spec_repo_exists(username@, reponame@),
            r matches Some(rep) ==> ({
                let row = self.repos@[self.spec_repo_index(
                    self.spec_user_id(username@).unwrap(),
                    reponame@,
                )];
                rep.name@ == row.repo.name@ && rep.description@ == row.repo.description@
                    && rep.owner == row.repo.owner && rep.private == row.repo.private
            }),
    {
        match self.user_id(username) {
            None => None,
            Some(oid) => match self.repo_row_index(oid, reponame) {
                None => None,
                Some(i) => Some(
                    Repo {
                        name: self.repos[i].repo.name.clone(),
                        description: self.repos[i].repo.description.clone(),
                        owner: self.repos[i].repo.owner,
                        private: self.repos[i].repo.private,
                    },
                ),
            },
        }
    }

    /// Resolve an SSH key id to the id of the user owning the key.
    pub fn user_by_key_id(&self, id: i32) -> (r: Option<i32>)
        requires
            self.wf(),
        ensures
            r == self.spec_key_owner(id),
    {
        let n = self.keys.len();
        let mut i: usize = 0;
        while i < n
            invariant
                self.wf(),
                n == self.keys@.len(),
                i <= n,
                forall|j: int| 0 <= j < i ==> (#[trigger] self.keys@[j]).id != id,
            decreases n - i,
        {
            if self.keys[i].id == id {
                proof {
                    assert(self.spec_has_key(id));
                    let k = self.spec_key_index(id);
                    assert(self.keys@[k].id == id);
                    if k != i {
                        assert(self.keys@[k].id != self.keys@[i as int].id);
                        assert(false);
                    }
                }
                return Some(self.keys[i].owner);
            }
            i += 1;
        }
        proof {
            if self.spec_has_key(id) {
                let k = self.spec_key_index(id);
                assert(self.keys@[k].id == id);
                assert(false);
            }
        }
        None
    }

    /// Whether the user with this username owns the key with this id;
    /// `None` when the user does not exist.
    pub fn user_owns_key(&self, username: &str, id: i32) -> (r: Option<bool>)
        requires
            self.wf(),
        ensures
            r == match self.spec_user_id(username@) {
                Option::None => Option::<bool>::None,
                Option::Some(uid) => Option::Some(match self.spec_key_owner(id) {
                    Option::None => false,
                    Option::Some(o) => o == uid,
                }),
            },
    {
        match self.user_id(username) {
            None => None,
            Some(uid) => match self.user_by_key_id(id) {
                None => Some(false),
                Some(o) => Some(o == uid),
            },
        }
    }

    /// Whether the user with id `owner` owns a repository with this name.
    pub fn user_owns_repo(&self, owner: i32, reponame: &str) -> (r: bool)
        requires
            self.wf(),
        ensures
            r == self.spec_has_repo(owner, reponame@),
    {
        self.repo_row_index(owner, reponame).is_some()
    }

    /// Decide an access request against the store, as the decision rule
    /// says: identity is the caller's user id, or `None` for anonymous.
    pub fn decide_access(
        &self,
        identity: Option<i32>,
        owner: &str,
        reponame: &str,
        mode: AccessMode,
    ) -> (r: Decision)
        requires
            self.wf(),
        ensures
            r == spec_decide(
                identity,
                self.spec_user_id(owner@),
                self.spec_lookup_private(owner@, reponame@),
                mode,
            ),
    {
        let owner_id = self.user_id(owner);
        let repo_private = match owner_id {
            None => None,
            Some(oid) => match self.repo_row_index(oid, reponame) {
                None => None,
                Some(i) => Some(self.repos[i].repo.private),
            },
        };
        decide(identity, owner_id, repo_private, mode)
    }

    /// Check a login attempt: an unknown username fails outright, a
    /// known one is checked against its stored bcrypt hash. `None` only
    /// when the stored hash is malformed.
    pub fn check_login(&self, login: &Login) -> (r: Option<bool>)
        requires
            self.wf(),
        ensures
            !self.spec_has_user(login.username@) ==> r == Option::Some(false),
            self.spec_has_user(login.username@) ==> r == bcrypt_verify_of(
                login.password@,
                self.users@[self.spec_user_index(login.username@)].password@,
            ),
    {
        let n = self.users.len();
        let mut i: usize = 0;
        while i < n
            invariant
                self.wf(),
                n == self.users@.len(),
                i <= n,
                forall|j: int| 0 <= j < i ==> (#[trigger] self.users@[j]).username@
                    != login.username@,
            decreases n - i,
        {
            if str_eq(self.users[i].username.as_str(), login.username.as_str()) {
                proof {
                    assert(self.spec_has_user(login.username@));
                    let k = self.spec_user_index(login.username@);
                    assert(self.users@[k].username@ == login.username@);
                    if k != i {
                        assert(self.users@[k].username@ != self.users@[i as int].username@);
                        assert(false);
                    }
                }
                return bcrypt_verify(login.password.as_str(), self.users[i].password.as_str());
            }
            i += 1;
        }
        proof {
            if self.spec_has_user(login.username@) {
                let k = self.spec_user_index(login.username@);
                assert(self.users@[k].username@ == login.username@);
                assert(false);
            }
        }
        Some(false)
    }

    /// Set the repository's `last_updated` column to `now`, leaving every
    /// other row and column as it was. The caller bumps it after each
    /// write-mode operation that completed successfully, and only then.
    pub fn touch_repo(&mut self, username: &str, reponame: &str, now: i64)
        requires
            old(self).wf(),
            old(self).spec_repo_exists(username@, reponame@),
        ensures
            final(self).wf(),
            final(self).users == old(self).users,
            final(self).keys == old(self).keys,
            final(self).next_user_id == old(self).next_user_id,
            final(self).next_repo_id == old(self).next_repo_id,
            final(self).next_key_id == old(self).next_key_id,
            final(self).repos@.len() == old(self).repos@.len(),
            final(self).spec_last_updated(username@, reponame@) == Option::Some(now),
            forall|i: int|
                0 <= i < old(self).repos@.len() && i != old(self).spec_repo_index(
                    old(self).spec_user_id(username@).unwrap(),
                    reponame@,
                ) ==> final(self).repos@[i] == old(self).repos@[i],
            ({
                let k = old(self).spec_repo_index(
                    old(self).spec_user_id(username@).unwrap(),
                    reponame@,
                );
                final(self).repos@[k].id == old(self).repos@[k].id && final(self).repos@[k].repo
                    == old(self).repos@[k].repo && final(self).repos@[k].last_updated == now
            }),
    {
        let oid = self.user_id(username).unwrap();
        let i = self.repo_row_index(oid, reponame).unwrap();
        let row = self.repos.remove(i);
        let updated = RepoRow { id: row.id, repo: row.repo, last_updated: now };
        self.repos.insert(i, updated);
        proof {
            let s0 = *old(self);
            let k = s0.spec_repo_index(s0.spec_user_id(username@).unwrap(), reponame@);
            assert(k == i);
            assert(self.users@ == s0.users@);
            assert(self.keys@ == s0.keys@);
            assert(forall|j: int|
                0 <= j < s0.repos@.len() && j != k ==> self.repos@[j] == s0.repos@[j]);
            lemma_user_lookup_unchanged(s0, *self, username@);
            lemma_repo_row_update(s0, *self, k, oid, reponame@);
            assert(self.users == s0.users);
            assert(self.keys == s0.keys);
        }
    }

    /// Add a signup to the store under a fresh id.
    pub fn create_user(&mut self, user: &NewUser)
        requires
            old(self).wf(),
            !old(self).spec_has_user(user.username@),
            old(self).next_user_id < i32::MAX,
        ensures
            final(self).wf(),
            final(self).users@.len() == old(self).users@.len() + 1,
            forall|i: int|
                0 <= i < old(self).users@.len() ==> final(self).users@[i] == old(
                    self,
                ).users@[i],
            final(self).users@.last().id == old(self).next_user_id,
            final(self).users@.last().username@ == user.username@,
            final(self).users@.last().password@ == user.password@,
            final(self).users@.last().email@ == user.email@,
            final(self).users@.last().num_repos == user.num_repos,
            final(self).next_user_id == old(self).next_user_id + 1,
            final(self).repos == old(self).repos,
            final(self).keys == old(self).keys,
            final(self).next_repo_id == old(self).next_repo_id,
            final(self).next_key_id == old(self).next_key_id,
    {
        let row = User {
            id: self.next_user_id,
            username: user.username.clone(),
            password: user.password.clone(),
            email: user.email.clone(),
            num_repos: user.num_repos,
        };
        self.users.push(row);
        self.next_user_id = self.next_user_id + 1;
        proof {
            let s0 = *old(self);
            let us = self.users@;
            assert forall|i: int| 0 <= i < us.len() implies (#[trigger] us[i]).id
                < self.next_user_id by {
                if i < s0.users@.len() {
                    assert(us[i] == s0.users@[i]);
                }
            }
            assert forall|i: int, j: int| 0 <= i < j < us.len() implies (#[trigger] us[i]).id
                != (#[trigger] us[j]).id by {
                if j < s0.users@.len() {
                    assert(us[i] == s0.users@[i] && us[j] == s0.users@[j]);
                } else {
                    assert(us[i] == s0.users@[i]);
                }
            }
            assert forall|i: int, j: int| 0 <= i < j < us.len() implies (#[trigger] us[i]).username@ != (#[trigger] us[j]).username@ by {
                if j < s0.users@.len() {
                    assert(us[i] == s0.users@[i] && us[j] == s0.users@[j]);
                } else {
                    assert(us[i] == s0.users@[i]);
                    assert(!s0.spec_has_user(user.username@));
                }
            }
        }
    }

    /// Store a new SSH key under a fresh id and hand the stored row back.
    pub fn create_public_key(&mut self, key: &NewSshKey) -> (r: SshKey)
        requires
            old(self).wf(),
            old(self).next_key_id < i32::MAX,
        ensures
            final(self).wf(),
            final(self).keys@.len() == old(self).keys@.len() + 1,
            forall|i: int|
                0 <= i < old(self).keys@.len() ==> final(self).keys@[i] == old(self).keys@[i],
            final(self).keys@.last().id == old(self).next_key_id,
            final(self).keys@.last().owner == key.owner,
            final(self).keys@.last().name@ == key.name@,
            final(self).keys@.last().fingerprint@ == key.fingerprint@,
            final(self).keys@.last().content@ == key.content@,
            r.id == old(self).next_key_id,
            r.owner == key.owner,
            r.name@ == key.name@,
            r.fingerprint@ == key.fingerprint@,
            r.content@ == key.content@,
            final(self).next_key_id == old(self).next_key_id + 1,
            final(self).users == old(self).users,
            final(self).repos == old(self).repos,
            final(self).next_user_id == old(self).next_user_id,
            final(self).next_repo_id == old(self).next_repo_id,
    {
        let row = SshKey {
            id: self.next_key_id,
            owner: key.owner,
            name: key.name.clone(),
            fingerprint: key.fingerprint.clone(),
            content: key.content.clone(),
        };
        let copy = SshKey {
            id: self.next_key_id,
            owner: key.owner,
            name: key.name.clone(),
            fingerprint: key.fingerprint.clone(),
            content: key.content.clone(),
        };
        self.keys.push(row);
        self.next_key_id = self.next_key_id + 1;
        proof {
            let s0 = *old(self);
            let ks = self.keys@;
            assert forall|i: int| 0 <= i < ks.len() implies (#[trigger] ks[i]).id
                < self.next_key_id by {
                if i < s0.keys@.len() {
                    assert(ks[i] == s0.keys@[i]);
                }
            }
            assert forall|i: int, j: int| 0 <= i < j < ks.len() implies (#[trigger] ks[i]).id
                != (#[trigger] ks[j]).id by {
                if j < s0.keys@.len() {
                    assert(ks[i] == s0.keys@[i] && ks[j] == s0.keys@[j]);
                } else {
                    assert(ks[i] == s0.keys@[i]);
                }
            }
        }
        copy
    }

    /// Create a repository row under a fresh id, stamped with `now`, and
    /// count it against its owner.
    pub fn create_repo(&mut self, repo: &Repo, now: i64)
        requires
            old(self).wf(),
            old(self).next_repo_id < i64::MAX,
            !old(self).spec_has_repo(repo.owner, repo.name@),
            old(self).spec_has_user_id(repo.owner),
            old(self).users@[old(self).spec_user_id_index(repo.owner)].num_repos < i64::MAX,
        ensures
            final(self).wf(),
            final(self).repos@.len() == old(self).repos@.len() + 1,
            forall|i: int|
                0 <= i < old(self).repos@.len() ==> final(self).repos@[i] == old(
                    self,
                ).repos@[i],
            final(self).repos@.last().id == old(self).next_repo_id,
            final(self).repos@.last().repo.name@ == repo.name@,
            final(self).repos@.last().repo.description@ == repo.description@,
            final(self).repos@.last().repo.owner == repo.owner,
            final(self).repos@.last().repo.private == repo.private,
            final(self).repos@.last().last_updated == now,
            final(self).next_repo_id == old(self).next_repo_id + 1,
            final(self).keys == old(self).keys,
            final(self).next_user_id == old(self).next_user_id,
            final(self).next_key_id == old(self).next_key_id,
            final(self).users@.len() == old(self).users@.len(),
            forall|i: int|
                0 <= i < old(self).users@.len() && i != old(self).spec_user_id_index(
                    repo.owner,
                ) ==> final(self).users@[i] == old(self).users@[i],
            final(self).users@[old(self).spec_user_id_index(repo.owner)].num_repos == old(
                self,
            ).users@[old(self).spec_user_id_index(repo.owner)].num_repos + 1,
            final(self).users@[old(self).spec_user_id_index(repo.owner)].id == old(
                self,
            ).users@[old(self).spec_user_id_index(repo.owner)].id,
            final(self).users@[old(self).spec_user_id_index(repo.owner)].username@ == old(
                self,
            ).users@[old(self).spec_user_id_index(repo.owner)].username@,
    {
        let row = RepoRow {
            id: self.next_repo_id,
            repo: Repo {
                name: repo.name.clone(),
                description: repo.description.clone(),
                owner: repo.owner,
                private: repo.private,
            },
            last_updated: now,
        };
        self.repos.push(row);
        self.next_repo_id = self.next_repo_id + 1;
        proof {
            let s0 = *old(self);
            let rs = self.repos@;
            assert forall|i: int| 0 <= i < rs.len() implies (#[trigger] rs[i]).id
                < self.next_repo_id by {
                if i < s0.repos@.len() {
                    assert(rs[i] == s0.repos@[i]);
                }
            }
            assert forall|i: int, j: int| 0 <= i < j < rs.len() implies (#[trigger] rs[i]).id
                != (#[trigger] rs[j]).id by {
                if j < s0.repos@.len() {
                    assert(rs[i] == s0.repos@[i] && rs[j] == s0.repos@[j]);
                } else {
                    assert(rs[i] == s0.repos@[i]);
                }
            }
            assert forall|i: int, j: int| 0 <= i < j < rs.len() implies !((#[trigger] rs[i]).repo.owner == (#[trigger] rs[j]).repo.owner && rs[i].repo.name@
                == rs[j].repo.name@) by {
                if j < s0.repos@.len() {
                    assert(rs[i] == s0.repos@[i] && rs[j] == s0.repos@[j]);
                } else {
                    assert(rs[i] == s0.repos@[i]);
                    assert(!s0.spec_has_repo(repo.owner, repo.name@));
                }
            }
        }
        let k = self.user_index_by_id(repo.owner);
        let urow = self.users.remove(k);
        let updated = User {
            id: urow.id,
            username: urow.username,
            password: urow.password,
            email: urow.email,
            num_repos: urow.num_repos + 1,
        };
        self.users.insert(k, updated);
        proof {
            let s0 = *old(self);
            let us = self.users@;
            assert(forall|i: int|
                0 <= i < us.len() && i != k ==> us[i] == s0.users@[i]);
            assert(us[k as int].id == s0.users@[k as int].id);
            assert(us[k as int].username@ == s0.users@[k as int].username@);
            lemma_users_row_update(s0.users@, us, k as int, self.next_user_id);
        }
    }

    /// The position of the user row with this id.
    fn user_index_by_id(&self, id: i32) -> (r: usize)
        requires
            self.wf(),
            self.spec_has_user_id(id),
        ensures
            r == self.spec_user_id_index(id),
            r < self.users@.len(),
    {
        let n = self.users.len();
        let mut i: usize = 0;
        while i < n
            invariant
                self.wf(),
                self.spec_has_user_id(id),
                n == self.users@.len(),
                i <= n,
                forall|j: int| 0 <= j < i ==> (#[trigger] self.users@[j]).id != id,
            decreases n - i,
        {
            if self.users[i].id == id {
                proof {
                    let k = self.spec_user_id_index(id);
                    assert(self.users@[k].id == id);
                    if k != i {
                        assert(self.users@[k].id != self.users@[i as int].id);
                        assert(false);
                    }
                }
                return i;
            }
            i += 1;
        }
        proof {
            let k = self.spec_user_id_index(id);
            assert(self.users@[k].id == id);
            assert(false);
        }
        0
    }

    /// Keep only the keys that `filter_keys_keep` holds of. The one
    /// in-place pass every key-row removal shares.
    fn retain_keys(&mut self, id: i32, by_owner: bool)
        ensures
            forall|f: spec_fn(SshKey) -> bool|
                (forall|k: SshKey| #[trigger] f(k) == (if by_owner {
                    k.owner != id
                } else {
                    k.id != id
                })) ==> final(self).keys@ == #[trigger] spec_rows_where(old(self).keys@, f),
            final(self).users == old(self).users,
            final(self).repos == old(self).repos,
            final(self).next_user_id == old(self).next_user_id,
            final(self).next_repo_id == old(self).next_repo_id,
            final(self).next_key_id == old(self).next_key_id,
    {
        let ghost keep = |k: SshKey|
            if by_owner {
                k.owner != id
            } else {
                k.id != id
            };
        let ghost orig = self.keys@;
        let mut i: usize = self.keys.len();
        proof {
            assert(orig.subrange(i as int, orig.len() as int) =~= Seq::<SshKey>::empty());
            assert(self.keys@ =~= orig.subrange(0, i as int) + spec_rows_where(
                orig.subrange(i as int, orig.len() as int),
                keep,
            ));
        }
        while i > 0
            invariant
                i <= orig.len(),
                forall|k: SshKey| #[trigger] keep(k) == if by_owner {
                    k.owner != id
                } else {
                    k.id != id
                },
                self.keys@ == orig.subrange(0, i as int) + spec_rows_where(
                    orig.subrange(i as int, orig.len() as int),
                    keep,
                ),
                self.users == old(self).users,
                self.repos == old(self).repos,
                self.next_user_id == old(self).next_user_id,
                self.next_repo_id == old(self).next_repo_id,
                self.next_key_id == old(self).next_key_id,
            decreases i,
        {
            i = i - 1;
            let ghost pre = self.keys@;
            proof {
                let cur = orig.subrange(i as int, orig.len() as int);
                assert(cur[0] == orig[i as int]);
                assert(cur.drop_first() =~= orig.subrange(i + 1, orig.len() as int));
                assert(pre[i as int] == orig[i as int]);
                assert(spec_rows_where(cur, keep) == (if keep(cur[0]) {
                    seq![cur[0]]
                } else {
                    Seq::<SshKey>::empty()
                }) + spec_rows_where(cur.drop_first(), keep));
                assert(orig.subrange(0, i + 1) =~= orig.subrange(0, i as int).push(
                    orig[i as int],
                ));
            }
            let drop_row = if by_owner {
                self.keys[i].owner == id
            } else {
                self.keys[i].id == id
            };
            if drop_row {
                self.keys.remove(i);
            }
            proof {
                assert(self.keys@ =~= orig.subrange(0, i as int) + spec_rows_where(
                    orig.subrange(i as int, orig.len() as int),
                    keep,
                ));
            }
        }
        proof {
            assert(orig.subrange(0, orig.len() as int) =~= orig);
            assert(self.keys@ =~= spec_rows_where(orig, keep));
            assert forall|f: spec_fn(SshKey) -> bool|
                (forall|k: SshKey| #[trigger] f(k) == (if by_owner {
                    k.owner != id
                } else {
                    k.id != id
                })) implies self.keys@ == #[trigger] spec_rows_where(old(self).keys@, f) by {
                lemma_rows_where_congruence(old(self).keys@, keep, f);
            }
        }
    }

    /// Keep only the repository rows that survive the filter: those of
    /// another owner, or (unless the whole owner goes) those under
    /// another name.
    fn retain_repos(&mut self, oid: i32, name: Ghost<Seq<char>>, whole_owner: bool, n: &str)
        requires
            !whole_owner ==> name@ == n@,
        ensures
            forall|f: spec_fn(RepoRow) -> bool|
                (forall|r: RepoRow| #[trigger] f(r) == (if whole_owner {
                    r.repo.owner != oid
                } else {
                    !(r.repo.owner == oid && r.repo.name@ == name@)
                })) ==> final(self).repos@ == #[trigger] spec_rows_where(old(self).repos@, f),
            final(self).users == old(self).users,
            final(self).keys == old(self).keys,
            final(self).next_user_id == old(self).next_user_id,
            final(self).next_repo_id == old(self).next_repo_id,
            final(self).next_key_id == old(self).next_key_id,
    {
        let ghost keep = |r: RepoRow|
            if whole_owner {
                r.repo.owner != oid
            } else {
                !(r.repo.owner == oid && r.repo.name@ == name@)
            };
        let ghost orig = self.repos@;
        let mut i: usize = self.repos.len();
        proof {
            assert(orig.subrange(i as int, orig.len() as int) =~= Seq::<RepoRow>::empty());
            assert(self.repos@ =~= orig.subrange(0, i as int) + spec_rows_where(
                orig.subrange(i as int, orig.len() as int),
                keep,
            ));
        }
        while i > 0
            invariant
                i <= orig.len(),
                !whole_owner ==> name@ == n@,
                forall|r: RepoRow| #[trigger] keep(r) == if whole_owner {
                    r.repo.owner != oid
                } else {
                    !(r.repo.owner == oid && r.repo.name@ == name@)
                },
                self.repos@ == orig.subrange(0, i as int) + spec_rows_where(
                    orig.subrange(i as int, orig.len() as int),
                    keep,
                ),
                self.users == old(self).users,
                self.keys == old(self).keys,
                self.next_user_id == old(self).next_user_id,
                self.next_repo_id == old(self).next_repo_id,
                self.next_key_id == old(self).next_key_id,
            decreases i,
        {
            i = i - 1;
            let ghost pre = self.repos@;
            proof {
                let cur = orig.subrange(i as int, orig.len() as int);
                assert(cur[0] == orig[i as int]);
                assert(cur.drop_first() =~= orig.subrange(i + 1, orig.len() as int));
                assert(pre[i as int] == orig[i as int]);
                assert(spec_rows_where(cur, keep) == (if keep(cur[0]) {
                    seq![cur[0]]
                } else {
                    Seq::<RepoRow>::empty()
                }) + spec_rows_where(cur.drop_first(), keep));
                assert(orig.subrange(0, i + 1) =~= orig.subrange(0, i as int).push(
                    orig[i as int],
                ));
            }
            let drop_row = if whole_owner {
                self.repos[i].repo.owner == oid
            } else {
                self.repos[i].repo.owner == oid && str_eq(self.repos[i].repo.name.as_str(), n)
            };
            if drop_row {
                self.repos.remove(i);
            }
            proof {
                assert(self.repos@ =~= orig.subrange(0, i as int) + spec_rows_where(
                    orig.subrange(i as int, orig.len() as int),
                    keep,
                ));
            }
        }
        proof {
            assert(orig.subrange(0, orig.len() as int) =~= orig);
            assert(self.repos@ =~= spec_rows_where(orig, keep));
            assert forall|f: spec_fn(RepoRow) -> bool|
                (forall|r: RepoRow| #[trigger] f(r) == (if whole_owner {
                    r.repo.owner != oid
                } else {
                    !(r.repo.owner == oid && r.repo.name@ == name@)
                })) implies self.repos@ == #[trigger] spec_rows_where(old(self).repos@, f) by {
                lemma_rows_where_congruence(old(self).repos@, keep, f);
            }
        }
    }

    /// Keep only the user rows under another username.
    fn retain_users_not_named(&mut self, username: &str)
        ensures
            forall|f: spec_fn(User) -> bool|
                (forall|u: User| #[trigger] f(u) == (u.username@ != username@))
                    ==> final(self).users@ == #[trigger] spec_rows_where(old(self).users@, f),
            final(self).repos == old(self).repos,
            final(self).keys == old(self).keys,
            final(self).next_user_id == old(self).next_user_id,
            final(self).next_repo_id == old(self).next_repo_id,
            final(self).next_key_id == old(self).next_key_id,
    {
        let ghost keep = |u: User| u.username@ != username@;
        let ghost orig = self.users@;
        let mut i: usize = self.users.len();
        proof {
            assert(orig.subrange(i as int, orig.len() as int) =~= Seq::<User>::empty());
            assert(self.users@ =~= orig.subrange(0, i as int) + spec_rows_where(
                orig.subrange(i as int, orig.len() as int),
                keep,
            ));
        }
        while i > 0
            invariant
                i <= orig.len(),
                forall|u: User| #[trigger] keep(u) == (u.username@ != username@),
                self.users@ == orig.subrange(0, i as int) + spec_rows_where(
                    orig.subrange(i as int, orig.len() as int),
                    keep,
                ),
                self.repos == old(self).repos,
                self.keys == old(self).keys,
                self.next_user_id == old(self).next_user_id,
                self.next_repo_id == old(self).next_repo_id,
                self.next_key_id == old(self).next_key_id,
            decreases i,
        {
            i = i - 1;
            let ghost pre = self.users@;
            proof {
                let cur = orig.subrange(i as int, orig.len() as int);
                assert(cur[0] == orig[i as int]);
                assert(cur.drop_first() =~= orig.subrange(i + 1, orig.len() as int));
                assert(pre[i as int] == orig[i as int]);
                assert(spec_rows_where(cur, keep) == (if keep(cur[0]) {
                    seq![cur[0]]
                } else {
                    Seq::<User>::empty()
                }) + spec_rows_where(cur.drop_first(), keep));
                assert(orig.subrange(0, i + 1) =~= orig.subrange(0, i as int).push(
                    orig[i as int],
                ));
            }
            if str_eq(self.users[i].username.as_str(), username) {
                self.users.remove(i);
            }
            proof {
                assert(self.users@ =~= orig.subrange(0, i as int) + spec_rows_where(
                    orig.subrange(i as int, orig.len() as int),
                    keep,
                ));
            }
        }
        proof {
            assert(orig.subrange(0, orig.len() as int) =~= orig);
            assert(self.users@ =~= spec_rows_where(orig, keep));
            assert forall|f: spec_fn(User) -> bool|
                (forall|u: User| #[trigger] f(u) == (u.username@ != username@)) implies self
                .users@ == #[trigger] spec_rows_where(old(self).users@, f) by {
                lemma_rows_where_congruence(old(self).users@, keep, f);
            }
        }
    }

    /// Remove the key with this id; a missing id removes nothing.
    pub fn delete_public_key(&mut self, id: i32)
        requires
            old(self).wf(),
        ensures
            final(self).wf(),
            final(self).keys@ == spec_rows_where(old(self).keys@, (|k: SshKey| k.id != id)),
            final(self).users == old(self).users,
            final(self).repos == old(self).repos,
            final(self).next_user_id == old(self).next_user_id,
            final(self).next_repo_id == old(self).next_repo_id,
            final(self).next_key_id == old(self).next_key_id,
    {
        self.retain_keys(id, false);
        proof {
            let s0 = *old(self);
            let keep = |k: SshKey| k.id != id;
            let res = spec_rows_where(s0.keys@, keep);
            assert(self.keys@ =~= res);
            lemma_rows_where_member(s0.keys@, keep);
            lemma_rows_where_distinct(s0.keys@, keep, |k: SshKey| k.id);
            assert forall|j: int| 0 <= j < res.len() implies (#[trigger] res[j]).id
                < s0.next_key_id by {
                let w = choose|w: int| 0 <= w < s0.keys@.len() && res[j] == s0.keys@[w];
                assert(s0.keys@[w].id < s0.next_key_id);
            }
            assert forall|a: int, b: int| 0 <= a < b < res.len() implies (#[trigger] res[a]).id
                != (#[trigger] res[b]).id by {
                let kf = |k: SshKey| k.id;
                assert(kf(res[a]) != kf(res[b]));
            }
            assert(keys_wf(res, s0.next_key_id));
        }
    }

    /// Remove the repository `(owner-name, repo-name)` and count it off
    /// its owner; removing what is not there removes nothing.
    pub fn delete_repo(&mut self, username: &str, repo_name: &str)
        requires
            old(self).wf(),
            old(self).spec_has_user(username@),
            old(self).users@[old(self).spec_user_index(username@)].num_repos > i64::MIN,
        ensures
            final(self).wf(),
            final(self).repos@ == spec_rows_where(
                old(self).repos@,
                (|r: RepoRow| !(r.repo.owner == old(self).spec_user_id(username@).unwrap()
                    && r.repo.name@ == repo_name@)),
            ),
            final(self).keys == old(self).keys,
            final(self).next_user_id == old(self).next_user_id,
            final(self).next_repo_id == old(self).next_repo_id,
            final(self).next_key_id == old(self).next_key_id,
            final(self).users@.len() == old(self).users@.len(),
            forall|i: int|
                0 <= i < old(self).users@.len() && i != old(self).spec_user_index(username@)
                    ==> final(self).users@[i] == old(self).users@[i],
            final(self).users@[old(self).spec_user_index(username@)].num_repos == old(
                self,
            ).users@[old(self).spec_user_index(username@)].num_repos - 1,
            final(self).users@[old(self).spec_user_index(username@)].id == old(
                self,
            ).users@[old(self).spec_user_index(username@)].id,
            final(self).users@[old(self).spec_user_index(username@)].username@ == old(
                self,
            ).users@[old(self).spec_user_index(username@)].username@,
    {
        let oid = self.user_id(username).unwrap();
        let ghost gname = repo_name@;
        self.retain_repos(oid, Ghost(gname), false, repo_name);
        proof {
            let s0 = *old(self);
            let keep = |r: RepoRow| !(r.repo.owner == oid && r.repo.name@ == gname);
            let res = spec_rows_where(s0.repos@, keep);
            assert(self.repos@ =~= res);
            lemma_rows_where_member(s0.repos@, keep);
            lemma_rows_where_distinct(s0.repos@, keep, |r: RepoRow| r.id);
            lemma_rows_where_distinct(
                s0.repos@,
                keep,
                |r: RepoRow| (r.repo.owner, r.repo.name@),
            );
            assert forall|j: int| 0 <= j < res.len() implies (#[trigger] res[j]).id
                < s0.next_repo_id by {
                let w = choose|w: int| 0 <= w < s0.repos@.len() && res[j] == s0.repos@[w];
                assert(s0.repos@[w].id < s0.next_repo_id);
            }
            assert forall|a: int, b: int| 0 <= a < b < res.len() implies (#[trigger] res[a]).id
                != (#[trigger] res[b]).id by {
                let kf = |r: RepoRow| r.id;
                assert(kf(res[a]) != kf(res[b]));
            }
            assert forall|a: int, b: int| 0 <= a < b < res.len() implies !((#[trigger] res[a]).repo.owner == (#[trigger] res[b]).repo.owner && res[a].repo.name@
                == res[b].repo.name@) by {
                let kf = |r: RepoRow| (r.repo.owner, r.repo.name@);
                assert(kf(res[a]) != kf(res[b]));
            }
            assert(repos_wf(res, s0.next_repo_id));
        }
        let k = self.user_index_by_id(oid);
        let urow = self.users.remove(k);
        let updated = User {
            id: urow.id,
            username: urow.username,
            password: urow.password,
            email: urow.email,
            num_repos: urow.num_repos - 1,
        };
        self.users.insert(k, updated);
        proof {
            let s0 = *old(self);
            let us = self.users@;
            assert(forall|i: int| 0 <= i < us.len() && i != k ==> us[i] == s0.users@[i]);
            assert(us[k as int].id == s0.users@[k as int].id);
            assert(us[k as int].username@ == s0.users@[k as int].username@);
            lemma_users_row_update(s0.users@, us, k as int, self.next_user_id);
            let ui = s0.spec_user_index(username@);
            assert(s0.users@[ui].username@ == username@);
            if ui != k {
                assert(s0.users@[k as int].id == oid);
                assert(s0.users@[ui].id == oid);
                assert(s0.users@[ui].id != s0.users@[k as int].id);
                assert(false);
            }
        }
    }

    /// Remove a user with everything they own: their repositories, their
    /// keys, and their own row.
    pub fn delete_user(&mut self, username: &str)
        requires
            old(self).wf(),
            old(self).spec_has_user(username@),
        ensures
            final(self).wf(),
            final(self).repos@ == spec_rows_where(
                old(self).repos@,
                (|r: RepoRow| r.repo.owner != old(self).spec_user_id(username@).unwrap()),
            ),
            final(self).keys@ == spec_rows_where(
                old(self).keys@,
                (|k: SshKey| k.owner != old(self).spec_user_id(username@).unwrap()),
            ),
            final(self).users@ == spec_rows_where(
                old(self).users@,
                (|u: User| u.username@ != username@),
            ),
            final(self).next_user_id == old(self).next_user_id,
            final(self).next_repo_id == old(self).next_repo_id,
            final(self).next_key_id == old(self).next_key_id,
    {
        let oid = self.user_id(username).unwrap();
        self.retain_repos(oid, Ghost(Seq::empty()), true, "");
        self.retain_keys(oid, true);
        self.retain_users_not_named(username);
        proof {
            let s0 = *old(self);
            let keep_r = |r: RepoRow| r.repo.owner != oid;
            let keep_k = |k: SshKey| k.owner != oid;
            let keep_u = |u: User| u.username@ != username@;
            let res_r = spec_rows_where(s0.repos@, keep_r);
            let res_k = spec_rows_where(s0.keys@, keep_k);
            let res_u = spec_rows_where(s0.users@, keep_u);
            assert(self.repos@ =~= res_r);
            assert(self.keys@ =~= res_k);
            assert(self.users@ =~= res_u);
            lemma_rows_where_member(s0.repos@, keep_r);
            lemma_rows_where_distinct(s0.repos@, keep_r, |r: RepoRow| r.id);
            lemma_rows_where_distinct(
                s0.repos@,
                keep_r,
                |r: RepoRow| (r.repo.owner, r.repo.name@),
            );
            lemma_rows_where_member(s0.keys@, keep_k);
            lemma_rows_where_distinct(s0.keys@, keep_k, |k: SshKey| k.id);
            lemma_rows_where_member(s0.users@, keep_u);
            lemma_rows_where_distinct(s0.users@, keep_u, |u: User| u.id);
            lemma_rows_where_distinct(s0.users@, keep_u, |u: User| u.username@);
            assert forall|j: int| 0 <= j < res_r.len() implies (#[trigger] res_r[j]).id
                < s0.next_repo_id by {
                let w = choose|w: int| 0 <= w < s0.repos@.len() && res_r[j] == s0.repos@[w];
                assert(s0.repos@[w].id < s0.next_repo_id);
            }
            assert forall|a: int, b: int| 0 <= a < b < res_r.len() implies (#[trigger] res_r[a]).id != (#[trigger] res_r[b]).id by {
                let kf = |r: RepoRow| r.id;
                assert(kf(res_r[a]) != kf(res_r[b]));
            }
            assert forall|a: int, b: int| 0 <= a < b < res_r.len() implies !((#[trigger] res_r[a]).repo.owner == (#[trigger] res_r[b]).repo.owner && res_r[a].repo.name@
                == res_r[b].repo.name@) by {
                let kf = |r: RepoRow| (r.repo.owner, r.repo.name@);
                assert(kf(res_r[a]) != kf(res_r[b]));
            }
            assert(repos_wf(res_r, s0.next_repo_id));
            assert forall|j: int| 0 <= j < res_k.len() implies (#[trigger] res_k[j]).id
                < s0.next_key_id by {
                let w = choose|w: int| 0 <= w < s0.keys@.len() && res_k[j] == s0.keys@[w];
                assert(s0.keys@[w].id < s0.next_key_id);
            }
            assert forall|a: int, b: int| 0 <= a < b < res_k.len() implies (#[trigger] res_k[a]).id != (#[trigger] res_k[b]).id by {
                let kf = |k: SshKey| k.id;
                assert(kf(res_k[a]) != kf(res_k[b]));
            }
            assert(keys_wf(res_k, s0.next_key_id));
            assert forall|j: int| 0 <= j < res_u.len() implies (#[trigger] res_u[j]).id
                < s0.next_user_id by {
                let w = choose|w: int| 0 <= w < s0.users@.len() && res_u[j] == s0.users@[w];
                assert(s0.users@[w].id < s0.next_user_id);
            }
            assert forall|a: int, b: int| 0 <= a < b < res_u.len() implies (#[trigger] res_u[a]).id != (#[trigger] res_u[b]).id by {
                let kf = |u: User| u.id;
                assert(kf(res_u[a]) != kf(res_u[b]));
            }
            assert forall|a: int, b: int| 0 <= a < b < res_u.len() implies (#[trigger] res_u[a]).username@ != (#[trigger] res_u[b]).username@ by {
                let kf = |u: User| u.username@;
                assert(kf(res_u[a]) != kf(res_u[b]));
            }
            assert(users_wf(res_u, s0.next_user_id));
        }
    }

    /// Rename a repository: the row keeps its id, owner and every other
    /// column; the new name must still be free under that owner.
    pub fn update_repo_name(&mut self, username: &str, old_name: &str, new_name: &str)
        requires
            old(self).wf(),
            old(self).spec_repo_exists(username@, old_name@),
            !old(self).spec_repo_exists(username@, new_name@),
        ensures
            final(self).wf(),
            final(self).users == old(self).users,
            final(self).keys == old(self).keys,
            final(self).next_user_id == old(self).next_user_id,
            final(self).next_repo_id == old(self).next_repo_id,
            final(self).next_key_id == old(self).next_key_id,
            final(self).repos@.len() == old(self).repos@.len(),
            forall|i: int|
                0 <= i < old(self).repos@.len() && i != old(self).spec_repo_index(
                    old(self).spec_user_id(username@).unwrap(),
                    old_name@,
                ) ==> final(self).repos@[i] == old(self).repos@[i],
            ({
                let k = old(self).spec_repo_index(
                    old(self).spec_user_id(username@).unwrap(),
                    old_name@,
                );
                final(self).repos@[k].id == old(self).repos@[k].id
                    && final(self).repos@[k].repo.name@ == new_name@
                    && final(self).repos@[k].repo.description@
                    == old(self).repos@[k].repo.description@
                    && final(self).repos@[k].repo.owner == old(self).repos@[k].repo.owner
                    && final(self).repos@[k].repo.private == old(self).repos@[k].repo.private
                    && final(self).repos@[k].last_updated == old(self).repos@[k].last_updated
            }),
    {
        let oid = self.user_id(username).unwrap();
        let i = self.repo_row_index(oid, old_name).unwrap();
        let row = self.repos.remove(i);
        let renamed = RepoRow {
            id: row.id,
            repo: Repo {
                name: new_name.to_owned(),
                description: row.repo.description,
                owner: row.repo.owner,
                private: row.repo.private,
            },
            last_updated: row.last_updated,
        };
        self.repos.insert(i, renamed);
        proof {
            let s0 = *old(self);
            let rs = self.repos@;
            assert(forall|j: int| 0 <= j < rs.len() && j != i ==> rs[j] == s0.repos@[j]);
            assert forall|a: int| 0 <= a < rs.len() implies (#[trigger] rs[a]).id
                < self.next_repo_id by {
                if a != i {
                    assert(rs[a] == s0.repos@[a]);
                }
                assert(s0.repos@[a].id < s0.next_repo_id);
            }
            assert forall|a: int, b: int| 0 <= a < b < rs.len() implies (#[trigger] rs[a]).id
                != (#[trigger] rs[b]).id by {
                assert(rs[a].id == s0.repos@[a].id && rs[b].id == s0.repos@[b].id);
            }
            assert forall|a: int, b: int| 0 <= a < b < rs.len() implies !((#[trigger] rs[a]).repo.owner
                == (#[trigger] rs[b]).repo.owner && rs[a].repo.name@ == rs[b].repo.name@) by {
                if a != i && b != i {
                    assert(rs[a] == s0.repos@[a] && rs[b] == s0.repos@[b]);
                } else {
                    let other: int = if a == i {
                        b
                    } else {
                        a
                    };
                    assert(rs[other] == s0.repos@[other]);
                    assert(rs[i as int].repo.owner == oid && rs[i as int].repo.name@
                        == new_name@);
                    if s0.repos@[other].repo.owner == oid && s0.repos@[other].repo.name@
                        == new_name@ {
                        assert(s0.spec_has_repo(oid, new_name@));
                        assert(false);
                    }
                }
            }
        }
    }

    /// The settings page data of a user: their email and every key they
    /// own, in storage order. `None` when the user does not exist.
    pub fn settings(&self, username: &str, mount: &str) -> (r: Option<
        crate::templates::UserSettings,
    >)
        requires
            self.wf(),
        ensures
            r is Some <==> self.spec_has_user(username@),
            r matches Some(page) ==> ({
                let owned = spec_rows_where(
                    self.keys@,
                    (|k: SshKey| k.owner == self.spec_user_id(username@).unwrap()),
                );
                page.mount@ == mount@ && page.username@ == username@ && page.email@
                    == self.users@[self.spec_user_index(username@)].email@ && page.keys@.len()
                    == owned.len() && forall|i: int|
                    0 <= i < owned.len() ==> (#[trigger] page.keys@[i]).id == owned[i].id
                        && page.keys@[i].owner == owned[i].owner && page.keys@[i].name@
                        == owned[i].name@ && page.keys@[i].fingerprint@
                        == owned[i].fingerprint@ && page.keys@[i].content@
                        == owned[i].content@
            }),
    {
        let oid = match self.user_id(username) {
            None => {
                return None;
            },
            Some(oid) => oid,
        };
        let ghost uidx = self.spec_user_index(username@);
        let email = self.users[self.user_index_by_id(oid)].email.clone();
        proof {
            let k = self.spec_user_id_index(oid);
            assert(self.users@[uidx].id == oid);
            assert(self.spec_has_user_id(oid));
            assert(self.users@[k].id == oid);
            if k != uidx {
                assert(self.users@[k].id != self.users@[uidx].id);
                assert(false);
            }
        }
        let ghost keep = |k: SshKey| k.owner == oid;
        let n = self.keys.len();
        let mut keys: Vec<SshKey> = Vec::new();
        let ghost mut taken: Seq<SshKey> = Seq::empty();
        let mut i: usize = 0;
        proof {
            assert(self.keys@.subrange(0, n as int) =~= self.keys@);
            assert(taken + spec_rows_where(self.keys@, keep) =~= spec_rows_where(
                self.keys@,
                keep,
            ));
        }
        while i < n
            invariant
                n == self.keys@.len(),
                i <= n,
                forall|k: SshKey| #[trigger] keep(k) == (k.owner == oid),
                spec_rows_where(self.keys@, keep) == taken + spec_rows_where(
                    self.keys@.subrange(i as int, n as int),
                    keep,
                ),
                keys@.len() == taken.len(),
                forall|j: int|
                    0 <= j < taken.len() ==> (#[trigger] keys@[j]).id == taken[j].id
                        && keys@[j].owner == taken[j].owner && keys@[j].name@
                        == taken[j].name@ && keys@[j].fingerprint@ == taken[j].fingerprint@
                        && keys@[j].content@ == taken[j].content@,
            decreases n - i,
        {
            let ghost remaining = self.keys@.subrange(i as int, n as int);
            proof {
                assert(remaining[0] == self.keys@[i as int]);
                assert(remaining.drop_first() =~= self.keys@.subrange(i + 1, n as int));
            }
            if self.keys[i].owner == oid {
                keys.push(
                    SshKey {
                        id: self.keys[i].id,
                        owner: self.keys[i].owner,
                        name: self.keys[i].name.clone(),
                        fingerprint: self.keys[i].fingerprint.clone(),
                        content: self.keys[i].content.clone(),
                    },
                );
                proof {
                    taken = taken.push(self.keys@[i as int]);
                    assert(taken.drop_last() + (seq![self.keys@[i as int]] + spec_rows_where(
                        self.keys@.subrange(i + 1, n as int),
                        keep,
                    )) =~= taken + spec_rows_where(self.keys@.subrange(i + 1, n as int), keep));
                }
            }
            i += 1;
        }
        proof {
            assert(spec_rows_where(self.keys@.subrange(n as int, n as int), keep) == Seq::<
                SshKey,
            >::empty());
            assert(taken + Seq::<SshKey>::empty() =~= taken);
        }
        Some(
            crate::templates::UserSettings {
                mount: mount.to_owned(),
                username: username.to_owned(),
                email,
                keys,
            },
        )
    }

    /// Check the store's well-formedness at run time, so that rows
    /// loaded from outside storage can be validated before the library
    /// is asked anything.
    pub fn check_wf(&self) -> (r: bool)
        ensures
            r == self.wf(),
    {
        users_wf_check(&self.users, self.next_user_id) && repos_wf_check(
            &self.repos,
            self.next_repo_id,
        ) && keys_wf_check(&self.keys, self.next_key_id)
    }
}


/// Check the user rows' well-formedness.
fn users_wf_check(users: &Vec<User>, next: i32) -> (r: bool)
    ensures
        r == users_wf(users@, next),
{
    let n = users.len();
    let mut i: usize = 0;
    while i < n
        invariant
            n == users@.len(),
            i <= n,
            forall|a: int| 0 <= a < i ==> (#[trigger] users@[a]).id < next,
            forall|a: int, b: int|
                0 <= a < b < n && a < i ==> (#[trigger] users@[a]).id != (#[trigger] users@[b]).id,
            forall|a: int, b: int|
                0 <= a < b < n && a < i ==> (#[trigger] users@[a]).username@
                    != (#[trigger] users@[b]).username@,
        decreases n - i,
    {
        if users[i].id >= next {
            return false;
        }
        let mut j: usize = i + 1;
        while j < n
            invariant
                n == users@.len(),
                i < n,
                i < j <= n,
                forall|b: int| i < b < j ==> (#[trigger] users@[b]).id != users@[i as int].id,
                forall|b: int| i < b < j ==> (#[trigger] users@[b]).username@
                    != users@[i as int].username@,
            decreases n - j,
        {
            if users[i].id == users[j].id {
                return false;
            }
            if str_eq(users[i].username.as_str(), users[j].username.as_str()) {
                return false;
            }
            j += 1;
        }
        i += 1;
    }
    true
}

/// Check the repository rows' well-formedness.
fn repos_wf_check(repos: &Vec<RepoRow>, next: i64) -> (r: bool)
    ensures
        r == repos_wf(repos@, next),
{
    let n = repos.len();
    let mut i: usize = 0;
    while i < n
        invariant
            n == repos@.len(),
            i <= n,
            forall|a: int| 0 <= a < i ==> (#[trigger] repos@[a]).id < next,
            forall|a: int, b: int|
                0 <= a < b < n && a < i ==> (#[trigger] repos@[a]).id != (#[trigger] repos@[b]).id,
            forall|a: int, b: int|
                0 <= a < b < n && a < i ==> !((#[trigger] repos@[a]).repo.owner
                    == (#[trigger] repos@[b]).repo.owner && repos@[a].repo.name@
                    == repos@[b].repo.name@),
        decreases n - i,
    {
        if repos[i].id >= next {
            return false;
        }
        let mut j: usize = i + 1;
        while j < n
            invariant
                n == repos@.len(),
                i < n,
                i < j <= n,
                forall|b: int| i < b < j ==> (#[trigger] repos@[b]).id != repos@[i as int].id,
                forall|b: int| i < b < j ==> !((#[trigger] repos@[b]).repo.owner
                    == repos@[i as int].repo.owner && repos@[b].repo.name@
                    == repos@[i as int].repo.name@),
            decreases n - j,
        {
            if repos[i].id == repos[j].id {
                return false;
            }
            if repos[i].repo.owner == repos[j].repo.owner && str_eq(
                repos[i].repo.name.as_str(),
                repos[j].repo.name.as_str(),
            ) {
                return false;
            }
            j += 1;
        }
        i += 1;
    }
    true
}

/// Check the key rows' well-formedness.
fn keys_wf_check(keys: &Vec<SshKey>, next: i32) -> (r: bool)
    ensures
        r == keys_wf(keys@, next),
{
    let n = keys.len();
    let mut i: usize = 0;
    while i < n
        invariant
            n == keys@.len(),
            i <= n,
            forall|a: int| 0 <= a < i ==> (#[trigger] keys@[a]).id < next,
            forall|a: int, b: int|
                0 <= a < b < n && a < i ==> (#[trigger] keys@[a]).id != (#[trigger] keys@[b]).id,
        decreases n - i,
    {
        if keys[i].id >= next {
            return false;
        }
        let mut j: usize = i + 1;
        while j < n
            invariant
                n == keys@.len(),
                i < n,
                i < j <= n,
                forall|b: int| i < b < j ==> (#[trigger] keys@[b]).id != keys@[i as int].id,
            decreases n - j,
        {
            if keys[i].id == keys[j].id {
                return false;
            }
            j += 1;
        }
        i += 1;
    }
    true
}

/// Replacing one user row while keeping its id and username preserves
/// the user rows' well-formedness.
pub proof fn lemma_users_row_update(us0: Seq<User>, us1: Seq<User>, k: int, next: i32)
    requires
        users_wf(us0, next),
        0 <= k < us0.len(),
        us1.len() == us0.len(),
        forall|i: int| 0 <= i < us0.len() && i != k ==> us1[i] == us0[i],
        us1[k].id == us0[k].id,
        us1[k].username@ == us0[k].username@,
    ensures
        users_wf(us1, next),
{
    assert forall|i: int| 0 <= i < us1.len() implies (#[trigger] us1[i]).id == us0[i].id
        && us1[i].username@ == us0[i].username@ by {
        if i != k {
            assert(us1[i] == us0[i]);
        }
    }
}

/// A second store with the same user rows answers user lookups alike.
pub proof fn lemma_user_lookup_unchanged(s0: Store, s1: Store, name: Seq<char>)
    requires
        s0.wf(),
        s1.users@ == s0.users@,
    ensures
        s1.spec_has_user(name) == s0.spec_has_user(name),
        s1.spec_user_id(name) == s0.spec_user_id(name),
{
    if s0.spec_has_user(name) {
        let w = s0.spec_user_index(name);
        assert(s1.users@[w] == s0.users@[w]);
        assert(s1.spec_has_user(name));
    }
    if s1.spec_has_user(name) {
        let w = s1.spec_user_index(name);
        assert(s1.users@[w] == s0.users@[w]);
        assert(s0.spec_has_user(name));
    }
    if s0.spec_has_user(name) {
        let u0 = s0.spec_user_index(name);
        let u1 = s1.spec_user_index(name);
        assert(s1.users@[u1] == s0.users@[u1]);
        assert(s0.users@[u1].username@ == name);
        if u0 != u1 {
            assert(s0.users@[u0].username@ != s0.users@[u1].username@);
            assert(false);
        }
    }
}

/// Replacing one repository row while keeping its id, owner and name
/// preserves well-formedness and every repository lookup.
pub proof fn lemma_repo_row_update(s0: Store, s1: Store, k: int, oid: i32, name: Seq<char>)
    requires
        s0.wf(),
        s1.users@ == s0.users@,
        s1.keys@ == s0.keys@,
        s1.next_user_id == s0.next_user_id,
        s1.next_repo_id == s0.next_repo_id,
        s1.next_key_id == s0.next_key_id,
        0 <= k < s0.repos@.len(),
        s1.repos@.len() == s0.repos@.len(),
        forall|i: int| 0 <= i < s0.repos@.len() && i != k ==> s1.repos@[i] == s0.repos@[i],
        s1.repos@[k].id == s0.repos@[k].id,
        s1.repos@[k].repo.owner == s0.repos@[k].repo.owner,
        s1.repos@[k].repo.name@ == s0.repos@[k].repo.name@,
    ensures
        s1.wf(),
        s1.spec_has_repo(oid, name) == s0.spec_has_repo(oid, name),
        s0.spec_has_repo(oid, name) ==> s1.spec_repo_index(oid, name) == s0.spec_repo_index(
            oid,
            name,
        ),
{
    assert forall|i: int| 0 <= i < s1.repos@.len() implies (#[trigger] s1.repos@[i]).id
        == s0.repos@[i].id && s1.repos@[i].repo.owner == s0.repos@[i].repo.owner
        && s1.repos@[i].repo.name@ == s0.repos@[i].repo.name@ by {
        if i != k {
            assert(s1.repos@[i] == s0.repos@[i]);
        }
    }
    assert forall|i: int| 0 <= i < s1.users@.len() implies (#[trigger] s1.users@[i])
        == s0.users@[i] by {}
    assert forall|i: int| 0 <= i < s1.keys@.len() implies (#[trigger] s1.keys@[i])
        == s0.keys@[i] by {}
    assert(s1.wf());
    if s0.spec_has_repo(oid, name) {
        let w = s0.spec_repo_index(oid, name);
        assert(s0.repos@[w].repo.owner == oid && s0.repos@[w].repo.name@ == name);
        assert(s1.repos@[w].repo.owner == oid && s1.repos@[w].repo.name@ == name);
        assert(s1.spec_has_repo(oid, name));
        let w1 = s1.spec_repo_index(oid, name);
        assert(s0.repos@[w1].repo.owner == oid && s0.repos@[w1].repo.name@ == name);
        if w != w1 {
            assert(!(s0.repos@[w].repo.owner == s0.repos@[w1].repo.owner
                && s0.repos@[w].repo.name@ == s0.repos@[w1].repo.name@));
            assert(false);
        }
    }
    if s1.spec_has_repo(oid, name) {
        let w = s1.spec_repo_index(oid, name);
        assert(s0.repos@[w].repo.owner == oid && s0.repos@[w].repo.name@ == name);
        assert(s0.spec_has_repo(oid, name));
    }
}



/// The rows of `s` that `keep` holds of, in order.
pub open spec fn spec_rows_where<A>(s: Seq<A>, keep: spec_fn(A) -> bool) -> Seq<A>
    decreases s.len(),
{
    if s.len() == 0 {
        Seq::empty()
    } else {
        (if keep(s[0]) {
            seq![s[0]]
        } else {
            Seq::<A>::empty()
        }) + spec_rows_where(s.drop_first(), keep)
    }
}

/// Every kept row satisfies the filter and stands in the source.
pub proof fn lemma_rows_where_member<A>(s: Seq<A>, keep: spec_fn(A) -> bool)
    ensures
        forall|j: int|
            0 <= j < spec_rows_where(s, keep).len() ==> keep(#[trigger] spec_rows_where(s, keep)[j])
                && exists|i: int| 0 <= i < s.len() && spec_rows_where(s, keep)[j] == s[i],
    decreases s.len(),
{
    if s.len() > 0 {
        lemma_rows_where_member(s.drop_first(), keep);
        let r = spec_rows_where(s, keep);
        let rt = spec_rows_where(s.drop_first(), keep);
        assert forall|j: int| 0 <= j < r.len() implies keep(#[trigger] r[j]) && exists|i: int|
            0 <= i < s.len() && r[j] == s[i] by {
            if keep(s[0]) && j == 0 {
                assert(r[j] == s[0]);
            } else {
                let off: int = if keep(s[0]) {
                    1
                } else {
                    0
                };
                assert(r[j] == rt[j - off]);
                let i = choose|i: int| 0 <= i < s.drop_first().len() && rt[j - off]
                    == s.drop_first()[i];
                assert(s.drop_first()[i] == s[i + 1]);
            }
        }
    }
}

/// Two pointwise-equal filters keep the same rows.
pub proof fn lemma_rows_where_congruence<A>(
    s: Seq<A>,
    f: spec_fn(A) -> bool,
    g: spec_fn(A) -> bool,
)
    requires
        forall|x: A| #[trigger] f(x) == g(x),
    ensures
        spec_rows_where(s, f) == spec_rows_where(s, g),
    decreases s.len(),
{
    if s.len() > 0 {
        assert(f(s[0]) == g(s[0]));
        lemma_rows_where_congruence(s.drop_first(), f, g);
    }
}

/// Filtering keeps the keys of the rows pairwise distinct.
pub proof fn lemma_rows_where_distinct<A, B>(
    s: Seq<A>,
    keep: spec_fn(A) -> bool,
    key: spec_fn(A) -> B,
)
    requires
        forall|i: int, j: int| 0 <= i < j < s.len() ==> key(#[trigger] s[i]) != key(
            #[trigger] s[j],
        ),
    ensures
        forall|i: int, j: int|
            0 <= i < j < spec_rows_where(s, keep).len() ==> key(
                #[trigger] spec_rows_where(s, keep)[i],
            ) != key(#[trigger] spec_rows_where(s, keep)[j]),
    decreases s.len(),
{
    if s.len() > 0 {
        assert forall|i: int, j: int| 0 <= i < j < s.drop_first().len() implies key(
            #[trigger] s.drop_first()[i],
        ) != key(#[trigger] s.drop_first()[j]) by {
            assert(s.drop_first()[i] == s[i + 1]);
            assert(s.drop_first()[j] == s[j + 1]);
        }
        lemma_rows_where_distinct(s.drop_first(), keep, key);
        lemma_rows_where_member(s.drop_first(), keep);
        let r = spec_rows_where(s, keep);
        let rt = spec_rows_where(s.drop_first(), keep);
        assert forall|i: int, j: int| 0 <= i < j < r.len() implies key(#[trigger] r[i]) != key(
            #[trigger] r[j],
        ) by {
            if keep(s[0]) {
                assert(r[0] == s[0]);
                if i == 0 {
                    assert(r[j] == rt[j - 1]);
                    let w = choose|w: int| 0 <= w < s.drop_first().len() && rt[j - 1]
                        == s.drop_first()[w];
                    assert(s.drop_first()[w] == s[w + 1]);
                    assert(key(s[0]) != key(s[w + 1]));
                } else {
                    assert(r[i] == rt[i - 1]);
                    assert(r[j] == rt[j - 1]);
                }
            } else {
                assert(r[i] == rt[i]);
                assert(r[j] == rt[j]);
            }
        }
    }
}

} // verus!
