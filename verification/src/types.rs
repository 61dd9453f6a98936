//! The data types shared by the store, the transports and the views.

use vstd::prelude::*;
use vstd::string::StrSliceExecFns;
use crate::crypto::{
    base64_decode, base64_decode_of, bcrypt_hash, bcrypt_verify_of, hex_bytes, second_token,
    sha256, spec_fingerprint, spec_second_token,
};
use crate::text::substring;

verus! {

/// A signup about to happen: the password is already hashed.
pub struct NewUser {
    pub username: String,
    pub email: String,
    pub password: String,
    pub num_repos: i64,
}

impl NewUser {
    /// Take a signup form: the two password fields must agree, and the
    /// password is hashed before it is kept. Only the hashing itself can
    /// still refuse the form.
    pub fn new(username: String, email: String, password: String, password_confirm: String) -> (r:
        Option<NewUser>)
        ensures
            password@ != password_confirm@ ==> r is None,
            r matches Some(u) ==> password@ == password_confirm@ && u.username@ == username@
                && u.email@ == email@ && bcrypt_verify_of(password@, u.password@)
                == Option::Some(true) && u.num_repos == 0,
    {
        if !crate::text::str_eq(password.as_str(), password_confirm.as_str()) {
            return None;
        }
        match bcrypt_hash(password.as_str()) {
            None => None,
            Some(hash) => Some(
                NewUser { username, email, password: hash, num_repos: 0 },
            ),
        }
    }
}

/// A login attempt: the password is still clear text.
pub struct Login {
    pub username: String,
    pub password: String,
}

impl Login {
    /// Take a login form as it stands.
    pub fn new(username: String, password: String) -> (r: Login)
        ensures
            r.username@ == username@,
            r.password@ == password@,
    {
        Login { username, password }
    }
}

/// A repository's visible metadata; `owner` is the owning user's id.
pub struct Repo {
    pub name: String,
    pub description: String,
    pub owner: i32,
    pub private: bool,
}

impl Repo {
    /// Take a new-repository form: an empty name is refused, and the
    /// repository is private exactly when the checkbox field reads `on`.
    pub fn new(name: String, description: String, owner: i32, private: Option<String>) -> (r:
        Option<Repo>)
        ensures
            name@.len() == 0 <==> r is None,
            r matches Some(rep) ==> rep.name@ == name@ && rep.description@ == description@
                && rep.owner == owner && rep.private == (private matches Some(p) && p@
                == "on"@),
    {
        if name.as_str().unicode_len() == 0 {
            return None;
        }
        let is_private = match private {
            Some(p) => crate::text::str_eq(p.as_str(), "on"),
            None => false,
        };
        Some(Repo { name, description, owner, private: is_private })
    }
}

/// What a tree entry is, mirrored from git's object types.
#[derive(Clone, Copy, Debug, Eq, PartialEq, Structural)]
pub enum ObjectKind {
    Any,
    Commit,
    Tree,
    Blob,
    Tag,
}

/// One entry of a tree listing.
pub struct RepoItem {
    pub name: String,
    pub obj_type: ObjectKind,
}

/// A branch, by name.
pub struct Branch {
    pub name: String,
}

/// A tag, by name.
pub struct Tag {
    pub name: String,
}

/// One commit as shown in logs and views.
pub struct Commit {
    pub id: String,
    pub short_id: String,
    pub author: String,
    pub time: String,
    pub short_message: String,
    pub message: String,
}

/// What chrono renders a commit timestamp and offset to: a pure
/// function of the two values; `None` stands for an out-of-range pair.
pub uninterp spec fn commit_time_of(seconds: int, offset_minutes: int) -> Option<Seq<char>>;

/// Relies on chrono's Parsed builder (set_timestamp, set_offset,
/// to_datetime) and the rendering of the resulting date-time: a pure
/// function of timestamp and offset.
#[verifier::external_body]
fn format_commit_time(seconds: i64, offset_minutes: i32) -> (r: Option<String>)
    ensures
        r is Some <==> commit_time_of(seconds as int, offset_minutes as int) is Some,
        r matches Some(t) ==> commit_time_of(seconds as int, offset_minutes as int)
            == Option::Some(t@),
{
    let mut time = chrono::format::Parsed::new();
    if time.set_timestamp(seconds).is_err() {
        return None;
    }
    if time.set_offset(i64::from(offset_minutes) * 60).is_err() {
        return None;
    }
    match time.to_datetime() {
        Ok(dt) => Some(dt.to_string()),
        Err(_) => None,
    }
}

impl Commit {
    /// Assemble a commit view from its raw parts: the short id is the
    /// first seven characters of the id, and the time is chrono's
    /// rendering of the author timestamp with its offset, which alone
    /// can refuse the parts.
    pub fn new(
        id: String,
        author: String,
        seconds: i64,
        offset_minutes: i32,
        summary: String,
        message: String,
    ) -> (r: Option<Commit>)
        requires
            id@.len() >= 7,
        ensures
            r is Some <==> commit_time_of(seconds as int, offset_minutes as int) is Some,
            r matches Some(c) ==> c.id@ == id@ && c.short_id@ == id@.subrange(0, 7)
                && c.author@ == author@ && commit_time_of(seconds as int, offset_minutes as int)
                == Option::Some(c.time@) && c.short_message@ == summary@ && c.message@
                == message@,
    {
        let time = match format_commit_time(seconds, offset_minutes) {
            None => {
                return None;
            },
            Some(t) => t,
        };
        let short_id = substring(id.as_str(), 0, 7);
        Some(
            Commit { id, short_id, author, time, short_message: summary, message },
        )
    }
}

/// What a path inside a repository resolves to: a file with numbered
/// lines and a size label, a directory listing, or something that cannot
/// be shown.
pub enum RepoSrc {
    File { file: Vec<(usize, String)>, size: String },
    Dir { items: Vec<RepoItem>, readme: Option<String> },
    Error,
}

/// A stored SSH public key.
pub struct SshKey {
    pub id: i32,
    pub owner: i32,
    pub name: String,
    pub fingerprint: String,
    pub content: String,
}

/// An SSH public key about to be stored; the fingerprint is derived from
/// the key material.
pub struct NewSshKey {
    pub owner: i32,
    pub name: String,
    pub fingerprint: String,
    pub content: String,
}

impl NewSshKey {
    /// Take an add-key form: the fingerprint is derived from the pasted
    /// key line, and a line it cannot be derived from is refused.
    pub fn new(owner: i32, name: String, ssh_key: String) -> (r: Option<NewSshKey>)
        ensures
            r is Some <==> spec_fingerprint(ssh_key@) is Some,
            r matches Some(k) ==> k.owner == owner && k.name@ == name@ && k.content@
                == ssh_key@ && spec_fingerprint(ssh_key@) == Option::Some(k.fingerprint@),
    {
        match NewSshKey::fingerprint(ssh_key.as_str()) {
            None => None,
            Some(fingerprint) => Some(
                NewSshKey { owner, name, fingerprint, content: ssh_key },
            ),
        }
    }

    /// Derive a key line's fingerprint: the SHA-256 digest of its
    /// base64-decoded second field, in lowercase hex with two digits
    /// per byte, a stable 64-character identifier. A line without a
    /// second field, or one that does not decode, has none.
    pub fn fingerprint(key: &str) -> (r: Option<String>)
        ensures
            r is Some <==> spec_fingerprint(key@) is Some,
            r matches Some(f) ==> spec_fingerprint(key@) == Option::Some(f@) && f@.len() == 64,
    {
        let tok = match second_token(key) {
            None => {
                return None;
            },
            Some(t) => t,
        };
        let data = match base64_decode(tok.as_str()) {
            None => {
                return None;
            },
            Some(d) => d,
        };
        let digest = sha256(&data);
        proof {
            crate::crypto::lemma_hex_bytes_len(digest@);
        }
        Some(hex_bytes(&digest))
    }
}

} // verus!
