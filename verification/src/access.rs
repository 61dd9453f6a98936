//! The access decision engine: which verb needs which access mode, and
//! whether a caller may perform an operation on a repository.

use vstd::prelude::*;
use crate::text::str_eq;

verus! {

/// How much authority a git verb needs: fetch-type verbs read, push writes.
#[derive(Clone, Copy, Debug, Eq, PartialEq, Structural)]
pub enum AccessMode {
    Read,
    Write,
}

/// The verb table: `git-upload-pack` and `git-upload-archive` read,
/// `git-receive-pack` writes, anything else is unrecognized.
pub open spec fn access_mode_of(verb: Seq<char>) -> Option<AccessMode> {
    if verb == "git-upload-pack"@ || verb == "git-upload-archive"@ {
        Some(AccessMode::Read)
    } else if verb == "git-receive-pack"@ {
        Some(AccessMode::Write)
    } else {
        None
    }
}

impl AccessMode {
    /// Map a git verb to the access mode it requires; the match is
    /// case-sensitive and unknown verbs map to `None`.
    pub fn new(verb: &str) -> (r: Option<AccessMode>)
        ensures
            r == access_mode_of(verb@),
    {
        if str_eq(verb, "git-upload-pack") || str_eq(verb, "git-upload-archive") {
            Some(AccessMode::Read)
        } else if str_eq(verb, "git-receive-pack") {
            Some(AccessMode::Write)
        } else {
            None
        }
    }
}

/// Why an access request was turned away. Lookups that must not reveal
/// whether a private repository exists share `RepoNotFound`.
#[derive(Clone, Copy, Debug, Eq, PartialEq, Structural)]
pub enum DenyReason {
    /// The owning user does not exist.
    OwnerNotFound,
    /// The repository does not exist under that owner, or the caller may
    /// not see that it does.
    RepoNotFound,
    /// The operation needs an identity and the credential resolved to none.
    NoIdentity,
}

/// The outcome of an access check.
#[derive(Clone, Copy, Debug, Eq, PartialEq, Structural)]
pub enum Decision {
    Allow,
    Deny(DenyReason),
}

/// The fixed message shown to the remote caller for each denial.
pub open spec fn spec_deny_message(r: DenyReason) -> Seq<char> {
    match r {
        DenyReason::OwnerNotFound => "Repository owner does not exist"@,
        DenyReason::RepoNotFound => "Repository does not exist or you do not have access"@,
        DenyReason::NoIdentity => "Internal error"@,
    }
}

impl DenyReason {
    /// The fixed message shown to the remote caller for this denial.
    pub fn message(&self) -> (r: String)
        ensures
            r@ == spec_deny_message(*self),
    {
        match self {
            DenyReason::OwnerNotFound => "Repository owner does not exist".to_owned(),
            DenyReason::RepoNotFound => "Repository does not exist or you do not have access".to_owned(),
            DenyReason::NoIdentity => "Internal error".to_owned(),
        }
    }
}

/// The decision rule over the store's answers about `(owner, name)`:
/// `owner_id` is the owning user's id if that user exists, and
/// `repo_private` is the repository's `private` flag if the repository
/// exists under that owner. A write, or any access to a private
/// repository, requires an identity equal to the owner; a read of a
/// public repository is open to all.
pub open spec fn spec_decide(
    identity: Option<i32>,
    owner_id: Option<i32>,
    repo_private: Option<bool>,
    mode: AccessMode,
) -> Decision {
    match owner_id {
        Option::None => Decision::Deny(DenyReason::OwnerNotFound),
        Option::Some(oid) => match repo_private {
            Option::None => Decision::Deny(DenyReason::RepoNotFound),
            Option::Some(private) => if mode == AccessMode::Write || private {
                match identity {
                    Option::None => Decision::Deny(DenyReason::NoIdentity),
                    Option::Some(uid) => if uid == oid {
                        Decision::Allow
                    } else {
                        Decision::Deny(DenyReason::RepoNotFound)
                    },
                }
            } else {
                Decision::Allow
            },
        },
    }
}

/// Decide an access request from the store's answers alone.
pub fn decide(
    identity: Option<i32>,
    owner_id: Option<i32>,
    repo_private: Option<bool>,
    mode: AccessMode,
) -> (r: Decision)
    ensures
        r == spec_decide(identity, owner_id, repo_private, mode),
{
    match owner_id {
        Option::None => Decision::Deny(DenyReason::OwnerNotFound),
        Option::Some(oid) => match repo_private {
            Option::None => Decision::Deny(DenyReason::RepoNotFound),
            Option::Some(private) => if mode == AccessMode::Write || private {
                match identity {
                    Option::None => Decision::Deny(DenyReason::NoIdentity),
                    Option::Some(uid) => if uid == oid {
                        Decision::Allow
                    } else {
                        Decision::Deny(DenyReason::RepoNotFound)
                    },
                }
            } else {
                Decision::Allow
            },
        },
    }
}

/// The decision matrix over {repository exists} x {private} x {caller is
/// the owner}: a nonexistent owner or repository is always denied; a read
/// of a public repository is always allowed; the owner is always allowed;
/// a non-owner (or anonymous caller) is denied a write, and denied any
/// access to a private repository.
pub proof fn lemma_decision_matrix(
    identity: Option<i32>,
    oid: i32,
    private: bool,
    mode: AccessMode,
)
    ensures
        spec_decide(identity, Option::None, Option::None, mode) is Deny,
        spec_decide(identity, Option::Some(oid), Option::None, mode) is Deny,
        spec_decide(identity, Option::Some(oid), Option::Some(false), AccessMode::Read)
            == Decision::Allow,
        spec_decide(Option::Some(oid), Option::Some(oid), Option::Some(private), mode)
            == Decision::Allow,
        identity != Option::Some(oid) && mode == AccessMode::Write
            ==> spec_decide(identity, Option::Some(oid), Option::Some(private), mode) is Deny,
        identity != Option::Some(oid) && private
            ==> spec_decide(identity, Option::Some(oid), Option::Some(private), mode) is Deny,
{
}

} // verus!
