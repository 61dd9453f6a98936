use valentine::access::{decide, AccessMode, Decision, DenyReason};

#[test]
fn verb_table_reads() {
    assert_eq!(AccessMode::new("git-upload-pack"), Some(AccessMode::Read));
    assert_eq!(AccessMode::new("git-upload-archive"), Some(AccessMode::Read));
}

#[test]
fn verb_table_writes() {
    assert_eq!(AccessMode::new("git-receive-pack"), Some(AccessMode::Write));
}

#[test]
fn verb_table_rejects_everything_else() {
    assert_eq!(AccessMode::new(""), None);
    assert_eq!(AccessMode::new("git-upload"), None);
    assert_eq!(AccessMode::new("git-upload-packx"), None);
    assert_eq!(AccessMode::new(" git-upload-pack"), None);
    assert_eq!(AccessMode::new("rsync"), None);
}

#[test]
fn verb_table_is_case_sensitive() {
    assert_eq!(AccessMode::new("Git-Upload-Pack"), None);
    assert_eq!(AccessMode::new("GIT-RECEIVE-PACK"), None);
}

#[test]
fn deny_messages() {
    assert_eq!(DenyReason::OwnerNotFound.message(), "Repository owner does not exist");
    assert_eq!(
        DenyReason::RepoNotFound.message(),
        "Repository does not exist or you do not have access"
    );
    assert_eq!(DenyReason::NoIdentity.message(), "Internal error");
}

#[test]
fn matrix_nonexistent_always_denied() {
    for mode in [AccessMode::Read, AccessMode::Write] {
        for identity in [None, Some(1)] {
            assert_eq!(
                decide(identity, None, None, mode),
                Decision::Deny(DenyReason::OwnerNotFound)
            );
            assert_eq!(
                decide(identity, Some(1), None, mode),
                Decision::Deny(DenyReason::RepoNotFound)
            );
        }
    }
}

#[test]
fn matrix_public_read_open_to_all() {
    assert_eq!(decide(None, Some(1), Some(false), AccessMode::Read), Decision::Allow);
    assert_eq!(decide(Some(2), Some(1), Some(false), AccessMode::Read), Decision::Allow);
    assert_eq!(decide(Some(1), Some(1), Some(false), AccessMode::Read), Decision::Allow);
}

#[test]
fn matrix_public_write_owner_only() {
    assert_eq!(decide(Some(1), Some(1), Some(false), AccessMode::Write), Decision::Allow);
    assert_eq!(
        decide(Some(2), Some(1), Some(false), AccessMode::Write),
        Decision::Deny(DenyReason::RepoNotFound)
    );
    assert_eq!(
        decide(None, Some(1), Some(false), AccessMode::Write),
        Decision::Deny(DenyReason::NoIdentity)
    );
}

#[test]
fn matrix_private_owner_only_either_mode() {
    for mode in [AccessMode::Read, AccessMode::Write] {
        assert_eq!(decide(Some(1), Some(1), Some(true), mode), Decision::Allow);
        assert_eq!(
            decide(Some(2), Some(1), Some(true), mode),
            Decision::Deny(DenyReason::RepoNotFound)
        );
        assert_eq!(
            decide(None, Some(1), Some(true), mode),
            Decision::Deny(DenyReason::NoIdentity)
        );
    }
}
