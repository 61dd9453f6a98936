use valentine::access::AccessMode;
use valentine::session::{ssh_finish, ssh_session, SshPlan};
use valentine::store::{RepoRow, Store, User};
use valentine::types::{Repo, SshKey};

fn store_with_alice_and_bob(private: bool) -> Store {
    Store {
        users: vec![
            User {
                id: 1,
                username: "alice".to_string(),
                password: "x".to_string(),
                email: "alice@example.org".to_string(),
                num_repos: 1,
            },
            User {
                id: 2,
                username: "bob".to_string(),
                password: "x".to_string(),
                email: "bob@example.org".to_string(),
                num_repos: 0,
            },
        ],
        repos: vec![RepoRow {
            id: 1,
            repo: Repo {
                name: "project".to_string(),
                description: String::new(),
                owner: 1,
                private,
            },
            last_updated: 100,
        }],
        keys: vec![
            SshKey {
                id: 10,
                owner: 1,
                name: "alice-key".to_string(),
                fingerprint: "aa".to_string(),
                content: "ssh-ed25519 AAAA alice".to_string(),
            },
            SshKey {
                id: 20,
                owner: 2,
                name: "bob-key".to_string(),
                fingerprint: "bb".to_string(),
                content: "ssh-ed25519 BBBB bob".to_string(),
            },
        ],
        next_user_id: 3,
        next_repo_id: 2,
        next_key_id: 30,
    }
}

#[test]
fn banner_without_command() {
    let store = store_with_alice_and_bob(false);
    assert!(matches!(ssh_session(&store, 10, None), SshPlan::Banner));
}

#[test]
fn invalid_repository_path() {
    let store = store_with_alice_and_bob(false);
    match ssh_session(&store, 10, Some("git-upload-pack 'aliceproject'")) {
        SshPlan::Reject { message } => assert_eq!(message, "Invalid repository path"),
        _ => panic!("expected a rejection"),
    }
}

#[test]
fn unparsable_command_is_invalid_path() {
    let store = store_with_alice_and_bob(false);
    match ssh_session(&store, 10, Some("git-upload-pack")) {
        SshPlan::Reject { message } => assert_eq!(message, "Invalid repository path"),
        _ => panic!("expected a rejection"),
    }
}

#[test]
fn unknown_git_command() {
    let store = store_with_alice_and_bob(false);
    match ssh_session(&store, 10, Some("rsync 'alice/project.git'")) {
        SshPlan::Reject { message } => assert_eq!(message, "Unknown git command"),
        _ => panic!("expected a rejection"),
    }
}

#[test]
fn unknown_owner_denied() {
    let store = store_with_alice_and_bob(false);
    match ssh_session(&store, 10, Some("git-upload-pack 'carol/project.git'")) {
        SshPlan::Reject { message } => assert_eq!(message, "Repository owner does not exist"),
        _ => panic!("expected a rejection"),
    }
}

#[test]
fn unknown_repo_denied() {
    let store = store_with_alice_and_bob(false);
    match ssh_session(&store, 10, Some("git-upload-pack 'alice/missing.git'")) {
        SshPlan::Reject { message } => {
            assert_eq!(message, "Repository does not exist or you do not have access")
        },
        _ => panic!("expected a rejection"),
    }
}

#[test]
fn anonymous_public_read_runs() {
    let store = store_with_alice_and_bob(false);
    // key id 99 resolves to nobody, but a public read needs no identity
    match ssh_session(&store, 99, Some("git-upload-pack 'alice/project.git'")) {
        SshPlan::Run { verb, owner, repo, path, mode } => {
            assert_eq!(verb, "git-upload-pack");
            assert_eq!(owner, "alice");
            assert_eq!(repo, "project");
            assert_eq!(path, "alice/project.git");
            assert_eq!(mode, AccessMode::Read);
        },
        _ => panic!("expected a run"),
    }
}

#[test]
fn unresolved_key_on_write_is_internal_error() {
    let store = store_with_alice_and_bob(false);
    match ssh_session(&store, 99, Some("git-receive-pack 'alice/project.git'")) {
        SshPlan::Reject { message } => assert_eq!(message, "Internal error"),
        _ => panic!("expected a rejection"),
    }
}

#[test]
fn non_owner_write_denied_no_subprocess() {
    // the key belongs to bob; the repository belongs to alice
    let store = store_with_alice_and_bob(false);
    let before = store.repos[0].last_updated;
    match ssh_session(&store, 20, Some("git-receive-pack 'alice/project.git'")) {
        SshPlan::Reject { message } => {
            assert_eq!(message, "Repository does not exist or you do not have access")
        },
        _ => panic!("expected a rejection"),
    }
    assert_eq!(store.repos[0].last_updated, before);
}

#[test]
fn owner_write_runs_and_bumps_timestamp() {
    let mut store = store_with_alice_and_bob(false);
    let started_at = 12345;
    match ssh_session(&store, 10, Some("git-receive-pack 'alice/project.git'")) {
        SshPlan::Run { owner, repo, mode, path, .. } => {
            assert_eq!(path, "alice/project.git");
            let exit = ssh_finish(&mut store, &owner, &repo, mode, true, started_at);
            assert_eq!(exit, 0);
        },
        _ => panic!("expected a run"),
    }
    assert!(store.repos[0].last_updated >= started_at);
    assert_eq!(store.repos[0].last_updated, 12345);
}

#[test]
fn private_read_owner_only() {
    let store = store_with_alice_and_bob(true);
    assert!(matches!(
        ssh_session(&store, 10, Some("git-upload-pack 'alice/project.git'")),
        SshPlan::Run { .. }
    ));
    match ssh_session(&store, 20, Some("git-upload-pack 'alice/project.git'")) {
        SshPlan::Reject { message } => {
            assert_eq!(message, "Repository does not exist or you do not have access")
        },
        _ => panic!("expected a rejection"),
    }
}

#[test]
fn two_writes_bump_to_strictly_later_values() {
    let mut store = store_with_alice_and_bob(false);
    let exit1 = ssh_finish(&mut store, "alice", "project", AccessMode::Write, true, 200);
    let first = store.repos[0].last_updated;
    let exit2 = ssh_finish(&mut store, "alice", "project", AccessMode::Write, true, 300);
    let second = store.repos[0].last_updated;
    assert_eq!(exit1, 0);
    assert_eq!(exit2, 0);
    assert_eq!(first, 200);
    assert_eq!(second, 300);
    assert!(first < second);
}

#[test]
fn failed_write_does_not_bump() {
    let mut store = store_with_alice_and_bob(false);
    let before = store.repos[0].last_updated;
    let exit = ssh_finish(&mut store, "alice", "project", AccessMode::Write, false, 999);
    assert_eq!(exit, 1);
    assert_eq!(store.repos[0].last_updated, before);
}

#[test]
fn successful_read_does_not_bump() {
    let mut store = store_with_alice_and_bob(false);
    let before = store.repos[0].last_updated;
    let exit = ssh_finish(&mut store, "alice", "project", AccessMode::Read, true, 999);
    assert_eq!(exit, 0);
    assert_eq!(store.repos[0].last_updated, before);
}
