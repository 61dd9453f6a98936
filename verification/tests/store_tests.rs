use valentine::store::{RepoRow, Store, User};
use valentine::types::{Login, NewSshKey, NewUser, Repo, SshKey};

fn small_store() -> Store {
    Store {
        users: vec![
            User {
                id: 1,
                username: "alice".to_string(),
                password: "hash-a".to_string(),
                email: "a@example.org".to_string(),
                num_repos: 2,
            },
            User {
                id: 2,
                username: "bob".to_string(),
                password: "hash-b".to_string(),
                email: "b@example.org".to_string(),
                num_repos: 0,
            },
        ],
        repos: vec![
            RepoRow {
                id: 1,
                repo: Repo {
                    name: "project".to_string(),
                    description: "d1".to_string(),
                    owner: 1,
                    private: false,
                },
                last_updated: 10,
            },
            RepoRow {
                id: 2,
                repo: Repo {
                    name: "secret".to_string(),
                    description: "d2".to_string(),
                    owner: 1,
                    private: true,
                },
                last_updated: 20,
            },
        ],
        keys: vec![SshKey {
            id: 5,
            owner: 2,
            name: "bob-key".to_string(),
            fingerprint: "ff".to_string(),
            content: "ssh-ed25519 BBBB".to_string(),
        }],
        next_user_id: 3,
        next_repo_id: 3,
        next_key_id: 6,
    }
}

#[test]
fn user_lookups() {
    let s = small_store();
    assert_eq!(s.user_id("alice"), Some(1));
    assert_eq!(s.user_id("bob"), Some(2));
    assert_eq!(s.user_id("carol"), None);
    assert!(s.user_exists("alice"));
    assert!(!s.user_exists(""));
    assert_eq!(s.user_name(2), Some("bob".to_string()));
    assert_eq!(s.user_name(9), None);
}

#[test]
fn repo_lookups() {
    let s = small_store();
    assert_eq!(s.repo_id("alice", "project"), Some(1));
    assert_eq!(s.repo_id("alice", "missing"), None);
    assert_eq!(s.repo_id("carol", "project"), None);
    assert!(s.repo_exists("alice", "secret"));
    assert!(!s.repo_exists("bob", "project"));
    let rep = s.repo("alice", "secret").unwrap();
    assert_eq!(rep.name, "secret");
    assert_eq!(rep.description, "d2");
    assert_eq!(rep.owner, 1);
    assert!(rep.private);
}

#[test]
fn missing_repo_reads_as_private() {
    let s = small_store();
    assert_eq!(s.repo_is_private("alice", "project"), Some(false));
    assert_eq!(s.repo_is_private("alice", "secret"), Some(true));
    assert_eq!(s.repo_is_private("alice", "missing"), Some(true));
    assert_eq!(s.repo_is_private("carol", "anything"), None);
}

#[test]
fn key_lookups() {
    let s = small_store();
    assert_eq!(s.user_by_key_id(5), Some(2));
    assert_eq!(s.user_by_key_id(1), None);
    assert_eq!(s.user_owns_key("bob", 5), Some(true));
    assert_eq!(s.user_owns_key("alice", 5), Some(false));
    assert_eq!(s.user_owns_key("carol", 5), None);
    assert!(s.user_owns_repo(1, "project"));
    assert!(!s.user_owns_repo(2, "project"));
}

#[test]
fn login_against_real_bcrypt_hash() {
    let mut s = small_store();
    let hash = bcrypt::hash("open sesame", 4).unwrap();
    s.users[0].password = hash;
    assert_eq!(
        s.check_login(&Login::new("alice".to_string(), "open sesame".to_string())),
        Some(true)
    );
    assert_eq!(
        s.check_login(&Login::new("alice".to_string(), "wrong".to_string())),
        Some(false)
    );
    assert_eq!(
        s.check_login(&Login::new("carol".to_string(), "open sesame".to_string())),
        Some(false)
    );
    // bob's stored hash is not a bcrypt hash at all
    assert_eq!(s.check_login(&Login::new("bob".to_string(), "anything".to_string())), None);
}

#[test]
fn touch_updates_one_row() {
    let mut s = small_store();
    s.touch_repo("alice", "project", 777);
    assert_eq!(s.repos[0].last_updated, 777);
    assert_eq!(s.repos[1].last_updated, 20);
}

#[test]
fn created_user_gets_fresh_id() {
    let mut s = small_store();
    let nu = NewUser {
        username: "carol".to_string(),
        email: "c@example.org".to_string(),
        password: "hash-c".to_string(),
        num_repos: 0,
    };
    s.create_user(&nu);
    assert_eq!(s.users.len(), 3);
    assert_eq!(s.users[2].id, 3);
    assert_eq!(s.users[2].username, "carol");
    assert_eq!(s.next_user_id, 4);
    assert_eq!(s.user_id("carol"), Some(3));
}

#[test]
fn created_key_gets_fresh_id() {
    let mut s = small_store();
    let nk = NewSshKey {
        owner: 1,
        name: "alice-key".to_string(),
        fingerprint: "abcd".to_string(),
        content: "ssh-ed25519 AAAA".to_string(),
    };
    let stored = s.create_public_key(&nk);
    assert_eq!(stored.id, 6);
    assert_eq!(stored.owner, 1);
    assert_eq!(stored.fingerprint, "abcd");
    assert_eq!(s.keys.len(), 2);
    assert_eq!(s.user_by_key_id(6), Some(1));
    assert_eq!(s.next_key_id, 7);
}

#[test]
fn created_repo_counts_against_owner() {
    let mut s = small_store();
    let repo = Repo {
        name: "fresh".to_string(),
        description: String::new(),
        owner: 2,
        private: false,
    };
    s.create_repo(&repo, 555);
    assert_eq!(s.repos.len(), 3);
    assert_eq!(s.repos[2].id, 3);
    assert_eq!(s.repos[2].last_updated, 555);
    assert!(s.repo_exists("bob", "fresh"));
    assert_eq!(s.users[1].num_repos, 1);
    assert_eq!(s.next_repo_id, 4);
}

#[test]
fn renamed_repo_keeps_its_row() {
    let mut s = small_store();
    s.update_repo_name("alice", "project", "renamed");
    assert!(!s.repo_exists("alice", "project"));
    assert!(s.repo_exists("alice", "renamed"));
    assert_eq!(s.repos[0].id, 1);
    assert_eq!(s.repos[0].repo.description, "d1");
    assert_eq!(s.repos[0].last_updated, 10);
    assert_eq!(s.users[0].num_repos, 2);
}

#[test]
fn settings_page_lists_own_keys() {
    let s = small_store();
    let page = s.settings("bob", "/").unwrap();
    assert_eq!(page.username, "bob");
    assert_eq!(page.email, "b@example.org");
    assert_eq!(page.keys.len(), 1);
    assert_eq!(page.keys[0].id, 5);
    assert_eq!(page.keys[0].fingerprint, "ff");
    let alice = s.settings("alice", "/").unwrap();
    assert!(alice.keys.is_empty());
    assert!(s.settings("carol", "/").is_none());
}

#[test]
fn deleted_key_is_gone() {
    let mut s = small_store();
    s.delete_public_key(5);
    assert!(s.keys.is_empty());
    assert_eq!(s.user_by_key_id(5), None);
    // deleting what is not there removes nothing
    s.delete_public_key(5);
    assert!(s.keys.is_empty());
}

#[test]
fn deleted_repo_is_gone_and_counted_off() {
    let mut s = small_store();
    s.delete_repo("alice", "project");
    assert_eq!(s.repos.len(), 1);
    assert!(!s.repo_exists("alice", "project"));
    assert!(s.repo_exists("alice", "secret"));
    assert_eq!(s.users[0].num_repos, 1);
}

#[test]
fn deleted_user_cascades() {
    let mut s = small_store();
    s.delete_user("alice");
    assert!(!s.user_exists("alice"));
    assert!(s.user_exists("bob"));
    assert!(s.repos.is_empty());
    // bob's key survives
    assert_eq!(s.keys.len(), 1);
    s.delete_user("bob");
    assert!(s.keys.is_empty());
    assert!(s.users.is_empty());
}

#[test]
fn wf_check_accepts_sound_rows_and_refuses_broken_ones() {
    let s = small_store();
    assert!(s.check_wf());

    let mut dup_user = small_store();
    dup_user.users[1].username = "alice".to_string();
    assert!(!dup_user.check_wf());

    let mut dup_repo = small_store();
    dup_repo.repos[1].repo.name = "project".to_string();
    assert!(!dup_repo.check_wf());

    let mut dup_key_id = small_store();
    dup_key_id.keys.push(valentine::types::SshKey {
        id: 5,
        owner: 1,
        name: "twin".to_string(),
        fingerprint: "aa".to_string(),
        content: "ssh-ed25519 AAAA".to_string(),
    });
    assert!(!dup_key_id.check_wf());

    let mut stale_counter = small_store();
    stale_counter.next_user_id = 2;
    assert!(!stale_counter.check_wf());
}
