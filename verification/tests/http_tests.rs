use valentine::git_http::{
    advertisement_body, advertisement_prefix, hex4, info_refs, pkt_line, resolve_http_identity,
    upload_pack, HttpReply,
};
use valentine::store::{RepoRow, Store, User};
use valentine::types::Repo;

fn store_with_project(private: bool) -> Store {
    Store {
        users: vec![User {
            id: 1,
            username: "alice".to_string(),
            password: "x".to_string(),
            email: "alice@example.org".to_string(),
            num_repos: 1,
        }],
        repos: vec![RepoRow {
            id: 1,
            repo: Repo {
                name: "project".to_string(),
                description: String::new(),
                owner: 1,
                private,
            },
            last_updated: 0,
        }],
        keys: vec![],
        next_user_id: 2,
        next_repo_id: 2,
        next_key_id: 1,
    }
}

#[test]
fn pkt_line_prefix_is_hex_of_len_plus_four() {
    for payload in ["", "a", "# service=git-upload-pack\n", "0123456789"] {
        let framed = pkt_line(payload);
        let expected_prefix = format!("{:04x}", payload.len() + 4);
        assert_eq!(&framed[..4], expected_prefix);
        assert_eq!(&framed[4..], payload);
    }
}

#[test]
fn hex4_pads_and_lowercases() {
    assert_eq!(hex4(0), "0000");
    assert_eq!(hex4(30), "001e");
    assert_eq!(hex4(0xabc), "0abc");
    assert_eq!(hex4(0xffff), "ffff");
}

#[test]
fn advertisement_prefix_exact() {
    // the 26-character service packet frames to length 30, 001e in hex
    assert_eq!(advertisement_prefix(), "001e# service=git-upload-pack\n0000");
}

#[test]
fn advertisement_body_is_prefix_then_pack() {
    let pack = vec![0x30u8, 0x31, 0xff, 0x00];
    let body = advertisement_body(&pack);
    let mut expected = b"001e# service=git-upload-pack\n0000".to_vec();
    expected.extend_from_slice(&pack);
    assert_eq!(body, expected);
}

#[test]
fn anonymous_get_public_info_refs() {
    let store = store_with_project(false);
    match info_refs(&store, None, "Valentine", "alice", "project", Some("git-upload-pack")) {
        HttpReply::Proceed { owner, repo } => {
            assert_eq!(owner, "alice");
            assert_eq!(repo, "project");
        },
        _ => panic!("expected the advertisement to proceed"),
    }
    // the response body then starts with the exact framed announcement
    let body = advertisement_body(&vec![]);
    assert!(body.starts_with(b"001e# service=git-upload-pack\n0000"));
}

#[test]
fn info_refs_strips_dot_git_from_path() {
    let store = store_with_project(false);
    assert!(matches!(
        info_refs(&store, None, "Valentine", "alice", "project.git", Some("git-upload-pack")),
        HttpReply::Proceed { .. }
    ));
}

#[test]
fn anonymous_get_private_info_refs_is_not_found() {
    let store = store_with_project(true);
    assert!(matches!(
        info_refs(&store, None, "Valentine", "alice", "project", Some("git-upload-pack")),
        HttpReply::NotFound
    ));
}

#[test]
fn owner_reads_private_over_http() {
    let store = store_with_project(true);
    assert!(matches!(
        info_refs(&store, Some(1), "Valentine", "alice", "project", Some("git-upload-pack")),
        HttpReply::Proceed { .. }
    ));
}

#[test]
fn missing_repo_is_not_found() {
    let store = store_with_project(false);
    assert!(matches!(
        info_refs(&store, None, "Valentine", "alice", "missing", Some("git-upload-pack")),
        HttpReply::NotFound
    ));
    assert!(matches!(
        info_refs(&store, None, "Valentine", "carol", "project", Some("git-upload-pack")),
        HttpReply::NotFound
    ));
}

#[test]
fn receive_pack_forbidden_regardless_of_repo() {
    // existing public, existing private, and missing repositories all draw
    // the same fixed 403
    let expected = "Valentine does not support git-receive-pack over HTTP.";
    for (store, repo) in [
        (store_with_project(false), "project"),
        (store_with_project(true), "project"),
        (store_with_project(false), "missing"),
    ] {
        match info_refs(&store, None, "Valentine", "alice", repo, Some("git-receive-pack")) {
            HttpReply::Forbidden { body } => assert_eq!(body, expected),
            _ => panic!("expected 403"),
        }
    }
}

#[test]
fn missing_service_is_dumb_http() {
    let store = store_with_project(false);
    match info_refs(&store, None, "Valentine", "alice", "project", None) {
        HttpReply::Forbidden { body } => assert_eq!(
            body,
            "Please upgrade your git client. Valentine does not support git over dumb-http."
        ),
        _ => panic!("expected 403"),
    }
}

#[test]
fn unknown_service_is_forbidden() {
    let store = store_with_project(false);
    match info_refs(&store, None, "Valentine", "alice", "project", Some("git-fetch")) {
        HttpReply::Forbidden { body } => assert_eq!(body, "Unknown git command"),
        _ => panic!("expected 403"),
    }
}

#[test]
fn upload_pack_route_gates_like_info_refs() {
    let public = store_with_project(false);
    assert!(matches!(
        upload_pack(&public, None, "alice", "project.git"),
        HttpReply::Proceed { .. }
    ));
    let private = store_with_project(true);
    assert!(matches!(upload_pack(&private, None, "alice", "project"), HttpReply::NotFound));
    assert!(matches!(
        upload_pack(&private, Some(1), "alice", "project"),
        HttpReply::Proceed { .. }
    ));
}

#[test]
fn http_identity_needs_matching_cookies() {
    let store = store_with_project(false);
    assert_eq!(resolve_http_identity(&store, Some("alice"), Some("alice")), Some(1));
    assert_eq!(resolve_http_identity(&store, Some("alice"), Some("bob")), None);
    assert_eq!(resolve_http_identity(&store, Some("alice"), None), None);
    assert_eq!(resolve_http_identity(&store, None, Some("alice")), None);
    assert_eq!(resolve_http_identity(&store, None, None), None);
    // a session for a user the store no longer holds is anonymous
    assert_eq!(resolve_http_identity(&store, Some("carol"), Some("carol")), None);
}
