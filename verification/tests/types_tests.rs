use base64::Engine;
use sha2::Digest;
use valentine::types::{Commit, NewSshKey, NewUser, Repo};

#[test]
fn signup_requires_matching_passwords() {
    assert!(NewUser::new(
        "alice".to_string(),
        "a@example.org".to_string(),
        "pw".to_string(),
        "other".to_string(),
    )
    .is_none());
}

#[test]
fn signup_hashes_the_password() {
    let u = NewUser::new(
        "alice".to_string(),
        "a@example.org".to_string(),
        "open sesame".to_string(),
        "open sesame".to_string(),
    )
    .unwrap();
    assert_eq!(u.username, "alice");
    assert_eq!(u.email, "a@example.org");
    assert_eq!(u.num_repos, 0);
    assert_ne!(u.password, "open sesame");
    assert!(bcrypt::verify("open sesame", &u.password).unwrap());
}

#[test]
fn repo_form_validation() {
    assert!(Repo::new(String::new(), "d".to_string(), 1, None).is_none());
    let public = Repo::new("r".to_string(), "d".to_string(), 1, None).unwrap();
    assert!(!public.private);
    let also_public =
        Repo::new("r".to_string(), "d".to_string(), 1, Some("off".to_string())).unwrap();
    assert!(!also_public.private);
    let private = Repo::new("r".to_string(), "d".to_string(), 1, Some("on".to_string())).unwrap();
    assert!(private.private);
    assert_eq!(private.name, "r");
    assert_eq!(private.owner, 1);
}

#[test]
fn fingerprint_is_the_full_hex_digest() {
    let material: [u8; 5] = [0x01, 0x0f, 0xab, 0x00, 0x10];
    let token = base64::engine::general_purpose::STANDARD_NO_PAD.encode(material);
    let line = format!("ssh-ed25519 {} user@host", token);
    let got = NewSshKey::fingerprint(&line).unwrap();
    let digest = sha2::Sha256::digest(material);
    let mut expected = String::new();
    for byte in digest.as_slice() {
        expected.push_str(&format!("{:02x}", byte));
    }
    assert_eq!(got.len(), 64);
    assert_eq!(got, expected);
}

#[test]
fn fingerprint_needs_a_decodable_second_field() {
    assert!(NewSshKey::fingerprint("ssh-ed25519").is_none());
    assert!(NewSshKey::fingerprint("").is_none());
    assert!(NewSshKey::fingerprint("ssh-ed25519 !!! comment").is_none());
}

#[test]
fn new_key_carries_fingerprint_and_content() {
    let material: [u8; 3] = [1, 2, 3];
    let token = base64::engine::general_purpose::STANDARD_NO_PAD.encode(material);
    let line = format!("ssh-ed25519 {} c", token);
    let k = NewSshKey::new(7, "laptop".to_string(), line.clone()).unwrap();
    assert_eq!(k.owner, 7);
    assert_eq!(k.name, "laptop");
    assert_eq!(k.content, line);
    assert_eq!(Some(k.fingerprint), NewSshKey::fingerprint(&line));
}

#[test]
fn commit_view_renders_time_like_chrono() {
    let id = "0123456789abcdef0123456789abcdef01234567".to_string();
    let c = Commit::new(id.clone(), "Alice".to_string(), 0, 0, "s".to_string(), "m".to_string())
        .unwrap();
    assert_eq!(c.id, id);
    assert_eq!(c.short_id, "0123456");
    assert_eq!(c.author, "Alice");
    assert_eq!(c.short_message, "s");
    assert_eq!(c.message, "m");
    let mut parsed = chrono::format::Parsed::new();
    parsed.set_timestamp(0).unwrap();
    parsed.set_offset(0).unwrap();
    let expected = parsed.to_datetime().unwrap().to_string();
    assert_eq!(c.time, expected);
}

#[test]
fn commit_view_keeps_the_offset() {
    let id = "0123456789abcdef0123456789abcdef01234567".to_string();
    let c = Commit::new(id, "A".to_string(), 1000, 90, "s".to_string(), "m".to_string()).unwrap();
    let mut parsed = chrono::format::Parsed::new();
    parsed.set_timestamp(1000).unwrap();
    parsed.set_offset(90 * 60).unwrap();
    let expected = parsed.to_datetime().unwrap().to_string();
    assert_eq!(c.time, expected);
}
