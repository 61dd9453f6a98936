use valentine::keys::{
    authorized_keys_line, filter_authorized_keys, parse_key_id, parse_u32, split_lines,
    str_contains, u32_to_decimal,
};

#[test]
fn decimal_rendering() {
    assert_eq!(u32_to_decimal(0), "0");
    assert_eq!(u32_to_decimal(7), "7");
    assert_eq!(u32_to_decimal(42), "42");
    assert_eq!(u32_to_decimal(1000), "1000");
    assert_eq!(u32_to_decimal(u32::MAX), "4294967295");
}

#[test]
fn parse_u32_round_trip() {
    assert_eq!(parse_u32("0"), Some(0));
    assert_eq!(parse_u32("42"), Some(42));
    assert_eq!(parse_u32("4294967295"), Some(u32::MAX));
    assert_eq!(parse_u32("4294967296"), None);
    assert_eq!(parse_u32(""), None);
    assert_eq!(parse_u32("4x2"), None);
    assert_eq!(parse_u32("-1"), None);
}

#[test]
fn key_id_argument() {
    assert_eq!(parse_key_id("key-1"), Some(1));
    assert_eq!(parse_key_id("key-2147483647"), Some(i32::MAX));
    assert_eq!(parse_key_id("key-2147483648"), None);
    assert_eq!(parse_key_id("key-"), None);
    assert_eq!(parse_key_id("key"), None);
    assert_eq!(parse_key_id("lock-1"), None);
    assert_eq!(parse_key_id("key-1a"), None);
}

#[test]
fn contains_marker() {
    assert!(str_contains("command=\"v ssh key-12\",opts zzz", "ssh key-12"));
    assert!(!str_contains("command=\"v ssh key-120\",opts", "ssh key-12\","));
    assert!(str_contains("abc", ""));
    assert!(!str_contains("ab", "abc"));
}

#[test]
fn line_splitting() {
    let lines = split_lines("a\nb\r\nc");
    assert_eq!(lines, vec!["a".to_string(), "b".to_string(), "c".to_string()]);
    assert_eq!(split_lines("a\n"), vec!["a".to_string()]);
    assert_eq!(split_lines(""), Vec::<String>::new());
    assert_eq!(split_lines("\n"), vec!["".to_string()]);
}

#[test]
fn authorized_keys_entry_shape() {
    let line = authorized_keys_line("/usr/bin/valentine", "/etc/valentine.toml", 7, "ssh-ed25519 AAAA user@host\n");
    assert_eq!(
        line,
        "command=\"/usr/bin/valentine -c '/etc/valentine.toml' ssh key-7\",\
no-port-forwarding,no-X11-forwarding,no-agent-forwarding,no-pty ssh-ed25519 AAAA user@host\n"
    );
}

#[test]
fn deleted_key_lines_filtered_out() {
    let l1 = authorized_keys_line("/bin/v", "/etc/v", 1, "ssh-ed25519 AAAA a");
    let l2 = authorized_keys_line("/bin/v", "/etc/v", 2, "ssh-ed25519 BBBB b");
    let content = format!("{}\n{}\n", l1, l2);
    let kept = filter_authorized_keys(&content, 1);
    assert_eq!(kept, format!("{}\n", l2));
    // the marker is exact: deleting key 12 must not touch key 1 or key 2
    let kept_all = filter_authorized_keys(&content, 12);
    assert_eq!(kept_all, content);
}
