use valentine::parse::{fix_quoted_slash, parse_cmd, parse_repo_arg, strip_dot_git, trim_quotes};

#[test]
fn round_trip_plain() {
    let (verb, args) = parse_cmd("git-upload-pack 'alice/project.git'");
    assert_eq!(verb, "git-upload-pack");
    assert_eq!(args, "'alice/project.git'");
    let rp = parse_repo_arg(&args).unwrap();
    assert_eq!(rp.owner, "alice");
    assert_eq!(rp.name, "project");
}

#[test]
fn round_trip_name_class() {
    let (verb, args) = parse_cmd("git-upload-pack 'User-1_x/Repo-2_y.git'");
    assert_eq!(verb, "git-upload-pack");
    let rp = parse_repo_arg(&args).unwrap();
    assert_eq!(rp.owner, "User-1_x");
    assert_eq!(rp.name, "Repo-2_y");
}

#[test]
fn quote_artifact_tolerated() {
    let plain = parse_cmd("git-upload-pack 'alice/project'");
    let doubled = parse_cmd("git-upload-pack '/alice/project'");
    assert_eq!(plain, doubled);
    let rp = parse_repo_arg(&doubled.1).unwrap();
    assert_eq!(rp.owner, "alice");
    assert_eq!(rp.name, "project");
}

#[test]
fn quote_artifact_only_first() {
    // one replacement only: the second occurrence stays
    assert_eq!(fix_quoted_slash("'/a'/b"), "'a'/b");
    assert_eq!(fix_quoted_slash("x'/y'/z"), "x'y'/z");
    assert_eq!(fix_quoted_slash("no-artifact"), "no-artifact");
}

#[test]
fn no_space_is_failed_parse() {
    assert_eq!(parse_cmd("git-upload-pack"), (String::new(), String::new()));
    assert_eq!(parse_cmd(""), (String::new(), String::new()));
    assert_eq!(parse_cmd("verb "), (String::new(), String::new()));
}

#[test]
fn missing_slash_or_empty_repo_fails() {
    assert!(parse_repo_arg("'aliceproject'").is_none());
    assert!(parse_repo_arg("'alice/'").is_none());
    assert!(parse_repo_arg("").is_none());
}

#[test]
fn repo_keeps_inner_slashes() {
    let rp = parse_repo_arg("'a/b/c'").unwrap();
    assert_eq!(rp.owner, "a");
    assert_eq!(rp.name, "b/c");
}

#[test]
fn quotes_trimmed_from_both_ends() {
    assert_eq!(trim_quotes("'abc'"), "abc");
    assert_eq!(trim_quotes("''abc''"), "abc");
    assert_eq!(trim_quotes("'abc"), "abc");
    assert_eq!(trim_quotes("abc'"), "abc");
    assert_eq!(trim_quotes("''"), "");
    assert_eq!(trim_quotes("a'b"), "a'b");
}

#[test]
fn dot_git_suffix_stripped_repeatedly() {
    assert_eq!(strip_dot_git("project.git"), "project");
    assert_eq!(strip_dot_git("project"), "project");
    assert_eq!(strip_dot_git("project.git.git"), "project");
    assert_eq!(strip_dot_git(".git"), "");
    assert_eq!(strip_dot_git("x.gity"), "x.gity");
}
