use valentine::paths::{build_repo_path, repo_rel_path, with_git_suffix};
use valentine::repo_view::{
    file_listing, format_file_size, html_escape_text, lowercase, markdown_to_html, parse_readme,
    read_tree, render_readme, src_for_blob, src_for_tree, TreeEntry,
};
use valentine::templates::{Context, Navbar, Template, TemplateError, TemplateHead};
use valentine::types::{ObjectKind, RepoSrc};

fn ctx() -> Context {
    Context {
        mount: "/".to_string(),
        name: "Valentine".to_string(),
        url: "http://localhost".to_string(),
        ssh: "git@localhost".to_string(),
        signup: true,
        repo_dir: "/srv/git".to_string(),
        ssh_dir: "/home/git/.ssh".to_string(),
        bin_path: "/usr/bin/valentine".to_string(),
        config_path: "/etc/valentine.toml".to_string(),
    }
}

#[test]
fn paths_append_git_once() {
    assert_eq!(with_git_suffix("project"), "project.git");
    assert_eq!(with_git_suffix("project.git"), "project.git");
    assert_eq!(repo_rel_path("alice", "project"), "alice/project.git");
    assert_eq!(repo_rel_path("alice", "project.git"), "alice/project.git");
    assert_eq!(build_repo_path("/srv/git", "alice", "project"), "/srv/git/alice/project.git");
}

#[test]
fn escaped_text_readme() {
    assert_eq!(html_escape_text("a&b<c>d"), "a&amp;b&lt;c&gt;d");
    assert_eq!(parse_readme("a&b\nc"), "a&amp;b<br>c<br>");
    assert_eq!(parse_readme(""), "");
}

#[test]
fn markdown_readme_goes_through_the_renderer() {
    let rendered = render_readme("readme.md", "# Hi");
    assert_eq!(rendered, markdown_to_html("# Hi"));
    assert!(rendered.contains("<h1"));
    // a plain-text readme does not
    assert_eq!(render_readme("readme.txt", "# Hi"), "# Hi<br>");
}

#[test]
fn lowercase_folds_names() {
    assert_eq!(lowercase("README.MD"), "readme.md");
    assert_eq!(lowercase("ReadMe"), "readme");
}

#[test]
fn tree_listing_keeps_order_and_finds_readme() {
    let entries = vec![
        TreeEntry { name: "src".to_string(), obj_type: ObjectKind::Tree, content: None },
        TreeEntry {
            name: "README.md".to_string(),
            obj_type: ObjectKind::Blob,
            content: Some("# Title".to_string()),
        },
        TreeEntry {
            name: "readme.txt".to_string(),
            obj_type: ObjectKind::Blob,
            content: Some("second".to_string()),
        },
    ];
    let (items, readme) = read_tree(&entries);
    assert_eq!(items.len(), 3);
    assert_eq!(items[0].name, "src");
    assert_eq!(items[0].obj_type, ObjectKind::Tree);
    assert_eq!(items[1].name, "README.md");
    // the first readme wins, rendered as markdown
    assert_eq!(readme.unwrap(), markdown_to_html("# Title"));
}

#[test]
fn readme_must_be_a_readable_blob() {
    let entries = vec![
        TreeEntry { name: "readme".to_string(), obj_type: ObjectKind::Tree, content: None },
        TreeEntry { name: "readme.bin".to_string(), obj_type: ObjectKind::Blob, content: None },
        TreeEntry { name: "notes.txt".to_string(), obj_type: ObjectKind::Blob, content: Some("x".to_string()) },
    ];
    let (_, readme) = read_tree(&entries);
    assert!(readme.is_none());
}

#[test]
fn file_listing_numbers_from_one() {
    let listing = file_listing("alpha\nbeta\ngamma");
    assert_eq!(listing.len(), 3);
    assert_eq!(listing[0], (1, "alpha".to_string()));
    assert_eq!(listing[2], (3, "gamma".to_string()));
}

#[test]
fn blob_view_carries_size_and_lines() {
    match src_for_blob(Some("one\ntwo".to_string())) {
        RepoSrc::File { file, size } => {
            assert_eq!(file, vec![(1, "one".to_string()), (2, "two".to_string())]);
            assert_eq!(size, humansize::format_size(7usize, humansize::DECIMAL));
        },
        _ => panic!("expected a file view"),
    }
    assert!(matches!(src_for_blob(None), RepoSrc::Error));
}

#[test]
fn tree_view_wraps_listing() {
    let entries = vec![TreeEntry {
        name: "main.rs".to_string(),
        obj_type: ObjectKind::Blob,
        content: Some("fn main() {}".to_string()),
    }];
    match src_for_tree(&entries) {
        RepoSrc::Dir { items, readme } => {
            assert_eq!(items.len(), 1);
            assert_eq!(items[0].name, "main.rs");
            assert!(readme.is_none());
        },
        _ => panic!("expected a directory view"),
    }
}

#[test]
fn templates_carry_their_context() {
    let context = ctx();
    let head = TemplateHead::new(&context, Some("Title"));
    assert_eq!(head.name, "Valentine");
    assert_eq!(head.title, Some("Title".to_string()));
    let bar = Navbar::new(&context, Some("alice"));
    assert_eq!(bar.username, Some("alice".to_string()));
    assert!(bar.signup);
    let err = TemplateError::new("boom");
    assert_eq!(err.msg, "boom");
    let page = Template::new(&context, Some("Title"), Some(bar), Some("boom"), "<p>x</p>".to_string());
    assert_eq!(page.body, "<p>x</p>");
    assert!(page.error.is_some());
    assert!(page.navbar.is_some());
}
