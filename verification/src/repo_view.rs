//! The pure part of repository browsing: tree listings, readme
//! detection and rendering, and file views. Reading the repository
//! itself is the gateway's work; these functions take what it read.

use vstd::prelude::*;
use vstd::string::StrSliceExecFns;
use vstd::string::StringExecFns;
use crate::keys::{spec_line_split, split_lines};
use crate::text::push_char;
use crate::types::{ObjectKind, RepoItem, RepoSrc};

verus! {

/// What str::to_lowercase turns a string into: the result depends on
/// the characters alone.
pub uninterp spec fn lower_of(s: Seq<char>) -> Seq<char>;

/// Relies on str::to_lowercase from std: the result depends on the
/// characters alone; an empty string stays empty.
#[verifier::external_body]
pub fn lowercase(s: &str) -> (r: String)
    ensures
        r@ == lower_of(s@),
        s@.len() == 0 ==> r@.len() == 0,
{
    s.to_lowercase()
}

/// What pulldown-cmark renders a markdown text to: a pure function of
/// the text.
pub uninterp spec fn markdown_html_of(s: Seq<char>) -> Seq<char>;

/// Relies on pulldown_cmark::Parser::new and
/// pulldown_cmark::html::push_html: the rendering is a pure function of
/// the markdown text.
#[verifier::external_body]
pub fn markdown_to_html(s: &str) -> (r: String)
    ensures
        r@ == markdown_html_of(s@),
{
    let events = pulldown_cmark::Parser::new(s);
    let mut buf = String::new();
    pulldown_cmark::html::push_html(&mut buf, events);
    buf
}

/// One character as HTML text: the three markup characters become
/// entities, everything else stands as it is.
pub open spec fn spec_html_escape_char(c: char) -> Seq<char> {
    if c == '&' {
        "&amp;"@
    } else if c == '<' {
        "&lt;"@
    } else if c == '>' {
        "&gt;"@
    } else {
        seq![c]
    }
}

/// A string as HTML text, character by character.
pub open spec fn spec_html_escape(s: Seq<char>) -> Seq<char>
    decreases s.len(),
{
    if s.len() == 0 {
        Seq::empty()
    } else {
        spec_html_escape_char(s[0]) + spec_html_escape(s.drop_first())
    }
}

/// Relies on html_escape::encode_text: it escapes exactly the three
/// characters `&`, `<` and `>`, as its documentation states.
#[verifier::external_body]
pub fn html_escape_text(s: &str) -> (r: String)
    ensures
        r@ == spec_html_escape(s@),
{
    html_escape::encode_text(s).into_owned()
}

/// What humansize renders a byte count to under its decimal options: a
/// pure function of the count.
pub uninterp spec fn decimal_size_of(n: int) -> Seq<char>;

/// Relies on humansize::format_size with the DECIMAL options: a pure
/// function of the size.
#[verifier::external_body]
pub fn format_file_size(n: usize) -> (r: String)
    ensures
        r@ == decimal_size_of(n as int),
{
    humansize::format_size(n, humansize::DECIMAL)
}

/// `s` starts with `prefix`.
pub open spec fn spec_starts_with(s: Seq<char>, prefix: Seq<char>) -> bool {
    s.len() >= prefix.len() && s.subrange(0, prefix.len() as int) == prefix
}

/// `s` ends with `suffix`.
pub open spec fn spec_ends_with(s: Seq<char>, suffix: Seq<char>) -> bool {
    s.len() >= suffix.len() && s.subrange(s.len() - suffix.len(), s.len() as int) == suffix
}

/// Whether `s` starts with `prefix`.
pub fn str_starts_with(s: &str, prefix: &str) -> (r: bool)
    ensures
        r == spec_starts_with(s@, prefix@),
{
    let n = s.unicode_len();
    let m = prefix.unicode_len();
    if m > n {
        return false;
    }
    let mut i: usize = 0;
    while i < m
        invariant
            n == s@.len(),
            m == prefix@.len(),
            m <= n,
            i <= m,
            forall|j: int| 0 <= j < i ==> s@[j] == prefix@[j],
        decreases m - i,
    {
        if s.get_char(i) != prefix.get_char(i) {
            proof {
                assert(s@.subrange(0, prefix@.len() as int)[i as int] == s@[i as int]);
            }
            return false;
        }
        i += 1;
    }
    proof {
        assert(s@.subrange(0, prefix@.len() as int) =~= prefix@);
    }
    true
}

/// Whether `s` ends with `suffix`.
pub fn str_ends_with(s: &str, suffix: &str) -> (r: bool)
    ensures
        r == spec_ends_with(s@, suffix@),
{
    let n = s.unicode_len();
    let m = suffix.unicode_len();
    if m > n {
        return false;
    }
    let mut i: usize = 0;
    while i < m
        invariant
            n == s@.len(),
            m == suffix@.len(),
            m <= n,
            i <= m,
            forall|j: int| 0 <= j < i ==> s@[n - m + j] == suffix@[j],
        decreases m - i,
    {
        if s.get_char(n - m + i) != suffix.get_char(i) {
            proof {
                assert(s@.subrange(s@.len() - suffix@.len(), s@.len() as int)[i as int]
                    == s@[n - m + i]);
            }
            return false;
        }
        i += 1;
    }
    proof {
        assert(s@.subrange(s@.len() - suffix@.len(), s@.len() as int) =~= suffix@);
    }
    true
}

/// The lines of the escaped text, each closed with a break tag.
pub open spec fn spec_br_join(ls: Seq<Seq<char>>) -> Seq<char>
    decreases ls.len(),
{
    if ls.len() == 0 {
        Seq::empty()
    } else {
        ls[0] + "<br>"@ + spec_br_join(ls.drop_first())
    }
}

/// A plain-text readme as HTML: the text escaped, then line by line
/// with a break tag after each line.
pub open spec fn spec_parse_readme(content: Seq<char>) -> Seq<char> {
    spec_br_join(spec_line_split(spec_html_escape(content)))
}

/// Render a plain-text readme as HTML.
pub fn parse_readme(readme: &str) -> (r: String)
    ensures
        r@ == spec_parse_readme(readme@),
{
    let content = html_escape_text(readme);
    let lines = split_lines(content.as_str());
    let ghost all = lines.deep_view();
    let mut out = String::new();
    let n = lines.len();
    let mut i: usize = 0;
    proof {
        assert(all.subrange(0, n as int) =~= all);
        assert(Seq::<char>::empty() + spec_br_join(all) =~= spec_br_join(all));
    }
    while i < n
        invariant
            n == all.len(),
            all == lines.deep_view(),
            i <= n,
            spec_br_join(all) == out@ + spec_br_join(all.subrange(i as int, n as int)),
        decreases n - i,
    {
        let ghost remaining = all.subrange(i as int, n as int);
        proof {
            assert(remaining[0] == all[i as int]);
            assert(all[i as int] == lines.deep_view()[i as int]);
            assert(remaining.drop_first() =~= all.subrange(i + 1, n as int));
        }
        out.append(lines[i].as_str());
        out.append("<br>");
        proof {
            reveal_strlit("<br>");
            assert(out@ =~= (out@.subrange(0, out@.len() - 4 - all[i as int].len())
                + (all[i as int] + "<br>"@)));
        }
        i += 1;
    }
    proof {
        assert(spec_br_join(all.subrange(n as int, n as int)) == Seq::<char>::empty());
        assert(out@ + Seq::<char>::empty() =~= out@);
    }
    out
}

/// A rendered readme: markdown files go through the markdown renderer,
/// everything else is escaped plain text. `name_lower` is the file name
/// in lower case.
pub open spec fn spec_render_readme(name_lower: Seq<char>, content: Seq<char>) -> Seq<char> {
    if spec_ends_with(name_lower, ".md"@) || spec_ends_with(name_lower, ".markdown"@) {
        markdown_html_of(content)
    } else {
        spec_parse_readme(content)
    }
}

/// Render a readme file by its lower-case name and content.
pub fn render_readme(name_lower: &str, content: &str) -> (r: String)
    ensures
        r@ == spec_render_readme(name_lower@, content@),
{
    if str_ends_with(name_lower, ".md") || str_ends_with(name_lower, ".markdown") {
        markdown_to_html(content)
    } else {
        parse_readme(content)
    }
}

/// One entry of a tree as the gateway read it: its name, what it is,
/// and its text content where it is a readable text blob.
pub struct TreeEntry {
    pub name: String,
    pub obj_type: ObjectKind,
    pub content: Option<String>,
}

/// The readme a single entry contributes: a blob whose lower-case name
/// starts with `readme` and whose content could be read renders; any
/// other entry contributes none.
pub open spec fn spec_entry_readme(e: TreeEntry) -> Option<Seq<char>> {
    if spec_starts_with(lower_of(e.name@), "readme"@) && e.obj_type == ObjectKind::Blob {
        match e.content {
            Option::Some(c) => Option::Some(spec_render_readme(lower_of(e.name@), c@)),
            Option::None => Option::None,
        }
    } else {
        Option::None
    }
}

/// The readme of a tree: the first entry that contributes one.
pub open spec fn spec_first_readme(entries: Seq<TreeEntry>) -> Option<Seq<char>>
    decreases entries.len(),
{
    if entries.len() == 0 {
        Option::None
    } else {
        match spec_entry_readme(entries[0]) {
            Option::Some(r) => Option::Some(r),
            Option::None => spec_first_readme(entries.drop_first()),
        }
    }
}

/// List a tree: one item per entry, in order, and the first readme
/// found, rendered.
pub fn read_tree(entries: &Vec<TreeEntry>) -> (r: (Vec<RepoItem>, Option<String>))
    ensures
        r.0@.len() == entries@.len(),
        forall|i: int|
            0 <= i < entries@.len() ==> (#[trigger] r.0@[i]).name@ == entries@[i].name@
                && r.0@[i].obj_type == entries@[i].obj_type,
        r.1 is Some <==> spec_first_readme(entries@) is Some,
        r.1 matches Some(m) ==> spec_first_readme(entries@) == Option::Some(m@),
{
    let n = entries.len();
    let mut items: Vec<RepoItem> = Vec::new();
    let mut readme: Option<String> = None;
    let mut i: usize = 0;
    proof {
        assert(entries@.subrange(0, n as int) =~= entries@);
    }
    while i < n
        invariant
            n == entries@.len(),
            i <= n,
            items@.len() == i,
            forall|j: int|
                0 <= j < i ==> (#[trigger] items@[j]).name@ == entries@[j].name@
                    && items@[j].obj_type == entries@[j].obj_type,
            readme is None ==> spec_first_readme(entries@) == spec_first_readme(
                entries@.subrange(i as int, n as int),
            ),
            readme matches Some(m) ==> spec_first_readme(entries@) == Option::Some(m@),
        decreases n - i,
    {
        let ghost remaining = entries@.subrange(i as int, n as int);
        proof {
            assert(remaining[0] == entries@[i as int]);
            assert(remaining.drop_first() =~= entries@.subrange(i + 1, n as int));
        }
        let name_lower = lowercase(entries[i].name.as_str());
        if readme.is_none() && str_starts_with(name_lower.as_str(), "readme") && matches!(
            entries[i].obj_type,
            ObjectKind::Blob,
        ) {
            match &entries[i].content {
                Some(c) => {
                    readme = Some(render_readme(name_lower.as_str(), c.as_str()));
                },
                None => {},
            }
        }
        items.push(
            RepoItem { name: entries[i].name.clone(), obj_type: entries[i].obj_type },
        );
        i += 1;
    }
    proof {
        if readme is None {
            assert(spec_first_readme(entries@.subrange(n as int, n as int)) is None);
        }
    }
    (items, readme)
}

/// Number the lines of a file for display, the first line as 1.
pub fn file_listing(content: &str) -> (r: Vec<(usize, String)>)
    ensures
        r@.len() == spec_line_split(content@).len(),
        forall|i: int|
            0 <= i < r@.len() ==> (#[trigger] r@[i]).0 == i + 1 && r@[i].1@ == spec_line_split(
                content@,
            )[i],
{
    let lines = split_lines(content);
    let ghost all = lines.deep_view();
    let n = lines.len();
    let mut r: Vec<(usize, String)> = Vec::new();
    let mut i: usize = 0;
    while i < n
        invariant
            n == all.len(),
            all == lines.deep_view(),
            all == spec_line_split(content@),
            i <= n,
            r@.len() == i,
            forall|j: int| 0 <= j < i ==> (#[trigger] r@[j]).0 == j + 1 && r@[j].1@ == all[j],
        decreases n - i,
    {
        proof {
            assert(all[i as int] == lines.deep_view()[i as int]);
        }
        r.push((i + 1, lines[i].clone()));
        i += 1;
    }
    r
}

/// `r` is the file view of the text `c`: the numbered lines of `c`,
/// and the byte count of `c` rendered as its size.
pub open spec fn spec_is_file_view(r: RepoSrc, c: Seq<char>) -> bool {
    r matches RepoSrc::File { file, size } && file@.len() == spec_line_split(c).len() && (forall|
        i: int,
    |
        0 <= i < file@.len() ==> (#[trigger] file@[i]).0 == i + 1 && file@[i].1@
            == spec_line_split(c)[i]) && size@ == decimal_size_of(
        vstd::utf8::encode_utf8(c).len() as usize as int,
    )
}

/// The view of a blob at a path: a readable one becomes a numbered
/// listing with its size rendered; an unreadable one cannot be shown.
pub fn src_for_blob(content: Option<String>) -> (r: RepoSrc)
    ensures
        content is None ==> r is Error,
        content matches Some(c) ==> spec_is_file_view(r, c@),
{
    match content {
        None => RepoSrc::Error,
        Some(c) => {
            let file = file_listing(c.as_str());
            let size = format_file_size(c.as_str().len());
            let r = RepoSrc::File { file, size };
            proof {
                assert(spec_is_file_view(r, c@));
            }
            r
        },
    }
}

/// The view of a tree at a path: its listing and its readme.
pub fn src_for_tree(entries: &Vec<TreeEntry>) -> (r: RepoSrc)
    ensures
        r matches RepoSrc::Dir { items, readme } && items@.len() == entries@.len() && (forall|
            i: int,
        |
            0 <= i < entries@.len() ==> (#[trigger] items@[i]).name@ == entries@[i].name@
                && items@[i].obj_type == entries@[i].obj_type) && (readme is Some
            <==> spec_first_readme(entries@) is Some) && (readme matches Some(m)
            ==> spec_first_readme(entries@) == Option::Some(m@)),
{
    let (items, readme) = read_tree(entries);
    RepoSrc::Dir { items, readme }
}

} // verus!
