//! The command parser: from the raw transport command line to a
//! structured `(verb, owner, repository)` request.

use vstd::prelude::*;
use vstd::string::StrSliceExecFns;
use vstd::string::StringExecFns;
use crate::text::{find_char, find_pair, lemma_find_at, spec_find, spec_find_pair, substring};

verus! {

/// `s` without its leading run of single quotes.
pub open spec fn spec_drop_leading_quotes(s: Seq<char>) -> Seq<char>
    decreases s.len(),
{
    if s.len() > 0 && s[0] == '\'' {
        spec_drop_leading_quotes(s.drop_first())
    } else {
        s
    }
}

/// `s` without its trailing run of single quotes.
pub open spec fn spec_drop_trailing_quotes(s: Seq<char>) -> Seq<char>
    decreases s.len(),
{
    if s.len() > 0 && s.last() == '\'' {
        spec_drop_trailing_quotes(s.drop_last())
    } else {
        s
    }
}

/// `s` with single quotes trimmed from both ends.
pub open spec fn spec_trim_quotes(s: Seq<char>) -> Seq<char> {
    spec_drop_trailing_quotes(spec_drop_leading_quotes(s))
}

/// One replacement of the first occurrence of `'/` by `'`: the doubled
/// leading slash some git clients inject after the opening quote.
pub open spec fn spec_fix_quoted_slash(s: Seq<char>) -> Seq<char> {
    match spec_find_pair(s, '\'', '/') {
        Option::None => s,
        Option::Some(i) => s.subrange(0, i + 1) + s.subrange(i + 2, s.len() as int),
    }
}

/// `s` with every trailing `.git` suffix removed.
pub open spec fn spec_strip_dot_git(s: Seq<char>) -> Seq<char>
    decreases s.len(),
{
    if s.len() >= 4 && s.subrange(s.len() - 4, s.len() as int) == ".git"@ {
        spec_strip_dot_git(s.subrange(0, s.len() - 4))
    } else {
        s
    }
}

/// Split at the first space into verb and argument, then undo the quote
/// artifact in the argument. No space, or nothing after it, parses to a
/// pair of empty strings, which callers treat as a failed parse.
pub open spec fn spec_parse_cmd(cmd: Seq<char>) -> (Seq<char>, Seq<char>) {
    match spec_find(cmd, ' ') {
        Option::None => (Seq::<char>::empty(), Seq::<char>::empty()),
        Option::Some(i) => {
            let rest = cmd.subrange(i + 1, cmd.len() as int);
            if rest.len() == 0 {
                (Seq::<char>::empty(), Seq::<char>::empty())
            } else {
                (cmd.subrange(0, i), spec_fix_quoted_slash(rest))
            }
        },
    }
}

/// The argument with its quotes trimmed, split at the first slash into
/// owner and repository, the repository's `.git` suffix stripped. No
/// slash, or an empty repository part, is a parse failure.
pub open spec fn spec_parse_repo_arg(args: Seq<char>) -> Option<(Seq<char>, Seq<char>)> {
    let p = spec_trim_quotes(args);
    match spec_find(p, '/') {
        Option::None => Option::None,
        Option::Some(i) => {
            let rest = p.subrange(i + 1, p.len() as int);
            if rest.len() == 0 {
                Option::None
            } else {
                Option::Some((p.subrange(0, i), spec_strip_dot_git(rest)))
            }
        },
    }
}

/// An owner and a repository name as used for all store lookups; the
/// name carries no `.git` suffix.
pub struct RepoPath {
    pub owner: String,
    pub name: String,
}

/// Trim single quotes from both ends of `s`.
pub fn trim_quotes(s: &str) -> (r: String)
    ensures
        r@ == spec_trim_quotes(s@),
{
    let n = s.unicode_len();
    proof {
        assert(s@.subrange(0, n as int) =~= s@);
    }
    let mut i: usize = 0;
    while i < n && s.get_char(i) == '\''
        invariant
            n == s@.len(),
            i <= n,
            spec_drop_leading_quotes(s@) == spec_drop_leading_quotes(
                s@.subrange(i as int, n as int),
            ),
        decreases n - i,
    {
        proof {
            let part = s@.subrange(i as int, n as int);
            assert(part[0] == '\'');
            assert(part.drop_first() =~= s@.subrange(i + 1, n as int));
        }
        i += 1;
    }
    proof {
        let part = s@.subrange(i as int, n as int);
        if i < n {
            assert(part[0] != '\'');
        }
        assert(spec_drop_leading_quotes(s@) == part);
    }
    let mut j: usize = n;
    while j > i && s.get_char(j - 1) == '\''
        invariant
            n == s@.len(),
            i <= j <= n,
            spec_drop_leading_quotes(s@) == s@.subrange(i as int, n as int),
            spec_drop_trailing_quotes(s@.subrange(i as int, n as int))
                == spec_drop_trailing_quotes(s@.subrange(i as int, j as int)),
        decreases j,
    {
        proof {
            let part = s@.subrange(i as int, j as int);
            assert(part.last() == '\'');
            assert(part.drop_last() =~= s@.subrange(i as int, j - 1));
        }
        j -= 1;
    }
    proof {
        let part = s@.subrange(i as int, j as int);
        if j > i {
            assert(part.last() != '\'');
        }
        assert(spec_drop_trailing_quotes(s@.subrange(i as int, j as int)) == part);
    }
    substring(s, i, j)
}

/// Strip every trailing `.git` from `s`.
#[verifier::rlimit(50)]
pub fn strip_dot_git(s: &str) -> (r: String)
    ensures
        r@ == spec_strip_dot_git(s@),
{
    proof {
        reveal_strlit(".git");
    }
    let n = s.unicode_len();
    proof {
        assert(s@.subrange(0, n as int) =~= s@);
    }
    let mut end: usize = n;
    while end >= 4 && s.get_char(end - 4) == '.' && s.get_char(end - 3) == 'g'
        && s.get_char(end - 2) == 'i' && s.get_char(end - 1) == 't'
        invariant
            n == s@.len(),
            end <= n,
            spec_strip_dot_git(s@) == spec_strip_dot_git(s@.subrange(0, end as int)),
        decreases end,
    {
        proof {
            reveal_strlit(".git");
            let part = s@.subrange(0, end as int);
            let tail = part.subrange(part.len() - 4, part.len() as int);
            assert(".git"@.len() == 4);
            assert(".git"@[0] == '.' && ".git"@[1] == 'g' && ".git"@[2] == 'i'
                && ".git"@[3] == 't');
            assert(tail.len() == 4);
            assert(tail[0] == s@[end - 4]);
            assert(tail[1] == s@[end - 3]);
            assert(tail[2] == s@[end - 2]);
            assert(tail[3] == s@[end - 1]);
            assert(tail =~= ".git"@);
            assert(part.subrange(0, part.len() - 4) =~= s@.subrange(0, end - 4));
        }
        end -= 4;
    }
    proof {
        reveal_strlit(".git");
        let part = s@.subrange(0, end as int);
        if end >= 4 {
            let tail = part.subrange(part.len() - 4, part.len() as int);
            if tail == ".git"@ {
                assert(tail[0] == '.' && tail[1] == 'g' && tail[2] == 'i' && tail[3] == 't');
                assert(false);
            }
        }
        assert(spec_strip_dot_git(s@.subrange(0, end as int)) == part);
    }
    substring(s, 0, end)
}

/// Undo the quote artifact: replace the first `'/` by `'`, at most once.
pub fn fix_quoted_slash(s: &str) -> (r: String)
    ensures
        r@ == spec_fix_quoted_slash(s@),
{
    let n = s.unicode_len();
    match find_pair(s, '\'', '/') {
        Some(i) => {
            let mut r = substring(s, 0, i + 1);
            r.append(s.substring_char(i + 2, n));
            r
        },
        None => s.to_owned(),
    }
}

/// Split the raw command line at the first space into `(verb, argument)`,
/// undoing the quote artifact in the argument. A missing space or an
/// empty argument yields two empty strings: a failed parse.
pub fn parse_cmd(cmd: &str) -> (r: (String, String))
    ensures
        r.0@ == spec_parse_cmd(cmd@).0,
        r.1@ == spec_parse_cmd(cmd@).1,
{
    let n = cmd.unicode_len();
    match find_char(cmd, ' ') {
        None => (String::new(), String::new()),
        Some(i) => {
            if i + 1 == n {
                (String::new(), String::new())
            } else {
                let verb = substring(cmd, 0, i);
                let rest = substring(cmd, i + 1, n);
                let args = fix_quoted_slash(rest.as_str());
                (verb, args)
            }
        },
    }
}

/// Parse the quoted `owner/repository` argument of a git verb into its
/// owner and `.git`-stripped repository name.
pub fn parse_repo_arg(args: &str) -> (r: Option<RepoPath>)
    ensures
        match r {
            Option::Some(rp) => spec_parse_repo_arg(args@)
                == Option::Some((rp.owner@, rp.name@)),
            Option::None => spec_parse_repo_arg(args@) is None,
        },
{
    let p = trim_quotes(args);
    let plen = p.as_str().unicode_len();
    match find_char(p.as_str(), '/') {
        None => None,
        Some(i) => {
            if i + 1 == plen {
                None
            } else {
                let owner = substring(p.as_str(), 0, i);
                let rest = substring(p.as_str(), i + 1, plen);
                let name = strip_dot_git(rest.as_str());
                Some(RepoPath { owner, name })
            }
        },
    }
}


/// Characters allowed in owner and repository names: ASCII letters,
/// digits, `-` and `_`.
pub open spec fn is_name_char(c: char) -> bool {
    ('a' <= c && c <= 'z') || ('A' <= c && c <= 'Z') || ('0' <= c && c <= '9') || c == '-'
        || c == '_'
}

/// A command `git-upload-pack <tail>` with a space-free tail parses into
/// the verb `git-upload-pack` and the tail with the quote artifact undone.
pub proof fn lemma_parse_cmd_upload_pack(tail: Seq<char>)
    requires
        tail.len() > 0,
        forall|k: int| 0 <= k < tail.len() ==> tail[k] != ' ',
    ensures
        spec_parse_cmd("git-upload-pack "@ + tail).0 == "git-upload-pack"@,
        spec_parse_cmd("git-upload-pack "@ + tail).1 == spec_fix_quoted_slash(tail),
{
    reveal_strlit("git-upload-pack ");
    reveal_strlit("git-upload-pack");
    let cmd = "git-upload-pack "@ + tail;
    assert(cmd[15] == ' ');
    assert forall|j: int| 0 <= j < 15 implies cmd[j] != ' ' by {
        assert(cmd[j] == "git-upload-pack "@[j]);
    }
    lemma_find_at(cmd, ' ', 15);
    assert(cmd.subrange(0, 15) =~= "git-upload-pack"@);
    assert(cmd.subrange(16, cmd.len() as int) =~= tail);
}

/// A quote-wrapped name pair contains the pattern `'/` nowhere, so the
/// artifact fix leaves it unchanged.
pub proof fn lemma_fix_leaves_clean_arg(owner: Seq<char>, tail: Seq<char>)
    requires
        owner.len() > 0,
        forall|k: int| 0 <= k < owner.len() ==> is_name_char(#[trigger] owner[k]),
        forall|k: int| 0 <= k < tail.len() ==> tail[k] != '\'' || k == tail.len() - 1,
    ensures
        spec_fix_quoted_slash(seq!['\''] + owner + tail) == seq!['\''] + owner + tail,
{
    let s = seq!['\''] + owner + tail;
    assert forall|j: int| 0 <= j < s.len() - 1 implies !#[trigger] crate::text::pair_at(
        s,
        j,
        '\'',
        '/',
    ) by {
        if j == 0 {
            assert(s[1] == owner[0]);
        } else if j < 1 + owner.len() {
            assert(s[j] == owner[j - 1]);
        } else {
            assert(s[j] == tail[j - 1 - owner.len()]);
        }
    }
    crate::text::lemma_find_pair_none(s, '\'', '/');
}

/// Parsing the argument `'owner/repo.git'` recovers the owner and the
/// repository name with the `.git` suffix stripped (the round trip), for
/// any owner and repository made of name characters.
pub proof fn lemma_parse_repo_arg_round_trip(owner: Seq<char>, repo: Seq<char>)
    requires
        owner.len() > 0,
        repo.len() > 0,
        forall|k: int| 0 <= k < owner.len() ==> is_name_char(#[trigger] owner[k]),
        forall|k: int| 0 <= k < repo.len() ==> is_name_char(#[trigger] repo[k]),
    ensures
        spec_parse_repo_arg(seq!['\''] + owner + seq!['/'] + repo + ".git"@ + seq!['\''])
            == Option::Some((owner, repo)),
{
    reveal_strlit(".git");
    let olen = owner.len() as int;
    let rlen = repo.len() as int;
    let args = seq!['\''] + owner + seq!['/'] + repo + ".git"@ + seq!['\''];
    let mid = owner + seq!['/'] + repo + ".git"@;

    // quotes trimmed: exactly one from each end
    let unquoted = mid + seq!['\''];
    assert(args[0] == '\'');
    assert(args.drop_first() =~= unquoted);
    assert(is_name_char(owner[0]));
    assert(unquoted[0] == owner[0]);
    assert(unquoted[0] != '\'');
    assert(spec_drop_leading_quotes(unquoted) == unquoted);
    assert(spec_drop_leading_quotes(args) == spec_drop_leading_quotes(args.drop_first()));
    assert(spec_drop_leading_quotes(args) == unquoted);
    assert(unquoted.last() == '\'');
    assert(unquoted.drop_last() =~= mid);
    assert(mid.last() == ".git"@[3]);
    assert(mid.last() == 't');
    assert(spec_drop_trailing_quotes(mid) == mid);
    assert(spec_drop_trailing_quotes(unquoted) == spec_drop_trailing_quotes(unquoted.drop_last()));
    assert(spec_drop_trailing_quotes(unquoted) == mid);
    assert(spec_trim_quotes(args) == mid);

    // the first slash sits right after the owner
    assert(mid[olen] == '/');
    assert forall|j: int| 0 <= j < olen implies mid[j] != '/' by {
        assert(mid[j] == owner[j]);
    }
    lemma_find_at(mid, '/', olen);
    assert(mid.subrange(0, olen) =~= owner);
    assert(mid.subrange(olen + 1, mid.len() as int) =~= repo + ".git"@);

    // one .git suffix is stripped, and no second one
    let with_suffix = repo + ".git"@;
    assert(with_suffix.subrange(rlen, rlen + 4) =~= ".git"@);
    assert(with_suffix.subrange(0, rlen) =~= repo);
    assert(spec_strip_dot_git(with_suffix) == spec_strip_dot_git(repo));
    if repo.len() >= 4 {
        let tail = repo.subrange(rlen - 4, rlen);
        if tail == ".git"@ {
            assert(tail[0] == '.');
            assert(repo[rlen - 4] == '.');
            assert(false);
        }
    }
    assert(spec_strip_dot_git(repo) == repo);
}

/// The command line `git-upload-pack 'owner/repo.git'`.
pub open spec fn spec_fetch_cmd(owner: Seq<char>, repo: Seq<char>) -> Seq<char> {
    "git-upload-pack '"@ + owner + "/"@ + repo + ".git'"@
}

/// The same command line with the doubled-slash artifact after the
/// opening quote, and without a `.git` suffix.
pub open spec fn spec_fetch_cmd_doubled(owner: Seq<char>, repo: Seq<char>) -> Seq<char> {
    "git-upload-pack '/"@ + owner + "/"@ + repo + "'"@
}

/// The artifact-free counterpart of `spec_fetch_cmd_doubled`.
pub open spec fn spec_fetch_cmd_plain(owner: Seq<char>, repo: Seq<char>) -> Seq<char> {
    "git-upload-pack '"@ + owner + "/"@ + repo + "'"@
}

/// The round trip of the full command line: `git-upload-pack
/// 'owner/repo.git'` parses to the verb `git-upload-pack`, the owner and
/// the repository name without its `.git` suffix.
pub proof fn lemma_parse_round_trip(owner: Seq<char>, repo: Seq<char>)
    requires
        owner.len() > 0,
        repo.len() > 0,
        forall|k: int| 0 <= k < owner.len() ==> is_name_char(#[trigger] owner[k]),
        forall|k: int| 0 <= k < repo.len() ==> is_name_char(#[trigger] repo[k]),
    ensures
        spec_parse_cmd(spec_fetch_cmd(owner, repo)).0 == "git-upload-pack"@,
        spec_parse_repo_arg(spec_parse_cmd(spec_fetch_cmd(owner, repo)).1) == Option::Some(
            (owner, repo),
        ),
{
    reveal_strlit("git-upload-pack '");
    reveal_strlit("git-upload-pack ");
    reveal_strlit("'");
    reveal_strlit("/");
    reveal_strlit(".git'");
    reveal_strlit(".git");
    let cmd = spec_fetch_cmd(owner, repo);
    let args = seq!['\''] + owner + seq!['/'] + repo + ".git"@ + seq!['\''];
    let tail_after_owner = seq!['/'] + repo + ".git"@ + seq!['\''];
    assert(cmd =~= "git-upload-pack "@ + args);
    assert forall|k: int| 0 <= k < args.len() implies args[k] != ' ' by {
        assert(args =~= seq!['\''] + owner + tail_after_owner);
        if 1 <= k < 1 + owner.len() {
            assert(args[k] == owner[k - 1]);
        } else if k >= 1 + owner.len() {
            assert(args[k] == tail_after_owner[k - 1 - owner.len()]);
        }
    }
    lemma_parse_cmd_upload_pack(args);
    assert forall|k: int| 0 <= k < tail_after_owner.len() implies tail_after_owner[k] != '\''
        || k == tail_after_owner.len() - 1 by {}
    assert(args =~= seq!['\''] + owner + tail_after_owner);
    lemma_fix_leaves_clean_arg(owner, tail_after_owner);
    assert(spec_parse_cmd(cmd).1 == args);
    lemma_parse_repo_arg_round_trip(owner, repo);
}

/// Quote-artifact tolerance: a doubled slash right after the opening
/// quote is removed, and exactly once, so the doubled form of the
/// command parses exactly as the plain form does.
pub proof fn lemma_quote_artifact_tolerance(owner: Seq<char>, repo: Seq<char>)
    requires
        owner.len() > 0,
        repo.len() > 0,
        forall|k: int| 0 <= k < owner.len() ==> is_name_char(#[trigger] owner[k]),
        forall|k: int| 0 <= k < repo.len() ==> is_name_char(#[trigger] repo[k]),
    ensures
        spec_parse_cmd(spec_fetch_cmd_doubled(owner, repo)).0
            == spec_parse_cmd(spec_fetch_cmd_plain(owner, repo)).0,
        spec_parse_cmd(spec_fetch_cmd_doubled(owner, repo)).1
            == spec_parse_cmd(spec_fetch_cmd_plain(owner, repo)).1,
{
    reveal_strlit("git-upload-pack '/");
    reveal_strlit("git-upload-pack '");
    reveal_strlit("git-upload-pack ");
    reveal_strlit("'");
    reveal_strlit("/");
    let doubled = spec_fetch_cmd_doubled(owner, repo);
    let plain = spec_fetch_cmd_plain(owner, repo);
    let args_doubled = seq!['\'', '/'] + owner + seq!['/'] + repo + seq!['\''];
    let args_plain = seq!['\''] + owner + seq!['/'] + repo + seq!['\''];
    let tail_after_owner = seq!['/'] + repo + seq!['\''];
    assert(doubled =~= "git-upload-pack "@ + args_doubled);
    assert(plain =~= "git-upload-pack "@ + args_plain);
    assert forall|k: int| 0 <= k < args_doubled.len() implies args_doubled[k] != ' ' by {
        assert(args_doubled =~= seq!['\'', '/'] + owner + tail_after_owner);
        if 2 <= k < 2 + owner.len() {
            assert(args_doubled[k] == owner[k - 2]);
        } else if k >= 2 + owner.len() {
            assert(args_doubled[k] == tail_after_owner[k - 2 - owner.len()]);
        }
    }
    assert forall|k: int| 0 <= k < args_plain.len() implies args_plain[k] != ' ' by {
        assert(args_plain =~= seq!['\''] + owner + tail_after_owner);
        if 1 <= k < 1 + owner.len() {
            assert(args_plain[k] == owner[k - 1]);
        } else if k >= 1 + owner.len() {
            assert(args_plain[k] == tail_after_owner[k - 1 - owner.len()]);
        }
    }
    lemma_parse_cmd_upload_pack(args_doubled);
    lemma_parse_cmd_upload_pack(args_plain);

    // the doubled form holds the pattern at its start, and nowhere before
    assert(crate::text::pair_at(args_doubled, 0, '\'', '/'));
    crate::text::lemma_find_pair_at(args_doubled, '\'', '/', 0);
    assert(spec_fix_quoted_slash(args_doubled) =~= args_plain);

    // the plain form holds it nowhere, so the fix leaves it unchanged
    assert(args_plain =~= seq!['\''] + owner + tail_after_owner);
    assert forall|k: int| 0 <= k < tail_after_owner.len() implies tail_after_owner[k] != '\''
        || k == tail_after_owner.len() - 1 by {}
    lemma_fix_leaves_clean_arg(owner, tail_after_owner);
}

} // verus!
