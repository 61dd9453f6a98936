//! Canonical repository paths: every entry point that touches the
//! filesystem goes through these builders, so the `.git` suffix can
//! never be applied inconsistently.

use vstd::prelude::*;
use vstd::string::StrSliceExecFns;
use vstd::string::StringExecFns;

verus! {

/// `s` ends with the four characters `.git`.
pub open spec fn spec_ends_with_dot_git(s: Seq<char>) -> bool {
    s.len() >= 4 && s.subrange(s.len() - 4, s.len() as int) == ".git"@
}

/// The on-disk directory name of a repository: the name itself when it
/// already ends in `.git`, else the name with `.git` appended.
pub open spec fn spec_with_git_suffix(name: Seq<char>) -> Seq<char> {
    if spec_ends_with_dot_git(name) {
        name
    } else {
        name + ".git"@
    }
}

/// A repository's path relative to the repository root.
pub open spec fn spec_repo_rel_path(owner: Seq<char>, name: Seq<char>) -> Seq<char> {
    owner + "/"@ + spec_with_git_suffix(name)
}

/// Append `.git` to `name` unless it is already there.
pub fn with_git_suffix(name: &str) -> (r: String)
    ensures
        r@ == spec_with_git_suffix(name@),
{
    proof {
        reveal_strlit(".git");
    }
    let n = name.unicode_len();
    let suffixed = if n >= 4 && name.get_char(n - 4) == '.' && name.get_char(n - 3) == 'g'
        && name.get_char(n - 2) == 'i' && name.get_char(n - 1) == 't' {
        proof {
            assert(name@.subrange(name@.len() - 4, name@.len() as int) =~= ".git"@);
        }
        true
    } else {
        proof {
            if spec_ends_with_dot_git(name@) {
                let tail = name@.subrange(name@.len() - 4, name@.len() as int);
                assert(tail[0] == '.' && tail[1] == 'g' && tail[2] == 'i' && tail[3] == 't');
            }
        }
        false
    };
    if suffixed {
        name.to_owned()
    } else {
        let mut r = name.to_owned();
        r.append(".git");
        r
    }
}

/// Build the repository's path relative to the repository root:
/// `owner/name.git`.
pub fn repo_rel_path(owner: &str, name: &str) -> (r: String)
    ensures
        r@ == spec_repo_rel_path(owner@, name@),
{
    let mut r = owner.to_owned();
    r.append("/");
    let suffixed = with_git_suffix(name);
    r.append(suffixed.as_str());
    r
}

/// Build the repository's absolute path under the repository root
/// directory: `repo_dir/owner/name.git`.
pub fn build_repo_path(repo_dir: &str, owner: &str, name: &str) -> (r: String)
    ensures
        r@ == repo_dir@ + "/"@ + spec_repo_rel_path(owner@, name@),
{
    let mut r = repo_dir.to_owned();
    r.append("/");
    let rel = repo_rel_path(owner, name);
    r.append(rel.as_str());
    proof {
        assert(r@ =~= repo_dir@ + "/"@ + spec_repo_rel_path(owner@, name@));
    }
    r
}

} // verus!
