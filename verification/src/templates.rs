//! The view models handed to the page templates, and the context every
//! request handler works from.

use vstd::prelude::*;
use crate::types::{Branch, Commit, Repo, RepoItem, RepoSrc, SshKey, Tag};

verus! {

/// What request handling works from: the site's identity and mount
/// point, and the directories and paths the gateway uses.
pub struct Context {
    pub mount: String,
    pub name: String,
    pub url: String,
    pub ssh: String,
    pub signup: bool,
    pub repo_dir: String,
    pub ssh_dir: String,
    pub bin_path: String,
    pub config_path: String,
}

/// The head of every page.
pub struct TemplateHead {
    pub name: String,
    pub mount: String,
    pub title: Option<String>,
}

impl TemplateHead {
    /// The head for this site, with an optional page title.
    pub fn new(ctx: &Context, title: Option<&str>) -> (r: TemplateHead)
        ensures
            r.name@ == ctx.name@,
            r.mount@ == ctx.mount@,
            r.title is Some <==> title is Some,
            r.title matches Some(t) ==> title matches Some(given) && t@ == given@,
    {
        TemplateHead {
            name: ctx.name.clone(),
            mount: ctx.mount.clone(),
            title: match title {
                Some(t) => Some(t.to_owned()),
                None => None,
            },
        }
    }
}

/// An error banner.
pub struct TemplateError {
    pub msg: String,
}

impl TemplateError {
    /// A banner showing this message.
    pub fn new(msg: &str) -> (r: TemplateError)
        ensures
            r.msg@ == msg@,
    {
        TemplateError { msg: msg.to_owned() }
    }
}

/// The foot of every page.
pub struct TemplateFoot;

/// The navigation bar.
pub struct Navbar {
    pub name: String,
    pub mount: String,
    pub signup: bool,
    pub username: Option<String>,
}

impl Navbar {
    /// The bar for this site, naming the signed-in user if there is one.
    pub fn new(ctx: &Context, username: Option<&str>) -> (r: Navbar)
        ensures
            r.name@ == ctx.name@,
            r.mount@ == ctx.mount@,
            r.signup == ctx.signup,
            r.username is Some <==> username is Some,
            r.username matches Some(u) ==> username matches Some(given) && u@ == given@,
    {
        Navbar {
            name: ctx.name.clone(),
            mount: ctx.mount.clone(),
            signup: ctx.signup,
            username: match username {
                Some(u) => Some(u.to_owned()),
                None => None,
            },
        }
    }
}

/// A whole page: head, optional navigation bar and error banner, the
/// body, and the foot.
pub struct Template {
    pub head: TemplateHead,
    pub navbar: Option<Navbar>,
    pub error: Option<TemplateError>,
    pub body: String,
    pub foot: TemplateFoot,
}

impl Template {
    /// Assemble a page around a rendered body.
    pub fn new(
        ctx: &Context,
        title: Option<&str>,
        navbar: Option<Navbar>,
        error: Option<&str>,
        body: String,
    ) -> (r: Template)
        ensures
            r.head.name@ == ctx.name@,
            r.head.mount@ == ctx.mount@,
            r.body@ == body@,
            r.error is Some <==> error is Some,
            r.navbar is Some <==> navbar is Some,
    {
        let head = TemplateHead::new(ctx, title);
        let error_banner = match error {
            Some(msg) => Some(TemplateError::new(msg)),
            None => None,
        };
        Template { head, navbar, error: error_banner, body, foot: TemplateFoot }
    }
}

/// The landing page.
pub struct HomeTmpl;

/// The explore page: every public repository with its owner's name.
pub struct ExploreTmpl {
    pub mount: String,
    pub repos: Vec<(String, String)>,
}

/// A user's page: their repositories.
pub struct UserTmpl {
    pub mount: String,
    pub username: String,
    pub repos: Vec<Repo>,
}

/// A user's settings page: their email and keys.
pub struct UserSettings {
    pub mount: String,
    pub username: String,
    pub email: String,
    pub keys: Vec<SshKey>,
}

/// A repository's front page.
pub struct RepoTmpl {
    pub url: String,
    pub ssh: String,
    pub mount: String,
    pub username: String,
    pub repo: Repo,
    pub branches: Vec<Branch>,
    pub tags: Vec<Tag>,
    pub commits: Vec<Commit>,
    pub items: Vec<RepoItem>,
    pub readme: Option<String>,
    pub empty: bool,
}

/// One commit's page.
pub struct CommitTmpl {
    pub mount: String,
    pub username: String,
    pub repo: Repo,
    pub refname: String,
    pub commit: Commit,
    pub items: Vec<RepoItem>,
    pub readme: Option<String>,
}

/// A repository's settings page.
pub struct RepoSettingsTmpl {
    pub mount: String,
    pub username: String,
    pub repo: Repo,
}

/// A repository's branches and tags.
pub struct RefsTmpl {
    pub mount: String,
    pub username: String,
    pub repo: Repo,
    pub branches: Vec<Branch>,
    pub tags: Vec<Tag>,
}

/// A page of a repository's log.
pub struct RepoLogTmpl {
    pub mount: String,
    pub username: String,
    pub repo: Repo,
    pub id: String,
    pub log: Vec<Commit>,
    pub next: Option<String>,
}

/// A file or directory inside a repository.
pub struct RepoSrcTmpl {
    pub mount: String,
    pub url: String,
    pub username: String,
    pub repo: Repo,
    pub filename: String,
    pub src: RepoSrc,
}

} // verus!
