//! The SSH transport session: from the raw forced-command environment to
//! the decision what to run, and the bookkeeping once the git process
//! has finished. Every failure is terminal for the session.

use vstd::prelude::*;
use crate::access::{access_mode_of, spec_decide, spec_deny_message, AccessMode, Decision};
use crate::parse::{parse_cmd, parse_repo_arg, spec_parse_cmd, spec_parse_repo_arg};
use crate::paths::{repo_rel_path, spec_repo_rel_path};
use crate::store::Store;

verus! {

/// What the SSH entry point should do for this session.
pub enum SshPlan {
    /// There was no command: print the greeting banner and exit 0.
    Banner,
    /// The session fails: print the message and exit 1.
    Reject { message: String },
    /// Run the verb as a git process on the repository path (relative to
    /// the repository root), then hand its exit status to `ssh_finish`.
    Run { verb: String, owner: String, repo: String, path: String, mode: AccessMode },
}

/// The plan that a command line demands of the session: parse the
/// command, parse the repository argument, look the verb up in the verb
/// table, then put the request to the access decision rule, with the
/// caller's identity resolved from the presented key id.
pub open spec fn spec_ssh_plan(store: Store, key_id: i32, cmd: Seq<char>, plan: SshPlan) -> bool {
    let verb = spec_parse_cmd(cmd).0;
    let args = spec_parse_cmd(cmd).1;
    match spec_parse_repo_arg(args) {
        Option::None => plan matches SshPlan::Reject { message } && message@
            == "Invalid repository path"@,
        Option::Some((owner, repo)) => match access_mode_of(verb) {
            Option::None => plan matches SshPlan::Reject { message } && message@
                == "Unknown git command"@,
            Option::Some(mode) => match spec_decide(
                store.spec_key_owner(key_id),
                store.spec_user_id(owner),
                store.spec_lookup_private(owner, repo),
                mode,
            ) {
                Decision::Deny(reason) => plan matches SshPlan::Reject { message } && message@
                    == spec_deny_message(reason),
                Decision::Allow => plan matches SshPlan::Run {
                    verb: pverb,
                    owner: powner,
                    repo: prepo,
                    path,
                    mode: pmode,
                } && pverb@ == verb && powner@ == owner && prepo@ == repo && path@
                    == spec_repo_rel_path(owner, repo) && pmode == mode,
            },
        },
    }
}

/// Decide what an SSH session may do. `cmd` is the client's original
/// command, absent when the user opened a plain shell session; `key_id`
/// is the id embedded in the forced command of the presented key.
pub fn ssh_session(store: &Store, key_id: i32, cmd: Option<&str>) -> (r: SshPlan)
    requires
        store.wf(),
    ensures
        cmd is None ==> r is Banner,
        cmd matches Some(c) ==> spec_ssh_plan(*store, key_id, c@, r),
        r matches SshPlan::Run { owner, repo, .. } ==> store.spec_repo_exists(owner@, repo@),
{
    let c = match cmd {
        None => {
            return SshPlan::Banner;
        },
        Some(c) => c,
    };
    let (verb, args) = parse_cmd(c);
    let rp = match parse_repo_arg(args.as_str()) {
        None => {
            return SshPlan::Reject { message: "Invalid repository path".to_owned() };
        },
        Some(rp) => rp,
    };
    let mode = match AccessMode::new(verb.as_str()) {
        None => {
            return SshPlan::Reject { message: "Unknown git command".to_owned() };
        },
        Some(m) => m,
    };
    let identity = store.user_by_key_id(key_id);
    let decision = store.decide_access(identity, rp.owner.as_str(), rp.name.as_str(), mode);
    match decision {
        Decision::Deny(reason) => SshPlan::Reject { message: reason.message() },
        Decision::Allow => {
            let path = repo_rel_path(rp.owner.as_str(), rp.name.as_str());
            SshPlan::Run { verb, owner: rp.owner, repo: rp.name, path, mode }
        },
    }
}

/// Close the session after the git process ran: report exit code 0 on
/// success and 1 on failure, and bump the repository's `last_updated`
/// exactly when a write-mode operation succeeded. A failed operation
/// leaves the store untouched.
pub fn ssh_finish(
    store: &mut Store,
    owner: &str,
    repo: &str,
    mode: AccessMode,
    exec_ok: bool,
    now: i64,
) -> (exit_code: i32)
    requires
        old(store).wf(),
        mode == AccessMode::Write && exec_ok ==> old(store).spec_repo_exists(owner@, repo@),
    ensures
        final(store).wf(),
        exit_code == if exec_ok { 0i32 } else { 1i32 },
        !(mode == AccessMode::Write && exec_ok) ==> *final(store) == *old(store),
        mode == AccessMode::Write && exec_ok ==> final(store).spec_last_updated(owner@, repo@)
            == Option::Some(now),
        final(store).users == old(store).users,
        final(store).keys == old(store).keys,
        final(store).repos@.len() == old(store).repos@.len(),
{
    if !exec_ok {
        return 1;
    }
    if matches!(mode, AccessMode::Write) {
        store.touch_repo(owner, repo, now);
    }
    0
}

/// Each successful write-mode operation bumps `last_updated` exactly to
/// its own clock reading, as `ssh_finish` ensures; so two successive
/// successful writes at strictly increasing readings leave strictly
/// increasing values behind.
pub proof fn lemma_successive_writes_bump(
    s1: Store,
    s2: Store,
    owner: Seq<char>,
    name: Seq<char>,
    t1: i64,
    t2: i64,
)
    requires
        t1 < t2,
        s1.spec_last_updated(owner, name) == Option::Some(t1),
        s2.spec_last_updated(owner, name) == Option::Some(t2),
    ensures
        s1.spec_last_updated(owner, name).unwrap() < s2.spec_last_updated(owner, name).unwrap(),
{
}

/// A successful write that began at clock reading `started` and was
/// finished at reading `finished` leaves `last_updated` no earlier than
/// its own start. That `started <= finished` is the clock's
/// monotonicity, a premise only the caller holding the clock can supply.
pub proof fn lemma_bump_not_before_start(
    s: Store,
    owner: Seq<char>,
    name: Seq<char>,
    started: i64,
    finished: i64,
)
    requires
        started <= finished,
        s.spec_last_updated(owner, name) == Option::Some(finished),
    ensures
        s.spec_last_updated(owner, name).unwrap() >= started,
{
}

} // verus!
