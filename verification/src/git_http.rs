//! The smart-HTTP side of the transport: the pkt-line framing of the
//! `info/refs` handshake, and the access gate both git routes run before
//! the gateway is consulted. Push over HTTP is never supported.

use vstd::prelude::*;
use vstd::string::StrSliceExecFns;
use vstd::string::StringExecFns;
use crate::access::{access_mode_of, spec_decide, AccessMode, Decision};
use crate::parse::strip_dot_git;
use crate::store::Store;
use crate::text::push_char;

verus! {

/// The hexadecimal digit for `n`, lowercase.
pub open spec fn spec_hex_digit(n: int) -> char {
    "0123456789abcdef"@[n]
}

/// The four lowercase hexadecimal digits of `n`, zero-padded.
pub open spec fn spec_hex4(n: int) -> Seq<char> {
    seq![
        spec_hex_digit(n / 4096 % 16),
        spec_hex_digit(n / 256 % 16),
        spec_hex_digit(n / 16 % 16),
        spec_hex_digit(n % 16),
    ]
}

/// The pkt-line frame of a payload: the length of the payload plus the
/// four prefix bytes themselves, as four hex digits, then the payload.
pub open spec fn spec_pkt_line(payload: Seq<char>) -> Seq<char> {
    spec_hex4(payload.len() as int + 4) + payload
}

/// The fixed prefix of the `info/refs` response body: the pkt-line frame
/// of the service announcement packet, then a flush packet.
pub open spec fn spec_advertisement_prefix() -> Seq<char> {
    spec_pkt_line("# service=git-upload-pack\n"@) + "0000"@
}

/// The bytes of an ASCII character sequence, one byte per character.
pub open spec fn spec_ascii_bytes(s: Seq<char>) -> Seq<u8> {
    Seq::new(s.len(), |i: int| s[i] as u8)
}

/// One lowercase hexadecimal digit.
pub fn hex_digit(n: u16) -> (r: char)
    requires
        n < 16,
    ensures
        r == spec_hex_digit(n as int),
{
    proof {
        reveal_strlit("0123456789abcdef");
    }
    "0123456789abcdef".get_char(n as usize)
}

/// The four lowercase hexadecimal digits of `n`, zero-padded.
pub fn hex4(n: u16) -> (r: String)
    ensures
        r@ == spec_hex4(n as int),
{
    let mut r = String::new();
    push_char(&mut r, hex_digit(n / 4096 % 16));
    push_char(&mut r, hex_digit(n / 256 % 16));
    push_char(&mut r, hex_digit(n / 16 % 16));
    push_char(&mut r, hex_digit(n % 16));
    proof {
        assert(r@ =~= spec_hex4(n as int));
    }
    r
}

/// Frame a payload as one pkt-line: four hex digits holding the length
/// of the payload plus the four digits themselves, then the payload.
pub fn pkt_line(payload: &str) -> (r: String)
    requires
        payload@.len() + 4 <= 0xffff,
    ensures
        r@ == spec_pkt_line(payload@),
{
    let n = payload.unicode_len();
    let mut r = hex4((n + 4) as u16);
    r.append(payload);
    r
}

/// Build the fixed prefix of the `info/refs` response body.
pub fn advertisement_prefix() -> (r: String)
    ensures
        r@ == spec_advertisement_prefix(),
{
    proof {
        reveal_strlit("# service=git-upload-pack\n");
    }
    let mut r = pkt_line("# service=git-upload-pack\n");
    r.append("0000");
    r
}

/// The advertisement prefix, written out: the packet is 26 characters,
/// so the frame length is 30, `001e` in hex.
pub proof fn lemma_advertisement_prefix_exact()
    ensures
        spec_advertisement_prefix() == "001e# service=git-upload-pack\n0000"@,
{
    reveal_strlit("# service=git-upload-pack\n");
    reveal_strlit("0000");
    reveal_strlit("001e# service=git-upload-pack\n0000");
    reveal_strlit("0123456789abcdef");
    assert(spec_hex4(30) =~= seq!['0', '0', '1', 'e']);
    assert(spec_advertisement_prefix() =~= "001e# service=git-upload-pack\n0000"@);
}

/// Turn an ASCII string into its bytes, one byte per character. Relies
/// on str::as_bytes from std through vstd's specification of it.
pub fn ascii_bytes(s: &str) -> (r: Vec<u8>)
    requires
        s.is_ascii(),
    ensures
        r@ == spec_ascii_bytes(s@),
{
    broadcast use vstd::string::is_ascii_spec_bytes;

    let r = s.as_bytes_vec();
    proof {
        assert(r@ =~= spec_ascii_bytes(s@));
    }
    r
}

/// The full `info/refs` response body for an advertisement the gateway
/// produced: the fixed pkt-line prefix, then the raw advertisement bytes.
pub fn advertisement_body(pack: &Vec<u8>) -> (r: Vec<u8>)
    ensures
        r@ == spec_ascii_bytes(spec_advertisement_prefix()) + pack@,
{
    let prefix = advertisement_prefix();
    proof {
        lemma_advertisement_prefix_exact();
        reveal_strlit("001e# service=git-upload-pack\n0000");
        assert(vstd::utf8::is_ascii_chars(prefix@));
    }
    let mut r = ascii_bytes(prefix.as_str());
    let n = pack.len();
    let mut i: usize = 0;
    while i < n
        invariant
            n == pack@.len(),
            i <= n,
            r@ == spec_ascii_bytes(spec_advertisement_prefix()) + pack@.subrange(0, i as int),
        decreases n - i,
    {
        r.push(pack[i]);
        proof {
            assert(pack@.subrange(0, i + 1) =~= pack@.subrange(0, i as int).push(
                pack@[i as int],
            ));
            assert(r@ =~= spec_ascii_bytes(spec_advertisement_prefix()) + pack@.subrange(
                0,
                i + 1,
            ));
        }
        i += 1;
    }
    proof {
        assert(pack@.subrange(0, n as int) =~= pack@);
    }
    r
}

/// What an HTTP git route answers before any gateway work: not found,
/// forbidden with a plain-text body, or proceed against the repository.
pub enum HttpReply {
    /// Respond 404; a missing repository and a forbidden private one are
    /// indistinguishable here.
    NotFound,
    /// Respond 403 with this body.
    Forbidden { body: String },
    /// Run the gateway operation against `owner/repo` (the lookup name,
    /// no `.git` suffix).
    Proceed { owner: String, repo: String },
}

/// The dumb-http refusal: this server only speaks the smart protocol.
pub open spec fn spec_dumb_http_body(name: Seq<char>) -> Seq<char> {
    "Please upgrade your git client. "@ + name + " does not support git over dumb-http."@
}

/// The push-over-HTTP refusal.
pub open spec fn spec_no_push_body(name: Seq<char>) -> Seq<char> {
    name + " does not support git-receive-pack over HTTP."@
}

/// The reply the `info/refs` route owes: the service parameter is
/// validated first, so a write verb draws the fixed 403 whatever the
/// repository's existence or visibility; then the access rule decides,
/// and every denial collapses into 404.
pub open spec fn spec_info_refs_reply(
    store: Store,
    identity: Option<i32>,
    name: Seq<char>,
    owner: Seq<char>,
    repo_param: Seq<char>,
    service: Option<Seq<char>>,
    reply: HttpReply,
) -> bool {
    match service {
        Option::None => reply matches HttpReply::Forbidden { body } && body@
            == spec_dumb_http_body(name),
        Option::Some(verb) => match access_mode_of(verb) {
            Option::None => reply matches HttpReply::Forbidden { body } && body@
                == "Unknown git command"@,
            Option::Some(AccessMode::Write) => reply matches HttpReply::Forbidden { body }
                && body@ == spec_no_push_body(name),
            Option::Some(AccessMode::Read) => spec_gate_reply(
                store,
                identity,
                owner,
                repo_param,
                AccessMode::Read,
                reply,
            ),
        },
    }
}

/// The access gate shared by both git routes: look the repository up
/// under its `.git`-stripped name, decide, and turn any denial into 404.
pub open spec fn spec_gate_reply(
    store: Store,
    identity: Option<i32>,
    owner: Seq<char>,
    repo_param: Seq<char>,
    mode: AccessMode,
    reply: HttpReply,
) -> bool {
    let lookup = crate::parse::spec_strip_dot_git(repo_param);
    match spec_decide(
        identity,
        store.spec_user_id(owner),
        store.spec_lookup_private(owner, lookup),
        mode,
    ) {
        Decision::Allow => reply matches HttpReply::Proceed { owner: powner, repo } && powner@
            == owner && repo@ == lookup,
        Decision::Deny(_) => reply is NotFound,
    }
}

/// Gate one git route: strip the `.git` suffix from the path's
/// repository segment, put the request to the access rule, and collapse
/// every denial into 404.
pub fn gate_git_route(
    store: &Store,
    identity: Option<i32>,
    owner: &str,
    repo_param: &str,
    mode: AccessMode,
) -> (r: HttpReply)
    requires
        store.wf(),
    ensures
        spec_gate_reply(*store, identity, owner@, repo_param@, mode, r),
        r matches HttpReply::Proceed { owner: o, repo } ==> store.spec_repo_exists(o@, repo@),
{
    let lookup = strip_dot_git(repo_param);
    let decision = store.decide_access(identity, owner, lookup.as_str(), mode);
    match decision {
        Decision::Allow => HttpReply::Proceed { owner: owner.to_owned(), repo: lookup },
        Decision::Deny(_) => HttpReply::NotFound,
    }
}

/// Answer a `GET {owner}/{repo}/info/refs?service=...` request up to the
/// gateway call: `name` is the site's display name used in the fixed
/// refusal bodies, `identity` the caller resolved from the session, if
/// any. On `Proceed` the route runs the advertisement and frames it with
/// `advertisement_body`.
pub fn info_refs(
    store: &Store,
    identity: Option<i32>,
    name: &str,
    owner: &str,
    repo_param: &str,
    service: Option<&str>,
) -> (r: HttpReply)
    requires
        store.wf(),
    ensures
        service is None ==> spec_info_refs_reply(
            *store,
            identity,
            name@,
            owner@,
            repo_param@,
            Option::None,
            r,
        ),
        service matches Some(v) ==> spec_info_refs_reply(
            *store,
            identity,
            name@,
            owner@,
            repo_param@,
            Option::Some(v@),
            r,
        ),
        r matches HttpReply::Proceed { owner: o, repo } ==> store.spec_repo_exists(o@, repo@),
{
    let verb = match service {
        None => {
            let mut body = "Please upgrade your git client. ".to_owned();
            body.append(name);
            body.append(" does not support git over dumb-http.");
            return HttpReply::Forbidden { body };
        },
        Some(v) => v,
    };
    match AccessMode::new(verb) {
        None => HttpReply::Forbidden { body: "Unknown git command".to_owned() },
        Some(AccessMode::Write) => {
            let mut body = name.to_owned();
            body.append(" does not support git-receive-pack over HTTP.");
            HttpReply::Forbidden { body }
        },
        Some(AccessMode::Read) => gate_git_route(store, identity, owner, repo_param,
            AccessMode::Read),
    }
}

/// Answer a `POST {owner}/{repo}/git-upload-pack` request up to the
/// gateway call: the verb is implied by the route and reads. On
/// `Proceed` the route feeds the request body to the gateway and relays
/// its output, all input before any output.
pub fn upload_pack(store: &Store, identity: Option<i32>, owner: &str, repo_param: &str) -> (r:
    HttpReply)
    requires
        store.wf(),
    ensures
        spec_gate_reply(*store, identity, owner@, repo_param@, AccessMode::Read, r),
        r matches HttpReply::Proceed { owner: o, repo } ==> store.spec_repo_exists(o@, repo@),
{
    gate_git_route(store, identity, owner, repo_param, AccessMode::Read)
}


/// Resolve the identity an HTTP request carries. The session store's
/// answer for the session cookie is accepted only when the companion
/// username cookie names the same user, and is then resolved to that
/// user's id; anything else leaves the caller anonymous.
pub fn resolve_http_identity(
    store: &Store,
    session_name: Option<&str>,
    username_cookie: Option<&str>,
) -> (r: Option<i32>)
    requires
        store.wf(),
    ensures
        session_name is None || username_cookie is None ==> r is None,
        session_name matches Some(s) ==> (username_cookie matches Some(c) ==> (s@ != c@ ==> r
            is None)),
        session_name matches Some(s) ==> (username_cookie matches Some(c) ==> (s@ == c@ ==> r
            == store.spec_user_id(s@))),
{
    let s = match session_name {
        None => {
            return None;
        },
        Some(s) => s,
    };
    let c = match username_cookie {
        None => {
            return None;
        },
        Some(c) => c,
    };
    if crate::text::str_eq(s, c) {
        store.user_id(s)
    } else {
        None
    }
}

} // verus!
