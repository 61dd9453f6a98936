//! The cryptographic calls the forge leans on — password hashing and
//! key fingerprints — behind contracts, with the surrounding text work
//! done here.

use vstd::prelude::*;
use vstd::string::StrSliceExecFns;
use base64::Engine;
use sha2::Digest;
use crate::git_http::spec_hex_digit;
use crate::git_http::hex_digit;
use crate::text::substring;

verus! {

/// What bcrypt's verification answers for a password against a stored
/// hash: it is deterministic in the two inputs; `None` stands for its
/// error on a malformed hash.
pub uninterp spec fn bcrypt_verify_of(password: Seq<char>, hash: Seq<char>) -> Option<bool>;

/// Relies on bcrypt::verify: a deterministic check of a password
/// against a stored hash; an error (a malformed hash) maps to `None`.
#[verifier::external_body]
pub fn bcrypt_verify(password: &str, hash: &str) -> (r: Option<bool>)
    ensures
        r == bcrypt_verify_of(password@, hash@),
{
    match bcrypt::verify(password, hash) {
        Ok(b) => Some(b),
        Err(_) => None,
    }
}

/// Relies on bcrypt::hash at the default cost: the salt is drawn fresh,
/// so nothing relates two calls, but any hash it returns verifies
/// against the hashed password.
#[verifier::external_body]
pub fn bcrypt_hash(password: &str) -> (r: Option<String>)
    ensures
        r matches Some(h) ==> bcrypt_verify_of(password@, h@) == Option::Some(true),
{
    match bcrypt::hash(password, bcrypt::DEFAULT_COST) {
        Ok(h) => Some(h),
        Err(_) => None,
    }
}

/// What base64 decoding yields for a string under the standard alphabet
/// without padding; `None` stands for a malformed input.
pub uninterp spec fn base64_decode_of(s: Seq<char>) -> Option<Seq<u8>>;

/// Relies on base64's STANDARD_NO_PAD engine: decoding is a
/// deterministic function of the input.
#[verifier::external_body]
pub fn base64_decode(s: &str) -> (r: Option<Vec<u8>>)
    ensures
        r matches Some(v) ==> base64_decode_of(s@) == Option::Some(v@),
        r is None ==> base64_decode_of(s@) is None,
{
    match base64::engine::general_purpose::STANDARD_NO_PAD.decode(s) {
        Ok(v) => Some(v),
        Err(_) => None,
    }
}

/// What SHA-256 digests a byte string to.
pub uninterp spec fn sha256_of(data: Seq<u8>) -> Seq<u8>;

/// Relies on sha2::Sha256::digest: a pure function of the bytes; the
/// digest is 32 bytes long.
#[verifier::external_body]
pub fn sha256(data: &Vec<u8>) -> (r: Vec<u8>)
    ensures
        r@ == sha256_of(data@),
        r@.len() == 32,
{
    sha2::Sha256::digest(data.as_slice()).to_vec()
}

/// One byte as two lowercase hex digits.
pub open spec fn spec_hex_byte(b: u8) -> Seq<char> {
    seq![spec_hex_digit(b as int / 16), spec_hex_digit(b as int % 16)]
}

/// A byte string in lowercase hex, two digits per byte.
pub open spec fn spec_hex_bytes(bytes: Seq<u8>) -> Seq<char>
    decreases bytes.len(),
{
    if bytes.len() == 0 {
        Seq::empty()
    } else {
        spec_hex_byte(bytes[0]) + spec_hex_bytes(bytes.drop_first())
    }
}

/// The hex of a byte string is twice as long as the byte string.
pub proof fn lemma_hex_bytes_len(bytes: Seq<u8>)
    ensures
        spec_hex_bytes(bytes).len() == 2 * bytes.len(),
    decreases bytes.len(),
{
    if bytes.len() > 0 {
        lemma_hex_bytes_len(bytes.drop_first());
    }
}

/// Write a byte string in lowercase hex, two digits per byte.
pub fn hex_bytes(bytes: &Vec<u8>) -> (r: String)
    ensures
        r@ == spec_hex_bytes(bytes@),
{
    let n = bytes.len();
    let mut out = String::new();
    let mut i: usize = 0;
    proof {
        assert(bytes@.subrange(0, n as int) =~= bytes@);
        assert(Seq::<char>::empty() + spec_hex_bytes(bytes@) =~= spec_hex_bytes(bytes@));
    }
    while i < n
        invariant
            n == bytes@.len(),
            i <= n,
            spec_hex_bytes(bytes@) == out@ + spec_hex_bytes(bytes@.subrange(i as int, n as int)),
        decreases n - i,
    {
        let b = bytes[i];
        let ghost remaining = bytes@.subrange(i as int, n as int);
        proof {
            assert(remaining[0] == bytes@[i as int]);
            assert(remaining.drop_first() =~= bytes@.subrange(i + 1, n as int));
        }
        crate::text::push_char(&mut out, hex_digit((b / 16) as u16));
        crate::text::push_char(&mut out, hex_digit((b % 16) as u16));
        proof {
            assert(out@ =~= out@.subrange(0, out@.len() - 2) + spec_hex_byte(b));
        }
        i += 1;
    }
    proof {
        assert(spec_hex_bytes(bytes@.subrange(n as int, n as int)) == Seq::<char>::empty());
        assert(out@ + Seq::<char>::empty() =~= out@);
    }
    out
}

/// Whitespace as it separates the fields of a public-key line.
pub open spec fn spec_is_space(c: char) -> bool {
    c == ' ' || c == '\t' || c == '\n' || c == '\r'
}

/// `s` without its leading run of whitespace.
pub open spec fn spec_skip_spaces(s: Seq<char>) -> Seq<char>
    decreases s.len(),
{
    if s.len() > 0 && spec_is_space(s[0]) {
        spec_skip_spaces(s.drop_first())
    } else {
        s
    }
}

/// The length of the leading whitespace-free run of `s`.
pub open spec fn spec_token_len(s: Seq<char>) -> int
    decreases s.len(),
{
    if s.len() > 0 && !spec_is_space(s[0]) {
        1 + spec_token_len(s.drop_first())
    } else {
        0
    }
}

/// The second whitespace-separated field of `s`, if there are two.
pub open spec fn spec_second_token(s: Seq<char>) -> Option<Seq<char>> {
    let a = spec_skip_spaces(s);
    let b = spec_skip_spaces(a.skip(spec_token_len(a)));
    let t = spec_token_len(b);
    if t == 0 {
        Option::None
    } else {
        Option::Some(b.subrange(0, t))
    }
}

/// Whether `c` separates fields.
fn is_space(c: char) -> (r: bool)
    ensures
        r == spec_is_space(c),
{
    c == ' ' || c == '\t' || c == '\n' || c == '\r'
}

/// Skip whitespace in `s@` from position `from`: afterwards,
/// `spec_skip_spaces` of the rest starting at `from` is the rest
/// starting at the returned position.
fn skip_spaces_from(s: &str, from: usize) -> (r: usize)
    requires
        from <= s@.len(),
    ensures
        from <= r <= s@.len(),
        spec_skip_spaces(s@.subrange(from as int, s@.len() as int)) == s@.subrange(
            r as int,
            s@.len() as int,
        ),
        r < s@.len() ==> !spec_is_space(s@[r as int]),
{
    let n = s.unicode_len();
    let mut i = from;
    while i < n && is_space(s.get_char(i))
        invariant
            n == s@.len(),
            from <= i <= n,
            spec_skip_spaces(s@.subrange(from as int, n as int)) == spec_skip_spaces(
                s@.subrange(i as int, n as int),
            ),
        decreases n - i,
    {
        proof {
            let part = s@.subrange(i as int, n as int);
            assert(spec_is_space(part[0]));
            assert(part.drop_first() =~= s@.subrange(i + 1, n as int));
        }
        i += 1;
    }
    proof {
        let part = s@.subrange(i as int, n as int);
        if i < n {
            assert(!spec_is_space(part[0]));
        }
        assert(spec_skip_spaces(s@.subrange(i as int, n as int)) == part);
    }
    i
}

/// Walk to the end of the whitespace-free run starting at `from`.
fn token_end_from(s: &str, from: usize) -> (r: usize)
    requires
        from <= s@.len(),
    ensures
        from <= r <= s@.len(),
        spec_token_len(s@.subrange(from as int, s@.len() as int)) == r - from,
{
    let n = s.unicode_len();
    let mut i = from;
    while i < n && !is_space(s.get_char(i))
        invariant
            n == s@.len(),
            from <= i <= n,
            spec_token_len(s@.subrange(from as int, n as int)) == (i - from) + spec_token_len(
                s@.subrange(i as int, n as int),
            ),
        decreases n - i,
    {
        proof {
            let part = s@.subrange(i as int, n as int);
            assert(!spec_is_space(part[0]));
            assert(part.drop_first() =~= s@.subrange(i + 1, n as int));
        }
        i += 1;
    }
    proof {
        let part = s@.subrange(i as int, n as int);
        if i < n {
            assert(spec_is_space(part[0]));
        }
        assert(spec_token_len(part) == 0);
    }
    i
}

/// The second whitespace-separated field of a public-key line: for
/// `ssh-ed25519 AAAA... comment`, the base64 key material.
pub fn second_token(s: &str) -> (r: Option<String>)
    ensures
        r matches Some(t) ==> spec_second_token(s@) == Option::Some(t@),
        r is None ==> spec_second_token(s@) is None,
{
    let n = s.unicode_len();
    let a = skip_spaces_from(s, 0);
    let b = token_end_from(s, a);
    let c = skip_spaces_from(s, b);
    let d = token_end_from(s, c);
    proof {
        assert(s@.subrange(0, n as int) =~= s@);
        let whole = s@.subrange(0, n as int);
        let after_lead = s@.subrange(a as int, n as int);
        assert(after_lead.skip(spec_token_len(after_lead)) =~= s@.subrange(b as int, n as int));
        let second_part = s@.subrange(c as int, n as int);
        if d > c {
            assert(second_part.subrange(0, d - c) =~= s@.subrange(c as int, d as int));
        }
    }
    if d == c {
        None
    } else {
        Some(substring(s, c, d))
    }
}

/// The fingerprint of a public-key line: the SHA-256 digest of the
/// base64-decoded key material, in lowercase hex, two digits per byte
/// (64 characters in all).
pub open spec fn spec_fingerprint(key: Seq<char>) -> Option<Seq<char>> {
    match spec_second_token(key) {
        Option::None => Option::None,
        Option::Some(tok) => match base64_decode_of(tok) {
            Option::None => Option::None,
            Option::Some(data) => Option::Some(spec_hex_bytes(sha256_of(data))),
        },
    }
}

} // verus!
