//! The `authorized_keys` side of SSH identity: the forced-command line
//! written when a key is added, the line filter run when a key is
//! deleted, and the `key-<id>` argument the forced command hands back.

use vstd::prelude::*;
use vstd::string::StrSliceExecFns;
use vstd::string::StringExecFns;
use crate::text::{find_char, lemma_find_char, push_char, spec_find, substring};

verus! {

/// The decimal digit character for `n`.
pub open spec fn spec_dec_digit(n: int) -> char {
    "0123456789"@[n]
}

/// The decimal digits of `n`, most significant first, no sign and no
/// leading zeros (a single zero for zero).
pub open spec fn spec_decimal(n: int) -> Seq<char>
    decreases n,
{
    if n < 10 {
        seq![spec_dec_digit(n)]
    } else {
        spec_decimal(n / 10).push(spec_dec_digit(n % 10))
    }
}

/// One decimal digit character.
fn dec_digit(n: u32) -> (r: char)
    requires
        n < 10,
    ensures
        r == spec_dec_digit(n as int),
{
    proof {
        reveal_strlit("0123456789");
    }
    "0123456789".get_char(n as usize)
}

/// Write `n` in decimal.
pub fn u32_to_decimal(n: u32) -> (r: String)
    ensures
        r@ == spec_decimal(n as int),
    decreases n,
{
    if n < 10 {
        let mut s = String::new();
        push_char(&mut s, dec_digit(n));
        proof {
            assert(s@ =~= spec_decimal(n as int));
        }
        s
    } else {
        let mut s = u32_to_decimal(n / 10);
        push_char(&mut s, dec_digit(n % 10));
        s
    }
}

/// `c` is a decimal digit.
pub open spec fn spec_is_digit(c: char) -> bool {
    '0' <= c && c <= '9'
}

/// The value of a digit string, read left to right.
pub open spec fn spec_dec_value(s: Seq<char>) -> int
    decreases s.len(),
{
    if s.len() == 0 {
        0
    } else {
        spec_dec_value(s.drop_last()) * 10 + (s.last() as int - '0' as int)
    }
}

/// The value of a digit string is never negative.
pub proof fn lemma_dec_value_nonneg(s: Seq<char>)
    requires
        forall|i: int| 0 <= i < s.len() ==> spec_is_digit(#[trigger] s[i]),
    ensures
        spec_dec_value(s) >= 0,
    decreases s.len(),
{
    if s.len() > 0 {
        assert forall|i: int| 0 <= i < s.len() - 1 implies spec_is_digit(
            #[trigger] s.drop_last()[i],
        ) by {
            assert(s.drop_last()[i] == s[i]);
        }
        lemma_dec_value_nonneg(s.drop_last());
        assert(spec_is_digit(s.last()));
    }
}

/// Extending a digit string never shrinks its value.
pub proof fn lemma_dec_value_monotonic(s: Seq<char>, i: int, j: int)
    requires
        forall|k: int| 0 <= k < s.len() ==> spec_is_digit(#[trigger] s[k]),
        0 <= i <= j <= s.len(),
    ensures
        spec_dec_value(s.subrange(0, i)) <= spec_dec_value(s.subrange(0, j)),
    decreases j - i,
{
    if i < j {
        let shorter = s.subrange(0, j - 1);
        let longer = s.subrange(0, j);
        assert(longer.drop_last() =~= shorter);
        assert forall|k: int| 0 <= k < shorter.len() implies spec_is_digit(
            #[trigger] shorter[k],
        ) by {
            assert(shorter[k] == s[k]);
        }
        lemma_dec_value_nonneg(shorter);
        assert(spec_is_digit(longer.last()));
        assert(spec_dec_value(longer) >= spec_dec_value(shorter));
        lemma_dec_value_monotonic(s, i, j - 1);
    }
}

/// Parse a nonempty, all-digit string into its value, refusing values
/// above `u32::MAX`.
pub fn parse_u32(s: &str) -> (r: Option<u32>)
    ensures
        r is Some <==> s@.len() > 0 && (forall|i: int|
            0 <= i < s@.len() ==> spec_is_digit(#[trigger] s@[i])) && spec_dec_value(s@)
            <= u32::MAX,
        r matches Some(v) ==> v as int == spec_dec_value(s@),
{
    let n = s.unicode_len();
    if n == 0 {
        return None;
    }
    let mut acc: u32 = 0;
    let mut i: usize = 0;
    while i < n
        invariant
            n == s@.len(),
            0 < n,
            i <= n,
            forall|k: int| 0 <= k < i ==> spec_is_digit(#[trigger] s@[k]),
            acc as int == spec_dec_value(s@.subrange(0, i as int)),
        decreases n - i,
    {
        let c = s.get_char(i);
        if !(c >= '0' && c <= '9') {
            return None;
        }
        let d: u32 = (c as u32) - ('0' as u32);
        proof {
            assert(spec_dec_value(s@.subrange(0, i + 1)) == spec_dec_value(
                s@.subrange(0, i + 1).drop_last(),
            ) * 10 + (s@[i as int] as int - '0' as int));
            assert(s@.subrange(0, i + 1).drop_last() =~= s@.subrange(0, i as int));
        }
        if acc > (u32::MAX - d) / 10 {
            proof {
                assert(spec_dec_value(s@.subrange(0, i + 1)) > u32::MAX);
                if forall|k: int| 0 <= k < s@.len() ==> spec_is_digit(#[trigger] s@[k]) {
                    lemma_dec_value_monotonic(s@, i + 1, n as int);
                    assert(s@.subrange(0, n as int) =~= s@);
                    assert(spec_dec_value(s@) > u32::MAX);
                }
            }
            return None;
        }
        acc = acc * 10 + d;
        i += 1;
    }
    proof {
        assert(s@.subrange(0, n as int) =~= s@);
    }
    Some(acc)
}

/// Parse the forced-command argument `key-<id>` into the key's id.
pub fn parse_key_id(s: &str) -> (r: Option<i32>)
    ensures
        r is Some <==> s@.len() > 4 && s@.subrange(0, 4) == "key-"@ && (forall|i: int|
            4 <= i < s@.len() ==> spec_is_digit(#[trigger] s@[i])) && spec_dec_value(
            s@.subrange(4, s@.len() as int),
        ) <= i32::MAX,
        r matches Some(id) ==> id as int == spec_dec_value(s@.subrange(4, s@.len() as int)),
{
    proof {
        reveal_strlit("key-");
    }
    let n = s.unicode_len();
    if n <= 4 {
        return None;
    }
    if !(s.get_char(0) == 'k' && s.get_char(1) == 'e' && s.get_char(2) == 'y' && s.get_char(3)
        == '-') {
        proof {
            if s@.subrange(0, 4) == "key-"@ {
                let p = s@.subrange(0, 4);
                assert(p[0] == 'k' && p[1] == 'e' && p[2] == 'y' && p[3] == '-');
                assert(false);
            }
        }
        return None;
    }
    proof {
        assert(s@.subrange(0, 4) =~= "key-"@);
    }
    let digits = substring(s, 4, n);
    let v = match parse_u32(digits.as_str()) {
        None => {
            proof {
                assert forall|i: int| 4 <= i < s@.len() && (forall|k: int|
                    4 <= k < s@.len() ==> spec_is_digit(#[trigger] s@[k])) implies spec_is_digit(
                    #[trigger] digits@[i - 4],
                ) by {}
            }
            return None;
        },
        Some(v) => v,
    };
    proof {
        assert forall|i: int| 4 <= i < s@.len() implies spec_is_digit(#[trigger] s@[i]) by {
            assert(s@[i] == digits@[i - 4]);
        }
    }
    if v > i32::MAX as u32 {
        return None;
    }
    Some(v as i32)
}

/// The needle occurs somewhere in the haystack.
pub open spec fn spec_contains(hay: Seq<char>, needle: Seq<char>) -> bool {
    exists|k: int|
        0 <= k <= hay.len() - needle.len() && #[trigger] hay.subrange(k, k + needle.len())
            == needle
}

/// Whether `needle` occurs starting at position `k` of `hay`.
fn match_at(hay: &str, needle: &str, k: usize) -> (r: bool)
    requires
        k + needle@.len() <= hay@.len(),
    ensures
        r == (hay@.subrange(k as int, k + needle@.len()) == needle@),
{
    let h = hay.unicode_len();
    let m = needle.unicode_len();
    let mut j: usize = 0;
    while j < m
        invariant
            h == hay@.len(),
            m == needle@.len(),
            k + m <= h,
            j <= m,
            forall|t: int| 0 <= t < j ==> hay@[k + t] == needle@[t],
        decreases m - j,
    {
        if hay.get_char(k + j) != needle.get_char(j) {
            proof {
                assert(hay@.subrange(k as int, k + needle@.len())[j as int] == hay@[k + j]);
            }
            return false;
        }
        j += 1;
    }
    proof {
        assert(hay@.subrange(k as int, k + needle@.len()) =~= needle@);
    }
    true
}

/// Whether `needle` occurs in `hay`.
pub fn str_contains(hay: &str, needle: &str) -> (r: bool)
    ensures
        r == spec_contains(hay@, needle@),
{
    let h = hay.unicode_len();
    let m = needle.unicode_len();
    if m > h {
        return false;
    }
    if m == 0 {
        proof {
            let ghost zero: int = 0;
            assert(hay@.subrange(zero, zero + needle@.len()) =~= needle@);
        }
        return true;
    }
    let bound = h - m + 1;
    let mut k: usize = 0;
    while k < bound
        invariant
            h == hay@.len(),
            m == needle@.len(),
            0 < m <= h,
            bound == h - m + 1,
            k <= bound,
            forall|t: int| 0 <= t < k ==> #[trigger] hay@.subrange(t, t + needle@.len())
                != needle@,
        decreases bound - k,
    {
        if match_at(hay, needle, k) {
            return true;
        }
        k += 1;
    }
    proof {
        if spec_contains(hay@, needle@) {
            let t = choose|t: int|
                0 <= t <= hay@.len() - needle@.len() && #[trigger] hay@.subrange(
                    t,
                    t + needle@.len(),
                ) == needle@;
            assert(hay@.subrange(t, t + needle@.len()) != needle@);
            assert(false);
        }
    }
    false
}

/// One final carriage return removed, as a line ending of the form
/// `\r\n` leaves it on the split piece.
pub open spec fn spec_strip_cr(s: Seq<char>) -> Seq<char> {
    if s.len() > 0 && s.last() == '\r' {
        s.drop_last()
    } else {
        s
    }
}

/// The lines of `s`: split at every newline, each piece's trailing
/// carriage return removed, and no empty piece after a final newline.
pub open spec fn spec_line_split(s: Seq<char>) -> Seq<Seq<char>>
    decreases s.len(),
    via spec_line_split_decreases
{
    if s.len() == 0 {
        Seq::empty()
    } else {
        match spec_find(s, '\n') {
            Option::None => seq![s],
            Option::Some(i) => seq![spec_strip_cr(s.subrange(0, i))] + spec_line_split(
                s.subrange(i + 1, s.len() as int),
            ),
        }
    }
}

#[via_fn]
proof fn spec_line_split_decreases(s: Seq<char>) {
    lemma_find_char(s, '\n');
}

/// Split `s` into its lines.
pub fn split_lines(s: &str) -> (r: Vec<String>)
    ensures
        r.deep_view() == spec_line_split(s@),
{
    let n = s.unicode_len();
    let mut r: Vec<String> = Vec::new();
    let mut pos: usize = 0;
    proof {
        assert(s@.subrange(0, n as int) =~= s@);
        assert(r.deep_view() =~= Seq::<Seq<char>>::empty());
        assert(Seq::<Seq<char>>::empty() + spec_line_split(s@) =~= spec_line_split(s@));
    }
    while pos < n
        invariant
            n == s@.len(),
            pos <= n,
            spec_line_split(s@) == r.deep_view() + spec_line_split(
                s@.subrange(pos as int, n as int),
            ),
        decreases n - pos,
    {
        let rest = substring(s, pos, n);
        let ghost rest_view = s@.subrange(pos as int, n as int);
        match find_char(rest.as_str(), '\n') {
            None => {
                proof {
                    assert(spec_line_split(rest_view) =~= seq![rest_view]);
                    assert((r.deep_view() + seq![rest_view]).len() == r.deep_view().len() + 1);
                }
                r.push(rest);
                proof {
                    assert(r.deep_view() =~= spec_line_split(s@));
                }
                return r;
            },
            Some(i) => {
                let piece = if i > 0 && rest.as_str().get_char(i - 1) == '\r' {
                    proof {
                        assert(rest_view.subrange(0, i as int).last() == '\r');
                        assert(spec_strip_cr(rest_view.subrange(0, i as int)) =~= rest_view
                            .subrange(0, i - 1));
                        assert(rest_view.subrange(0, i - 1) =~= s@.subrange(
                            pos as int,
                            pos + i - 1,
                        ));
                    }
                    substring(rest.as_str(), 0, i - 1)
                } else {
                    proof {
                        if rest_view.subrange(0, i as int).len() > 0 {
                            assert(rest_view.subrange(0, i as int).last() == rest_view[i - 1]);
                        }
                        assert(spec_strip_cr(rest_view.subrange(0, i as int)) == rest_view
                            .subrange(0, i as int));
                    }
                    substring(rest.as_str(), 0, i)
                };
                proof {
                    assert(rest_view.subrange(i + 1, rest_view.len() as int) =~= s@.subrange(
                        pos + i + 1,
                        n as int,
                    ));
                    assert(spec_line_split(rest_view) == seq![
                        spec_strip_cr(rest_view.subrange(0, i as int)),
                    ] + spec_line_split(s@.subrange(pos + i + 1, n as int)));
                }
                r.push(piece);
                proof {
                    assert(r.deep_view() =~= r.deep_view().drop_last().push(piece@));
                    assert(r.deep_view().drop_last() + (seq![piece@] + spec_line_split(
                        s@.subrange(pos + i + 1, n as int),
                    )) =~= r.deep_view() + spec_line_split(s@.subrange(pos + i + 1, n as int)));
                }
                pos = pos + i + 1;
            },
        }
    }
    proof {
        assert(spec_line_split(s@.subrange(pos as int, n as int)) =~= Seq::<Seq<char>>::empty());
        assert(r.deep_view() + Seq::<Seq<char>>::empty() =~= r.deep_view());
    }
    r
}

/// The substring that marks a key's line in `authorized_keys`.
pub open spec fn spec_key_marker(id: int) -> Seq<char> {
    "ssh key-"@ + spec_decimal(id)
}

/// The filtered `authorized_keys` text: every line that carries the
/// marker is dropped, every kept line ends in a newline.
pub open spec fn spec_keys_without(ls: Seq<Seq<char>>, marker: Seq<char>) -> Seq<char>
    decreases ls.len(),
{
    if ls.len() == 0 {
        Seq::empty()
    } else {
        (if spec_contains(ls[0], marker) {
            Seq::<char>::empty()
        } else {
            ls[0] + seq!['\n']
        }) + spec_keys_without(ls.drop_first(), marker)
    }
}

/// Rewrite the `authorized_keys` text with the lines of key `id`
/// filtered out, matched by the literal marker `ssh key-<id>`; every
/// kept line keeps its own line.
pub fn filter_authorized_keys(content: &str, id: i32) -> (r: String)
    requires
        id >= 0,
    ensures
        r@ == spec_keys_without(spec_line_split(content@), spec_key_marker(id as int)),
{
    let mut marker = "ssh key-".to_owned();
    let digits = u32_to_decimal(id as u32);
    marker.append(digits.as_str());
    proof {
        reveal_strlit("ssh key-");
        assert(marker@ == spec_key_marker(id as int));
    }
    let lines = split_lines(content);
    let ghost all = lines.deep_view();
    let mut out = String::new();
    let n = lines.len();
    let mut i: usize = 0;
    proof {
        assert(all.subrange(0, n as int) =~= all);
        assert(Seq::<char>::empty() + spec_keys_without(all, marker@) =~= spec_keys_without(
            all,
            marker@,
        ));
    }
    while i < n
        invariant
            n == all.len(),
            all == lines.deep_view(),
            marker@ == spec_key_marker(id as int),
            i <= n,
            spec_keys_without(all, marker@) == out@ + spec_keys_without(
                all.subrange(i as int, n as int),
                marker@,
            ),
        decreases n - i,
    {
        let ghost remaining = all.subrange(i as int, n as int);
        proof {
            assert(remaining[0] == all[i as int]);
            assert(all[i as int] == lines.deep_view()[i as int]);
            assert(remaining.drop_first() =~= all.subrange(i + 1, n as int));
        }
        if !str_contains(lines[i].as_str(), marker.as_str()) {
            out.append(lines[i].as_str());
            out.append("\n");
            proof {
                reveal_strlit("\n");
                assert("\n"@ =~= seq!['\n']);
                assert(out@ =~= (out@.subrange(0, out@.len() - 1 - all[i as int].len())
                    + (all[i as int] + seq!['\n'])));
            }
        }
        i += 1;
    }
    proof {
        assert(spec_keys_without(all.subrange(n as int, n as int), marker@) == Seq::<
            char,
        >::empty());
        assert(out@ + Seq::<char>::empty() =~= out@);
    }
    out
}

/// The `authorized_keys` entry for a key: a forced command that selects
/// the key's identity, with forwarding and pty allocation disabled, then
/// the key material itself.
pub open spec fn spec_authorized_keys_line(
    bin_path: Seq<char>,
    config_path: Seq<char>,
    id: int,
    content: Seq<char>,
) -> Seq<char> {
    "command=\""@ + bin_path + " -c '"@ + config_path + "' ssh key-"@ + spec_decimal(id)
        + "\",no-port-forwarding,no-X11-forwarding,no-agent-forwarding,no-pty "@ + content
}

/// Build the `authorized_keys` entry for a key.
pub fn authorized_keys_line(bin_path: &str, config_path: &str, id: i32, content: &str) -> (r:
    String)
    requires
        id >= 0,
    ensures
        r@ == spec_authorized_keys_line(bin_path@, config_path@, id as int, content@),
{
    let mut r = "command=\"".to_owned();
    r.append(bin_path);
    r.append(" -c '");
    r.append(config_path);
    r.append("' ssh key-");
    let digits = u32_to_decimal(id as u32);
    r.append(digits.as_str());
    r.append("\",no-port-forwarding,no-X11-forwarding,no-agent-forwarding,no-pty ");
    r.append(content);
    r
}

} // verus!
