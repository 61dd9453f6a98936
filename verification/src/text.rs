//! Character-level helpers shared by the parsers and formatters.

use vstd::prelude::*;
use vstd::string::StrSliceExecFns;
use vstd::string::StringExecFns;

verus! {

/// Character-by-character equality of two string slices.
pub fn str_eq(a: &str, b: &str) -> (r: bool)
    ensures
        r == (a@ == b@),
{
    let alen = a.unicode_len();
    let blen = b.unicode_len();
    if alen != blen {
        return false;
    }
    let mut i: usize = 0;
    while i < alen
        invariant
            alen == a@.len(),
            blen == b@.len(),
            alen == blen,
            i <= alen,
            forall|j: int| 0 <= j < i ==> a@[j] == b@[j],
        decreases alen - i,
    {
        if a.get_char(i) != b.get_char(i) {
            return false;
        }
        i += 1;
    }
    proof {
        assert(a@ =~= b@);
    }
    true
}

/// Position of the first occurrence of `c` in `s`, if any.
pub open spec fn spec_find(s: Seq<char>, c: char) -> Option<int>
    decreases s.len(),
{
    if s.len() == 0 {
        Option::None
    } else if s[0] == c {
        Option::Some(0)
    } else {
        match spec_find(s.drop_first(), c) {
            Option::None => Option::None,
            Option::Some(i) => Option::Some(i + 1),
        }
    }
}

/// When `c` occurs first at index `i`, `spec_find` says so.
pub proof fn lemma_find_at(s: Seq<char>, c: char, i: int)
    requires
        0 <= i < s.len(),
        s[i] == c,
        forall|j: int| 0 <= j < i ==> s[j] != c,
    ensures
        spec_find(s, c) == Option::Some(i),
    decreases i,
{
    if i > 0 {
        assert(s[0] != c);
        assert forall|j: int| 0 <= j < i - 1 implies s.drop_first()[j] != c by {
            assert(s.drop_first()[j] == s[j + 1]);
        }
        assert(s.drop_first()[i - 1] == s[i]);
        lemma_find_at(s.drop_first(), c, i - 1);
    }
}

/// When `c` does not occur in `s`, `spec_find` says so.
pub proof fn lemma_find_none(s: Seq<char>, c: char)
    requires
        forall|j: int| 0 <= j < s.len() ==> s[j] != c,
    ensures
        spec_find(s, c) is None,
    decreases s.len(),
{
    if s.len() > 0 {
        assert(s[0] != c);
        assert forall|j: int| 0 <= j < s.len() - 1 implies s.drop_first()[j] != c by {
            assert(s.drop_first()[j] == s[j + 1]);
        }
        lemma_find_none(s.drop_first(), c);
    }
}

/// `spec_find` returns the first index holding `c`, or `None` when `c`
/// does not occur.
pub proof fn lemma_find_char(s: Seq<char>, c: char)
    ensures
        match spec_find(s, c) {
            Option::None => forall|j: int| 0 <= j < s.len() ==> s[j] != c,
            Option::Some(i) => 0 <= i < s.len() && s[i] == c && forall|j: int|
                0 <= j < i ==> s[j] != c,
        },
    decreases s.len(),
{
    if s.len() > 0 && s[0] != c {
        lemma_find_char(s.drop_first(), c);
        match spec_find(s.drop_first(), c) {
            Option::None => {
                assert forall|j: int| 0 <= j < s.len() implies s[j] != c by {
                    if j > 0 {
                        assert(s[j] == s.drop_first()[j - 1]);
                    }
                }
            },
            Option::Some(i) => {
                assert(s[i + 1] == s.drop_first()[i]);
                assert forall|j: int| 0 <= j < i + 1 implies s[j] != c by {
                    if j > 0 {
                        assert(s[j] == s.drop_first()[j - 1]);
                    }
                }
            },
        }
    }
}

/// The two-character pattern `a b` starts at index `j` of `s`.
pub open spec fn pair_at(s: Seq<char>, j: int, a: char, b: char) -> bool {
    s[j] == a && s[j + 1] == b
}

/// Position of the first occurrence of the two-character pattern `a b`
/// in `s`, if any.
pub open spec fn spec_find_pair(s: Seq<char>, a: char, b: char) -> Option<int>
    decreases s.len(),
{
    if s.len() < 2 {
        Option::None
    } else if s[0] == a && s[1] == b {
        Option::Some(0)
    } else {
        match spec_find_pair(s.drop_first(), a, b) {
            Option::None => Option::None,
            Option::Some(i) => Option::Some(i + 1),
        }
    }
}

/// When the pattern occurs first at index `i`, `spec_find_pair` says so.
pub proof fn lemma_find_pair_at(s: Seq<char>, a: char, b: char, i: int)
    requires
        0 <= i < s.len() - 1,
        pair_at(s, i, a, b),
        forall|j: int| 0 <= j < i ==> !#[trigger] pair_at(s, j, a, b),
    ensures
        spec_find_pair(s, a, b) == Option::Some(i),
    decreases i,
{
    if i == 0 {
        assert(s[0] == a && s[1] == b);
    } else {
        assert(!pair_at(s, 0, a, b));
        assert(!(s[0] == a && s[1] == b));
        assert forall|j: int| 0 <= j < i - 1 implies !#[trigger] pair_at(
            s.drop_first(),
            j,
            a,
            b,
        ) by {
            assert(s.drop_first()[j] == s[j + 1]);
            assert(s.drop_first()[j + 1] == s[j + 2]);
            assert(!pair_at(s, j + 1, a, b));
        }
        assert(s.drop_first()[i - 1] == s[i]);
        assert(s.drop_first()[i] == s[i + 1]);
        assert(pair_at(s.drop_first(), i - 1, a, b));
        lemma_find_pair_at(s.drop_first(), a, b, i - 1);
    }
}

/// When the pattern does not occur in `s`, `spec_find_pair` says so.
pub proof fn lemma_find_pair_none(s: Seq<char>, a: char, b: char)
    requires
        forall|j: int| 0 <= j < s.len() - 1 ==> !#[trigger] pair_at(s, j, a, b),
    ensures
        spec_find_pair(s, a, b) is None,
    decreases s.len(),
{
    if s.len() >= 2 {
        assert(!pair_at(s, 0, a, b));
        assert(!(s[0] == a && s[1] == b));
        assert forall|j: int| 0 <= j < s.len() - 2 implies !#[trigger] pair_at(
            s.drop_first(),
            j,
            a,
            b,
        ) by {
            assert(s.drop_first()[j] == s[j + 1]);
            assert(s.drop_first()[j + 1] == s[j + 2]);
            assert(!pair_at(s, j + 1, a, b));
        }
        lemma_find_pair_none(s.drop_first(), a, b);
    }
}

/// Find the first occurrence of `c` in `s`.
pub fn find_char(s: &str, c: char) -> (r: Option<usize>)
    ensures
        r matches Some(i) ==> i < s@.len() && s@[i as int] == c && spec_find(s@, c)
            == Option::Some(i as int),
        r is None ==> spec_find(s@, c) is None,
{
    let n = s.unicode_len();
    let mut i: usize = 0;
    while i < n
        invariant
            n == s@.len(),
            i <= n,
            forall|j: int| 0 <= j < i ==> s@[j] != c,
        decreases n - i,
    {
        if s.get_char(i) == c {
            proof {
                lemma_find_at(s@, c, i as int);
            }
            return Some(i);
        }
        i += 1;
    }
    proof {
        lemma_find_none(s@, c);
    }
    None
}

/// Find the first occurrence of the two-character pattern `a b` in `s`.
pub fn find_pair(s: &str, a: char, b: char) -> (r: Option<usize>)
    ensures
        r matches Some(i) ==> i + 1 < s@.len() && spec_find_pair(s@, a, b)
            == Option::Some(i as int),
        r is None ==> spec_find_pair(s@, a, b) is None,
{
    let n = s.unicode_len();
    if n < 2 {
        proof {
            lemma_find_pair_none(s@, a, b);
        }
        return None;
    }
    let mut i: usize = 0;
    while i < n - 1
        invariant
            n == s@.len(),
            2 <= n,
            i <= n - 1,
            forall|j: int| 0 <= j < i ==> !#[trigger] pair_at(s@, j, a, b),
        decreases n - i,
    {
        if s.get_char(i) == a && s.get_char(i + 1) == b {
            proof {
                assert(pair_at(s@, i as int, a, b));
                lemma_find_pair_at(s@, a, b, i as int);
            }
            return Some(i);
        }
        proof {
            assert(!pair_at(s@, i as int, a, b));
        }
        i += 1;
    }
    proof {
        lemma_find_pair_none(s@, a, b);
    }
    None
}

/// Copy the character range `[from, to)` of `s` into an owned string.
pub fn substring(s: &str, from: usize, to: usize) -> (r: String)
    requires
        from <= to <= s@.len(),
    ensures
        r@ == s@.subrange(from as int, to as int),
{
    s.substring_char(from, to).to_owned()
}

/// Relies on `String::push` from std: appends one character.
#[verifier::external_body]
pub fn push_char(s: &mut String, c: char)
    ensures
        final(s)@ == old(s)@.push(c),
{
    s.push(c);
}

} // verus!
