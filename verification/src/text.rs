//! Verified helpers on strings: the whitespace notion used by the whole
//! crate, whitespace search, equality, prefix tests and trimming.

use vstd::prelude::*;
use vstd::string::StrSliceExecFns;

verus! {

/// The whitespace characters this crate recognizes: the Unicode
/// White_Space set, the same notion `char::is_whitespace` and `str::trim`
/// go by.
pub open spec fn is_space_char(c: char) -> bool {
    let v = c as u32;
    v == 0x9 || v == 0xa || v == 0xb || v == 0xc || v == 0xd || v == 0x20 || v == 0x85 || v == 0xa0
        || v == 0x1680 || (0x2000 <= v && v <= 0x200a) || v == 0x2028 || v == 0x2029 || v == 0x202f
        || v == 0x205f || v == 0x3000
}

pub fn char_is_space(c: char) -> (r: bool)
    ensures
        r == is_space_char(c),
{
    let v = c as u32;
    v == 0x9 || v == 0xa || v == 0xb || v == 0xc || v == 0xd || v == 0x20 || v == 0x85 || v == 0xa0
        || v == 0x1680 || (0x2000 <= v && v <= 0x200a) || v == 0x2028 || v == 0x2029 || v == 0x202f
        || v == 0x205f || v == 0x3000
}

/// Whether some character of `s` is whitespace.
pub open spec fn has_whitespace(s: Seq<char>) -> bool {
    exists|i: int| 0 <= i < s.len() && is_space_char(s[i])
}

pub fn contains_whitespace(s: &str) -> (r: bool)
    ensures
        r == has_whitespace(s@),
{
    let n = s.unicode_len();
    let mut i: usize = 0;
    while i < n
        invariant
            n == s@.len(),
            i <= n,
            forall|j: int| 0 <= j < i ==> !is_space_char(s@[j]),
        decreases n - i,
    {
        if char_is_space(s.get_char(i)) {
            return true;
        }
        i += 1;
    }
    false
}

pub fn str_eq(a: &str, b: &str) -> (r: bool)
    ensures
        r == (a@ == b@),
{
    let n = a.unicode_len();
    if n != b.unicode_len() {
        return false;
    }
    let mut i: usize = 0;
    while i < n
        invariant
            n == a@.len(),
            n == b@.len(),
            i <= n,
            forall|j: int| 0 <= j < i ==> a@[j] == b@[j],
        decreases n - i,
    {
        if a.get_char(i) != b.get_char(i) {
            return false;
        }
        i += 1;
    }
    proof {
        assert(a@ =~= b@);
    }
    true
}

/// Whether `p` is a prefix of `s`.
pub open spec fn is_prefix_of(p: Seq<char>, s: Seq<char>) -> bool {
    p.len() <= s.len() && p == s.subrange(0, p.len() as int)
}

pub fn str_starts_with(s: &str, p: &str) -> (r: bool)
    ensures
        r == is_prefix_of(p@, s@),
{
    let np = p.unicode_len();
    let ns = s.unicode_len();
    if np > ns {
        return false;
    }
    let mut i: usize = 0;
    while i < np
        invariant
            np == p@.len(),
            ns == s@.len(),
            np <= ns,
            i <= np,
            forall|j: int| 0 <= j < i ==> p@[j] == s@[j],
        decreases np - i,
    {
        if p.get_char(i) != s.get_char(i) {
            proof {
                assert(s@.subrange(0, p@.len() as int)[i as int] == s@[i as int]);
            }
            return false;
        }
        i += 1;
    }
    proof {
        assert(p@ =~= s@.subrange(0, p@.len() as int));
    }
    true
}

/// `s` with leading whitespace removed.
pub open spec fn trim_start(s: Seq<char>) -> Seq<char>
    decreases s.len(),
{
    if s.len() == 0 {
        s
    } else if is_space_char(s[0]) {
        trim_start(s.drop_first())
    } else {
        s
    }
}

/// `s` with trailing whitespace removed.
pub open spec fn trim_end(s: Seq<char>) -> Seq<char>
    decreases s.len(),
{
    if s.len() == 0 {
        s
    } else if is_space_char(s[s.len() - 1]) {
        trim_end(s.drop_last())
    } else {
        s
    }
}

/// `s` with surrounding whitespace removed.
pub open spec fn trimmed(s: Seq<char>) -> Seq<char> {
    trim_end(trim_start(s))
}

/// Two characters that agree up to ASCII letter case.
pub open spec fn eq_ascii_ci(a: char, b: char) -> bool {
    a == b || (65 <= a as u32 <= 90 && b as u32 == a as u32 + 32) || (97 <= a as u32 <= 122
        && a as u32 == b as u32 + 32)
}

/// Two strings that agree up to ASCII letter case, position by position.
pub open spec fn seq_eq_ascii_ci(s1: Seq<char>, s2: Seq<char>) -> bool {
    s1.len() == s2.len() && forall|i: int| 0 <= i < s1.len() ==> eq_ascii_ci(s1[i], s2[i])
}

/// Changing a letter's case never makes or unmakes whitespace.
proof fn lemma_eq_ci_space(a: char, b: char)
    requires
        eq_ascii_ci(a, b),
    ensures
        is_space_char(a) == is_space_char(b),
{
}

proof fn lemma_trim_start_ci(s1: Seq<char>, s2: Seq<char>)
    requires
        seq_eq_ascii_ci(s1, s2),
    ensures
        seq_eq_ascii_ci(trim_start(s1), trim_start(s2)),
    decreases s1.len(),
{
    if s1.len() > 0 {
        assert(eq_ascii_ci(s1[0], s2[0]));
        lemma_eq_ci_space(s1[0], s2[0]);
        if is_space_char(s1[0]) {
            assert(seq_eq_ascii_ci(s1.drop_first(), s2.drop_first())) by {
                assert forall|i: int| 0 <= i < s1.drop_first().len() implies eq_ascii_ci(
                    s1.drop_first()[i],
                    s2.drop_first()[i],
                ) by {
                    assert(s1.drop_first()[i] == s1[i + 1]);
                    assert(s2.drop_first()[i] == s2[i + 1]);
                }
            };
            lemma_trim_start_ci(s1.drop_first(), s2.drop_first());
        }
    }
}

proof fn lemma_trim_end_ci(s1: Seq<char>, s2: Seq<char>)
    requires
        seq_eq_ascii_ci(s1, s2),
    ensures
        seq_eq_ascii_ci(trim_end(s1), trim_end(s2)),
    decreases s1.len(),
{
    if s1.len() > 0 {
        assert(eq_ascii_ci(s1[s1.len() - 1], s2[s2.len() - 1]));
        lemma_eq_ci_space(s1[s1.len() - 1], s2[s2.len() - 1]);
        if is_space_char(s1[s1.len() - 1]) {
            assert(seq_eq_ascii_ci(s1.drop_last(), s2.drop_last())) by {
                assert forall|i: int| 0 <= i < s1.drop_last().len() implies eq_ascii_ci(
                    s1.drop_last()[i],
                    s2.drop_last()[i],
                ) by {
                    assert(s1.drop_last()[i] == s1[i]);
                    assert(s2.drop_last()[i] == s2[i]);
                }
            };
            lemma_trim_end_ci(s1.drop_last(), s2.drop_last());
        }
    }
}

/// Trimming respects agreement up to ASCII letter case.
pub proof fn lemma_trimmed_ci(s1: Seq<char>, s2: Seq<char>)
    requires
        seq_eq_ascii_ci(s1, s2),
    ensures
        seq_eq_ascii_ci(trimmed(s1), trimmed(s2)),
{
    lemma_trim_start_ci(s1, s2);
    lemma_trim_end_ci(trim_start(s1), trim_start(s2));
}

proof fn lemma_trim_start_skip(s: Seq<char>, i: int)
    requires
        0 <= i <= s.len(),
        forall|j: int| 0 <= j < i ==> is_space_char(s[j]),
        i == s.len() || !is_space_char(s[i]),
    ensures
        trim_start(s) == s.subrange(i, s.len() as int),
    decreases i,
{
    if i == 0 {
        assert(s.subrange(0, s.len() as int) =~= s);
    } else {
        lemma_trim_start_skip(s.drop_first(), i - 1);
        assert(s.drop_first().subrange(i - 1, s.drop_first().len() as int) =~= s.subrange(
            i,
            s.len() as int,
        ));
    }
}

proof fn lemma_trim_end_keep(s: Seq<char>, k: int)
    requires
        0 <= k <= s.len(),
        forall|j: int| k <= j < s.len() ==> is_space_char(s[j]),
        k == 0 || !is_space_char(s[k - 1]),
    ensures
        trim_end(s) == s.subrange(0, k),
    decreases s.len() - k,
{
    if k == s.len() {
        assert(s.subrange(0, k) =~= s);
    } else {
        lemma_trim_end_keep(s.drop_last(), k);
        assert(s.drop_last().subrange(0, k) =~= s.subrange(0, k));
    }
}

pub fn trim(s: &str) -> (r: &str)
    ensures
        r@ == trimmed(s@),
{
    let n = s.unicode_len();
    let mut start: usize = 0;
    while start < n && char_is_space(s.get_char(start))
        invariant
            n == s@.len(),
            start <= n,
            forall|j: int| 0 <= j < start ==> is_space_char(s@[j]),
        decreases n - start,
    {
        start += 1;
    }
    let mut end: usize = n;
    while end > start && char_is_space(s.get_char(end - 1))
        invariant
            n == s@.len(),
            start <= end <= n,
            forall|j: int| end <= j < n ==> is_space_char(s@[j]),
        decreases end,
    {
        end -= 1;
    }
    let r = s.substring_char(start, end);
    proof {
        lemma_trim_start_skip(s@, start as int);
        let mid = s@.subrange(start as int, n as int);
        lemma_trim_end_keep(mid, end - start);
        assert(mid.subrange(0, end - start) =~= s@.subrange(start as int, end as int));
    }
    r
}

} // verus!
