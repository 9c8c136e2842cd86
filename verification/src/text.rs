use vstd::prelude::*;

verus! {

/// `needle` occurs in `hay` starting at position `k`.
pub open spec fn matches_at(hay: Seq<char>, needle: Seq<char>, k: int) -> bool {
    &&& 0 <= k
    &&& k + needle.len() <= hay.len()
    &&& hay.subrange(k, k + needle.len() as int) == needle
}

/// `needle` occurs somewhere in `hay` as a contiguous run of characters.
pub open spec fn is_substring(hay: Seq<char>, needle: Seq<char>) -> bool {
    exists|k: int| matches_at(hay, needle, k)
}

/// Whether `needle` occurs in `hay` starting exactly at position `k`.
pub fn str_match_at(hay: &str, needle: &str, k: usize) -> (r: bool)
    requires
        k + needle@.len() <= hay@.len(),
        hay@.len() <= usize::MAX,
    ensures
        r == matches_at(hay@, needle@, k as int),
{
    let m = needle.unicode_len();
    let mut j: usize = 0;
    while j < m
        invariant
            m == needle@.len(),
            k + m <= hay@.len(),
            hay@.len() <= usize::MAX,
            j <= m,
            forall|i: int| 0 <= i < j ==> hay@[k + i] == needle@[i],
        decreases m - j,
    {
        let hc = hay.get_char(k + j);
        let nc = needle.get_char(j);
        if hc != nc {
            proof {
                if matches_at(hay@, needle@, k as int) {
                    assert(hay@.subrange(k as int, k as int + needle@.len() as int)[j as int]
                        == needle@[j as int]);
                }
            }
            return false;
        }
        j = j + 1;
    }
    proof {
        assert(hay@.subrange(k as int, k as int + needle@.len() as int) =~= needle@);
    }
    true
}

/// Substring search: whether `needle` occurs anywhere in `hay`.
/// An empty `needle` occurs in every string.
pub fn str_contains_str(hay: &str, needle: &str) -> (r: bool)
    ensures
        r == is_substring(hay@, needle@),
{
    let n = hay.unicode_len();
    let m = needle.unicode_len();
    if m > n {
        proof {
            assert forall|j: int| !matches_at(hay@, needle@, j) by {}
        }
        return false;
    }
    if m == 0 {
        proof {
            assert(matches_at(hay@, needle@, 0)) by {
                assert(hay@.subrange(0, 0) =~= needle@);
            }
        }
        return true;
    }
    let mut k: usize = 0;
    while k <= n - m
        invariant
            n == hay@.len(),
            m == needle@.len(),
            1 <= m <= n,
            k <= n - m + 1,
            forall|j: int| 0 <= j < k ==> !matches_at(hay@, needle@, j),
        decreases n - m + 1 - k,
    {
        if str_match_at(hay, needle, k) {
            return true;
        }
        k = k + 1;
    }
    proof {
        assert forall|j: int| !matches_at(hay@, needle@, j) by {
            if 0 <= j && j + needle@.len() <= hay@.len() {
                assert(j < k);
            }
        }
    }
    false
}

/// `prefix` is an initial run of `s`.
pub open spec fn starts_with(s: Seq<char>, prefix: Seq<char>) -> bool {
    s.len() >= prefix.len() && s.subrange(0, prefix.len() as int) == prefix
}

/// Whether `prefix` is an initial run of `s`.
pub fn str_starts_with(s: &str, prefix: &str) -> (r: bool)
    ensures
        r == starts_with(s@, prefix@),
{
    let n = s.unicode_len();
    let m = prefix.unicode_len();
    if m > n {
        return false;
    }
    str_match_at(s, prefix, 0)
}

/// Whether the character `c` occurs in `hay`.
pub fn str_contains_char(hay: &str, c: char) -> (r: bool)
    ensures
        r == hay@.contains(c),
{
    let n = hay.unicode_len();
    let mut i: usize = 0;
    while i < n
        invariant
            n == hay@.len(),
            i <= n,
            forall|j: int| 0 <= j < i ==> hay@[j] != c,
        decreases n - i,
    {
        if hay.get_char(i) == c {
            proof {
                assert(hay@[i as int] == c);
            }
            return true;
        }
        i = i + 1;
    }
    proof {
        if hay@.contains(c) {
            let j = choose|j: int| 0 <= j < hay@.len() && hay@[j] == c;
            assert(hay@[j] != c);
        }
    }
    false
}

/// Character-for-character string equality.
pub fn str_eq(a: &str, b: &str) -> (r: bool)
    ensures
        r == (a@ == b@),
{
    let n = a.unicode_len();
    if n != b.unicode_len() {
        return false;
    }
    let mut i: usize = 0;
    while i < n
        invariant
            n == a@.len(),
            n == b@.len(),
            i <= n,
            forall|j: int| 0 <= j < i ==> a@[j] == b@[j],
        decreases n - i,
    {
        if a.get_char(i) != b.get_char(i) {
            return false;
        }
        i = i + 1;
    }
    proof {
        assert(a@ =~= b@);
    }
    true
}

pub open spec fn digit_char(c: char) -> bool {
    '0' <= c && c <= '9'
}

pub open spec fn blank_char(c: char) -> bool {
    c == ' ' || c == '\t'
}

/// Value of a run of decimal digits, most significant first.
pub open spec fn digits_value(cs: Seq<char>) -> int
    decreases cs.len(),
{
    if cs.len() == 0 {
        0
    } else {
        digits_value(cs.drop_last()) * 10 + (cs.last() as u32 - '0' as u32)
    }
}

/// Length of the initial run of decimal digits.
pub open spec fn digit_prefix_len(cs: Seq<char>) -> int
    decreases cs.len(),
{
    if cs.len() == 0 || !digit_char(cs[0]) {
        0
    } else {
        1 + digit_prefix_len(cs.skip(1))
    }
}

pub proof fn lemma_digit_prefix_len(cs: Seq<char>, j: int)
    requires
        0 <= j <= cs.len(),
        forall|i: int| 0 <= i < j ==> digit_char(#[trigger] cs[i]),
        j == cs.len() || !digit_char(cs[j]),
    ensures
        digit_prefix_len(cs) == j,
    decreases j,
{
    if j == 0 {
    } else {
        assert forall|i: int| 0 <= i < j - 1 implies digit_char(#[trigger] cs.skip(1)[i]) by {
            assert(cs.skip(1)[i] == cs[i + 1]);
        }
        if j < cs.len() {
            assert(cs.skip(1)[j - 1] == cs[j]);
        }
        lemma_digit_prefix_len(cs.skip(1), j - 1);
    }
}


/// `cs` with leading blanks removed.
pub open spec fn trim_front_spec(cs: Seq<char>) -> Seq<char>
    decreases cs.len(),
{
    if cs.len() > 0 && blank_char(cs[0]) {
        trim_front_spec(cs.skip(1))
    } else {
        cs
    }
}

/// Removes leading blanks.
pub fn trim_front(s: &str) -> (r: &str)
    ensures
        r@ == trim_front_spec(s@),
    decreases s@.len(),
{
    let n = s.unicode_len();
    if n > 0 {
        let c = s.get_char(0);
        if c == ' ' || c == '\t' {
            let rest = s.substring_char(1, n);
            proof {
                assert(rest@ =~= s@.skip(1));
            }
            return trim_front(rest);
        }
    }
    s
}

} // verus!
