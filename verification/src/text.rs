//! Strings as sequences of characters: the scans that the path rules are built on.

use vstd::prelude::*;

verus! {

/// The text of an optional string slice.
pub open spec fn text_of(s: Option<&str>) -> Option<Seq<char>> {
    match s {
        Some(v) => Some(v@),
        None => None,
    }
}

/// The text of an optional string.
pub open spec fn text_of_owned(s: Option<String>) -> Option<Seq<char>> {
    match s {
        Some(v) => Some(v@),
        None => None,
    }
}

/// The texts of a list of strings.
pub open spec fn texts(v: Seq<String>) -> Seq<Seq<char>> {
    v.map_values(|s: String| s@)
}

/// The index behind the last `c` in `s`, or 0 where `s` holds no `c`.
pub open spec fn after_last(s: Seq<char>, c: char) -> int
    decreases s.len(),
{
    if s.len() == 0 {
        0
    } else if s.last() == c {
        s.len() as int
    } else {
        after_last(s.drop_last(), c)
    }
}

/// `after_last(s, c)` is the one index `k` with a `c` just before it (or `k == 0`)
/// and no `c` from `k` on.
pub proof fn lemma_after_last(s: Seq<char>, c: char)
    ensures
        0 <= after_last(s, c) <= s.len(),
        after_last(s, c) > 0 ==> s[after_last(s, c) - 1] == c,
        forall|j: int| after_last(s, c) <= j < s.len() ==> s[j] != c,
    decreases s.len(),
{
    if s.len() > 0 && s.last() != c {
        let t = s.drop_last();
        lemma_after_last(t, c);
        assert forall|j: int| after_last(s, c) <= j < s.len() implies s[j] != c by {
            if j < t.len() {
                assert(t[j] == s[j]);
            }
        }
    }
}

/// An index with a `c` just before it and none behind it is `after_last(s, c)`.
pub proof fn lemma_after_last_unique(s: Seq<char>, c: char, k: int)
    requires
        0 <= k <= s.len(),
        k > 0 ==> s[k - 1] == c,
        forall|j: int| k <= j < s.len() ==> s[j] != c,
    ensures
        after_last(s, c) == k,
    decreases s.len(),
{
    if s.len() > 0 && s.last() != c {
        lemma_after_last_unique(s.drop_last(), c, k);
    }
}

/// The characters of `s`, in order.
pub fn chars_of(s: &str) -> (v: Vec<char>)
    ensures
        v@ == s@,
{
    let mut v: Vec<char> = Vec::new();
    for c in it: s.chars()
        invariant
            it.seq() == s@,
            v@ == s@.subrange(0, it.index() as int),
    {
        v.push(c);
    }
    v
}

/// The index behind the last `c` among `v[start..end]`, or `start` where there is none.
pub fn find_after_last(v: &Vec<char>, start: usize, end: usize, c: char) -> (k: usize)
    requires
        start <= end <= v.len(),
    ensures
        start <= k <= end,
        k - start == after_last(v@.subrange(start as int, end as int), c),
{
    let mut k: usize = end;
    while k > start && v[k - 1] != c
        invariant
            start <= k <= end <= v.len(),
            forall|j: int| k <= j < end ==> v@[j] != c,
        decreases k,
    {
        k -= 1;
    }
    proof {
        lemma_after_last_unique(v@.subrange(start as int, end as int), c, k - start);
    }
    k
}

/// Whether the first `end` characters of `v` end in `suffix`.
pub fn ends_with(v: &Vec<char>, end: usize, suffix: &Vec<char>) -> (b: bool)
    requires
        end <= v.len(),
    ensures
        b == suffix@.is_suffix_of(v@.subrange(0, end as int)),
{
    let n: usize = suffix.len();
    if n > end {
        return false;
    }
    let base: usize = end - n;
    let mut i: usize = 0;
    while i < n
        invariant
            n == suffix.len(),
            base + n == end,
            end <= v.len(),
            i <= n,
            forall|j: int| 0 <= j < i ==> v@[base + j] == suffix@[j],
        decreases n - i,
    {
        if v[base + i] != suffix[i] {
            proof {
                let tail = v@.subrange(0, end as int).subrange(end - n, end as int);
                assert(tail[i as int] != suffix@[i as int]);
            }
            return false;
        }
        i += 1;
    }
    true
}

} // verus!
