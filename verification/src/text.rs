//! Byte-sequence helpers: ASCII-whitespace trimming, substring search, and
//! the final segment of a slash-separated path.

use vstd::prelude::*;

verus! {

/// The ASCII whitespace characters that surround a value in the watched file.
pub open spec fn is_ascii_space(b: u8) -> bool {
    b == 32 || (9 <= b && b <= 13)
}

/// `s` with leading ASCII whitespace removed.
pub open spec fn trim_front(s: Seq<u8>) -> Seq<u8>
    decreases s.len(),
{
    if s.len() > 0 && is_ascii_space(s[0]) {
        trim_front(s.drop_first())
    } else {
        s
    }
}

/// `s` with trailing ASCII whitespace removed.
pub open spec fn trim_back(s: Seq<u8>) -> Seq<u8>
    decreases s.len(),
{
    if s.len() > 0 && is_ascii_space(s.last()) {
        trim_back(s.drop_last())
    } else {
        s
    }
}

/// `s` with both leading and trailing ASCII whitespace removed.
pub open spec fn trimmed(s: Seq<u8>) -> Seq<u8> {
    trim_back(trim_front(s))
}

proof fn lemma_trim_front_is_suffix(s: Seq<u8>, i: int)
    requires
        0 <= i <= s.len(),
        forall|k: int| 0 <= k < i ==> is_ascii_space(s[k]),
        i == s.len() || !is_ascii_space(s[i]),
    ensures
        trim_front(s) == s.subrange(i, s.len() as int),
    decreases i,
{
    if i == 0 {
        assert(s.subrange(0, s.len() as int) =~= s);
    } else {
        let t = s.drop_first();
        assert(is_ascii_space(s[0]));
        lemma_trim_front_is_suffix(t, i - 1);
        assert(t.subrange(i - 1, t.len() as int) =~= s.subrange(i, s.len() as int));
    }
}

proof fn lemma_trim_back_is_prefix(s: Seq<u8>, j: int)
    requires
        0 <= j <= s.len(),
        forall|k: int| j <= k < s.len() ==> is_ascii_space(s[k]),
        j == 0 || !is_ascii_space(s[j - 1]),
    ensures
        trim_back(s) == s.subrange(0, j),
    decreases s.len() - j,
{
    if j == s.len() {
        if s.len() == 0 || !is_ascii_space(s.last()) {
            assert(s.subrange(0, j) =~= s);
        } else {
            assert(!is_ascii_space(s[j - 1]));
            assert(false);
        }
    } else {
        let t = s.drop_last();
        assert(is_ascii_space(s.last()));
        lemma_trim_back_is_prefix(t, j);
        assert(t.subrange(0, j) =~= s.subrange(0, j));
    }
}

/// Whether `b` is one of the ASCII whitespace bytes.
pub fn is_space_byte(b: u8) -> (sp: bool)
    ensures
        sp == is_ascii_space(b),
{
    b == 32 || (9 <= b && b <= 13)
}

/// A copy of `s` with leading and trailing ASCII whitespace removed.
pub fn trim_bytes(s: &Vec<u8>) -> (t: Vec<u8>)
    ensures
        t@ == trimmed(s@),
{
    let n = s.len();
    let mut i: usize = 0;
    while i < n && is_space_byte(s[i])
        invariant
            0 <= i <= n,
            n == s@.len(),
            forall|k: int| 0 <= k < i ==> is_ascii_space(s@[k]),
        decreases n - i,
    {
        i = i + 1;
    }
    let mut j: usize = n;
    while j > i && is_space_byte(s[j - 1])
        invariant
            i <= j <= n,
            n == s@.len(),
            forall|k: int| j <= k < n ==> is_ascii_space(s@[k]),
        decreases j,
    {
        j = j - 1;
    }
    let mut t: Vec<u8> = Vec::new();
    let mut k: usize = i;
    while k < j
        invariant
            i <= k <= j <= n,
            n == s@.len(),
            t@ == s@.subrange(i as int, k as int),
        decreases j - k,
    {
        t.push(s[k]);
        assert(t@ =~= s@.subrange(i as int, k + 1 as int));
        k = k + 1;
    }
    proof {
        lemma_trim_front_is_suffix(s@, i as int);
        let front = s@.subrange(i as int, n as int);
        if j == i {
            lemma_trim_back_is_prefix(front, 0);
        } else {
            assert(front[j - i - 1] == s@[j - 1]);
            lemma_trim_back_is_prefix(front, j - i);
        }
        assert(front.subrange(0, j - i) =~= s@.subrange(i as int, j as int));
        assert(t@ =~= s@.subrange(i as int, j as int));
    }
    t
}

/// Whether `needle` occurs in `hay` starting at position `i`.
pub open spec fn matches_at(hay: Seq<u8>, needle: Seq<u8>, i: int) -> bool {
    0 <= i && i + needle.len() <= hay.len() && hay.subrange(i, i + needle.len()) == needle
}

/// Whether `needle` occurs as a contiguous subrange of `hay`.
pub open spec fn contains_seq(hay: Seq<u8>, needle: Seq<u8>) -> bool {
    exists|i: int| matches_at(hay, needle, i)
}

/// Whether `needle` occurs as a contiguous run of bytes inside `hay`.
pub fn contains_bytes(hay: &Vec<u8>, needle: &Vec<u8>) -> (found: bool)
    ensures
        found == contains_seq(hay@, needle@),
{
    let n = hay.len();
    let m = needle.len();
    if m > n {
        assert(forall|k: int| !matches_at(hay@, needle@, k));
        return false;
    }
    let mut i: usize = 0;
    while i <= n - m
        invariant
            m <= n,
            n == hay@.len(),
            m == needle@.len(),
            0 <= i <= n - m + 1,
            forall|k: int| 0 <= k < i ==> !matches_at(hay@, needle@, k),
        decreases n - m + 1 - i,
    {
        let mut j: usize = 0;
        while j < m && hay[i + j] == needle[j]
            invariant
                0 <= j <= m,
                i + m <= n,
                n == hay@.len(),
                m == needle@.len(),
                forall|k: int| 0 <= k < j ==> hay@[i + k] == needle@[k],
            decreases m - j,
        {
            j = j + 1;
        }
        if j == m {
            assert(hay@.subrange(i as int, i + m as int) =~= needle@);
            assert(matches_at(hay@, needle@, i as int));
            return true;
        }
        assert(!matches_at(hay@, needle@, i as int)) by {
            assert(hay@.subrange(i as int, i + m as int)[j as int] == hay@[i + j]);
        }
        i = i + 1;
    }
    assert(forall|k: int| !matches_at(hay@, needle@, k));
    false
}

/// The final segment of a slash-separated path: everything after the last
/// `/` byte, or the whole sequence when no `/` occurs.
pub open spec fn last_segment(p: Seq<u8>) -> Seq<u8>
    decreases p.len(),
{
    if p.len() == 0 {
        p
    } else if p.last() == 47 {
        Seq::empty()
    } else {
        last_segment(p.drop_last()).push(p.last())
    }
}

pub(crate) proof fn lemma_last_segment_is_suffix(p: Seq<u8>, k: int)
    requires
        0 <= k <= p.len(),
        forall|t: int| k <= t < p.len() ==> p[t] != 47,
        k == 0 || p[k - 1] == 47,
    ensures
        last_segment(p) == p.subrange(k, p.len() as int),
    decreases p.len(),
{
    if p.len() == 0 {
        assert(p.subrange(0, 0) =~= p);
    } else if p.last() == 47 {
        assert(k == p.len());
        assert(p.subrange(k, p.len() as int) =~= Seq::<u8>::empty());
    } else {
        assert(k < p.len());
        let q = p.drop_last();
        lemma_last_segment_is_suffix(q, k);
        assert(q.subrange(k, q.len() as int).push(p.last()) =~= p.subrange(k, p.len() as int));
    }
}

/// The final path segment of `p`, as a fresh vector.
pub fn last_segment_bytes(p: &Vec<u8>) -> (seg: Vec<u8>)
    ensures
        seg@ == last_segment(p@),
{
    let n = p.len();
    let mut k: usize = n;
    while k > 0 && p[k - 1] != 47
        invariant
            0 <= k <= n,
            n == p@.len(),
            forall|t: int| k <= t < n ==> p@[t] != 47,
        decreases k,
    {
        k = k - 1;
    }
    let mut seg: Vec<u8> = Vec::new();
    let mut t: usize = k;
    while t < n
        invariant
            k <= t <= n,
            n == p@.len(),
            seg@ == p@.subrange(k as int, t as int),
        decreases n - t,
    {
        seg.push(p[t]);
        assert(seg@ =~= p@.subrange(k as int, t + 1 as int));
        t = t + 1;
    }
    proof {
        lemma_last_segment_is_suffix(p@, k as int);
        assert(seg@ =~= p@.subrange(k as int, n as int));
    }
    seg
}

} // verus!
