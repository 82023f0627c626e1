//! Character-level string helpers with exact specifications.
use vstd::prelude::*;

verus! {

/// `t` is a suffix of `s`.
pub open spec fn has_suffix(s: Seq<char>, t: Seq<char>) -> bool {
    t.len() <= s.len() && s.subrange(s.len() - t.len(), s.len() as int) == t
}

/// `t` is a prefix of `s`.
pub open spec fn has_prefix(s: Seq<char>, t: Seq<char>) -> bool {
    t.len() <= s.len() && s.subrange(0, t.len() as int) == t
}

/// `s` with the suffix of length `n` removed.
pub open spec fn drop_last(s: Seq<char>, n: int) -> Seq<char> {
    s.subrange(0, s.len() - n)
}

/// A `BASE/QUOTE` text: a `/` with characters on both sides.
pub open spec fn is_pair_text(p: Seq<char>) -> bool {
    exists|i: int| 0 < i < p.len() - 1 && #[trigger] p[i] == '/'
}

/// Joining two non-empty currency codes with `/` gives a pair text.
pub proof fn lemma_join_is_pair(b: Seq<char>, q: Seq<char>)
    requires
        b.len() > 0,
        q.len() > 0,
    ensures
        is_pair_text(b + seq!['/'] + q),
{
    let p = b + seq!['/'] + q;
    assert(p[b.len() as int] == '/');
}

/// Whether `t` is a suffix of `s`.
pub fn ends_with(s: &str, t: &str) -> (r: bool)
    ensures
        r == has_suffix(s@, t@),
{
    let n = s.unicode_len();
    let m = t.unicode_len();
    if m > n {
        return false;
    }
    let mut i: usize = 0;
    while i < m
        invariant
            n == s@.len(),
            m == t@.len(),
            m <= n,
            i <= m,
            forall|k: int| 0 <= k < i ==> s@[n - m + k] == t@[k],
        decreases m - i,
    {
        if s.get_char(n - m + i) != t.get_char(i) {
            assert(s@.subrange(n - m, n as int)[i as int] != t@[i as int]);
            return false;
        }
        i += 1;
    }
    assert(s@.subrange(n - m, n as int) =~= t@);
    true
}

/// Whether `t` is a prefix of `s`.
pub fn starts_with(s: &str, t: &str) -> (r: bool)
    ensures
        r == has_prefix(s@, t@),
{
    let n = s.unicode_len();
    let m = t.unicode_len();
    if m > n {
        return false;
    }
    let mut i: usize = 0;
    while i < m
        invariant
            n == s@.len(),
            m == t@.len(),
            m <= n,
            i <= m,
            forall|k: int| 0 <= k < i ==> s@[k] == t@[k],
        decreases m - i,
    {
        if s.get_char(i) != t.get_char(i) {
            assert(s@.subrange(0, m as int)[i as int] != t@[i as int]);
            return false;
        }
        i += 1;
    }
    assert(s@.subrange(0, m as int) =~= t@);
    true
}

/// Whether the two strings hold the same characters.
pub fn str_eq(s: &str, t: &str) -> (r: bool)
    ensures
        r == (s@ == t@),
{
    let same_len = s.unicode_len() == t.unicode_len();
    let pre = starts_with(s, t);
    proof {
        if s@ == t@ {
            assert(s@.subrange(0, t@.len() as int) =~= t@);
        }
    }
    if same_len && pre {
        assert(s@ =~= s@.subrange(0, t@.len() as int));
    }
    same_len && pre
}

/// A new string holding the characters of `s`.
pub fn owned(s: &str) -> (r: String)
    ensures
        r@ == s@,
{
    let mut r = String::new();
    r.append(s);
    assert(r@ =~= s@);
    r
}

/// The characters of `s` before the last `n`.
pub fn without_last(s: &str, n: usize) -> (r: &str)
    requires
        n <= s@.len(),
    ensures
        r@ == drop_last(s@, n as int),
{
    let len = s.unicode_len();
    s.substring_char(0, len - n)
}

/// The first position at or after `i` that holds `c`, or the length.
pub open spec fn first_of(s: Seq<char>, c: char, i: int) -> int
    decreases s.len() - i,
{
    if i >= s.len() {
        s.len() as int
    } else if i >= 0 && s[i] == c {
        i
    } else {
        first_of(s, c, i + 1)
    }
}

/// The first position at or after `i` lies between `i` and the length.
pub proof fn lemma_first_of_bounds(s: Seq<char>, c: char, i: int)
    requires
        0 <= i <= s.len(),
    ensures
        i <= first_of(s, c, i) <= s.len(),
    decreases s.len() - i,
{
    if i < s.len() && s[i] != c {
        lemma_first_of_bounds(s, c, i + 1);
    }
}

/// The first position at or after `from` that holds `c`, or the length.
pub fn index_of(s: &str, c: char, from: usize) -> (r: usize)
    requires
        from <= s@.len(),
    ensures
        r == first_of(s@, c, from as int),
        from <= r <= s@.len(),
{
    let n = s.unicode_len();
    let mut i = from;
    while i < n
        invariant
            n == s@.len(),
            from <= i <= n,
            first_of(s@, c, from as int) == first_of(s@, c, i as int),
        decreases n - i,
    {
        if s.get_char(i) == c {
            return i;
        }
        i += 1;
    }
    i
}

/// The characters of `s` from position `from` up to `to`.
pub fn slice(s: &str, from: usize, to: usize) -> (r: &str)
    requires
        from <= to <= s@.len(),
    ensures
        r@ == s@.subrange(from as int, to as int),
{
    s.substring_char(from, to)
}

} // verus!
