//! Character-level helpers shared by the parsing modules: whitespace
//! trimming, decimal digits, and conversion of a `&str` into its characters.

use vstd::prelude::*;

verus! {

/// The whitespace characters recognised at the edges of a token.
pub open spec fn is_space(c: char) -> bool {
    c == ' ' || c == '\t' || c == '\n' || c == '\r' || c == '\u{b}' || c == '\u{c}'
}

/// An ASCII decimal digit.
pub open spec fn is_digit(c: char) -> bool {
    48 <= (c as u32) && (c as u32) <= 57
}

/// The numeric value of a digit character.
pub open spec fn digit_val(c: char) -> int {
    c as u32 - 48
}

/// `s` with its leading whitespace removed.
pub open spec fn trim_front(s: Seq<char>) -> Seq<char>
    decreases s.len(),
{
    if s.len() > 0 && is_space(s[0]) {
        trim_front(s.drop_first())
    } else {
        s
    }
}

/// `s` with its trailing whitespace removed.
pub open spec fn trim_back(s: Seq<char>) -> Seq<char>
    decreases s.len(),
{
    if s.len() > 0 && is_space(s.last()) {
        trim_back(s.drop_last())
    } else {
        s
    }
}

/// `s` with whitespace removed from both ends.
pub open spec fn spec_trim(s: Seq<char>) -> Seq<char> {
    trim_back(trim_front(s))
}

pub proof fn lemma_trim_front_is_skip(s: Seq<char>, k: int)
    requires
        0 <= k <= s.len(),
        forall|i: int| 0 <= i < k ==> is_space(#[trigger] s[i]),
        k == s.len() || !is_space(s[k]),
    ensures
        trim_front(s) == s.skip(k),
    decreases k,
{
    if k == 0 {
        assert(s.skip(0) =~= s);
    } else {
        assert(is_space(s[0]));
        lemma_trim_front_is_skip(s.drop_first(), k - 1);
        assert(s.drop_first().skip(k - 1) =~= s.skip(k));
    }
}

pub proof fn lemma_trim_back_is_take(s: Seq<char>, k: int)
    requires
        0 <= k <= s.len(),
        forall|i: int| k <= i < s.len() ==> is_space(#[trigger] s[i]),
        k == 0 || !is_space(s[k - 1]),
    ensures
        trim_back(s) == s.take(k),
    decreases s.len(),
{
    if k == s.len() {
        if s.len() > 0 {
            assert(!is_space(s.last()));
        }
        assert(s.take(k) =~= s);
    } else {
        assert(is_space(s.last()));
        lemma_trim_back_is_take(s.drop_last(), k);
        assert(s.drop_last().take(k) =~= s.take(k));
    }
}

/// Whitespace outside `[lo, hi)` and none at the borders of that window
/// pins down what trimming returns.
pub proof fn lemma_trim_is_subrange(s: Seq<char>, lo: int, hi: int)
    requires
        0 <= lo <= hi <= s.len(),
        forall|i: int| 0 <= i < lo ==> is_space(#[trigger] s[i]),
        forall|i: int| hi <= i < s.len() ==> is_space(#[trigger] s[i]),
        lo < hi ==> !is_space(s[lo]) && !is_space(s[hi - 1]),
    ensures
        spec_trim(s) == s.subrange(lo, hi),
{
    if lo == hi {
        assert(forall|i: int| 0 <= i < s.len() ==> is_space(#[trigger] s[i]));
        lemma_trim_front_is_skip(s, s.len() as int);
        assert(trim_front(s) =~= Seq::<char>::empty());
        assert(s.subrange(lo, hi) =~= Seq::<char>::empty());
    } else {
        lemma_trim_front_is_skip(s, lo);
        let t = s.skip(lo);
        lemma_trim_back_is_take(t, hi - lo);
        assert(t.take(hi - lo) =~= s.subrange(lo, hi));
    }
}

/// The characters of `s`, in order.
pub fn chars_of(s: &str) -> (v: Vec<char>)
    ensures
        v@ == s@,
{
    let n = s.unicode_len();
    let mut v: Vec<char> = Vec::new();
    let mut i: usize = 0;
    while i < n
        invariant
            i <= n,
            n == s@.len(),
            v@ == s@.take(i as int),
        decreases n - i,
    {
        let c = s.get_char(i);
        v.push(c);
        i = i + 1;
        proof {
            assert(v@ =~= s@.take(i as int));
        }
    }
    proof {
        assert(s@.take(n as int) =~= s@);
    }
    v
}

/// Whether `c` is one of the whitespace characters trimmed from token edges.
pub fn is_space_char(c: char) -> (r: bool)
    ensures
        r == is_space(c),
{
    c == ' ' || c == '\t' || c == '\n' || c == '\r' || c == '\u{b}' || c == '\u{c}'
}

/// Whether `c` is an ASCII decimal digit.
pub fn is_digit_char(c: char) -> (r: bool)
    ensures
        r == is_digit(c),
{
    let n = c as u32;
    48 <= n && n <= 57
}

/// Whether two strings hold the same characters.
pub fn str_eq(a: &str, b: &str) -> (r: bool)
    ensures
        r == (a@ == b@),
{
    let n = a.unicode_len();
    if n != b.unicode_len() {
        return false;
    }
    let mut i: usize = 0;
    while i < n
        invariant
            i <= n,
            n == a@.len(),
            n == b@.len(),
            forall|j: int| 0 <= j < i ==> a@[j] == b@[j],
        decreases n - i,
    {
        if a.get_char(i) != b.get_char(i) {
            return false;
        }
        i = i + 1;
    }
    proof {
        assert(a@ =~= b@);
    }
    true
}

/// The bounds of `spec_trim(v@.subrange(start, end))` within `v`.
///
/// Returns `(lo, hi)` with `start <= lo <= hi <= end` such that the trimmed
/// window equals `v@.subrange(lo, hi)`.
pub fn trim_bounds_in(v: &Vec<char>, start: usize, end: usize) -> (b: (usize, usize))
    requires
        start <= end <= v@.len(),
    ensures
        start <= b.0 <= b.1 <= end,
        spec_trim(v@.subrange(start as int, end as int)) == v@.subrange(b.0 as int, b.1 as int),
{
    let ghost w = v@.subrange(start as int, end as int);
    let mut lo: usize = start;
    while lo < end && is_space_char(v[lo])
        invariant
            start <= lo <= end <= v@.len(),
            forall|i: int| start <= i < lo ==> is_space(#[trigger] v@[i]),
        decreases end - lo,
    {
        lo = lo + 1;
    }
    if lo == end {
        proof {
            assert(forall|i: int| 0 <= i < w.len() ==> is_space(#[trigger] w[i]) && w[i] == v@[start + i]);
            lemma_trim_is_subrange(w, w.len() as int, w.len() as int);
            assert(w.subrange(w.len() as int, w.len() as int) =~= v@.subrange(end as int, end as int));
        }
        return (end, end);
    }
    let mut hi: usize = end;
    while is_space_char(v[hi - 1])
        invariant
            lo < hi <= end <= v@.len(),
            !is_space(v@[lo as int]),
            forall|i: int| hi <= i < end ==> is_space(#[trigger] v@[i]),
        decreases hi,
    {
        hi = hi - 1;
    }
    proof {
        assert(forall|i: int| 0 <= i < w.len() ==> w[i] == v@[start + i]);
        lemma_trim_is_subrange(w, lo - start, hi - start);
        assert(w.subrange(lo - start, hi - start) =~= v@.subrange(lo as int, hi as int));
    }
    (lo, hi)
}

} // verus!
