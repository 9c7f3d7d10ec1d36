//! Character sequences: white space, trimming and substring search.
//!
//! Every specification here speaks of a `Seq<char>`, the view of a string.
//! The executable functions work on a window `lo..hi` of a vector of
//! characters, so that a whole document is decoded once and its lines and
//! fields are found by index.
use vstd::prelude::*;

verus! {

/// Whether `c` has the Unicode property White_Space.
pub open spec fn is_whitespace(c: char) -> bool {
    let n = c as u32;
    ||| 0x09 <= n <= 0x0D
    ||| n == 0x20
    ||| n == 0x85
    ||| n == 0xA0
    ||| n == 0x1680
    ||| 0x2000 <= n <= 0x200A
    ||| n == 0x2028
    ||| n == 0x2029
    ||| n == 0x202F
    ||| n == 0x205F
    ||| n == 0x3000
}

/// The first index at or after `i` that holds no white space, or the
/// length of `t` where only white space follows.
pub open spec fn skip_whitespace(t: Seq<char>, i: int) -> int
    decreases t.len() - i,
{
    if 0 <= i < t.len() && is_whitespace(t[i]) {
        skip_whitespace(t, i + 1)
    } else {
        i
    }
}

/// The end of `t[lo..j]` once its trailing white space is cut off.
pub open spec fn back_whitespace(t: Seq<char>, lo: int, j: int) -> int
    decreases j,
{
    if 0 <= lo < j <= t.len() && is_whitespace(t[j - 1]) {
        back_whitespace(t, lo, j - 1)
    } else {
        j
    }
}

/// Where the trimmed part of `t` begins.
pub open spec fn trim_start(t: Seq<char>) -> int {
    skip_whitespace(t, 0)
}

/// Where the trimmed part of `t` ends.
pub open spec fn trim_end(t: Seq<char>) -> int {
    back_whitespace(t, trim_start(t), t.len() as int)
}

/// `t` without its leading and trailing white space.
pub open spec fn trim(t: Seq<char>) -> Seq<char> {
    t.subrange(trim_start(t), trim_end(t))
}

/// `pat` stands in `s` at index `i`.
pub open spec fn matches_at(s: Seq<char>, pat: Seq<char>, i: int) -> bool {
    &&& 0 <= i
    &&& i + pat.len() <= s.len()
    &&& s.subrange(i, i + pat.len()) == pat
}

/// The least index at or after `i` at which `pat` stands in `s`.
pub open spec fn find_from(s: Seq<char>, pat: Seq<char>, i: int) -> Option<int>
    decreases s.len() - i + 1,
{
    if i < 0 || i + pat.len() > s.len() {
        None
    } else if matches_at(s, pat, i) {
        Some(i)
    } else {
        find_from(s, pat, i + 1)
    }
}

/// The least index at which `pat` stands in `s`.
pub open spec fn find(s: Seq<char>, pat: Seq<char>) -> Option<int> {
    find_from(s, pat, 0)
}

/// `pat` stands somewhere in `s`.
pub open spec fn contains(s: Seq<char>, pat: Seq<char>) -> bool {
    find(s, pat) is Some
}

/// `s` begins with `pat`.
pub open spec fn starts_with(s: Seq<char>, pat: Seq<char>) -> bool {
    matches_at(s, pat, 0)
}

/// What follows index `i` in `s`.
pub open spec fn after(s: Seq<char>, i: int) -> Seq<char> {
    s.subrange(i, s.len() as int)
}

/// `skip_whitespace` stops at the first character that is no white space.
pub proof fn lemma_skip_whitespace(t: Seq<char>, i: int)
    requires
        0 <= i <= t.len(),
    ensures
        i <= skip_whitespace(t, i) <= t.len(),
        forall|k: int| i <= k < skip_whitespace(t, i) ==> is_whitespace(#[trigger] t[k]),
        skip_whitespace(t, i) < t.len() ==> !is_whitespace(t[skip_whitespace(t, i)]),
    decreases t.len() - i,
{
    if i < t.len() && is_whitespace(t[i]) {
        lemma_skip_whitespace(t, i + 1);
    }
}

/// `back_whitespace` stops behind the last character that is no white space.
pub proof fn lemma_back_whitespace(t: Seq<char>, lo: int, j: int)
    requires
        0 <= lo <= j <= t.len(),
    ensures
        lo <= back_whitespace(t, lo, j) <= j,
        forall|k: int| back_whitespace(t, lo, j) <= k < j ==> is_whitespace(#[trigger] t[k]),
        lo < back_whitespace(t, lo, j) ==> !is_whitespace(t[back_whitespace(t, lo, j) - 1]),
    decreases j,
{
    if lo < j && is_whitespace(t[j - 1]) {
        lemma_back_whitespace(t, lo, j - 1);
    }
}

/// The trimmed part lies inside the sequence, only white space lies outside
/// it, and it neither begins nor ends with white space.
pub proof fn lemma_trim(t: Seq<char>)
    ensures
        0 <= trim_start(t) <= trim_end(t) <= t.len(),
        trim(t).len() == trim_end(t) - trim_start(t),
        forall|k: int| 0 <= k < trim_start(t) ==> is_whitespace(#[trigger] t[k]),
        forall|k: int| trim_end(t) <= k < t.len() ==> is_whitespace(#[trigger] t[k]),
        trim(t).len() > 0 ==> !is_whitespace(trim(t).first()) && !is_whitespace(trim(t).last()),
{
    lemma_skip_whitespace(t, 0);
    lemma_back_whitespace(t, trim_start(t), t.len() as int);
}

/// A sequence that neither begins nor ends with white space is its own
/// trimmed part.
pub proof fn lemma_trim_fixed(t: Seq<char>)
    requires
        t.len() > 0 ==> !is_whitespace(t.first()) && !is_whitespace(t.last()),
    ensures
        trim(t) == t,
{
    assert(trim(t) =~= t);
}

/// Whether `t` holds white space only.
pub open spec fn all_whitespace(t: Seq<char>) -> bool {
    forall|k: int| 0 <= k < t.len() ==> is_whitespace(#[trigger] t[k])
}

/// White space around a text that neither begins nor ends with white space
/// is what trimming takes away.
pub proof fn lemma_trim_padded(lead: Seq<char>, core: Seq<char>, trail: Seq<char>)
    requires
        all_whitespace(lead),
        all_whitespace(trail),
        core.len() > 0 ==> !is_whitespace(core.first()) && !is_whitespace(core.last()),
    ensures
        trim(lead + core + trail) == core,
{
    let t = lead + core + trail;
    lemma_trim(t);
    let a = trim_start(t);
    let b = trim_end(t);
    if core.len() == 0 {
        assert forall|k: int| 0 <= k < t.len() implies is_whitespace(#[trigger] t[k]) by {
            if k < lead.len() {
                assert(t[k] == lead[k]);
            } else {
                assert(t[k] == trail[k - lead.len()]);
            }
        }
        if a < t.len() {
            assert(is_whitespace(t[a]));
        }
        assert(trim(t) =~= core);
    } else {
        let lo = lead.len() as int;
        let hi = lo + core.len();
        assert(t[lo] == core.first());
        assert(t[hi - 1] == core.last());
        assert forall|k: int| 0 <= k < lo implies is_whitespace(#[trigger] t[k]) by {
            assert(t[k] == lead[k]);
        }
        assert forall|k: int| hi <= k < t.len() implies is_whitespace(#[trigger] t[k]) by {
            assert(t[k] == trail[k - hi]);
        }
        if a < lo {
            assert(is_whitespace(t[a]));
        }
        if a > lo {
            assert(is_whitespace(t[lo]));
        }
        if b > hi {
            assert(is_whitespace(t[b - 1]));
        }
        if b < hi {
            assert(is_whitespace(t[hi - 1]));
        }
        assert(trim(t) =~= core);
    }
}

/// The place of the first match is the place at which the pattern stands
/// with no match before it.
pub proof fn lemma_find_first(s: Seq<char>, pat: Seq<char>, p: int)
    requires
        matches_at(s, pat, p),
        forall|j: int| 0 <= j < p ==> !matches_at(s, pat, j),
    ensures
        find(s, pat) == Some(p),
{
    lemma_find_from(s, pat, 0);
}

/// Trimming twice is trimming once.
pub proof fn lemma_trim_idempotent(t: Seq<char>)
    ensures
        trim(trim(t)) == trim(t),
{
    lemma_trim(t);
    lemma_trim_fixed(trim(t));
}

/// `find_from` gives the least match at or after `i`, and `None` only where
/// there is none.
pub proof fn lemma_find_from(s: Seq<char>, pat: Seq<char>, i: int)
    requires
        0 <= i,
    ensures
        match find_from(s, pat, i) {
            Some(p) => i <= p && matches_at(s, pat, p) && forall|j: int|
                i <= j < p ==> !matches_at(s, pat, j),
            None => forall|j: int| i <= j ==> !matches_at(s, pat, j),
        },
    decreases s.len() - i + 1,
{
    if i + pat.len() <= s.len() && !matches_at(s, pat, i) {
        lemma_find_from(s, pat, i + 1);
    }
}

/// `contains` holds exactly where the pattern stands at some index.
pub proof fn lemma_contains(s: Seq<char>, pat: Seq<char>)
    ensures
        contains(s, pat) <==> exists|i: int| matches_at(s, pat, i),
{
    lemma_find_from(s, pat, 0);
    if contains(s, pat) {
        assert(matches_at(s, pat, find(s, pat)->Some_0));
    }
}

/// Decides [`is_whitespace`].
pub fn char_is_whitespace(c: char) -> (r: bool)
    ensures
        r == is_whitespace(c),
{
    let n: u32 = c as u32;
    (0x09 <= n && n <= 0x0D) || n == 0x20 || n == 0x85 || n == 0xA0 || n == 0x1680 || (0x2000 <= n
        && n <= 0x200A) || n == 0x2028 || n == 0x2029 || n == 0x202F || n == 0x205F || n == 0x3000
}

/// The characters of `s`, in order.
pub fn chars_of(s: &str) -> (r: Vec<char>)
    ensures
        r@ == s@,
{
    let mut out: Vec<char> = Vec::new();
    let it = s.chars();
    for c in iter: it
        invariant
            out@ == iter.seq().take(iter.index@),
    {
        out.push(c);
    }
    out
}

/// Trims the window `lo..hi` of `s`: the bounds of what is left.
pub fn trim_range(s: &Vec<char>, lo: usize, hi: usize) -> (r: (usize, usize))
    requires
        lo <= hi <= s.len(),
    ensures
        lo <= r.0 <= r.1 <= hi,
        r.0 == lo + trim_start(s@.subrange(lo as int, hi as int)),
        r.1 == lo + trim_end(s@.subrange(lo as int, hi as int)),
        s@.subrange(r.0 as int, r.1 as int) == trim(s@.subrange(lo as int, hi as int)),
{
    let ghost t = s@.subrange(lo as int, hi as int);
    let mut a: usize = lo;
    while a < hi && char_is_whitespace(s[a])
        invariant
            lo <= a <= hi <= s.len(),
            t == s@.subrange(lo as int, hi as int),
            skip_whitespace(t, 0) == skip_whitespace(t, a - lo),
        decreases hi - a,
    {
        a += 1;
    }
    let mut b: usize = hi;
    while b > a && char_is_whitespace(s[b - 1])
        invariant
            lo <= a <= b <= hi <= s.len(),
            t == s@.subrange(lo as int, hi as int),
            trim_start(t) == a - lo,
            trim_end(t) == back_whitespace(t, a - lo, b - lo),
        decreases b,
    {
        b -= 1;
    }
    proof {
        assert(s@.subrange(a as int, b as int) =~= t.subrange(a - lo, b - lo));
    }
    (a, b)
}

/// Whether `pat` stands at index `i` of `s`, inside the window `lo..hi`.
pub fn occurs_at(s: &Vec<char>, lo: usize, hi: usize, pat: &Vec<char>, i: usize) -> (r: bool)
    requires
        lo <= i <= hi <= s.len(),
    ensures
        r == matches_at(s@.subrange(lo as int, hi as int), pat@, i - lo),
{
    let ghost t = s@.subrange(lo as int, hi as int);
    if pat.len() > hi - i {
        return false;
    }
    let mut k: usize = 0;
    while k < pat.len()
        invariant
            lo <= i <= hi <= s.len(),
            pat.len() <= hi - i,
            k <= pat.len(),
            t == s@.subrange(lo as int, hi as int),
            forall|j: int| 0 <= j < k ==> s@[i + j] == pat@[j],
        decreases pat.len() - k,
    {
        if s[i + k] != pat[k] {
            proof {
                assert(t.subrange(i - lo, i - lo + pat@.len())[k as int] == s@[i + k]);
            }
            return false;
        }
        k += 1;
    }
    proof {
        assert(t.subrange(i - lo, i - lo + pat@.len()) =~= pat@);
    }
    true
}

/// Whether the window `lo..hi` of `s` is `pat`.
pub fn range_is(s: &Vec<char>, lo: usize, hi: usize, pat: &Vec<char>) -> (r: bool)
    requires
        lo <= hi <= s.len(),
    ensures
        r == (s@.subrange(lo as int, hi as int) == pat@),
{
    let ghost t = s@.subrange(lo as int, hi as int);
    proof {
        assert(t.subrange(0, t.len() as int) =~= t);
    }
    hi - lo == pat.len() && occurs_at(s, lo, hi, pat, lo)
}

/// Whether the window `lo..hi` of `s` begins with `pat`.
pub fn range_starts_with(s: &Vec<char>, lo: usize, hi: usize, pat: &Vec<char>) -> (r: bool)
    requires
        lo <= hi <= s.len(),
    ensures
        r == starts_with(s@.subrange(lo as int, hi as int), pat@),
{
    occurs_at(s, lo, hi, pat, lo)
}

/// The first place at which `pat` stands in the window `lo..hi` of `s`.
pub fn find_range(s: &Vec<char>, lo: usize, hi: usize, pat: &Vec<char>) -> (r: Option<usize>)
    requires
        lo <= hi <= s.len(),
    ensures
        match r {
            Some(p) => lo <= p && p + pat.len() <= hi && find(
                s@.subrange(lo as int, hi as int),
                pat@,
            ) == Some(p - lo),
            None => find(s@.subrange(lo as int, hi as int), pat@) is None,
        },
{
    let ghost t = s@.subrange(lo as int, hi as int);
    let mut i: usize = lo;
    while pat.len() <= hi - i
        invariant
            lo <= i <= hi <= s.len(),
            t == s@.subrange(lo as int, hi as int),
            find(t, pat@) == find_from(t, pat@, i - lo),
        decreases hi - i,
    {
        if occurs_at(s, lo, hi, pat, i) {
            return Some(i);
        }
        proof {
            if pat.len() == 0 {
                assert(t.subrange(i - lo, i - lo) =~= pat@);
            }
        }
        i += 1;
    }
    None
}

/// Whether `pat` stands somewhere in the window `lo..hi` of `s`.
pub fn range_contains(s: &Vec<char>, lo: usize, hi: usize, pat: &Vec<char>) -> (r: bool)
    requires
        lo <= hi <= s.len(),
    ensures
        r == contains(s@.subrange(lo as int, hi as int), pat@),
{
    find_range(s, lo, hi, pat).is_some()
}

/// Whether `pat` stands somewhere in `s`.
pub fn vec_contains(s: &Vec<char>, pat: &Vec<char>) -> (r: bool)
    ensures
        r == contains(s@, pat@),
{
    proof {
        assert(s@.subrange(0, s@.len() as int) =~= s@);
    }
    range_contains(s, 0, s.len(), pat)
}

/// Whether `s` begins with `pat`.
pub fn vec_starts_with(s: &Vec<char>, pat: &Vec<char>) -> (r: bool)
    ensures
        r == starts_with(s@, pat@),
{
    proof {
        assert(s@.subrange(0, s@.len() as int) =~= s@);
    }
    range_starts_with(s, 0, s.len(), pat)
}

} // verus!
