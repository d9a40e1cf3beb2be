//! Character-level operations on log text.
//!
//! Each operation works on a window `[lo, hi)` of a `Vec<char>` and is
//! specified over the corresponding `Seq<char>`.
use vstd::prelude::*;

verus! {

/// A class of characters that the parser scans for or trims away.
#[derive(Clone, Copy)]
pub enum CharKind {
    /// Characters with the Unicode `White_Space` property.
    WhiteSpace,
    /// `[` and `]`.
    SquareBracket,
    /// `(` and `)`.
    RoundBracket,
    /// One given character.
    Exactly(char),
}

/// The Unicode `White_Space` property.
pub open spec fn is_white_space(c: char) -> bool {
    let u = c as u32;
    (0x9 <= u <= 0xd) || u == 0x20 || u == 0x85 || u == 0xa0 || u == 0x1680 || (0x2000 <= u
        <= 0x200a) || u == 0x2028 || u == 0x2029 || u == 0x202f || u == 0x205f || u == 0x3000
}

pub open spec fn in_kind(k: CharKind, c: char) -> bool {
    match k {
        CharKind::WhiteSpace => is_white_space(c),
        CharKind::SquareBracket => c == '[' || c == ']',
        CharKind::RoundBracket => c == '(' || c == ')',
        CharKind::Exactly(x) => c == x,
    }
}

pub fn char_in_kind(k: CharKind, c: char) -> (r: bool)
    ensures
        r == in_kind(k, c),
{
    match k {
        CharKind::WhiteSpace => {
            let u = c as u32;
            (0x9 <= u && u <= 0xd) || u == 0x20 || u == 0x85 || u == 0xa0 || u == 0x1680 || (0x2000
                <= u && u <= 0x200a) || u == 0x2028 || u == 0x2029 || u == 0x202f || u == 0x205f
                || u == 0x3000
        },
        CharKind::SquareBracket => c == '[' || c == ']',
        CharKind::RoundBracket => c == '(' || c == ')',
        CharKind::Exactly(x) => c == x,
    }
}

/// `s` without the characters of kind `k` at its start.
pub open spec fn trim_start(s: Seq<char>, k: CharKind) -> Seq<char>
    decreases s.len(),
{
    if s.len() > 0 && in_kind(k, s[0]) {
        trim_start(s.drop_first(), k)
    } else {
        s
    }
}

/// `s` without the characters of kind `k` at its end.
pub open spec fn trim_end(s: Seq<char>, k: CharKind) -> Seq<char>
    decreases s.len(),
{
    if s.len() > 0 && in_kind(k, s.last()) {
        trim_end(s.drop_last(), k)
    } else {
        s
    }
}

/// `s` without the characters of kind `k` at either end.
pub open spec fn trim(s: Seq<char>, k: CharKind) -> Seq<char> {
    trim_end(trim_start(s, k), k)
}

/// `i` is the position of the first character of kind `k` in `s`.
pub open spec fn is_first_at(s: Seq<char>, k: CharKind, i: int) -> bool {
    &&& 0 <= i < s.len()
    &&& in_kind(k, s[i])
    &&& forall|j: int| 0 <= j < i ==> !in_kind(k, #[trigger] s[j])
}

/// `i` is the position of the last character of kind `k` in `s`.
pub open spec fn is_last_at(s: Seq<char>, k: CharKind, i: int) -> bool {
    &&& 0 <= i < s.len()
    &&& in_kind(k, s[i])
    &&& forall|j: int| i < j < s.len() ==> !in_kind(k, #[trigger] s[j])
}

/// The position of the first character of kind `k` in `s`, if there is one.
pub open spec fn find_first(s: Seq<char>, k: CharKind) -> Option<int> {
    if exists|i: int| is_first_at(s, k, i) {
        Some(choose|i: int| is_first_at(s, k, i))
    } else {
        None
    }
}

/// The position of the last character of kind `k` in `s`, if there is one.
pub open spec fn find_last(s: Seq<char>, k: CharKind) -> Option<int> {
    if exists|i: int| is_last_at(s, k, i) {
        Some(choose|i: int| is_last_at(s, k, i))
    } else {
        None
    }
}

pub open spec fn starts_with(s: Seq<char>, p: Seq<char>) -> bool {
    p.len() <= s.len() && s.subrange(0, p.len() as int) == p
}

pub open spec fn ends_with(s: Seq<char>, p: Seq<char>) -> bool {
    p.len() <= s.len() && s.subrange(s.len() - p.len(), s.len() as int) == p
}

pub open spec fn occurs_at(s: Seq<char>, p: Seq<char>, i: int) -> bool {
    0 <= i && i + p.len() <= s.len() && s.subrange(i, i + p.len()) == p
}

pub open spec fn contains_seq(s: Seq<char>, p: Seq<char>) -> bool {
    exists|i: int| occurs_at(s, p, i)
}

pub proof fn lemma_first_at_is_found(s: Seq<char>, k: CharKind, i: int)
    requires
        is_first_at(s, k, i),
    ensures
        find_first(s, k) == Some(i),
{
    let c = choose|c: int| is_first_at(s, k, c);
    assert(is_first_at(s, k, c));
    if c < i {
        assert(!in_kind(k, s[c]));
    } else if i < c {
        assert(!in_kind(k, s[i]));
    }
}

pub proof fn lemma_last_at_is_found(s: Seq<char>, k: CharKind, i: int)
    requires
        is_last_at(s, k, i),
    ensures
        find_last(s, k) == Some(i),
{
    let c = choose|c: int| is_last_at(s, k, c);
    assert(is_last_at(s, k, c));
    if c < i {
        assert(!in_kind(k, s[i]));
    } else if i < c {
        assert(!in_kind(k, s[c]));
    }
}

/// A sequence with no character of kind `k` has no first one.
pub proof fn lemma_absent_not_found(s: Seq<char>, k: CharKind)
    requires
        forall|j: int| 0 <= j < s.len() ==> !in_kind(k, #[trigger] s[j]),
    ensures
        find_first(s, k) is None,
        find_last(s, k) is None,
{
}

/// The characters of `s`, one by one.
pub fn to_chars(s: &str) -> (v: Vec<char>)
    ensures
        v@ == s@,
{
    let mut v: Vec<char> = Vec::new();
    for c in it: s.chars()
        invariant
            v@ == it.seq().subrange(0, it.index()),
    {
        v.push(c);
    }
    v
}

/// The window `[lo, hi)` of `v`, without the characters of kind `k` at either end.
pub fn trim_window(v: &Vec<char>, lo: usize, hi: usize, k: CharKind) -> (r: (usize, usize))
    requires
        lo <= hi <= v.len(),
    ensures
        lo <= r.0 <= r.1 <= hi,
        v@.subrange(r.0 as int, r.1 as int) == trim(v@.subrange(lo as int, hi as int), k),
{
    let mut a: usize = lo;
    while a < hi && char_in_kind(k, v[a])
        invariant
            lo <= a <= hi <= v.len(),
            trim_start(v@.subrange(lo as int, hi as int), k) == trim_start(
                v@.subrange(a as int, hi as int),
                k,
            ),
        decreases hi - a,
    {
        assert(v@.subrange(a as int, hi as int).drop_first() =~= v@.subrange(a + 1, hi as int));
        a = a + 1;
    }
    assert(a < hi ==> v@.subrange(a as int, hi as int)[0] == v@[a as int]);
    assert(trim_start(v@.subrange(a as int, hi as int), k) == v@.subrange(a as int, hi as int));
    let mut b: usize = hi;
    while b > a && char_in_kind(k, v[b - 1])
        invariant
            lo <= a <= b <= hi <= v.len(),
            trim_end(v@.subrange(a as int, hi as int), k) == trim_end(
                v@.subrange(a as int, b as int),
                k,
            ),
        decreases b - a,
    {
        assert(v@.subrange(a as int, b as int).drop_last() =~= v@.subrange(a as int, b - 1));
        b = b - 1;
    }
    assert(b > a ==> v@.subrange(a as int, b as int).last() == v@[b - 1]);
    (a, b)
}

/// The first position in `[lo, hi)` holding a character of kind `k`.
pub fn find_in_window(v: &Vec<char>, lo: usize, hi: usize, k: CharKind) -> (r: Option<usize>)
    requires
        lo <= hi <= v.len(),
    ensures
        match r {
            Some(i) => lo <= i < hi && find_first(v@.subrange(lo as int, hi as int), k) == Some(
                i - lo,
            ),
            None => find_first(v@.subrange(lo as int, hi as int), k) is None,
        },
{
    let ghost s = v@.subrange(lo as int, hi as int);
    let mut i: usize = lo;
    while i < hi
        invariant
            lo <= i <= hi <= v.len(),
            s == v@.subrange(lo as int, hi as int),
            forall|j: int| lo <= j < i ==> !in_kind(k, #[trigger] v@[j]),
        decreases hi - i,
    {
        if char_in_kind(k, v[i]) {
            proof {
                assert forall|j: int| 0 <= j < i - lo implies !in_kind(k, #[trigger] s[j]) by {
                    assert(s[j] == v@[lo + j]);
                }
                lemma_first_at_is_found(s, k, i - lo);
            }
            return Some(i);
        }
        i = i + 1;
    }
    proof {
        assert forall|j: int| 0 <= j < s.len() implies !in_kind(k, #[trigger] s[j]) by {
            assert(s[j] == v@[lo + j]);
        }
        lemma_absent_not_found(s, k);
    }
    None
}

/// The last position in `[lo, hi)` holding a character of kind `k`.
pub fn find_last_in_window(v: &Vec<char>, lo: usize, hi: usize, k: CharKind) -> (r: Option<
    usize,
>)
    requires
        lo <= hi <= v.len(),
    ensures
        match r {
            Some(i) => lo <= i < hi && find_last(v@.subrange(lo as int, hi as int), k) == Some(
                i - lo,
            ),
            None => find_last(v@.subrange(lo as int, hi as int), k) is None,
        },
{
    let ghost s = v@.subrange(lo as int, hi as int);
    let mut i: usize = hi;
    while i > lo
        invariant
            lo <= i <= hi <= v.len(),
            s == v@.subrange(lo as int, hi as int),
            forall|j: int| i <= j < hi ==> !in_kind(k, #[trigger] v@[j]),
        decreases i - lo,
    {
        if char_in_kind(k, v[i - 1]) {
            proof {
                assert forall|j: int| i - 1 - lo < j < s.len() implies !in_kind(
                    k,
                    #[trigger] s[j],
                ) by {
                    assert(s[j] == v@[lo + j]);
                }
                lemma_last_at_is_found(s, k, i - 1 - lo);
            }
            return Some(i - 1);
        }
        i = i - 1;
    }
    proof {
        assert forall|j: int| 0 <= j < s.len() implies !in_kind(k, #[trigger] s[j]) by {
            assert(s[j] == v@[lo + j]);
        }
        lemma_absent_not_found(s, k);
    }
    None
}

/// Whether `p` stands in `v` at position `i`.
pub fn matches_at(v: &Vec<char>, i: usize, p: &Vec<char>) -> (r: bool)
    requires
        i + p.len() <= v.len(),
    ensures
        r == (v@.subrange(i as int, i + p.len()) == p@),
{
    let mut j: usize = 0;
    while j < p.len()
        invariant
            i + p.len() <= v.len(),
            j <= p.len(),
            forall|m: int| 0 <= m < j ==> v@[i + m] == p@[m],
        decreases p.len() - j,
    {
        if v[i + j] != p[j] {
            assert(v@.subrange(i as int, i + p.len())[j as int] != p@[j as int]);
            return false;
        }
        j = j + 1;
    }
    assert(v@.subrange(i as int, i + p.len()) =~= p@);
    true
}

/// Whether the window `[lo, hi)` of `v` starts with `p`.
pub fn window_starts_with(v: &Vec<char>, lo: usize, hi: usize, p: &Vec<char>) -> (r: bool)
    requires
        lo <= hi <= v.len(),
    ensures
        r == starts_with(v@.subrange(lo as int, hi as int), p@),
{
    if p.len() > hi - lo {
        return false;
    }
    assert(v@.subrange(lo as int, hi as int).subrange(0, p.len() as int) =~= v@.subrange(
        lo as int,
        lo + p.len(),
    ));
    matches_at(v, lo, p)
}

/// Whether the window `[lo, hi)` of `v` ends with `p`.
pub fn window_ends_with(v: &Vec<char>, lo: usize, hi: usize, p: &Vec<char>) -> (r: bool)
    requires
        lo <= hi <= v.len(),
    ensures
        r == ends_with(v@.subrange(lo as int, hi as int), p@),
{
    if p.len() > hi - lo {
        return false;
    }
    let start = hi - p.len();
    assert(v@.subrange(lo as int, hi as int).subrange(hi - lo - p.len(), hi - lo) =~= v@.subrange(
        start as int,
        start + p.len(),
    ));
    matches_at(v, start, p)
}

/// Whether the window `[lo, hi)` of `v` is exactly `p`.
pub fn window_equals(v: &Vec<char>, lo: usize, hi: usize, p: &Vec<char>) -> (r: bool)
    requires
        lo <= hi <= v.len(),
    ensures
        r == (v@.subrange(lo as int, hi as int) == p@),
{
    if p.len() != hi - lo {
        assert(v@.subrange(lo as int, hi as int).len() != p@.len());
        return false;
    }
    matches_at(v, lo, p)
}

/// Whether `p` occurs anywhere in the window `[lo, hi)` of `v`.
pub fn window_contains(v: &Vec<char>, lo: usize, hi: usize, p: &Vec<char>) -> (r: bool)
    requires
        lo <= hi <= v.len(),
    ensures
        r == contains_seq(v@.subrange(lo as int, hi as int), p@),
{
    let ghost s = v@.subrange(lo as int, hi as int);
    if p.len() > hi - lo {
        assert forall|i: int| !occurs_at(s, p@, i) by {}
        return false;
    }
    if p.len() == 0 {
        assert(s.subrange(0, 0) =~= p@);
        assert(occurs_at(s, p@, 0));
        return true;
    }
    let last = hi - p.len();
    let mut i: usize = lo;
    while i <= last
        invariant
            lo <= i <= last + 1,
            last + p.len() == hi,
            p.len() > 0,
            hi <= v.len(),
            s == v@.subrange(lo as int, hi as int),
            forall|j: int| 0 <= j < i - lo ==> !occurs_at(s, p@, j),
        decreases last + 1 - i,
    {
        assert(s.subrange(i - lo, i - lo + p.len()) =~= v@.subrange(i as int, i + p.len()));
        if matches_at(v, i, p) {
            assert(occurs_at(s, p@, i - lo));
            return true;
        }
        i = i + 1;
    }
    assert forall|j: int| !occurs_at(s, p@, j) by {
        if 0 <= j && j + p.len() <= s.len() {
            assert(j < i - lo);
        }
    }
    false
}

} // verus!
