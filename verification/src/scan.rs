//! Byte-sequence scanning utilities: ASCII case folding, substring search,
//! whitespace trimming, and bounded decimal parsing, each with an exact
//! specification that the protocol contracts are stated over.

use vstd::prelude::*;

verus! {

/// ASCII whitespace, the bytes that trimming removes.
pub open spec fn is_space(b: u8) -> bool {
    b == 32 || (9 <= b && b <= 13)
}

/// ASCII decimal digit.
pub open spec fn is_digit(b: u8) -> bool {
    48 <= b && b <= 57
}

/// ASCII upper-casing of one byte; bytes outside `a..=z` are unchanged.
pub open spec fn ascii_upper(b: u8) -> u8 {
    if 97 <= b && b <= 122 {
        (b - 32) as u8
    } else {
        b
    }
}

/// The ASCII-upper-cased view of a byte sequence: the case-insensitive view
/// that token scans work on.
pub open spec fn upper_seq(s: Seq<u8>) -> Seq<u8> {
    s.map_values(|b: u8| ascii_upper(b))
}

fn is_space_byte(b: u8) -> (r: bool)
    ensures
        r == is_space(b),
{
    b == 32 || (9 <= b && b <= 13)
}

fn upper_byte(b: u8) -> (r: u8)
    ensures
        r == ascii_upper(b),
{
    if 97 <= b && b <= 122 {
        b - 32
    } else {
        b
    }
}

/// The ASCII-upper-cased copy of a byte string.
pub fn to_upper(s: &[u8]) -> (v: Vec<u8>)
    ensures
        v@ == upper_seq(s@),
{
    let mut v: Vec<u8> = Vec::new();
    let mut i: usize = 0;
    while i < s.len()
        invariant
            i <= s@.len(),
            v@.len() == i,
            forall|k: int| 0 <= k < i ==> v@[k] == ascii_upper(s@[k]),
        decreases s@.len() - i,
    {
        v.push(upper_byte(s[i]));
        i = i + 1;
    }
    proof {
        assert(v@ =~= upper_seq(s@));
    }
    v
}

/// `pat` occurs in `s` at position `i`.
pub open spec fn matches_at(s: Seq<u8>, pat: Seq<u8>, i: int) -> bool {
    0 <= i && i + pat.len() <= s.len() && s.subrange(i, i + pat.len()) == pat
}

/// The least position `>= i` at which `pat` occurs in `s`, if any.
pub open spec fn find_from(s: Seq<u8>, pat: Seq<u8>, i: int) -> Option<int>
    decreases s.len() - i + 1,
{
    if i < 0 || i + pat.len() > s.len() {
        None
    } else if matches_at(s, pat, i) {
        Some(i)
    } else {
        find_from(s, pat, i + 1)
    }
}

/// What a successful search means: a match at the found position, none before.
pub proof fn lemma_find_from_some(s: Seq<u8>, pat: Seq<u8>, i: int, j: int)
    requires
        find_from(s, pat, i) == Some(j),
    ensures
        i <= j,
        matches_at(s, pat, j),
        forall|k: int| i <= k < j ==> !matches_at(s, pat, k),
    decreases s.len() - i + 1,
{
    if i < 0 || i + pat.len() > s.len() {
        assert(false);
    } else if matches_at(s, pat, i) {
    } else {
        lemma_find_from_some(s, pat, i + 1, j);
    }
}

/// A failed search means no match at any position at or after `i`.
pub proof fn lemma_find_from_none(s: Seq<u8>, pat: Seq<u8>, i: int, k: int)
    requires
        0 <= i <= k,
        find_from(s, pat, i) is None,
    ensures
        !matches_at(s, pat, k),
    decreases k - i,
{
    if i + pat.len() > s.len() {
        assert(k + pat.len() > s.len());
    } else if matches_at(s, pat, i) {
        assert(false);
    } else if i < k {
        lemma_find_from_none(s, pat, i + 1, k);
    }
}

/// A pattern that matches nowhere is not found.
pub proof fn lemma_no_match_find_none(s: Seq<u8>, pat: Seq<u8>, i: int)
    requires
        forall|k: int| !#[trigger] matches_at(s, pat, k),
    ensures
        find_from(s, pat, i) is None,
    decreases s.len() - i + 1,
{
    if i < 0 || i + pat.len() > s.len() {
    } else {
        assert(!matches_at(s, pat, i));
        lemma_no_match_find_none(s, pat, i + 1);
    }
}

fn matches_prefix_at(s: &[u8], pat: &[u8], i: usize) -> (r: bool)
    requires
        i + pat@.len() <= s@.len(),
    ensures
        r == matches_at(s@, pat@, i as int),
{
    let n = s.len();
    let mut j: usize = 0;
    while j < pat.len()
        invariant
            i + pat@.len() <= s@.len(),
            n == s@.len(),
            j <= pat@.len(),
            forall|k: int| 0 <= k < j ==> s@[i + k] == pat@[k],
        decreases pat@.len() - j,
    {
        if s[i + j] != pat[j] {
            proof {
                assert(!matches_at(s@, pat@, i as int)) by {
                    if matches_at(s@, pat@, i as int) {
                        assert(s@.subrange(i as int, i + pat@.len())[j as int] == s@[i + j]);
                    }
                }
            }
            return false;
        }
        j = j + 1;
    }
    proof {
        assert(s@.subrange(i as int, i + pat@.len()) =~= pat@);
    }
    true
}

/// The first occurrence of `pat` in `s`, scanning left to right.
pub fn find_pattern(s: &[u8], pat: &[u8]) -> (r: Option<usize>)
    requires
        pat@.len() >= 1,
    ensures
        (match r {
            Some(i) => find_from(s@, pat@, 0) == Some(i as int),
            None => find_from(s@, pat@, 0) is None,
        }),
{
    if pat.len() > s.len() {
        return None;
    }
    let mut i: usize = 0;
    while i <= s.len() - pat.len()
        invariant
            1 <= pat@.len() <= s@.len(),
            i <= s@.len() - pat@.len() + 1,
            find_from(s@, pat@, 0) == find_from(s@, pat@, i as int),
        decreases s@.len() - i,
    {
        if matches_prefix_at(s, pat, i) {
            return Some(i);
        }
        proof {
            assert(find_from(s@, pat@, i as int) == find_from(s@, pat@, i + 1));
        }
        i = i + 1;
    }
    proof {
        assert(find_from(s@, pat@, i as int) is None);
    }
    None
}

/// The least position `>= i` holding byte `b`, if any.
pub open spec fn find_byte_from(s: Seq<u8>, b: u8, i: int) -> Option<int>
    decreases s.len() - i + 1,
{
    if i < 0 || i >= s.len() {
        None
    } else if s[i] == b {
        Some(i)
    } else {
        find_byte_from(s, b, i + 1)
    }
}

/// What a successful byte search means.
pub proof fn lemma_find_byte_some(s: Seq<u8>, b: u8, i: int, j: int)
    requires
        find_byte_from(s, b, i) == Some(j),
    ensures
        i <= j < s.len(),
        s[j] == b,
    decreases s.len() - i + 1,
{
    if i < 0 || i >= s.len() {
        assert(false);
    } else if s[i] == b {
    } else {
        lemma_find_byte_some(s, b, i + 1, j);
    }
}

/// The first occurrence of byte `b` in `s` at or after `from`.
pub fn find_byte(s: &[u8], b: u8, from: usize) -> (r: Option<usize>)
    ensures
        (match r {
            Some(j) => find_byte_from(s@, b, from as int) == Some(j as int),
            None => find_byte_from(s@, b, from as int) is None,
        }),
{
    let mut i: usize = from;
    while i < s.len()
        invariant
            from <= i,
            find_byte_from(s@, b, from as int) == find_byte_from(s@, b, i as int),
        decreases s@.len() - i,
    {
        if s[i] == b {
            return Some(i);
        }
        i = i + 1;
    }
    None
}

/// `s` with leading ASCII whitespace removed.
pub open spec fn trim_left(s: Seq<u8>) -> Seq<u8>
    decreases s.len(),
{
    if s.len() > 0 && is_space(s[0]) {
        trim_left(s.subrange(1, s.len() as int))
    } else {
        s
    }
}

/// `s` with trailing ASCII whitespace removed.
pub open spec fn trim_right(s: Seq<u8>) -> Seq<u8>
    decreases s.len(),
{
    if s.len() > 0 && is_space(s[s.len() - 1]) {
        trim_right(s.subrange(0, s.len() - 1))
    } else {
        s
    }
}

/// `s` with surrounding ASCII whitespace removed.
pub open spec fn trimmed(s: Seq<u8>) -> Seq<u8> {
    trim_right(trim_left(s))
}

/// The bounds of the whitespace-trimmed middle of `s`.
pub fn trim_bounds(s: &[u8]) -> (r: (usize, usize))
    ensures
        r.0 <= r.1 <= s@.len(),
        s@.subrange(r.0 as int, r.1 as int) == trimmed(s@),
{
    proof {
        assert(s@.subrange(0, s@.len() as int) =~= s@);
    }
    let mut lo: usize = 0;
    while lo < s.len() && is_space_byte(s[lo])
        invariant
            lo <= s@.len(),
            trim_left(s@) == trim_left(s@.subrange(lo as int, s@.len() as int)),
        decreases s@.len() - lo,
    {
        proof {
            let t = s@.subrange(lo as int, s@.len() as int);
            assert(t[0] == s@[lo as int]);
            assert(t.subrange(1, t.len() as int) =~= s@.subrange(lo + 1, s@.len() as int));
        }
        lo = lo + 1;
    }
    proof {
        if lo < s@.len() {
            let t = s@.subrange(lo as int, s@.len() as int);
            assert(t[0] == s@[lo as int]);
        }
        assert(trim_left(s@) == s@.subrange(lo as int, s@.len() as int));
    }
    let mut hi: usize = s.len();
    while hi > lo && is_space_byte(s[hi - 1])
        invariant
            lo <= hi <= s@.len(),
            trim_left(s@) == s@.subrange(lo as int, s@.len() as int),
            trim_right(s@.subrange(lo as int, s@.len() as int)) == trim_right(
                s@.subrange(lo as int, hi as int),
            ),
        decreases hi,
    {
        proof {
            let t = s@.subrange(lo as int, hi as int);
            assert(t[t.len() - 1] == s@[hi - 1]);
            assert(t.subrange(0, t.len() - 1) =~= s@.subrange(lo as int, hi - 1));
        }
        hi = hi - 1;
    }
    proof {
        if hi > lo {
            let t = s@.subrange(lo as int, hi as int);
            assert(t[t.len() - 1] == s@[hi - 1]);
        }
        assert(trim_right(s@.subrange(lo as int, hi as int)) == s@.subrange(lo as int, hi as int));
    }
    (lo, hi)
}

/// Every byte of `s` is a decimal digit.
pub open spec fn all_digits(s: Seq<u8>) -> bool {
    forall|i: int| 0 <= i < s.len() ==> is_digit(#[trigger] s[i])
}

/// The value of a decimal digit string, most significant digit first.
pub open spec fn digits_value(s: Seq<u8>) -> int
    decreases s.len(),
{
    if s.len() == 0 {
        0
    } else {
        digits_value(s.drop_last()) * 10 + (s.last() - 48)
    }
}

/// The decimal percentage held by a field: the field, once trimmed, must be a
/// non-empty digit string with value at most 100.
pub open spec fn spec_percent_field(s: Seq<u8>) -> Option<u16> {
    let t = trimmed(s);
    if t.len() > 0 && all_digits(t) && digits_value(t) <= 100 {
        Some(digits_value(t) as u16)
    } else {
        None
    }
}

/// Parse a percentage field: trim it, then accept only a digit string whose
/// value is at most 100.
pub fn parse_percent_field(seg: &[u8]) -> (r: Option<u16>)
    ensures
        r == spec_percent_field(seg@),
        (match r {
            Some(v) => v <= 100,
            None => true,
        }),
{
    let bounds = trim_bounds(seg);
    let lo = bounds.0;
    let hi = bounds.1;
    if lo == hi {
        return None;
    }
    let mut i: usize = lo;
    let mut acc: u32 = 0;
    while i < hi
        invariant
            lo <= i <= hi <= seg@.len(),
            lo < hi,
            seg@.subrange(lo as int, hi as int) == trimmed(seg@),
            all_digits(seg@.subrange(lo as int, i as int)),
            acc <= 1009,
            digits_value(seg@.subrange(lo as int, i as int)) <= 100 ==> acc == digits_value(
                seg@.subrange(lo as int, i as int),
            ),
            digits_value(seg@.subrange(lo as int, i as int)) > 100 ==> acc > 100,
        decreases hi - i,
    {
        let b = seg[i];
        if b < 48 || b > 57 {
            proof {
                let t = seg@.subrange(lo as int, hi as int);
                assert(t[i - lo] == seg@[i as int]);
            }
            return None;
        }
        proof {
            let pre = seg@.subrange(lo as int, i as int);
            let ext = seg@.subrange(lo as int, i + 1);
            assert(ext.drop_last() =~= pre);
            assert(ext.last() == seg@[i as int]);
            assert(all_digits(ext)) by {
                assert forall|k: int| 0 <= k < ext.len() implies is_digit(#[trigger] ext[k]) by {
                    if k < pre.len() {
                        assert(ext[k] == pre[k]);
                    } else {
                        assert(ext[k] == seg@[i as int]);
                    }
                }
            }
            assert(digits_value(ext) == digits_value(pre) * 10 + (seg@[i as int] - 48));
        }
        if acc <= 100 {
            acc = acc * 10 + ((b - 48) as u32);
        }
        i = i + 1;
    }
    proof {
        assert(seg@.subrange(lo as int, i as int) == trimmed(seg@));
    }
    if acc > 100 {
        return None;
    }
    Some(acc as u16)
}

} // verus!
