//! Characters of strings: whitespace, trimming and splitting.

use vstd::prelude::*;

verus! {

/// The characters of a string, in order.
pub fn chars_of(s: &str) -> (r: Vec<char>)
    ensures
        r@ == s@,
{
    let mut out: Vec<char> = Vec::new();
    for c in it: s.chars()
        invariant
            it.seq() == s@,
            out@ == it.seq().take(it.index() as int),
    {
        out.push(c);
    }
    out
}

/// Whether a character is white space, as Unicode's `White_Space` property has it.
pub open spec fn is_space_spec(c: char) -> bool {
    ('\u{9}' <= c && c <= '\u{d}') || c == ' ' || c == '\u{85}' || c == '\u{a0}' || c
        == '\u{1680}' || ('\u{2000}' <= c && c <= '\u{200a}') || c == '\u{2028}' || c
        == '\u{2029}' || c == '\u{202f}' || c == '\u{205f}' || c == '\u{3000}'
}

/// Whether a character is white space.
pub fn is_space(c: char) -> (r: bool)
    ensures
        r == is_space_spec(c),
{
    ('\u{9}' <= c && c <= '\u{d}') || c == ' ' || c == '\u{85}' || c == '\u{a0}' || c
        == '\u{1680}' || ('\u{2000}' <= c && c <= '\u{200a}') || c == '\u{2028}' || c
        == '\u{2029}' || c == '\u{202f}' || c == '\u{205f}' || c == '\u{3000}'
}

/// The first position in `lo..hi` that holds no white space, or `hi`.
pub open spec fn skip_front(s: Seq<char>, lo: int, hi: int) -> int
    decreases hi - lo,
{
    if 0 <= lo < hi <= s.len() && is_space_spec(s[lo]) {
        skip_front(s, lo + 1, hi)
    } else {
        lo
    }
}

/// The end of `lo..hi` once the white space at its end is dropped.
pub open spec fn skip_back(s: Seq<char>, lo: int, hi: int) -> int
    decreases hi - lo,
{
    if 0 <= lo < hi <= s.len() && is_space_spec(s[hi - 1]) {
        skip_back(s, lo, hi - 1)
    } else {
        hi
    }
}

/// The characters of `lo..hi` without the white space at either end.
pub open spec fn piece(s: Seq<char>, lo: int, hi: int) -> Seq<char> {
    let a = skip_front(s, lo, hi);
    s.subrange(a, skip_back(s, a, hi))
}

/// A string without the white space at either end.
pub open spec fn trimmed(s: Seq<char>) -> Seq<char> {
    piece(s, 0, s.len() as int)
}

/// The bounds of `lo..hi` without the white space at either end.
pub fn trim_range(chars: &Vec<char>, lo: usize, hi: usize) -> (r: (usize, usize))
    requires
        lo <= hi <= chars.len(),
    ensures
        lo <= r.0 <= r.1 <= hi,
        r.0 == skip_front(chars@, lo as int, hi as int),
        r.1 == skip_back(chars@, r.0 as int, hi as int),
        chars@.subrange(r.0 as int, r.1 as int) == piece(chars@, lo as int, hi as int),
{
    let mut a: usize = lo;
    while a < hi && is_space(chars[a])
        invariant
            lo <= a <= hi <= chars.len(),
            skip_front(chars@, lo as int, hi as int) == skip_front(chars@, a as int, hi as int),
        decreases hi - a,
    {
        a += 1;
    }
    let mut b: usize = hi;
    while a < b && is_space(chars[b - 1])
        invariant
            a <= b <= hi <= chars.len(),
            skip_back(chars@, a as int, hi as int) == skip_back(chars@, a as int, b as int),
        decreases b - a,
    {
        b -= 1;
    }
    (a, b)
}

/// The first position at or after `i` that holds `sep`, or the length.
pub open spec fn next_sep(s: Seq<char>, sep: char, i: int) -> int
    decreases s.len() - i,
{
    if 0 <= i < s.len() && s[i] != sep {
        next_sep(s, sep, i + 1)
    } else {
        i
    }
}

/// The next separator lies at or after the start, and within the string.
pub proof fn lemma_next_sep_bounds(s: Seq<char>, sep: char, i: int)
    requires
        0 <= i <= s.len(),
    ensures
        i <= next_sep(s, sep, i) <= s.len(),
    decreases s.len() - i,
{
    if i < s.len() && s[i] != sep {
        lemma_next_sep_bounds(s, sep, i + 1);
    }
}

/// The first position at or after `i` that holds `sep`, or the length.
pub fn find_sep(chars: &Vec<char>, sep: char, i: usize) -> (r: usize)
    requires
        i <= chars.len(),
    ensures
        i <= r <= chars.len(),
        r == next_sep(chars@, sep, i as int),
{
    let mut k: usize = i;
    while k < chars.len() && chars[k] != sep
        invariant
            i <= k <= chars.len(),
            next_sep(chars@, sep, i as int) == next_sep(chars@, sep, k as int),
        decreases chars.len() - k,
    {
        k += 1;
    }
    k
}

/// What `str::to_lowercase` makes of a string.
pub uninterp spec fn lowercase_of(s: Seq<char>) -> Seq<char>;

/// `str::to_lowercase`: the lowercase equivalent of the string, by Unicode's rules.
#[verifier::external_body]
pub(crate) fn to_lowercase(s: &str) -> (r: String)
    ensures
        r@ == lowercase_of(s@),
{
    s.to_lowercase()
}

} // verus!
