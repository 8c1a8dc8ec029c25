//! Trimming white space and repeated bytes from the ends of a range.

use vstd::prelude::*;

verus! {

/// An ASCII white-space byte: tab, line feed, vertical tab, form feed,
/// carriage return or space.
pub open spec fn is_ascii_space(b: u8) -> bool {
    (9 <= b <= 13) || b == 32
}

/// The third byte of a three-byte white-space character that begins with
/// the bytes `a` and `b`: U+1680, U+2000 to U+200A, U+2028, U+2029, U+202F,
/// U+205F or U+3000.
pub open spec fn is_wide_space(a: u8, b: u8, c: u8) -> bool {
    ||| (a == 0xE1 && b == 0x9A && c == 0x80)
    ||| (a == 0xE2 && b == 0x80 && (0x80 <= c <= 0x8A || c == 0xA8 || c == 0xA9 || c == 0xAF))
    ||| (a == 0xE2 && b == 0x81 && c == 0x9F)
    ||| (a == 0xE3 && b == 0x80 && c == 0x80)
}

/// The length in bytes of the white-space character that begins at `i` and
/// ends no later than `hi`; 0 if none does. White space is what Unicode
/// calls White_Space; U+0085 and U+00A0 take two bytes.
pub open spec fn space_at(s: Seq<u8>, i: int, hi: int) -> int {
    if i < 0 || i >= hi || hi > s.len() {
        0
    } else if is_ascii_space(s[i]) {
        1
    } else if i + 1 < hi && s[i] == 0xC2 && (s[i + 1] == 0x85 || s[i + 1] == 0xA0) {
        2
    } else if i + 2 < hi && is_wide_space(s[i], s[i + 1], s[i + 2]) {
        3
    } else {
        0
    }
}

/// The length in bytes of the white-space character that ends at `i` and
/// begins no earlier than `lo`; 0 if none does.
pub open spec fn space_before(s: Seq<u8>, lo: int, i: int) -> int {
    if lo < 0 || i <= lo || i > s.len() {
        0
    } else if is_ascii_space(s[i - 1]) {
        1
    } else if i - 2 >= lo && s[i - 2] == 0xC2 && (s[i - 1] == 0x85 || s[i - 1] == 0xA0) {
        2
    } else if i - 3 >= lo && is_wide_space(s[i - 3], s[i - 2], s[i - 1]) {
        3
    } else {
        0
    }
}

/// Where the range `lo..hi` begins once leading white space is left out.
pub open spec fn trim_start(s: Seq<u8>, lo: int, hi: int) -> int
    decreases hi - lo,
{
    if space_at(s, lo, hi) > 0 {
        trim_start(s, lo + space_at(s, lo, hi), hi)
    } else {
        lo
    }
}

/// Where the range `lo..hi` ends once trailing white space is left out.
pub open spec fn trim_end(s: Seq<u8>, lo: int, hi: int) -> int
    decreases hi - lo,
{
    if space_before(s, lo, hi) > 0 {
        trim_end(s, lo, hi - space_before(s, lo, hi))
    } else {
        hi
    }
}

/// The range `lo..hi` without white space at either end.
pub open spec fn trim(s: Seq<u8>, lo: int, hi: int) -> (int, int) {
    let a = trim_start(s, lo, hi);
    (a, trim_end(s, a, hi))
}

pub proof fn lemma_trim_start_bounds(s: Seq<u8>, lo: int, hi: int)
    requires
        0 <= lo <= hi <= s.len(),
    ensures
        lo <= trim_start(s, lo, hi) <= hi,
    decreases hi - lo,
{
    if space_at(s, lo, hi) > 0 {
        lemma_trim_start_bounds(s, lo + space_at(s, lo, hi), hi);
    }
}

fn is_space_byte(b: u8) -> (res: bool)
    ensures
        res == is_ascii_space(b),
{
    (9 <= b && b <= 13) || b == 32
}

fn wide_space(a: u8, b: u8, c: u8) -> (res: bool)
    ensures
        res == is_wide_space(a, b, c),
{
    (a == 0xE1 && b == 0x9A && c == 0x80) || (a == 0xE2 && b == 0x80 && ((0x80 <= c && c <= 0x8A)
        || c == 0xA8 || c == 0xA9 || c == 0xAF)) || (a == 0xE2 && b == 0x81 && c == 0x9F) || (a
        == 0xE3 && b == 0x80 && c == 0x80)
}

/// The length of the white-space character at `i` in the range up to `hi`.
pub fn space_len_at(bytes: &[u8], i: usize, hi: usize) -> (res: usize)
    requires
        hi <= bytes@.len(),
    ensures
        res == space_at(bytes@, i as int, hi as int),
{
    if i >= hi {
        0
    } else if is_space_byte(bytes[i]) {
        1
    } else if hi - i > 1 && bytes[i] == 0xC2 && (bytes[i + 1] == 0x85 || bytes[i + 1] == 0xA0) {
        2
    } else if hi - i > 2 && wide_space(bytes[i], bytes[i + 1], bytes[i + 2]) {
        3
    } else {
        0
    }
}

/// The length of the white-space character that ends at `i` in the range
/// from `lo`.
pub fn space_len_before(bytes: &[u8], lo: usize, i: usize) -> (res: usize)
    requires
        i <= bytes@.len(),
    ensures
        res == space_before(bytes@, lo as int, i as int),
{
    if i <= lo {
        0
    } else if is_space_byte(bytes[i - 1]) {
        1
    } else if i - lo >= 2 && bytes[i - 2] == 0xC2 && (bytes[i - 1] == 0x85 || bytes[i - 1]
        == 0xA0) {
        2
    } else if i - lo >= 3 && wide_space(bytes[i - 3], bytes[i - 2], bytes[i - 1]) {
        3
    } else {
        0
    }
}

/// The range `lo..hi` of `bytes` without leading white space.
pub fn skip_space(bytes: &[u8], lo: usize, hi: usize) -> (res: usize)
    requires
        lo <= hi <= bytes@.len(),
    ensures
        res == trim_start(bytes@, lo as int, hi as int),
        lo <= res <= hi,
{
    let mut i: usize = lo;
    loop
        invariant
            lo <= i <= hi <= bytes@.len(),
            trim_start(bytes@, lo as int, hi as int) == trim_start(bytes@, i as int, hi as int),
        decreases hi - i,
    {
        let w = space_len_at(bytes, i, hi);
        if w == 0 {
            return i;
        }
        i += w;
    }
}

/// The range `lo..hi` of `bytes` without trailing white space.
pub fn drop_space(bytes: &[u8], lo: usize, hi: usize) -> (res: usize)
    requires
        lo <= hi <= bytes@.len(),
    ensures
        res == trim_end(bytes@, lo as int, hi as int),
        lo <= res <= hi,
{
    let mut i: usize = hi;
    loop
        invariant
            lo <= i <= hi <= bytes@.len(),
            trim_end(bytes@, lo as int, hi as int) == trim_end(bytes@, lo as int, i as int),
        decreases i - lo,
    {
        let w = space_len_before(bytes, lo, i);
        if w == 0 {
            return i;
        }
        i -= w;
    }
}

/// The range `lo..hi` of `bytes` without white space at either end.
pub fn trim_range(bytes: &[u8], lo: usize, hi: usize) -> (res: (usize, usize))
    requires
        lo <= hi <= bytes@.len(),
    ensures
        (res.0 as int, res.1 as int) == trim(bytes@, lo as int, hi as int),
        lo <= res.0 <= res.1 <= hi,
{
    let a = skip_space(bytes, lo, hi);
    let b = drop_space(bytes, a, hi);
    (a, b)
}

/// Where the range `lo..hi` ends once every `b` at its end is left out.
pub open spec fn trim_end_byte(s: Seq<u8>, b: u8, lo: int, hi: int) -> int
    decreases hi - lo,
{
    if lo < hi && 0 < hi <= s.len() && s[hi - 1] == b {
        trim_end_byte(s, b, lo, hi - 1)
    } else {
        hi
    }
}

/// Where the range `lo..hi` begins once every `b` at its start is left out.
pub open spec fn trim_start_byte(s: Seq<u8>, b: u8, lo: int, hi: int) -> int
    decreases hi - lo,
{
    if lo < hi && 0 <= lo < s.len() && s[lo] == b {
        trim_start_byte(s, b, lo + 1, hi)
    } else {
        lo
    }
}

/// The range `lo..hi` of `bytes` without the bytes `b` at its end.
pub fn drop_byte(bytes: &[u8], b: u8, lo: usize, hi: usize) -> (res: usize)
    requires
        lo <= hi <= bytes@.len(),
    ensures
        res == trim_end_byte(bytes@, b, lo as int, hi as int),
        lo <= res <= hi,
{
    let mut i: usize = hi;
    while i > lo && bytes[i - 1] == b
        invariant
            lo <= i <= hi <= bytes@.len(),
            trim_end_byte(bytes@, b, lo as int, hi as int) == trim_end_byte(
                bytes@,
                b,
                lo as int,
                i as int,
            ),
        decreases i - lo,
    {
        i -= 1;
    }
    i
}

/// The range `lo..hi` of `bytes` without the bytes `b` at its start.
pub fn skip_byte(bytes: &[u8], b: u8, lo: usize, hi: usize) -> (res: usize)
    requires
        lo <= hi <= bytes@.len(),
    ensures
        res == trim_start_byte(bytes@, b, lo as int, hi as int),
        lo <= res <= hi,
{
    let mut i: usize = lo;
    while i < hi && bytes[i] == b
        invariant
            lo <= i <= hi <= bytes@.len(),
            trim_start_byte(bytes@, b, lo as int, hi as int) == trim_start_byte(
                bytes@,
                b,
                i as int,
                hi as int,
            ),
        decreases hi - i,
    {
        i += 1;
    }
    i
}

} // verus!
