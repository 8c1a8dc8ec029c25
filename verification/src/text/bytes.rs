//! Comparison, search and slicing on UTF-8 bytes.
//!
//! Source text is handled as its UTF-8 bytes: offsets are byte offsets, and a
//! piece of text is a range `lo..hi` of the bytes of one string.

use vstd::prelude::*;
use vstd::string::StringSliceAdditionalSpecFns;
use vstd::utf8::*;

verus! {

/// Two character sequences with the same UTF-8 encoding are equal.
pub proof fn lemma_encoding_injective(a: Seq<char>, b: Seq<char>)
    requires
        encode_utf8(a) == encode_utf8(b),
    ensures
        a == b,
{
    encode_utf8_decode_utf8(a);
    encode_utf8_decode_utf8(b);
}

/// Whether two byte slices hold the same bytes.
pub fn slice_eq(a: &[u8], b: &[u8]) -> (res: bool)
    ensures
        res == (a@ == b@),
{
    if a.len() != b.len() {
        return false;
    }
    let mut i: usize = 0;
    while i < a.len()
        invariant
            a@.len() == b@.len(),
            i <= a@.len(),
            forall|k: int| 0 <= k < i ==> a@[k] == b@[k],
        decreases a@.len() - i,
    {
        if a[i] != b[i] {
            return false;
        }
        i += 1;
    }
    assert(a@ =~= b@);
    true
}

/// Whether two strings hold the same characters.
pub fn str_eq(a: &str, b: &str) -> (res: bool)
    ensures
        res == (a@ == b@),
{
    let r = slice_eq(a.as_bytes(), b.as_bytes());
    proof {
        if r {
            lemma_encoding_injective(a@, b@);
        }
    }
    r
}

/// `p` occurs in `s` at offset `i`.
pub open spec fn occurs_at(s: Seq<u8>, p: Seq<u8>, i: int) -> bool {
    0 <= i && i + p.len() <= s.len() && s.subrange(i, i + p.len()) == p
}

/// `s` begins with `p`.
pub open spec fn has_prefix(s: Seq<u8>, p: Seq<u8>) -> bool {
    occurs_at(s, p, 0)
}

/// `s` ends with `p`.
pub open spec fn has_suffix(s: Seq<u8>, p: Seq<u8>) -> bool {
    occurs_at(s, p, s.len() - p.len())
}

/// `p` occurs somewhere in `s`.
pub open spec fn contains_bytes(s: Seq<u8>, p: Seq<u8>) -> bool {
    exists|i: int| occurs_at(s, p, i)
}

/// Whether `p` occurs in `bytes` at offset `at`, looking no further than `hi`.
pub fn matches_at(bytes: &[u8], at: usize, hi: usize, p: &[u8]) -> (res: bool)
    requires
        at <= hi <= bytes@.len(),
    ensures
        res == occurs_at(bytes@.subrange(0, hi as int), p@, at as int),
{
    let ghost s = bytes@.subrange(0, hi as int);
    if p.len() > hi - at {
        return false;
    }
    let mut k: usize = 0;
    while k < p.len()
        invariant
            at <= hi <= bytes@.len(),
            p@.len() <= hi - at,
            k <= p@.len(),
            s == bytes@.subrange(0, hi as int),
            forall|j: int| 0 <= j < k ==> s[at + j] == p@[j],
        decreases p@.len() - k,
    {
        if bytes[at + k] != p[k] {
            assert(s.subrange(at as int, at + p@.len())[k as int] == s[at + k]);
            return false;
        }
        k += 1;
    }
    assert(s.subrange(at as int, at + p@.len()) =~= p@);
    true
}

/// Whether the range `lo..hi` of `bytes` holds exactly the bytes of `p`.
pub fn range_is(bytes: &[u8], lo: usize, hi: usize, p: &[u8]) -> (res: bool)
    requires
        lo <= hi <= bytes@.len(),
    ensures
        res == (bytes@.subrange(lo as int, hi as int) == p@),
{
    if hi - lo != p.len() {
        return false;
    }
    let r = matches_at(bytes, lo, hi, p);
    assert(bytes@.subrange(0, hi as int).subrange(lo as int, lo + p@.len()) =~= bytes@.subrange(
        lo as int,
        hi as int,
    ));
    r
}

/// Whether the range `lo..hi` of `bytes` begins with the bytes of `p`.
pub fn range_starts_with(bytes: &[u8], lo: usize, hi: usize, p: &[u8]) -> (res: bool)
    requires
        lo <= hi <= bytes@.len(),
    ensures
        res == has_prefix(bytes@.subrange(lo as int, hi as int), p@),
{
    let r = matches_at(bytes, lo, hi, p);
    proof {
        let s = bytes@.subrange(0, hi as int);
        let t = bytes@.subrange(lo as int, hi as int);
        if lo + p@.len() <= hi {
            assert(s.subrange(lo as int, lo + p@.len()) =~= t.subrange(0, p@.len() as int));
        }
    }
    r
}

/// Whether the bytes of `p` occur somewhere in the range `lo..hi` of `bytes`.
pub fn range_contains(bytes: &[u8], lo: usize, hi: usize, p: &[u8]) -> (res: bool)
    requires
        lo <= hi <= bytes@.len(),
    ensures
        res == contains_bytes(bytes@.subrange(lo as int, hi as int), p@),
{
    let ghost s = bytes@.subrange(0, hi as int);
    let ghost t = bytes@.subrange(lo as int, hi as int);
    let mut i: usize = lo;
    while i < hi
        invariant
            lo <= i <= hi,
            hi <= bytes@.len(),
            s == bytes@.subrange(0, hi as int),
            t == bytes@.subrange(lo as int, hi as int),
            forall|j: int| 0 <= j < i - lo ==> !occurs_at(t, p@, j),
        decreases hi - i,
    {
        let m = matches_at(bytes, i, hi, p);
        proof {
            if i + p@.len() <= hi {
                assert(s.subrange(i as int, i + p@.len()) =~= t.subrange(
                    i - lo,
                    i - lo + p@.len(),
                ));
            }
            assert(m == occurs_at(t, p@, i - lo));
        }
        if m {
            return true;
        }
        i += 1;
    }
    let m = matches_at(bytes, hi, hi, p);
    proof {
        if p@.len() == 0 {
            assert(s.subrange(hi as int, hi as int) =~= t.subrange(hi - lo, hi - lo));
        }
        assert(m == occurs_at(t, p@, hi - lo));
        if !m {
            assert forall|j: int| !occurs_at(t, p@, j) by {
                if 0 <= j && j + p@.len() <= t.len() {
                    assert(j <= hi - lo);
                }
            }
        }
    }
    m
}

/// The first offset at or after `from` at which `p` occurs in `s`; the
/// length of `s` plus one if there is none.
pub open spec fn first_occurrence(s: Seq<u8>, p: Seq<u8>, from: int) -> int
    decreases s.len() + 1 - from,
{
    if from < 0 || from > s.len() {
        (s.len() + 1) as int
    } else if occurs_at(s, p, from) {
        from
    } else {
        first_occurrence(s, p, from + 1)
    }
}

/// The first offset at which the bytes of `p` occur in `bytes`.
pub fn find_first(bytes: &[u8], p: &[u8]) -> (res: Option<usize>)
    ensures
        match res {
            Some(i) => first_occurrence(bytes@, p@, 0) == i && i + p@.len() <= bytes@.len(),
            None => first_occurrence(bytes@, p@, 0) > bytes@.len(),
        },
{
    let n = bytes.len();
    assert(bytes@.subrange(0, n as int) =~= bytes@);
    let mut i: usize = 0;
    while i < n
        invariant
            i <= n,
            n == bytes@.len(),
            bytes@.subrange(0, n as int) == bytes@,
            first_occurrence(bytes@, p@, 0) == first_occurrence(bytes@, p@, i as int),
        decreases n - i,
    {
        if matches_at(bytes, i, n, p) {
            return Some(i);
        }
        i += 1;
    }
    if matches_at(bytes, n, n, p) {
        Some(n)
    } else {
        assert(first_occurrence(bytes@, p@, n + 1) == n + 1);
        None
    }
}

/// The first offset in `from..hi` at which `bytes` holds `b`, if there is one.
pub open spec fn first_byte(bytes: Seq<u8>, b: u8, from: int, hi: int) -> int
    decreases hi - from,
{
    if from >= hi {
        hi
    } else if bytes[from] == b {
        from
    } else {
        first_byte(bytes, b, from + 1, hi)
    }
}

/// The first such offset lies in `from..=hi`.
pub proof fn lemma_first_byte_bounds(bytes: Seq<u8>, b: u8, from: int, hi: int)
    requires
        from <= hi,
    ensures
        from <= first_byte(bytes, b, from, hi) <= hi,
    decreases hi - from,
{
    if from < hi && bytes[from] != b {
        lemma_first_byte_bounds(bytes, b, from + 1, hi);
    }
}

/// The first offset in `from..hi` at which `bytes` holds `b`; `hi` if none.
pub fn find_byte(bytes: &[u8], b: u8, from: usize, hi: usize) -> (res: usize)
    requires
        from <= hi <= bytes@.len(),
    ensures
        res == first_byte(bytes@, b, from as int, hi as int),
        from <= res <= hi,
        res < hi ==> bytes@[res as int] == b,
        forall|k: int| from <= k < res ==> bytes@[k] != b,
{
    let mut i: usize = from;
    while i < hi
        invariant
            from <= i <= hi <= bytes@.len(),
            first_byte(bytes@, b, from as int, hi as int) == first_byte(
                bytes@,
                b,
                i as int,
                hi as int,
            ),
            forall|k: int| from <= k < i ==> bytes@[k] != b,
        decreases hi - i,
    {
        if bytes[i] == b {
            return i;
        }
        i += 1;
    }
    i
}

/// A range of the bytes of a string that can be cut out as a string of its
/// own: inside the string, in order, and on character boundaries.
pub open spec fn is_span(bytes: Seq<u8>, lo: int, hi: int) -> bool {
    &&& 0 <= lo <= hi <= bytes.len()
    &&& is_char_boundary(bytes, lo)
    &&& is_char_boundary(bytes, hi)
}

/// The text in the range `lo..hi` of a string's bytes; empty where the range
/// is no span of the string.
pub open spec fn span_text(bytes: Seq<u8>, lo: int, hi: int) -> Seq<char> {
    if is_span(bytes, lo, hi) {
        decode_utf8(bytes.subrange(lo, hi))
    } else {
        Seq::empty()
    }
}

/// Whether `lo..hi` is a span of `s`.
pub fn check_span(s: &str, lo: usize, hi: usize) -> (res: bool)
    ensures
        res == is_span(s.spec_bytes(), lo as int, hi as int),
{
    proof {
        encode_utf8_valid_utf8(s@);
    }
    if lo > hi || hi > s.as_bytes().len() {
        return false;
    }
    s.is_char_boundary(lo) && s.is_char_boundary(hi)
}

/// The part of `s` in the span `lo..hi`.
pub fn slice_span(s: &str, lo: usize, hi: usize) -> (res: &str)
    requires
        is_span(s.spec_bytes(), lo as int, hi as int),
    ensures
        res.spec_bytes() == s.spec_bytes().subrange(lo as int, hi as int),
        res@ == span_text(s.spec_bytes(), lo as int, hi as int),
{
    let (head, _) = s.split_at(hi);
    proof {
        let b = s.spec_bytes();
        let hb = head.spec_bytes();
        assert(hb == b.subrange(0, hi as int));
        encode_utf8_valid_utf8(s@);
        encode_utf8_valid_utf8(head@);
        lemma_boundary_in_prefix(b, lo as int, hi as int);
    }
    let (_, tail) = head.split_at(lo);
    proof {
        let b = s.spec_bytes();
        assert(tail.spec_bytes() =~= b.subrange(lo as int, hi as int));
        encode_utf8_decode_utf8(tail@);
    }
    tail
}

/// A character boundary of a string is one of each prefix that ends on a
/// boundary behind it.
pub proof fn lemma_boundary_in_prefix(b: Seq<u8>, lo: int, hi: int)
    requires
        valid_utf8(b),
        is_span(b, lo, hi),
    ensures
        is_char_boundary(b.subrange(0, hi), lo),
    decreases b.len(),
{
    broadcast use group_utf8_lib;

    if lo == 0 {
    } else {
        let p = b.subrange(0, hi);
        valid_utf8_split(b, hi);
        assert(valid_utf8(p));
        let n = length_of_first_scalar(b);
        // lo > 0 is a boundary of b, so b is not empty and lo >= n
        assert(is_char_boundary(pop_first_scalar(b), lo - n));
        assert(b.len() > 0);
        assert(lo - n >= 0) by {
            if lo - n < 0 {
                assert(!is_char_boundary(pop_first_scalar(b), lo - n));
            }
        }
        assert(hi - n >= 0);
        assert(is_char_boundary(pop_first_scalar(b), hi - n));
        encode_first_same(b, p, hi);
        assert(pop_first_scalar(p) =~= pop_first_scalar(b).subrange(0, hi - n));
        lemma_boundary_in_prefix(pop_first_scalar(b), lo - n, hi - n);
    }
}

proof fn encode_first_same(b: Seq<u8>, p: Seq<u8>, hi: int)
    requires
        valid_utf8(b),
        valid_utf8(p),
        0 < hi <= b.len(),
        p == b.subrange(0, hi),
    ensures
        length_of_first_scalar(p) == length_of_first_scalar(b),
{
    assert(p[0] == b[0]);
}

/// The text in the range `lo..hi` of `s` as a string of its own.
pub fn text_between(s: &str, lo: usize, hi: usize) -> (res: String)
    ensures
        res@ == span_text(s.spec_bytes(), lo as int, hi as int),
{
    if check_span(s, lo, hi) {
        slice_span(s, lo, hi).to_owned()
    } else {
        String::new()
    }
}

/// Whether `a` comes before `b`, or is `b`, in the order of a dictionary of
/// bytes, comparing from the offset `i` on.
pub open spec fn lex_le(a: Seq<u8>, b: Seq<u8>, i: int) -> bool
    decreases a.len() - i,
{
    if i < 0 || i >= a.len() {
        true
    } else if i >= b.len() {
        false
    } else if a[i] != b[i] {
        a[i] < b[i]
    } else {
        lex_le(a, b, i + 1)
    }
}

/// Whether `a` comes before `b`, or is `b`, byte by byte.
pub fn str_le(a: &str, b: &str) -> (res: bool)
    ensures
        res == lex_le(a.spec_bytes(), b.spec_bytes(), 0),
{
    let x = a.as_bytes();
    let y = b.as_bytes();
    let mut i: usize = 0;
    while i < x.len()
        invariant
            i <= x@.len(),
            x@ == a.spec_bytes(),
            y@ == b.spec_bytes(),
            lex_le(x@, y@, 0) == lex_le(x@, y@, i as int),
        decreases x@.len() - i,
    {
        if i >= y.len() {
            return false;
        }
        if x[i] != y[i] {
            return x[i] < y[i];
        }
        i += 1;
    }
    true
}

/// The order of the dictionary orders any two byte strings.
pub proof fn lemma_lex_total(a: Seq<u8>, b: Seq<u8>, i: int)
    requires
        0 <= i,
    ensures
        lex_le(a, b, i) || lex_le(b, a, i),
    decreases a.len() - i,
{
    if i < a.len() && i < b.len() && a[i] == b[i] {
        lemma_lex_total(a, b, i + 1);
    }
}

/// The order of the dictionary is transitive.
pub proof fn lemma_lex_transitive(a: Seq<u8>, b: Seq<u8>, c: Seq<u8>, i: int)
    requires
        0 <= i,
        lex_le(a, b, i),
        lex_le(b, c, i),
    ensures
        lex_le(a, c, i),
    decreases a.len() - i,
{
    if i < a.len() && i < b.len() && i < c.len() && a[i] == b[i] && b[i] == c[i] {
        lemma_lex_transitive(a, b, c, i + 1);
    }
}

} // verus!
