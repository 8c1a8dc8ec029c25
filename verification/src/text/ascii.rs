//! ASCII case on bytes.

use vstd::prelude::*;

verus! {

/// The tab.
pub const TAB: u8 = 9;

/// The line feed.
pub const LINE_FEED: u8 = 10;

/// The carriage return.
pub const CARRIAGE_RETURN: u8 = 13;

/// `"`.
pub const QUOTE: u8 = 34;

/// `#`.
pub const HASH: u8 = 35;

/// `'`.
pub const APOSTROPHE: u8 = 39;

/// `(`.
pub const PAREN_OPEN: u8 = 40;

/// `+`.
pub const PLUS: u8 = 43;

/// `,`.
pub const COMMA: u8 = 44;

/// `.`.
pub const DOT: u8 = 46;

/// `/`.
pub const SLASH: u8 = 47;

/// `0`.
pub const DIGIT_ZERO: u8 = 48;

/// `9`.
pub const DIGIT_NINE: u8 = 57;

/// `:`.
pub const COLON: u8 = 58;

/// `;`.
pub const SEMICOLON: u8 = 59;

/// `A`.
pub const LETTER_A: u8 = 65;

/// `D`.
pub const LETTER_D: u8 = 68;

/// `R`.
pub const LETTER_R: u8 = 82;

/// `[`.
pub const BRACKET_OPEN: u8 = 91;

/// `\`.
pub const BACKSLASH: u8 = 92;

/// `{`.
pub const BRACE_OPEN: u8 = 123;

/// `}`.
pub const BRACE_CLOSE: u8 = 125;

/// The lower-case form of an ASCII capital; any other byte as it is.
pub open spec fn lower_byte(b: u8) -> u8 {
    if 65 <= b <= 90 {
        (b + 32) as u8
    } else {
        b
    }
}

/// The upper-case form of an ASCII small letter; any other byte as it is.
pub open spec fn upper_byte(b: u8) -> u8 {
    if 97 <= b <= 122 {
        (b - 32) as u8
    } else {
        b
    }
}

/// `s` with each ASCII capital in lower case.
pub open spec fn lower_bytes(s: Seq<u8>) -> Seq<u8> {
    Seq::new(s.len(), |i: int| lower_byte(s[i]))
}

/// `s` with each ASCII small letter in upper case.
pub open spec fn upper_bytes(s: Seq<u8>) -> Seq<u8> {
    Seq::new(s.len(), |i: int| upper_byte(s[i]))
}

pub fn to_lower(b: u8) -> (res: u8)
    ensures
        res == lower_byte(b),
{
    if 65 <= b && b <= 90 {
        b + 32
    } else {
        b
    }
}

pub fn to_upper(b: u8) -> (res: u8)
    ensures
        res == upper_byte(b),
{
    if 97 <= b && b <= 122 {
        b - 32
    } else {
        b
    }
}

/// Whether the range `lo..hi` of `bytes`, put in lower case, is `p`.
pub fn lower_range_is(bytes: &[u8], lo: usize, hi: usize, p: &[u8]) -> (res: bool)
    requires
        lo <= hi <= bytes@.len(),
    ensures
        res == (lower_bytes(bytes@.subrange(lo as int, hi as int)) == p@),
{
    let ghost t = lower_bytes(bytes@.subrange(lo as int, hi as int));
    if hi - lo != p.len() {
        return false;
    }
    let mut k: usize = 0;
    while k < p.len()
        invariant
            lo <= hi <= bytes@.len(),
            hi - lo == p@.len(),
            k <= p@.len(),
            t == lower_bytes(bytes@.subrange(lo as int, hi as int)),
            forall|j: int| 0 <= j < k ==> t[j] == p@[j],
        decreases p@.len() - k,
    {
        if to_lower(bytes[lo + k]) != p[k] {
            assert(t[k as int] != p@[k as int]);
            return false;
        }
        k += 1;
    }
    assert(t =~= p@);
    true
}

/// Whether the range `lo..hi` of `bytes`, put in upper case, is `p`.
pub fn upper_range_is(bytes: &[u8], lo: usize, hi: usize, p: &[u8]) -> (res: bool)
    requires
        lo <= hi <= bytes@.len(),
    ensures
        res == (upper_bytes(bytes@.subrange(lo as int, hi as int)) == p@),
{
    let ghost t = upper_bytes(bytes@.subrange(lo as int, hi as int));
    if hi - lo != p.len() {
        return false;
    }
    let mut k: usize = 0;
    while k < p.len()
        invariant
            lo <= hi <= bytes@.len(),
            hi - lo == p@.len(),
            k <= p@.len(),
            t == upper_bytes(bytes@.subrange(lo as int, hi as int)),
            forall|j: int| 0 <= j < k ==> t[j] == p@[j],
        decreases p@.len() - k,
    {
        if to_upper(bytes[lo + k]) != p[k] {
            assert(t[k as int] != p@[k as int]);
            return false;
        }
        k += 1;
    }
    assert(t =~= p@);
    true
}

} // verus!
