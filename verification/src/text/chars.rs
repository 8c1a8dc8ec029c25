//! Text as characters: taking strings apart and building them, and what the
//! standard library tells of single characters.

use vstd::prelude::*;

verus! {

/// Calls `String::push`, which puts one character at the end of the string.
#[verifier::external_body]
pub(crate) fn push_char(s: &mut String, c: char)
    ensures
        final(s)@ == old(s)@.push(c),
{
    s.push(c)
}

/// Whether a character is an upper-case letter, as `char::is_uppercase`
/// tells it.
pub uninterp spec fn char_is_uppercase(c: char) -> bool;

/// Calls `char::is_uppercase`, which tells by the Unicode property
/// `Uppercase`; the contract gives the result its name.
#[verifier::external_body]
pub(crate) fn is_uppercase(c: char) -> (res: bool)
    ensures
        res == char_is_uppercase(c),
{
    c.is_uppercase()
}

/// Whether a character is a letter or a digit, as `char::is_alphanumeric`
/// tells it.
pub uninterp spec fn char_is_alphanumeric(c: char) -> bool;

/// Calls `char::is_alphanumeric`, which tells by the Unicode properties
/// `Alphabetic` and the categories of numbers; the contract gives the result
/// its name.
#[verifier::external_body]
pub(crate) fn is_alphanumeric(c: char) -> (res: bool)
    ensures
        res == char_is_alphanumeric(c),
{
    c.is_alphanumeric()
}

/// The characters of `s`.
pub fn to_chars(s: &str) -> (res: Vec<char>)
    ensures
        res@ == s@,
{
    let mut out: Vec<char> = Vec::new();
    for c in it: s.chars()
        invariant
            it.seq() == s@,
            out@ == s@.take(it.index() as int),
    {
        out.push(c);
        assert(out@ =~= s@.take(it.index() + 1));
    }
    assert(s@.take(s@.len() as int) =~= s@);
    out
}

/// The string of the characters `v[lo..hi]`.
pub fn from_chars(v: &Vec<char>, lo: usize, hi: usize) -> (res: String)
    requires
        lo <= hi <= v@.len(),
    ensures
        res@ == v@.subrange(lo as int, hi as int),
{
    let mut out = String::new();
    let mut i: usize = lo;
    while i < hi
        invariant
            lo <= i <= hi <= v@.len(),
            out@ == v@.subrange(lo as int, i as int),
        decreases hi - i,
    {
        push_char(&mut out, v[i]);
        assert(out@ =~= v@.subrange(lo as int, i + 1));
        i += 1;
    }
    out
}

/// The characters of `s` with each `from` replaced by `to`.
pub open spec fn replaced(s: Seq<char>, from: char, to: char) -> Seq<char> {
    Seq::new(s.len(), |i: int| if s[i] == from { to } else { s[i] })
}

/// `v` with each `from` replaced by `to`.
pub fn replace_char(v: &Vec<char>, from: char, to: char) -> (res: Vec<char>)
    ensures
        res@ == replaced(v@, from, to),
{
    let mut out: Vec<char> = Vec::new();
    let mut i: usize = 0;
    while i < v.len()
        invariant
            i <= v@.len(),
            out@ == replaced(v@.take(i as int), from, to),
        decreases v@.len() - i,
    {
        out.push(if v[i] == from { to } else { v[i] });
        assert(out@ =~= replaced(v@.take(i + 1), from, to));
        i += 1;
    }
    assert(v@.take(v@.len() as int) =~= v@);
    out
}

/// The last index below `hi` at which `s` holds `c`; -1 if there is none.
pub open spec fn last_char(s: Seq<char>, c: char, hi: int) -> int
    decreases hi,
{
    if hi <= 0 {
        -1
    } else if s[hi - 1] == c {
        hi - 1
    } else {
        last_char(s, c, hi - 1)
    }
}

/// One more than the last index below `hi` at which `v` holds `c`; 0 if
/// there is none.
pub fn after_last_char(v: &Vec<char>, c: char, hi: usize) -> (res: usize)
    requires
        hi <= v@.len(),
    ensures
        res == last_char(v@, c, hi as int) + 1,
        res <= hi,
{
    let mut i: usize = hi;
    while i > 0
        invariant
            i <= hi <= v@.len(),
            last_char(v@, c, hi as int) == last_char(v@, c, i as int),
        decreases i,
    {
        if v[i - 1] == c {
            return i;
        }
        i -= 1;
    }
    0
}

/// Whether `v` holds `c`.
pub fn has_char(v: &Vec<char>, c: char) -> (res: bool)
    ensures
        res == v@.contains(c),
{
    let mut i: usize = 0;
    while i < v.len()
        invariant
            i <= v@.len(),
            forall|k: int| 0 <= k < i ==> v@[k] != c,
        decreases v@.len() - i,
    {
        if v[i] == c {
            return true;
        }
        i += 1;
    }
    false
}

} // verus!
