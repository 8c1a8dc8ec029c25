//! Numbers written in decimal.

use crate::text::chars::push_char;
use vstd::prelude::*;

verus! {

/// The character of a decimal digit.
pub open spec fn digit(d: int) -> char {
    if d == 0 {
        '0'
    } else if d == 1 {
        '1'
    } else if d == 2 {
        '2'
    } else if d == 3 {
        '3'
    } else if d == 4 {
        '4'
    } else if d == 5 {
        '5'
    } else if d == 6 {
        '6'
    } else if d == 7 {
        '7'
    } else if d == 8 {
        '8'
    } else {
        '9'
    }
}

/// The digits of a number in decimal, the most significant first.
pub open spec fn decimal(n: nat) -> Seq<char>
    decreases n,
{
    if n < 10 {
        seq![digit(n as int)]
    } else {
        decimal(n / 10).push(digit((n % 10) as int))
    }
}

fn digit_char(d: usize) -> (res: char)
    requires
        d < 10,
    ensures
        res == digit(d as int),
{
    if d == 0 {
        '0'
    } else if d == 1 {
        '1'
    } else if d == 2 {
        '2'
    } else if d == 3 {
        '3'
    } else if d == 4 {
        '4'
    } else if d == 5 {
        '5'
    } else if d == 6 {
        '6'
    } else if d == 7 {
        '7'
    } else if d == 8 {
        '8'
    } else {
        '9'
    }
}

/// Puts the decimal digits of `n` at the end of `out`.
pub fn push_decimal(out: &mut String, n: usize)
    ensures
        final(out)@ == old(out)@ + decimal(n as nat),
{
    let mut buf: Vec<char> = Vec::new();
    let mut m = n;
    proof {
        assert(decimal(m as nat) + buf@.reverse() =~= decimal(n as nat));
    }
    while m >= 10
        invariant
            decimal(n as nat) == decimal(m as nat) + buf@.reverse(),
        decreases m,
    {
        let ghost before = buf@;
        let ghost dm = decimal((m / 10) as nat);
        let d = digit_char(m % 10);
        buf.push(d);
        proof {
            assert(buf@.reverse() =~= seq![d] + before.reverse());
            assert(decimal(m as nat) == dm.push(d));
            assert(dm.push(d) + before.reverse() =~= dm + buf@.reverse());
        }
        m = m / 10;
    }
    let ghost before = buf@;
    buf.push(digit_char(m));
    proof {
        assert(buf@.reverse() =~= decimal(m as nat) + before.reverse());
    }
    let ghost start = out@;
    let ghost digits = buf@.reverse();
    let len = buf.len();
    let mut i: usize = len;
    proof {
        assert(start + digits.subrange(0, 0) =~= start);
    }
    while i > 0
        invariant
            i <= len,
            len == buf@.len(),
            digits == buf@.reverse(),
            out@ == start + digits.subrange(0, len - i),
        decreases i,
    {
        i -= 1;
        push_char(out, buf[i]);
        proof {
            assert(digits[len - 1 - i] == buf@[i as int]);
            assert(out@ =~= start + digits.subrange(0, len - i));
        }
    }
    proof {
        assert(digits.subrange(0, len as int) =~= digits);
    }
}

/// The decimal digits of `n` as a string.
pub fn decimal_string(n: usize) -> (res: String)
    ensures
        res@ == decimal(n as nat),
{
    let mut s = String::new();
    push_decimal(&mut s, n);
    assert(Seq::<char>::empty() + decimal(n as nat) =~= decimal(n as nat));
    s
}

} // verus!
