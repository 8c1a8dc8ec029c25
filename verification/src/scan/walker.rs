//! What the walker decides from the bytes of a file.

use crate::text::lines::{lines_of, ranges_within, split_lines};
use vstd::prelude::*;

verus! {

/// How many bytes of a file are looked at to tell whether it is binary.
pub const BINARY_CHECK_SIZE: usize = 8192;

/// Above which mean length of the lines that are not empty a file counts as
/// minified.
pub const MINIFIED_LINE_LENGTH_THRESHOLD: usize = 200;

/// Whether a file is binary: a zero byte stands among its first 8192 bytes.
pub open spec fn is_binary(bytes: Seq<u8>) -> bool {
    exists|i: int| 0 <= i < bytes.len() && i < BINARY_CHECK_SIZE && bytes[i] == 0
}

/// Whether the file with these bytes is binary.
pub fn is_binary_file(bytes: &[u8]) -> (res: bool)
    ensures
        res == is_binary(bytes@),
{
    let mut i: usize = 0;
    while i < bytes.len() && i < BINARY_CHECK_SIZE
        invariant
            i <= bytes@.len(),
            forall|k: int| 0 <= k < i ==> bytes@[k] != 0,
        decreases bytes@.len() - i,
    {
        if bytes[i] == 0 {
            return true;
        }
        i += 1;
    }
    false
}

/// The lengths of the first `n` lines, added up.
pub open spec fn total_length(lines: Seq<(usize, usize)>, n: int) -> nat
    decreases n,
{
    if n <= 0 {
        0
    } else {
        total_length(lines, n - 1) + (if lines[n - 1].1 > lines[n - 1].0 {
            (lines[n - 1].1 - lines[n - 1].0) as nat
        } else {
            0nat
        })
    }
}

/// How many of the first `n` lines are not empty.
pub open spec fn filled_lines(lines: Seq<(usize, usize)>, n: int) -> nat
    decreases n,
{
    if n <= 0 {
        0
    } else {
        filled_lines(lines, n - 1) + (if lines[n - 1].1 > lines[n - 1].0 {
            1nat
        } else {
            0nat
        })
    }
}

/// Whether a text is minified: the lines that are not empty are longer than
/// 200 bytes in the mean, rounded down.
pub open spec fn is_minified(bytes: Seq<u8>) -> bool {
    let lines = lines_of(bytes);
    let n = lines.len() as int;
    filled_lines(lines, n) > 0 && total_length(lines, n) / filled_lines(lines, n)
        > MINIFIED_LINE_LENGTH_THRESHOLD
}

proof fn lemma_length_bounds(lines: Seq<(usize, usize)>, len: int, n: int)
    requires
        0 <= n <= lines.len(),
        ranges_within(lines, len),
    ensures
        total_length(lines, n) <= n * len,
        filled_lines(lines, n) <= n,
    decreases n,
{
    if n > 0 {
        lemma_length_bounds(lines, len, n - 1);
        assert(lines[n - 1].0 <= lines[n - 1].1 <= len);
        assert(total_length(lines, n) <= (n - 1) * len + len);
        assert((n - 1) * len + len == n * len) by (nonlinear_arith);
    } else {
        assert(0 * len == 0) by (nonlinear_arith);
    }
}

/// The number of lines of a text, and whether the text is minified.
pub fn count_lines_and_check_minified(bytes: &[u8]) -> (res: (usize, bool))
    ensures
        res.0 == lines_of(bytes@).len(),
        res.1 == is_minified(bytes@),
{
    let lines = split_lines(bytes);
    let n = lines.len();
    let size = bytes.len();
    let mut total: u128 = 0;
    let mut filled: usize = 0;
    let mut i: usize = 0;
    while i < n
        invariant
            i <= n,
            n == lines@.len(),
            size == bytes@.len(),
            ranges_within(lines@, bytes@.len() as int),
            total == total_length(lines@, i as int),
            filled == filled_lines(lines@, i as int),
            filled <= i,
            total <= i * bytes@.len(),
        decreases n - i,
    {
        let (lo, hi) = lines[i];
        proof {
            lemma_length_bounds(lines@, bytes@.len() as int, i + 1);
            assert((i + 1) * bytes@.len() <= usize::MAX * usize::MAX) by (nonlinear_arith)
                requires
                    i + 1 <= usize::MAX,
                    bytes@.len() <= usize::MAX,
            ;
        }
        if hi > lo {
            total = total + (hi - lo) as u128;
            filled += 1;
        }
        i += 1;
    }
    let minified = filled > 0 && total / (filled as u128) > MINIFIED_LINE_LENGTH_THRESHOLD as u128;
    (n, minified)
}

} // verus!
