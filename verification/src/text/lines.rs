//! Lines of a text and line numbers of offsets.

use crate::text::bytes::{find_byte, first_byte, lemma_first_byte_bounds};
use crate::text::ascii::{CARRIAGE_RETURN, LINE_FEED};
use vstd::prelude::*;
use vstd::string::StringSliceAdditionalSpecFns;

verus! {

/// How often `b` stands in the range `lo..hi` of `s`.
pub open spec fn count_byte(s: Seq<u8>, b: u8, lo: int, hi: int) -> nat
    decreases hi - lo,
{
    if lo >= hi {
        0
    } else {
        count_byte(s, b, lo, hi - 1) + (if s[hi - 1] == b {
            1nat
        } else {
            0nat
        })
    }
}

/// The number of the line, counted from 1, in which the byte at `offset`
/// stands: one more than the line feeds before it. An offset behind the end
/// counts as the end.
pub open spec fn line_number(s: Seq<u8>, offset: int) -> int {
    (count_byte(s, LINE_FEED, 0, if offset <= s.len() { offset } else { s.len() as int }) + 1) as int
}

/// The line number of `offset` in `bytes`, held at the largest `usize` where
/// it would pass it.
pub fn line_number_at(bytes: &[u8], offset: usize) -> (res: usize)
    ensures
        res == if line_number(bytes@, offset as int) <= usize::MAX {
            line_number(bytes@, offset as int)
        } else {
            usize::MAX as int
        },
        res >= 1,
{
    let end = if offset <= bytes.len() {
        offset
    } else {
        bytes.len()
    };
    let mut count: usize = 0;
    let mut i: usize = 0;
    while i < end
        invariant
            i <= end <= bytes@.len(),
            count == count_byte(bytes@, LINE_FEED, 0, i as int),
            count <= i,
        decreases end - i,
    {
        if bytes[i] == LINE_FEED {
            count += 1;
        }
        i += 1;
    }
    if count == usize::MAX {
        count
    } else {
        count + 1
    }
}

/// The line number of the byte at `offset` in `content`.
pub fn line_number_at_offset(content: &str, offset: usize) -> (res: usize)
    ensures
        res == if line_number(content.spec_bytes(), offset as int) <= usize::MAX {
            line_number(content.spec_bytes(), offset as int)
        } else {
            usize::MAX as int
        },
        res >= 1,
{
    line_number_at(content.as_bytes(), offset)
}

/// Where the line that begins at `from` ends: before its line feed, and
/// before a carriage return that stands directly before that line feed. A
/// last line without a line feed ends with the text.
pub open spec fn line_end(s: Seq<u8>, from: int) -> int {
    let nl = first_byte(s, LINE_FEED, from, s.len() as int);
    if nl < s.len() && nl > from && s[nl - 1] == CARRIAGE_RETURN {
        nl - 1
    } else {
        nl
    }
}

/// The lines of a text from the offset `from` on, each as the range of its
/// bytes without the line ending. Text after the last line feed is a line of
/// its own unless it is empty.
pub open spec fn lines_from(s: Seq<u8>, from: int) -> Seq<(usize, usize)>
    decreases s.len() - from,
{
    if from < 0 || from >= s.len() {
        Seq::empty()
    } else {
        proof {
            lemma_first_byte_bounds(s, LINE_FEED, from, s.len() as int);
        }
        let nl = first_byte(s, LINE_FEED, from, s.len() as int);
        seq![(from as usize, line_end(s, from) as usize)] + (if nl < s.len() {
            lines_from(s, nl + 1)
        } else {
            Seq::empty()
        })
    }
}

/// The lines of a text.
pub open spec fn lines_of(s: Seq<u8>) -> Seq<(usize, usize)> {
    lines_from(s, 0)
}

/// Each range is a range of the text of `len` bytes.
pub open spec fn ranges_within(lines: Seq<(usize, usize)>, len: int) -> bool {
    forall|i: int| 0 <= i < lines.len() ==> (#[trigger] lines[i]).0 <= lines[i].1 <= len
}

/// The lines of `bytes`.
pub fn split_lines(bytes: &[u8]) -> (res: Vec<(usize, usize)>)
    ensures
        res@ == lines_of(bytes@),
        ranges_within(res@, bytes@.len() as int),
{
    let n = bytes.len();
    let mut out: Vec<(usize, usize)> = Vec::new();
    let mut pos: usize = 0;
    while pos < n
        invariant
            n == bytes@.len(),
            pos <= n,
            lines_of(bytes@) == out@ + lines_from(bytes@, pos as int),
            ranges_within(out@, n as int),
        decreases n - pos,
    {
        let nl = find_byte(bytes, LINE_FEED, pos, n);
        let end = if nl < n && nl > pos && bytes[nl - 1] == CARRIAGE_RETURN {
            nl - 1
        } else {
            nl
        };
        let ghost before = out@;
        out.push((pos, end));
        proof {
            let rest = if nl < n {
                lines_from(bytes@, nl + 1)
            } else {
                Seq::empty()
            };
            assert(lines_from(bytes@, pos as int) == seq![(pos, end)] + rest);
            assert(out@ + rest =~= before + lines_from(bytes@, pos as int));
        }
        if nl == n {
            proof {
                assert(out@ =~= out@ + Seq::<(usize, usize)>::empty());
            }
            return out;
        }
        pos = nl + 1;
    }
    proof {
        assert(out@ =~= out@ + Seq::<(usize, usize)>::empty());
    }
    out
}

} // verus!
