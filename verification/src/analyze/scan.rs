//! Where a declaration ends: by braces, by indentation, or by `end`.

use crate::text::bytes::{range_is, range_starts_with, has_prefix};
use crate::text::lines::ranges_within;
use crate::text::trim::{trim, trim_range, lemma_trim_start_bounds, trim_start};
use crate::types::file::lit;
use crate::types::symbol::Visibility;
use crate::text::ascii::{APOSTROPHE, BACKSLASH, BRACE_CLOSE, BRACE_OPEN, HASH, QUOTE};
use vstd::prelude::*;
use vstd::string::StringSliceAdditionalSpecFns;

verus! {

/// The scan for the closing brace, from offset `i` on, with `depth` braces
/// open and, inside a string or character literal, the quote that began it.
///
/// A quote that follows a backslash does not end a literal. Braces count only
/// outside literals. The scan ends at the brace that closes the last open
/// one.
pub open spec fn brace_end_from(s: Seq<u8>, i: int, depth: int, quote: Option<u8>) -> Option<int>
    decreases s.len() - i,
{
    if i < 0 || i >= s.len() {
        None
    } else {
        let b = s[i];
        match quote {
            Some(q) => if b == q && (i == 0 || s[i - 1] != BACKSLASH) {
                brace_end_from(s, i + 1, depth, None)
            } else {
                brace_end_from(s, i + 1, depth, quote)
            },
            None => if b == QUOTE || b == APOSTROPHE {
                brace_end_from(s, i + 1, depth, Some(b))
            } else if b == BRACE_OPEN {
                brace_end_from(s, i + 1, depth + 1, None)
            } else if b == BRACE_CLOSE {
                if depth == 1 {
                    Some(i)
                } else {
                    brace_end_from(s, i + 1, depth - 1, None)
                }
            } else {
                brace_end_from(s, i + 1, depth, None)
            },
        }
    }
}

/// The offset of the brace that closes the first block opened at or after
/// `start`, if the text holds one.
pub open spec fn brace_end(s: Seq<u8>, start: int) -> Option<int> {
    brace_end_from(s, start, 0, None)
}

/// What the scan finds is a closing brace at or after the offset it began at.
pub proof fn lemma_brace_end_is_brace(s: Seq<u8>, i: int, depth: int, quote: Option<u8>)
    ensures
        match brace_end_from(s, i, depth, quote) {
            Some(e) => i <= e < s.len() && s[e] == BRACE_CLOSE,
            None => true,
        },
    decreases s.len() - i,
{
    if 0 <= i < s.len() {
        let b = s[i];
        match quote {
            Some(q) => {
                if b == q && (i == 0 || s[i - 1] != BACKSLASH) {
                    lemma_brace_end_is_brace(s, i + 1, depth, None);
                } else {
                    lemma_brace_end_is_brace(s, i + 1, depth, quote);
                }
            },
            None => {
                if b == QUOTE || b == APOSTROPHE {
                    lemma_brace_end_is_brace(s, i + 1, depth, Some(b));
                } else if b == BRACE_OPEN {
                    lemma_brace_end_is_brace(s, i + 1, depth + 1, None);
                } else if b == BRACE_CLOSE {
                    if depth != 1 {
                        lemma_brace_end_is_brace(s, i + 1, depth - 1, None);
                    }
                } else {
                    lemma_brace_end_is_brace(s, i + 1, depth, None);
                }
            },
        }
    }
}

/// The scan does not read the bytes of a literal: with other bytes between
/// the quotes, none of them the quote or a backslash, it ends at the same
/// offset.
pub proof fn lemma_literal_content_ignored(
    s: Seq<u8>,
    t: Seq<u8>,
    i: int,
    depth: int,
    q: u8,
    end: int,
)
    requires
        s.len() == t.len(),
        0 <= i <= end < s.len(),
        s[end] == q,
        t[end] == q,
        i > 0 ==> s[i - 1] != BACKSLASH && t[i - 1] != BACKSLASH,
        forall|k: int| i <= k < end ==> s[k] != q && s[k] != BACKSLASH && t[k] != q && t[k] != BACKSLASH,
        forall|k: int| end <= k < s.len() ==> s[k] == t[k],
    ensures
        brace_end_from(s, i, depth, Some(q)) == brace_end_from(t, i, depth, Some(q)),
    decreases end - i,
{
    if i < end {
        lemma_literal_content_ignored(s, t, i + 1, depth, q, end);
    } else {
        lemma_same_tail(s, t, i + 1, depth, None);
    }
}

/// Texts that agree from the byte before `i` on are scanned alike from `i`.
pub proof fn lemma_same_tail(s: Seq<u8>, t: Seq<u8>, i: int, depth: int, quote: Option<u8>)
    requires
        s.len() == t.len(),
        i >= 1,
        forall|k: int| i - 1 <= k < s.len() ==> s[k] == t[k],
    ensures
        brace_end_from(s, i, depth, quote) == brace_end_from(t, i, depth, quote),
    decreases s.len() - i,
{
    if i < s.len() {
        let b = s[i];
        match quote {
            Some(q) => {
                if b == q && s[i - 1] != BACKSLASH {
                    lemma_same_tail(s, t, i + 1, depth, None);
                } else {
                    lemma_same_tail(s, t, i + 1, depth, quote);
                }
            },
            None => {
                if b == QUOTE || b == APOSTROPHE {
                    lemma_same_tail(s, t, i + 1, depth, Some(b));
                } else if b == BRACE_OPEN {
                    lemma_same_tail(s, t, i + 1, depth + 1, None);
                } else if b == BRACE_CLOSE {
                    if depth != 1 {
                        lemma_same_tail(s, t, i + 1, depth - 1, None);
                    }
                } else {
                    lemma_same_tail(s, t, i + 1, depth, None);
                }
            },
        }
    }
}

/// The offset of the brace that closes the first block opened at or after
/// `start` in `bytes`.
pub fn brace_end_in(bytes: &[u8], start: usize) -> (res: Option<usize>)
    ensures
        match res {
            Some(e) => brace_end(bytes@, start as int) == Some(e as int),
            None => brace_end(bytes@, start as int).is_none(),
        },
{
    let n = bytes.len();
    let mut opened: usize = 0;
    let mut closed: usize = 0;
    let mut in_string = false;
    let mut string_char: u8 = QUOTE;
    let mut i: usize = start;
    while i < n
        invariant
            n == bytes@.len(),
            start <= i,
            i <= n ==> opened <= i - start,
            i <= n ==> closed <= i - start,
            brace_end(bytes@, start as int) == brace_end_from(
                bytes@,
                i as int,
                opened - closed,
                if in_string {
                    Some(string_char)
                } else {
                    None
                },
            ),
        decreases n - i,
    {
        let b = bytes[i];
        if in_string {
            if b == string_char && (i == 0 || bytes[i - 1] != BACKSLASH) {
                in_string = false;
            }
        } else if b == QUOTE || b == APOSTROPHE {
            in_string = true;
            string_char = b;
        } else if b == BRACE_OPEN {
            opened += 1;
        } else if b == BRACE_CLOSE {
            closed += 1;
            if closed == opened {
                return Some(i);
            }
        }
        i += 1;
    }
    None
}

/// The offset of the brace that closes the first block opened at or after
/// `start` in `content`. Braces inside string and character literals do not
/// count.
pub fn find_brace_end(content: &str, start: usize) -> (res: Option<usize>)
    ensures
        match res {
            Some(e) => brace_end(content.spec_bytes(), start as int) == Some(e as int),
            None => brace_end(content.spec_bytes(), start as int).is_none(),
        },
{
    brace_end_in(content.as_bytes(), start)
}

/// A line that neither ends nor continues an indented block: blank, or a
/// comment that begins with `#`.
pub open spec fn is_blank_or_comment(s: Seq<u8>, line: (usize, usize)) -> bool {
    let t = trim(s, line.0 as int, line.1 as int);
    t.0 == t.1 || s[t.0] == HASH
}

/// The indentation of a line: the bytes of white space at its start.
pub open spec fn indent_of(s: Seq<u8>, line: (usize, usize)) -> int {
    trim_start(s, line.0 as int, line.1 as int) - line.0
}

/// The last line of the indented block, scanning from the line with index
/// `i`, where `end` is the last line seen to belong to it. Blank lines and
/// comments are passed over; the first other line indented by no more than
/// `base` ends the scan.
pub open spec fn indent_end_from(
    s: Seq<u8>,
    lines: Seq<(usize, usize)>,
    i: int,
    base: int,
    end: int,
) -> int
    decreases lines.len() - i,
{
    if i < 0 || i >= lines.len() {
        end
    } else if is_blank_or_comment(s, lines[i]) {
        indent_end_from(s, lines, i + 1, base, end)
    } else if indent_of(s, lines[i]) <= base {
        end
    } else {
        indent_end_from(s, lines, i + 1, base, i + 1)
    }
}

/// The number of the last line of the block that the line `start_line`
/// opens, by indentation: the last line before the first line, neither blank
/// nor comment, that is indented by no more than `base` bytes.
pub open spec fn indent_end(
    s: Seq<u8>,
    lines: Seq<(usize, usize)>,
    start_line: int,
    base: int,
) -> int {
    indent_end_from(s, lines, start_line, base, start_line)
}

/// The last line of the block that line `start_line` opens, where the block
/// is what is indented by more than `base_indent`.
pub fn find_indent_end(
    bytes: &[u8],
    lines: &Vec<(usize, usize)>,
    start_line: usize,
    base_indent: usize,
) -> (res: usize)
    requires
        ranges_within(lines@, bytes@.len() as int),
    ensures
        res == indent_end(bytes@, lines@, start_line as int, base_indent as int),
{
    let mut end_line = start_line;
    let mut i = start_line;
    while i < lines.len()
        invariant
            ranges_within(lines@, bytes@.len() as int),
            start_line <= i,
            indent_end(bytes@, lines@, start_line as int, base_indent as int) == indent_end_from(
                bytes@,
                lines@,
                i as int,
                base_indent as int,
                end_line as int,
            ),
        decreases lines@.len() - i,
    {
        let (lo, hi) = lines[i];
        let (a, b) = trim_range(bytes, lo, hi);
        proof {
            lemma_trim_start_bounds(bytes@, lo as int, hi as int);
        }
        if a == b || bytes[a] == HASH {
        } else if a - lo <= base_indent {
            return end_line;
        } else {
            end_line = i + 1;
        }
        i += 1;
    }
    end_line
}

/// Whether the trimmed line opens a block that `end` closes.
pub open spec fn opens_block(t: Seq<u8>) -> bool {
    ||| has_prefix(t, lit("class "))
    ||| has_prefix(t, lit("module "))
    ||| has_prefix(t, lit("def "))
    ||| has_prefix(t, lit("do"))
    ||| has_prefix(t, lit("if "))
    ||| has_prefix(t, lit("unless "))
    ||| has_prefix(t, lit("case "))
    ||| has_prefix(t, lit("begin"))
}

/// Whether the trimmed line closes a block.
pub open spec fn closes_block(t: Seq<u8>) -> bool {
    ||| t == lit("end")
    ||| has_prefix(t, lit("end "))
    ||| has_prefix(t, lit("end#"))
}

/// A line of the text without the white space at its ends.
pub open spec fn trimmed_line(s: Seq<u8>, line: (usize, usize)) -> Seq<u8> {
    let t = trim(s, line.0 as int, line.1 as int);
    s.subrange(t.0, t.1)
}

/// The scan for the `end` that closes a block, from the line with index `i`
/// on, with `depth` blocks open.
pub open spec fn block_end_from(
    s: Seq<u8>,
    lines: Seq<(usize, usize)>,
    i: int,
    depth: int,
) -> Option<int>
    decreases lines.len() - i,
{
    if i < 0 || i >= lines.len() {
        None
    } else {
        let t = trimmed_line(s, lines[i]);
        let d = if opens_block(t) {
            depth + 1
        } else {
            depth
        };
        if closes_block(t) {
            if d == 1 {
                Some(i + 1)
            } else {
                block_end_from(s, lines, i + 1, d - 1)
            }
        } else {
            block_end_from(s, lines, i + 1, d)
        }
    }
}

/// The number of the line whose `end` closes the block that the line
/// `start_line` opens; `start_line` itself where no such line follows.
pub open spec fn block_end(s: Seq<u8>, lines: Seq<(usize, usize)>, start_line: int) -> int {
    match block_end_from(s, lines, start_line - 1, 0) {
        Some(e) => e,
        None => start_line,
    }
}

fn line_opens_block(bytes: &[u8], a: usize, b: usize) -> (res: bool)
    requires
        a <= b <= bytes@.len(),
    ensures
        res == opens_block(bytes@.subrange(a as int, b as int)),
{
    range_starts_with(bytes, a, b, "class ".as_bytes()) || range_starts_with(
        bytes,
        a,
        b,
        "module ".as_bytes(),
    ) || range_starts_with(bytes, a, b, "def ".as_bytes()) || range_starts_with(
        bytes,
        a,
        b,
        "do".as_bytes(),
    ) || range_starts_with(bytes, a, b, "if ".as_bytes()) || range_starts_with(
        bytes,
        a,
        b,
        "unless ".as_bytes(),
    ) || range_starts_with(bytes, a, b, "case ".as_bytes()) || range_starts_with(
        bytes,
        a,
        b,
        "begin".as_bytes(),
    )
}

fn line_closes_block(bytes: &[u8], a: usize, b: usize) -> (res: bool)
    requires
        a <= b <= bytes@.len(),
    ensures
        res == closes_block(bytes@.subrange(a as int, b as int)),
{
    range_is(bytes, a, b, "end".as_bytes()) || range_starts_with(bytes, a, b, "end ".as_bytes())
        || range_starts_with(bytes, a, b, "end#".as_bytes())
}

/// The line whose `end` closes the block that line `start_line` opens.
pub fn find_ruby_end(bytes: &[u8], lines: &Vec<(usize, usize)>, start_line: usize) -> (res: usize)
    requires
        ranges_within(lines@, bytes@.len() as int),
        start_line >= 1,
    ensures
        res == block_end(bytes@, lines@, start_line as int),
{
    let mut opened: usize = 0;
    let mut closed: usize = 0;
    let mut i: usize = start_line - 1;
    while i < lines.len()
        invariant
            ranges_within(lines@, bytes@.len() as int),
            start_line >= 1,
            start_line - 1 <= i,
            i <= lines@.len() ==> opened <= i - (start_line - 1),
            i <= lines@.len() ==> closed <= i - (start_line - 1),
            block_end_from(bytes@, lines@, start_line - 1, 0) == block_end_from(
                bytes@,
                lines@,
                i as int,
                opened - closed,
            ),
        decreases lines@.len() - i,
    {
        let (lo, hi) = lines[i];
        let (a, b) = trim_range(bytes, lo, hi);
        if line_opens_block(bytes, a, b) {
            opened += 1;
        }
        if line_closes_block(bytes, a, b) {
            closed += 1;
            if closed == opened {
                return i + 1;
            }
        }
        i += 1;
    }
    start_line
}

/// What a visibility keyword on a trimmed line says, if the line is one.
pub open spec fn scope_keyword(t: Seq<u8>) -> Option<Visibility> {
    if t == lit("private") || has_prefix(t, lit("private ")) {
        Some(Visibility::Private)
    } else if t == lit("protected") || has_prefix(t, lit("protected ")) {
        Some(Visibility::Internal)
    } else if t == lit("public") || has_prefix(t, lit("public ")) {
        Some(Visibility::Public)
    } else {
        None
    }
}

/// The visibility in force below the lines with index under `i`: that of the
/// nearest visibility keyword above, looking no further up than the nearest
/// line that opens a class or module; public where there is none.
pub open spec fn scope_above(s: Seq<u8>, lines: Seq<(usize, usize)>, i: int) -> Visibility
    decreases i,
{
    if i <= 0 || i > lines.len() {
        Visibility::Public
    } else {
        let t = trimmed_line(s, lines[i - 1]);
        match scope_keyword(t) {
            Some(v) => v,
            None => if has_prefix(t, lit("class ")) || has_prefix(t, lit("module ")) {
                Visibility::Public
            } else {
                scope_above(s, lines, i - 1)
            },
        }
    }
}

/// The visibility of a declaration on line `target_line`, counted from 1.
pub open spec fn visibility_at_line(
    s: Seq<u8>,
    lines: Seq<(usize, usize)>,
    target_line: int,
) -> Visibility {
    let above = if target_line - 1 <= lines.len() {
        target_line - 1
    } else {
        lines.len() as int
    };
    scope_above(s, lines, above)
}

/// The visibility of a declaration on line `target_line`.
pub fn get_visibility_at_line(
    bytes: &[u8],
    lines: &Vec<(usize, usize)>,
    target_line: usize,
) -> (res: Visibility)
    requires
        ranges_within(lines@, bytes@.len() as int),
    ensures
        res == visibility_at_line(bytes@, lines@, target_line as int),
{
    let mut i: usize = if target_line == 0 {
        0
    } else if target_line - 1 <= lines.len() {
        target_line - 1
    } else {
        lines.len()
    };
    while i > 0
        invariant
            ranges_within(lines@, bytes@.len() as int),
            i <= lines@.len(),
            visibility_at_line(bytes@, lines@, target_line as int) == scope_above(
                bytes@,
                lines@,
                i as int,
            ),
        decreases i,
    {
        let (lo, hi) = lines[i - 1];
        let (a, b) = trim_range(bytes, lo, hi);
        if range_is(bytes, a, b, "private".as_bytes()) || range_starts_with(
            bytes,
            a,
            b,
            "private ".as_bytes(),
        ) {
            return Visibility::Private;
        }
        if range_is(bytes, a, b, "protected".as_bytes()) || range_starts_with(
            bytes,
            a,
            b,
            "protected ".as_bytes(),
        ) {
            return Visibility::Internal;
        }
        if range_is(bytes, a, b, "public".as_bytes()) || range_starts_with(
            bytes,
            a,
            b,
            "public ".as_bytes(),
        ) {
            return Visibility::Public;
        }
        if range_starts_with(bytes, a, b, "class ".as_bytes()) || range_starts_with(
            bytes,
            a,
            b,
            "module ".as_bytes(),
        ) {
            return Visibility::Public;
        }
        i -= 1;
    }
    Visibility::Public
}

} // verus!
