//! Changes between two revisions, as git reports them.

use crate::strmap::{lookup, put, StrMap};
use crate::text::bytes::{find_byte, first_byte, lemma_first_byte_bounds, span_text, text_between};
use crate::text::lines::{lines_of, ranges_within, split_lines};
use crate::text::ascii::{DIGIT_NINE, DIGIT_ZERO, LETTER_A, LETTER_D, LETTER_R, PLUS, TAB};
use vstd::prelude::*;
use vstd::string::StringSliceAdditionalSpecFns;

verus! {

/// What happened to a file between two revisions.
#[derive(Debug, Clone, Copy, PartialEq, Eq, Structural)]
pub enum DiffStatus {
    Added,
    Modified,
    Deleted,
    Renamed,
}

impl DiffStatus {
    pub open spec fn label(self) -> Seq<char> {
        match self {
            DiffStatus::Added => "new"@,
            DiffStatus::Modified => "modified"@,
            DiffStatus::Deleted => "deleted"@,
            DiffStatus::Renamed => "renamed"@,
        }
    }

    pub fn as_str(&self) -> (res: &'static str)
        ensures
            res@ == self.label(),
    {
        match self {
            DiffStatus::Added => "new",
            DiffStatus::Modified => "modified",
            DiffStatus::Deleted => "deleted",
            DiffStatus::Renamed => "renamed",
        }
    }

    /// The status that the first letter of a status field of
    /// `git diff --name-status` stands for; a field that begins otherwise
    /// counts as a modification.
    pub open spec fn of_letter(letter: Option<u8>) -> DiffStatus {
        if letter == Some(LETTER_A) {
            DiffStatus::Added
        } else if letter == Some(LETTER_D) {
            DiffStatus::Deleted
        } else if letter == Some(LETTER_R) {
            DiffStatus::Renamed
        } else {
            DiffStatus::Modified
        }
    }

    /// The status that a status field stands for.
    pub fn from_field(field: &str) -> (res: Self)
        ensures
            res == Self::of_letter(
                if field.spec_bytes().len() > 0 {
                    Some(field.spec_bytes()[0])
                } else {
                    None
                },
            ),
    {
        let b = field.as_bytes();
        if b.len() == 0 {
            DiffStatus::Modified
        } else if b[0] == LETTER_A {
            DiffStatus::Added
        } else if b[0] == LETTER_D {
            DiffStatus::Deleted
        } else if b[0] == LETTER_R {
            DiffStatus::Renamed
        } else {
            DiffStatus::Modified
        }
    }
}

/// One changed file with the number of lines added and deleted.
#[derive(Debug, Clone)]
pub struct DiffStat {
    pub path: String,
    pub status: DiffStatus,
    pub additions: usize,
    pub deletions: usize,
}

/// The content of a [`DiffStat`].
pub struct DiffStatView {
    pub path: Seq<char>,
    pub status: DiffStatus,
    pub additions: usize,
    pub deletions: usize,
}

impl View for DiffStat {
    type V = DiffStatView;

    open spec fn view(&self) -> DiffStatView {
        DiffStatView {
            path: self.path@,
            status: self.status,
            additions: self.additions,
            deletions: self.deletions,
        }
    }
}

/// The contents of a sequence of changes.
pub open spec fn diff_views(s: Seq<DiffStat>) -> Seq<DiffStatView> {
    s.map_values(|d: DiffStat| d@)
}

/// The fields of the range `lo..hi`, which tabs separate.
pub open spec fn fields_of(bytes: Seq<u8>, lo: int, hi: int) -> Seq<(usize, usize)>
    decreases hi - lo,
{
    if lo < 0 || lo > hi || hi > bytes.len() {
        Seq::empty()
    } else {
        proof {
            lemma_first_byte_bounds(bytes, TAB, lo, hi);
        }
        let tab = first_byte(bytes, TAB, lo, hi);
        if tab < hi {
            seq![(lo as usize, tab as usize)] + fields_of(bytes, tab + 1, hi)
        } else {
            seq![(lo as usize, hi as usize)]
        }
    }
}

/// The fields of the range `lo..hi` of `bytes`.
pub fn split_fields(bytes: &[u8], lo: usize, hi: usize) -> (res: Vec<(usize, usize)>)
    requires
        lo <= hi <= bytes@.len(),
    ensures
        res@ == fields_of(bytes@, lo as int, hi as int),
        ranges_within(res@, bytes@.len() as int),
{
    let mut out: Vec<(usize, usize)> = Vec::new();
    let mut pos: usize = lo;
    loop
        invariant
            lo <= pos <= hi <= bytes@.len(),
            fields_of(bytes@, lo as int, hi as int) == out@ + fields_of(
                bytes@,
                pos as int,
                hi as int,
            ),
            ranges_within(out@, bytes@.len() as int),
        decreases hi - pos,
    {
        let tab = find_byte(bytes, TAB, pos, hi);
        let ghost before = out@;
        out.push((pos, tab));
        if tab >= hi {
            proof {
                assert(out@ =~= before + seq![(pos, hi)]);
            }
            return out;
        }
        proof {
            assert(out@ + fields_of(bytes@, tab + 1, hi as int) =~= before + (seq![(pos, tab)]
                + fields_of(bytes@, tab + 1, hi as int)));
        }
        pos = tab + 1;
    }
}

/// The number that the digits in `lo..hi` spell, read up to `i`; none where
/// a byte is no digit or the number passes the largest `usize`.
pub open spec fn digits_value(bytes: Seq<u8>, lo: int, i: int) -> Option<int>
    decreases i - lo,
{
    if i <= lo {
        Some(0)
    } else {
        match digits_value(bytes, lo, i - 1) {
            Some(v) => if DIGIT_ZERO <= bytes[i - 1] <= DIGIT_NINE && v * 10 + (bytes[i - 1] - DIGIT_ZERO)
                <= usize::MAX {
                Some(v * 10 + (bytes[i - 1] - DIGIT_ZERO))
            } else {
                None
            },
            None => None,
        }
    }
}

/// The count that a field spells: a decimal number, a plus sign before it or
/// not; 0 for a field that spells none.
pub open spec fn count_of_field(bytes: Seq<u8>, r: (usize, usize)) -> usize {
    let start = if r.0 < r.1 && bytes[r.0 as int] == PLUS {
        r.0 + 1
    } else {
        r.0 as int
    };
    if start >= r.1 {
        0
    } else {
        match digits_value(bytes, start, r.1 as int) {
            Some(v) => v as usize,
            None => 0,
        }
    }
}

/// The count that the field in the range `r` spells.
pub fn parse_count(bytes: &[u8], r: (usize, usize)) -> (res: usize)
    requires
        r.0 <= r.1 <= bytes@.len(),
    ensures
        res == count_of_field(bytes@, r),
{
    let start = if r.0 < r.1 && bytes[r.0] == PLUS {
        r.0 + 1
    } else {
        r.0
    };
    if start >= r.1 {
        return 0;
    }
    let mut value: usize = 0;
    let mut i: usize = start;
    while i < r.1
        invariant
            start <= i <= r.1 <= bytes@.len(),
            start < r.1,
            start == (if r.0 < r.1 && bytes@[r.0 as int] == PLUS {
                r.0 + 1
            } else {
                r.0 as int
            }),
            digits_value(bytes@, start as int, i as int) == Some(value as int),
        decreases r.1 - i,
    {
        let b = bytes[i];
        if b < DIGIT_ZERO || b > DIGIT_NINE {
            proof {
                assert(digits_value(bytes@, start as int, i + 1).is_none());
                lemma_digits_none(bytes@, start as int, i + 1, r.1 as int);
            }
            return 0;
        }
        let d = (b - DIGIT_ZERO) as usize;
        if value > (usize::MAX - d) / 10 {
            proof {
                assert(value * 10 + d > usize::MAX) by (nonlinear_arith)
                    requires
                        value > (usize::MAX - d) / 10,
                        d <= usize::MAX,
                ;
                assert(digits_value(bytes@, start as int, i + 1).is_none());
                lemma_digits_none(bytes@, start as int, i + 1, r.1 as int);
            }
            return 0;
        }
        proof {
            assert(value * 10 + d <= usize::MAX) by (nonlinear_arith)
                requires
                    value <= (usize::MAX - d) / 10,
                    d <= usize::MAX,
            ;
        }
        value = value * 10 + d;
        i += 1;
    }
    value
}

proof fn lemma_digits_none(bytes: Seq<u8>, lo: int, a: int, b: int)
    requires
        lo <= a <= b,
        digits_value(bytes, lo, a).is_none(),
    ensures
        digits_value(bytes, lo, b).is_none(),
    decreases b - a,
{
    if a < b {
        lemma_digits_none(bytes, lo, a, b - 1);
    }
}

/// The counts of a line of `git diff --numstat`: the lines added and
/// deleted, by the path in its third field; nothing for a line of fewer
/// fields.
pub open spec fn with_numstat_line(
    stats: Seq<(Seq<char>, (usize, usize))>,
    bytes: Seq<u8>,
    line: (usize, usize),
) -> Seq<(Seq<char>, (usize, usize))> {
    let f = fields_of(bytes, line.0 as int, line.1 as int);
    if f.len() >= 3 {
        put(
            stats,
            span_text(bytes, f[2].0 as int, f[2].1 as int),
            (count_of_field(bytes, f[0]), count_of_field(bytes, f[1])),
        )
    } else {
        stats
    }
}

/// The counts of the first `n` lines.
pub open spec fn numstat_of(
    bytes: Seq<u8>,
    lines: Seq<(usize, usize)>,
    n: int,
) -> Seq<(Seq<char>, (usize, usize))>
    decreases n,
{
    if n <= 0 {
        Seq::empty()
    } else {
        with_numstat_line(numstat_of(bytes, lines, n - 1), bytes, lines[n - 1])
    }
}

/// The change that a line of `git diff --name-status` tells, with the counts
/// of its path: the status by the first letter, the path in the second
/// field, or in the third for a renamed file; none for a line of fewer than
/// two fields.
pub open spec fn change_of_line(
    stats: Seq<(Seq<char>, (usize, usize))>,
    bytes: Seq<u8>,
    line: (usize, usize),
) -> Option<DiffStatView> {
    let f = fields_of(bytes, line.0 as int, line.1 as int);
    if f.len() >= 2 {
        let status = DiffStatus::of_letter(
            if f[0].0 < f[0].1 {
                Some(bytes[f[0].0 as int])
            } else {
                None
            },
        );
        let field = if status == DiffStatus::Renamed && f.len() >= 3 {
            f[2]
        } else {
            f[1]
        };
        let path = span_text(bytes, field.0 as int, field.1 as int);
        let counts = match lookup(stats, path) {
            Some(c) => c,
            None => (0usize, 0usize),
        };
        Some(DiffStatView { path, status, additions: counts.0, deletions: counts.1 })
    } else {
        None
    }
}

/// The changes that the first `n` lines tell.
pub open spec fn changes_of(
    stats: Seq<(Seq<char>, (usize, usize))>,
    bytes: Seq<u8>,
    lines: Seq<(usize, usize)>,
    n: int,
) -> Seq<DiffStatView>
    decreases n,
{
    if n <= 0 {
        Seq::empty()
    } else {
        let prev = changes_of(stats, bytes, lines, n - 1);
        match change_of_line(stats, bytes, lines[n - 1]) {
            Some(c) => prev.push(c),
            None => prev,
        }
    }
}

/// The changes that the two reports of git tell together.
pub open spec fn diff_of(numstat: Seq<u8>, name_status: Seq<u8>) -> Seq<DiffStatView> {
    let stats = numstat_of(numstat, lines_of(numstat), lines_of(numstat).len() as int);
    changes_of(stats, name_status, lines_of(name_status), lines_of(name_status).len() as int)
}

/// The changed files with their counts, from what `git diff --numstat` and
/// `git diff --name-status` print.
pub fn parse_diff(numstat: &str, name_status: &str) -> (res: Vec<DiffStat>)
    ensures
        diff_views(res@) == diff_of(numstat.spec_bytes(), name_status.spec_bytes()),
{
    let nb = numstat.as_bytes();
    let nlines = split_lines(nb);
    let mut stats: StrMap<(usize, usize)> = StrMap::new();
    let mut i: usize = 0;
    while i < nlines.len()
        invariant
            i <= nlines@.len(),
            nb@ == numstat.spec_bytes(),
            nlines@ == lines_of(nb@),
            ranges_within(nlines@, nb@.len() as int),
            stats.pairs() == numstat_of(nb@, nlines@, i as int),
        decreases nlines@.len() - i,
    {
        let (lo, hi) = nlines[i];
        let f = split_fields(nb, lo, hi);
        if f.len() >= 3 {
            let adds = parse_count(nb, f[0]);
            let dels = parse_count(nb, f[1]);
            let file = text_between(numstat, f[2].0, f[2].1);
            stats.insert(file, (adds, dels));
        }
        i += 1;
    }
    let sb = name_status.as_bytes();
    let slines = split_lines(sb);
    let mut results: Vec<DiffStat> = Vec::new();
    let ghost table = stats.pairs();
    let mut k: usize = 0;
    proof {
        assert(diff_views(results@) =~= Seq::<DiffStatView>::empty());
    }
    while k < slines.len()
        invariant
            k <= slines@.len(),
            sb@ == name_status.spec_bytes(),
            slines@ == lines_of(sb@),
            ranges_within(slines@, sb@.len() as int),
            table == stats.pairs(),
            diff_views(results@) == changes_of(table, sb@, slines@, k as int),
        decreases slines@.len() - k,
    {
        let (lo, hi) = slines[k];
        let f = split_fields(sb, lo, hi);
        if f.len() >= 2 {
            let status = if f[0].0 < f[0].1 {
                let b = sb[f[0].0];
                if b == LETTER_A {
                    DiffStatus::Added
                } else if b == LETTER_D {
                    DiffStatus::Deleted
                } else if b == LETTER_R {
                    DiffStatus::Renamed
                } else {
                    DiffStatus::Modified
                }
            } else {
                DiffStatus::Modified
            };
            let field = if status == DiffStatus::Renamed && f.len() >= 3 {
                f[2]
            } else {
                f[1]
            };
            let path = text_between(name_status, field.0, field.1);
            let counts = match stats.get(path.as_str()) {
                Some(c) => *c,
                None => (0, 0),
            };
            let ghost prev = results@;
            let d = DiffStat { path, status, additions: counts.0, deletions: counts.1 };
            results.push(d);
            proof {
                assert(diff_views(results@) =~= diff_views(prev).push(d@));
            }
        }
        k += 1;
    }
    results
}

} // verus!
