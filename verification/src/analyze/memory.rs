//! Knowledge markers: annotations such as `TODO` or `SAFETY` in comments.

use crate::analyze::order::{
    lemma_sort_map, lemma_sort_sorts, rank_fn, stable_sort, stable_sort_by, Ranked,
};
use crate::analyze::pattern::{captures_view, find_matches, matches_in, Capture, CaptureView};
use crate::analyze::rules::{group_of, group_range, group_span, line_of, range_bytes, range_of};
use crate::text::ascii::{upper_bytes, upper_range_is};
use crate::text::bytes::{span_text, text_between};
use crate::text::lines::line_number_at;
use crate::text::trim::{trim, trim_range};
use crate::types::file::lit;
use crate::types::memory::{MemoryEntry, MemoryEntryView, MemoryKind};
use vstd::prelude::*;
use vstd::string::StringSliceAdditionalSpecFns;
use vstd::utf8::encode_utf8;

verus! {

/// `TODO`, `FIXME`, `XXX`, `BUG`, `HACK`, `WARNING`, `WARN` or `NOTE` behind
/// a comment leader, in any case.
pub const STANDARD_ANNOTATION: &'static str =
    r"(?im)(?://|#|/\*+|\*)\s*\b(TODO|FIXME|XXX|BUG|HACK|WARNING|NOTE|WARN)\b[:\s]*(.*)";

/// `SAFETY`, `INVARIANT`, `GUARANTEE` or `GUARANTEES` behind a comment
/// leader.
pub const SAFETY_MARKER: &'static str =
    r"(?im)(?://|#|/\*+|\*)\s*\b(SAFETY|INVARIANT|GUARANTEES?)\b[:\s]*(.*)";

/// `RULE`, `POLICY` or `ACCORDING TO` at the start of a comment line.
pub const BUSINESS_RULE: &'static str =
    r"(?im)^\s*(?://|#|/\*+|\*)\s*\b(RULE|POLICY|ACCORDING\s+TO)[:!]?\s+(.+)";

/// `DEPRECATED` or `@deprecated` behind a comment leader.
pub const DEPRECATED_MARKER: &'static str =
    r"(?im)(?://|#|/\*+|\*)\s*\b(DEPRECATED|@deprecated)\b[:\s]*(.*)";

/// The four families of keywords.
#[derive(Clone, Copy, PartialEq, Eq, Structural)]
pub enum MarkerFamily {
    Standard,
    Safety,
    BusinessRule,
    Deprecated,
}

/// The kind of a marker of a family whose keyword, in any mix of cases, is
/// `keyword`. The patterns take a long s for an `s`, so `GUARANTEES` may end
/// in one.
pub open spec fn marker_kind(family: MarkerFamily, keyword: Seq<u8>) -> MemoryKind {
    let k = upper_bytes(keyword);
    match family {
        MarkerFamily::Standard => if k == lit("TODO") {
            MemoryKind::Todo
        } else if k == lit("FIXME") || k == lit("XXX") || k == lit("BUG") {
            MemoryKind::Fixme
        } else if k == lit("HACK") {
            MemoryKind::Hack
        } else if k == lit("WARNING") || k == lit("WARN") {
            MemoryKind::Warning
        } else {
            MemoryKind::Note
        },
        MarkerFamily::Safety => if k == lit("INVARIANT") || k == lit("GUARANTEES") || k == lit(
            "GUARANTEE",
        ) || k == lit("GUARANTEEſ") {
            MemoryKind::Invariant
        } else {
            MemoryKind::Safety
        },
        MarkerFamily::BusinessRule => MemoryKind::BusinessRule,
        MarkerFamily::Deprecated => MemoryKind::Deprecated,
    }
}

/// The marker that one match of a family's pattern stands for: its second
/// group, trimmed, is the message. A marker without message is none, but for
/// a deprecation, whose message is then `Deprecated`.
pub open spec fn marker_of(
    family: MarkerFamily,
    bytes: Seq<u8>,
    cap: CaptureView,
    source_file: Seq<char>,
) -> Option<MemoryEntryView> {
    match group_span(bytes, cap, 0) {
        None => None,
        Some(m) => {
            let g = group_range(bytes, cap, 2);
            let t = trim(bytes, g.0 as int, g.1 as int);
            let message = span_text(bytes, t.0, t.1);
            let kind = marker_kind(family, range_bytes(bytes, group_range(bytes, cap, 1)));
            let entry = MemoryEntryView {
                kind,
                content: if message.len() == 0 {
                    "Deprecated"@
                } else {
                    message
                },
                source_file,
                line_number: line_of(bytes, m.0 as int),
                priority: kind.spec_default_priority(),
            };
            if message.len() == 0 && family != MarkerFamily::Deprecated {
                None
            } else {
                Some(entry)
            }
        },
    }
}

/// The markers that the matches of a family's pattern stand for, in the
/// order of the matches.
pub open spec fn family_markers(
    family: MarkerFamily,
    bytes: Seq<u8>,
    caps: Seq<CaptureView>,
    source_file: Seq<char>,
) -> Seq<MemoryEntryView>
    decreases caps.len(),
{
    if caps.len() == 0 {
        Seq::empty()
    } else {
        let before = family_markers(family, bytes, caps.drop_last(), source_file);
        match marker_of(family, bytes, caps.last(), source_file) {
            Some(e) => before.push(e),
            None => before,
        }
    }
}

/// The line on which a marker stands.
pub open spec fn marker_line() -> spec_fn(MemoryEntryView) -> int {
    |e: MemoryEntryView| e.line_number as int
}

/// The content of a marker, as a function.
pub open spec fn marker_content() -> spec_fn(MemoryEntry) -> MemoryEntryView {
    |e: MemoryEntry| e@
}

/// The contents of a sequence of markers.
pub open spec fn entry_views(s: Seq<MemoryEntry>) -> Seq<MemoryEntryView> {
    s.map_values(marker_content())
}

/// The markers of a text, given the matches of the four patterns: those of
/// the four families one after another, put in the order of their lines.
pub open spec fn markers_of(
    bytes: Seq<u8>,
    source_file: Seq<char>,
    standard: Seq<CaptureView>,
    safety: Seq<CaptureView>,
    rules: Seq<CaptureView>,
    deprecated: Seq<CaptureView>,
) -> Seq<MemoryEntryView> {
    stable_sort_by(
        family_markers(MarkerFamily::Standard, bytes, standard, source_file) + family_markers(
            MarkerFamily::Safety,
            bytes,
            safety,
            source_file,
        ) + family_markers(MarkerFamily::BusinessRule, bytes, rules, source_file) + family_markers(
            MarkerFamily::Deprecated,
            bytes,
            deprecated,
            source_file,
        ),
        marker_line(),
    )
}

/// Markers in the order of the lines on which they stand.
pub open spec fn in_line_order(s: Seq<MemoryEntryView>) -> bool {
    forall|i: int, j: int| 0 <= i <= j < s.len() ==> s[i].line_number <= s[j].line_number
}

/// The markers of a text.
pub open spec fn memory_markers(text: Seq<char>, source_file: Seq<char>) -> Seq<MemoryEntryView> {
    markers_of(
        encode_utf8(text),
        source_file,
        matches_in(STANDARD_ANNOTATION@, text),
        matches_in(SAFETY_MARKER@, text),
        matches_in(BUSINESS_RULE@, text),
        matches_in(DEPRECATED_MARKER@, text),
    )
}

impl Ranked for MemoryEntry {
    open spec fn rank(&self) -> int {
        self.line_number as int
    }

    fn rank_of(&self) -> (r: usize) {
        self.line_number
    }
}

/// The kind of a marker of `family` whose keyword stands in the range `r`.
pub fn kind_for_keyword(family: MarkerFamily, bytes: &[u8], r: (usize, usize)) -> (res: MemoryKind)
    requires
        r.0 <= r.1 <= bytes@.len(),
    ensures
        res == marker_kind(family, range_bytes(bytes@, r)),
{
    match family {
        MarkerFamily::Standard => if upper_range_is(bytes, r.0, r.1, "TODO".as_bytes()) {
            MemoryKind::Todo
        } else if upper_range_is(bytes, r.0, r.1, "FIXME".as_bytes()) || upper_range_is(
            bytes,
            r.0,
            r.1,
            "XXX".as_bytes(),
        ) || upper_range_is(bytes, r.0, r.1, "BUG".as_bytes()) {
            MemoryKind::Fixme
        } else if upper_range_is(bytes, r.0, r.1, "HACK".as_bytes()) {
            MemoryKind::Hack
        } else if upper_range_is(bytes, r.0, r.1, "WARNING".as_bytes()) || upper_range_is(
            bytes,
            r.0,
            r.1,
            "WARN".as_bytes(),
        ) {
            MemoryKind::Warning
        } else {
            MemoryKind::Note
        },
        MarkerFamily::Safety => if upper_range_is(bytes, r.0, r.1, "INVARIANT".as_bytes())
            || upper_range_is(bytes, r.0, r.1, "GUARANTEES".as_bytes()) || upper_range_is(
            bytes,
            r.0,
            r.1,
            "GUARANTEE".as_bytes(),
        ) || upper_range_is(bytes, r.0, r.1, "GUARANTEEſ".as_bytes()) {
            MemoryKind::Invariant
        } else {
            MemoryKind::Safety
        },
        MarkerFamily::BusinessRule => MemoryKind::BusinessRule,
        MarkerFamily::Deprecated => MemoryKind::Deprecated,
    }
}

/// The marker that one match of a family's pattern stands for.
pub fn marker_for(
    family: MarkerFamily,
    content: &str,
    cap: &Capture,
    source_file: &str,
) -> (res: Option<MemoryEntry>)
    ensures
        match res {
            Some(e) => marker_of(family, content.spec_bytes(), cap@, source_file@) == Some(e@),
            None => marker_of(family, content.spec_bytes(), cap@, source_file@).is_none(),
        },
{
    let bytes = content.as_bytes();
    let m = match group_of(content, cap, 0) {
        Some(m) => m,
        None => {
            return None;
        },
    };
    let g = range_of(content, cap, 2);
    let (a, b) = trim_range(bytes, g.0, g.1);
    let message = text_between(content, a, b);
    let empty = message.as_str().is_empty();
    let kind = kind_for_keyword(family, bytes, range_of(content, cap, 1));
    let line = line_number_at(bytes, m.0);
    if empty {
        match family {
            MarkerFamily::Deprecated => Some(
                MemoryEntry::new(kind, "Deprecated".to_owned(), source_file.to_owned(), line),
            ),
            _ => None,
        }
    } else {
        Some(MemoryEntry::new(kind, message, source_file.to_owned(), line))
    }
}

/// Adds to `out` the markers that the matches of a family's pattern stand
/// for.
pub fn push_markers(
    family: MarkerFamily,
    content: &str,
    caps: &Vec<Capture>,
    source_file: &str,
    out: &mut Vec<MemoryEntry>,
)
    ensures
        entry_views(final(out)@) == entry_views(old(out)@) + family_markers(
            family,
            content.spec_bytes(),
            captures_view(caps@),
            source_file@,
        ),
{
    let ghost before = entry_views(out@);
    let ghost cv = captures_view(caps@);
    let ghost bytes = content.spec_bytes();
    let mut i: usize = 0;
    proof {
        assert(cv.take(0) =~= Seq::<CaptureView>::empty());
        assert(before + Seq::<MemoryEntryView>::empty() =~= before);
    }
    while i < caps.len()
        invariant
            i <= caps@.len(),
            cv == captures_view(caps@),
            bytes == content.spec_bytes(),
            entry_views(out@) == before + family_markers(family, bytes, cv.take(i as int), source_file@),
        decreases caps@.len() - i,
    {
        let ghost prev = out@;
        let ghost done = family_markers(family, bytes, cv.take(i as int), source_file@);
        match marker_for(family, content, &caps[i], source_file) {
            Some(e) => {
                out.push(e);
                proof {
                    assert(entry_views(out@) =~= entry_views(prev).push(e@));
                    assert((before + done).push(e@) =~= before + done.push(e@));
                }
            },
            None => {},
        }
        proof {
            let t = cv.take(i + 1);
            assert(t.drop_last() =~= cv.take(i as int));
            assert(t.last() == caps@[i as int]@);
        }
        i += 1;
    }
    proof {
        assert(cv.take(caps@.len() as int) =~= cv);
    }
}

/// The markers of `content`, where the four vectors hold the matches of the
/// four patterns in `content`.
pub fn markers_from_matches(
    content: &str,
    source_file: &str,
    standard: &Vec<Capture>,
    safety: &Vec<Capture>,
    rules: &Vec<Capture>,
    deprecated: &Vec<Capture>,
) -> (res: Vec<MemoryEntry>)
    ensures
        entry_views(res@) == markers_of(
            content.spec_bytes(),
            source_file@,
            captures_view(standard@),
            captures_view(safety@),
            captures_view(rules@),
            captures_view(deprecated@),
        ),
        in_line_order(entry_views(res@)),
{
    let mut out: Vec<MemoryEntry> = Vec::new();
    proof {
        assert(entry_views(out@) =~= Seq::<MemoryEntryView>::empty());
    }
    push_markers(MarkerFamily::Standard, content, standard, source_file, &mut out);
    push_markers(MarkerFamily::Safety, content, safety, source_file, &mut out);
    push_markers(MarkerFamily::BusinessRule, content, rules, source_file, &mut out);
    push_markers(MarkerFamily::Deprecated, content, deprecated, source_file, &mut out);
    let ghost unsorted = out@;
    proof {
        let bytes = content.spec_bytes();
        let a = family_markers(MarkerFamily::Standard, bytes, captures_view(standard@), source_file@);
        assert(Seq::<MemoryEntryView>::empty() + a =~= a);
    }
    let sorted = stable_sort(out);
    proof {
        assert forall|x: MemoryEntry| #[trigger]
            rank_fn::<MemoryEntry>()(x) == marker_line()(marker_content()(x)) by {}
        lemma_sort_map(unsorted, marker_content(), rank_fn::<MemoryEntry>(), marker_line());
        lemma_sort_sorts(entry_views(unsorted), marker_line());
        let r = entry_views(sorted@);
        assert forall|i: int, j: int| 0 <= i <= j < r.len() implies r[i].line_number
            <= r[j].line_number by {
            assert(marker_line()(r[i]) <= marker_line()(r[j]));
        }
    }
    sorted
}

/// The markers of the text `content` of the file `source_file`, in the order
/// of the lines on which they stand.
pub fn extract_memory_markers(content: &str, source_file: &str) -> (res: Vec<MemoryEntry>)
    ensures
        entry_views(res@) == memory_markers(content@, source_file@),
        in_line_order(entry_views(res@)),
{
    let standard = find_matches(STANDARD_ANNOTATION, content);
    let safety = find_matches(SAFETY_MARKER, content);
    let rules = find_matches(BUSINESS_RULE, content);
    let deprecated = find_matches(DEPRECATED_MARKER, content);
    markers_from_matches(content, source_file, &standard, &safety, &rules, &deprecated)
}

} // verus!
