//! The memory document: the markers of the tree by category.

use crate::analyze::graph::{counted_content, counted_views};
use crate::analyze::memory::{entry_views, marker_content};
use crate::analyze::order::{
    is_total_order, lemma_sort_with, lemma_sort_with_map, order_fn, sort_ordered, sort_with,
    Ordered,
};
use crate::generate::file_doc::{badge, priority_badge};
use crate::strmap::{lookup, put, StrMap};
use crate::text::bytes::{lemma_lex_total, lemma_lex_transitive, lex_le, str_eq, str_le};
use crate::text::decimal::{decimal, push_decimal};
use crate::types::memory::{MemoryEntry, MemoryEntryView, MemoryKind, Priority};
use vstd::prelude::*;
use vstd::string::*;
use vstd::utf8::encode_utf8;

verus! {

/// The groups in which markers are listed, in the order of the document.
#[derive(Debug, Clone, Copy, PartialEq, Eq, Structural)]
pub enum Category {
    Warnings,
    BusinessRules,
    TechnicalDebt,
    Notes,
}

impl Category {
    /// The category of a kind of marker.
    pub open spec fn of(kind: MemoryKind) -> Category {
        match kind {
            MemoryKind::Warning | MemoryKind::Safety => Category::Warnings,
            MemoryKind::BusinessRule | MemoryKind::Invariant => Category::BusinessRules,
            MemoryKind::Todo | MemoryKind::Fixme | MemoryKind::Hack | MemoryKind::Deprecated =>
                Category::TechnicalDebt,
            MemoryKind::Note => Category::Notes,
        }
    }

    pub open spec fn label(self) -> Seq<char> {
        match self {
            Category::Warnings => "Warnings"@,
            Category::BusinessRules => "Business Rules"@,
            Category::TechnicalDebt => "Technical Debt"@,
            Category::Notes => "Notes"@,
        }
    }

    pub open spec fn sign(self) -> Seq<char> {
        match self {
            Category::Warnings => "⚠️"@,
            Category::BusinessRules => "📋"@,
            Category::TechnicalDebt => "🔧"@,
            Category::Notes => "📝"@,
        }
    }

    pub fn for_kind(kind: MemoryKind) -> (res: Self)
        ensures
            res == Self::of(kind),
            res.label() == kind.spec_category(),
            res.sign() == kind.spec_emoji(),
    {
        match kind {
            MemoryKind::Warning | MemoryKind::Safety => Category::Warnings,
            MemoryKind::BusinessRule | MemoryKind::Invariant => Category::BusinessRules,
            MemoryKind::Todo | MemoryKind::Fixme | MemoryKind::Hack | MemoryKind::Deprecated => {
                Category::TechnicalDebt
            },
            MemoryKind::Note => Category::Notes,
        }
    }

    pub fn name(&self) -> (res: &'static str)
        ensures
            res@ == self.label(),
    {
        match self {
            Category::Warnings => "Warnings",
            Category::BusinessRules => "Business Rules",
            Category::TechnicalDebt => "Technical Debt",
            Category::Notes => "Notes",
        }
    }

    pub fn emoji(&self) -> (res: &'static str)
        ensures
            res@ == self.sign(),
    {
        match self {
            Category::Warnings => "⚠️",
            Category::BusinessRules => "📋",
            Category::TechnicalDebt => "🔧",
            Category::Notes => "📝",
        }
    }
}

/// Whether a marker counts: it is of the category, and of the priority where
/// one is asked for.
pub open spec fn counts(e: MemoryEntryView, cat: Category, priority: Option<Priority>) -> bool {
    Category::of(e.kind) == cat && match priority {
        Some(p) => e.priority == p,
        None => true,
    }
}

/// How many of the first `n` markers count.
pub open spec fn count_of(
    entries: Seq<MemoryEntryView>,
    cat: Category,
    priority: Option<Priority>,
    n: int,
) -> nat
    decreases n,
{
    if n <= 0 {
        0
    } else {
        count_of(entries, cat, priority, n - 1) + (if counts(entries[n - 1], cat, priority) {
            1nat
        } else {
            0nat
        })
    }
}

/// How many of the markers count.
pub fn count_entries(
    entries: &[MemoryEntry],
    cat: Category,
    priority: Option<Priority>,
) -> (res: usize)
    ensures
        res == count_of(entry_views(entries@), cat, priority, entries@.len() as int),
{
    let ghost views = entry_views(entries@);
    let mut count: usize = 0;
    let mut i: usize = 0;
    while i < entries.len()
        invariant
            i <= entries@.len(),
            views == entry_views(entries@),
            count == count_of(views, cat, priority, i as int),
            count <= i,
        decreases entries@.len() - i,
    {
        let e = &entries[i];
        assert(views[i as int] == e@);
        let of_category = Category::for_kind(e.kind) == cat;
        let of_priority = match priority {
            Some(p) => e.priority == p,
            None => true,
        };
        if of_category && of_priority {
            count += 1;
        }
        i += 1;
    }
    count
}

/// The markers of a category among the first `n`, in their order.
pub open spec fn items_of(
    entries: Seq<MemoryEntryView>,
    cat: Category,
    n: int,
) -> Seq<MemoryEntryView>
    decreases n,
{
    if n <= 0 {
        Seq::empty()
    } else {
        let prev = items_of(entries, cat, n - 1);
        if Category::of(entries[n - 1].kind) == cat {
            prev.push(entries[n - 1])
        } else {
            prev
        }
    }
}

/// Whether a marker may stand before another in a section: the higher
/// priority first, then by the file in the order of the dictionary, then by
/// the line.
pub open spec fn entry_order() -> spec_fn(MemoryEntryView, MemoryEntryView) -> bool {
    |a: MemoryEntryView, b: MemoryEntryView|
        a.priority.rank() < b.priority.rank() || (a.priority.rank() == b.priority.rank() && (
        if a.source_file == b.source_file {
            a.line_number <= b.line_number
        } else {
            lex_le(encode_utf8(a.source_file), encode_utf8(b.source_file), 0)
        }))
}

impl Ordered for MemoryEntry {
    open spec fn may_precede(&self, other: &Self) -> bool {
        entry_order()(self@, other@)
    }

    fn precedes(&self, other: &Self) -> (r: bool) {
        let a = self.priority.rank_of();
        let b = other.priority.rank_of();
        if a != b {
            return a < b;
        }
        if str_eq(self.source_file.as_str(), other.source_file.as_str()) {
            self.line_number <= other.line_number
        } else {
            str_le(self.source_file.as_str(), other.source_file.as_str())
        }
    }
}

/// `acc` with the row of a category in the summary, if it has markers.
pub open spec fn summary_row(
    acc: Seq<char>,
    entries: Seq<MemoryEntryView>,
    cat: Category,
) -> Seq<char> {
    let n = entries.len() as int;
    if count_of(entries, cat, None, n) == 0 {
        acc
    } else {
        acc + "| "@ + cat.sign() + " "@ + cat.label() + " | "@ + decimal(
            count_of(entries, cat, None, n),
        ) + " | "@ + decimal(count_of(entries, cat, Some(Priority::High), n)) + " | "@ + decimal(
            count_of(entries, cat, Some(Priority::Medium), n),
        ) + " | "@ + decimal(count_of(entries, cat, Some(Priority::Low), n)) + " |\n"@
    }
}

/// `acc` with a marker in a section.
pub open spec fn section_entry(acc: Seq<char>, e: MemoryEntryView) -> Seq<char> {
    acc + "### "@ + badge(e.priority) + " `"@ + e.kind.label() + "` ("@ + e.source_file + ":"@
        + decimal(e.line_number as nat) + ")\n\n"@ + "> "@ + e.content + "\n\n"@
}

/// `acc` with the first `n` of the markers.
pub open spec fn section_entries(acc: Seq<char>, items: Seq<MemoryEntryView>, n: int) -> Seq<char>
    decreases n,
{
    if n <= 0 {
        acc
    } else {
        section_entry(section_entries(acc, items, n - 1), items[n - 1])
    }
}

/// `acc` with the section of a category, if it has markers: the markers in
/// the order of priority, file and line.
pub open spec fn category_section(
    acc: Seq<char>,
    entries: Seq<MemoryEntryView>,
    cat: Category,
) -> Seq<char> {
    let items = sort_with(items_of(entries, cat, entries.len() as int), entry_order());
    if count_of(entries, cat, None, entries.len() as int) == 0 {
        acc
    } else {
        section_entries(
            acc + "## "@ + cat.sign() + " "@ + cat.label() + "\n\n"@,
            items,
            items.len() as int,
        ) + "---\n\n"@
    }
}

/// The memory document: a summary by category, then the markers of each
/// category.
pub open spec fn memory_doc(entries: Seq<MemoryEntryView>) -> Seq<char> {
    if entries.len() == 0 {
        "# Memory\n\nNo memory markers found in this repository."@
    } else {
        let head = "# Memory\n\n"@
            + "This file contains extracted knowledge markers from the codebase.\n\n"@
            + "## Summary\n\n"@ + "| Category | Count | High | Medium | Low |\n"@
            + "| -------- | ----- | ---- | ------ | --- |\n"@;
        let summary = summary_row(
            summary_row(
                summary_row(summary_row(head, entries, Category::Warnings), entries, Category::BusinessRules),
                entries,
                Category::TechnicalDebt,
            ),
            entries,
            Category::Notes,
        ) + "\n---\n\n"@;
        category_section(
            category_section(
                category_section(
                    category_section(summary, entries, Category::Warnings),
                    entries,
                    Category::BusinessRules,
                ),
                entries,
                Category::TechnicalDebt,
            ),
            entries,
            Category::Notes,
        )
    }
}

fn write_summary_row(out: &mut String, entries: &[MemoryEntry], cat: Category)
    ensures
        final(out)@ == summary_row(old(out)@, entry_views(entries@), cat),
{
    let total = count_entries(entries, cat, None);
    if total == 0 {
        return ;
    }
    out.append("| ");
    out.append(cat.emoji());
    out.append(" ");
    out.append(cat.name());
    out.append(" | ");
    push_decimal(out, total);
    out.append(" | ");
    push_decimal(out, count_entries(entries, cat, Some(Priority::High)));
    out.append(" | ");
    push_decimal(out, count_entries(entries, cat, Some(Priority::Medium)));
    out.append(" | ");
    push_decimal(out, count_entries(entries, cat, Some(Priority::Low)));
    out.append(" |\n");
}

/// Copies of the markers of a category, in their order.
pub fn entries_of_category(entries: &[MemoryEntry], cat: Category) -> (res: Vec<MemoryEntry>)
    ensures
        entry_views(res@) == items_of(entry_views(entries@), cat, entries@.len() as int),
{
    let ghost views = entry_views(entries@);
    let mut out: Vec<MemoryEntry> = Vec::new();
    let mut i: usize = 0;
    proof {
        assert(entry_views(out@) =~= Seq::<MemoryEntryView>::empty());
    }
    while i < entries.len()
        invariant
            i <= entries@.len(),
            views == entry_views(entries@),
            entry_views(out@) == items_of(views, cat, i as int),
        decreases entries@.len() - i,
    {
        let e = &entries[i];
        assert(views[i as int] == e@);
        if Category::for_kind(e.kind) == cat {
            let ghost prev = out@;
            out.push(e.duplicate());
            assert(entry_views(out@) =~= entry_views(prev).push(e@));
        }
        i += 1;
    }
    out
}

/// Puts a marker of a section at the end of `out`.
pub fn write_section_entry(out: &mut String, e: &MemoryEntry)
    ensures
        final(out)@ == section_entry(old(out)@, e@),
{
    out.append("### ");
    out.append(priority_badge(e.priority));
    out.append(" `");
    out.append(e.kind.as_str());
    out.append("` (");
    out.append(e.source_file.as_str());
    out.append(":");
    push_decimal(out, e.line_number);
    out.append(")\n\n");
    out.append("> ");
    out.append(e.content.as_str());
    out.append("\n\n");
}

fn write_category_section(out: &mut String, entries: &[MemoryEntry], cat: Category)
    ensures
        final(out)@ == category_section(old(out)@, entry_views(entries@), cat),
{
    if count_entries(entries, cat, None) == 0 {
        return ;
    }
    let items = entries_of_category(entries, cat);
    let ghost unsorted = items@;
    let sorted = sort_ordered(items);
    proof {
        assert forall|a: MemoryEntry, b: MemoryEntry| #[trigger]
            order_fn::<MemoryEntry>()(a, b) == entry_order()(marker_content()(a), marker_content()(b)) by {}
        lemma_sort_with_map(unsorted, marker_content(), order_fn::<MemoryEntry>(), entry_order());
    }
    let ghost views = entry_views(sorted@);
    out.append("## ");
    out.append(cat.emoji());
    out.append(" ");
    out.append(cat.name());
    out.append("\n\n");
    let ghost start = out@;
    let mut i: usize = 0;
    while i < sorted.len()
        invariant
            i <= sorted@.len(),
            views == entry_views(sorted@),
            out@ == section_entries(start, views, i as int),
        decreases sorted@.len() - i,
    {
        assert(views[i as int] == sorted@[i as int]@);
        write_section_entry(out, &sorted[i]);
        i += 1;
    }
    out.append("---\n\n");
}

/// The memory document for the markers of the tree.
pub fn generate_memory(entries: &[MemoryEntry]) -> (res: String)
    ensures
        res@ == memory_doc(entry_views(entries@)),
{
    if entries.len() == 0 {
        return "# Memory\n\nNo memory markers found in this repository.".to_owned();
    }
    let mut out = "# Memory\n\n".to_owned();
    out.append("This file contains extracted knowledge markers from the codebase.\n\n");
    out.append("## Summary\n\n");
    out.append("| Category | Count | High | Medium | Low |\n");
    out.append("| -------- | ----- | ---- | ------ | --- |\n");
    write_summary_row(&mut out, entries, Category::Warnings);
    write_summary_row(&mut out, entries, Category::BusinessRules);
    write_summary_row(&mut out, entries, Category::TechnicalDebt);
    write_summary_row(&mut out, entries, Category::Notes);
    out.append("\n---\n\n");
    write_category_section(&mut out, entries, Category::Warnings);
    write_category_section(&mut out, entries, Category::BusinessRules);
    write_category_section(&mut out, entries, Category::TechnicalDebt);
    write_category_section(&mut out, entries, Category::Notes);
    out
}

/// The number of markers of high priority for each file that has one, file
/// by file in the order in which the files come, over the first `n` markers.
pub open spec fn high_counts(entries: Seq<MemoryEntryView>, n: int) -> Seq<(Seq<char>, usize)>
    decreases n,
{
    if n <= 0 {
        Seq::empty()
    } else {
        let prev = high_counts(entries, n - 1);
        let e = entries[n - 1];
        if e.priority == Priority::High {
            match lookup(prev, e.source_file) {
                Some(c) => put(
                    prev,
                    e.source_file,
                    if c < usize::MAX {
                        (c + 1) as usize
                    } else {
                        c
                    },
                ),
                None => put(prev, e.source_file, 1usize),
            }
        } else {
            prev
        }
    }
}

/// Whether a counted file may stand before another: the greater count
/// first, then by name in the order of the dictionary.
pub open spec fn critical_order() -> spec_fn((Seq<char>, usize), (Seq<char>, usize)) -> bool {
    |a: (Seq<char>, usize), b: (Seq<char>, usize)|
        a.1 > b.1 || (a.1 == b.1 && lex_le(encode_utf8(a.0), encode_utf8(b.0), 0))
}

/// The critical files: those with markers of high priority, each with the
/// number of such markers, the most marked first, files with equally many by
/// name.
pub open spec fn critical_files(entries: Seq<MemoryEntryView>) -> Seq<(Seq<char>, usize)> {
    sort_with(high_counts(entries, entries.len() as int), critical_order())
}

impl Ordered for (String, usize) {
    open spec fn may_precede(&self, other: &Self) -> bool {
        critical_order()((self.0@, self.1), (other.0@, other.1))
    }

    fn precedes(&self, other: &Self) -> (r: bool) {
        self.1 > other.1 || (self.1 == other.1 && str_le(self.0.as_str(), other.0.as_str()))
    }
}

/// The order of the critical files orders any two and is transitive.
pub proof fn lemma_critical_order_total()
    ensures
        is_total_order(critical_order()),
{
    let le = critical_order();
    assert forall|a: (Seq<char>, usize), b: (Seq<char>, usize)| #[trigger] le(a, b) || le(b, a) by {
        lemma_lex_total(encode_utf8(a.0), encode_utf8(b.0), 0);
    }
    assert forall|a: (Seq<char>, usize), b: (Seq<char>, usize), c: (Seq<char>, usize)| #[trigger]
        le(a, b) && #[trigger] le(b, c) implies le(a, c) by {
        if a.1 == b.1 && b.1 == c.1 {
            lemma_lex_transitive(encode_utf8(a.0), encode_utf8(b.0), encode_utf8(c.0), 0);
        }
    }
}

/// No count of the critical files is followed by a greater one.
pub proof fn lemma_critical_files_ranked(entries: Seq<MemoryEntryView>)
    ensures
        forall|i: int, j: int|
            0 <= i < j < critical_files(entries).len() ==> critical_files(entries)[i].1
                >= critical_files(entries)[j].1,
{
    lemma_critical_order_total();
    lemma_sort_with(high_counts(entries, entries.len() as int), critical_order());
    let r = critical_files(entries);
    assert forall|i: int, j: int| 0 <= i < j < r.len() implies r[i].1 >= r[j].1 by {
        assert(critical_order()(r[i], r[j]));
    }
}

/// The files with markers of high priority, each with the number of such
/// markers, the most marked first.
pub fn get_critical_files(entries: &[MemoryEntry]) -> (res: Vec<(String, usize)>)
    ensures
        counted_views(res@) == critical_files(entry_views(entries@)),
{
    let ghost views = entry_views(entries@);
    let mut tally: StrMap<usize> = StrMap::new();
    let mut i: usize = 0;
    while i < entries.len()
        invariant
            i <= entries@.len(),
            views == entry_views(entries@),
            tally.pairs() == high_counts(views, i as int),
        decreases entries@.len() - i,
    {
        let e = &entries[i];
        assert(views[i as int] == e@);
        if e.priority == Priority::High {
            let next = match tally.get(e.source_file.as_str()) {
                Some(c) => if *c < usize::MAX {
                    *c + 1
                } else {
                    *c
                },
                None => 1,
            };
            tally.insert(e.source_file.clone(), next);
        }
        i += 1;
    }
    let mut list: Vec<(String, usize)> = Vec::new();
    let n = tally.len();
    let ghost pairs = tally.pairs();
    let mut k: usize = 0;
    while k < n
        invariant
            k <= n,
            n == pairs.len(),
            pairs == tally.pairs(),
            counted_views(list@) == pairs.take(k as int),
        decreases n - k,
    {
        let ghost prev = list@;
        list.push((tally.key_at(k).clone(), *tally.value_at(k)));
        proof {
            assert(counted_views(list@) =~= counted_views(prev).push(pairs[k as int]));
            assert(pairs.take(k + 1) =~= pairs.take(k as int).push(pairs[k as int]));
        }
        k += 1;
    }
    let ghost unsorted = list@;
    let sorted = sort_ordered(list);
    proof {
        assert(pairs.take(n as int) =~= pairs);
        assert forall|a: (String, usize), b: (String, usize)| #[trigger]
            order_fn::<(String, usize)>()(a, b) == critical_order()(counted_content()(a), counted_content()(b)) by {}
        lemma_sort_with_map(
            unsorted,
            counted_content(),
            order_fn::<(String, usize)>(),
            critical_order(),
        );
    }
    sorted
}

} // verus!
