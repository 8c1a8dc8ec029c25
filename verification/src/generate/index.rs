//! The index: the table of the modules, from which a reader finds his way.

use crate::analyze::graph::counted_views;
use crate::analyze::lang::strings_view;
use crate::analyze::memory::entry_views;
use crate::analyze::module::{module_views, ModuleInfo, ModuleInfoView};
use crate::text::decimal::{decimal, push_decimal};
use crate::types::memory::{MemoryEntry, MemoryEntryView, Priority};
use vstd::prelude::*;
use vstd::string::*;

verus! {

/// The entry points of the first `n` modules, in the order of the modules.
pub open spec fn entry_points_of(modules: Seq<ModuleInfoView>, n: int) -> Seq<Seq<char>>
    decreases n,
{
    if n <= 0 {
        Seq::empty()
    } else {
        let prev = entry_points_of(modules, n - 1);
        match modules[n - 1].entry_point {
            Some(e) => prev.push(e),
            None => prev,
        }
    }
}

/// The entry points of the modules.
pub fn detect_entry_points(modules: &Vec<ModuleInfo>) -> (res: Vec<String>)
    ensures
        strings_view(res@) == entry_points_of(module_views(modules@), modules@.len() as int),
{
    let ghost mv = module_views(modules@);
    let mut out: Vec<String> = Vec::new();
    let mut i: usize = 0;
    proof {
        assert(strings_view(out@) =~= Seq::<Seq<char>>::empty());
    }
    while i < modules.len()
        invariant
            i <= modules@.len(),
            mv == module_views(modules@),
            strings_view(out@) == entry_points_of(mv, i as int),
        decreases modules@.len() - i,
    {
        assert(mv[i as int] == modules@[i as int]@);
        match &modules[i].entry_point {
            Some(e) => {
                let ghost prev = out@;
                out.push(e.clone());
                assert(strings_view(out@) =~= strings_view(prev).push(e@));
            },
            None => {},
        }
        i += 1;
    }
    out
}

/// How many of the first `n` markers are of high priority.
pub open spec fn high_count(memory: Seq<MemoryEntryView>, n: int) -> nat
    decreases n,
{
    if n <= 0 {
        0
    } else {
        high_count(memory, n - 1) + (if memory[n - 1].priority == Priority::High {
            1nat
        } else {
            0nat
        })
    }
}

/// `acc` with the rows of the first `n` modules: a link to the module, its
/// kind and the number of its files.
pub open spec fn module_rows(acc: Seq<char>, modules: Seq<ModuleInfoView>, n: int) -> Seq<char>
    decreases n,
{
    if n <= 0 {
        acc
    } else {
        let m = modules[n - 1];
        module_rows(acc, modules, n - 1) + "| ["@ + m.slug + "](modules/"@ + m.slug
            + "/MODULE.md) | "@ + m.boundary_type.label() + " | "@ + decimal(m.files.len())
            + " |\n"@
    }
}

/// `acc` with the first `n` hubs: the module and the number of files that
/// import from it.
pub open spec fn hub_lines(acc: Seq<char>, hubs: Seq<(Seq<char>, usize)>, n: int) -> Seq<char>
    decreases n,
{
    if n <= 0 {
        acc
    } else {
        hub_lines(acc, hubs, n - 1) + "- `"@ + hubs[n - 1].0 + "` (imported by "@ + decimal(
            hubs[n - 1].1 as nat,
        ) + " files)\n"@
    }
}

/// `acc` with the first `n` entry points.
pub open spec fn entry_lines(acc: Seq<char>, entries: Seq<Seq<char>>, n: int) -> Seq<char>
    decreases n,
{
    if n <= 0 {
        acc
    } else {
        entry_lines(acc, entries, n - 1) + "- `"@ + entries[n - 1] + "`\n"@
    }
}

/// The index: the modules, then the hubs and the entry points where there
/// are any, then the number of markers.
pub open spec fn index_md(
    modules: Seq<ModuleInfoView>,
    memory: Seq<MemoryEntryView>,
    entries: Seq<Seq<char>>,
    hubs: Seq<(Seq<char>, usize)>,
) -> Seq<char> {
    let table = module_rows(
        "# Index\n\n"@ + "## Modules\n\n"@ + "| Module | Type | Files |\n"@
            + "| ------ | ---- | ----- |\n"@,
        modules,
        modules.len() as int,
    ) + "\n"@;
    let with_hubs = if hubs.len() == 0 {
        table
    } else {
        hub_lines(table + "## Hub Modules\n\n"@, hubs, hubs.len() as int) + "\n"@
    };
    let with_entries = if entries.len() == 0 {
        with_hubs
    } else {
        entry_lines(with_hubs + "## Entry Points\n\n"@, entries, entries.len() as int) + "\n"@
    };
    with_entries + "## Memory\n\n"@ + decimal(memory.len()) + " markers, "@ + decimal(
        high_count(memory, memory.len() as int),
    ) + " of high priority.\n"@
}

/// The index of the tree.
pub fn generate_index_md(
    modules: &Vec<ModuleInfo>,
    memory: &[MemoryEntry],
    entry_points: &Vec<String>,
    hub_modules: &Vec<(String, usize)>,
) -> (res: String)
    ensures
        res@ == index_md(
            module_views(modules@),
            entry_views(memory@),
            strings_view(entry_points@),
            counted_views(hub_modules@),
        ),
{
    let ghost mv = module_views(modules@);
    let ghost ev = strings_view(entry_points@);
    let ghost hv = counted_views(hub_modules@);
    let ghost marks = entry_views(memory@);
    let mut out = "# Index\n\n".to_owned();
    out.append("## Modules\n\n");
    out.append("| Module | Type | Files |\n");
    out.append("| ------ | ---- | ----- |\n");
    let ghost start = out@;
    let mut i: usize = 0;
    while i < modules.len()
        invariant
            i <= modules@.len(),
            mv == module_views(modules@),
            out@ == module_rows(start, mv, i as int),
        decreases modules@.len() - i,
    {
        let m = &modules[i];
        assert(mv[i as int] == m@);
        out.append("| [");
        out.append(m.slug.as_str());
        out.append("](modules/");
        out.append(m.slug.as_str());
        out.append("/MODULE.md) | ");
        out.append(m.boundary_type.as_str());
        out.append(" | ");
        push_decimal(&mut out, m.file_count());
        out.append(" |\n");
        i += 1;
    }
    out.append("\n");
    if hub_modules.len() > 0 {
        out.append("## Hub Modules\n\n");
        let ghost start = out@;
        let mut i: usize = 0;
        while i < hub_modules.len()
            invariant
                i <= hub_modules@.len(),
                hv == counted_views(hub_modules@),
                out@ == hub_lines(start, hv, i as int),
            decreases hub_modules@.len() - i,
        {
            assert(hv[i as int] == (hub_modules@[i as int].0@, hub_modules@[i as int].1));
            out.append("- `");
            out.append(hub_modules[i].0.as_str());
            out.append("` (imported by ");
            push_decimal(&mut out, hub_modules[i].1);
            out.append(" files)\n");
            i += 1;
        }
        out.append("\n");
    }
    if entry_points.len() > 0 {
        out.append("## Entry Points\n\n");
        let ghost start = out@;
        let mut i: usize = 0;
        while i < entry_points.len()
            invariant
                i <= entry_points@.len(),
                ev == strings_view(entry_points@),
                out@ == entry_lines(start, ev, i as int),
            decreases entry_points@.len() - i,
        {
            assert(ev[i as int] == entry_points@[i as int]@);
            out.append("- `");
            out.append(entry_points[i].as_str());
            out.append("`\n");
            i += 1;
        }
        out.append("\n");
    }
    let mut high: usize = 0;
    let mut k: usize = 0;
    while k < memory.len()
        invariant
            k <= memory@.len(),
            marks == entry_views(memory@),
            high == high_count(marks, k as int),
            high <= k,
        decreases memory@.len() - k,
    {
        assert(marks[k as int] == memory@[k as int]@);
        if memory[k].priority == Priority::High {
            high += 1;
        }
        k += 1;
    }
    out.append("## Memory\n\n");
    push_decimal(&mut out, memory.len());
    out.append(" markers, ");
    push_decimal(&mut out, high);
    out.append(" of high priority.\n");
    out
}

} // verus!
