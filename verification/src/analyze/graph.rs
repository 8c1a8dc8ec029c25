//! The import graph: which file imports what, and what is imported by whom.

use crate::analyze::lang::strings_view;
use crate::analyze::order::{
    lemma_sort_map, lemma_sort_sorts, rank_fn, stable_sort, stable_sort_by, Ranked,
};
use crate::strmap::{distinct_keys, has_key, lemma_put, lookup, put, StrMap};
use crate::text::chars::{
    after_last_char, from_chars, has_char, last_char, replace_char, replaced, to_chars,
};
use vstd::prelude::*;

verus! {

/// How many files must import an identifier for it to be a hub.
pub const HUB_THRESHOLD: usize = 3;

/// Files and what they import, with the reverse edges.
pub struct FileGraph {
    imports: StrMap<Vec<String>>,
    importers: StrMap<Vec<String>>,
}

/// The edges of a graph as character sequences, in the order in which the
/// keys came.
pub struct FileGraphView {
    /// For each file, the identifiers it imports.
    pub imports: Seq<(Seq<char>, Seq<Seq<char>>)>,
    /// For each imported identifier, the files that import it.
    pub importers: Seq<(Seq<char>, Seq<Seq<char>>)>,
}

/// Keys with the contents of their lists.
pub open spec fn list_views(p: Seq<(Seq<char>, Vec<String>)>) -> Seq<(Seq<char>, Seq<Seq<char>>)> {
    p.map_values(|e: (Seq<char>, Vec<String>)| (e.0, strings_view(e.1@)))
}

/// `importers` after `file` was noted as an importer of `id`.
pub open spec fn note_importer(
    importers: Seq<(Seq<char>, Seq<Seq<char>>)>,
    id: Seq<char>,
    file: Seq<char>,
) -> Seq<(Seq<char>, Seq<Seq<char>>)> {
    match lookup(importers, id) {
        Some(files) => put(importers, id, files.push(file)),
        None => put(importers, id, seq![file]),
    }
}

/// `importers` after `file` was noted as an importer of each of `ids`, in
/// their order.
pub open spec fn note_importers(
    importers: Seq<(Seq<char>, Seq<Seq<char>>)>,
    ids: Seq<Seq<char>>,
    file: Seq<char>,
) -> Seq<(Seq<char>, Seq<Seq<char>>)>
    decreases ids.len(),
{
    if ids.len() == 0 {
        importers
    } else {
        note_importer(note_importers(importers, ids.drop_last(), file), ids.last(), file)
    }
}

/// The identifiers with at least three importers, each with the number of
/// its importers, in the order of `importers`.
pub open spec fn hub_candidates(
    importers: Seq<(Seq<char>, Seq<Seq<char>>)>,
) -> Seq<(Seq<char>, usize)>
    decreases importers.len(),
{
    if importers.len() == 0 {
        Seq::empty()
    } else {
        let before = hub_candidates(importers.drop_last());
        let e = importers.last();
        if e.1.len() >= HUB_THRESHOLD {
            before.push((e.0, e.1.len() as usize))
        } else {
            before
        }
    }
}

/// A rank that falls as the count grows.
pub open spec fn by_count_descending() -> spec_fn((Seq<char>, usize)) -> int {
    |e: (Seq<char>, usize)| usize::MAX - e.1
}

/// The hubs of a graph: the identifiers with at least three importers, those
/// with more importers first, those with equally many in the order in which
/// they were first imported.
pub open spec fn hubs_of(importers: Seq<(Seq<char>, Seq<Seq<char>>)>) -> Seq<(Seq<char>, usize)> {
    stable_sort_by(hub_candidates(importers), by_count_descending())
}

/// Whether an identifier has at least three importers.
pub open spec fn is_hub_in(importers: Seq<(Seq<char>, Seq<Seq<char>>)>, id: Seq<char>) -> bool {
    match lookup(importers, id) {
        Some(files) => files.len() >= HUB_THRESHOLD,
        None => false,
    }
}

/// A list of counted names holds only counts of three or more, and no count
/// is followed by a greater one.
pub open spec fn is_hub_ranking(s: Seq<(Seq<char>, usize)>) -> bool {
    &&& forall|i: int| 0 <= i < s.len() ==> (#[trigger] s[i]).1 >= HUB_THRESHOLD
    &&& forall|i: int, j: int| 0 <= i <= j < s.len() ==> s[i].1 >= s[j].1
}

/// No list is longer than a `usize` can tell.
pub open spec fn counts_fit(importers: Seq<(Seq<char>, Seq<Seq<char>>)>) -> bool {
    forall|j: int| 0 <= j < importers.len() ==> (#[trigger] importers[j]).1.len() <= usize::MAX
}

/// Each candidate has at least three importers and is an entry of
/// `importers`; each entry with three importers is a candidate.
pub proof fn lemma_hub_candidates(importers: Seq<(Seq<char>, Seq<Seq<char>>)>)
    requires
        counts_fit(importers),
    ensures
        forall|i: int|
            0 <= i < hub_candidates(importers).len() ==> (#[trigger] hub_candidates(
                importers,
            )[i]).1 >= HUB_THRESHOLD && exists|j: int|
                0 <= j < importers.len() && importers[j].0 == hub_candidates(importers)[i].0
                    && importers[j].1.len() == hub_candidates(importers)[i].1,
        forall|j: int|
            0 <= j < importers.len() && (#[trigger] importers[j]).1.len() >= HUB_THRESHOLD
                ==> hub_candidates(importers).contains(
                (importers[j].0, importers[j].1.len() as usize),
            ),
    decreases importers.len(),
{
    if importers.len() > 0 {
        let init = importers.drop_last();
        assert(counts_fit(init)) by {
            assert forall|j: int| 0 <= j < init.len() implies (#[trigger] init[j]).1.len()
                <= usize::MAX by {
                assert(init[j] == importers[j]);
            }
        }
        lemma_hub_candidates(init);
        let c0 = hub_candidates(init);
        let c = hub_candidates(importers);
        assert forall|i: int| 0 <= i < c.len() implies (#[trigger] c[i]).1 >= HUB_THRESHOLD
            && exists|j: int|
            0 <= j < importers.len() && importers[j].0 == c[i].0 && importers[j].1.len()
                == c[i].1 by {
            if i < c0.len() {
                assert(c[i] == c0[i]);
                let j = choose|j: int|
                    0 <= j < init.len() && init[j].0 == c0[i].0 && init[j].1.len() == c0[i].1;
                assert(importers[j] == init[j]);
            } else {
                let j = importers.len() - 1;
                assert(importers[j].1.len() <= usize::MAX);
                assert(c[i] == (importers[j].0, importers[j].1.len() as usize));
            }
        }
        assert forall|j: int|
            0 <= j < importers.len() && (#[trigger] importers[j]).1.len()
                >= HUB_THRESHOLD implies c.contains(
            (importers[j].0, importers[j].1.len() as usize),
        ) by {
            if j < init.len() {
                assert(init[j] == importers[j]);
                let x = (importers[j].0, importers[j].1.len() as usize);
                assert(c0.contains(x));
                let i = choose|i: int| 0 <= i < c0.len() && c0[i] == x;
                assert(c[i] == x);
            } else {
                assert(c[c.len() - 1] == (importers[j].0, importers[j].1.len() as usize));
            }
        }
    }
}

/// The hubs are ranked: three importers or more, the greater count first. An
/// identifier is among them exactly if it is a hub.
pub proof fn lemma_hubs(importers: Seq<(Seq<char>, Seq<Seq<char>>)>)
    requires
        counts_fit(importers),
    ensures
        is_hub_ranking(hubs_of(importers)),
        hubs_of(importers).to_multiset() == hub_candidates(importers).to_multiset(),
{
    let c = hub_candidates(importers);
    let h = hubs_of(importers);
    lemma_hub_candidates(importers);
    lemma_sort_sorts(c, by_count_descending());
    broadcast use vstd::seq_lib::group_to_multiset_ensures;

    assert forall|i: int| 0 <= i < h.len() implies (#[trigger] h[i]).1 >= HUB_THRESHOLD by {
        assert(h.contains(h[i]));
        assert(h.to_multiset().count(h[i]) > 0);
        assert(c.contains(h[i]));
        let j = choose|j: int| 0 <= j < c.len() && c[j] == h[i];
        assert(c[j].1 >= HUB_THRESHOLD);
    }
    assert forall|i: int, j: int| 0 <= i <= j < h.len() implies h[i].1 >= h[j].1 by {
        assert(by_count_descending()(h[i]) <= by_count_descending()(h[j]));
    }
}

/// Whether `file` is recorded to import `id`.
pub open spec fn imports_mention(
    imports: Seq<(Seq<char>, Seq<Seq<char>>)>,
    file: Seq<char>,
    id: Seq<char>,
) -> bool {
    exists|i: int| 0 <= i < imports.len() && (#[trigger] imports[i]).0 == file && imports[i].1.contains(id)
}

/// Each reverse edge has its forward edge: an identifier has importers only
/// if it stands among the imports of a file, and each of its importers is a
/// file that imports it.
pub open spec fn edges_consistent(
    imports: Seq<(Seq<char>, Seq<Seq<char>>)>,
    importers: Seq<(Seq<char>, Seq<Seq<char>>)>,
) -> bool {
    forall|j: int, k: int|
        0 <= j < importers.len() && 0 <= k < importers[j].1.len() ==> imports_mention(
            imports,
            #[trigger] importers[j].1[k],
            importers[j].0,
        )
}

/// Every identifier with an entry has an importer.
pub open spec fn importers_nonempty(importers: Seq<(Seq<char>, Seq<Seq<char>>)>) -> bool {
    forall|j: int| 0 <= j < importers.len() ==> (#[trigger] importers[j]).1.len() > 0
}

/// Noting the importers of a new file keeps the reverse edges in step with
/// the forward edges, once the file has its forward edges.
pub proof fn lemma_note_importers(
    imports: Seq<(Seq<char>, Seq<Seq<char>>)>,
    importers: Seq<(Seq<char>, Seq<Seq<char>>)>,
    ids: Seq<Seq<char>>,
    file: Seq<char>,
    n: int,
)
    requires
        0 <= n <= ids.len(),
        distinct_keys(importers),
        importers_nonempty(importers),
        edges_consistent(imports, importers),
    ensures
        distinct_keys(note_importers(importers, ids.take(n), file)),
        importers_nonempty(note_importers(importers, ids.take(n), file)),
        edges_consistent(imports.push((file, ids)), note_importers(importers, ids.take(n), file)),
    decreases n,
{
    let new_imports = imports.push((file, ids));
    if n == 0 {
        assert(ids.take(0) =~= Seq::<Seq<char>>::empty());
        assert forall|j: int, k: int|
            0 <= j < importers.len() && 0 <= k < importers[j].1.len() implies imports_mention(
            new_imports,
            #[trigger] importers[j].1[k],
            importers[j].0,
        ) by {
            let f = importers[j].1[k];
            assert(imports_mention(imports, f, importers[j].0));
            let i = choose|i: int|
                0 <= i < imports.len() && (#[trigger] imports[i]).0 == f && imports[i].1.contains(
                    importers[j].0,
                );
            assert(new_imports[i] == imports[i]);
        }
    } else {
        lemma_note_importers(imports, importers, ids, file, n - 1);
        let prev = note_importers(importers, ids.take(n - 1), file);
        let id = ids[n - 1];
        assert(ids.take(n).drop_last() =~= ids.take(n - 1));
        assert(ids.take(n).last() == id);
        let next = note_importers(importers, ids.take(n), file);
        assert(next == note_importer(prev, id, file));
        crate::strmap::lemma_key_index(prev, id, 0);
        let at = crate::strmap::key_index(prev, id, 0);
        let value = match lookup(prev, id) {
            Some(files) => files.push(file),
            None => seq![file],
        };
        lemma_put(prev, id, value);
        assert(new_imports[imports.len() as int] == (file, ids));
        assert(ids.contains(id));
        assert(imports_mention(new_imports, file, id));
        assert forall|j: int| 0 <= j < next.len() implies (#[trigger] next[j]).1.len() > 0 by {
            if has_key(prev, id) {
                if j != at {
                    assert(next[j] == prev[j]);
                }
            } else {
                if j < prev.len() {
                    assert(next[j] == prev[j]);
                }
            }
        }
        assert forall|j: int, k: int|
            0 <= j < next.len() && 0 <= k < next[j].1.len() implies imports_mention(
            new_imports,
            #[trigger] next[j].1[k],
            next[j].0,
        ) by {
            if has_key(prev, id) {
                if j == at {
                    if k < prev[at].1.len() {
                        assert(next[j].1[k] == prev[at].1[k]);
                        assert(imports_mention(new_imports, prev[at].1[k], prev[at].0));
                    }
                } else {
                    assert(next[j] == prev[j]);
                    assert(imports_mention(new_imports, prev[j].1[k], prev[j].0));
                }
            } else {
                if j < prev.len() {
                    assert(next[j] == prev[j]);
                    assert(imports_mention(new_imports, prev[j].1[k], prev[j].0));
                }
            }
        }
    }
}

/// No text stands twice.
pub open spec fn no_repeats(s: Seq<Seq<char>>) -> bool {
    forall|i: int, j: int| 0 <= i < j < s.len() ==> s[i] != s[j]
}

/// No file stands twice among the importers of an identifier, so that the
/// number of importers is the number of files that import it.
pub open spec fn importers_distinct(importers: Seq<(Seq<char>, Seq<Seq<char>>)>) -> bool {
    forall|j: int| 0 <= j < importers.len() ==> no_repeats((#[trigger] importers[j]).1)
}

/// The file is an importer only of the identifiers `ids`.
pub open spec fn imports_only(
    importers: Seq<(Seq<char>, Seq<Seq<char>>)>,
    file: Seq<char>,
    ids: Seq<Seq<char>>,
) -> bool {
    forall|j: int|
        0 <= j < importers.len() && (#[trigger] importers[j]).1.contains(file) ==> ids.contains(
            importers[j].0,
        )
}

/// Noting a new file as an importer of identifiers that are named once each
/// leaves no file twice among the importers of an identifier.
pub proof fn lemma_note_importers_distinct(
    importers: Seq<(Seq<char>, Seq<Seq<char>>)>,
    ids: Seq<Seq<char>>,
    file: Seq<char>,
    n: int,
)
    requires
        0 <= n <= ids.len(),
        distinct_keys(importers),
        importers_distinct(importers),
        no_repeats(ids),
        imports_only(importers, file, Seq::empty()),
    ensures
        distinct_keys(note_importers(importers, ids.take(n), file)),
        importers_distinct(note_importers(importers, ids.take(n), file)),
        imports_only(note_importers(importers, ids.take(n), file), file, ids.take(n)),
    decreases n,
{
    if n == 0 {
        assert(ids.take(0) =~= Seq::<Seq<char>>::empty());
    } else {
        lemma_note_importers_distinct(importers, ids, file, n - 1);
        let prev = note_importers(importers, ids.take(n - 1), file);
        let id = ids[n - 1];
        let done = ids.take(n - 1);
        assert(ids.take(n).drop_last() =~= done);
        assert(ids.take(n).last() == id);
        let next = note_importers(importers, ids.take(n), file);
        assert(next == note_importer(prev, id, file));
        assert(!done.contains(id)) by {
            if done.contains(id) {
                let i = choose|i: int| 0 <= i < done.len() && done[i] == id;
                assert(ids[i] == id);
            }
        }
        crate::strmap::lemma_key_index(prev, id, 0);
        let at = crate::strmap::key_index(prev, id, 0);
        let value = match lookup(prev, id) {
            Some(files) => files.push(file),
            None => seq![file],
        };
        lemma_put(prev, id, value);
        assert(no_repeats(value)) by {
            if has_key(prev, id) {
                let old_files = prev[at].1;
                assert(no_repeats(old_files));
                assert(!old_files.contains(file)) by {
                    if old_files.contains(file) {
                        assert(done.contains(prev[at].0));
                    }
                }
                assert forall|i: int, j: int| 0 <= i < j < value.len() implies value[i]
                    != value[j] by {
                    if j < old_files.len() {
                        assert(value[i] == old_files[i] && value[j] == old_files[j]);
                    } else {
                        assert(value[i] == old_files[i]);
                        assert(old_files.contains(old_files[i]));
                    }
                }
            }
        }
        assert forall|j: int| 0 <= j < next.len() implies no_repeats((#[trigger] next[j]).1) by {
            if has_key(prev, id) {
                if j != at {
                    assert(next[j] == prev[j]);
                }
            } else {
                if j < prev.len() {
                    assert(next[j] == prev[j]);
                }
            }
        }
        assert forall|j: int|
            0 <= j < next.len() && (#[trigger] next[j]).1.contains(file) implies ids.take(
            n,
        ).contains(next[j].0) by {
            assert(ids.take(n)[n - 1] == id);
            if has_key(prev, id) {
                if j != at {
                    assert(next[j] == prev[j]);
                    assert(done.contains(prev[j].0));
                    let i = choose|i: int| 0 <= i < done.len() && done[i] == prev[j].0;
                    assert(ids.take(n)[i] == prev[j].0);
                }
            } else {
                if j < prev.len() {
                    assert(next[j] == prev[j]);
                    assert(done.contains(prev[j].0));
                    let i = choose|i: int| 0 <= i < done.len() && done[i] == prev[j].0;
                    assert(ids.take(n)[i] == prev[j].0);
                }
            }
        }
    }
}

/// A file that has no forward edges is no importer, where the edges are
/// consistent.
pub proof fn lemma_new_file_imports_nothing(
    imports: Seq<(Seq<char>, Seq<Seq<char>>)>,
    importers: Seq<(Seq<char>, Seq<Seq<char>>)>,
    file: Seq<char>,
)
    requires
        edges_consistent(imports, importers),
        !has_key(imports, file),
    ensures
        imports_only(importers, file, Seq::empty()),
{
    crate::strmap::lemma_key_index(imports, file, 0);
    assert forall|j: int|
        0 <= j < importers.len() && (#[trigger] importers[j]).1.contains(file) implies Seq::<
        Seq<char>,
    >::empty().contains(importers[j].0) by {
        let k = choose|k: int| 0 <= k < importers[j].1.len() && importers[j].1[k] == file;
        assert(imports_mention(imports, importers[j].1[k], importers[j].0));
        let i = choose|i: int|
            0 <= i < imports.len() && (#[trigger] imports[i]).0 == file && imports[i].1.contains(
                importers[j].0,
            );
        assert(imports[i].0 != file);
    }
}

/// An identifier is among the hubs exactly if it is a hub.
pub proof fn lemma_hub_iff_ranked(importers: Seq<(Seq<char>, Seq<Seq<char>>)>, id: Seq<char>)
    requires
        distinct_keys(importers),
        counts_fit(importers),
    ensures
        is_hub_in(importers, id) <==> exists|i: int|
            0 <= i < hubs_of(importers).len() && (#[trigger] hubs_of(importers)[i]).0 == id,
{
    let c = hub_candidates(importers);
    let h = hubs_of(importers);
    lemma_hub_candidates(importers);
    lemma_hubs(importers);
    crate::strmap::lemma_lookup(importers, id);
    broadcast use vstd::seq_lib::group_to_multiset_ensures;

    if is_hub_in(importers, id) {
        let j = choose|j: int| 0 <= j < importers.len() && (#[trigger] importers[j]).0 == id;
        let x = (importers[j].0, importers[j].1.len() as usize);
        assert(c.contains(x));
        assert(c.to_multiset().count(x) > 0);
        assert(h.contains(x));
        let i = choose|i: int| 0 <= i < h.len() && h[i] == x;
        assert(h[i].0 == id);
    }
    if exists|i: int| 0 <= i < h.len() && (#[trigger] h[i]).0 == id {
        let i = choose|i: int| 0 <= i < h.len() && (#[trigger] h[i]).0 == id;
        assert(h.contains(h[i]));
        assert(h.to_multiset().count(h[i]) > 0);
        assert(c.contains(h[i]));
        let k = choose|k: int| 0 <= k < c.len() && c[k] == h[i];
        let j = choose|j: int|
            0 <= j < importers.len() && importers[j].0 == c[k].0 && importers[j].1.len() == c[k].1;
        assert(importers[j].0 == id);
        assert(lookup(importers, id) == Some(importers[j].1));
    }
}

/// `hubs` lists the hubs of `importers`: each name once, with the number of
/// its importers, and a name exactly if it is a hub.
pub open spec fn lists_hubs(
    importers: Seq<(Seq<char>, Seq<Seq<char>>)>,
    hubs: Seq<(Seq<char>, usize)>,
) -> bool {
    &&& distinct_keys(hubs)
    &&& forall|i: int|
        0 <= i < hubs.len() ==> match lookup(importers, (#[trigger] hubs[i]).0) {
            Some(files) => files.len() == hubs[i].1,
            None => false,
        }
    &&& forall|id: Seq<char>| #[trigger] is_hub_in(importers, id) == has_key(hubs, id)
}

/// No name stands twice among the candidates.
proof fn lemma_candidates_distinct(importers: Seq<(Seq<char>, Seq<Seq<char>>)>)
    requires
        distinct_keys(importers),
        counts_fit(importers),
    ensures
        distinct_keys(hub_candidates(importers)),
    decreases importers.len(),
{
    if importers.len() > 0 {
        let init = importers.drop_last();
        assert(distinct_keys(init) && counts_fit(init)) by {
            assert forall|i: int, j: int| 0 <= i < j < init.len() implies init[i].0
                != init[j].0 by {
                assert(init[i] == importers[i] && init[j] == importers[j]);
            }
            assert forall|j: int| 0 <= j < init.len() implies (#[trigger] init[j]).1.len()
                <= usize::MAX by {
                assert(init[j] == importers[j]);
            }
        }
        lemma_candidates_distinct(init);
        lemma_hub_candidates(init);
        let c0 = hub_candidates(init);
        let c = hub_candidates(importers);
        assert forall|i: int, j: int| 0 <= i < j < c.len() implies c[i].0 != c[j].0 by {
            if j < c0.len() {
                assert(c[i] == c0[i] && c[j] == c0[j]);
            } else {
                assert(c[i] == c0[i]);
                assert(c[j].0 == importers.last().0);
                let k = choose|k: int|
                    0 <= k < init.len() && init[k].0 == c0[i].0 && init[k].1.len() == c0[i].1;
                assert(init[k] == importers[k]);
                assert(importers[k].0 != importers[importers.len() - 1].0);
            }
        }
    }
}

/// The ranked hubs name each hub once, with the number of its importers, and
/// nothing else.
pub proof fn lemma_hubs_listed(importers: Seq<(Seq<char>, Seq<Seq<char>>)>)
    requires
        distinct_keys(importers),
        counts_fit(importers),
    ensures
        lists_hubs(importers, hubs_of(importers)),
{
    let c = hub_candidates(importers);
    let h = hubs_of(importers);
    lemma_hub_candidates(importers);
    lemma_candidates_distinct(importers);
    lemma_hubs(importers);
    broadcast use vstd::seq_lib::group_to_multiset_ensures;

    assert(c.no_duplicates()) by {
        assert forall|i: int, j: int| 0 <= i < c.len() && 0 <= j < c.len() && i != j implies c[i]
            != c[j] by {
            if i < j {
                assert(c[i].0 != c[j].0);
            } else {
                assert(c[j].0 != c[i].0);
            }
        }
    }
    c.lemma_multiset_has_no_duplicates();
    h.lemma_multiset_has_no_duplicates_conv();
    assert forall|i: int, j: int| 0 <= i < j < h.len() implies h[i].0 != h[j].0 by {
        assert(h[i] != h[j]);
        assert(h.contains(h[i]) && h.contains(h[j]));
        assert(h.to_multiset().count(h[i]) > 0 && h.to_multiset().count(h[j]) > 0);
        assert(c.contains(h[i]) && c.contains(h[j]));
        let k = choose|k: int| 0 <= k < c.len() && c[k] == h[i];
        let l = choose|l: int| 0 <= l < c.len() && c[l] == h[j];
        if k < l {
            assert(c[k].0 != c[l].0);
        } else {
            assert(c[l].0 != c[k].0);
        }
    }
    assert forall|i: int| 0 <= i < h.len() implies match lookup(importers, (#[trigger] h[i]).0) {
        Some(files) => files.len() == h[i].1,
        None => false,
    } by {
        assert(h.contains(h[i]));
        assert(h.to_multiset().count(h[i]) > 0);
        assert(c.contains(h[i]));
        let k = choose|k: int| 0 <= k < c.len() && c[k] == h[i];
        let j = choose|j: int|
            0 <= j < importers.len() && importers[j].0 == c[k].0 && importers[j].1.len() == c[k].1;
        crate::strmap::lemma_lookup(importers, h[i].0);
        assert(lookup(importers, h[i].0) == Some(importers[j].1));
    }
    assert forall|id: Seq<char>| #[trigger] is_hub_in(importers, id) == has_key(h, id) by {
        lemma_hub_iff_ranked(importers, id);
        crate::strmap::lemma_lookup(h, id);
    }
}

impl Ranked for (String, usize) {
    open spec fn rank(&self) -> int {
        usize::MAX - self.1
    }

    fn rank_of(&self) -> (r: usize) {
        usize::MAX - self.1
    }
}

/// The contents of counted names.
pub open spec fn counted_views(s: Seq<(String, usize)>) -> Seq<(Seq<char>, usize)> {
    s.map_values(counted_content())
}

/// The content of a counted name, as a function.
pub open spec fn counted_content() -> spec_fn((String, usize)) -> (Seq<char>, usize) {
    |e: (String, usize)| (e.0@, e.1)
}

/// A copy of a list of strings.
pub fn copy_strings(v: &Vec<String>) -> (res: Vec<String>)
    ensures
        strings_view(res@) == strings_view(v@),
{
    let mut out: Vec<String> = Vec::new();
    let mut i: usize = 0;
    while i < v.len()
        invariant
            i <= v@.len(),
            strings_view(out@) == strings_view(v@.take(i as int)),
        decreases v@.len() - i,
    {
        let ghost prev = out@;
        out.push(v[i].clone());
        assert(v@.take(i + 1) =~= v@.take(i as int).push(v@[i as int]));
        assert(strings_view(out@) =~= strings_view(prev).push(v@[i as int]@));
        assert(strings_view(v@.take(i + 1)) =~= strings_view(v@.take(i as int)).push(
            v@[i as int]@,
        ));
        i += 1;
    }
    assert(v@.take(v@.len() as int) =~= v@);
    out
}

impl View for FileGraph {
    type V = FileGraphView;

    closed spec fn view(&self) -> FileGraphView {
        FileGraphView {
            imports: list_views(self.imports.pairs()),
            importers: list_views(self.importers.pairs()),
        }
    }
}

impl FileGraph {
    /// No file and no identifier stands twice, and the reverse edges are
    /// those of the forward edges: an identifier has importers only where a
    /// file imports it.
    pub open spec fn wf(&self) -> bool {
        &&& distinct_keys(self@.imports)
        &&& distinct_keys(self@.importers)
        &&& importers_nonempty(self@.importers)
        &&& edges_consistent(self@.imports, self@.importers)
    }

    /// The graph without files.
    pub fn new() -> (res: Self)
        ensures
            res@.imports == Seq::<(Seq<char>, Seq<Seq<char>>)>::empty(),
            res@.importers == Seq::<(Seq<char>, Seq<Seq<char>>)>::empty(),
            res.wf(),
    {
        let res = FileGraph { imports: StrMap::new(), importers: StrMap::new() };
        assert(res@.imports =~= Seq::<(Seq<char>, Seq<Seq<char>>)>::empty());
        assert(res@.importers =~= Seq::<(Seq<char>, Seq<Seq<char>>)>::empty());
        res
    }

    /// Whether `file` was added.
    pub fn has_file(&self, file: &str) -> (res: bool)
        ensures
            res == has_key(self@.imports, file@),
    {
        let r = self.imports.contains_key(file);
        proof {
            lemma_same_keys(self.imports.pairs(), file@, 0);
        }
        r
    }

    /// What `file` imports, if it was added.
    pub fn imports_of(&self, file: &str) -> (res: Option<&Vec<String>>)
        ensures
            match res {
                Some(v) => lookup(self@.imports, file@) == Some(strings_view(v@)),
                None => lookup(self@.imports, file@).is_none(),
            },
    {
        let r = self.imports.get(file);
        proof {
            lemma_same_keys(self.imports.pairs(), file@, 0);
        }
        r
    }

    /// The files that import `id`, if any does.
    pub fn importers_of(&self, id: &str) -> (res: Option<&Vec<String>>)
        ensures
            match res {
                Some(v) => lookup(self@.importers, id@) == Some(strings_view(v@)),
                None => lookup(self@.importers, id@).is_none(),
            },
    {
        let r = self.importers.get(id);
        proof {
            lemma_same_keys(self.importers.pairs(), id@, 0);
        }
        r
    }

    /// Adds a file with the identifiers it imports: the file gets its
    /// forward edges, and each identifier, in the order given, the file as
    /// one more importer. To be called once for a file.
    pub fn add_file(&mut self, file_path: &str, imports: Vec<String>)
        requires
            old(self).wf(),
            !has_key(old(self)@.imports, file_path@),
        ensures
            final(self)@.imports == old(self)@.imports.push((file_path@, strings_view(imports@))),
            final(self)@.importers == note_importers(
                old(self)@.importers,
                strings_view(imports@),
                file_path@,
            ),
            final(self).wf(),
            importers_distinct(old(self)@.importers) && no_repeats(strings_view(imports@))
                ==> importers_distinct(final(self)@.importers),
    {
        let ghost ids = strings_view(imports@);
        let ghost before = self@;
        proof {
            lemma_note_importers(before.imports, before.importers, ids, file_path@, ids.len() as int);
            assert(ids.take(ids.len() as int) =~= ids);
            if importers_distinct(before.importers) && no_repeats(ids) {
                lemma_new_file_imports_nothing(before.imports, before.importers, file_path@);
                lemma_note_importers_distinct(before.importers, ids, file_path@, ids.len() as int);
            }
        }
        let copy = copy_strings(&imports);
        proof {
            lemma_same_keys(self.imports.pairs(), file_path@, 0);
        }
        self.imports.insert(file_path.to_owned(), copy);
        proof {
            assert(self@.imports =~= before.imports.push((file_path@, ids)));
            assert(distinct_keys(self@.imports)) by {
                lemma_put(before.imports, file_path@, ids);
                assert(put(before.imports, file_path@, ids) == before.imports.push(
                    (file_path@, ids),
                ));
            }
            assert(ids.take(0) =~= Seq::<Seq<char>>::empty());
        }
        let mut i: usize = 0;
        while i < imports.len()
            invariant
                i <= imports@.len(),
                ids == strings_view(imports@),
                self@.imports == before.imports.push((file_path@, ids)),
                distinct_keys(self@.imports),
                distinct_keys(self@.importers),
                self@.importers == note_importers(before.importers, ids.take(i as int), file_path@),
            decreases imports@.len() - i,
        {
            let ghost now = self@.importers;
            let id = &imports[i];
            proof {
                lemma_same_keys(self.importers.pairs(), id@, 0);
                let t = ids.take(i + 1);
                assert(t.drop_last() =~= ids.take(i as int));
                assert(t.last() == id@);
            }
            match self.importers.index_of(id.as_str()) {
                Some(at) => {
                    let ghost p0 = self.importers.pairs();
                    proof {
                        crate::strmap::lemma_key_index(p0, id@, 0);
                        assert(now[at as int] == (p0[at as int].0, strings_view(p0[at as int].1@)));
                    }
                    let mut list = self.importers.swap_value_at(at, Vec::new());
                    let ghost old_list = strings_view(list@);
                    list.push(file_path.to_owned());
                    proof {
                        assert(strings_view(list@) =~= old_list.push(file_path@));
                    }
                    self.importers.swap_value_at(at, list);
                    proof {
                        assert(self.importers.pairs() =~= p0.update(at as int, (id@, list)));
                        assert(self@.importers =~= now.update(
                            at as int,
                            (id@, old_list.push(file_path@)),
                        ));
                        assert(lookup(now, id@) == Some(old_list));
                        lemma_put(now, id@, old_list.push(file_path@));
                    }
                },
                None => {
                    let mut list: Vec<String> = Vec::new();
                    list.push(file_path.to_owned());
                    proof {
                        assert(strings_view(list@) =~= seq![file_path@]);
                    }
                    let ghost p0 = self.importers.pairs();
                    self.importers.insert(id.clone(), list);
                    proof {
                        assert(self.importers.pairs() == p0.push((id@, list)));
                        assert(self@.importers =~= now.push((id@, seq![file_path@])));
                        assert(lookup(now, id@).is_none());
                        lemma_put(now, id@, seq![file_path@]);
                    }
                },
            }
            i += 1;
        }
        proof {
            assert(ids.take(imports@.len() as int) =~= ids);
        }
    }

    /// The importers of an identifier can be counted in a `usize`, in every
    /// graph.
    pub proof fn lemma_counts_fit(&self)
        ensures
            counts_fit(self@.importers),
    {
        let pairs = self@.importers;
        assert forall|j: int| 0 <= j < pairs.len() implies (#[trigger] pairs[j]).1.len()
            <= usize::MAX by {
            let v = self.importers.pairs()[j].1;
            assert(pairs[j].1 == strings_view(v@));
            assert(v@.len() == v.len());
        }
    }

    /// The hubs: each identifier with at least three importers, once, with
    /// the number of its importers, the most imported first.
    pub fn hub_files(&self) -> (res: Vec<(String, usize)>)
        ensures
            counted_views(res@) == hubs_of(self@.importers),
            is_hub_ranking(counted_views(res@)),
            lists_hubs(self@.importers, counted_views(res@)),
            distinct_keys(self@.importers),
            counts_fit(self@.importers),
    {
        let mut hubs: Vec<(String, usize)> = Vec::new();
        let n = self.importers.len();
        let ghost pairs = self@.importers;
        let mut i: usize = 0;
        proof {
            assert(pairs.take(0) =~= Seq::<(Seq<char>, Seq<Seq<char>>)>::empty());
            assert(counted_views(hubs@) =~= Seq::<(Seq<char>, usize)>::empty());
        }
        while i < n
            invariant
                i <= n,
                n == self.importers.pairs().len(),
                pairs == self@.importers,
                pairs.len() == n,
                counted_views(hubs@) == hub_candidates(pairs.take(i as int)),
            decreases n - i,
        {
            let count = self.importers.value_at(i).len();
            let ghost prev = hubs@;
            proof {
                let t = pairs.take(i + 1);
                assert(t.drop_last() =~= pairs.take(i as int));
                assert(t.last() == pairs[i as int]);
                assert(pairs[i as int].1.len() == count);
            }
            if count >= HUB_THRESHOLD {
                hubs.push((self.importers.key_at(i).clone(), count));
                proof {
                    assert(counted_views(hubs@) =~= counted_views(prev).push(
                        (pairs[i as int].0, count),
                    ));
                }
            }
            i += 1;
        }
        let ghost unsorted = hubs@;
        let sorted = stable_sort(hubs);
        proof {
            assert(pairs.take(n as int) =~= pairs);
            assert forall|x: (String, usize)| #[trigger]
                rank_fn::<(String, usize)>()(x) == by_count_descending()(counted_content()(x)) by {}
            lemma_sort_map(
                unsorted,
                counted_content(),
                rank_fn::<(String, usize)>(),
                by_count_descending(),
            );
            self.lemma_counts_fit();
            lemma_same_keys(self.importers.pairs(), Seq::empty(), 0);
            lemma_hubs(pairs);
            lemma_hubs_listed(pairs);
        }
        sorted
    }

    /// Whether `file` has at least three importers.
    pub fn is_hub(&self, file: &str) -> (res: bool)
        ensures
            res == is_hub_in(self@.importers, file@),
    {
        match self.importers_of(file) {
            Some(list) => list.len() >= HUB_THRESHOLD,
            None => false,
        }
    }
}

/// Viewing the lists does not move the keys.
pub proof fn lemma_same_keys(p: Seq<(Seq<char>, Vec<String>)>, k: Seq<char>, from: int)
    requires
        0 <= from,
    ensures
        crate::strmap::key_index(list_views(p), k, from) == crate::strmap::key_index(p, k, from),
        from == 0 ==> (match lookup(p, k) {
            Some(v) => lookup(list_views(p), k) == Some(strings_view(v@)),
            None => lookup(list_views(p), k).is_none(),
        }),
        distinct_keys(p) == distinct_keys(list_views(p)),
    decreases p.len() - from,
{
    if from < p.len() {
        assert(list_views(p)[from].0 == p[from].0);
        if p[from].0 != k {
            lemma_same_keys(p, k, from + 1);
        }
    }
    if from == 0 {
        crate::strmap::lemma_key_index(p, k, 0);
    }
    assert(distinct_keys(p) == distinct_keys(list_views(p))) by {
        if distinct_keys(p) {
            assert forall|i: int, j: int| 0 <= i < j < p.len() implies list_views(p)[i].0
                != list_views(p)[j].0 by {
                assert(p[i].0 != p[j].0);
            }
        }
        if distinct_keys(list_views(p)) {
            assert forall|i: int, j: int| 0 <= i < j < p.len() implies p[i].0 != p[j].0 by {
                assert(list_views(p)[i].0 != list_views(p)[j].0);
            }
        }
    }
}

/// `s` with each run of slashes made one slash.
pub open spec fn collapse(s: Seq<char>) -> Seq<char>
    decreases s.len(),
{
    if s.len() == 0 {
        s
    } else {
        let r = collapse(s.drop_last());
        if s.last() == '/' && r.len() > 0 && r.last() == '/' {
            r
        } else {
            r.push(s.last())
        }
    }
}

/// Where `s` begins once each `./` at its start is left out.
pub open spec fn dot_slash_end(s: Seq<char>, from: int) -> int
    decreases s.len() - from,
{
    if 0 <= from && from + 2 <= s.len() && s[from] == '.' && s[from + 1] == '/' {
        dot_slash_end(s, from + 2)
    } else {
        from
    }
}

/// `s` without each `./` at its start.
pub open spec fn strip_dot_slash(s: Seq<char>) -> Seq<char> {
    s.subrange(dot_slash_end(s, 0), s.len() as int)
}

/// A path in its normal form: backslashes made slashes, runs of slashes made
/// one, and no `./` at the start.
pub open spec fn normalized(s: Seq<char>) -> Seq<char> {
    strip_dot_slash(collapse(replaced(s, '\\', '/')))
}

/// A path in normal form: only forward slashes, none twice in a row, and no
/// `./` at the start.
pub open spec fn is_normal(s: Seq<char>) -> bool {
    &&& !s.contains('\\')
    &&& forall|i: int| 0 <= i < s.len() - 1 ==> !(#[trigger] s[i] == '/' && s[i + 1] == '/')
    &&& !(s.len() >= 2 && s[0] == '.' && s[1] == '/')
}

proof fn lemma_collapse(s: Seq<char>)
    requires
        !s.contains('\\'),
    ensures
        !collapse(s).contains('\\'),
        forall|i: int|
            0 <= i < collapse(s).len() - 1 ==> !(#[trigger] collapse(s)[i] == '/' && collapse(s)[i + 1] == '/'),
        collapse(s).len() <= s.len(),
    decreases s.len(),
{
    if s.len() > 0 {
        let init = s.drop_last();
        assert(!init.contains('\\')) by {
            if init.contains('\\') {
                let i = choose|i: int| 0 <= i < init.len() && init[i] == '\\';
                assert(s[i] == '\\');
            }
        }
        lemma_collapse(init);
        let r = collapse(init);
        let c = collapse(s);
        assert(s.last() != '\\') by {
            assert(s[s.len() - 1] == s.last());
        }
        assert(!c.contains('\\')) by {
            if c.contains('\\') {
                let i = choose|i: int| 0 <= i < c.len() && c[i] == '\\';
                if i < r.len() {
                    assert(r[i] == '\\');
                }
            }
        }
    }
}

proof fn lemma_dot_slash_end(s: Seq<char>, from: int)
    requires
        0 <= from <= s.len(),
    ensures
        from <= dot_slash_end(s, from) <= s.len(),
        !(dot_slash_end(s, from) + 2 <= s.len() && s[dot_slash_end(s, from)] == '.' && s[dot_slash_end(
            s,
            from,
        ) + 1] == '/'),
    decreases s.len() - from,
{
    if from + 2 <= s.len() && s[from] == '.' && s[from + 1] == '/' {
        lemma_dot_slash_end(s, from + 2);
    }
}

/// What `normalized` yields is in normal form.
pub proof fn lemma_normalized(s: Seq<char>)
    ensures
        is_normal(normalized(s)),
{
    let u = replaced(s, '\\', '/');
    assert(!u.contains('\\')) by {
        if u.contains('\\') {
            let i = choose|i: int| 0 <= i < u.len() && u[i] == '\\';
        }
    }
    lemma_collapse(u);
    let c = collapse(u);
    lemma_dot_slash_end(c, 0);
    let a = dot_slash_end(c, 0);
    let n = normalized(s);
    assert(!n.contains('\\')) by {
        if n.contains('\\') {
            let i = choose|i: int| 0 <= i < n.len() && n[i] == '\\';
            assert(c[a + i] == '\\');
        }
    }
    assert forall|i: int| 0 <= i < n.len() - 1 implies !(#[trigger] n[i] == '/' && n[i + 1] == '/') by {
        assert(n[i] == c[a + i] && n[i + 1] == c[a + i + 1]);
    }
    if n.len() >= 2 {
        assert(n[0] == c[a] && n[1] == c[a + 1]);
    }
}

/// The characters of a path in its normal form.
pub fn normalize_chars(v: &Vec<char>) -> (res: Vec<char>)
    ensures
        res@ == normalized(v@),
{
    let unified = replace_char(v, '\\', '/');
    let mut collapsed: Vec<char> = Vec::new();
    let mut i: usize = 0;
    proof {
        assert(unified@.take(0) =~= Seq::<char>::empty());
    }
    while i < unified.len()
        invariant
            i <= unified@.len(),
            collapsed@ == collapse(unified@.take(i as int)),
        decreases unified@.len() - i,
    {
        let c = unified[i];
        proof {
            let t = unified@.take(i + 1);
            assert(t.drop_last() =~= unified@.take(i as int));
            assert(t.last() == c);
        }
        let n = collapsed.len();
        if c == '/' && n > 0 && collapsed[n - 1] == '/' {
        } else {
            collapsed.push(c);
        }
        i += 1;
    }
    proof {
        assert(unified@.take(unified@.len() as int) =~= unified@);
    }
    let n = collapsed.len();
    let mut start: usize = 0;
    while n - start >= 2 && collapsed[start] == '.' && collapsed[start + 1] == '/'
        invariant
            start <= n,
            n == collapsed@.len(),
            dot_slash_end(collapsed@, 0) == dot_slash_end(collapsed@, start as int),
        decreases n - start,
    {
        start += 2;
    }
    let mut out: Vec<char> = Vec::new();
    let mut k: usize = start;
    while k < n
        invariant
            start <= k <= n,
            n == collapsed@.len(),
            out@ == collapsed@.subrange(start as int, k as int),
        decreases n - k,
    {
        out.push(collapsed[k]);
        assert(out@ =~= collapsed@.subrange(start as int, k + 1));
        k += 1;
    }
    out
}

/// A path in its normal form: only forward slashes, none twice in a row,
/// and no `./` at the start.
pub fn normalize_path(path: &str) -> (res: String)
    ensures
        res@ == normalized(path@),
        is_normal(res@),
{
    let v = to_chars(path);
    let n = normalize_chars(&v);
    proof {
        lemma_normalized(path@);
        assert(n@.subrange(0, n@.len() as int) =~= n@);
    }
    from_chars(&n, 0, n.len())
}

/// The length of `s` without the slashes at its end.
pub open spec fn without_trailing_slashes(s: Seq<char>, hi: int) -> int
    decreases hi,
{
    if hi > 0 && hi <= s.len() && s[hi - 1] == '/' {
        without_trailing_slashes(s, hi - 1)
    } else {
        hi
    }
}

/// The directory of a file: what stands before the last slash of its path,
/// slashes at the end of the path aside. A path without a slash lies in the
/// empty directory; the empty path and the root have no directory.
pub open spec fn parent_dir(path: Seq<char>) -> Option<Seq<char>> {
    let e = without_trailing_slashes(path, path.len() as int);
    let s = last_char(path, '/', e);
    if e == 0 {
        None
    } else if s < 0 {
        Some(Seq::empty())
    } else if s == 0 {
        Some(seq!['/'])
    } else {
        Some(path.subrange(0, s))
    }
}

/// `rel` below the directory `dir`.
pub open spec fn joined(dir: Seq<char>, rel: Seq<char>) -> Seq<char> {
    if dir.len() == 0 {
        rel
    } else if dir.last() == '/' {
        dir + rel
    } else {
        dir.push('/') + rel
    }
}

/// Whether an import is written relative to the importing file: it begins
/// with `./` or `../`.
pub open spec fn is_relative(spec: Seq<char>) -> bool {
    ||| (spec.len() >= 2 && spec[0] == '.' && spec[1] == '/')
    ||| (spec.len() >= 3 && spec[0] == '.' && spec[1] == '.' && spec[2] == '/')
}

/// What an import of the file `from` resolves to. A relative import is taken
/// from the file's directory, without its leading `./`, and normalized; so is
/// a bare name, one without slash and dot; anything else stays as it is. A
/// file without directory resolves nothing.
pub open spec fn resolved(from: Seq<char>, spec: Seq<char>) -> Option<Seq<char>> {
    match parent_dir(from) {
        None => None,
        Some(dir) => if is_relative(spec) {
            Some(normalized(joined(dir, strip_dot_slash(spec))))
        } else if !spec.contains('/') && !spec.contains('.') {
            Some(normalized(joined(dir, spec)))
        } else {
            Some(spec)
        },
    }
}

/// A relative import and a bare name resolve to a path in normal form.
pub proof fn lemma_resolved_normal(from: Seq<char>, spec: Seq<char>)
    requires
        is_relative(spec) || (!spec.contains('/') && !spec.contains('.')),
    ensures
        match resolved(from, spec) {
            Some(r) => is_normal(r),
            None => parent_dir(from).is_none(),
        },
{
    match parent_dir(from) {
        None => {},
        Some(dir) => {
            lemma_normalized(joined(dir, strip_dot_slash(spec)));
            lemma_normalized(joined(dir, spec));
        },
    }
}

fn join_chars(
    dir: &Vec<char>,
    dir_len: usize,
    root: bool,
    rel: &Vec<char>,
    from: usize,
) -> (res: Vec<char>)
    requires
        dir_len <= dir@.len(),
        from <= rel@.len(),
        root ==> dir_len == 0,
    ensures
        res@ == joined(
            if root {
                seq!['/']
            } else {
                dir@.subrange(0, dir_len as int)
            },
            rel@.subrange(from as int, rel@.len() as int),
        ),
{
    let ghost d = if root {
        seq!['/']
    } else {
        dir@.subrange(0, dir_len as int)
    };
    let ghost r = rel@.subrange(from as int, rel@.len() as int);
    let mut out: Vec<char> = Vec::new();
    let mut i: usize = 0;
    while i < dir_len
        invariant
            i <= dir_len <= dir@.len(),
            out@ == dir@.subrange(0, i as int),
        decreases dir_len - i,
    {
        out.push(dir[i]);
        assert(out@ =~= dir@.subrange(0, i + 1));
        i += 1;
    }
    if root {
        out.push('/');
        assert(out@ =~= d);
    } else if dir_len > 0 && dir[dir_len - 1] != '/' {
        out.push('/');
        assert(out@ =~= d.push('/'));
    }
    let ghost head = out@;
    let mut k: usize = from;
    while k < rel.len()
        invariant
            from <= k <= rel@.len(),
            out@ == head + rel@.subrange(from as int, k as int),
        decreases rel@.len() - k,
    {
        out.push(rel[k]);
        assert(out@ =~= head + rel@.subrange(from as int, k + 1));
        k += 1;
    }
    proof {
        if d.len() == 0 {
            assert(head =~= Seq::<char>::empty());
            assert(out@ =~= r);
        }
    }
    out
}

impl FileGraph {
    /// What the import `import_path` of the file `from_file` resolves to.
    pub fn resolve_import(&self, from_file: &str, import_path: &str) -> (res: Option<String>)
        ensures
            crate::types::symbol::opt_view(res) == resolved(from_file@, import_path@),
    {
        let from = to_chars(from_file);
        let spec = to_chars(import_path);
        let mut e: usize = from.len();
        while e > 0 && from[e - 1] == '/'
            invariant
                e <= from@.len(),
                without_trailing_slashes(from@, from@.len() as int) == without_trailing_slashes(
                    from@,
                    e as int,
                ),
            decreases e,
        {
            e -= 1;
        }
        if e == 0 {
            return None;
        }
        let after = after_last_char(&from, '/', e);
        let root = after == 1;
        let dir_len = if after <= 1 {
            0
        } else {
            after - 1
        };
        let n = spec.len();
        let relative = (n >= 2 && spec[0] == '.' && spec[1] == '/') || (n >= 3 && spec[0] == '.'
            && spec[1] == '.' && spec[2] == '/');
        if relative {
            let mut start: usize = 0;
            while n - start >= 2 && spec[start] == '.' && spec[start + 1] == '/'
                invariant
                    start <= n,
                    n == spec@.len(),
                    dot_slash_end(spec@, 0) == dot_slash_end(spec@, start as int),
                decreases n - start,
            {
                start += 2;
            }
            let j = join_chars(&from, dir_len, root, &spec, start);
            let r = normalize_chars(&j);
            proof {
                assert(r@.subrange(0, r@.len() as int) =~= r@);
            }
            return Some(from_chars(&r, 0, r.len()));
        }
        if !has_char(&spec, '/') && !has_char(&spec, '.') {
            let j = join_chars(&from, dir_len, root, &spec, 0);
            let r = normalize_chars(&j);
            proof {
                assert(spec@.subrange(0, spec@.len() as int) =~= spec@);
                assert(r@.subrange(0, r@.len() as int) =~= r@);
            }
            return Some(from_chars(&r, 0, r.len()));
        }
        Some(import_path.to_owned())
    }
}

impl Default for FileGraph {
    fn default() -> (res: Self)
        ensures
            res@.imports == Seq::<(Seq<char>, Seq<Seq<char>>)>::empty(),
            res@.importers == Seq::<(Seq<char>, Seq<Seq<char>>)>::empty(),
            res.wf(),
    {
        FileGraph::new()
    }
}

} // verus!
