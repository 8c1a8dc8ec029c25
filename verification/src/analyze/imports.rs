//! The identifiers that a file imports.

use crate::analyze::lang::strings_view;
use crate::analyze::pattern::{captures_view, find_matches, matches_in, Capture, CaptureView};
use crate::analyze::rules::{group_of, group_span, range_text};
use crate::text::bytes::{find_byte, first_byte, slice_span, str_eq, text_between};
use crate::types::file::last_index_of;
use crate::text::ascii::{DOT, SLASH};
use vstd::prelude::*;
use vstd::string::StringSliceAdditionalSpecFns;
use vstd::utf8::encode_utf8;

verus! {

/// `import a.b.c`.
pub const PYTHON_IMPORT_PATTERN: &'static str = r"(?m)^[ \t]*import\s+([\w.]+)";

/// `from a.b import c`.
pub const PYTHON_FROM_PATTERN: &'static str = r"(?m)^[ \t]*from\s+([\w.]+)\s+import";

/// `import "path"`.
pub const GO_SINGLE_PATTERN: &'static str = r#"(?m)^import\s+"([^"]+)""#;

/// `import ( ... )`.
pub const GO_BLOCK_PATTERN: &'static str = r"(?s)import\s*\(([^)]+)\)";

/// One quoted path on a line of an import block.
pub const GO_LINE_PATTERN: &'static str = r#"(?m)^\s*"([^"]+)"\s*$"#;

/// Which part of an imported path names the import.
pub enum Segment {
    /// What stands before the first separator; an empty part names nothing.
    BeforeFirst(u8),
    /// What stands after the last separator.
    AfterLast(u8),
}

/// The range of the part of `r` that names the import.
pub open spec fn segment_of(bytes: Seq<u8>, r: (usize, usize), seg: Segment) -> (usize, usize) {
    match seg {
        Segment::BeforeFirst(sep) => (r.0, first_byte(bytes, sep, r.0 as int, r.1 as int) as usize),
        Segment::AfterLast(sep) => ((last_index_of(bytes.subrange(r.0 as int, r.1 as int), sep, r.1 - r.0) + 1 + r.0) as usize, r.1),
    }
}

/// `list` with `x` at its end, unless it holds `x` already.
pub open spec fn add_unique(list: Seq<Seq<char>>, x: Seq<char>) -> Seq<Seq<char>> {
    if list.contains(x) {
        list
    } else {
        list.push(x)
    }
}

/// `acc` with the import that one match names, taken from its first group.
pub open spec fn add_import(
    bytes: Seq<u8>,
    cap: CaptureView,
    seg: Segment,
    acc: Seq<Seq<char>>,
) -> Seq<Seq<char>> {
    match group_span(bytes, cap, 1) {
        Some(g) => {
            let name = range_text(bytes, segment_of(bytes, g, seg));
            if seg is BeforeFirst && name.len() == 0 {
                acc
            } else {
                add_unique(acc, name)
            }
        },
        None => acc,
    }
}

/// `acc` with the imports that the matches name, in the order of the
/// matches, each identifier once.
pub open spec fn collect_imports(
    bytes: Seq<u8>,
    caps: Seq<CaptureView>,
    seg: Segment,
    acc: Seq<Seq<char>>,
) -> Seq<Seq<char>>
    decreases caps.len(),
{
    if caps.len() == 0 {
        acc
    } else {
        add_import(bytes, caps.last(), seg, collect_imports(bytes, caps.drop_last(), seg, acc))
    }
}

/// Collecting imports names no import twice.
pub proof fn lemma_collect_no_repeats(
    bytes: Seq<u8>,
    caps: Seq<CaptureView>,
    seg: Segment,
    acc: Seq<Seq<char>>,
)
    requires
        crate::analyze::graph::no_repeats(acc),
    ensures
        crate::analyze::graph::no_repeats(collect_imports(bytes, caps, seg, acc)),
    decreases caps.len(),
{
    if caps.len() > 0 {
        lemma_collect_no_repeats(bytes, caps.drop_last(), seg, acc);
        let prev = collect_imports(bytes, caps.drop_last(), seg, acc);
        let next = add_import(bytes, caps.last(), seg, prev);
        lemma_add_unique(prev, next);
    }
}

proof fn lemma_add_unique(prev: Seq<Seq<char>>, next: Seq<Seq<char>>)
    requires
        crate::analyze::graph::no_repeats(prev),
        next == prev || exists|x: Seq<char>| next == add_unique(prev, x),
    ensures
        crate::analyze::graph::no_repeats(next),
{
    if next != prev {
        let x = choose|x: Seq<char>| next == add_unique(prev, x);
        if !prev.contains(x) {
            assert forall|i: int, j: int| 0 <= i < j < next.len() implies next[i] != next[j] by {
                if j < prev.len() {
                    assert(next[i] == prev[i] && next[j] == prev[j]);
                } else {
                    assert(next[i] == prev[i]);
                    assert(prev.contains(prev[i]));
                }
            }
        }
    }
}

/// No import block names a package twice.
pub proof fn lemma_blocks_no_repeats(bytes: Seq<u8>, caps: Seq<CaptureView>, acc: Seq<Seq<char>>)
    requires
        crate::analyze::graph::no_repeats(acc),
    ensures
        crate::analyze::graph::no_repeats(collect_blocks(bytes, caps, acc)),
    decreases caps.len(),
{
    if caps.len() > 0 {
        lemma_blocks_no_repeats(bytes, caps.drop_last(), acc);
        let prev = collect_blocks(bytes, caps.drop_last(), acc);
        match group_span(bytes, caps.last(), 1) {
            Some(g) => {
                let block = range_text(bytes, g);
                lemma_collect_no_repeats(
                    encode_utf8(block),
                    matches_in(GO_LINE_PATTERN@, block),
                    Segment::AfterLast(SLASH),
                    prev,
                );
            },
            None => {},
        }
    }
}

/// No module and no package is named twice among the imports of a text.
pub proof fn lemma_imports_no_repeats(text: Seq<char>)
    ensures
        crate::analyze::graph::no_repeats(python_imports(text)),
        crate::analyze::graph::no_repeats(go_imports(text)),
{
    let bytes = encode_utf8(text);
    let none = Seq::<Seq<char>>::empty();
    lemma_collect_no_repeats(
        bytes,
        matches_in(PYTHON_IMPORT_PATTERN@, text),
        Segment::BeforeFirst(DOT),
        none,
    );
    let plain = collect_imports(
        bytes,
        matches_in(PYTHON_IMPORT_PATTERN@, text),
        Segment::BeforeFirst(DOT),
        none,
    );
    lemma_collect_no_repeats(
        bytes,
        matches_in(PYTHON_FROM_PATTERN@, text),
        Segment::BeforeFirst(DOT),
        plain,
    );
    lemma_collect_no_repeats(
        bytes,
        matches_in(GO_SINGLE_PATTERN@, text),
        Segment::AfterLast(SLASH),
        none,
    );
    let single = collect_imports(
        bytes,
        matches_in(GO_SINGLE_PATTERN@, text),
        Segment::AfterLast(SLASH),
        none,
    );
    lemma_blocks_no_repeats(bytes, matches_in(GO_BLOCK_PATTERN@, text), single);
}

/// The modules that a Python text imports: the first part of each dotted
/// path after `import`, then of each after `from`.
pub open spec fn python_imports(text: Seq<char>) -> Seq<Seq<char>> {
    let bytes = encode_utf8(text);
    let plain = collect_imports(
        bytes,
        matches_in(PYTHON_IMPORT_PATTERN@, text),
        Segment::BeforeFirst(DOT),
        Seq::empty(),
    );
    collect_imports(bytes, matches_in(PYTHON_FROM_PATTERN@, text), Segment::BeforeFirst(DOT), plain)
}

/// `acc` with the packages that one import block names: the last part of
/// each quoted path on a line of its own.
pub open spec fn add_block(
    bytes: Seq<u8>,
    cap: CaptureView,
    acc: Seq<Seq<char>>,
) -> Seq<Seq<char>> {
    match group_span(bytes, cap, 1) {
        Some(g) => {
            let block = range_text(bytes, g);
            collect_imports(
                encode_utf8(block),
                matches_in(GO_LINE_PATTERN@, block),
                Segment::AfterLast(SLASH),
                acc,
            )
        },
        None => acc,
    }
}

/// `acc` with the packages that the import blocks name.
pub open spec fn collect_blocks(
    bytes: Seq<u8>,
    caps: Seq<CaptureView>,
    acc: Seq<Seq<char>>,
) -> Seq<Seq<char>>
    decreases caps.len(),
{
    if caps.len() == 0 {
        acc
    } else {
        add_block(bytes, caps.last(), collect_blocks(bytes, caps.drop_last(), acc))
    }
}

/// The packages that a Go text imports: the last part of each path of a
/// single import, then of each path in an import block.
pub open spec fn go_imports(text: Seq<char>) -> Seq<Seq<char>> {
    let bytes = encode_utf8(text);
    let single = collect_imports(
        bytes,
        matches_in(GO_SINGLE_PATTERN@, text),
        Segment::AfterLast(SLASH),
        Seq::empty(),
    );
    collect_blocks(bytes, matches_in(GO_BLOCK_PATTERN@, text), single)
}

/// The name of the package that an import path ends in.
pub open spec fn go_package_name(path: Seq<char>) -> Seq<char> {
    let b = encode_utf8(path);
    range_text(b, segment_of(b, (0usize, b.len() as usize), Segment::AfterLast(SLASH)))
}

/// Puts `x` at the end of `list` unless the list holds it already.
pub fn push_unique(list: &mut Vec<String>, x: String)
    ensures
        strings_view(final(list)@) == add_unique(strings_view(old(list)@), x@),
{
    let ghost before = strings_view(list@);
    let mut i: usize = 0;
    while i < list.len()
        invariant
            i <= list@.len(),
            before == strings_view(list@),
            forall|k: int| 0 <= k < i ==> before[k] != x@,
        decreases list@.len() - i,
    {
        if str_eq(list[i].as_str(), x.as_str()) {
            assert(before[i as int] == x@);
            return ;
        }
        i += 1;
    }
    list.push(x);
    assert(strings_view(list@) =~= before.push(x@));
}

/// The range of the part of `r` that names the import.
pub fn segment_in(bytes: &[u8], r: (usize, usize), seg: &Segment) -> (res: (usize, usize))
    requires
        r.0 <= r.1 <= bytes@.len(),
    ensures
        res == segment_of(bytes@, r, *seg),
{
    match seg {
        Segment::BeforeFirst(sep) => (r.0, find_byte(bytes, *sep, r.0, r.1)),
        Segment::AfterLast(sep) => {
            let mut i: usize = r.1;
            let ghost part = bytes@.subrange(r.0 as int, r.1 as int);
            while i > r.0 && bytes[i - 1] != *sep
                invariant
                    r.0 <= i <= r.1 <= bytes@.len(),
                    part == bytes@.subrange(r.0 as int, r.1 as int),
                    last_index_of(part, *sep, r.1 - r.0) == last_index_of(part, *sep, i - r.0),
                decreases i,
            {
                assert(part[i - 1 - r.0] == bytes@[i - 1]);
                i -= 1;
            }
            proof {
                if i > r.0 {
                    assert(part[i - 1 - r.0] == bytes@[i - 1]);
                }
            }
            (i, r.1)
        },
    }
}

/// Adds to `list` the import that one match names.
pub fn push_import(content: &str, cap: &Capture, seg: &Segment, list: &mut Vec<String>)
    ensures
        strings_view(final(list)@) == add_import(
            content.spec_bytes(),
            cap@,
            *seg,
            strings_view(old(list)@),
        ),
{
    match group_of(content, cap, 1) {
        Some(g) => {
            let s = segment_in(content.as_bytes(), g, seg);
            let name = text_between(content, s.0, s.1);
            let empty = name.as_str().is_empty();
            match seg {
                Segment::BeforeFirst(_) => {
                    if !empty {
                        push_unique(list, name);
                    }
                },
                Segment::AfterLast(_) => {
                    push_unique(list, name);
                },
            }
        },
        None => {},
    }
}

/// Adds to `list` the imports that the matches name.
pub fn push_imports(content: &str, caps: &Vec<Capture>, seg: &Segment, list: &mut Vec<String>)
    ensures
        strings_view(final(list)@) == collect_imports(
            content.spec_bytes(),
            captures_view(caps@),
            *seg,
            strings_view(old(list)@),
        ),
{
    let ghost acc = strings_view(list@);
    let ghost cv = captures_view(caps@);
    let mut i: usize = 0;
    proof {
        assert(cv.take(0) =~= Seq::<CaptureView>::empty());
    }
    while i < caps.len()
        invariant
            i <= caps@.len(),
            cv == captures_view(caps@),
            strings_view(list@) == collect_imports(content.spec_bytes(), cv.take(i as int), *seg, acc),
        decreases caps@.len() - i,
    {
        push_import(content, &caps[i], seg, list);
        proof {
            let t = cv.take(i + 1);
            assert(t.drop_last() =~= cv.take(i as int));
            assert(t.last() == caps@[i as int]@);
        }
        i += 1;
    }
    proof {
        assert(cv.take(caps@.len() as int) =~= cv);
    }
}

/// The modules that a Python text imports.
pub fn imports_of_python(content: &str) -> (res: Vec<String>)
    ensures
        strings_view(res@) == python_imports(content@),
{
    let mut list: Vec<String> = Vec::new();
    assert(strings_view(list@) =~= Seq::<Seq<char>>::empty());
    let plain = find_matches(PYTHON_IMPORT_PATTERN, content);
    push_imports(content, &plain, &Segment::BeforeFirst(DOT), &mut list);
    let from = find_matches(PYTHON_FROM_PATTERN, content);
    push_imports(content, &from, &Segment::BeforeFirst(DOT), &mut list);
    list
}

/// The packages that a Go text imports.
pub fn imports_of_go(content: &str) -> (res: Vec<String>)
    ensures
        strings_view(res@) == go_imports(content@),
{
    let mut list: Vec<String> = Vec::new();
    assert(strings_view(list@) =~= Seq::<Seq<char>>::empty());
    let single = find_matches(GO_SINGLE_PATTERN, content);
    push_imports(content, &single, &Segment::AfterLast(SLASH), &mut list);
    let blocks = find_matches(GO_BLOCK_PATTERN, content);
    let ghost acc = strings_view(list@);
    let ghost bv = captures_view(blocks@);
    let ghost bytes = content.spec_bytes();
    let mut i: usize = 0;
    proof {
        assert(bv.take(0) =~= Seq::<CaptureView>::empty());
    }
    while i < blocks.len()
        invariant
            i <= blocks@.len(),
            bv == captures_view(blocks@),
            bytes == content.spec_bytes(),
            strings_view(list@) == collect_blocks(bytes, bv.take(i as int), acc),
        decreases blocks@.len() - i,
    {
        match group_of(content, &blocks[i], 1) {
            Some(g) => {
                let block = slice_span(content, g.0, g.1);
                let lines = find_matches(GO_LINE_PATTERN, block);
                push_imports(block, &lines, &Segment::AfterLast(SLASH), &mut list);
            },
            None => {},
        }
        proof {
            let t = bv.take(i + 1);
            assert(t.drop_last() =~= bv.take(i as int));
            assert(t.last() == blocks@[i as int]@);
        }
        i += 1;
    }
    proof {
        assert(bv.take(blocks@.len() as int) =~= bv);
    }
    list
}

/// The name of the package that an import path ends in: what stands after
/// its last slash.
pub fn extract_go_package_name(import_path: &str) -> (res: String)
    ensures
        res@ == go_package_name(import_path@),
{
    let bytes = import_path.as_bytes();
    let s = segment_in(bytes, (0, bytes.len()), &Segment::AfterLast(SLASH));
    text_between(import_path, s.0, s.1)
}

} // verus!
