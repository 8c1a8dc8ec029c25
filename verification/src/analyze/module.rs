//! Grouping files into documentation modules.
//!
//! The policy is by directory: a file belongs to the module of its
//! directory, cut to a maximum depth where one is set. The module of the
//! files without directory is the root, which is always there. Modules are
//! told apart by their slug, the directory with each separator made a
//! hyphen; directories with one slug make one module.

use crate::analyze::lang::strings_view;
use crate::text::chars::{after_last_char, from_chars, last_char, to_chars};
use crate::types::file::FileEntry;
use crate::types::symbol::opt_view;
use vstd::prelude::*;

verus! {

/// By what a module is bounded.
#[derive(Debug, Clone, Copy, PartialEq, Eq, Structural)]
pub enum BoundaryType {
    /// The root of the tree.
    Root,
    /// A directory with `mod.rs`, `lib.rs` or `main.rs`.
    RustModule,
    /// A directory with `__init__.py`.
    PythonPackage,
    /// A directory with an `index` file of JavaScript or TypeScript.
    NodePackage,
    /// A directory with `main.go`.
    GoPackage,
    /// Any other directory.
    Directory,
}

impl BoundaryType {
    pub open spec fn label(self) -> Seq<char> {
        match self {
            BoundaryType::Root => "root"@,
            BoundaryType::RustModule => "rust module"@,
            BoundaryType::PythonPackage => "python package"@,
            BoundaryType::NodePackage => "node package"@,
            BoundaryType::GoPackage => "go package"@,
            BoundaryType::Directory => "directory"@,
        }
    }

    pub fn as_str(&self) -> (res: &'static str)
        ensures
            res@ == self.label(),
    {
        match self {
            BoundaryType::Root => "root",
            BoundaryType::RustModule => "rust module",
            BoundaryType::PythonPackage => "python package",
            BoundaryType::NodePackage => "node package",
            BoundaryType::GoPackage => "go package",
            BoundaryType::Directory => "directory",
        }
    }
}

/// A documentation module: a directory's files.
#[derive(Debug, Clone)]
pub struct ModuleInfo {
    /// The directory of the module; empty for the root.
    pub path: String,
    /// The name by which the module is known; no two modules share one.
    pub slug: String,
    pub boundary_type: BoundaryType,
    /// The relative paths of the files of the module.
    pub files: Vec<String>,
    /// The slugs of the modules directly below this one.
    pub children: Vec<String>,
    /// The file by which the module is entered, if it has one.
    pub entry_point: Option<String>,
}

/// The content of a [`ModuleInfo`].
pub struct ModuleInfoView {
    pub path: Seq<char>,
    pub slug: Seq<char>,
    pub boundary_type: BoundaryType,
    pub files: Seq<Seq<char>>,
    pub children: Seq<Seq<char>>,
    pub entry_point: Option<Seq<char>>,
}

impl View for ModuleInfo {
    type V = ModuleInfoView;

    open spec fn view(&self) -> ModuleInfoView {
        ModuleInfoView {
            path: self.path@,
            slug: self.slug@,
            boundary_type: self.boundary_type,
            files: strings_view(self.files@),
            children: strings_view(self.children@),
            entry_point: opt_view(self.entry_point),
        }
    }
}

/// The contents of a sequence of modules.
pub open spec fn module_views(s: Seq<ModuleInfo>) -> Seq<ModuleInfoView> {
    s.map_values(|m: ModuleInfo| m@)
}

/// The slug of a path: the path with each slash and backslash made a
/// hyphen.
pub open spec fn slug_of(path: Seq<char>) -> Seq<char> {
    Seq::new(path.len(), |i: int| if path[i] == '/' || path[i] == '\\' { '-' } else { path[i] })
}

/// The slug of the module of a directory: `root` for the empty directory.
pub open spec fn module_slug(dir: Seq<char>) -> Seq<char> {
    if dir.len() == 0 {
        seq!['r', 'o', 'o', 't']
    } else {
        slug_of(dir)
    }
}

/// Where the first `depth` components of a path end: at its `depth`-th
/// slash, counted from `from` on, or at its end.
pub open spec fn depth_end(path: Seq<char>, depth: int, from: int) -> int
    decreases path.len() - from,
{
    if from < 0 || from >= path.len() {
        path.len() as int
    } else if path[from] == '/' {
        if depth <= 1 {
            from
        } else {
            depth_end(path, depth - 1, from + 1)
        }
    } else {
        depth_end(path, depth, from + 1)
    }
}

/// The directory of a file: what stands before the last slash of its path;
/// empty for a path without slash.
pub open spec fn dir_of(path: Seq<char>) -> Seq<char> {
    let s = last_char(path, '/', path.len() as int);
    if s <= 0 {
        Seq::empty()
    } else {
        path.subrange(0, s)
    }
}

/// The directory of the module of a file: the file's directory, cut to its
/// first `max_depth` components where `max_depth` is not 0.
pub open spec fn module_dir(path: Seq<char>, max_depth: usize) -> Seq<char> {
    let dir = dir_of(path);
    if max_depth == 0 {
        dir
    } else {
        dir.subrange(0, depth_end(dir, max_depth as int, 0))
    }
}

/// The first index at or after `from` of a module with the slug `slug`; -1
/// if there is none.
pub open spec fn slug_index(mods: Seq<ModuleInfoView>, slug: Seq<char>, from: int) -> int
    decreases mods.len() - from,
{
    if from < 0 || from >= mods.len() {
        -1
    } else if mods[from].slug == slug {
        from
    } else {
        slug_index(mods, slug, from + 1)
    }
}

/// The module of a directory before any file is known.
pub open spec fn fresh_module(dir: Seq<char>) -> ModuleInfoView {
    ModuleInfoView {
        path: dir,
        slug: module_slug(dir),
        boundary_type: if dir.len() == 0 {
            BoundaryType::Root
        } else {
            BoundaryType::Directory
        },
        files: Seq::empty(),
        children: Seq::empty(),
        entry_point: None,
    }
}

/// `mods` with one more file: in the module with the slug of the file's
/// directory, made at the end where it is not there yet.
pub open spec fn place(
    mods: Seq<ModuleInfoView>,
    file: Seq<char>,
    max_depth: usize,
) -> Seq<ModuleInfoView> {
    let dir = module_dir(file, max_depth);
    let i = slug_index(mods, module_slug(dir), 0);
    if i >= 0 {
        mods.update(i, ModuleInfoView { files: mods[i].files.push(file), ..mods[i] })
    } else {
        mods.push(ModuleInfoView { files: seq![file], ..fresh_module(dir) })
    }
}

/// The modules of the files, before entry points and children are told: the
/// root first, then each module in the order of its first file.
pub open spec fn grouped(files: Seq<Seq<char>>, max_depth: usize) -> Seq<ModuleInfoView>
    decreases files.len(),
{
    if files.len() == 0 {
        seq![fresh_module(Seq::empty())]
    } else {
        place(grouped(files.drop_last(), max_depth), files.last(), max_depth)
    }
}

/// Modules that share the files out: no two have one slug, and each file of
/// a module has the module's slug.
pub open spec fn is_partition(mods: Seq<ModuleInfoView>, max_depth: usize) -> bool {
    &&& forall|i: int, j: int| 0 <= i < j < mods.len() ==> mods[i].slug != mods[j].slug
    &&& forall|i: int, k: int|
        0 <= i < mods.len() && 0 <= k < mods[i].files.len() ==> module_slug(
            module_dir(#[trigger] mods[i].files[k], max_depth),
        ) == mods[i].slug
}

/// Whether some module holds the file.
pub open spec fn holds_file(mods: Seq<ModuleInfoView>, file: Seq<char>) -> bool {
    exists|i: int| 0 <= i < mods.len() && (#[trigger] mods[i]).files.contains(file)
}

pub proof fn lemma_slug_index(mods: Seq<ModuleInfoView>, slug: Seq<char>, from: int)
    requires
        0 <= from,
    ensures
        slug_index(mods, slug, from) == -1 || from <= slug_index(mods, slug, from) < mods.len(),
        slug_index(mods, slug, from) >= 0 ==> mods[slug_index(mods, slug, from)].slug == slug,
        slug_index(mods, slug, from) == -1 ==> forall|i: int|
            from <= i < mods.len() ==> (#[trigger] mods[i]).slug != slug,
    decreases mods.len() - from,
{
    if from < mods.len() && mods[from].slug != slug {
        lemma_slug_index(mods, slug, from + 1);
    }
}

/// Placing a file keeps the partition, keeps the files that were held, and
/// holds the new one.
pub proof fn lemma_place(mods: Seq<ModuleInfoView>, file: Seq<char>, max_depth: usize)
    requires
        is_partition(mods, max_depth),
    ensures
        is_partition(place(mods, file, max_depth), max_depth),
        holds_file(place(mods, file, max_depth), file),
        forall|f: Seq<char>| holds_file(mods, f) ==> holds_file(place(mods, file, max_depth), f),
        place(mods, file, max_depth).len() >= mods.len(),
        mods.len() > 0 ==> place(mods, file, max_depth)[0].slug == mods[0].slug,
{
    let dir = module_dir(file, max_depth);
    let slug = module_slug(dir);
    let i = slug_index(mods, slug, 0);
    lemma_slug_index(mods, slug, 0);
    let r = place(mods, file, max_depth);
    if i >= 0 {
        assert(r[i].files[mods[i].files.len() as int] == file);
        assert(r[i].files.contains(file));
        assert forall|a: int, k: int| 0 <= a < r.len() && 0 <= k < r[a].files.len() implies module_slug(
            module_dir(#[trigger] r[a].files[k], max_depth),
        ) == r[a].slug by {
            if a == i {
                if k < mods[i].files.len() {
                    assert(r[a].files[k] == mods[i].files[k]);
                }
            } else {
                assert(r[a] == mods[a]);
            }
        }
        assert forall|f: Seq<char>| holds_file(mods, f) implies holds_file(r, f) by {
            let a = choose|a: int| 0 <= a < mods.len() && (#[trigger] mods[a]).files.contains(f);
            if a == i {
                let k = choose|k: int| 0 <= k < mods[a].files.len() && mods[a].files[k] == f;
                assert(r[a].files[k] == f);
            } else {
                assert(r[a] == mods[a]);
            }
            assert(r[a].files.contains(f));
        }
    } else {
        let n = mods.len() as int;
        assert(r[n].files[0] == file);
        assert(r[n].files.contains(file));
        assert forall|a: int, k: int| 0 <= a < r.len() && 0 <= k < r[a].files.len() implies module_slug(
            module_dir(#[trigger] r[a].files[k], max_depth),
        ) == r[a].slug by {
            if a < n {
                assert(r[a] == mods[a]);
            }
        }
        assert forall|f: Seq<char>| holds_file(mods, f) implies holds_file(r, f) by {
            let a = choose|a: int| 0 <= a < mods.len() && (#[trigger] mods[a]).files.contains(f);
            assert(r[a] == mods[a]);
        }
    }
}

/// The grouped modules share the files out: the slugs are distinct, each
/// file lies in the module of its directory and in no other, and the first
/// module is the root.
pub proof fn lemma_grouped(files: Seq<Seq<char>>, max_depth: usize)
    ensures
        is_partition(grouped(files, max_depth), max_depth),
        forall|k: int| 0 <= k < files.len() ==> holds_file(grouped(files, max_depth), #[trigger] files[k]),
        grouped(files, max_depth).len() >= 1,
        grouped(files, max_depth)[0].slug == module_slug(Seq::empty()),
    decreases files.len(),
{
    if files.len() == 0 {
    } else {
        let init = files.drop_last();
        lemma_grouped(init, max_depth);
        lemma_place(grouped(init, max_depth), files.last(), max_depth);
        assert forall|k: int| 0 <= k < files.len() implies holds_file(
            grouped(files, max_depth),
            #[trigger] files[k],
        ) by {
            if k < init.len() {
                assert(init[k] == files[k]);
            }
        }
    }
}

/// The slug of `v[0..hi]` as the slug of a module.
pub fn slug_for(v: &Vec<char>, hi: usize) -> (res: String)
    requires
        hi <= v@.len(),
    ensures
        res@ == module_slug(v@.subrange(0, hi as int)),
{
    if hi == 0 {
        let mut r: Vec<char> = Vec::new();
        r.push('r');
        r.push('o');
        r.push('o');
        r.push('t');
        assert(r@ =~= seq!['r', 'o', 'o', 't']);
        assert(r@.subrange(0, 4) =~= r@);
        return from_chars(&r, 0, 4);
    }
    let mut out: Vec<char> = Vec::new();
    let mut i: usize = 0;
    let ghost dir = v@.subrange(0, hi as int);
    while i < hi
        invariant
            i <= hi <= v@.len(),
            dir == v@.subrange(0, hi as int),
            out@ == slug_of(dir).subrange(0, i as int),
        decreases hi - i,
    {
        let c = v[i];
        out.push(if c == '/' || c == '\\' { '-' } else { c });
        assert(out@ =~= slug_of(dir).subrange(0, i + 1));
        i += 1;
    }
    proof {
        assert(slug_of(dir).subrange(0, hi as int) =~= slug_of(dir));
        assert(out@.subrange(0, hi as int) =~= out@);
    }
    from_chars(&out, 0, hi)
}

/// The slug of a path: each slash and backslash made a hyphen.
pub fn path_to_slug(path: &str) -> (res: String)
    ensures
        res@ == slug_of(path@),
{
    let v = to_chars(path);
    let mut out: Vec<char> = Vec::new();
    let mut i: usize = 0;
    while i < v.len()
        invariant
            i <= v@.len(),
            out@ == slug_of(v@).subrange(0, i as int),
        decreases v@.len() - i,
    {
        let c = v[i];
        out.push(if c == '/' || c == '\\' { '-' } else { c });
        assert(out@ =~= slug_of(v@).subrange(0, i + 1));
        i += 1;
    }
    proof {
        assert(slug_of(v@).subrange(0, v@.len() as int) =~= slug_of(v@));
        assert(out@.subrange(0, out@.len() as int) =~= out@);
    }
    from_chars(&out, 0, out.len())
}

/// The length of the directory of the module of the file with the
/// characters `v`.
pub fn module_dir_len(v: &Vec<char>, max_depth: usize) -> (res: usize)
    ensures
        res <= v@.len(),
        v@.subrange(0, res as int) == module_dir(v@, max_depth),
{
    let after = after_last_char(v, '/', v.len());
    let dir_len: usize = if after <= 1 {
        0
    } else {
        after - 1
    };
    let ghost dir = dir_of(v@);
    proof {
        assert(dir =~= v@.subrange(0, dir_len as int));
    }
    if max_depth == 0 {
        return dir_len;
    }
    let mut depth = max_depth;
    let mut i: usize = 0;
    while i < dir_len
        invariant
            i <= dir_len <= v@.len(),
            dir == v@.subrange(0, dir_len as int),
            dir == dir_of(v@),
            max_depth != 0,
            depth >= 1,
            depth_end(dir, max_depth as int, 0) == depth_end(dir, depth as int, i as int),
        decreases dir_len - i,
    {
        assert(dir[i as int] == v@[i as int]);
        if v[i] == '/' {
            if depth <= 1 {
                assert(dir.subrange(0, i as int) =~= v@.subrange(0, i as int));
                return i;
            }
            depth -= 1;
        }
        i += 1;
    }
    proof {
        assert(dir.subrange(0, dir_len as int) =~= dir);
    }
    dir_len
}

impl ModuleInfo {
    /// A module of the directory `path`, without files and children.
    pub fn new(path: &str, boundary_type: BoundaryType, entry_point: Option<String>) -> (res: Self)
        ensures
            res@ == (ModuleInfoView {
                path: path@,
                slug: module_slug(path@),
                boundary_type,
                files: Seq::empty(),
                children: Seq::empty(),
                entry_point: opt_view(entry_point),
            }),
    {
        let v = to_chars(path);
        proof {
            assert(v@.subrange(0, v@.len() as int) =~= v@);
        }
        let slug = slug_for(&v, v.len());
        let res = ModuleInfo {
            path: path.to_owned(),
            slug,
            boundary_type,
            files: Vec::new(),
            children: Vec::new(),
            entry_point,
        };
        assert(strings_view(res.files@) =~= Seq::<Seq<char>>::empty());
        assert(strings_view(res.children@) =~= Seq::<Seq<char>>::empty());
        res
    }

    /// Adds a file to the module.
    pub fn add_file(&mut self, file: String)
        ensures
            final(self)@ == (ModuleInfoView { files: old(self)@.files.push(file@), ..old(self)@ }),
    {
        let ghost before = strings_view(self.files@);
        self.files.push(file);
        assert(strings_view(self.files@) =~= before.push(file@));
    }

    /// Adds the slug of a module directly below this one.
    pub fn add_child(&mut self, slug: String)
        ensures
            final(self)@ == (ModuleInfoView {
                children: old(self)@.children.push(slug@),
                ..old(self)@
            }),
    {
        let ghost before = strings_view(self.children@);
        self.children.push(slug);
        assert(strings_view(self.children@) =~= before.push(slug@));
    }

    /// The number of files of the module.
    pub fn file_count(&self) -> (res: usize)
        ensures
            res == self@.files.len(),
    {
        self.files.len()
    }

    /// Whether the module holds the file `path`.
    pub fn contains_file(&self, path: &str) -> (res: bool)
        ensures
            res == self@.files.contains(path@),
    {
        let ghost files = strings_view(self.files@);
        let mut i: usize = 0;
        while i < self.files.len()
            invariant
                i <= self.files@.len(),
                files == strings_view(self.files@),
                forall|k: int| 0 <= k < i ==> files[k] != path@,
            decreases self.files@.len() - i,
        {
            if crate::text::bytes::str_eq(self.files[i].as_str(), path) {
                assert(files[i as int] == path@);
                return true;
            }
            i += 1;
        }
        false
    }
}

/// The modules of the files with the given relative paths, before entry
/// points and children are told.
pub fn group_files(paths: &Vec<String>, max_depth: usize) -> (res: Vec<ModuleInfo>)
    ensures
        module_views(res@) == grouped(strings_view(paths@), max_depth),
        is_partition(module_views(res@), max_depth),
        forall|k: int|
            0 <= k < paths@.len() ==> holds_file(module_views(res@), (#[trigger] paths@[k])@),
{
    let ghost files = strings_view(paths@);
    let mut mods: Vec<ModuleInfo> = Vec::new();
    mods.push(ModuleInfo::new("", BoundaryType::Root, None));
    proof {
        assert(""@ =~= Seq::<char>::empty()) by {
            reveal_strlit("");
        }
        assert(files.take(0) =~= Seq::<Seq<char>>::empty());
        assert(module_views(mods@) =~= seq![fresh_module(Seq::empty())]);
    }
    let mut i: usize = 0;
    while i < paths.len()
        invariant
            i <= paths@.len(),
            files == strings_view(paths@),
            module_views(mods@) == grouped(files.take(i as int), max_depth),
        decreases paths@.len() - i,
    {
        let path = &paths[i];
        let v = to_chars(path.as_str());
        let dir_len = module_dir_len(&v, max_depth);
        let slug = slug_for(&v, dir_len);
        let ghost before = module_views(mods@);
        proof {
            let t = files.take(i + 1);
            assert(t.drop_last() =~= files.take(i as int));
            assert(t.last() == path@);
        }
        let mut at: usize = 0;
        while at < mods.len() && !crate::text::bytes::str_eq(
            mods[at].slug.as_str(),
            slug.as_str(),
        )
            invariant
                at <= mods@.len(),
                before == module_views(mods@),
                slug_index(before, slug@, 0) == slug_index(before, slug@, at as int),
            decreases mods@.len() - at,
        {
            at += 1;
        }
        proof {
            if at < mods@.len() {
                assert(before[at as int].slug == slug@);
            }
        }
        if at < mods.len() {
            let mut m = mods.remove(at);
            m.add_file(path.clone());
            mods.insert(at, m);
            proof {
                assert(module_views(mods@) =~= place(before, path@, max_depth));
            }
        } else {
            let dir = from_chars(&v, 0, dir_len);
            let mut m = ModuleInfo::new(
                dir.as_str(),
                if dir_len == 0 {
                    BoundaryType::Root
                } else {
                    BoundaryType::Directory
                },
                None,
            );
            m.add_file(path.clone());
            mods.push(m);
            proof {
                assert(Seq::<Seq<char>>::empty().push(path@) =~= seq![path@]);
                assert(module_views(mods@) =~= place(before, path@, max_depth));
            }
        }
        i += 1;
    }
    proof {
        assert(files.take(paths@.len() as int) =~= files);
        lemma_grouped(files, max_depth);
        assert forall|k: int| 0 <= k < paths@.len() implies holds_file(
            module_views(mods@),
            (#[trigger] paths@[k])@,
        ) by {
            assert(files[k] == paths@[k]@);
        }
    }
    mods
}

/// The name of a file: what stands after the last slash of its path.
pub open spec fn file_name(path: Seq<char>) -> Seq<char> {
    path.subrange(last_char(path, '/', path.len() as int) + 1, path.len() as int)
}

/// The kind of module that a file of this name is the entry of, if it is a
/// conventional entry.
pub open spec fn marker_type(name: Seq<char>) -> Option<BoundaryType> {
    if name == "mod.rs"@ || name == "lib.rs"@ || name == "main.rs"@ {
        Some(BoundaryType::RustModule)
    } else if name == "__init__.py"@ {
        Some(BoundaryType::PythonPackage)
    } else if name == "index.js"@ || name == "index.ts"@ || name == "index.jsx"@ || name
        == "index.tsx"@ {
        Some(BoundaryType::NodePackage)
    } else if name == "main.go"@ {
        Some(BoundaryType::GoPackage)
    } else {
        None
    }
}

/// The index of the first file at or after `from` that is a conventional
/// entry; -1 if there is none.
pub open spec fn first_marker(files: Seq<Seq<char>>, from: int) -> int
    decreases files.len() - from,
{
    if from < 0 || from >= files.len() {
        -1
    } else if marker_type(file_name(files[from])).is_some() {
        from
    } else {
        first_marker(files, from + 1)
    }
}

/// A module with its entry point told: its first file that is a
/// conventional entry, which also tells the kind of a module other than the
/// root.
pub open spec fn marked(m: ModuleInfoView) -> ModuleInfoView {
    let i = first_marker(m.files, 0);
    if 0 <= i < m.files.len() {
        ModuleInfoView {
            entry_point: Some(m.files[i]),
            boundary_type: if m.path.len() == 0 {
                m.boundary_type
            } else {
                match marker_type(file_name(m.files[i])) {
                    Some(t) => t,
                    None => m.boundary_type,
                }
            },
            ..m
        }
    } else {
        m
    }
}

/// The index of the module directly above a directory: the module of the
/// nearest directory above it that has one; -1 if there is none.
pub open spec fn parent_index(mods: Seq<ModuleInfoView>, path: Seq<char>) -> int
    decreases path.len(),
{
    if path.len() == 0 {
        -1
    } else {
        let up = dir_of(path);
        let i = slug_index(mods, module_slug(up), 0);
        if i >= 0 {
            i
        } else if up.len() < path.len() {
            parent_index(mods, up)
        } else {
            -1
        }
    }
}

/// `mods` with the module `child` of `base` listed below its parent.
pub open spec fn adopt(
    mods: Seq<ModuleInfoView>,
    base: Seq<ModuleInfoView>,
    child: int,
) -> Seq<ModuleInfoView> {
    let p = parent_index(base, base[child].path);
    if 0 <= p < mods.len() {
        mods.update(
            p,
            ModuleInfoView { children: mods[p].children.push(base[child].slug), ..mods[p] },
        )
    } else {
        mods
    }
}

/// `base` with the first `n` of its modules listed below their parents.
pub open spec fn with_children(base: Seq<ModuleInfoView>, n: int) -> Seq<ModuleInfoView>
    decreases n,
{
    if n <= 0 {
        base
    } else {
        adopt(with_children(base, n - 1), base, n - 1)
    }
}

/// The modules of the files: grouped by directory, each with its entry point
/// and the modules directly below it.
pub open spec fn modules_of(files: Seq<Seq<char>>, max_depth: usize) -> Seq<ModuleInfoView> {
    let base = grouped(files, max_depth).map_values(|m: ModuleInfoView| marked(m));
    with_children(base, base.len() as int)
}

/// The directory of a path is shorter than the path.
pub proof fn lemma_dir_is_shorter(path: Seq<char>)
    requires
        path.len() > 0,
    ensures
        dir_of(path).len() < path.len(),
{
    lemma_last_char_bound(path, '/', path.len() as int);
}

proof fn lemma_last_char_bound(s: Seq<char>, c: char, hi: int)
    requires
        0 <= hi <= s.len(),
    ensures
        -1 <= last_char(s, c, hi) < hi || (hi == 0 && last_char(s, c, hi) == -1),
    decreases hi,
{
    if hi > 0 && s[hi - 1] != c {
        lemma_last_char_bound(s, c, hi - 1);
    }
}

/// Where the root is there, each directory but the empty one has a module
/// above it.
pub proof fn lemma_parent_exists(mods: Seq<ModuleInfoView>, path: Seq<char>)
    requires
        mods.len() > 0,
        mods[0].slug == module_slug(Seq::empty()),
        path.len() > 0,
    ensures
        0 <= parent_index(mods, path) < mods.len(),
        mods[parent_index(mods, path)].slug.len() < path.len() || mods[parent_index(mods, path)].slug
            == module_slug(Seq::empty()),
    decreases path.len(),
{
    let up = dir_of(path);
    lemma_dir_is_shorter(path);
    lemma_slug_index(mods, module_slug(up), 0);
    let i = slug_index(mods, module_slug(up), 0);
    if i >= 0 {
        if up.len() > 0 {
            assert(module_slug(up).len() == up.len());
        }
    } else {
        if up.len() == 0 {
            assert(mods[0].slug == module_slug(up));
        } else {
            lemma_parent_exists(mods, up);
        }
    }
}

/// What listing one module below its parent changes: the children of the
/// parent, which get the slug of the module at their end.
proof fn lemma_adopt(mods: Seq<ModuleInfoView>, base: Seq<ModuleInfoView>, child: int, i: int)
    requires
        0 <= i < mods.len(),
    ensures
        adopt(mods, base, child).len() == mods.len(),
        i == parent_index(base, base[child].path) ==> adopt(mods, base, child)[i].children
            == mods[i].children.push(base[child].slug),
        i != parent_index(base, base[child].path) ==> adopt(mods, base, child)[i] == mods[i],
{
}

/// Each of the first `n` modules stands among the children of the module
/// above it.
pub proof fn lemma_child_is_listed(base: Seq<ModuleInfoView>, n: int, j: int)
    requires
        0 <= j < n <= base.len(),
        0 <= parent_index(base, base[j].path) < base.len(),
    ensures
        with_children(base, n)[parent_index(base, base[j].path)].children.contains(base[j].slug),
    decreases n,
{
    let q = parent_index(base, base[j].path);
    lemma_with_children(base, n - 1);
    let prev = with_children(base, n - 1);
    let next = with_children(base, n);
    lemma_adopt(prev, base, n - 1, q);
    if j == n - 1 {
        assert(next[q].children[prev[q].children.len() as int] == base[j].slug);
    } else {
        lemma_child_is_listed(base, n - 1, j);
        let k = choose|k: int|
            0 <= k < prev[q].children.len() && prev[q].children[k] == base[j].slug;
        if q == parent_index(base, base[n - 1].path) {
            assert(next[q].children[k] == prev[q].children[k]);
        } else {
            assert(next[q].children[k] == prev[q].children[k]);
        }
    }
}

/// Each child that a module lists after the first `n` modules were placed
/// is one of them, and the module is the one above it.
pub proof fn lemma_listed_is_child(base: Seq<ModuleInfoView>, n: int, i: int, k: int) -> (j: int)
    requires
        0 <= n <= base.len(),
        0 <= i < base.len(),
        base[i].children.len() == 0,
        0 <= k < with_children(base, n)[i].children.len(),
    ensures
        0 <= j < n,
        parent_index(base, base[j].path) == i,
        base[j].slug == with_children(base, n)[i].children[k],
    decreases n,
{
    if n == 0 {
        0
    } else {
        lemma_with_children(base, n - 1);
        let prev = with_children(base, n - 1);
        lemma_adopt(prev, base, n - 1, i);
        if i == parent_index(base, base[n - 1].path) && k == prev[i].children.len() {
            n - 1
        } else {
            lemma_listed_is_child(base, n - 1, i, k)
        }
    }
}

/// Telling entry points and children changes neither slugs nor files.
pub proof fn lemma_with_children(base: Seq<ModuleInfoView>, n: int)
    requires
        0 <= n <= base.len(),
    ensures
        with_children(base, n).len() == base.len(),
        forall|i: int|
            0 <= i < base.len() ==> (#[trigger] with_children(base, n)[i]).slug == base[i].slug
                && with_children(base, n)[i].files == base[i].files && with_children(
                base,
                n,
            )[i].path == base[i].path,
    decreases n,
{
    if n > 0 {
        lemma_with_children(base, n - 1);
    }
}

/// The modules of the files share the files out: no two modules have one
/// slug, each file lies in the module of its directory and in no other, and
/// the first module is the root.
pub proof fn lemma_modules_partition(files: Seq<Seq<char>>, max_depth: usize)
    ensures
        is_partition(modules_of(files, max_depth), max_depth),
        forall|k: int|
            0 <= k < files.len() ==> holds_file(modules_of(files, max_depth), #[trigger] files[k]),
        modules_of(files, max_depth).len() >= 1,
        modules_of(files, max_depth)[0].slug == module_slug(Seq::empty()),
{
    let g = grouped(files, max_depth);
    let base = g.map_values(|m: ModuleInfoView| marked(m));
    let r = modules_of(files, max_depth);
    lemma_grouped(files, max_depth);
    lemma_with_children(base, base.len() as int);
    assert forall|i: int| 0 <= i < r.len() implies (#[trigger] r[i]).slug == g[i].slug && r[i].files
        == g[i].files by {
        assert(base[i] == marked(g[i]));
    }
    assert forall|i: int, k: int| 0 <= i < r.len() && 0 <= k < r[i].files.len() implies module_slug(
        module_dir(#[trigger] r[i].files[k], max_depth),
    ) == r[i].slug by {
        assert(r[i].files[k] == g[i].files[k]);
    }
    assert forall|k: int| 0 <= k < files.len() implies holds_file(r, #[trigger] files[k]) by {
        assert(holds_file(g, files[k]));
        let i = choose|i: int| 0 <= i < g.len() && (#[trigger] g[i]).files.contains(files[k]);
        assert(r[i].files.contains(files[k]));
    }
}

/// Whether the characters `v[lo..hi]` are those of `text`.
pub fn chars_are(v: &Vec<char>, lo: usize, hi: usize, text: &str) -> (res: bool)
    requires
        lo <= hi <= v@.len(),
    ensures
        res == (v@.subrange(lo as int, hi as int) == text@),
{
    let t = to_chars(text);
    if t.len() != hi - lo {
        return false;
    }
    let mut i: usize = 0;
    while i < t.len()
        invariant
            lo <= hi <= v@.len(),
            t@ == text@,
            t@.len() == hi - lo,
            i <= t@.len(),
            forall|k: int| 0 <= k < i ==> v@[lo + k] == t@[k],
        decreases t@.len() - i,
    {
        if v[lo + i] != t[i] {
            assert(v@.subrange(lo as int, hi as int)[i as int] != t@[i as int]);
            return false;
        }
        i += 1;
    }
    assert(v@.subrange(lo as int, hi as int) =~= t@);
    true
}

/// The kind of module that the file `path` is the entry of, if it is a
/// conventional entry.
pub fn marker_of_path(path: &str) -> (res: Option<BoundaryType>)
    ensures
        res == marker_type(file_name(path@)),
{
    let v = to_chars(path);
    let n = v.len();
    let lo = after_last_char(&v, '/', n);
    if chars_are(&v, lo, n, "mod.rs") || chars_are(&v, lo, n, "lib.rs") || chars_are(
        &v,
        lo,
        n,
        "main.rs",
    ) {
        Some(BoundaryType::RustModule)
    } else if chars_are(&v, lo, n, "__init__.py") {
        Some(BoundaryType::PythonPackage)
    } else if chars_are(&v, lo, n, "index.js") || chars_are(&v, lo, n, "index.ts") || chars_are(
        &v,
        lo,
        n,
        "index.jsx",
    ) || chars_are(&v, lo, n, "index.tsx") {
        Some(BoundaryType::NodePackage)
    } else if chars_are(&v, lo, n, "main.go") {
        Some(BoundaryType::GoPackage)
    } else {
        None
    }
}

/// Tells the entry point of a module.
pub fn mark_entry(m: &mut ModuleInfo)
    ensures
        final(m)@ == marked(old(m)@),
{
    let ghost files = strings_view(m.files@);
    let mut i: usize = 0;
    while i < m.files.len()
        invariant
            i <= m.files@.len(),
            files == strings_view(m.files@),
            *m == *old(m),
            first_marker(files, 0) == first_marker(files, i as int),
        decreases m.files@.len() - i,
    {
        match marker_of_path(m.files[i].as_str()) {
            Some(t) => {
                assert(files[i as int] == m.files@[i as int]@);
                let entry = m.files[i].clone();
                m.entry_point = Some(entry);
                if m.path.as_str().unicode_len() != 0 {
                    m.boundary_type = t;
                }
                return ;
            },
            None => {
                assert(files[i as int] == m.files@[i as int]@);
            },
        }
        i += 1;
    }
}

proof fn lemma_last_char_prefix(s: Seq<char>, n: int, c: char, hi: int)
    requires
        0 <= hi <= n <= s.len(),
    ensures
        last_char(s.subrange(0, n), c, hi) == last_char(s, c, hi),
    decreases hi,
{
    if hi > 0 {
        assert(s.subrange(0, n)[hi - 1] == s[hi - 1]);
        if s[hi - 1] != c {
            lemma_last_char_prefix(s, n, c, hi - 1);
        }
    }
}

/// The place in `mods` of the module directly above the directory `path`.
pub fn find_parent(mods: &Vec<ModuleInfo>, path: &str) -> (res: Option<usize>)
    ensures
        match res {
            Some(i) => parent_index(module_views(mods@), path@) == i && i < mods@.len(),
            None => parent_index(module_views(mods@), path@) < 0,
        },
{
    let v = to_chars(path);
    let ghost views = module_views(mods@);
    let mut cur: usize = v.len();
    proof {
        assert(v@.subrange(0, cur as int) =~= path@);
    }
    while cur > 0
        invariant
            cur <= v@.len(),
            views == module_views(mods@),
            parent_index(views, path@) == parent_index(views, v@.subrange(0, cur as int)),
        decreases cur,
    {
        let ghost here = v@.subrange(0, cur as int);
        let after = after_last_char(&v, '/', cur);
        let up: usize = if after <= 1 {
            0
        } else {
            after - 1
        };
        proof {
            lemma_last_char_prefix(v@, cur as int, '/', cur as int);
            assert(dir_of(here) =~= v@.subrange(0, up as int));
        }
        let slug = slug_for(&v, up);
        let mut at: usize = 0;
        while at < mods.len() && !crate::text::bytes::str_eq(mods[at].slug.as_str(), slug.as_str())
            invariant
                at <= mods@.len(),
                views == module_views(mods@),
                slug_index(views, slug@, 0) == slug_index(views, slug@, at as int),
            decreases mods@.len() - at,
        {
            at += 1;
        }
        if at < mods.len() {
            assert(views[at as int].slug == slug@);
            return Some(at);
        }
        cur = up;
    }
    None
}

/// The modules of the files with the given relative paths.
pub fn modules_from_paths(paths: &Vec<String>, max_depth: usize) -> (res: Vec<ModuleInfo>)
    ensures
        module_views(res@) == modules_of(strings_view(paths@), max_depth),
        is_partition(module_views(res@), max_depth),
        forall|k: int|
            0 <= k < paths@.len() ==> holds_file(module_views(res@), (#[trigger] paths@[k])@),
        res@.len() >= 1,
{
    let ghost files = strings_view(paths@);
    let ghost g = grouped(files, max_depth);
    let mut mods = group_files(paths, max_depth);
    let n = mods.len();
    let mut i: usize = 0;
    while i < n
        invariant
            i <= n,
            n == mods@.len(),
            n == g.len(),
            forall|k: int| 0 <= k < i ==> (#[trigger] module_views(mods@)[k]) == marked(g[k]),
            forall|k: int| i <= k < n ==> (#[trigger] module_views(mods@)[k]) == g[k],
        decreases n - i,
    {
        let ghost before = module_views(mods@);
        let mut m = mods.remove(i);
        mark_entry(&mut m);
        mods.insert(i, m);
        proof {
            assert(module_views(mods@) =~= before.update(i as int, marked(before[i as int])));
        }
        i += 1;
    }
    let ghost base = module_views(mods@);
    proof {
        assert(base =~= g.map_values(|m: ModuleInfoView| marked(m)));
    }
    let mut j: usize = 0;
    while j < n
        invariant
            j <= n,
            n == mods@.len(),
            n == base.len(),
            module_views(mods@) == with_children(base, j as int),
        decreases n - j,
    {
        proof {
            lemma_with_children(base, j as int);
        }
        let ghost now = module_views(mods@);
        assert(now[j as int].path == base[j as int].path);
        assert(now[j as int].slug == base[j as int].slug);
        let parent = find_parent_in(&mods, j, Ghost(base));
        match parent {
            Some(p) => {
                let child = mods[j].slug.clone();
                let mut m = mods.remove(p);
                m.add_child(child);
                mods.insert(p, m);
                proof {
                    assert(module_views(mods@) =~= adopt(now, base, j as int));
                }
            },
            None => {},
        }
        j += 1;
    }
    proof {
        lemma_modules_partition(files, max_depth);
        assert forall|k: int| 0 <= k < paths@.len() implies holds_file(
            module_views(mods@),
            (#[trigger] paths@[k])@,
        ) by {
            assert(files[k] == paths@[k]@);
        }
    }
    mods
}

/// The place of the module directly above the module `j`, where the modules
/// have the paths and slugs of `base`.
fn find_parent_in(
    mods: &Vec<ModuleInfo>,
    j: usize,
    Ghost(base): Ghost<Seq<ModuleInfoView>>,
) -> (res: Option<usize>)
    requires
        j < mods@.len(),
        base.len() == mods@.len(),
        forall|i: int|
            0 <= i < base.len() ==> (#[trigger] module_views(mods@)[i]).slug == base[i].slug
                && module_views(mods@)[i].path == base[i].path,
    ensures
        match res {
            Some(i) => parent_index(base, base[j as int].path) == i && i < mods@.len(),
            None => !(0 <= parent_index(base, base[j as int].path) < mods@.len()),
        },
{
    let r = find_parent(mods, mods[j].path.as_str());
    proof {
        assert(module_views(mods@)[j as int].path == base[j as int].path);
        lemma_parent_same(module_views(mods@), base, base[j as int].path);
    }
    r
}

proof fn lemma_slug_index_same(
    a: Seq<ModuleInfoView>,
    b: Seq<ModuleInfoView>,
    slug: Seq<char>,
    from: int,
)
    requires
        a.len() == b.len(),
        forall|i: int| 0 <= i < a.len() ==> (#[trigger] a[i]).slug == b[i].slug,
    ensures
        slug_index(a, slug, from) == slug_index(b, slug, from),
    decreases a.len() - from,
{
    if 0 <= from < a.len() {
        assert(a[from].slug == b[from].slug);
        if a[from].slug != slug {
            lemma_slug_index_same(a, b, slug, from + 1);
        }
    }
}

proof fn lemma_parent_same(a: Seq<ModuleInfoView>, b: Seq<ModuleInfoView>, path: Seq<char>)
    requires
        a.len() == b.len(),
        forall|i: int| 0 <= i < a.len() ==> (#[trigger] a[i]).slug == b[i].slug,
    ensures
        parent_index(a, path) == parent_index(b, path),
    decreases path.len(),
{
    if path.len() > 0 {
        let up = dir_of(path);
        lemma_slug_index_same(a, b, module_slug(up), 0);
        if slug_index(a, module_slug(up), 0) < 0 && up.len() < path.len() {
            lemma_parent_same(a, b, up);
        }
    }
}

/// The depth to which modules nest where none is set.
pub const DEFAULT_MODULE_DEPTH: usize = 3;

/// The relative paths of the files.
pub fn relative_paths(files: &[FileEntry]) -> (res: Vec<String>)
    ensures
        strings_view(res@) == files@.map_values(|f: FileEntry| f.relative_path@),
{
    let mut out: Vec<String> = Vec::new();
    let ghost want = files@.map_values(|f: FileEntry| f.relative_path@);
    let mut i: usize = 0;
    while i < files.len()
        invariant
            i <= files@.len(),
            want == files@.map_values(|f: FileEntry| f.relative_path@),
            strings_view(out@) == want.take(i as int),
        decreases files@.len() - i,
    {
        let ghost prev = strings_view(out@);
        out.push(files[i].relative_path.clone());
        assert(strings_view(out@) =~= prev.push(files@[i as int].relative_path@));
        assert(want.take(i + 1) =~= want.take(i as int).push(want[i as int]));
        i += 1;
    }
    assert(want.take(files@.len() as int) =~= want);
    out
}

/// The modules of the scanned files, nesting to at most `max_depth`
/// directories (0: to any depth): no two modules have one slug, and each
/// file lies in exactly the module of its directory.
pub fn detect_modules_with_depth(files: &[FileEntry], max_depth: usize) -> (res: Vec<ModuleInfo>)
    ensures
        module_views(res@) == modules_of(
            files@.map_values(|f: FileEntry| f.relative_path@),
            max_depth,
        ),
        is_partition(module_views(res@), max_depth),
        forall|k: int|
            0 <= k < files@.len() ==> holds_file(
                module_views(res@),
                (#[trigger] files@[k]).relative_path@,
            ),
        res@.len() >= 1,
{
    let paths = relative_paths(files);
    let ghost want = files@.map_values(|f: FileEntry| f.relative_path@);
    let res = modules_from_paths(&paths, max_depth);
    proof {
        assert forall|k: int| 0 <= k < files@.len() implies holds_file(
            module_views(res@),
            (#[trigger] files@[k]).relative_path@,
        ) by {
            assert(want[k] == files@[k].relative_path@);
            assert(strings_view(paths@)[k] == paths@[k]@);
        }
    }
    res
}

/// The modules of the scanned files, nesting to at most three directories.
pub fn detect_modules(files: &[FileEntry]) -> (res: Vec<ModuleInfo>)
    ensures
        module_views(res@) == modules_of(
            files@.map_values(|f: FileEntry| f.relative_path@),
            DEFAULT_MODULE_DEPTH,
        ),
        is_partition(module_views(res@), DEFAULT_MODULE_DEPTH),
        forall|k: int|
            0 <= k < files@.len() ==> holds_file(
                module_views(res@),
                (#[trigger] files@[k]).relative_path@,
            ),
{
    detect_modules_with_depth(files, DEFAULT_MODULE_DEPTH)
}

} // verus!
