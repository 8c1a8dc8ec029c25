//! The manifest: for each module a fingerprint of its files, by which a
//! later run tells whether the module changed.

use crate::strmap::{distinct_keys, has_key, kept, lemma_put, lookup, put, StrMap};
use vstd::prelude::*;
use vstd::utf8::encode_utf8;

verus! {

/// The fingerprint of a module: when its newest file was changed, how many
/// files it has, and a hash of their paths.
#[derive(Debug, Clone, Copy, PartialEq, Eq, Structural)]
pub struct ModuleState {
    /// The latest modification time of a file of the module, in seconds
    /// since the epoch; 0 where none is known.
    pub latest_mtime: u64,
    /// The number of files of the module.
    pub file_count: usize,
    /// A hash of the paths of the files that does not depend on their order.
    pub files_hash: u64,
}

/// A file of a module as the fingerprint sees it: its path and, where it
/// could be read, its modification time.
pub struct FileStamp {
    pub relative_path: String,
    pub mtime: Option<u64>,
}

/// The content of a [`FileStamp`].
pub struct FileStampView {
    pub relative_path: Seq<char>,
    pub mtime: Option<u64>,
}

impl View for FileStamp {
    type V = FileStampView;

    open spec fn view(&self) -> FileStampView {
        FileStampView { relative_path: self.relative_path@, mtime: self.mtime }
    }
}

/// The contents of a sequence of stamps.
pub open spec fn stamp_views(s: Seq<FileStamp>) -> Seq<FileStampView> {
    s.map_values(|f: FileStamp| f@)
}

/// The offset basis of the 64-bit FNV-1a hash.
pub const FNV_OFFSET: u64 = 0xcbf29ce484222325;

/// The prime of the 64-bit FNV-1a hash.
pub const FNV_PRIME: u64 = 0x100000001b3;

/// The FNV-1a hash of the first `n` bytes of `bytes`.
pub open spec fn fnv1a(bytes: Seq<u8>, n: int) -> u64
    decreases n,
{
    if n <= 0 {
        FNV_OFFSET
    } else {
        (fnv1a(bytes, n - 1) ^ (bytes[n - 1] as u64)).wrapping_mul(FNV_PRIME)
    }
}

/// The hash of a path: the FNV-1a hash of its UTF-8 bytes.
pub open spec fn path_hash(path: Seq<char>) -> u64 {
    fnv1a(encode_utf8(path), encode_utf8(path).len() as int)
}

/// The hash of a path.
pub fn hash_path(path: &str) -> (res: u64)
    ensures
        res == path_hash(path@),
{
    let bytes = path.as_bytes();
    let mut h: u64 = FNV_OFFSET;
    let mut i: usize = 0;
    while i < bytes.len()
        invariant
            i <= bytes@.len(),
            h == fnv1a(bytes@, i as int),
        decreases bytes@.len() - i,
    {
        h = (h ^ (bytes[i] as u64)).wrapping_mul(FNV_PRIME);
        i += 1;
    }
    h
}

/// `state` with one more file taken in: the later time stays, the count
/// grows by one, and the hash of the path is added to the hash, wrapping
/// round.
pub open spec fn with_file(state: ModuleState, file: FileStampView) -> ModuleState {
    ModuleState {
        latest_mtime: match file.mtime {
            Some(t) => if t > state.latest_mtime {
                t
            } else {
                state.latest_mtime
            },
            None => state.latest_mtime,
        },
        file_count: if state.file_count < usize::MAX {
            (state.file_count + 1) as usize
        } else {
            state.file_count
        },
        files_hash: state.files_hash.wrapping_add(path_hash(file.relative_path)),
    }
}

/// The fingerprint of a module with the given files.
pub open spec fn module_state(files: Seq<FileStampView>) -> ModuleState
    decreases files.len(),
{
    if files.len() == 0 {
        ModuleState { latest_mtime: 0, file_count: 0, files_hash: 0 }
    } else {
        with_file(module_state(files.drop_last()), files.last())
    }
}

/// Taking in two files in either order gives the same state.
pub proof fn lemma_with_file_commutes(state: ModuleState, a: FileStampView, b: FileStampView)
    ensures
        with_file(with_file(state, a), b) == with_file(with_file(state, b), a),
{
}

/// The fingerprint is that of the files without one of them, with that one
/// taken in last.
pub proof fn lemma_state_remove(files: Seq<FileStampView>, i: int)
    requires
        0 <= i < files.len(),
    ensures
        module_state(files) == with_file(module_state(files.remove(i)), files[i]),
    decreases files.len(),
{
    let n = files.len();
    if i == n - 1 {
        assert(files.remove(i) =~= files.drop_last());
    } else {
        let init = files.drop_last();
        lemma_state_remove(init, i);
        assert(init[i] == files[i]);
        let shorter = files.remove(i);
        assert(shorter.drop_last() =~= init.remove(i));
        assert(shorter.last() == files.last());
        lemma_with_file_commutes(module_state(init.remove(i)), files[i], files.last());
    }
}

/// The fingerprint does not depend on the order of the files: two lists that
/// hold the same files, each as often as the other, have the same
/// fingerprint.
pub proof fn lemma_state_order_independent(a: Seq<FileStampView>, b: Seq<FileStampView>)
    requires
        a.to_multiset() == b.to_multiset(),
    ensures
        module_state(a) == module_state(b),
    decreases a.len(),
{
    broadcast use vstd::seq_lib::group_to_multiset_ensures;

    a.to_multiset_ensures();
    b.to_multiset_ensures();
    assert(a.len() == b.len());
    if a.len() == 0 {
    } else {
        let x = a.last();
        assert(a.contains(x)) by {
            assert(a[a.len() - 1] == x);
        }
        assert(b.to_multiset().count(x) > 0);
        assert(b.contains(x));
        let j = choose|j: int| 0 <= j < b.len() && b[j] == x;
        assert(a.drop_last() =~= a.remove(a.len() - 1));
        vstd::seq_lib::to_multiset_remove(a, a.len() - 1);
        vstd::seq_lib::to_multiset_remove(b, j);
        lemma_state_order_independent(a.drop_last(), b.remove(j));
        lemma_state_remove(b, j);
    }
}

/// The fingerprint of a module with the given files: the latest of their
/// modification times, files without one aside; their number; and a hash of
/// their paths that does not depend on their order.
pub fn calculate_module_state(files: &[FileStamp]) -> (res: ModuleState)
    ensures
        res == module_state(stamp_views(files@)),
{
    let mut state = ModuleState { latest_mtime: 0, file_count: 0, files_hash: 0 };
    let ghost views = stamp_views(files@);
    let mut i: usize = 0;
    proof {
        assert(views.take(0) =~= Seq::<FileStampView>::empty());
    }
    while i < files.len()
        invariant
            i <= files@.len(),
            views == stamp_views(files@),
            state == module_state(views.take(i as int)),
        decreases files@.len() - i,
    {
        let file = &files[i];
        proof {
            let t = views.take(i + 1);
            assert(t.drop_last() =~= views.take(i as int));
            assert(t.last() == file@);
        }
        let latest_mtime = match file.mtime {
            Some(t) => if t > state.latest_mtime {
                t
            } else {
                state.latest_mtime
            },
            None => state.latest_mtime,
        };
        let file_count = if state.file_count < usize::MAX {
            state.file_count + 1
        } else {
            state.file_count
        };
        let files_hash = state.files_hash.wrapping_add(hash_path(file.relative_path.as_str()));
        state = ModuleState { latest_mtime, file_count, files_hash };
        i += 1;
    }
    proof {
        assert(views.take(files@.len() as int) =~= views);
    }
    state
}

/// A run's record: the version that made it, when, and the fingerprint of
/// each module by its slug.
pub struct Manifest {
    /// The version of the program that wrote the manifest.
    pub version: String,
    /// When the manifest was written, in seconds since the epoch.
    pub generated_at: u64,
    /// The fingerprint of each module, by its slug.
    pub modules: StrMap<ModuleState>,
}

/// Whether a module must be generated anew: no state is recorded for its
/// slug, or the recorded state differs from the current one.
pub open spec fn is_stale(
    recorded: Seq<(Seq<char>, ModuleState)>,
    slug: Seq<char>,
    current: ModuleState,
) -> bool {
    match lookup(recorded, slug) {
        None => true,
        Some(old) => old.latest_mtime != current.latest_mtime || old.file_count
            != current.file_count || old.files_hash != current.files_hash,
    }
}

/// A module that was never seen must be generated.
pub proof fn lemma_unseen_is_stale(
    recorded: Seq<(Seq<char>, ModuleState)>,
    slug: Seq<char>,
    current: ModuleState,
)
    requires
        !has_key(recorded, slug),
    ensures
        is_stale(recorded, slug, current),
{
}

/// Once a state is recorded for a module, the module is stale exactly for
/// the states that differ from it.
pub proof fn lemma_recorded_is_fresh(
    recorded: Seq<(Seq<char>, ModuleState)>,
    slug: Seq<char>,
    state: ModuleState,
    current: ModuleState,
)
    requires
        distinct_keys(recorded),
    ensures
        is_stale(put(recorded, slug, state), slug, current) == (current != state),
{
    lemma_put(recorded, slug, state);
}

/// A file changed later than all files of the module so far makes the
/// module's fingerprint differ, whatever else the module holds.
pub proof fn lemma_touch_changes_state(files: Seq<FileStampView>, i: int, later: u64)
    requires
        0 <= i < files.len(),
        later > module_state(files).latest_mtime,
    ensures
        module_state(
            files.update(
                i,
                FileStampView { relative_path: files[i].relative_path, mtime: Some(later) },
            ),
        ).latest_mtime == later,
        module_state(
            files.update(
                i,
                FileStampView { relative_path: files[i].relative_path, mtime: Some(later) },
            ),
        ) != module_state(files),
{
    let touched = FileStampView { relative_path: files[i].relative_path, mtime: Some(later) };
    let after = files.update(i, touched);
    lemma_state_remove(files, i);
    lemma_state_remove(after, i);
    assert(after.remove(i) =~= files.remove(i));
    let rest = module_state(files.remove(i));
    assert(module_state(files) == with_file(rest, files[i]));
    assert(module_state(after) == with_file(rest, touched));
    assert(rest.latest_mtime <= module_state(files).latest_mtime);
}

impl Manifest {
    /// The manifest of a first run: no version, no time, no module.
    pub fn new() -> (res: Self)
        ensures
            res.version@ == Seq::<char>::empty(),
            res.generated_at == 0,
            res.modules.pairs() == Seq::<(Seq<char>, ModuleState)>::empty(),
    {
        Manifest { version: String::new(), generated_at: 0, modules: StrMap::new() }
    }

    /// Whether the module `slug` must be generated anew, given its current
    /// state: it must where no state is recorded for it, and where the
    /// recorded state differs in the modification time, the number of files
    /// or the hash of the paths.
    pub fn needs_regeneration(&self, slug: &str, current_state: &ModuleState) -> (res: bool)
        ensures
            res == is_stale(self.modules.pairs(), slug@, *current_state),
    {
        match self.modules.get(slug) {
            None => true,
            Some(old_state) => old_state.latest_mtime != current_state.latest_mtime
                || old_state.file_count != current_state.file_count || old_state.files_hash
                != current_state.files_hash,
        }
    }

    /// Records `state` for the module `slug`.
    pub fn update_module(&mut self, slug: String, state: ModuleState)
        ensures
            final(self).modules.pairs() == put(old(self).modules.pairs(), slug@, state),
            final(self).modules@ == old(self).modules@.insert(slug@, state),
            final(self).modules.wf(),
            final(self).version == old(self).version,
            final(self).generated_at == old(self).generated_at,
            !is_stale(final(self).modules.pairs(), slug@, state),
    {
        let ghost before = self.modules.pairs();
        let _ = self.modules.len();
        self.modules.insert(slug, state);
        proof {
            lemma_put(before, slug@, state);
        }
    }

    /// Drops the record of each module whose slug is none of
    /// `current_slugs`.
    pub fn prune_modules(&mut self, current_slugs: &[String])
        ensures
            final(self).modules.pairs() == kept(
                old(self).modules.pairs(),
                current_slugs@.map_values(|s: String| s@),
            ),
            final(self).modules.wf(),
            final(self).version == old(self).version,
            final(self).generated_at == old(self).generated_at,
    {
        self.modules.retain_keys(current_slugs);
    }
}

impl Default for Manifest {
    fn default() -> (res: Self)
        ensures
            res.version@ == Seq::<char>::empty(),
            res.generated_at == 0,
            res.modules.pairs() == Seq::<(Seq<char>, ModuleState)>::empty(),
    {
        Manifest::new()
    }
}

} // verus!
