//! The rules by which the files of the decisions workspace are taken in:
//! a directory walk whose entries are judged one at a time, accumulating the
//! model files to load (in path order) and the diagnostics that refuse the
//! workspace.

use vstd::prelude::*;
use crate::diagnostics::{push_diagnostic, Diagnostic, RegistryLoadError};
use crate::order::path_sorts_before;
use crate::paths::PathComponent;

verus! {

/// What a directory entry turned out to be.
pub enum EntryKind {
    /// The entry could not be read from its directory.
    Unreadable,
    /// The entry's metadata could not be read.
    MetadataUnreadable,
    /// A symbolic link (never followed).
    Symlink,
    /// A directory.
    Directory,
    /// A regular file of `len` bytes.
    File { len: u64 },
    /// Anything else.
    Other,
}

/// A directory entry: its full path, its file name's bytes and its kind.
pub struct ScanEntry {
    pub path: Vec<PathComponent>,
    pub file_name: Vec<u8>,
    pub kind: EntryKind,
}

/// The bytes of `.json`.
pub open spec fn dot_json() -> Seq<u8> {
    seq![46u8, 106, 115, 111, 110]
}

/// A file name whose extension (the part after its last `.`, when a
/// non-empty stem comes before that dot) is `json`.
pub open spec fn has_json_extension(name: Seq<u8>) -> bool {
    name.len() > 5 && name.skip(name.len() - 5) == dot_json()
}

/// The refusal of a directory entry that cannot be read.
pub open spec fn code_entry_unreadable() -> Seq<char> {
    "directory_entry_unreadable"@
}

/// The refusal of an entry whose metadata cannot be read.
pub open spec fn code_metadata_unreadable() -> Seq<char> {
    "model_metadata_unreadable"@
}

/// The refusal of a symbolic link.
pub open spec fn code_symlink() -> Seq<char> {
    "symlink_not_allowed"@
}

/// The refusal of anything but a directory or a `.json` file.
pub open spec fn code_unsupported() -> Seq<char> {
    "unsupported_file_type"@
}

/// The refusal of a model file above the per-model limit.
pub open spec fn code_too_large() -> Seq<char> {
    "model_too_large"@
}

/// The refusal of model files above the total limit.
pub open spec fn code_registry_too_large() -> Seq<char> {
    "registry_too_large"@
}

/// The refusal of more model files than the model limit.
pub open spec fn code_too_many_models() -> Seq<char> {
    "too_many_models"@
}

/// `v` in order: no element sorts before an earlier one.
pub open spec fn paths_sorted(v: Seq<Seq<crate::paths::ComponentView>>) -> bool {
    forall|i: int, j: int| 0 <= i < j < v.len() ==> !crate::order::path_less(#[trigger] v[j], #[trigger] v[i])
}

/// The views of a sequence of paths.
pub open spec fn paths_view(v: Seq<Vec<PathComponent>>) -> Seq<Seq<crate::paths::ComponentView>> {
    Seq::new(v.len(), |i: int| crate::paths::path_view(v[i]@))
}

/// A walk of the decisions workspace in progress.
pub struct DecisionScan {
    pending: Vec<Vec<PathComponent>>,
    paths: Vec<Vec<PathComponent>>,
    found: Ghost<Seq<Seq<crate::paths::ComponentView>>>,
    diagnostics: Vec<Diagnostic>,
    total_bytes: u64,
    max_model_bytes: u64,
    max_total_model_bytes: u64,
    max_models: usize,
}

impl DecisionScan {
    /// The accepted paths are in path order and are those found, and at
    /// most `MAX_DIAGNOSTICS` diagnostics are held.
    pub closed spec fn well_formed(&self) -> bool {
        &&& paths_sorted(paths_view(self.paths@))
        &&& crate::diagnostics::diagnostics_view(self.diagnostics@).len() <= crate::diagnostics::MAX_DIAGNOSTICS
        &&& paths_view(self.paths@).to_multiset() == self.found@.to_multiset()
        &&& self.paths@.len() == self.found@.len()
    }

    /// The directories still to read, the last one next.
    pub closed spec fn pending(&self) -> Seq<Seq<crate::paths::ComponentView>> {
        paths_view(self.pending@)
    }

    /// The model files accepted so far, in the order they were found.
    pub closed spec fn found(&self) -> Seq<Seq<crate::paths::ComponentView>> {
        self.found@
    }

    /// The diagnostics recorded so far.
    pub closed spec fn diags(&self) -> Seq<crate::diagnostics::DiagnosticView> {
        crate::diagnostics::diagnostics_view(self.diagnostics@)
    }

    /// The bytes of the model files counted so far (saturating).
    pub closed spec fn total(&self) -> u64 {
        self.total_bytes
    }

    /// The per-model byte limit.
    pub closed spec fn model_limit(&self) -> u64 {
        self.max_model_bytes
    }

    /// The total byte limit.
    pub closed spec fn total_limit(&self) -> u64 {
        self.max_total_model_bytes
    }

    /// The model count limit.
    pub closed spec fn count_limit(&self) -> usize {
        self.max_models
    }

    /// A walk that starts at the decisions directory `root`.
    pub fn new(root: Vec<PathComponent>, max_model_bytes: u64, max_total_model_bytes: u64, max_models: usize) -> (r:
        DecisionScan)
        ensures
            r.well_formed(),
            r.pending() == seq![crate::paths::path_view(root@)],
            r.found() == Seq::<Seq<crate::paths::ComponentView>>::empty(),
            r.diags() == Seq::<crate::diagnostics::DiagnosticView>::empty(),
            r.total() == 0,
            r.model_limit() == max_model_bytes,
            r.total_limit() == max_total_model_bytes,
            r.count_limit() == max_models,
    {
        let ghost root_view = crate::paths::path_view(root@);
        let mut pending: Vec<Vec<PathComponent>> = Vec::new();
        pending.push(root);
        let r = DecisionScan {
            pending,
            paths: Vec::new(),
            found: Ghost(Seq::empty()),
            diagnostics: Vec::new(),
            total_bytes: 0,
            max_model_bytes,
            max_total_model_bytes,
            max_models,
        };
        assert(paths_view(r.pending@) =~= seq![root_view]);
        assert(paths_view(r.paths@) =~= Seq::empty());
        assert(crate::diagnostics::diagnostics_view(r.diagnostics@) =~= Seq::empty());
        r
    }

    /// The next directory to read, taken off the walk (the most recently
    /// found first), or `None` when the walk is done.
    pub fn next_directory(&mut self) -> (r: Option<Vec<PathComponent>>)
        requires
            old(self).well_formed(),
        ensures
            final(self).well_formed(),
            final(self).found() == old(self).found(),
            final(self).diags() == old(self).diags(),
            final(self).total() == old(self).total(),
            final(self).model_limit() == old(self).model_limit(),
            final(self).total_limit() == old(self).total_limit(),
            final(self).count_limit() == old(self).count_limit(),
            old(self).pending().len() == 0 ==> r is None && final(self).pending() == old(self).pending(),
            old(self).pending().len() > 0 ==> (r matches Some(d) && crate::paths::path_view(d@) == old(
                self,
            ).pending().last() && final(self).pending() == old(self).pending().drop_last()),
    {
        let r = self.pending.pop();
        proof {
            if r is Some {
                assert(paths_view(self.pending@) =~= paths_view(old(self).pending@).drop_last());
            }
        }
        r
    }

    /// Takes in one entry of a directory being read. An unreadable entry,
    /// unreadable metadata, a symbolic link and anything but a directory or
    /// a regular file each record a diagnostic; a directory is added to the
    /// walk; a regular file (`.gitkeep` too) must have the `json` extension, must fit the per-model limit, and is counted
    /// (saturating) toward the total limit; a file that fits is accepted,
    /// and accepting more files than the model limit records
    /// `too_many_models`.
    pub fn observe(&mut self, entry: ScanEntry)
        requires
            old(self).well_formed(),
        ensures
            final(self).well_formed(),
            final(self).model_limit() == old(self).model_limit(),
            final(self).total_limit() == old(self).total_limit(),
            final(self).count_limit() == old(self).count_limit(),
            spec_observe(
                old(self).pending(),
                old(self).found(),
                old(self).diags(),
                old(self).total(),
                old(self).model_limit(),
                old(self).total_limit(),
                old(self).count_limit(),
                crate::paths::path_view(entry.path@),
                entry.file_name@,
                entry.kind,
            ) == (final(self).pending(), final(self).found(), final(self).diags(), final(self).total()),
    {
        let ghost path_view = crate::paths::path_view(entry.path@);
        match entry.kind {
            EntryKind::Unreadable => {
                push_diagnostic(&mut self.diagnostics, None, "directory_entry_unreadable");
            },
            EntryKind::MetadataUnreadable => {
                push_diagnostic(&mut self.diagnostics, None, "model_metadata_unreadable");
            },
            EntryKind::Symlink => {
                push_diagnostic(&mut self.diagnostics, None, "symlink_not_allowed");
            },
            EntryKind::Directory => {
                let ghost before = paths_view(self.pending@);
                self.pending.push(entry.path);
                assert(paths_view(self.pending@) =~= before.push(path_view));
            },
            EntryKind::Other => {
                push_diagnostic(&mut self.diagnostics, None, "unsupported_file_type");
            },
            EntryKind::File { len } => {
                if !json_extension(&entry.file_name) {
                    push_diagnostic(&mut self.diagnostics, None, "unsupported_file_type");
                } else if len > self.max_model_bytes {
                    push_diagnostic(&mut self.diagnostics, None, "model_too_large");
                } else {
                    self.total_bytes = self.total_bytes.saturating_add(len);
                    if self.total_bytes > self.max_total_model_bytes {
                        push_diagnostic(&mut self.diagnostics, None, "registry_too_large");
                    } else {
                        self.accept_path(entry.path);
                        if self.paths.len() > self.max_models {
                            push_diagnostic(&mut self.diagnostics, None, "too_many_models");
                        }
                    }
                }
            },
        }
    }

    /// Adds an accepted path, in path order.
    fn accept_path(&mut self, path: Vec<PathComponent>)
        requires
            old(self).well_formed(),
        ensures
            final(self).well_formed(),
            final(self).found() == old(self).found().push(crate::paths::path_view(path@)),
            final(self).paths@.len() == old(self).paths@.len() + 1,
            final(self).pending() == old(self).pending(),
            final(self).diagnostics == old(self).diagnostics,
            final(self).total_bytes == old(self).total_bytes,
            final(self).max_model_bytes == old(self).max_model_bytes,
            final(self).max_total_model_bytes == old(self).max_total_model_bytes,
            final(self).max_models == old(self).max_models,
    {
        let ghost x = crate::paths::path_view(path@);
        let ghost old_views = paths_view(self.paths@);
        let p = insertion_place(&self.paths, &path);
        self.paths.insert(p, path);
        let ghost new_views = paths_view(self.paths@);
        assert(new_views =~= old_views.insert(p as int, x));
        proof {
            assert forall|i: int, j: int| 0 <= i < j < new_views.len() implies !crate::order::path_less(
                #[trigger] new_views[j],
                #[trigger] new_views[i],
            ) by {
                if j < p {
                    assert(!crate::order::path_less(old_views[j], old_views[i]));
                } else if j == p {
                    assert(!crate::order::path_less(x, old_views[i]));
                } else if i < p {
                    assert(!crate::order::path_less(old_views[j - 1], old_views[i]));
                } else if i == p {
                    crate::order::lemma_path_less_asymmetric(x, old_views[p as int]);
                    if j - 1 > p {
                        if crate::order::path_less(old_views[j - 1], x) {
                            crate::order::lemma_path_less_transitive(old_views[j - 1], x, old_views[p as int]);
                            assert(!crate::order::path_less(old_views[j - 1], old_views[p as int]));
                        }
                    }
                } else {
                    assert(!crate::order::path_less(old_views[j - 1], old_views[i - 1]));
                }
            }
            lemma_insert_multiset(old_views, p as int, x);
            broadcast use vstd::seq_lib::group_to_multiset_ensures;

        }
        self.found = Ghost(self.found@.push(x));
    }

    /// Ends the walk: the accepted model files in path order, or the
    /// diagnostics that refuse the workspace.
    pub fn finish(self) -> (r: Result<Vec<Vec<PathComponent>>, RegistryLoadError>)
        requires
            self.well_formed(),
        ensures
            r is Ok <==> self.diags().len() == 0,
            r matches Ok(v) ==> paths_sorted(paths_view(v@)) && paths_view(v@).to_multiset()
                == self.found().to_multiset(),
            r matches Err(e) ==> crate::diagnostics::diagnostics_view(e.diagnostics@) == self.diags(),
            r matches Err(e) ==> e.diagnostics@.len() <= crate::diagnostics::MAX_DIAGNOSTICS,
    {
        if self.diagnostics.len() > 0 {
            Err(RegistryLoadError { diagnostics: self.diagnostics })
        } else {
            Ok(self.paths)
        }
    }

    /// Ends the walk when a directory cannot be read: the workspace is
    /// refused with that one diagnostic, whatever was recorded before.
    pub fn directory_unreadable(self) -> (r: RegistryLoadError)
        ensures
            crate::diagnostics::diagnostics_view(r.diagnostics@) == seq![
                crate::diagnostics::DiagnosticView {
                    decision_id: None,
                    code: "decisions_directory_unreadable"@,
                },
            ],
    {
        RegistryLoadError::one("decisions_directory_unreadable")
    }
}

/// Inserting into a sequence adds one to the multiset of its elements.
proof fn lemma_insert_multiset<A>(s: Seq<A>, p: int, x: A)
    requires
        0 <= p <= s.len(),
    ensures
        s.insert(p, x).to_multiset() =~= s.to_multiset().insert(x),
{
    broadcast use vstd::seq_lib::group_to_multiset_ensures;
    broadcast use vstd::multiset::group_multiset_axioms;

    let t = s.insert(p, x);
    assert(t.remove(p) =~= s);
    assert(t[p] == x);
    assert(t.to_multiset().count(x) > 0) by {
        assert(t.contains(x));
    }
}

/// The walk after one entry (see `DecisionScan::observe`): the pending
/// directories, the accepted files, the diagnostics and the byte total.
pub open spec fn spec_observe(
    pending: Seq<Seq<crate::paths::ComponentView>>,
    found: Seq<Seq<crate::paths::ComponentView>>,
    diags: Seq<crate::diagnostics::DiagnosticView>,
    total: u64,
    model_limit: u64,
    total_limit: u64,
    count_limit: usize,
    path: Seq<crate::paths::ComponentView>,
    file_name: Seq<u8>,
    kind: EntryKind,
) -> (Seq<Seq<crate::paths::ComponentView>>, Seq<Seq<crate::paths::ComponentView>>, Seq<
    crate::diagnostics::DiagnosticView,
>, u64) {
    match kind {
        EntryKind::Unreadable => (pending, found, crate::diagnostics::spec_push_diagnostic(diags, None, code_entry_unreadable()), total),
        EntryKind::MetadataUnreadable => (pending, found, crate::diagnostics::spec_push_diagnostic(diags, None, code_metadata_unreadable()), total),
        EntryKind::Symlink => (pending, found, crate::diagnostics::spec_push_diagnostic(diags, None, code_symlink()), total),
        EntryKind::Directory => (pending.push(path), found, diags, total),
        EntryKind::Other => (pending, found, crate::diagnostics::spec_push_diagnostic(diags, None, code_unsupported()), total),
        EntryKind::File { len } => if !has_json_extension(file_name) {
            (pending, found, crate::diagnostics::spec_push_diagnostic(diags, None, code_unsupported()), total)
        } else if len > model_limit {
            (pending, found, crate::diagnostics::spec_push_diagnostic(diags, None, code_too_large()), total)
        } else {
            let t = if total + len > u64::MAX {
                u64::MAX
            } else {
                (total + len) as u64
            };
            if t > total_limit {
                (pending, found, crate::diagnostics::spec_push_diagnostic(diags, None, code_registry_too_large()), t)
            } else if found.len() + 1 > count_limit {
                (pending, found.push(path), crate::diagnostics::spec_push_diagnostic(diags, None, code_too_many_models()), t)
            } else {
                (pending, found.push(path), diags, t)
            }
        },
    }
}

/// Where `path` goes in the ordered `paths`: after every path that it does
/// not sort before, before the first one it sorts before.
fn insertion_place(paths: &Vec<Vec<PathComponent>>, path: &Vec<PathComponent>) -> (p: usize)
    ensures
        p <= paths@.len(),
        forall|j: int| 0 <= j < p ==> !crate::order::path_less(
            crate::paths::path_view(path@),
            #[trigger] paths_view(paths@)[j],
        ),
        p < paths@.len() ==> crate::order::path_less(
            crate::paths::path_view(path@),
            paths_view(paths@)[p as int],
        ),
{
    let mut p: usize = 0;
    while p < paths.len()
        invariant
            p <= paths@.len(),
            forall|j: int| 0 <= j < p ==> !crate::order::path_less(
                crate::paths::path_view(path@),
                #[trigger] paths_view(paths@)[j],
            ),
        decreases paths@.len() - p,
    {
        assert(paths_view(paths@)[p as int] == crate::paths::path_view(paths@[p as int]@));
        if path_sorts_before(path, &paths[p]) {
            return p;
        }
        p = p + 1;
    }
    p
}

/// Whether a file name has the `json` extension.
fn json_extension(name: &Vec<u8>) -> (r: bool)
    ensures
        r == has_json_extension(name@),
{
    let n = name.len();
    if n <= 5 {
        return false;
    }
    let r = name[n - 5] == 46 && name[n - 4] == 106 && name[n - 3] == 115 && name[n - 2] == 111
        && name[n - 1] == 110;
    proof {
        let tail = name@.skip(n - 5);
        if r {
            assert(tail =~= dot_json());
        } else if tail == dot_json() {
            assert(tail[0] == name@[n - 5]);
            assert(tail[1] == name@[n - 4]);
            assert(tail[2] == name@[n - 3]);
            assert(tail[3] == name@[n - 2]);
            assert(tail[4] == name@[n - 1]);
        }
    }
    r
}

/// One observed directory entry: its path, its file name and its kind.
pub type ObservedEntry = (Seq<crate::paths::ComponentView>, Seq<u8>, EntryKind);

/// The walk after observing `entries` in turn (see `spec_observe`), from the
/// given pending directories, accepted files, diagnostics and byte total.
pub open spec fn spec_walk(
    pending: Seq<Seq<crate::paths::ComponentView>>,
    found: Seq<Seq<crate::paths::ComponentView>>,
    diags: Seq<crate::diagnostics::DiagnosticView>,
    total: u64,
    model_limit: u64,
    total_limit: u64,
    count_limit: usize,
    entries: Seq<ObservedEntry>,
) -> (Seq<Seq<crate::paths::ComponentView>>, Seq<Seq<crate::paths::ComponentView>>, Seq<
    crate::diagnostics::DiagnosticView,
>, u64)
    decreases entries.len(),
{
    if entries.len() == 0 {
        (pending, found, diags, total)
    } else {
        let o = spec_observe(
            pending,
            found,
            diags,
            total,
            model_limit,
            total_limit,
            count_limit,
            entries[0].0,
            entries[0].1,
            entries[0].2,
        );
        spec_walk(o.0, o.1, o.2, o.3, model_limit, total_limit, count_limit, entries.skip(1))
    }
}

/// An entry that a clean workspace may hold: a directory, or a regular file
/// with the `json` extension within the per-model limit. Symbolic links, unreadable entries and anything else may not.
pub open spec fn admissible(name: Seq<u8>, kind: EntryKind, model_limit: u64) -> bool {
    match kind {
        EntryKind::Directory => true,
        EntryKind::File { len } => has_json_extension(name) && len <= model_limit,
        _ => false,
    }
}

/// The paths of the model files among `entries`: every regular file, in the
/// order observed.
pub open spec fn model_files(entries: Seq<ObservedEntry>) -> Seq<Seq<crate::paths::ComponentView>>
    decreases entries.len(),
{
    if entries.len() == 0 {
        Seq::empty()
    } else if entries[0].2 is File {
        seq![entries[0].0] + model_files(entries.skip(1))
    } else {
        model_files(entries.skip(1))
    }
}

/// Observing entries never removes a diagnostic.
proof fn lemma_walk_keeps_diagnostics(
    pending: Seq<Seq<crate::paths::ComponentView>>,
    found: Seq<Seq<crate::paths::ComponentView>>,
    diags: Seq<crate::diagnostics::DiagnosticView>,
    total: u64,
    model_limit: u64,
    total_limit: u64,
    count_limit: usize,
    entries: Seq<ObservedEntry>,
)
    ensures
        spec_walk(pending, found, diags, total, model_limit, total_limit, count_limit, entries).2.len()
            >= diags.len(),
    decreases entries.len(),
{
    if entries.len() > 0 {
        let o = spec_observe(
            pending,
            found,
            diags,
            total,
            model_limit,
            total_limit,
            count_limit,
            entries[0].0,
            entries[0].1,
            entries[0].2,
        );
        lemma_walk_keeps_diagnostics(
            o.0,
            o.1,
            o.2,
            o.3,
            model_limit,
            total_limit,
            count_limit,
            entries.skip(1),
        );
    }
}

/// A walk that ends without diagnostics observed only admissible entries:
/// no symbolic link, no unreadable entry, no file but `.json` files within
/// the per-model limit. It accepted exactly the model files
/// observed, in order; their byte total stays within the total limit and
/// their number within the model limit. So a workspace whose scan `finish`es
/// with `Ok` holds nothing else.
pub proof fn lemma_clean_walk_admits_only_models(
    pending: Seq<Seq<crate::paths::ComponentView>>,
    found: Seq<Seq<crate::paths::ComponentView>>,
    diags: Seq<crate::diagnostics::DiagnosticView>,
    total: u64,
    model_limit: u64,
    total_limit: u64,
    count_limit: usize,
    entries: Seq<ObservedEntry>,
)
    requires
        total <= total_limit,
        found.len() <= count_limit,
    ensures
        ({
            let w = spec_walk(
                pending,
                found,
                diags,
                total,
                model_limit,
                total_limit,
                count_limit,
                entries,
            );
            w.2.len() == 0 ==> {
                &&& diags.len() == 0
                &&& forall|i: int|
                    0 <= i < entries.len() ==> admissible(
                        #[trigger] entries[i].1,
                        entries[i].2,
                        model_limit,
                    )
                &&& w.1 == found + model_files(entries)
                &&& w.3 <= total_limit
                &&& w.1.len() <= count_limit
            }
        }),
    decreases entries.len(),
{
    let w = spec_walk(pending, found, diags, total, model_limit, total_limit, count_limit, entries);
    if entries.len() == 0 {
        assert(found + model_files(entries) =~= found);
    } else {
        let o = spec_observe(
            pending,
            found,
            diags,
            total,
            model_limit,
            total_limit,
            count_limit,
            entries[0].0,
            entries[0].1,
            entries[0].2,
        );
        lemma_walk_keeps_diagnostics(
            o.0,
            o.1,
            o.2,
            o.3,
            model_limit,
            total_limit,
            count_limit,
            entries.skip(1),
        );
        if w.2.len() == 0 {
            assert(o.2.len() == 0);
            assert(diags.len() == 0);
            assert(admissible(entries[0].1, entries[0].2, model_limit));
            lemma_clean_walk_admits_only_models(
                o.0,
                o.1,
                o.2,
                o.3,
                model_limit,
                total_limit,
                count_limit,
                entries.skip(1),
            );
            assert forall|i: int| 0 <= i < entries.len() implies admissible(
                #[trigger] entries[i].1,
                entries[i].2,
                model_limit,
            ) by {
                if i > 0 {
                    assert(entries[i] == entries.skip(1)[i - 1]);
                }
            }
            if entries[0].2 is File {
                assert(o.1 == found.push(entries[0].0));
                assert(found + model_files(entries) =~= o.1 + model_files(entries.skip(1)));
            } else {
                assert(o.1 == found);
            }
        }
    }
}

/// A regular file named by a non-empty stem (which may hold dots, as in
/// `v1.2.json`) followed by `.json`, within the per-model limit, the total
/// limit and the model limit, is accepted: it joins the accepted files, its
/// bytes count toward the total, and no diagnostic is recorded.
pub proof fn lemma_json_files_within_limits_are_accepted(
    pending: Seq<Seq<crate::paths::ComponentView>>,
    found: Seq<Seq<crate::paths::ComponentView>>,
    diags: Seq<crate::diagnostics::DiagnosticView>,
    total: u64,
    model_limit: u64,
    total_limit: u64,
    count_limit: usize,
    path: Seq<crate::paths::ComponentView>,
    stem: Seq<u8>,
    len: u64,
)
    requires
        stem.len() > 0,
        len <= model_limit,
        total + len <= total_limit,
        found.len() + 1 <= count_limit,
    ensures
        spec_observe(
            pending,
            found,
            diags,
            total,
            model_limit,
            total_limit,
            count_limit,
            path,
            stem + seq![46u8, 106, 115, 111, 110],
            EntryKind::File { len },
        ) == (pending, found.push(path), diags, (total + len) as u64),
{
    let name = stem + seq![46u8, 106, 115, 111, 110];
    assert(name.skip(name.len() - 5) =~= dot_json());
    assert(has_json_extension(name));
}

} // verus!
