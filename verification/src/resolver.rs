//! The tree resolver: expands each mount into its virtual files and
//! concatenates them, in mount order, into the flattened tree.
//!
//! The resolver never touches the file system. What a walk of the file
//! system found at the path of a mount is handed to it as a `Scan`.

use vstd::prelude::*;
use crate::file_set::FileSetView;
use crate::mount_source::{MountSource, MountSourceView, MountView};
use crate::paths::strip_base;
use crate::seqs::views;
use crate::virtual_file::{
    create_virtual_file_from_dir_entry, mount_entry, Content, ContentView, DirEntry,
    DirEntryView, OutsideBase, OutsideBaseView, RelativeEntry, VirtualFile, VirtualFileView,
};

verus! {

/// What the file system holds at the path that a mount reads from.
#[derive(Clone, Debug, PartialEq, Eq)]
pub struct Scan {
    /// Whether the path is a directory.
    pub is_dir: bool,
    /// The entries that a recursive walk of the path found, the path
    /// itself among them, in the order of the walk.
    pub entries: Vec<DirEntry>,
}

/// What a scan is.
pub struct ScanView {
    pub is_dir: bool,
    pub entries: Seq<DirEntryView>,
}

impl View for Scan {
    type V = ScanView;

    open spec fn view(&self) -> ScanView {
        ScanView { is_dir: self.is_dir, entries: views(self.entries@) }
    }
}

impl ScanView {
    /// The scan of a path at which nothing was found.
    pub open spec fn missing() -> ScanView {
        ScanView { is_dir: false, entries: Seq::empty() }
    }
}

impl Scan {
    /// The scan of a path at which nothing was found: no directory, and
    /// no entries.
    pub fn missing() -> (scan: Scan)
        ensures
            scan@ == ScanView::missing(),
    {
        let scan = Scan { is_dir: false, entries: Vec::new() };
        assert(scan@.entries =~= Seq::empty());
        scan
    }
}

/// The virtual files of a tree, or the entry that kept them from being
/// resolved.
pub type Resolved = Result<Seq<VirtualFileView>, OutsideBaseView>;

/// The found entries with their paths relative to `base_dir`, in order, or
/// the first of them that does not lie below `base_dir`.
pub open spec fn relative(entries: Seq<DirEntryView>, base_dir: Seq<char>) -> Result<
    Seq<RelativeEntry>,
    OutsideBaseView,
>
    decreases entries.len(),
{
    if entries.len() == 0 {
        Ok(Seq::empty())
    } else {
        match relative(entries.drop_last(), base_dir) {
            Ok(before) => match entries.last().relative_to(base_dir) {
                Ok(last) => Ok(before.push(last)),
                Err(e) => Err(e),
            },
            Err(e) => Err(e),
        }
    }
}

/// The entries whose relative path the file set selects, in order.
pub open spec fn selected(entries: Seq<RelativeEntry>, set: FileSetView) -> Seq<RelativeEntry> {
    entries.filter(|entry: RelativeEntry| set.matches(entry.relative_path))
}

/// The virtual files that stand for found entries below `mount_point`, in
/// order.
pub open spec fn mounted(entries: Seq<RelativeEntry>, mount_point: Seq<char>) -> Seq<
    VirtualFileView,
> {
    Seq::new(entries.len(), |i: int| entries[i].mounted_at(mount_point))
}

impl MountSourceView {
    /// The path in the file system whose scan the source is resolved
    /// against, for the sources that read the file system.
    pub open spec fn scanned_path(self) -> Option<Seq<char>> {
        match self {
            MountSourceView::CopyFromPath(path) => Some(path),
            MountSourceView::FileSet(set) => Some(set.base_dir),
            _ => None,
        }
    }

    /// The virtual files that this one source expands into when it is
    /// mounted at `mount_point` and `scan` is what the file system holds at
    /// its path. The entries of a custom directory are no part of it: they
    /// are mounts of their own. A source that reads a directory tree fails
    /// on the first found entry that does not lie below its path.
    pub open spec fn resolved(self, mount_point: Seq<char>, scan: ScanView) -> Resolved {
        match self {
            MountSourceView::CopyFromPath(path) => if scan.is_dir {
                match relative(scan.entries, path) {
                    Ok(entries) => Ok(mounted(entries, mount_point)),
                    Err(e) => Err(e),
                }
            } else {
                Ok(seq![VirtualFileView::file(mount_point, ContentView::File(path))])
            },
            MountSourceView::CustomDir(_) => Ok(seq![VirtualFileView::dir(mount_point)]),
            MountSourceView::TextContent(text) => Ok(
                seq![VirtualFileView::file(mount_point, ContentView::Text(text))],
            ),
            MountSourceView::FileSet(set) => match relative(scan.entries, set.base_dir) {
                Ok(entries) => Ok(mounted(selected(entries, set), mount_point)),
                Err(e) => Err(e),
            },
        }
    }
}

/// The scan that belongs to the mount at position `i`: the one at that
/// position, or that of a path with nothing at it where none was handed in.
pub open spec fn scan_at(scans: Seq<ScanView>, i: int) -> ScanView {
    if 0 <= i < scans.len() {
        scans[i]
    } else {
        ScanView::missing()
    }
}

/// The scans from position `skipped` on.
pub open spec fn rest(scans: Seq<ScanView>, skipped: int) -> Seq<ScanView> {
    if 0 <= skipped <= scans.len() {
        scans.skip(skipped)
    } else {
        Seq::empty()
    }
}

/// The first virtual files followed by the second, or the failure of the
/// first, or else that of the second.
pub open spec fn followed_by(first: Resolved, second: Resolved) -> Resolved {
    match first {
        Ok(before) => match second {
            Ok(behind) => Ok(before + behind),
            Err(e) => Err(e),
        },
        Err(e) => Err(e),
    }
}

/// The flattened tree: the virtual files of each mount, resolved against
/// the scan at the mount's position, concatenated in mount order; or the
/// failure of the first mount that cannot be resolved.
pub open spec fn virtual_files(mounts: Seq<MountView>, scans: Seq<ScanView>) -> Resolved
    decreases mounts.len(),
{
    if mounts.len() == 0 {
        Ok(Seq::empty())
    } else {
        followed_by(
            virtual_files(mounts.drop_last(), scans),
            mounts.last().source.resolved(mounts.last().point, scan_at(scans, mounts.len() - 1)),
        )
    }
}

/// Flattening is done mount by mount: the flattening of two runs of mounts
/// in a row is the flattening of the first followed by that of the second,
/// each against its own scans.
pub proof fn lemma_virtual_files_concat(a: Seq<MountView>, b: Seq<MountView>, scans: Seq<ScanView>)
    ensures
        virtual_files(a + b, scans) == followed_by(
            virtual_files(a, scans),
            virtual_files(b, rest(scans, a.len() as int)),
        ),
    decreases b.len(),
{
    let behind = rest(scans, a.len() as int);
    if b.len() == 0 {
        assert(a + b =~= a);
        match virtual_files(a, scans) {
            Ok(files) => {
                assert(files + Seq::<VirtualFileView>::empty() =~= files);
            },
            Err(_) => {},
        }
    } else {
        lemma_virtual_files_concat(a, b.drop_last(), scans);
        assert((a + b).drop_last() =~= a + b.drop_last());
        assert((a + b).last() == b.last());
        assert(scan_at(scans, (a + b).len() - 1) == scan_at(behind, b.len() - 1));
        let last = b.last().source.resolved(b.last().point, scan_at(behind, b.len() - 1));
        match (virtual_files(a, scans), virtual_files(b.drop_last(), behind), last) {
            (Ok(x), Ok(y), Ok(z)) => {
                assert((x + y) + z =~= x + (y + z));
            },
            _ => {},
        }
    }
}

/// A failure among the first entries is the failure of them all.
proof fn lemma_relative_fails_early(entries: Seq<DirEntryView>, base_dir: Seq<char>, k: int)
    requires
        0 <= k <= entries.len(),
        relative(entries.take(k), base_dir) is Err,
    ensures
        relative(entries, base_dir) == relative(entries.take(k), base_dir),
    decreases entries.len() - k,
{
    if k == entries.len() {
        assert(entries.take(k) =~= entries);
    } else {
        assert(entries.take(k + 1).drop_last() =~= entries.take(k));
        lemma_relative_fails_early(entries, base_dir, k + 1);
    }
}

/// Selecting from a sequence with one more entry keeps that entry exactly
/// if the set matches its relative path.
proof fn lemma_selected_push(entries: Seq<RelativeEntry>, entry: RelativeEntry, set: FileSetView)
    ensures
        selected(entries.push(entry), set) == if set.matches(entry.relative_path) {
            selected(entries, set).push(entry)
        } else {
            selected(entries, set)
        },
{
    entries.lemma_filter_push(entry, |entry: RelativeEntry| set.matches(entry.relative_path));
}

/// A file set selects exactly the entries that it matches: nothing that
/// was not found, nothing whose relative path no pattern matches, and every
/// found entry whose relative path some pattern matches.
pub proof fn lemma_selected_are_the_matches(
    entries: Seq<RelativeEntry>,
    set: FileSetView,
    entry: RelativeEntry,
)
    ensures
        selected(entries, set).contains(entry) <==> entries.contains(entry) && set.matches(
            entry.relative_path,
        ),
{
    let pred = |entry: RelativeEntry| set.matches(entry.relative_path);
    if selected(entries, set).contains(entry) {
        entries.lemma_filter_contains_rev(pred, entry);
        let k = choose|k: int| 0 <= k < entries.filter(pred).len() && entries.filter(pred)[k] == entry;
        entries.lemma_filter_pred(pred, k);
    }
    if entries.contains(entry) && set.matches(entry.relative_path) {
        let i = choose|i: int| 0 <= i < entries.len() && entries[i] == entry;
        entries.lemma_filter_contains(pred, i);
    }
}

/// Mounting a sequence with one more entry adds the virtual file of that
/// entry at the end.
proof fn lemma_mounted_push(entries: Seq<RelativeEntry>, entry: RelativeEntry, mount_point: Seq<char>)
    ensures
        mounted(entries.push(entry), mount_point) == mounted(entries, mount_point).push(
            entry.mounted_at(mount_point),
        ),
{
    assert(mounted(entries.push(entry), mount_point) =~= mounted(entries, mount_point).push(
        entry.mounted_at(mount_point),
    ));
}

/// Whether what was computed is what the contract names: the same virtual
/// files, or the same failure.
pub open spec fn agrees(computed: Result<Vec<VirtualFile>, OutsideBase>, named: Resolved) -> bool {
    match computed {
        Ok(files) => named == Ok::<_, OutsideBaseView>(views(files@)),
        Err(e) => named == Err::<Seq<VirtualFileView>, _>(e@),
    }
}

impl MountSource {
    /// The path in the file system that has to be scanned before this
    /// source can be resolved, if it reads the file system at all.
    pub fn scanned_path(&self) -> (path: Option<&str>)
        ensures
            path.is_some() == self@.scanned_path().is_some(),
            path matches Some(p) ==> self@.scanned_path() == Some(p@),
    {
        match self {
            MountSource::CopyFromPath(path) => Some(path.as_str()),
            MountSource::FileSet(set) => Some(set.base_dir()),
            _ => None,
        }
    }

    /// Expands just this mount source, mounted at `mount_point`, into its
    /// virtual files, depending on its type.
    pub fn resolve_virtual_files(&self, mount_point: String, scan: &Scan) -> (files: Result<
        Vec<VirtualFile>,
        OutsideBase,
    >)
        ensures
            agrees(files, self@.resolved(mount_point@, scan@)),
    {
        let mut files: Vec<VirtualFile> = Vec::new();
        match self {
            MountSource::CopyFromPath(path) => {
                if scan.is_dir {
                    let ghost mut found: Seq<RelativeEntry> = Seq::empty();
                    let mut i: usize = 0;
                    assert(scan@.entries.take(0) =~= Seq::empty());
                    assert(views(files@) =~= mounted(found, mount_point@));
                    while i < scan.entries.len()
                        invariant
                            0 <= i <= scan.entries.len(),
                            scan.is_dir,
                            self@ == MountSourceView::CopyFromPath(path@),
                            relative(scan@.entries.take(i as int), path@) == Ok::<_, OutsideBaseView>(
                                found,
                            ),
                            views(files@) == mounted(found, mount_point@),
                        decreases scan.entries.len() - i,
                    {
                        let entry = &scan.entries[i];
                        proof {
                            assert(scan@.entries.take(i + 1).drop_last() =~= scan@.entries.take(
                                i as int,
                            ));
                            assert(scan@.entries.take(i + 1).last() == entry@);
                        }
                        match create_virtual_file_from_dir_entry(
                            entry,
                            mount_point.as_str(),
                            path.as_str(),
                        ) {
                            Ok(file) => {
                                let ghost before = files@;
                                files.push(file);
                                proof {
                                    let last = entry@.relative_to(path@)->Ok_0;
                                    assert(views(files@) =~= views(before).push(file@));
                                    lemma_mounted_push(found, last, mount_point@);
                                    found = found.push(last);
                                }
                            },
                            Err(e) => {
                                proof {
                                    assert(relative(scan@.entries.take(i + 1), path@) == Err::<
                                        Seq<RelativeEntry>,
                                        _,
                                    >(e@));
                                    lemma_relative_fails_early(scan@.entries, path@, i + 1);
                                }
                                return Err(e);
                            },
                        }
                        i += 1;
                    }
                    assert(scan@.entries.take(i as int) =~= scan@.entries);
                } else {
                    files.push(VirtualFile::file(mount_point, Content::File(path.clone())));
                    assert(views(files@) =~= seq![
                        VirtualFileView::file(mount_point@, ContentView::File(path@)),
                    ]);
                }
            },
            MountSource::CustomDir(_) => {
                files.push(VirtualFile::dir(mount_point));
                assert(views(files@) =~= seq![VirtualFileView::dir(mount_point@)]);
            },
            MountSource::TextContent(text) => {
                files.push(VirtualFile::file(mount_point, Content::Text(text.clone())));
                assert(views(files@) =~= seq![
                    VirtualFileView::file(mount_point@, ContentView::Text(text@)),
                ]);
            },
            MountSource::FileSet(set) => {
                let base_dir = set.base_dir();
                let ghost mut found: Seq<RelativeEntry> = Seq::empty();
                let mut i: usize = 0;
                assert(scan@.entries.take(0) =~= Seq::empty());
                assert(selected(found, set@) =~= Seq::empty()) by {
                    found.lemma_filter_len(|entry: RelativeEntry| set@.matches(entry.relative_path));
                }
                assert(views(files@) =~= mounted(selected(found, set@), mount_point@));
                while i < scan.entries.len()
                    invariant
                        0 <= i <= scan.entries.len(),
                        base_dir@ == set@.base_dir,
                        self@ == MountSourceView::FileSet(set@),
                        relative(scan@.entries.take(i as int), base_dir@) == Ok::<_, OutsideBaseView>(
                            found,
                        ),
                        views(files@) == mounted(selected(found, set@), mount_point@),
                    decreases scan.entries.len() - i,
                {
                    let entry = &scan.entries[i];
                    proof {
                        assert(scan@.entries.take(i + 1).drop_last() =~= scan@.entries.take(
                            i as int,
                        ));
                        assert(scan@.entries.take(i + 1).last() == entry@);
                    }
                    match strip_base(entry.path.as_str(), base_dir) {
                        Some(relative_path) => {
                            let ghost last = entry@.relative_to(base_dir@)->Ok_0;
                            proof {
                                lemma_selected_push(found, last, set@);
                            }
                            if set.matches(relative_path.as_str()) {
                                let file = mount_entry(
                                    entry,
                                    relative_path.as_str(),
                                    mount_point.as_str(),
                                );
                                let ghost before = files@;
                                files.push(file);
                                proof {
                                    assert(views(files@) =~= views(before).push(file@));
                                    lemma_mounted_push(selected(found, set@), last, mount_point@);
                                }
                            }
                            proof {
                                found = found.push(last);
                            }
                        },
                        None => {
                            let e = OutsideBase {
                                path: entry.path.clone(),
                                base_dir: base_dir.to_owned(),
                            };
                            proof {
                                assert(relative(scan@.entries.take(i + 1), base_dir@) == Err::<
                                    Seq<RelativeEntry>,
                                    _,
                                >(e@));
                                lemma_relative_fails_early(scan@.entries, base_dir@, i + 1);
                            }
                            return Err(e);
                        },
                    }
                    i += 1;
                }
                assert(scan@.entries.take(i as int) =~= scan@.entries);
            },
        }
        Ok(files)
    }

    /// Expands all mounts of the tree, depth-first and starting with this
    /// mount source mounted at the root, into concrete directories and
    /// files. The scan at position `i` of `scans` is that of the path of
    /// the mount at position `i` of `walk_mounts`. It fails with the
    /// failure of the first mount that cannot be resolved.
    pub fn walk_virtual_files(&self, scans: &Vec<Scan>) -> (files: Result<
        Vec<VirtualFile>,
        OutsideBase,
    >)
        ensures
            agrees(files, virtual_files(self@.mounts(Seq::empty()), views(scans@))),
    {
        let mounts = self.walk_mounts();
        let mut files: Vec<VirtualFile> = Vec::new();
        let nothing = Scan::missing();
        let mut i: usize = 0;
        assert(views(mounts@).take(0) =~= Seq::empty());
        assert(views(files@) =~= Seq::empty());
        while i < mounts.len()
            invariant
                0 <= i <= mounts.len(),
                nothing@ == ScanView::missing(),
                views(mounts@) == self@.mounts(Seq::empty()),
                virtual_files(views(mounts@).take(i as int), views(scans@)) == Ok::<
                    _,
                    OutsideBaseView,
                >(views(files@)),
            decreases mounts.len() - i,
        {
            let mount = &mounts[i];
            let scan = if i < scans.len() {
                &scans[i]
            } else {
                &nothing
            };
            proof {
                let walked = views(mounts@).take(i + 1);
                assert(walked.drop_last() =~= views(mounts@).take(i as int));
                assert(walked.last() == mount@);
                assert(scan@ == scan_at(views(scans@), i as int));
            }
            match mount.wish().resolve_virtual_files(mount.full_path().to_owned(), scan) {
                Ok(mut resolved) => {
                    let ghost before = files@;
                    let ghost added = resolved@;
                    files.append(&mut resolved);
                    assert(views(files@) =~= views(before) + views(added));
                },
                Err(e) => {
                    proof {
                        let walked = views(mounts@).take(i + 1);
                        let unwalked = views(mounts@).skip(i + 1);
                        assert(walked + unwalked =~= views(mounts@));
                        lemma_virtual_files_concat(walked, unwalked, views(scans@));
                    }
                    return Err(e);
                },
            }
            i += 1;
        }
        assert(views(mounts@).take(i as int) =~= views(mounts@));
        Ok(files)
    }
}

} // verus!
