//! Mount sources: the nodes of a declared directory tree, and the walk
//! that lays them out as mounts in depth-first pre-order.

use vstd::prelude::*;
use crate::file_set::{BuildError, FileSet, FileSetBuilder, FileSetView};
use crate::globs::compilable;
use crate::paths::{join, joined};
use crate::seqs::views;

verus! {

/// Describes a single file, a single directory or a complete directory tree
/// that should get mounted into a user-defined directory structure.
#[derive(Debug)]
pub enum MountSource {
    /// Copies the file or directory at the given path in the file system
    /// one to one.
    CopyFromPath(String),
    /// Creates a directory with user-defined entries.
    CustomDir(Vec<CustomDirEntry>),
    /// Generates a file with the given text content.
    TextContent(String),
    /// Copies a partial directory tree from the file system based on
    /// include patterns.
    FileSet(FileSet),
}

/// A user-defined directory entry.
#[derive(Debug)]
pub struct CustomDirEntry {
    name: String,
    mount_source: MountSource,
}

/// What a mount source is.
pub enum MountSourceView {
    CopyFromPath(Seq<char>),
    CustomDir(Seq<CustomDirEntryView>),
    TextContent(Seq<char>),
    FileSet(FileSetView),
}

/// What a directory entry is: a name and the source mounted under it.
pub struct CustomDirEntryView {
    pub name: Seq<char>,
    pub mount_source: MountSourceView,
}

impl View for MountSource {
    type V = MountSourceView;

    open spec fn view(&self) -> MountSourceView
        decreases self,
    {
        match self {
            MountSource::CopyFromPath(path) => MountSourceView::CopyFromPath(path@),
            MountSource::CustomDir(entries) => MountSourceView::CustomDir(entries_view(entries@)),
            MountSource::TextContent(text) => MountSourceView::TextContent(text@),
            MountSource::FileSet(set) => MountSourceView::FileSet(set@),
        }
    }
}

impl View for CustomDirEntry {
    type V = CustomDirEntryView;

    closed spec fn view(&self) -> CustomDirEntryView
        decreases self,
    {
        CustomDirEntryView { name: self.name@, mount_source: self.mount_source@ }
    }
}

/// The views of a directory's entries, in order.
pub open spec fn entries_view(entries: Seq<CustomDirEntry>) -> Seq<CustomDirEntryView>
    decreases entries,
{
    if entries.len() == 0 {
        Seq::empty()
    } else {
        entries_view(entries.drop_last()).push(entries.last()@)
    }
}

impl Clone for MountSource {
    fn clone(&self) -> (copy: MountSource)
        ensures
            copy@ == self@,
        decreases self,
    {
        match self {
            MountSource::CopyFromPath(path) => MountSource::CopyFromPath(path.clone()),
            MountSource::CustomDir(entries) => {
                let mut copies: Vec<CustomDirEntry> = Vec::new();
                let mut i: usize = 0;
                while i < entries.len()
                    invariant
                        0 <= i <= entries.len(),
                        self == MountSource::CustomDir(*entries),
                        copies.len() == i,
                        forall|k: int| 0 <= k < i ==> #[trigger] copies[k]@ == entries[k]@,
                    decreases entries.len() - i,
                {
                    let entry = &entries[i];
                    assert(self->CustomDir_0 == *entries);
                    copies.push(
                        CustomDirEntry {
                            name: entry.name.clone(),
                            mount_source: entry.mount_source.clone(),
                        },
                    );
                    i += 1;
                }
                proof {
                    lemma_entries_view(entries@);
                    lemma_entries_view(copies@);
                    assert(entries_view(copies@) =~= entries_view(entries@));
                }
                MountSource::CustomDir(copies)
            },
            MountSource::TextContent(text) => MountSource::TextContent(text.clone()),
            MountSource::FileSet(set) => MountSource::FileSet(set.clone()),
        }
    }
}

impl Clone for CustomDirEntry {
    fn clone(&self) -> (copy: CustomDirEntry)
        ensures
            copy@ == self@,
    {
        CustomDirEntry { name: self.name.clone(), mount_source: self.mount_source.clone() }
    }
}

/// A mount: a mount source together with the point it is mounted at.
pub struct MountView {
    pub point: Seq<char>,
    pub source: MountSourceView,
}

impl MountSourceView {
    /// The mounts of the tree below `self` when `self` is mounted at `point`,
    /// in depth-first pre-order: the node itself, then, for a custom
    /// directory, the mounts of each entry in listed order.
    pub open spec fn mounts(self, point: Seq<char>) -> Seq<MountView>
        decreases self,
    {
        match self {
            MountSourceView::CustomDir(entries) => seq![MountView { point, source: self }]
                + entries_mounts(entries, point),
            _ => seq![MountView { point, source: self }],
        }
    }
}

/// The mounts of the entries of a directory mounted at `point`: each
/// entry's subtree in turn, mounted at the directory's mount point joined
/// with the entry's name.
pub open spec fn entries_mounts(entries: Seq<CustomDirEntryView>, point: Seq<char>) -> Seq<
    MountView,
>
    decreases entries,
{
    if entries.len() == 0 {
        Seq::empty()
    } else {
        entries_mounts(entries.drop_last(), point) + entries.last().mount_source.mounts(
            joined(point, entries.last().name),
        )
    }
}

/// The view of a directory's entries has one view per entry, in place.
pub proof fn lemma_entries_view(entries: Seq<CustomDirEntry>)
    ensures
        entries_view(entries) == views(entries),
        entries_view(entries).len() == entries.len(),
        forall|i: int| 0 <= i < entries.len() ==> #[trigger] entries_view(entries)[i] == entries[i]@,
    decreases entries.len(),
{
    reveal_with_fuel(entries_view, 2);
    if entries.len() > 0 {
        lemma_entries_view(entries.drop_last());
        assert(entries_view(entries) == entries_view(entries.drop_last()).push(entries.last()@));
    } else {
        assert(entries_view(entries) == Seq::<CustomDirEntryView>::empty());
    }
    assert(entries_view(entries) =~= views(entries));
}

/// A mount source mounted at a point of the tree that is being laid out.
pub struct Mount<'a> {
    point: String,
    source: &'a MountSource,
}

impl<'a> View for Mount<'a> {
    type V = MountView;

    closed spec fn view(&self) -> MountView {
        MountView { point: self.point@, source: (*self.source)@ }
    }
}

impl<'a> Mount<'a> {
    fn new(full_path: String, wish: &'a MountSource) -> (mount: Mount<'a>)
        ensures
            mount@ == (MountView { point: full_path@, source: wish@ }),
    {
        Mount { point: full_path, source: wish }
    }

    /// The point this mount is mounted at, relative to the root.
    pub fn full_path(&self) -> (point: &str)
        ensures
            point@ == self@.point,
    {
        self.point.as_str()
    }

    /// The mount source that is mounted here.
    pub fn wish(&self) -> (source: &MountSource)
        ensures
            source@ == self@.source,
    {
        self.source
    }
}

impl CustomDirEntry {
    /// Creates a user-defined directory entry with the given name and mount
    /// source.
    pub fn new(name: String, mount_source: MountSource) -> (entry: CustomDirEntry)
        ensures
            entry@ == (CustomDirEntryView { name: name@, mount_source: mount_source@ }),
    {
        CustomDirEntry { name, mount_source }
    }
}

impl MountSource {
    /// Walks over all defined mounts, depth-first, starting with this mount
    /// source mounted at the root, the empty path.
    pub fn walk_mounts(&self) -> (mounts: Vec<Mount<'_>>)
        ensures
            views(mounts@) == self@.mounts(Seq::empty()),
    {
        self.walk_recursive(String::new())
    }

    /// Walks over the mounts of this mount source mounted at `mount_point`:
    /// itself first, then the subtree of each entry of a custom directory.
    pub fn walk_recursive(&self, mount_point: String) -> (mounts: Vec<Mount<'_>>)
        ensures
            views(mounts@) == self@.mounts(mount_point@),
        decreases self,
    {
        let mut mounts: Vec<Mount<'_>> = Vec::new();
        if let MountSource::CustomDir(entries) = self {
            mounts.push(Mount::new(mount_point.clone(), self));
            let ghost listed = entries_view(entries@);
            proof {
                lemma_entries_view(entries@);
                assert(listed.take(0) =~= Seq::empty());
                assert(views(mounts@) =~= seq![MountView { point: mount_point@, source: self@ }]
                    + entries_mounts(listed.take(0), mount_point@));
            }
            let mut i: usize = 0;
            while i < entries.len()
                invariant
                    0 <= i <= entries.len(),
                    listed == entries_view(entries@),
                    listed.len() == entries.len(),
                    forall|k: int| 0 <= k < entries.len() ==> #[trigger] listed[k] == entries[k]@,
                    self == MountSource::CustomDir(*entries),
                    views(mounts@) == seq![MountView { point: mount_point@, source: self@ }]
                        + entries_mounts(listed.take(i as int), mount_point@),
                decreases entries.len() - i,
            {
                let entry = &entries[i];
                let mut subtree = entry.mount_source.walk_recursive(
                    join(mount_point.as_str(), entry.name.as_str()),
                );
                let ghost before = mounts@;
                let ghost added = subtree@;
                mounts.append(&mut subtree);
                proof {
                    assert(listed.take(i + 1).drop_last() =~= listed.take(i as int));
                    assert(listed.take(i + 1).last() == entry@);
                    assert(views(mounts@) =~= views(before) + views(added));
                }
                i += 1;
            }
            proof {
                assert(listed.take(entries.len() as int) =~= listed);
            }
        } else {
            mounts.push(Mount::new(mount_point, self));
            assert(views(mounts@) =~= self@.mounts(mount_point@));
        }
        mounts
    }

    /// Finalizes a file set builder and mounts the file set. It fails
    /// exactly if the builder does.
    pub fn from_builder(builder: &FileSetBuilder) -> (built: Result<MountSource, BuildError>)
        ensures
            built.is_ok() == compilable(builder@.patterns),
            builder@.patterns.len() == 0 ==> built.is_ok(),
            built matches Ok(source) ==> source@ == MountSourceView::FileSet(builder@),
    {
        match builder.build() {
            Ok(set) => Ok(MountSource::FileSet(set)),
            Err(e) => Err(e),
        }
    }
}

impl From<String> for MountSource {
    /// A plain path is copied from the file system one to one.
    fn from(value: String) -> (source: MountSource)
        ensures
            source@ == MountSourceView::CopyFromPath(value@),
    {
        MountSource::CopyFromPath(value)
    }
}

impl vstd::std_specs::convert::FromSpecImpl<String> for MountSource {
    open spec fn obeys_from_spec() -> bool {
        true
    }

    open spec fn from_spec(value: String) -> MountSource {
        MountSource::CopyFromPath(value)
    }
}

impl<'a> From<&'a str> for MountSource {
    /// A plain path is copied from the file system one to one.
    fn from(value: &'a str) -> (source: MountSource)
        ensures
            source@ == MountSourceView::CopyFromPath(value@),
    {
        MountSource::CopyFromPath(value.to_owned())
    }
}

impl<'a> vstd::std_specs::convert::FromSpecImpl<&'a str> for MountSource {
    open spec fn obeys_from_spec() -> bool {
        false
    }

    open spec fn from_spec(value: &'a str) -> MountSource {
        arbitrary()
    }
}

impl From<FileSet> for MountSource {
    /// A finalized file set is mounted as it is.
    fn from(value: FileSet) -> (source: MountSource)
        ensures
            source@ == MountSourceView::FileSet(value@),
    {
        MountSource::FileSet(value)
    }
}

impl vstd::std_specs::convert::FromSpecImpl<FileSet> for MountSource {
    open spec fn obeys_from_spec() -> bool {
        true
    }

    open spec fn from_spec(value: FileSet) -> MountSource {
        MountSource::FileSet(value)
    }
}

/// Generates a file with the given text content.
pub fn text(content: &str) -> (source: MountSource)
    ensures
        source@ == MountSourceView::TextContent(content@),
{
    MountSource::TextContent(content.to_owned())
}

} // verus!
