//! Virtual files: the entries of a flattened tree, and the entries that a
//! walk of the real file system found.

use vstd::prelude::*;
use crate::paths::{join, joined, strip_base, stripped};

verus! {

/// Where the bytes of a virtual file come from. Nothing is opened or read
/// before a renderer asks for the bytes.
#[derive(Clone, Debug, PartialEq, Eq)]
pub enum Content {
    /// No bytes at all: the content of a directory.
    Empty,
    /// The UTF-8 encoding of a text.
    Text(String),
    /// The bytes of the file at this path in the file system.
    File(String),
}

/// What a content source is.
pub enum ContentView {
    Empty,
    Text(Seq<char>),
    File(Seq<char>),
}

impl View for Content {
    type V = ContentView;

    open spec fn view(&self) -> ContentView {
        match self {
            Content::Empty => ContentView::Empty,
            Content::Text(text) => ContentView::Text(text@),
            Content::File(path) => ContentView::File(path@),
        }
    }
}

impl ContentView {
    /// The bytes of a content source that are known without the file
    /// system: none for a directory, the UTF-8 encoding of a text, and
    /// `None` for a file that is yet to be read.
    pub open spec fn bytes(self) -> Option<Seq<u8>> {
        match self {
            ContentView::Empty => Some(Seq::empty()),
            ContentView::Text(text) => Some(vstd::utf8::encode_utf8(text)),
            ContentView::File(_) => None,
        }
    }
}

impl Content {
    /// The bytes of the content, where they are known without reading the
    /// file system.
    pub fn bytes(&self) -> (bytes: Option<Vec<u8>>)
        ensures
            bytes.is_some() == self@.bytes().is_some(),
            bytes matches Some(b) ==> self@.bytes() == Some(b@),
    {
        match self {
            Content::Empty => Some(Vec::new()),
            Content::Text(text) => Some(vstd::slice::slice_to_vec(text.as_str().as_bytes())),
            Content::File(_) => None,
        }
    }
}

/// Description of a target file or directory including its path (relative
/// to a base directory) and content.
#[derive(Clone, Debug, PartialEq, Eq)]
pub struct VirtualFile {
    path: String,
    is_dir: bool,
    reader: Content,
}

/// What a virtual file is.
pub struct VirtualFileView {
    pub path: Seq<char>,
    pub is_dir: bool,
    pub reader: ContentView,
}

impl VirtualFileView {
    /// A file at `path` with the given content.
    pub open spec fn file(path: Seq<char>, reader: ContentView) -> VirtualFileView {
        VirtualFileView { path, is_dir: false, reader }
    }

    /// A directory at `path`.
    pub open spec fn dir(path: Seq<char>) -> VirtualFileView {
        VirtualFileView { path, is_dir: true, reader: ContentView::Empty }
    }
}

impl View for VirtualFile {
    type V = VirtualFileView;

    closed spec fn view(&self) -> VirtualFileView {
        VirtualFileView { path: self.path@, is_dir: self.is_dir, reader: self.reader@ }
    }
}

impl VirtualFile {
    /// A file at `full_path` whose bytes come from `reader`.
    pub fn file(full_path: String, reader: Content) -> (file: VirtualFile)
        ensures
            file@ == VirtualFileView::file(full_path@, reader@),
    {
        VirtualFile { path: full_path, is_dir: false, reader }
    }

    /// A directory at `full_path`.
    pub fn dir(full_path: String) -> (dir: VirtualFile)
        ensures
            dir@ == VirtualFileView::dir(full_path@),
    {
        VirtualFile { path: full_path, is_dir: true, reader: Content::Empty }
    }

    /// The path of the entry, relative to the root of what is rendered.
    pub fn full_path(&self) -> (path: &str)
        ensures
            path@ == self@.path,
    {
        self.path.as_str()
    }

    /// Whether the entry is a directory.
    pub fn is_dir(&self) -> (is_dir: bool)
        ensures
            is_dir == self@.is_dir,
    {
        self.is_dir
    }

    /// Gives up the entry for the source of its bytes.
    pub fn reader(self) -> (reader: Content)
        ensures
            reader@ == self@.reader,
    {
        self.reader
    }
}

/// One entry that a walk of the file system found.
#[derive(Clone, Debug, PartialEq, Eq)]
pub struct DirEntry {
    /// The path of the entry in the file system.
    pub path: String,
    /// Whether the entry is a directory.
    pub is_dir: bool,
}

/// What a found entry is.
pub struct DirEntryView {
    pub path: Seq<char>,
    pub is_dir: bool,
}

impl View for DirEntry {
    type V = DirEntryView;

    open spec fn view(&self) -> DirEntryView {
        DirEntryView { path: self.path@, is_dir: self.is_dir }
    }
}

/// A found entry that does not lie below the base directory it was to be
/// taken relative to.
#[derive(Clone, Debug, PartialEq, Eq)]
pub struct OutsideBase {
    /// The path of the entry.
    pub path: String,
    /// The base directory that is no prefix of it.
    pub base_dir: String,
}

/// What such an error is.
pub struct OutsideBaseView {
    pub path: Seq<char>,
    pub base_dir: Seq<char>,
}

impl View for OutsideBase {
    type V = OutsideBaseView;

    open spec fn view(&self) -> OutsideBaseView {
        OutsideBaseView { path: self.path@, base_dir: self.base_dir@ }
    }
}

/// A found entry together with its path relative to a base directory.
pub struct RelativeEntry {
    pub path: Seq<char>,
    pub relative_path: Seq<char>,
    pub is_dir: bool,
}

impl RelativeEntry {
    /// The virtual file that stands for this entry below `mount_point`: at
    /// the mount point joined with the entry's relative path, a directory
    /// for a directory, and else a file that reads the entry's own path.
    pub open spec fn mounted_at(self, mount_point: Seq<char>) -> VirtualFileView {
        if self.is_dir {
            VirtualFileView::dir(joined(mount_point, self.relative_path))
        } else {
            VirtualFileView::file(
                joined(mount_point, self.relative_path),
                ContentView::File(self.path),
            )
        }
    }
}

impl DirEntryView {
    /// The entry with its path relative to `base_dir`, or the error that it
    /// does not lie below `base_dir`.
    pub open spec fn relative_to(self, base_dir: Seq<char>) -> Result<
        RelativeEntry,
        OutsideBaseView,
    > {
        match stripped(self.path, base_dir) {
            Some(relative_path) => Ok(
                RelativeEntry { path: self.path, relative_path, is_dir: self.is_dir },
            ),
            None => Err(OutsideBaseView { path: self.path, base_dir }),
        }
    }
}

/// A visit of a walk that could not be read.
#[derive(Clone, Copy, Debug, PartialEq, Eq)]
pub struct FailedVisit {
    /// The position of the visit in the walk.
    pub position: usize,
}

/// Whether `position` is the first visit of the walk that failed.
pub open spec fn first_failed(visits: Seq<Option<DirEntry>>, position: int) -> bool {
    &&& 0 <= position < visits.len()
    &&& visits[position] is None
    &&& forall|i: int| 0 <= i < position ==> visits[i] is Some
}

/// Whether these are the entries of a walk of which every visit could be
/// read: one entry per visit, in the order of the walk.
pub open spec fn walked(visits: Seq<Option<DirEntry>>, entries: Seq<DirEntry>) -> bool {
    &&& entries.len() == visits.len()
    &&& forall|i: int| 0 <= i < visits.len() ==> visits[i] == Some(entries[i])
}

/// Takes over what a walk of a directory tree found. Each visit of the
/// walk is either an entry or a failure to read one; a failure fails the
/// whole walk, and the first one is reported.
pub fn walkdir(visits: Vec<Option<DirEntry>>) -> (found: Result<Vec<DirEntry>, FailedVisit>)
    ensures
        found.is_ok() == (forall|i: int| 0 <= i && i < visits@.len() ==> visits@[i] is Some),
        found matches Ok(entries) ==> walked(visits@, entries@),
        found matches Err(e) ==> first_failed(visits@, e.position as int),
{
    let mut entries: Vec<DirEntry> = Vec::new();
    let ghost all = visits@;
    for visit in it: visits
        invariant
            it.seq() == all,
            walked(all.take(it.index() as int), entries@),
    {
        assert(visit == all[it.index() as int]);
        match visit {
            Some(entry) => {
                entries.push(entry);
            },
            None => {
                assert(first_failed(all, it.index() as int)) by {
                    assert forall|i: int| 0 <= i < it.index() implies all[i] is Some by {
                        assert(all.take(it.index() as int)[i] == Some(entries@[i]));
                    }
                }
                return Err(FailedVisit { position: entries.len() });
            },
        }
        assert(walked(all.take(it.index() + 1), entries@)) by {
            assert forall|i: int| 0 <= i <= it.index() implies all.take(it.index() + 1)[i] == Some(
                entries@[i],
            ) by {
                if i < it.index() {
                    assert(all.take(it.index() as int)[i] == Some(entries@[i]));
                }
            }
        }
    }
    assert(all.take(all.len() as int) =~= all);
    Ok(entries)
}

/// The virtual file that stands for a found entry below `mount_point`,
/// given the entry's path relative to its base directory.
pub fn mount_entry(entry: &DirEntry, relative_path: &str, mount_point: &str) -> (file: VirtualFile)
    ensures
        file@ == (RelativeEntry {
            path: entry@.path,
            relative_path: relative_path@,
            is_dir: entry@.is_dir,
        }).mounted_at(mount_point@),
{
    let full_path = join(mount_point, relative_path);
    if entry.is_dir {
        VirtualFile::dir(full_path)
    } else {
        VirtualFile::file(full_path, Content::File(entry.path.clone()))
    }
}

/// The virtual file that an entry below `base_dir` becomes below
/// `mount_point`, or the error that the entry is not below `base_dir`.
pub open spec fn virtual_file_of(
    entry: DirEntryView,
    mount_point: Seq<char>,
    base_dir: Seq<char>,
) -> Result<VirtualFileView, OutsideBaseView> {
    match entry.relative_to(base_dir) {
        Ok(relative) => Ok(relative.mounted_at(mount_point)),
        Err(e) => Err(e),
    }
}

/// Turns an entry that a walk of `base_dir` found into the virtual file
/// that stands for it below `mount_point`. It fails exactly if the entry
/// does not lie below `base_dir`.
pub fn create_virtual_file_from_dir_entry(
    entry: &DirEntry,
    mount_point: &str,
    base_dir: &str,
) -> (file: Result<VirtualFile, OutsideBase>)
    ensures
        match file {
            Ok(f) => virtual_file_of(entry@, mount_point@, base_dir@) == Ok::<_, OutsideBaseView>(f@),
            Err(e) => virtual_file_of(entry@, mount_point@, base_dir@) == Err::<VirtualFileView, _>(e@),
        },
{
    match strip_base(entry.path.as_str(), base_dir) {
        Some(relative_path) => Ok(mount_entry(entry, relative_path.as_str(), mount_point)),
        None => Err(OutsideBase { path: entry.path.clone(), base_dir: base_dir.to_owned() }),
    }
}

} // verus!
