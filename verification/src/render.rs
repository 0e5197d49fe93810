//! The renderers: each turns the flattened tree into the steps that write
//! it to one kind of sink, in the order of the tree. No step is performed
//! here; whoever performs them opens each content source when its step is
//! due.

use vstd::prelude::*;
use crate::mount_source::MountSource;
use crate::paths::{join, joined, parent, parent_of};
use crate::resolver::{virtual_files, Resolved, Scan};
use crate::seqs::views;
use crate::virtual_file::{
    Content, ContentView, OutsideBase, OutsideBaseView, VirtualFile, VirtualFileView,
};

verus! {

/// One step of rendering to a directory in the file system.
#[derive(Clone, Debug, PartialEq, Eq)]
pub enum FsAction {
    /// Create the directory at `path` and any missing ancestors; nothing
    /// is to be done where it exists already.
    CreateDirAll { path: String },
    /// Create the directory `parent` and any missing ancestors, then create
    /// or truncate the file at `path` and copy the content into it as it
    /// is. `parent` is `None` where `path` has no parent.
    WriteFile { parent: Option<String>, path: String, content: Content },
}

/// What a file system step is.
pub enum FsActionView {
    CreateDirAll { path: Seq<char> },
    WriteFile { parent: Option<Seq<char>>, path: Seq<char>, content: ContentView },
}

impl View for FsAction {
    type V = FsActionView;

    open spec fn view(&self) -> FsActionView {
        match self {
            FsAction::CreateDirAll { path } => FsActionView::CreateDirAll { path: path@ },
            FsAction::WriteFile { parent, path, content } => FsActionView::WriteFile {
                parent: match parent {
                    Some(dir) => Some(dir@),
                    None => None,
                },
                path: path@,
                content: content@,
            },
        }
    }
}

/// The step that renders one virtual file below `target_dir`.
pub open spec fn fs_action(target_dir: Seq<char>, file: VirtualFileView) -> FsActionView {
    let path = joined(target_dir, file.path);
    if file.is_dir {
        FsActionView::CreateDirAll { path }
    } else {
        FsActionView::WriteFile { parent: parent_of(path), path, content: file.reader }
    }
}

/// The steps that render a flattened tree below `target_dir`: one per
/// virtual file, in order.
pub open spec fn fs_actions(target_dir: Seq<char>, files: Seq<VirtualFileView>) -> Seq<
    FsActionView,
> {
    Seq::new(files.len(), |i: int| fs_action(target_dir, files[i]))
}

/// How the bytes of a ZIP entry are stored.
#[derive(Clone, Copy, Debug, PartialEq, Eq, Structural)]
pub enum ZipCompression {
    Stored,
    Deflated,
}

/// The options an entry is added to a ZIP archive with.
#[derive(Clone, Copy, Debug, PartialEq, Eq, Structural)]
pub struct ZipOptions {
    pub compression_method: ZipCompression,
    pub unix_permissions: u32,
}

/// The permission mode of every entry of a rendered ZIP archive.
pub const ZIP_UNIX_PERMISSIONS: u32 = 0o755;

impl ZipOptions {
    /// The options of every entry of a rendered archive: deflate
    /// compression and the fixed permission mode.
    pub open spec fn rendered() -> ZipOptions {
        ZipOptions {
            compression_method: ZipCompression::Deflated,
            unix_permissions: ZIP_UNIX_PERMISSIONS,
        }
    }
}

/// One record of a rendered ZIP archive.
#[derive(Clone, Debug, PartialEq, Eq)]
pub enum ZipRecord {
    /// A directory record; it is what keeps an empty directory.
    Directory { path: String, options: ZipOptions },
    /// A file entry that holds the full content.
    File { path: String, options: ZipOptions, content: Content },
}

/// What a ZIP record is.
pub enum ZipRecordView {
    Directory { path: Seq<char>, options: ZipOptions },
    File { path: Seq<char>, options: ZipOptions, content: ContentView },
}

impl View for ZipRecord {
    type V = ZipRecordView;

    open spec fn view(&self) -> ZipRecordView {
        match self {
            ZipRecord::Directory { path, options } => ZipRecordView::Directory {
                path: path@,
                options: *options,
            },
            ZipRecord::File { path, options, content } => ZipRecordView::File {
                path: path@,
                options: *options,
                content: content@,
            },
        }
    }
}

impl ZipRecordView {
    /// The path of the record in the archive.
    pub open spec fn path(self) -> Seq<char> {
        match self {
            ZipRecordView::Directory { path, .. } => path,
            ZipRecordView::File { path, .. } => path,
        }
    }
}

/// Whether a virtual file is the root of the tree as such: the directory
/// at the empty path, which is no named entry of any archive.
pub open spec fn is_root_dir(file: VirtualFileView) -> bool {
    file.is_dir && file.path.len() == 0
}

/// The ZIP record of one virtual file: none for the root directory, a
/// directory record for any other directory, a file entry for a file.
pub open spec fn zip_record(file: VirtualFileView) -> Option<ZipRecordView> {
    if is_root_dir(file) {
        None
    } else if file.is_dir {
        Some(ZipRecordView::Directory { path: file.path, options: ZipOptions::rendered() })
    } else {
        Some(
            ZipRecordView::File {
                path: file.path,
                options: ZipOptions::rendered(),
                content: file.reader,
            },
        )
    }
}

/// The records of the ZIP archive of a flattened tree, in order.
pub open spec fn zip_records(files: Seq<VirtualFileView>) -> Seq<ZipRecordView> {
    files.filter_map(|file: VirtualFileView| zip_record(file))
}

/// The type of a tar entry.
#[derive(Clone, Copy, Debug, PartialEq, Eq, Structural)]
pub enum TarEntryType {
    Regular,
    Directory,
}

/// What the header of a tar entry, in the GNU format, is set to.
#[derive(Clone, Copy, Debug, PartialEq, Eq, Structural)]
pub struct TarHeader {
    pub entry_type: TarEntryType,
    pub size: u64,
}

impl TarHeader {
    /// The header of a directory: of length zero.
    pub open spec fn spec_directory() -> TarHeader {
        TarHeader { entry_type: TarEntryType::Directory, size: 0 }
    }

    /// The header of a regular file of `size` bytes.
    pub open spec fn spec_regular(size: u64) -> TarHeader {
        TarHeader { entry_type: TarEntryType::Regular, size }
    }

    /// The header of a directory entry: of length zero.
    pub fn directory() -> (header: TarHeader)
        ensures
            header == TarHeader::spec_directory(),
    {
        TarHeader { entry_type: TarEntryType::Directory, size: 0 }
    }

    /// The header of a regular file whose content, read in full, has
    /// `len` bytes: it carries exactly that size.
    pub fn regular(len: usize) -> (header: TarHeader)
        ensures
            header == TarHeader::spec_regular(len as u64),
            header.size == len,
    {
        TarHeader { entry_type: TarEntryType::Regular, size: len as u64 }
    }
}

/// One record of a rendered tarball.
#[derive(Clone, Debug, PartialEq, Eq)]
pub enum TarRecord {
    /// A directory header without data.
    Directory { path: String, header: TarHeader },
    /// A regular file: its content is read in full first, and then
    /// appended behind the header that `header` makes of its length.
    File { path: String, content: Content },
}

/// What a tar record is.
pub enum TarRecordView {
    Directory { path: Seq<char>, header: TarHeader },
    File { path: Seq<char>, content: ContentView },
}

impl View for TarRecord {
    type V = TarRecordView;

    open spec fn view(&self) -> TarRecordView {
        match self {
            TarRecord::Directory { path, header } => TarRecordView::Directory {
                path: path@,
                header: *header,
            },
            TarRecord::File { path, content } => TarRecordView::File {
                path: path@,
                content: content@,
            },
        }
    }
}

impl TarRecordView {
    /// The path of the record in the archive.
    pub open spec fn path(self) -> Seq<char> {
        match self {
            TarRecordView::Directory { path, .. } => path,
            TarRecordView::File { path, .. } => path,
        }
    }
}

/// The tar record of one virtual file: none for the root directory, a
/// directory header of length zero for any other directory, a regular
/// file for a file.
pub open spec fn tar_record(file: VirtualFileView) -> Option<TarRecordView> {
    if is_root_dir(file) {
        None
    } else if file.is_dir {
        Some(TarRecordView::Directory { path: file.path, header: TarHeader::spec_directory() })
    } else {
        Some(TarRecordView::File { path: file.path, content: file.reader })
    }
}

/// The records of the tarball of a flattened tree, in order.
pub open spec fn tar_records(files: Seq<VirtualFileView>) -> Seq<TarRecordView> {
    files.filter_map(|file: VirtualFileView| tar_record(file))
}

/// One more virtual file adds its record, if it has one, behind the others.
proof fn lemma_records_push(files: Seq<VirtualFileView>, file: VirtualFileView)
    ensures
        zip_records(files.push(file)) == match zip_record(file) {
            Some(record) => zip_records(files).push(record),
            None => zip_records(files),
        },
        tar_records(files.push(file)) == match tar_record(file) {
            Some(record) => tar_records(files).push(record),
            None => tar_records(files),
        },
{
    assert(files.push(file).drop_last() =~= files);
    assert(files.push(file).last() == file);
    match zip_record(file) {
        Some(record) => {
            assert(zip_records(files).push(record) =~= zip_records(files) + seq![record]);
        },
        None => {},
    }
    match tar_record(file) {
        Some(record) => {
            assert(tar_records(files).push(record) =~= tar_records(files) + seq![record]);
        },
        None => {},
    }
}

/// No archive holds a directory record at the empty path, and a record at
/// the empty path at all only where the tree itself puts a file there.
pub proof fn lemma_archives_skip_the_root(files: Seq<VirtualFileView>)
    ensures
        forall|k: int|
            0 <= k < zip_records(files).len() && #[trigger] zip_records(files)[k].path().len() == 0
                ==> zip_records(files)[k] is File,
        forall|k: int|
            0 <= k < tar_records(files).len() && #[trigger] tar_records(files)[k].path().len() == 0
                ==> tar_records(files)[k] is File,
        (forall|i: int| 0 <= i < files.len() && !files[i].is_dir ==> #[trigger] files[i].path.len() > 0)
            ==> (forall|k: int|
            0 <= k < zip_records(files).len() ==> #[trigger] zip_records(files)[k].path().len() > 0)
            && (forall|k: int|
            0 <= k < tar_records(files).len() ==> #[trigger] tar_records(files)[k].path().len() > 0),
    decreases files.len(),
{
    if files.len() > 0 {
        lemma_archives_skip_the_root(files.drop_last());
        lemma_records_push(files.drop_last(), files.last());
        assert(files.drop_last().push(files.last()) =~= files);
        if forall|i: int| 0 <= i < files.len() && !files[i].is_dir ==> #[trigger] files[i].path.len() > 0 {
            assert forall|i: int|
                0 <= i < files.drop_last().len() && !files.drop_last()[i].is_dir implies #[trigger] files.drop_last()[i].path.len()
                > 0 by {
                assert(files.drop_last()[i] == files[i]);
            }
            assert(files.last() == files[files.len() - 1]);
        }
    }
}

/// Every virtual file but the root directory has its record in both
/// archives: a directory keeps a record of its own even where nothing is
/// in it, and a file one that holds its content.
pub proof fn lemma_archives_keep_every_entry(files: Seq<VirtualFileView>, i: int)
    requires
        0 <= i < files.len(),
        !is_root_dir(files[i]),
    ensures
        zip_records(files).contains(zip_record(files[i]).unwrap()),
        tar_records(files).contains(tar_record(files[i]).unwrap()),
    decreases files.len(),
{
    let before = files.drop_last();
    lemma_records_push(before, files.last());
    assert(before.push(files.last()) =~= files);
    if i == files.len() - 1 {
        assert(zip_records(files).last() == zip_record(files[i]).unwrap());
        assert(tar_records(files).last() == tar_record(files[i]).unwrap());
    } else {
        lemma_archives_keep_every_entry(before, i);
        let zipped = zip_record(files[i]).unwrap();
        let tarred = tar_record(files[i]).unwrap();
        let z = choose|k: int| 0 <= k < zip_records(before).len() && zip_records(before)[k] == zipped;
        let t = choose|k: int| 0 <= k < tar_records(before).len() && tar_records(before)[k] == tarred;
        assert(zip_records(files)[z] == zipped);
        assert(tar_records(files)[t] == tarred);
    }
}

impl VirtualFile {
    /// The step that renders this entry below `target_dir`.
    pub fn fs_action(self, target_dir: &str) -> (action: FsAction)
        ensures
            action@ == fs_action(target_dir@, self@),
    {
        let path = join(target_dir, self.full_path());
        if self.is_dir() {
            FsAction::CreateDirAll { path }
        } else {
            let parent = parent(path.as_str());
            FsAction::WriteFile { parent, path, content: self.reader() }
        }
    }

    /// The ZIP record of this entry, if it has one.
    pub fn zip_record(self) -> (record: Option<ZipRecord>)
        ensures
            record.is_some() == zip_record(self@).is_some(),
            record matches Some(r) ==> zip_record(self@) == Some(r@),
    {
        let options = ZipOptions {
            compression_method: ZipCompression::Deflated,
            unix_permissions: ZIP_UNIX_PERMISSIONS,
        };
        if self.is_dir() {
            if self.full_path().is_empty() {
                None
            } else {
                Some(ZipRecord::Directory { path: self.full_path().to_owned(), options })
            }
        } else {
            let path = self.full_path().to_owned();
            Some(ZipRecord::File { path, options, content: self.reader() })
        }
    }

    /// The tar record of this entry, if it has one.
    pub fn tar_record(self) -> (record: Option<TarRecord>)
        ensures
            record.is_some() == tar_record(self@).is_some(),
            record matches Some(r) ==> tar_record(self@) == Some(r@),
    {
        if self.is_dir() {
            if self.full_path().is_empty() {
                None
            } else {
                Some(
                    TarRecord::Directory {
                        path: self.full_path().to_owned(),
                        header: TarHeader::directory(),
                    },
                )
            }
        } else {
            let path = self.full_path().to_owned();
            Some(TarRecord::File { path, content: self.reader() })
        }
    }
}

impl TarRecordView {
    /// The header that the record is appended with, where `len` is the
    /// number of bytes that its content, read in full, has: a directory's
    /// own header, and for a file a regular-file header of exactly that
    /// size.
    pub open spec fn header(self, len: usize) -> TarHeader {
        match self {
            TarRecordView::Directory { header, .. } => header,
            TarRecordView::File { .. } => TarHeader::spec_regular(len as u64),
        }
    }
}

impl TarRecord {
    /// The header to append the record with, once its content has been
    /// read in full and has `len` bytes.
    pub fn header(&self, len: usize) -> (header: TarHeader)
        ensures
            header == self@.header(len),
    {
        match self {
            TarRecord::Directory { header, .. } => *header,
            TarRecord::File { .. } => TarHeader::regular(len),
        }
    }
}

/// The steps that render a tree below `target_dir`, or what kept the tree
/// from being resolved.
pub open spec fn fs_plan(target_dir: Seq<char>, tree: Resolved) -> Result<
    Seq<FsActionView>,
    OutsideBaseView,
> {
    match tree {
        Ok(files) => Ok(fs_actions(target_dir, files)),
        Err(e) => Err(e),
    }
}

/// The records of the ZIP archive of a tree, or what kept the tree from
/// being resolved.
pub open spec fn zip_plan(tree: Resolved) -> Result<Seq<ZipRecordView>, OutsideBaseView> {
    match tree {
        Ok(files) => Ok(zip_records(files)),
        Err(e) => Err(e),
    }
}

/// The records of the tarball of a tree, or what kept the tree from being
/// resolved.
pub open spec fn tar_plan(tree: Resolved) -> Result<Seq<TarRecordView>, OutsideBaseView> {
    match tree {
        Ok(files) => Ok(tar_records(files)),
        Err(e) => Err(e),
    }
}

/// Whether every directory record of a ZIP archive has a name: the root
/// directory, at the empty path, is no entry of an archive.
pub open spec fn zip_directories_named(records: Seq<ZipRecordView>) -> bool {
    forall|i: int|
        0 <= i < records.len() && #[trigger] records[i] is Directory ==> records[i].path().len() > 0
}

/// Whether every directory record of a tarball has a name.
pub open spec fn tar_directories_named(records: Seq<TarRecordView>) -> bool {
    forall|i: int|
        0 <= i < records.len() && #[trigger] records[i] is Directory ==> records[i].path().len() > 0
}

impl MountSource {
    /// Lays out the steps that create this directory structure on the file
    /// system in the specified target directory. It fails exactly if the
    /// tree cannot be resolved, and with the same failure.
    pub fn render_to_fs(&self, target_dir: &str, scans: &Vec<Scan>) -> (actions: Result<
        Vec<FsAction>,
        OutsideBase,
    >)
        ensures
            match actions {
                Ok(steps) => fs_plan(
                    target_dir@,
                    virtual_files(self@.mounts(Seq::empty()), views(scans@)),
                ) == Ok::<_, OutsideBaseView>(views(steps@)),
                Err(e) => fs_plan(
                    target_dir@,
                    virtual_files(self@.mounts(Seq::empty()), views(scans@)),
                ) == Err::<Seq<FsActionView>, _>(e@),
            },
    {
        let files = match self.walk_virtual_files(scans) {
            Ok(files) => files,
            Err(e) => {
                return Err(e);
            },
        };
        let ghost all = files@;
        let mut actions: Vec<FsAction> = Vec::new();
        assert(views(actions@) =~= fs_actions(target_dir@, views(all).take(0)));
        for file in it: files
            invariant
                it.seq() == all,
                views(actions@) == fs_actions(target_dir@, views(all).take(it.index() as int)),
        {
            let ghost before = actions@;
            assert(file == all[it.index() as int]);
            let action = file.fs_action(target_dir);
            actions.push(action);
            assert(views(actions@) =~= views(before).push(action@));
        }
        assert(views(all).take(all.len() as int) =~= views(all));
        Ok(actions)
    }

    /// Lays out the records of this directory structure as a ZIP file. The
    /// root directory gets no record, so no directory record has an empty
    /// path. It fails exactly if the tree cannot be resolved, and with the
    /// same failure.
    pub fn render_to_zip(&self, scans: &Vec<Scan>) -> (records: Result<Vec<ZipRecord>, OutsideBase>)
        ensures
            match records {
                Ok(r) => zip_plan(virtual_files(self@.mounts(Seq::empty()), views(scans@))) == Ok::<
                    _,
                    OutsideBaseView,
                >(views(r@)) && zip_directories_named(views(r@)),
                Err(e) => zip_plan(virtual_files(self@.mounts(Seq::empty()), views(scans@)))
                    == Err::<Seq<ZipRecordView>, _>(e@),
            },
    {
        let files = match self.walk_virtual_files(scans) {
            Ok(files) => files,
            Err(e) => {
                return Err(e);
            },
        };
        let ghost all = files@;
        let mut records: Vec<ZipRecord> = Vec::new();
        assert(views(all).take(0) =~= Seq::empty());
        assert(views(records@) =~= Seq::empty());
        for file in it: files
            invariant
                it.seq() == all,
                views(records@) == zip_records(views(all).take(it.index() as int)),
                zip_directories_named(views(records@)),
        {
            let ghost before = records@;
            proof {
                assert(file == all[it.index() as int]);
                assert(views(all).take(it.index() + 1) =~= views(all).take(it.index() as int).push(
                    file@,
                ));
                lemma_records_push(views(all).take(it.index() as int), file@);
            }
            if let Some(record) = file.zip_record() {
                records.push(record);
                assert(views(records@) =~= views(before).push(record@));
            }
        }
        assert(views(all).take(all.len() as int) =~= views(all));
        Ok(records)
    }

    /// Lays out the records of this directory structure as a gzipped
    /// tarball. The root directory gets no record, so no directory record
    /// has an empty path. It fails exactly if the tree cannot be resolved,
    /// and with the same failure.
    pub fn render_to_tar_gz(&self, scans: &Vec<Scan>) -> (records: Result<
        Vec<TarRecord>,
        OutsideBase,
    >)
        ensures
            match records {
                Ok(r) => tar_plan(virtual_files(self@.mounts(Seq::empty()), views(scans@))) == Ok::<
                    _,
                    OutsideBaseView,
                >(views(r@)) && tar_directories_named(views(r@)),
                Err(e) => tar_plan(virtual_files(self@.mounts(Seq::empty()), views(scans@)))
                    == Err::<Seq<TarRecordView>, _>(e@),
            },
    {
        let files = match self.walk_virtual_files(scans) {
            Ok(files) => files,
            Err(e) => {
                return Err(e);
            },
        };
        let ghost all = files@;
        let mut records: Vec<TarRecord> = Vec::new();
        assert(views(all).take(0) =~= Seq::empty());
        assert(views(records@) =~= Seq::empty());
        for file in it: files
            invariant
                it.seq() == all,
                views(records@) == tar_records(views(all).take(it.index() as int)),
                tar_directories_named(views(records@)),
        {
            let ghost before = records@;
            proof {
                assert(file == all[it.index() as int]);
                assert(views(all).take(it.index() + 1) =~= views(all).take(it.index() as int).push(
                    file@,
                ));
                lemma_records_push(views(all).take(it.index() as int), file@);
            }
            if let Some(record) = file.tar_record() {
                records.push(record);
                assert(views(records@) =~= views(before).push(record@));
            }
        }
        assert(views(all).take(all.len() as int) =~= views(all));
        Ok(records)
    }
}

} // verus!
