//! Declarative directory trees.
//!
//! A tree is described as a [`MountSource`]: a path to copy, a directory of
//! named entries, a text, or a set of files chosen by glob patterns. The
//! resolver flattens such a tree into a sequence of virtual files, in stable
//! depth-first pre-order, and the renderers turn that sequence into the steps
//! that write it as a directory, as a ZIP archive or as a gzipped tarball.
//!
//! Nothing here touches the file system. What a walk of the file system found
//! is handed in as [`Scan`]s, and the steps that come out name the content
//! they need without opening it.

pub mod file_set;
pub mod globs;
pub mod mount_source;
pub mod order;
pub mod paths;
pub mod render;
pub mod resolver;
pub mod seqs;
pub mod virtual_file;

pub use file_set::{dir, BuildError, FileSet, FileSetBuilder, PatternError};
pub use mount_source::{text, CustomDirEntry, Mount, MountSource};
pub use render::{
    FsAction, TarEntryType, TarHeader, TarRecord, ZipCompression, ZipOptions, ZipRecord,
    ZIP_UNIX_PERMISSIONS,
};
pub use resolver::Scan;
pub use virtual_file::{
    create_virtual_file_from_dir_entry, mount_entry, walkdir, Content, DirEntry, FailedVisit,
    OutsideBase, VirtualFile,
};
