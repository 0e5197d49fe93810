//! File sets: a base directory and the glob patterns that select paths
//! below it.

use vstd::prelude::*;
use globset::{GlobSet, GlobSetBuilder};
use crate::globs::{
    any_matches, glob_matches, builder_add, builder_build, builder_globs, compilable, error_message,
    new_builder, new_glob, set_globs, set_is_match, well_formed,
};

verus! {

/// What a file set is: where it starts and which patterns select from it.
pub struct FileSetView {
    pub base_dir: Seq<char>,
    pub patterns: Seq<Seq<char>>,
}

impl FileSetView {
    /// A path is selected if and only if at least one pattern matches it.
    pub open spec fn matches(self, path: Seq<char>) -> bool {
        any_matches(self.patterns, path)
    }
}

/// An include pattern that failed to parse.
#[derive(Clone, Debug, PartialEq, Eq)]
pub struct PatternError {
    /// The pattern that was turned down.
    pub pattern: String,
    /// The glob engine's description of what is wrong with it.
    pub message: String,
}

/// A set of well-formed patterns that could not be compiled into one
/// matcher.
#[derive(Clone, Debug, PartialEq, Eq)]
pub struct BuildError {
    /// The glob engine's description of the failure.
    pub message: String,
}

/// A group of files starting in a base directory.
#[derive(Debug)]
pub struct FileSet {
    base_dir: String,
    includes: GlobSet,
}

impl View for FileSet {
    type V = FileSetView;

    closed spec fn view(&self) -> FileSetView {
        FileSetView { base_dir: self.base_dir@, patterns: set_globs(self.includes) }
    }
}

impl Clone for FileSet {
    fn clone(&self) -> (copy: FileSet)
        ensures
            copy@ == self@,
    {
        FileSet { base_dir: self.base_dir.clone(), includes: self.includes.clone() }
    }
}

impl FileSet {
    /// The directory the set starts in.
    pub fn base_dir(&self) -> (dir: &str)
        ensures
            dir@ == self@.base_dir,
    {
        self.base_dir.as_str()
    }

    /// Whether a path, relative to the base directory, belongs to the set.
    pub fn matches(&self, path: &str) -> (hit: bool)
        ensures
            hit == self@.matches(path@),
    {
        set_is_match(&self.includes, path)
    }
}

/// A builder for constructing file sets.
#[derive(Debug)]
pub struct FileSetBuilder {
    base_dir: String,
    includes: GlobSetBuilder,
}

impl View for FileSetBuilder {
    type V = FileSetView;

    closed spec fn view(&self) -> FileSetView {
        FileSetView { base_dir: self.base_dir@, patterns: builder_globs(self.includes) }
    }
}

impl Clone for FileSetBuilder {
    fn clone(&self) -> (copy: FileSetBuilder)
        ensures
            copy@ == self@,
    {
        FileSetBuilder { base_dir: self.base_dir.clone(), includes: self.includes.clone() }
    }
}

impl FileSetBuilder {
    fn new(base_dir: String) -> (builder: FileSetBuilder)
        ensures
            builder@ == (FileSetView { base_dir: base_dir@, patterns: Seq::empty() }),
    {
        FileSetBuilder { base_dir, includes: new_builder() }
    }

    /// Defines an include pattern, in the glob syntax of `globset`.
    ///
    /// A well-formed pattern is added behind those already defined; any
    /// other is turned down and leaves the builder as it was.
    pub fn include_pattern(&mut self, value: &str) -> (added: Result<&mut Self, PatternError>)
        ensures
            added.is_ok() == well_formed(value@),
            added matches Ok(builder) ==> (*builder)@ == (FileSetView {
                base_dir: old(self)@.base_dir,
                patterns: old(self)@.patterns.push(value@),
            }) && *final(self) == *final(builder),
            added.is_err() ==> final(self)@ == old(self)@,
            added matches Err(e) ==> e.pattern@ == value@,
    {
        match new_glob(value) {
            Ok(glob) => {
                builder_add(&mut self.includes, glob);
                Ok(self)
            },
            Err(e) => Err(PatternError { pattern: value.to_owned(), message: error_message(&e) }),
        }
    }

    /// Finalizes the builder into a file set with the same base directory
    /// and patterns. A builder without patterns always builds, into a set
    /// that matches nothing.
    pub fn build(&self) -> (built: Result<FileSet, BuildError>)
        ensures
            built.is_ok() == compilable(self@.patterns),
            self@.patterns.len() == 0 ==> built.is_ok(),
            built matches Ok(set) ==> set@ == self@,
    {
        match builder_build(&self.includes) {
            Ok(includes) => Ok(FileSet { base_dir: self.base_dir.clone(), includes }),
            Err(e) => Err(BuildError { message: error_message(&e) }),
        }
    }
}

/// Mounts a set of files from the given base directory.
pub fn dir(base_dir: &str) -> (builder: FileSetBuilder)
    ensures
        builder@ == (FileSetView { base_dir: base_dir@, patterns: Seq::empty() }),
{
    FileSetBuilder::new(base_dir.to_owned())
}

/// A file set without patterns matches nothing.
pub proof fn lemma_no_pattern_matches_nothing(set: FileSetView, path: Seq<char>)
    requires
        set.patterns.len() == 0,
    ensures
        !set.matches(path),
{
}

/// Matching is a union test: a path is selected by the patterns of two
/// lists together exactly if it is selected by those of one of them.
pub proof fn lemma_matches_is_a_union(
    base_dir: Seq<char>,
    first: Seq<Seq<char>>,
    second: Seq<Seq<char>>,
    path: Seq<char>,
)
    ensures
        (FileSetView { base_dir, patterns: first + second }).matches(path) == ((FileSetView {
            base_dir,
            patterns: first,
        }).matches(path) || (FileSetView { base_dir, patterns: second }).matches(path)),
{
    let both = first + second;
    if any_matches(both, path) {
        let i = choose|i: int| 0 <= i < both.len() && #[trigger] glob_matches(both[i], path);
        if i < first.len() {
            assert(glob_matches(first[i], path));
        } else {
            assert(glob_matches(second[i - first.len()], path));
        }
    }
    if any_matches(first, path) {
        let i = choose|i: int| 0 <= i < first.len() && #[trigger] glob_matches(first[i], path);
        assert(glob_matches(both[i], path));
    }
    if any_matches(second, path) {
        let i = choose|i: int| 0 <= i < second.len() && #[trigger] glob_matches(second[i], path);
        assert(glob_matches(both[first.len() + i], path));
    }
}

/// Matching has no priorities: two file sets with the same patterns, in
/// whatever order and however often, select the same paths.
pub proof fn lemma_matches_ignores_order(first: FileSetView, second: FileSetView, path: Seq<char>)
    requires
        first.patterns.to_set() == second.patterns.to_set(),
    ensures
        first.matches(path) == second.matches(path),
{
    if first.matches(path) {
        let i = choose|i: int|
            0 <= i < first.patterns.len() && #[trigger] glob_matches(first.patterns[i], path);
        lemma_same_patterns(first.patterns, second.patterns, i);
        let j = choose|j: int| 0 <= j < second.patterns.len() && second.patterns[j] == first.patterns[i];
        assert(glob_matches(second.patterns[j], path));
    }
    if second.matches(path) {
        let i = choose|i: int|
            0 <= i < second.patterns.len() && #[trigger] glob_matches(second.patterns[i], path);
        lemma_same_patterns(second.patterns, first.patterns, i);
        let j = choose|j: int| 0 <= j < first.patterns.len() && first.patterns[j] == second.patterns[i];
        assert(glob_matches(first.patterns[j], path));
    }
}

proof fn lemma_same_patterns(first: Seq<Seq<char>>, second: Seq<Seq<char>>, i: int)
    requires
        first.to_set() == second.to_set(),
        0 <= i < first.len(),
    ensures
        exists|j: int| 0 <= j < second.len() && second[j] == first[i],
{
    assert(first.contains(first[i]));
    assert(first.to_set().contains(first[i]));
    assert(second.to_set().contains(first[i]));
    assert(second.contains(first[i]));
}

} // verus!
