//! Glob patterns and glob sets, parsed and matched by the `globset` crate.
//!
//! Nothing of `globset` is proved here. This module says what the library
//! takes on trust of it, in terms of a few names: which patterns parse,
//! which paths a pattern matches, and which patterns a builder or a set
//! holds. Every glob the library makes comes from `Glob::new`, so all of
//! them carry the default matching options, and a glob is known by its
//! pattern text. What the names stand for is that of the platform the
//! library is built for.

use vstd::prelude::*;
use globset::{Glob, GlobSet, GlobSetBuilder};

verus! {

/// `globset::Glob`, a parsed pattern, as an opaque value.
#[verifier::external_type_specification]
#[verifier::external_body]
pub struct ExGlob(Glob);

/// `globset::GlobSet`, a compiled group of globs, as an opaque value.
#[verifier::external_type_specification]
#[verifier::external_body]
pub struct ExGlobSet(GlobSet);

/// `globset::GlobSetBuilder`, a growing list of globs, as an opaque value.
#[verifier::external_type_specification]
#[verifier::external_body]
pub struct ExGlobSetBuilder(GlobSetBuilder);

/// `globset::Error`, as an opaque value.
#[verifier::external_type_specification]
#[verifier::external_body]
pub struct ExGlobError(globset::Error);

/// Whether `Glob::new` accepts `pattern` as a glob.
pub uninterp spec fn well_formed(pattern: Seq<char>) -> bool;

/// The pattern text a glob was parsed from, as `Glob::glob` returns it.
pub uninterp spec fn glob_text(glob: Glob) -> Seq<char>;

/// The pattern texts of the globs in a builder, in the order they were added.
pub uninterp spec fn builder_globs(builder: GlobSetBuilder) -> Seq<Seq<char>>;

/// The pattern texts of the globs a set was built from, in order.
pub uninterp spec fn set_globs(set: GlobSet) -> Seq<Seq<char>>;

/// Whether `GlobSetBuilder::build` can compile globs with these texts into
/// one set.
pub uninterp spec fn compilable(patterns: Seq<Seq<char>>) -> bool;

/// Whether the glob that `Glob::new` makes of `pattern` matches `path`, as
/// a set of this one glob answers.
pub uninterp spec fn glob_matches(pattern: Seq<char>, path: Seq<char>) -> bool;

/// Whether any glob among `patterns` matches `path`.
pub open spec fn any_matches(patterns: Seq<Seq<char>>, path: Seq<char>) -> bool {
    exists|i: int| 0 <= i < patterns.len() && #[trigger] glob_matches(patterns[i], path)
}

/// Calls `Glob::new`. Trusted: it succeeds exactly on the patterns that
/// `well_formed` names, and the glob it returns remembers the pattern text.
#[verifier::external_body]
pub(crate) fn new_glob(pattern: &str) -> (parsed: Result<Glob, globset::Error>)
    ensures
        parsed.is_ok() == well_formed(pattern@),
        parsed matches Ok(glob) ==> glob_text(glob) == pattern@,
{
    Glob::new(pattern)
}

/// Calls `GlobSetBuilder::new`. Trusted: the new builder holds no glob.
#[verifier::external_body]
pub(crate) fn new_builder() -> (builder: GlobSetBuilder)
    ensures
        builder_globs(builder) == Seq::<Seq<char>>::empty(),
{
    GlobSetBuilder::new()
}

/// Calls `GlobSetBuilder::add`. Trusted: the glob is added behind those
/// already in the builder.
#[verifier::external_body]
pub(crate) fn builder_add(builder: &mut GlobSetBuilder, glob: Glob)
    ensures
        builder_globs(*final(builder)) == builder_globs(*old(builder)).push(glob_text(glob)),
{
    builder.add(glob);
}

/// Calls `GlobSetBuilder::build`. Trusted: whether it succeeds depends on
/// the globs alone, as `compilable` names it; a builder without globs
/// always builds; the set holds the builder's globs.
#[verifier::external_body]
pub(crate) fn builder_build(builder: &GlobSetBuilder) -> (built: Result<GlobSet, globset::Error>)
    ensures
        built.is_ok() == compilable(builder_globs(*builder)),
        builder_globs(*builder).len() == 0 ==> built.is_ok(),
        built matches Ok(set) ==> set_globs(set) == builder_globs(*builder),
{
    builder.build()
}

/// Calls `GlobSet::is_match`. Trusted: the answer is true exactly if any
/// glob of the set matches the path, which is what `any_matches` says of
/// the set's globs.
#[verifier::external_body]
pub(crate) fn set_is_match(set: &GlobSet, path: &str) -> (hit: bool)
    ensures
        hit == (exists|i: int|
            0 <= i && i < set_globs(*set).len() && #[trigger] glob_matches(set_globs(*set)[i], path@)),
{
    set.is_match(path)
}

/// The derived `Clone` of `GlobSet`: the copy holds the same globs.
pub assume_specification[ <GlobSet as Clone>::clone ](set: &GlobSet) -> (copy: GlobSet)
    ensures
        set_globs(copy) == set_globs(*set),
;

/// The derived `Clone` of `GlobSetBuilder`: the copy holds the same globs.
pub assume_specification[ <GlobSetBuilder as Clone>::clone ](builder: &GlobSetBuilder) -> (copy:
    GlobSetBuilder)
    ensures
        builder_globs(copy) == builder_globs(*builder),
;

/// Calls the `Display` impl of `globset::Error`, through `to_string`.
/// Nothing is claimed of the text.
#[verifier::external_body]
pub(crate) fn error_message(error: &globset::Error) -> (message: String) {
    error.to_string()
}

} // verus!
