//! Path arithmetic on UTF-8 path texts, done by `std::path`.
//!
//! Nothing of `std::path` is proved here: what joining and taking the parent
//! give is named, and the two wrappers are trusted to return what the names
//! stand for.

use vstd::prelude::*;

verus! {

/// The text of the path that `std::path::Path::join` makes of the path `base`
/// and the path `name`, on the platform the library is built for.
pub uninterp spec fn joined(base: Seq<char>, name: Seq<char>) -> Seq<char>;

/// The text of the path that `std::path::Path::parent` gives for `path`:
/// the path without its final component, or `None` where it has none.
pub uninterp spec fn parent_of(path: Seq<char>) -> Option<Seq<char>>;

/// The text of the path that `std::path::Path::strip_prefix` gives for
/// `path` and `base`: the path that, joined onto `base`, yields `path`, or
/// `None` where `base` is no prefix of `path`.
pub uninterp spec fn stripped(path: Seq<char>, base: Seq<char>) -> Option<Seq<char>>;

/// Calls `std::path::Path::join`. Trusted: the result is the joined path, as
/// `joined` names it. Both arguments are UTF-8 and joining only puts a
/// separator between them (or keeps `name` alone), so the result is UTF-8
/// too and its text is exact.
#[verifier::external_body]
pub(crate) fn join(base: &str, name: &str) -> (path: String)
    ensures
        path@ == joined(base@, name@),
{
    std::path::Path::new(base).join(name).to_string_lossy().into_owned()
}

/// Calls `std::path::Path::parent`. Trusted: the result is the parent that
/// `parent_of` names; a parent of a UTF-8 path is a prefix of it that ends
/// before a component, so its text is exact.
#[verifier::external_body]
pub(crate) fn parent(path: &str) -> (dir: Option<String>)
    ensures
        match dir {
            Some(d) => parent_of(path@) == Some(d@),
            None => parent_of(path@).is_none(),
        },
{
    match std::path::Path::new(path).parent() {
        Some(p) => Some(p.to_string_lossy().into_owned()),
        None => None,
    }
}

/// Calls `std::path::Path::strip_prefix`. Trusted: the result is what
/// `stripped` names, `None` standing for the error that `base` is no prefix;
/// what is left of a UTF-8 path behind a prefix of it is UTF-8 too, so its
/// text is exact.
#[verifier::external_body]
pub(crate) fn strip_base(path: &str, base: &str) -> (rest: Option<String>)
    ensures
        match rest {
            Some(r) => stripped(path@, base@) == Some(r@),
            None => stripped(path@, base@).is_none(),
        },
{
    match std::path::Path::new(path).strip_prefix(base) {
        Ok(p) => Some(p.to_string_lossy().into_owned()),
        Err(_) => None,
    }
}

} // verus!
