//! The path operations the library relies on, each one a call into
//! `std::path`. Their results are named by the spec functions below; the
//! contracts of the library speak of those names.
//!
//! The library targets Unix: paths are `/`-separated and carry no prefix,
//! and the facts stated of `Path::join` below are those of Unix paths.

use vstd::prelude::*;

verus! {

/// Whether `std::path::Path` considers the two paths equal (it compares
/// them component by component, so `"/a//b"` and `"/a/b/"` are the same).
pub uninterp spec fn path_equiv(a: Seq<char>, b: Seq<char>) -> bool;

/// Path equality as `std::path::Path`'s `==` decides it.
///
/// Trusted: `Path::new(a) == Path::new(b)`. The contract claims only that the
/// answer is `path_equiv` of the two strings, and that identical strings are
/// equal paths.
#[verifier::external_body]
pub fn same_path(a: &str, b: &str) -> (r: bool)
    ensures
        r == path_equiv(a@, b@),
        a@ == b@ ==> r,
{
    std::path::Path::new(a) == std::path::Path::new(b)
}


/// The order `std::path::Path` puts two paths in: `path_before(a, b)` when
/// `a` sorts strictly before `b` (component by component).
pub uninterp spec fn path_before(a: Seq<char>, b: Seq<char>) -> bool;

/// Whether `a` sorts strictly before `b` as `std::path::Path`'s `<` decides.
///
/// Trusted: `Path::new(a) < Path::new(b)`. The contract claims the answer is
/// `path_before` of the two strings, and facts of a total order whose
/// equality is `Path`'s `==` (the `Ord` impl of `Path` is one, and both it
/// and `==` compare the paths component by component): when `a` is before
/// `b`, `b` is not before `a`; when `a` is not before `b`, then `b` is before
/// `a` or the two are equal paths; and in that case whatever `a` is before,
/// `b` is before too (`b <= a < c` gives `b < c`), and whatever is before
/// `b` is before `a` (`c < b <= a` gives `c < a`).
#[verifier::external_body]
pub fn path_less(a: &str, b: &str) -> (r: bool)
    ensures
        r == path_before(a@, b@),
        r ==> !path_before(b@, a@),
        !r ==> path_before(b@, a@) || path_equiv(a@, b@),
        !r ==> forall|c: Seq<char>| #[trigger] path_before(a@, c) ==> path_before(b@, c),
        !r ==> forall|c: Seq<char>| #[trigger] path_before(c, b@) ==> path_before(c, a@),
{
    std::path::Path::new(a) < std::path::Path::new(b)
}

/// The extension of the file name of `p` (the part after its last `.`), as
/// `std::path::Path::extension` finds it.
pub uninterp spec fn path_extension(p: Seq<char>) -> Option<Seq<char>>;

/// The extension of `p`'s file name, if it has one.
///
/// Trusted: `Path::new(p).extension()`, the result converted to a `String`
/// (lossless, since `p` is UTF-8). The contract claims only that the result
/// is `path_extension(p)`.
#[verifier::external_body]
pub fn extension_of(p: &str) -> (r: Option<String>)
    ensures
        match r {
            Some(e) => path_extension(p@) == Some(e@),
            None => path_extension(p@) is None,
        },
{
    std::path::Path::new(p).extension().map(|e| e.to_string_lossy().into_owned())
}

/// `p` with the extension of its file name replaced by `ext`, as
/// `std::path::Path::with_extension` builds it.
pub uninterp spec fn path_with_extension(p: Seq<char>, ext: Seq<char>) -> Seq<char>;

/// `p` with its extension replaced by `ext`.
///
/// Trusted: `Path::new(p).with_extension(ext)`, converted to a `String`. The
/// contract claims only that the result is `path_with_extension(p, ext)`.
/// `with_extension` panics on an extension holding a path separator, which
/// the precondition rules out.
#[verifier::external_body]
pub(crate) fn with_extension(p: &str, ext: &str) -> (r: String)
    requires
        !ext@.contains('/'),
    ensures
        r@ == path_with_extension(p@, ext@),
{
    std::path::Path::new(p).with_extension(ext).to_string_lossy().into_owned()
}

/// The final component of `p`, as `std::path::Path::file_name` finds it
/// (`None` for a root, an empty path, or one ending in `..`).
pub uninterp spec fn path_file_name(p: Seq<char>) -> Option<Seq<char>>;

/// The file name of `p`, if it has one.
///
/// Trusted: `Path::new(p).file_name()`, converted to a `String`. The contract
/// claims only that the result is `path_file_name(p)`.
#[verifier::external_body]
pub fn file_name_of(p: &str) -> (r: Option<String>)
    ensures
        match r {
            Some(n) => path_file_name(p@) == Some(n@),
            None => path_file_name(p@) is None,
        },
{
    std::path::Path::new(p).file_name().map(|n| n.to_string_lossy().into_owned())
}

/// `base` joined with `rel` by `std::path::Path::join`.
pub uninterp spec fn path_joined(base: Seq<char>, rel: Seq<char>) -> Seq<char>;

/// `rel` appended to `base` the way `PathBuf::push` extends a path with a
/// relative one: a `/` goes between them when `base` is not empty and does
/// not already end in one.
pub open spec fn spec_extended(base: Seq<char>, rel: Seq<char>) -> Seq<char> {
    if base.len() > 0 && base.last() != '/' {
        base + "/"@ + rel
    } else {
        base + rel
    }
}

/// `base` joined with `rel`.
///
/// Trusted: `Path::new(base).join(rel)`, converted to a `String` (lossless,
/// both are UTF-8). The contract claims the result is `path_joined(base,
/// rel)`, and, as the documentation of `PathBuf::push` says for Unix paths,
/// that an absolute `rel` (one that starts with `/`) replaces `base`
/// altogether, while any other `rel` is appended to `base`, with one `/`
/// between them when `base` is non-empty and does not end in `/`.
#[verifier::external_body]
pub fn join_path(base: &str, rel: &str) -> (r: String)
    ensures
        r@ == path_joined(base@, rel@),
        rel@.len() > 0 && rel@[0] == '/' ==> r@ == rel@,
        !(rel@.len() > 0 && rel@[0] == '/') ==> r@ == spec_extended(base@, rel@),
{
    std::path::Path::new(base).join(rel).to_string_lossy().into_owned()
}

} // verus!
