//! File paths as text: the pieces of a path that the scanner reasons about.
//!
//! Paths are taken apart and put together by `std::path`, for the platform the
//! library is built for. The results are named here, and the functions of this
//! module say what the scanner makes of them.

use crate::models::text_opt;
use vstd::prelude::*;

verus! {

/// What `std::path::Path::parent` gives for `path`: the path without its final
/// component, where there is one.
pub uninterp spec fn path_parent(path: Seq<char>) -> Option<Seq<char>>;

/// What `std::path::Path::extension` gives for `path`: the text after the last
/// dot of the file name, where there is one.
pub uninterp spec fn path_extension(path: Seq<char>) -> Option<Seq<char>>;

/// What `std::path::Path::with_extension` gives: `path` with the extension of
/// its file name replaced by `ext`.
pub uninterp spec fn path_with_extension(path: Seq<char>, ext: Seq<char>) -> Seq<char>;

/// What `std::path::Path::join` gives: `name` adjoined to `dir`.
pub uninterp spec fn path_join(dir: Seq<char>, name: Seq<char>) -> Seq<char>;

/// What `std::path::Path::starts_with` gives: whether `base` is a prefix of
/// `path`, whole components only.
pub uninterp spec fn path_starts_with(path: Seq<char>, base: Seq<char>) -> bool;

/// Neither `/` nor `\` occurs in the text.
pub open spec fn has_no_separator(text: Seq<char>) -> bool {
    forall|i: int| 0 <= i < text.len() ==> text[i] != '/' && text[i] != '\\'
}

/// Calls `std::path::Path::parent`. Trusted: the result is the one named
/// `path_parent`, as text.
#[verifier::external_body]
pub(crate) fn parent_of(path: &str) -> (dir: Option<String>)
    ensures
        text_opt(dir) == path_parent(path@),
{
    match std::path::Path::new(path).parent() {
        Some(p) => Some(p.to_string_lossy().into_owned()),
        None => None,
    }
}

/// Calls `std::path::Path::extension`. Trusted: the result is the one named
/// `path_extension`, as text.
#[verifier::external_body]
fn extension_of(path: &str) -> (ext: Option<String>)
    ensures
        text_opt(ext) == path_extension(path@),
{
    match std::path::Path::new(path).extension() {
        Some(e) => Some(e.to_string_lossy().into_owned()),
        None => None,
    }
}

/// Calls `std::path::Path::with_extension`, which panics on an extension that
/// holds a path separator. Trusted: the result is the one named
/// `path_with_extension`, as text.
#[verifier::external_body]
pub(crate) fn with_extension(path: &str, ext: &str) -> (out: String)
    requires
        has_no_separator(ext@),
    ensures
        out@ == path_with_extension(path@, ext@),
{
    std::path::Path::new(path).with_extension(ext).to_string_lossy().into_owned()
}

/// Calls `std::path::Path::join`. Trusted: the result is the one named
/// `path_join`, as text.
#[verifier::external_body]
pub(crate) fn join(dir: &str, name: &str) -> (out: String)
    ensures
        out@ == path_join(dir@, name@),
{
    std::path::Path::new(dir).join(name).to_string_lossy().into_owned()
}

/// Calls `std::path::Path::starts_with`. Trusted: the result is the one named
/// `path_starts_with`.
#[verifier::external_body]
pub(crate) fn starts_with(path: &str, base: &str) -> (yes: bool)
    ensures
        yes == path_starts_with(path@, base@),
{
    std::path::Path::new(path).starts_with(std::path::Path::new(base))
}

/// The directory that holds the file at `path`; the empty text where the path
/// has no parent.
pub open spec fn spec_containing_directory(path: Seq<char>) -> Seq<char> {
    match path_parent(path) {
        Some(dir) => dir,
        None => Seq::empty(),
    }
}

/// The directory that holds the file at `path`.
pub fn containing_directory(path: &str) -> (dir: String)
    ensures
        dir@ == spec_containing_directory(path@),
{
    match parent_of(path) {
        Some(dir) => dir,
        None => String::new(),
    }
}

/// The extension names the supported audio format: it reads `flac`, in any
/// mix of upper and lower case.
pub open spec fn is_audio_extension(ext: Seq<char>) -> bool {
    &&& ext.len() == 4
    &&& (ext[0] == 'f' || ext[0] == 'F')
    &&& (ext[1] == 'l' || ext[1] == 'L')
    &&& (ext[2] == 'a' || ext[2] == 'A')
    &&& (ext[3] == 'c' || ext[3] == 'C')
}

/// The file at `path` is a candidate for the scan.
pub open spec fn spec_is_audio_file(path: Seq<char>) -> bool {
    match path_extension(path) {
        Some(ext) => is_audio_extension(ext),
        None => false,
    }
}

/// Decides from an extension alone whether it names the supported format.
pub fn extension_is_audio(ext: &str) -> (yes: bool)
    ensures
        yes == is_audio_extension(ext@),
{
    if ext.unicode_len() != 4 {
        return false;
    }
    let c0 = ext.get_char(0);
    let c1 = ext.get_char(1);
    let c2 = ext.get_char(2);
    let c3 = ext.get_char(3);
    (c0 == 'f' || c0 == 'F') && (c1 == 'l' || c1 == 'L') && (c2 == 'a' || c2 == 'A') && (c3 == 'c'
        || c3 == 'C')
}

/// Whether the file at `path` is a candidate for the scan: its extension
/// names the supported audio format.
pub fn is_audio_file(path: &str) -> (yes: bool)
    ensures
        yes == spec_is_audio_file(path@),
{
    match extension_of(path) {
        Some(ext) => extension_is_audio(ext.as_str()),
        None => false,
    }
}

} // verus!
