//! Which files are archives.

use vstd::prelude::*;
use crate::path::{extension, path_extension};
use crate::text::str_eq;

verus! {

/// Whether an extension is one of an archive: zip, tar, gz or 7z (exact
/// case).
pub open spec fn is_archive_extension(e: Seq<char>) -> bool {
    e == "zip"@ || e == "tar"@ || e == "gz"@ || e == "7z"@
}

/// Whether the path names an archive, by its extension.
pub fn is_archive(path: &str) -> (r: bool)
    ensures
        r == (match path_extension(path@) {
            Some(e) => is_archive_extension(e),
            None => false,
        }),
{
    match extension(path) {
        Some(e) => {
            let e = e.as_str();
            str_eq(e, "zip") || str_eq(e, "tar") || str_eq(e, "gz") || str_eq(e, "7z")
        },
        None => false,
    }
}

} // verus!
