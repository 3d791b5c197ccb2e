//! Where a copied or moved file lands.

use vstd::prelude::*;
use crate::path::{file_name, join, path_file_name, path_join, lemma_join_file_name, lemma_file_name_plain};

verus! {

/// The destination of a copy or move of `src` to `dst`: inside `dst`
/// under `src`'s file name when `dst` is a directory (an empty name when
/// `src` has none), else `dst` itself.
pub fn resolve_dst(src: &str, dst: &str, dst_is_dir: bool) -> (r: String)
    ensures
        r@ == (if dst_is_dir {
            path_join(
                dst@,
                match path_file_name(src@) {
                    Some(n) => n,
                    None => Seq::empty(),
                },
            )
        } else {
            dst@
        }),
{
    if dst_is_dir {
        let name = match file_name(src) {
            Some(n) => n,
            None => String::new(),
        };
        join(dst, name.as_str())
    } else {
        String::from_str(dst)
    }
}

/// A file copied or moved into a directory keeps its file name there.
pub proof fn lemma_resolve_keeps_name(src: Seq<char>, dst: Seq<char>)
    requires
        path_file_name(src) is Some,
    ensures
        path_file_name(path_join(dst, path_file_name(src)->0)) == path_file_name(src),
{
    lemma_file_name_plain(src);
    lemma_join_file_name(dst, path_file_name(src)->0);
}

} // verus!
