//! The docx tool.

use vstd::prelude::*;
use crate::text::str_eq;

verus! {

/// Whether the docx tool handles files with this extension.
pub fn can_handle(extension: &str) -> (r: bool)
    ensures
        r == (extension@ == "docx"@),
{
    str_eq(extension, "docx")
}

} // verus!
