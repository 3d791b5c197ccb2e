//! The pdf tool.

use vstd::prelude::*;
use crate::text::str_eq;

verus! {

/// Whether the pdf tool handles files with this extension.
pub fn can_handle(extension: &str) -> (r: bool)
    ensures
        r == (extension@ == "pdf"@),
{
    str_eq(extension, "pdf")
}

} // verus!
