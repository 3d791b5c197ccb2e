//! The pptx tool.

use vstd::prelude::*;
use crate::text::str_eq;

verus! {

/// Whether the pptx tool handles files with this extension.
pub fn can_handle(extension: &str) -> (r: bool)
    ensures
        r == (extension@ == "pptx"@),
{
    str_eq(extension, "pptx")
}

} // verus!
