//! The markdown tool.

use vstd::prelude::*;
use crate::text::str_eq;

verus! {

/// Whether the markdown tool handles files with this extension.
pub fn can_handle(extension: &str) -> (r: bool)
    ensures
        r == (extension@ == "md"@ || extension@ == "markdown"@ || extension@ == "mdown"@
            || extension@ == "mkd"@),
{
    str_eq(extension, "md") || str_eq(extension, "markdown") || str_eq(extension, "mdown") || str_eq(
        extension,
        "mkd",
    )
}

/// The rendering of markdown text: the text as it is.
pub fn render(content: &str) -> (r: String)
    ensures
        r@ == content@,
{
    String::from_str(content)
}

} // verus!
