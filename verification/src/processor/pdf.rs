//! Paged documents.

use crate::digits::{decimal_of, decimal_text};
use crate::text::text_of;
use vstd::prelude::*;
use vstd::string::StringExecFns;

verus! {

/// What to open for page `page` of the document at `path`.
pub open spec fn page_target(path: Seq<char>, page: i32) -> Seq<char> {
    path + "[page="@ + decimal_of(page as int) + "]"@
}

/// What the image backend is to open for page `page` of the document at
/// `path`: the path, followed by the page number in square brackets.
pub fn load_pdf_page(path: &str, page: i32) -> (target: String)
    ensures
        target@ == page_target(path@, page),
{
    let number = text_of(decimal_text(page).as_slice());
    let mut target = String::from_str(path);
    target.append("[page=");
    target.append(number.as_str());
    target.append("]");
    target
}

} // verus!
