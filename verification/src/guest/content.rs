//! Where a module finds the content it is to process.

use vstd::prelude::*;

verus! {

/// The content being processed, as the module sees it.
#[derive(Debug)]
pub struct Content;

impl Content {
    /// The path of the file that holds the content's bytes.
    pub fn path() -> (p: &'static str)
        ensures
            p@ == "/data.bin"@,
    {
        "/data.bin"
    }
}

} // verus!
