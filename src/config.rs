//! Settings of the rendered output.

use vstd::prelude::*;

verus! {

/// Where the rendered image is written.
#[derive(Debug)]
pub struct OutConfig {
    /// Path of the image file.
    pub file: String,
}

impl OutConfig {
    pub fn new(file: String) -> (r: OutConfig)
        ensures
            r.file@ == file@,
    {
        OutConfig { file }
    }
}

} // verus!
