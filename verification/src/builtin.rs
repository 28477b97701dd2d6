//! The one builtin this shell supports: changing the working directory.
//! The command value only records the decision; the surrounding binary
//! performs the actual directory change.

use vstd::prelude::*;
use vstd::string::StringExecFns;

verus! {

/// A resolved `cd` builtin invocation, holding the target path.
pub struct CdCommand {
    pub directory: String,
}

impl CdCommand {
    /// Builds a `cd` command for the given target directory.
    pub fn new(directory: &str) -> (r: Self)
        ensures
            r.directory@ == directory@,
    {
        CdCommand { directory: String::from_str(directory) }
    }
}

} // verus!
