//! A named logging handle.  The rendering of log lines, with colors and the
//! process exit on errors, belongs to the binary around the library.

use vstd::prelude::*;

verus! {

pub struct Log {
    /// The function name
    pub name: String,
}

impl Log {
    /// Create a new `Log` with the function name.
    pub fn new(name: &str) -> (r: Log)
        ensures
            r.name@ == name@,
    {
        Log { name: String::from_str(name) }
    }
}

} // verus!
