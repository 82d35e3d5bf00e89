//! The command-line surface's option record.
//!
//! The front end reads one input source path and an optional output path;
//! this record carries them into the driver as plain strings.

use vstd::prelude::*;

verus! {

/// The two paths a compile works between.
#[derive(Debug)]
pub struct Opts {
    /// The source file to compile.
    pub input: String,
    /// The executable to write.
    pub output: String,
}

impl Opts {
    /// Bundle an input path with the output path the compile writes to.
    pub fn new(input: String, output: String) -> (r: Opts)
        ensures
            r.input@ == input@,
            r.output@ == output@,
    {
        Opts { input, output }
    }
}

} // verus!
