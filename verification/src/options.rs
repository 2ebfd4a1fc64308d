//! The settings of the language server.

use vstd::prelude::*;

verus! {

/// What the client has configured.
#[derive(Debug)]
pub struct Options {
    /// The directories in which included files are looked for.
    pub includes_directories: Vec<String>,
}

impl Default for Options {
    /// The settings of a client that has configured nothing.
    fn default() -> (options: Options)
        ensures
            options.includes_directories@.len() == 0,
    {
        Options { includes_directories: Vec::new() }
    }
}

} // verus!
