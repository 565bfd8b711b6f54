//! The bundler's configuration, as far as the bundling logic reads it.
use vstd::prelude::*;

verus! {

/// Bundler configuration: the source directories first-party modules live in.
#[derive(Debug)]
pub struct Config {
    pub src: Vec<String>,
}

impl Config {
    /// A configuration with the given source directories.
    pub fn new(src: Vec<String>) -> (c: Self)
        ensures
            c.src == src,
    {
        Config { src }
    }
}

} // verus!
