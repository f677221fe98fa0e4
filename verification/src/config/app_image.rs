//! Application-bundle configuration: self-extracting bundles that are
//! repackaged into native packages.

use vstd::prelude::*;

verus! {

/// One declared application bundle; its identity is its name, and its
/// derived native package is named after it.
#[derive(Debug, Clone)]
pub struct App {
    pub name: String,
    pub url: String,
    pub version: String,
}

/// The application-bundle phase of one configuration node.
#[derive(Debug, Clone)]
pub struct Config {
    pub apps: Vec<App>,
}

impl Config {
    /// An empty phase: no bundles declared.
    pub fn empty() -> (r: Config)
        ensures
            r.apps@.len() == 0,
    {
        Config { apps: Vec::new() }
    }
}

} // verus!
