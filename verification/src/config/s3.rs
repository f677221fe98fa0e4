//! Object-storage configuration: the buckets file resources may name.

use vstd::prelude::*;

verus! {

/// A bucket that remote file sources can refer to by name.
#[derive(Debug, Clone)]
pub struct Bucket {
    pub name: String,
    pub key: String,
    pub secret: String,
    pub endpoint: String,
}

/// The object-storage section of one configuration node.
#[derive(Debug, Clone)]
pub struct Config {
    pub buckets: Vec<Bucket>,
}

impl Config {
    /// An empty section: no buckets declared.
    pub fn empty() -> (r: Config)
        ensures
            r.buckets@.len() == 0,
    {
        Config { buckets: Vec::new() }
    }
}

} // verus!
