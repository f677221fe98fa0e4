//! Networking configuration: a hostname and the static host entries that
//! the networking templates expand.

use vstd::prelude::*;

verus! {

/// One static host entry: an address and the names that resolve to it.
#[derive(Debug, Clone)]
pub struct Host {
    pub addr: String,
    pub names: Vec<String>,
}

/// The networking section of one configuration node.
#[derive(Debug, Clone)]
pub struct Config {
    pub hostname: Option<String>,
    pub hosts: Vec<Host>,
}

} // verus!
