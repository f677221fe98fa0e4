//! Package-manager configuration: declared packages and third-party
//! repositories.

use vstd::prelude::*;

verus! {

/// A third-party package repository; its identity is its name.
#[derive(Debug, Clone)]
pub struct AptRepository {
    pub name: String,
    pub url: String,
    pub distro: String,
    pub key_url: String,
    pub components: Vec<String>,
}

/// The default component list for a repository that declares none.
pub fn main_component() -> (r: Vec<String>)
    ensures
        r@.len() == 1,
        r@[0]@ == "main"@,
{
    let mut r: Vec<String> = Vec::new();
    r.push(String::from_str("main"));
    r
}

/// The package-manager phase of one configuration node.
#[derive(Debug, Clone)]
pub struct Apt {
    pub packages: Vec<String>,
    pub repositories: Vec<AptRepository>,
}

impl Apt {
    /// An empty phase: nothing declared, nothing to converge.
    pub fn empty() -> (r: Apt)
        ensures
            r.packages@.len() == 0,
            r.repositories@.len() == 0,
    {
        Apt { packages: Vec::new(), repositories: Vec::new() }
    }
}

} // verus!
