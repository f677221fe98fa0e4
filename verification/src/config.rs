//! The configuration data model: one document per node of the module
//! tree, immutable once loaded. The surrounding application parses
//! documents into these types; every rule about them is stated and
//! checked here.

use vstd::prelude::*;

pub mod app_image;
pub mod apt;
pub mod files;
pub mod networking;
pub mod s3;
pub mod scripts;
pub mod vars;

verus! {

/// One resolved configuration document: the four resource phases, the
/// buckets its file resources may name, and the modules it composes, each
/// with the bindings the caller supplies for it.
#[derive(Debug)]
pub struct Config {
    pub apt: apt::Apt,
    pub app_image: app_image::Config,
    pub files: files::Config,
    pub scripts: scripts::Config,
    pub s3: s3::Config,
    pub modules: Vec<(String, vars::Bindings)>,
}

} // verus!
