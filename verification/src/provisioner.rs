//! The orchestrator: one apply walks the configuration tree depth-first
//! through its modules, then runs the fixed resource-phase order per node
//! — packages, application bundles, scripts, files — with every mutating
//! step first consulting the idempotency gate of its kind. The surrounding
//! application drives the walk and performs the actions; the decisions it
//! acts on are the planning functions of this library.

use vstd::prelude::*;
use crate::config::files::{S3File, TemplateFile, TemplateSource};

verus! {

/// What the file phase does for one resource: render a local template
/// against the resource's context, fetch the named object, or — when this
/// apply was asked to skip downloads — leave the resource alone.
pub enum FilePlan<'a> {
    RenderLocal(&'a String),
    Fetch(&'a S3File),
    SkipDownload(&'a S3File),
}

/// The provisioner of one apply: constructed once, with the one choice an
/// apply carries — whether remote fetches are skipped.
pub struct Provisioner {
    skip_downloads: bool,
}

impl Provisioner {
    /// Whether this apply skips remote fetches.
    pub closed spec fn skips_downloads(&self) -> bool {
        self.skip_downloads
    }

    /// A provisioner for one apply.
    pub fn new(skip_downloads: bool) -> (r: Self)
        ensures
            r.skips_downloads() == skip_downloads,
    {
        Provisioner { skip_downloads }
    }

    /// Decide how one file resource's content is obtained: its declared
    /// source decides, except that a remote source is skipped outright
    /// when this apply skips downloads.
    pub fn file_plan<'a>(&self, file: &'a TemplateFile) -> (p: FilePlan<'a>)
        requires
            file.has_source(),
        ensures
            match p {
                FilePlan::RenderLocal(t) => file.template == Some(*t),
                FilePlan::Fetch(s) => file.template is None && file.s3 == Some(*s)
                    && !self.skips_downloads(),
                FilePlan::SkipDownload(s) => file.template is None && file.s3 == Some(*s)
                    && self.skips_downloads(),
            },
    {
        match file.source() {
            TemplateSource::Local(t) => FilePlan::RenderLocal(t),
            TemplateSource::S3(s) => {
                if self.skip_downloads {
                    FilePlan::SkipDownload(s)
                } else {
                    FilePlan::Fetch(s)
                }
            },
        }
    }
}

} // verus!
