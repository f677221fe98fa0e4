//! File resources: a destination path, exactly one content source (a local
//! template or a remote object), and optional ownership and mode.

use vstd::prelude::*;
use crate::config::vars::VarMap;

verus! {

/// A remote object source: a named bucket and a key within it.
#[derive(Debug, Clone)]
pub struct S3File {
    pub bucket_name: String,
    pub path: String,
}

/// The tagged source of a file's content: exactly one of the two.
pub enum TemplateSource<'a> {
    Local(&'a String),
    S3(&'a S3File),
}

/// One declared file; its identity is the destination path.
#[derive(Debug)]
pub struct TemplateFile {
    pub path: String,
    pub template: Option<String>,
    pub s3: Option<S3File>,
    pub owner: Option<(u32, u32)>,
    pub mode: Option<u32>,
    pub context: VarMap,
}

impl TemplateFile {
    /// A file resource always resolves to exactly one source kind; a
    /// resource declaring neither is malformed and has no source.
    pub open spec fn has_source(&self) -> bool {
        self.template is Some || self.s3 is Some
    }

    /// The source of this file's content. A local template takes
    /// precedence; the resource must declare at least one source.
    pub fn source(&self) -> (r: TemplateSource<'_>)
        requires
            self.has_source(),
        ensures
            match r {
                TemplateSource::Local(t) => self.template == Some(*t),
                TemplateSource::S3(s) => self.template is None && self.s3 == Some(*s),
            },
    {
        if let Some(template) = &self.template {
            return TemplateSource::Local(template);
        }
        if let Some(s3) = &self.s3 {
            return TemplateSource::S3(s3);
        }
        unreached()
    }
}

/// The file phase of one configuration node.
pub type Config = Vec<TemplateFile>;

} // verus!
