//! The library's error type. A configuration violation carries its message
//! directly; a template failure carries the template's name together with
//! the renderer's own error, so the operator sees which document failed.

use vstd::prelude::*;

verus! {

/// An error of one apply: either one of the library's own rules was
/// violated (with the full message), or the template renderer failed on a
/// named document.
#[derive(Debug)]
pub enum ApplyError {
    Custom(String),
    TeraTemplateError((String, tera::Error)),
}

impl ApplyError {
    /// Wrap a renderer failure with the name of the template it came from.
    pub fn from_template_err(template_name: String, err: tera::Error) -> (r: Self)
        ensures
            r == ApplyError::TeraTemplateError((template_name, err)),
    {
        ApplyError::TeraTemplateError((template_name, err))
    }

    /// A short, operator-facing description of the error.
    pub fn describe(&self) -> (r: String)
        ensures
            match self {
                ApplyError::Custom(m) => r@ == "unexpected error: "@ + m@,
                ApplyError::TeraTemplateError((n, _)) => r@ == "failed to compile template "@ + n@,
            },
    {
        match self {
            ApplyError::Custom(m) => {
                let mut r = String::from_str("unexpected error: ");
                r.append(m.as_str());
                r
            },
            ApplyError::TeraTemplateError((n, _)) => {
                let mut r = String::from_str("failed to compile template ");
                r.append(n.as_str());
                r
            },
        }
    }
}
} // verus!
