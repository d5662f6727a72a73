//! The error taxonomy of a run.  A parse-stage error never aborts the
//! run; it is counted and skipped.  A configuration error aborts the
//! run before any processing.

use vstd::prelude::*;

verus! {

/// Why a configuration file or a droplet file was rejected.  Each
/// variant carries the offending path and the underlying reason's
/// text for diagnostics.
pub enum Errors {
    /// The project configuration file could not be opened.
    InvalidSpindriftPath { path: String, detail: String },
    /// The project configuration file does not hold a valid
    /// configuration.
    InvalidSpindriftConfig { path: String, detail: String },
    /// The droplet file could not be opened.
    InvalidDropletPath { path: String, detail: String },
    /// The droplet file does not hold a valid droplet.
    InvalidDropletFormat { path: String, detail: String },
}

impl Errors {
    /// A short description of the error kind.
    pub fn message(&self) -> (r: &'static str)
        ensures
            (self is InvalidSpindriftPath ==> r@ == "Invalid path to project configuration"@),
            (self is InvalidSpindriftConfig ==> r@ == "Invalid project configuration file"@),
            (self is InvalidDropletPath ==> r@ == "Invalid path to droplet"@),
            (self is InvalidDropletFormat ==> r@ == "Invalid droplet format"@),
    {
        match self {
            Errors::InvalidSpindriftPath { .. } => "Invalid path to project configuration",
            Errors::InvalidSpindriftConfig { .. } => "Invalid project configuration file",
            Errors::InvalidDropletPath { .. } => "Invalid path to droplet",
            Errors::InvalidDropletFormat { .. } => "Invalid droplet format",
        }
    }
}

/// Why the template collaborator could not render one post.  The
/// text is whatever the collaborator reported.
pub struct RenderError {
    pub detail: String,
}

} // verus!
