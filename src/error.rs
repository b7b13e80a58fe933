//! The failures that navigation and file operations report.

use vstd::prelude::*;

verus! {

/// Why an operation did not happen.
#[derive(Clone, Copy, Debug, PartialEq, Eq, Structural)]
pub enum FsError {
    /// The path, or its parent, does not exist.
    NotFound,
    PermissionDenied,
    /// The target of a create, rename, copy or move already exists.
    AlreadyExists,
    /// The request makes no sense for the path: renaming onto another
    /// directory, acting on a filesystem root, a name that is not one path
    /// component.
    InvalidOperation,
    /// The trash service or the default-application launcher failed.
    ExternalToolFailure,
    /// Any other failure the operating system reported.
    Other,
}

} // verus!
