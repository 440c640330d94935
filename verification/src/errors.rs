//! Error kinds returned by the library.

use vstd::prelude::*;

verus! {

/// Why a file offered for import was rejected before anything was
/// written.
#[derive(Debug, Clone, Copy, PartialEq, Eq, Structural)]
pub enum ValidationReason {
    /// No file name could be derived from the path.
    MissingFileName,
    /// The file name does not end in the recognized extension.
    WrongExtension,
    /// The content is shorter than the minimum length for a
    /// configuration file.
    ContentTooShort,
    /// Stripping non-alphanumeric characters left an empty name.
    EmptyName,
}

/// The error kinds of the library. Filesystem and validation errors are
/// returned directly; executor failures abort the enclosing transition.
#[derive(Debug, Clone, PartialEq, Eq)]
pub enum AppError {
    /// A profile name contains a non-alphanumeric character.
    InvalidName,
    /// A profile with that name already exists.
    AlreadyExists,
    /// No profile with that name exists.
    NotFound,
    /// The external toggle command exited nonzero; the diagnostic is
    /// its captured error output.
    ExecutionError { diagnostic: String },
    /// A filesystem operation failed with the given detail.
    IoError { detail: String },
    /// An imported file failed one of the validation checks.
    ValidationError { reason: ValidationReason },
}

} // verus!
