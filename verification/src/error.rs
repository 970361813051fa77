//! What an operation of the library can fail with.

use vstd::prelude::*;

verus! {

/// Why a text cannot name a repository.
#[derive(Debug, Clone, Copy, PartialEq, Eq, Structural)]
pub enum NameFault {
    /// The name has no characters.
    Empty,
    /// The name holds this character, which no name may hold.
    ForbiddenChar(char),
    /// The name is `.` or `..`.
    Reserved,
    /// The name takes more than 255 bytes.
    TooLong,
}

/// What was being read when the disk did not answer.
#[derive(Debug, Clone, Copy, PartialEq, Eq, Structural)]
pub enum IoAction {
    /// Summing the sizes of the files of a repository.
    MeasureSize,
    /// Reading when a repository was last modified.
    ReadModified,
}

/// The failures of the registry and of the remote configuration.
#[derive(Debug, Clone, Copy, PartialEq, Eq, Structural)]
pub enum HubError {
    /// The name breaks a naming rule.
    InvalidName(NameFault),
    /// A repository or a remote of that name is there already.
    AlreadyExists,
    /// No repository, remote or working repository of that name or at that place.
    NotFound,
    /// The directory is there but lacks the layout of a bare repository.
    InvalidRepository,
    /// The remote already pushes to that URL.
    RedundantPushUrl,
    /// The disk or the configuration store could not be read.
    IoFailure(IoAction),
}

} // verus!
