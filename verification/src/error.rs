//! The failure taxonomy shared by every component.

use vstd::prelude::*;

verus! {

/// Why a step of an update run, or the supervised process, did not succeed.
#[derive(Clone, Copy, Debug, PartialEq, Eq, Structural)]
pub enum UpdateError {
    /// The release registry could not be reached or answered with a failure.
    RegistryUnavailable,
    /// A release tag is not a semantic version.
    MalformedVersionTag,
    /// No artifact is published for the host's architecture and system.
    UnsupportedPlatform,
    /// The transfer of an artifact ended with a failure status or an I/O error.
    TransferFailed,
    /// A fully transferred artifact could not be moved onto its destination.
    PlacementFailed,
    /// The install directory could not be copied aside.
    BackupFailed,
    /// A snapshot could not be copied back.
    RestoreFailed,
    /// The installation record is missing, unreadable or not parseable.
    RecordUnreadable,
    /// The executable could not be started.
    ProcessSpawnFailed,
    /// The supervised process ended with a failure status.
    ProcessAbnormalExit,
}

impl UpdateError {
    /// Whether the run must end at once, with nothing changed on disk.
    pub open spec fn spec_is_fatal_before_mutation(self) -> bool {
        self == UpdateError::UnsupportedPlatform || self == UpdateError::RegistryUnavailable
    }

    /// Whether a restore from an existing snapshot must be attempted before
    /// the run ends.
    pub open spec fn spec_requires_restore(self) -> bool {
        self == UpdateError::TransferFailed || self == UpdateError::PlacementFailed
    }

    #[verifier::when_used_as_spec(spec_is_fatal_before_mutation)]
    pub fn is_fatal_before_mutation(self) -> (r: bool)
        ensures
            r == self.spec_is_fatal_before_mutation(),
    {
        match self {
            UpdateError::UnsupportedPlatform => true,
            UpdateError::RegistryUnavailable => true,
            _ => false,
        }
    }

    #[verifier::when_used_as_spec(spec_requires_restore)]
    pub fn requires_restore(self) -> (r: bool)
        ensures
            r == self.spec_requires_restore(),
    {
        match self {
            UpdateError::TransferFailed => true,
            UpdateError::PlacementFailed => true,
            _ => false,
        }
    }
}

} // verus!
