use vstd::prelude::*;

verus! {

/// What went wrong during an update or a recovery.
#[derive(Debug, Clone, Copy, PartialEq, Eq, Structural)]
pub enum ErrorKind {
    /// No endpoint of the resource lookup answered with a download location.
    ResolutionFailed,
    /// The package could not be downloaded.
    FetchFailed,
    /// The install root could not be created, or the backup directory cleared.
    RootSetupFailed,
    /// The manifest file exists but cannot be read or parsed.
    ManifestCorrupt,
    /// A known entry could not be moved into the backup directory.
    BackupFailed,
    /// An unrecognised entry could not be moved into the quarantine directory.
    QuarantineFailed,
    /// The package could not be decoded or written.
    ExtractFailed,
    /// A package entry names a location outside the install root.
    UnsafeArchiveEntry,
    /// The new manifest could not be encoded or written.
    ManifestSaveFailed,
    /// Moving the backup back into the root failed.
    RecoveryFailed,
}

impl ErrorKind {
    /// Errors that arise once the installation may have been touched.
    pub open spec fn spec_is_recoverable(&self) -> bool {
        match self {
            ErrorKind::BackupFailed
            | ErrorKind::QuarantineFailed
            | ErrorKind::ExtractFailed
            | ErrorKind::UnsafeArchiveEntry
            | ErrorKind::ManifestSaveFailed => true,
            _ => false,
        }
    }

    #[verifier::when_used_as_spec(spec_is_recoverable)]
    pub fn is_recoverable(&self) -> (r: bool)
        ensures
            r == self.spec_is_recoverable(),
    {
        match self {
            ErrorKind::BackupFailed
            | ErrorKind::QuarantineFailed
            | ErrorKind::ExtractFailed
            | ErrorKind::UnsafeArchiveEntry
            | ErrorKind::ManifestSaveFailed => true,
            _ => false,
        }
    }
}

/// A failed update: what went wrong, and whether a rollback from the backup
/// directory should be attempted.
#[derive(Debug, Clone, Copy, PartialEq, Eq, Structural)]
pub struct UpdateError {
    pub error: ErrorKind,
    pub should_try_recover: bool,
}

impl UpdateError {
    pub fn new(error: ErrorKind, should_try_recover: bool) -> (r: Self)
        ensures
            r.error == error,
            r.should_try_recover == should_try_recover,
    {
        UpdateError { error, should_try_recover }
    }

    /// The error as it arises: recovery is attempted exactly for the
    /// recoverable kinds.
    pub fn from_kind(error: ErrorKind) -> (r: Self)
        ensures
            r.error == error,
            r.should_try_recover == error.spec_is_recoverable(),
    {
        UpdateError::new(error, error.is_recoverable())
    }
}

} // verus!
