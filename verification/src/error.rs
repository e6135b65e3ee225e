//! Error codes.
use vstd::prelude::*;

verus! {

/// The errors that package operations report.
#[derive(Debug, Eq, PartialEq, Structural, Copy, Clone, Ord, PartialOrd, Hash)]
pub enum Error {
    /// No error: the operation succeeded.
    NoError,
    /// The `Memory` error code.
    Memory,
    /// The `System` error code.
    System,
    /// The `BadPerms` error code.
    BadPerms,
    /// The `NotAFile` error code.
    NotAFile,
    /// The `NotADir` error code.
    NotADir,
    /// The `WrongArgs` error code.
    WrongArgs,
    /// The `DiskSpace` error code.
    DiskSpace,
    /// The `HandleNull` error code.
    HandleNull,
    /// The `HandleNotNull` error code.
    HandleNotNull,
    /// The `HandleLock` error code.
    HandleLock,
    /// The `DbOpen` error code.
    DbOpen,
    /// The `DbCreate` error code.
    DbCreate,
    /// The `DbNull` error code.
    DbNull,
    /// The `DbNotNull` error code.
    DbNotNull,
    /// The `DbNotFound` error code.
    DbNotFound,
    /// The `DbInvalid` error code.
    DbInvalid,
    /// The `DbInvalidSig` error code.
    DbInvalidSig,
    /// The `DbVersion` error code.
    DbVersion,
    /// The `DbWrite` error code.
    DbWrite,
    /// The `DbRemove` error code.
    DbRemove,
    /// The `ServerBadUrl` error code.
    ServerBadUrl,
    /// The `ServerNone` error code.
    ServerNone,
    /// The `TransNotNull` error code.
    TransNotNull,
    /// The `TransNull` error code.
    TransNull,
    /// The `TransDupTarget` error code.
    TransDupTarget,
    /// The `TransDupFileName` error code.
    TransDupFileName,
    /// The `TransNotInitialized` error code.
    TransNotInitialized,
    /// The `TransNotPrepared` error code.
    TransNotPrepared,
    /// The `TransAbort` error code.
    TransAbort,
    /// The `TransType` error code.
    TransType,
    /// The `TransNotLocked` error code.
    TransNotLocked,
    /// The `TransHookFailed` error code.
    TransHookFailed,
    /// The `PkgNotFound` error code.
    PkgNotFound,
    /// The `PkgIgnored` error code.
    PkgIgnored,
    /// The `PkgInvalid` error code.
    PkgInvalid,
    /// The `PkgInvalidChecksum` error code.
    PkgInvalidChecksum,
    /// The `PkgInvalidSig` error code.
    PkgInvalidSig,
    /// The `PkgMissingSig` error code.
    PkgMissingSig,
    /// The `PkgOpen` error code.
    PkgOpen,
    /// The `PkgCantRemove` error code.
    PkgCantRemove,
    /// The `PkgInvalidName` error code.
    PkgInvalidName,
    /// The `PkgInvalidArch` error code.
    PkgInvalidArch,
    /// The `SigMissing` error code.
    SigMissing,
    /// The `SigInvalid` error code.
    SigInvalid,
    /// The `UnsatisfiedDeps` error code.
    UnsatisfiedDeps,
    /// The `ConflictingDeps` error code.
    ConflictingDeps,
    /// The `FileConflicts` error code.
    FileConflicts,
    /// The `Retrieve` error code.
    Retrieve,
    /// The `InvalidRegex` error code.
    InvalidRegex,
    /// The `Libarchive` error code.
    Libarchive,
    /// The `Libcurl` error code.
    Libcurl,
    /// The `ExternalDownload` error code.
    ExternalDownload,
    /// The `Gpgme` error code.
    Gpgme,
    /// The `MissingCapabilitySignatures` error code.
    MissingCapabilitySignatures,
}

/// The result of a package operation.
pub type Result<T> = std::result::Result<T, Error>;

impl Error {
    /// Whether this is the code for success.
    pub fn ok(self) -> (r: bool)
        ensures
            r == (self == Error::NoError),
    {
        self == Error::NoError
    }
}

/// A checksum could not be computed.
#[derive(Debug, Eq, PartialEq, Structural, Copy, Clone, Ord, PartialOrd, Hash)]
pub struct ChecksumError;

/// A signature could not be decoded.
#[derive(Debug, Eq, PartialEq, Structural, Copy, Clone, Ord, PartialOrd, Hash)]
pub struct SignatureDecodeError;

} // verus!
