//! Flag sets held as bits of a `u32`: signature levels, repository usage,
//! log levels and package validation methods.
use vstd::prelude::*;

verus! {

/// Signatures of packages are checked.
pub const SIG_PACKAGE: u32 = 1;
/// A package may lack a signature.
pub const SIG_PACKAGE_OPTIONAL: u32 = 2;
/// A package signature of marginal trust is accepted.
pub const SIG_PACKAGE_MARGINAL_OK: u32 = 4;
/// A package signature of unknown trust is accepted.
pub const SIG_PACKAGE_UNKNOWN_OK: u32 = 8;
/// Signatures of databases are checked.
pub const SIG_DATABASE: u32 = 1024;
/// A database may lack a signature.
pub const SIG_DATABASE_OPTIONAL: u32 = 2048;
/// A database signature of marginal trust is accepted.
pub const SIG_DATABASE_MARGINAL_OK: u32 = 4096;
/// A database signature of unknown trust is accepted.
pub const SIG_DATABASE_UNKNOWN_OK: u32 = 8192;
/// The handle's default level applies.
pub const SIG_USE_DEFAULT: u32 = 1073741824;

/// The repository is used to sync.
pub const USAGE_SYNC: u32 = 1;
/// The repository is searched.
pub const USAGE_SEARCH: u32 = 2;
/// Packages are installed from the repository.
pub const USAGE_INSTALL: u32 = 4;
/// Packages are upgraded from the repository.
pub const USAGE_UPGRADE: u32 = 8;
/// Every use.
pub const USAGE_ALL: u32 = 15;

/// Errors are logged.
pub const LOG_ERROR: u32 = 1;
/// Warnings are logged.
pub const LOG_WARNING: u32 = 2;
/// Debug messages are logged.
pub const LOG_DEBUG: u32 = 4;
/// Function traces are logged.
pub const LOG_FUNCTION: u32 = 8;

/// The validation of a package is unknown.
pub const VALIDATION_UNKNOWN: u32 = 0;
/// The package was not validated.
pub const VALIDATION_NONE: u32 = 1;
/// The package was validated by an MD5 sum.
pub const VALIDATION_MD5SUM: u32 = 2;
/// The package was validated by a SHA-256 sum.
pub const VALIDATION_SHA256SUM: u32 = 4;
/// The package was validated by a signature.
pub const VALIDATION_SIGNATURE: u32 = 8;

/// Signature checking levels.
#[derive(Debug, PartialEq, Eq, Clone, Copy)]
pub struct SigLevel {
    bits: u32,
}

impl View for SigLevel {
    type V = u32;

    closed spec fn view(&self) -> u32 {
        self.bits
    }
}

impl SigLevel {
    /// The level with exactly the given bits.
    pub fn from_bits_retain(bits: u32) -> (r: SigLevel)
        ensures
            r@ == bits,
    {
        SigLevel { bits }
    }

    /// The level with no bit set.
    pub fn empty() -> (r: SigLevel)
        ensures
            r@ == 0,
    {
        SigLevel { bits: 0 }
    }

    /// The bits of the level.
    pub fn bits(&self) -> (r: u32)
        ensures
            r == self@,
    {
        self.bits
    }

    /// Whether no bit is set.
    pub fn is_empty(&self) -> (r: bool)
        ensures
            r == (self@ == 0),
    {
        self.bits == 0
    }

    /// Whether every bit of `other` is set in `self`.
    pub fn contains(&self, other: SigLevel) -> (r: bool)
        ensures
            r == (self@ & other@ == other@),
    {
        self.bits & other.bits == other.bits
    }

    /// Whether some bit of `other` is set in `self`.
    pub fn intersects(&self, other: SigLevel) -> (r: bool)
        ensures
            r == (self@ & other@ != 0),
    {
        self.bits & other.bits != 0
    }

    /// The bits of either level.
    pub fn union(self, other: SigLevel) -> (r: SigLevel)
        ensures
            r@ == self@ | other@,
    {
        SigLevel { bits: self.bits | other.bits }
    }

    /// Sets the bits of `other`.
    pub fn insert(&mut self, other: SigLevel)
        ensures
            final(self)@ == old(self)@ | other@,
    {
        self.bits = self.bits | other.bits;
    }

    /// Clears the bits of `other`.
    pub fn remove(&mut self, other: SigLevel)
        ensures
            final(self)@ == old(self)@ & !other@,
    {
        self.bits = self.bits & !other.bits;
    }
}

/// What a repository is used for.
#[derive(Debug, PartialEq, Eq, Clone, Copy)]
pub struct Usage {
    bits: u32,
}

impl View for Usage {
    type V = u32;

    closed spec fn view(&self) -> u32 {
        self.bits
    }
}

impl Usage {
    /// The usage with exactly the given bits.
    pub fn from_bits_retain(bits: u32) -> (r: Usage)
        ensures
            r@ == bits,
    {
        Usage { bits }
    }

    /// The usage with no bit set.
    pub fn empty() -> (r: Usage)
        ensures
            r@ == 0,
    {
        Usage { bits: 0 }
    }

    /// The bits of the usage.
    pub fn bits(&self) -> (r: u32)
        ensures
            r == self@,
    {
        self.bits
    }

    /// Whether no bit is set.
    pub fn is_empty(&self) -> (r: bool)
        ensures
            r == (self@ == 0),
    {
        self.bits == 0
    }

    /// Whether every bit of `other` is set in `self`.
    pub fn contains(&self, other: Usage) -> (r: bool)
        ensures
            r == (self@ & other@ == other@),
    {
        self.bits & other.bits == other.bits
    }

    /// The bits of either usage.
    pub fn union(self, other: Usage) -> (r: Usage)
        ensures
            r@ == self@ | other@,
    {
        Usage { bits: self.bits | other.bits }
    }

    /// Sets the bits of `other`.
    pub fn insert(&mut self, other: Usage)
        ensures
            final(self)@ == old(self)@ | other@,
    {
        self.bits = self.bits | other.bits;
    }

    /// Clears the bits of `other`.
    pub fn remove(&mut self, other: Usage)
        ensures
            final(self)@ == old(self)@ & !other@,
    {
        self.bits = self.bits & !other.bits;
    }
}

/// The kinds of message that are logged.
#[derive(Debug, PartialEq, Eq, Clone, Copy)]
pub struct LogLevel {
    bits: u32,
}

impl View for LogLevel {
    type V = u32;

    closed spec fn view(&self) -> u32 {
        self.bits
    }
}

impl LogLevel {
    /// The level with exactly the given bits.
    pub fn from_bits_retain(bits: u32) -> (r: LogLevel)
        ensures
            r@ == bits,
    {
        LogLevel { bits }
    }

    /// The bits of the level.
    pub fn bits(&self) -> (r: u32)
        ensures
            r == self@,
    {
        self.bits
    }

    /// Whether every bit of `other` is set in `self`.
    pub fn contains(&self, other: LogLevel) -> (r: bool)
        ensures
            r == (self@ & other@ == other@),
    {
        self.bits & other.bits == other.bits
    }
}

/// How a package was validated.
#[derive(Debug, PartialEq, Eq, Clone, Copy)]
pub struct PackageValidation {
    bits: u32,
}

impl View for PackageValidation {
    type V = u32;

    closed spec fn view(&self) -> u32 {
        self.bits
    }
}

impl PackageValidation {
    /// The validation with exactly the given bits.
    pub fn from_bits_retain(bits: u32) -> (r: PackageValidation)
        ensures
            r@ == bits,
    {
        PackageValidation { bits }
    }

    /// The bits of the validation.
    pub fn bits(&self) -> (r: u32)
        ensures
            r == self@,
    {
        self.bits
    }

    /// Whether every bit of `other` is set in `self`.
    pub fn contains(&self, other: PackageValidation) -> (r: bool)
        ensures
            r == (self@ & other@ == other@),
    {
        self.bits & other.bits == other.bits
    }
}

/// The library was built with native language support.
pub const CAPABILITY_NLS: u32 = 1;
/// The library was built with its own downloader.
pub const CAPABILITY_DOWNLOADER: u32 = 2;
/// The library was built with signature checking.
pub const CAPABILITY_SIGNATURES: u32 = 4;

/// What the package library was built with.
#[derive(Debug, PartialEq, Eq, Clone, Copy)]
pub struct Capabilities {
    bits: u32,
}

impl View for Capabilities {
    type V = u32;

    closed spec fn view(&self) -> u32 {
        self.bits
    }
}

impl Capabilities {
    /// The capabilities with the given bits, or `None` where a bit that
    /// names no capability is set.
    pub fn from_bits(bits: u32) -> (r: Option<Capabilities>)
        ensures
            r matches Some(c) ==> c@ == bits,
            r is Some <==> bits & !7u32 == 0,
    {
        if bits & !7u32 == 0 {
            Some(Capabilities { bits })
        } else {
            None
        }
    }

    /// The bits of the capabilities.
    pub fn bits(&self) -> (r: u32)
        ensures
            r == self@,
    {
        self.bits
    }

    /// Whether native language support is built in.
    pub fn nls(self) -> (r: bool)
        ensures
            r == (self@ & CAPABILITY_NLS != 0),
    {
        self.bits & CAPABILITY_NLS != 0
    }

    /// Whether the library's own downloader is built in.
    pub fn downloader(self) -> (r: bool)
        ensures
            r == (self@ & CAPABILITY_DOWNLOADER != 0),
    {
        self.bits & CAPABILITY_DOWNLOADER != 0
    }

    /// Whether signature checking is built in.
    pub fn signatures(self) -> (r: bool)
        ensures
            r == (self@ & CAPABILITY_SIGNATURES != 0),
    {
        self.bits & CAPABILITY_SIGNATURES != 0
    }
}

/// After setting the bits of `b`, every one of them is set; bits outside
/// `b` keep their value.
pub proof fn lemma_insert_contains(a: u32, b: u32)
    ensures
        (a | b) & b == b,
        forall|c: u32| c & b == 0 ==> ((a | b) & c == a & c),
{
    assert((a | b) & b == b) by (bit_vector);
    assert forall|c: u32| c & b == 0 implies ((a | b) & c == a & c) by {
        assert(c & b == 0 ==> ((a | b) & c == a & c)) by (bit_vector);
    }
}

/// After clearing the bits of `b`, none of them is set; bits outside `b`
/// keep their value.
pub proof fn lemma_remove_clears(a: u32, b: u32)
    ensures
        (a & !b) & b == 0,
        forall|c: u32| c & b == 0 ==> ((a & !b) & c == a & c),
{
    assert((a & !b) & b == 0) by (bit_vector);
    assert forall|c: u32| c & b == 0 implies ((a & !b) & c == a & c) by {
        assert(c & b == 0 ==> ((a & !b) & c == a & c)) by (bit_vector);
    }
}

} // verus!
