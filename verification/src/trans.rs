//! What a transaction reports when a step fails: the error code and, for
//! some codes, the packages, dependencies or conflicts that caused it.
use vstd::prelude::*;

use crate::conflict::{Conflict, FileConflict};
use crate::deps::DepMissing;
use crate::error::Error;
use crate::package::{Package, PackageSpec};

verus! {

/// A package loaded from a file, owned by its holder.
#[derive(Debug)]
pub struct LoadedPackage {
    pkg: Package,
}

impl LoadedPackage {
    /// Takes ownership of a loaded package.
    pub fn new(pkg: Package) -> (r: LoadedPackage)
        ensures
            r.pkg_view() == pkg@,
    {
        LoadedPackage { pkg }
    }

    /// The package held.
    pub closed spec fn pkg_view(&self) -> PackageSpec {
        self.pkg@
    }

    /// The package held.
    pub fn pkg(&self) -> (r: &Package)
        ensures
            r@ == self.pkg_view(),
    {
        &self.pkg
    }
}

/// What can be added to a transaction: a package of a database, or one
/// loaded from a file.
pub trait IntoPkgAdd {
    /// The package that is added.
    fn package(&self) -> &Package;
}

impl IntoPkgAdd for &Package {
    fn package(&self) -> (r: &Package)
        ensures
            r == *self,
    {
        *self
    }
}

impl IntoPkgAdd for LoadedPackage {
    fn package(&self) -> (r: &Package)
        ensures
            r@ == self.pkg_view(),
    {
        &self.pkg
    }
}

/// A package could not be added to a transaction; the package is handed
/// back.
#[derive(Debug)]
pub struct AddError<P> {
    /// Why the package could not be added.
    pub error: Error,
    /// The package.
    pub pkg: P,
}

/// What caused a transaction to fail to prepare.
#[derive(Debug)]
pub enum PrepareData {
    /// Packages built for another architecture.
    PkgInvalidArch(Vec<Package>),
    /// Dependencies that nothing satisfies.
    UnsatisfiedDeps(Vec<DepMissing>),
    /// Packages that conflict.
    ConflictingDeps(Vec<Conflict>),
}

/// Whether the data of a failed preparation fits its error code: the
/// codes for packages of another architecture, unsatisfied dependencies
/// and conflicts carry their data, the others none.
pub open spec fn prepare_data_fits(error: Error, data: Option<PrepareData>) -> bool {
    match data {
        Some(PrepareData::PkgInvalidArch(_)) => error == Error::PkgInvalidArch,
        Some(PrepareData::UnsatisfiedDeps(_)) => error == Error::UnsatisfiedDeps,
        Some(PrepareData::ConflictingDeps(_)) => error == Error::ConflictingDeps,
        None => error != Error::PkgInvalidArch && error != Error::UnsatisfiedDeps && error
            != Error::ConflictingDeps,
    }
}

/// A transaction failed to prepare.
#[derive(Debug)]
pub struct PrepareError {
    error: Error,
    data: Option<PrepareData>,
}

impl PrepareError {
    /// The data always fits the error code.
    #[verifier::type_invariant]
    closed spec fn inv(self) -> bool {
        prepare_data_fits(self.error, self.data)
    }

    /// A failure with the given code and data.
    pub fn new(error: Error, data: Option<PrepareData>) -> (r: PrepareError)
        requires
            prepare_data_fits(error, data),
        ensures
            r.error_view() == error,
            r.data_view() == data,
    {
        PrepareError { error, data }
    }

    /// The error code.
    pub closed spec fn error_view(&self) -> Error {
        self.error
    }

    /// The data.
    pub closed spec fn data_view(&self) -> Option<PrepareData> {
        self.data
    }

    /// The error code.
    pub fn error(&self) -> (r: Error)
        ensures
            r == self.error_view(),
    {
        self.error
    }

    /// What caused the failure, for the codes that carry it.
    pub fn data(&self) -> (r: Option<&PrepareData>)
        ensures
            r matches Some(d) ==> self.data_view() == Some(*d),
            r is None ==> self.data_view() is None,
            prepare_data_fits(self.error_view(), self.data_view()),
    {
        proof {
            use_type_invariant(self);
        }
        match &self.data {
            Some(d) => Some(d),
            None => None,
        }
    }
}

/// What caused a transaction to fail to commit.
#[derive(Debug)]
pub enum CommitData {
    /// Files that would be installed twice.
    FileConflict(Vec<FileConflict>),
    /// Packages that are invalid.
    PkgInvalid(Vec<String>),
}

/// Whether the data of a failed commit fits its error code: file
/// conflicts carry the conflicts, the three codes of invalid packages
/// carry the package names, the others none.
pub open spec fn commit_data_fits(error: Error, data: Option<CommitData>) -> bool {
    let invalid = error == Error::PkgInvalid || error == Error::PkgInvalidSig || error
        == Error::PkgInvalidChecksum;
    match data {
        Some(CommitData::FileConflict(_)) => error == Error::FileConflicts,
        Some(CommitData::PkgInvalid(_)) => invalid,
        None => error != Error::FileConflicts && !invalid,
    }
}

/// A transaction failed to commit.
#[derive(Debug)]
pub struct CommitError {
    error: Error,
    data: Option<CommitData>,
}

impl CommitError {
    /// The data always fits the error code.
    #[verifier::type_invariant]
    closed spec fn inv(self) -> bool {
        commit_data_fits(self.error, self.data)
    }

    /// A failure with the given code and data.
    pub fn new(error: Error, data: Option<CommitData>) -> (r: CommitError)
        requires
            commit_data_fits(error, data),
        ensures
            r.error_view() == error,
            r.data_view() == data,
    {
        CommitError { error, data }
    }

    /// The error code.
    pub closed spec fn error_view(&self) -> Error {
        self.error
    }

    /// The data.
    pub closed spec fn data_view(&self) -> Option<CommitData> {
        self.data
    }

    /// The error code.
    pub fn error(&self) -> (r: Error)
        ensures
            r == self.error_view(),
    {
        self.error
    }

    /// What caused the failure, for the codes that carry it.
    pub fn data(&self) -> (r: Option<&CommitData>)
        ensures
            r matches Some(d) ==> self.data_view() == Some(*d),
            r is None ==> self.data_view() is None,
            commit_data_fits(self.error_view(), self.data_view()),
    {
        proof {
            use_type_invariant(self);
        }
        match &self.data {
            Some(d) => Some(d),
            None => None,
        }
    }
}

} // verus!
