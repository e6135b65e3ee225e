//! Conflicts between packages and between the files they install.
use vstd::prelude::*;

use crate::deps::{Dep, DepSpec, Depend};
use crate::package::{Package, PackageSpec};

verus! {

/// Two packages that conflict, and the dependency that makes them.
#[derive(Debug)]
pub struct Conflict {
    package1: Package,
    package2: Package,
    reason: Depend,
}

impl Conflict {
    /// A conflict between two packages for the given reason.
    pub fn new(package1: Package, package2: Package, reason: Depend) -> (c: Conflict)
        ensures
            c.package1_view() == package1@,
            c.package2_view() == package2@,
            c.reason_view() == reason@,
    {
        Conflict { package1, package2, reason }
    }

    /// The first package.
    pub closed spec fn package1_view(&self) -> PackageSpec {
        self.package1@
    }

    /// The second package.
    pub closed spec fn package2_view(&self) -> PackageSpec {
        self.package2@
    }

    /// The dependency that conflicts.
    pub closed spec fn reason_view(&self) -> DepSpec {
        self.reason@
    }

    /// The first package.
    pub fn package1(&self) -> (r: &Package)
        ensures
            r@ == self.package1_view(),
    {
        &self.package1
    }

    /// The second package.
    pub fn package2(&self) -> (r: &Package)
        ensures
            r@ == self.package2_view(),
    {
        &self.package2
    }

    /// The dependency that conflicts.
    pub fn reason(&self) -> (r: &Dep<'static>)
        ensures
            r@ == self.reason_view(),
    {
        self.reason.as_dep()
    }
}

/// A conflict that is owned by its holder.
#[derive(Debug)]
pub struct OwnedConflict {
    inner: Conflict,
}

impl OwnedConflict {
    /// Takes ownership of a conflict.
    pub fn new(inner: Conflict) -> (r: OwnedConflict)
        ensures
            r.conflict() == inner,
    {
        OwnedConflict { inner }
    }

    /// The conflict held.
    pub closed spec fn conflict(&self) -> Conflict {
        self.inner
    }

    /// The conflict held.
    pub fn as_conflict(&self) -> (r: &Conflict)
        ensures
            *r == self.conflict(),
    {
        &self.inner
    }
}

impl std::ops::Deref for OwnedConflict {
    type Target = Conflict;

    fn deref(&self) -> (r: &Conflict)
        ensures
            *r == self.conflict(),
    {
        &self.inner
    }
}

/// Where a file conflict was found.
#[derive(Debug, Eq, PartialEq, Structural, Copy, Clone)]
pub enum FileConflictType {
    /// Between two packages of the transaction.
    Target,
    /// With a file already on the filesystem.
    Filesystem,
}

/// A file that two packages, or a package and the filesystem, both claim.
#[derive(Debug)]
pub struct FileConflict {
    target: String,
    conflict_type: FileConflictType,
    file: String,
}

impl FileConflict {
    /// A conflict over `file` found for the package `target`.
    pub fn new(target: &str, conflict_type: FileConflictType, file: &str) -> (c: FileConflict)
        ensures
            c.target_view() == target@,
            c.type_view() == conflict_type,
            c.file_view() == file@,
    {
        FileConflict { target: target.to_owned(), conflict_type, file: file.to_owned() }
    }

    /// The name of the package the conflict was found for.
    pub closed spec fn target_view(&self) -> Seq<char> {
        self.target@
    }

    /// Where the conflict was found.
    pub closed spec fn type_view(&self) -> FileConflictType {
        self.conflict_type
    }

    /// The path that is claimed twice.
    pub closed spec fn file_view(&self) -> Seq<char> {
        self.file@
    }

    /// The name of the package the conflict was found for.
    pub fn target(&self) -> (r: &str)
        ensures
            r@ == self.target_view(),
    {
        self.target.as_str()
    }

    /// Where the conflict was found.
    pub fn conflict_type(&self) -> (r: FileConflictType)
        ensures
            r == self.type_view(),
    {
        self.conflict_type
    }

    /// The path that is claimed twice.
    pub fn file(&self) -> (r: &str)
        ensures
            r@ == self.file_view(),
    {
        self.file.as_str()
    }

    /// The target, read as absent where it is the empty string.
    pub fn conflicting_target(&self) -> (r: Option<&str>)
        ensures
            r is None <==> self.target_view().len() == 0,
            r matches Some(t) ==> t@ == self.target_view(),
    {
        let s = self.target.as_str();
        if s.is_empty() {
            None
        } else {
            Some(s)
        }
    }
}

/// A file conflict that is owned by its holder.
#[derive(Debug)]
pub struct OwnedFileConflict {
    inner: FileConflict,
}

impl OwnedFileConflict {
    /// Takes ownership of a file conflict.
    pub fn new(inner: FileConflict) -> (r: OwnedFileConflict)
        ensures
            r.conflict() == inner,
    {
        OwnedFileConflict { inner }
    }

    /// The file conflict held.
    pub closed spec fn conflict(&self) -> FileConflict {
        self.inner
    }

    /// The file conflict held.
    pub fn as_file_conflict(&self) -> (r: &FileConflict)
        ensures
            *r == self.conflict(),
    {
        &self.inner
    }
}

impl std::ops::Deref for OwnedFileConflict {
    type Target = FileConflict;

    fn deref(&self) -> (r: &FileConflict)
        ensures
            *r == self.conflict(),
    {
        &self.inner
    }
}

} // verus!
