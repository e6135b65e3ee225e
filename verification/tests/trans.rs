use alpm::conflict::{Conflict, FileConflict, FileConflictType, OwnedConflict, OwnedFileConflict};
use alpm::deps::{DepMissing, Depend};
use alpm::error::Error;
use alpm::package::{Package, PackageReason};
use alpm::trans::{
    AddError, CommitData, CommitError, IntoPkgAdd, LoadedPackage, PrepareData, PrepareError,
};

#[test]
fn conflicts() {
    let c = Conflict::new(
        Package::new("i3-gaps", "4.21-1", PackageReason::Explicit),
        Package::new("i3-wm", "4.22-1", PackageReason::Explicit),
        Depend::new("i3-wm"),
    );
    assert_eq!(c.package1().name(), "i3-gaps");
    assert_eq!(c.package2().name(), "i3-wm");
    assert_eq!(c.reason().name(), "i3-wm");
    let owned = OwnedConflict::new(c);
    assert_eq!(owned.package1().name(), "i3-gaps");
    assert_eq!(owned.as_conflict().package2().name(), "i3-wm");
}

#[test]
fn file_conflicts() {
    let f = FileConflict::new("pkg", FileConflictType::Filesystem, "/usr/bin/x");
    assert_eq!(f.target(), "pkg");
    assert_eq!(f.conflict_type(), FileConflictType::Filesystem);
    assert_eq!(f.file(), "/usr/bin/x");
    assert_eq!(f.conflicting_target(), Some("pkg"));
    let f = FileConflict::new("", FileConflictType::Target, "/etc/x");
    assert_eq!(f.conflicting_target(), None);
    let owned = OwnedFileConflict::new(f);
    assert_eq!(owned.file(), "/etc/x");
    assert_eq!(owned.as_file_conflict().conflict_type(), FileConflictType::Target);
}

#[test]
fn prepare_errors() {
    let e = PrepareError::new(
        Error::UnsatisfiedDeps,
        Some(PrepareData::UnsatisfiedDeps(vec![DepMissing::new(
            "app",
            Depend::new("lib>=2"),
            None,
        )])),
    );
    assert_eq!(e.error(), Error::UnsatisfiedDeps);
    match e.data() {
        Some(PrepareData::UnsatisfiedDeps(missing)) => {
            assert_eq!(missing.len(), 1);
            assert_eq!(missing[0].depend().name(), "lib");
        }
        other => panic!("unexpected data {:?}", other),
    }
    let e = PrepareError::new(Error::TransNotPrepared, None);
    assert_eq!(e.error(), Error::TransNotPrepared);
    assert!(e.data().is_none());
}

#[test]
fn commit_errors() {
    let e = CommitError::new(
        Error::PkgInvalidSig,
        Some(CommitData::PkgInvalid(vec!["bad.pkg.tar.zst".to_string()])),
    );
    assert_eq!(e.error(), Error::PkgInvalidSig);
    assert!(matches!(e.data(), Some(CommitData::PkgInvalid(v)) if v.len() == 1));
    let e = CommitError::new(
        Error::FileConflicts,
        Some(CommitData::FileConflict(vec![FileConflict::new(
            "a",
            FileConflictType::Target,
            "/x",
        )])),
    );
    assert!(matches!(e.data(), Some(CommitData::FileConflict(v)) if v[0].file() == "/x"));
    assert!(CommitError::new(Error::DiskSpace, None).data().is_none());
}

#[test]
fn loaded_packages_and_add_errors() {
    let loaded = LoadedPackage::new(Package::new("local", "1-1", PackageReason::Explicit));
    assert_eq!(loaded.pkg().name(), "local");
    assert_eq!(loaded.package().version(), "1-1");
    let p = Package::new("x", "2-1", PackageReason::Depend);
    assert_eq!((&p).package().name(), "x");
    let err = AddError { error: Error::TransDupTarget, pkg: &p };
    assert_eq!(err.error, Error::TransDupTarget);
    assert_eq!(err.pkg.name(), "x");
}

#[test]
fn error_ok() {
    assert!(Error::NoError.ok());
    assert!(!Error::PkgNotFound.ok());
}
