use alpm::db::{foreign_packages, native_packages, Db, DbListExt};
use alpm::error::Error;
use alpm::package::{Package, PackageReason};
use alpm::target::{AsTarg, Targ, Target};

#[test]
fn test_target() {
    let pkg = "repo/pkg";
    let pkg2 = String::from("pkg2");

    let target = Targ::from(pkg);
    let target2 = Targ::from(pkg2.as_str());

    assert_eq!(target.repo, Some("repo"));
    assert_eq!(target.pkg, "pkg");
    assert_eq!(target2.repo, None);
    assert_eq!(target2.pkg, "pkg2");
}

#[test]
fn targ_keeps_only_the_second_piece() {
    let t = Targ::from("core/linux/extra");
    assert_eq!(t.repo, Some("core"));
    assert_eq!(t.pkg, "linux");
}

#[test]
fn targ_with_empty_pieces() {
    let t = Targ::from("/pkg");
    assert_eq!(t.repo, Some(""));
    assert_eq!(t.pkg, "pkg");
    let t = Targ::from("repo/");
    assert_eq!(t.repo, Some("repo"));
    assert_eq!(t.pkg, "");
    let t = Targ::from("");
    assert_eq!(t.repo, None);
    assert_eq!(t.pkg, "");
}

#[test]
fn targ_text_reads_back() {
    let t = Targ::new(Some("extra"), "vifm");
    let s = t.to_string();
    assert_eq!(s, "extra/vifm");
    let back = Targ::from(s.as_str());
    assert_eq!(back, t);
    let t = Targ::new(None, "vifm>=1.0");
    assert_eq!(t.to_string(), "vifm>=1.0");
    assert_eq!(Targ::from("vifm>=1.0"), t);
}

#[test]
fn target_as_targ() {
    let t = Target::new(Some("core"), "linux");
    assert_eq!(t.repo.as_deref(), Some("core"));
    assert_eq!(t.pkg, "linux");
    assert_eq!(t.as_targ(), Targ::new(Some("core"), "linux"));
    assert_eq!(t.to_string(), "core/linux");
    let t = Target::new(None, "linux");
    assert_eq!(t.as_targ(), Targ::new(None, "linux"));
    assert_eq!("core/linux".as_targ(), Targ::new(Some("core"), "linux"));
    assert_eq!(String::from("linux").as_targ(), Targ::new(None, "linux"));
}

fn dbs() -> Vec<Db> {
    let mut core = Db::new("core");
    assert!(core.add_pkg(Package::new("linux", "6.1-1", PackageReason::Explicit)));
    assert!(core.add_pkg(Package::new("glibc", "2.38-1", PackageReason::Depend)));
    let mut extra = Db::new("extra");
    assert!(extra.add_pkg(Package::new("linux", "6.2-1", PackageReason::Explicit)));
    assert!(extra.add_pkg(Package::new("vifm", "0.12-1", PackageReason::Explicit)));
    vec![core, extra]
}

#[test]
fn db_list_pkg_takes_first_database() {
    let dbs = dbs();
    let p = dbs.as_slice().pkg("linux").unwrap();
    assert_eq!(p.version(), "6.1-1");
    let p = dbs.as_slice().pkg("vifm").unwrap();
    assert_eq!(p.version(), "0.12-1");
    assert_eq!(dbs.as_slice().pkg("nothing").unwrap_err(), Error::PkgNotFound);
}

#[test]
fn db_list_find_target() {
    let dbs = dbs();
    let p = dbs.as_slice().find_target(Targ::from("extra/linux")).unwrap();
    assert_eq!(p.version(), "6.2-1");
    let p = dbs.as_slice().find_target(Targ::from("linux")).unwrap();
    assert_eq!(p.version(), "6.1-1");
    assert_eq!(
        dbs.as_slice().find_target(Targ::from("core/vifm")).unwrap_err(),
        Error::PkgNotFound
    );
    assert_eq!(
        dbs.as_slice().find_target(Targ::from("community/vifm")).unwrap_err(),
        Error::PkgNotFound
    );
}

#[test]
fn native_and_foreign_packages() {
    let sync = dbs();
    let mut local = Db::new("local");
    assert!(local.add_pkg(Package::new("linux", "6.1-1", PackageReason::Explicit)));
    assert!(local.add_pkg(Package::new("my-aur-pkg", "1-1", PackageReason::Explicit)));
    assert!(local.add_pkg(Package::new("vifm", "0.11-1", PackageReason::Explicit)));
    let native: Vec<_> = native_packages(&local, &sync).iter().map(|p| p.name()).collect();
    let foreign: Vec<_> = foreign_packages(&local, &sync).iter().map(|p| p.name()).collect();
    assert_eq!(native, ["linux", "vifm"]);
    assert_eq!(foreign, ["my-aur-pkg"]);
    assert_eq!(native_packages(&local, &[]).len(), 0);
    assert_eq!(foreign_packages(&local, &[]).len(), 3);
}
