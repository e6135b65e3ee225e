use alpm::db::{Db, DbListExt};
use alpm::deps::Depend;
use alpm::package::{Package, PackageReason};
use alpm::resolve::{
    compute_optional_for, compute_required_by, find_dbs_satisfier, find_satisfier,
    find_target_satisfier, is_orphan_in, package_meets,
};
use alpm::target::Targ;

fn pkg(name: &str, version: &str, provides: &[&str]) -> Package {
    let mut p = Package::new(name, version, PackageReason::Depend);
    for prov in provides {
        p.add_provide(Depend::new(prov));
    }
    p
}

#[test]
fn package_meets_literally_and_by_provision() {
    let bash = pkg("bash", "5.2-1", &["sh=5.2", "posix-sh>=1"]);
    assert!(package_meets(&bash, &Depend::new("bash>=5")));
    assert!(!package_meets(&bash, &Depend::new("bash>=6")));
    assert!(package_meets(&bash, &Depend::new("sh>=5")));
    assert!(!package_meets(&bash, &Depend::new("sh>=6")));
    assert!(package_meets(&bash, &Depend::new("posix-sh")));
    assert!(!package_meets(&bash, &Depend::new("posix-sh>=1")));
    assert!(package_meets(&pkg("foo", "10-1", &[]), &Depend::new("foo=10")));
    assert!(!package_meets(&pkg("foo", "10-1", &[]), &Depend::new("foo=10-2")));
}

fn local() -> Db {
    let mut db = Db::new("local");
    let mut app = Package::new("app", "1-1", PackageReason::Explicit);
    app.add_depend(Depend::new("lib>=1"));
    app.add_depend(Depend::new("sh"));
    app.add_optdepend(Depend::new("extra: more"));
    assert!(db.add_pkg(app));
    let mut tool = Package::new("tool", "1-1", PackageReason::Explicit);
    tool.add_depend(Depend::new("lib"));
    assert!(db.add_pkg(tool));
    assert!(db.add_pkg(pkg("lib", "2-1", &[])));
    assert!(db.add_pkg(pkg("bash", "5.2-1", &["sh=5.2"])));
    assert!(db.add_pkg(pkg("extra", "1-1", &[])));
    assert!(db.add_pkg(pkg("lonely", "1-1", &[])));
    db
}

#[test]
fn dependents_are_computed_from_the_database() {
    let db = local();
    let lib = db.pkg("lib").unwrap();
    assert_eq!(compute_required_by(&db, lib), ["app", "tool"]);
    assert!(compute_optional_for(&db, lib).is_empty());
    let bash = db.pkg("bash").unwrap();
    assert_eq!(compute_required_by(&db, bash), ["app"]);
    let extra = db.pkg("extra").unwrap();
    assert!(compute_required_by(&db, extra).is_empty());
    assert_eq!(compute_optional_for(&db, extra), ["app"]);
    assert!(!is_orphan_in(&db, lib));
    assert!(!is_orphan_in(&db, extra));
    assert!(is_orphan_in(&db, db.pkg("lonely").unwrap()));
    assert!(!is_orphan_in(&db, db.pkg("app").unwrap()));
}

#[test]
fn satisfiers() {
    let db = local();
    assert_eq!(find_satisfier(db.pkgs(), "sh>=5").unwrap().name(), "bash");
    assert_eq!(find_satisfier(db.pkgs(), "lib").unwrap().name(), "lib");
    assert!(find_satisfier(db.pkgs(), "lib>=3").is_none());

    let mut core = Db::new("core");
    assert!(core.add_pkg(pkg("busybox", "1.36-1", &["sh=1.36"])));
    assert!(core.add_pkg(pkg("linux", "6.1-1", &[])));
    let mut extra = Db::new("extra");
    assert!(extra.add_pkg(pkg("sh", "5.2-1", &[])));
    assert!(extra.add_pkg(pkg("linux", "6.2-1", &[])));
    let dbs = vec![core, extra];
    assert_eq!(find_dbs_satisfier(&dbs, "sh").unwrap().version(), "5.2-1");
    assert_eq!(find_dbs_satisfier(&dbs, "sh<2").unwrap().name(), "busybox");
    assert_eq!(find_dbs_satisfier(&dbs, "linux>=6.2").unwrap().version(), "6.2-1");
    assert!(find_dbs_satisfier(&dbs, "linux>=7").is_none());

    let t = find_target_satisfier(&dbs, Targ::from("core/sh")).unwrap();
    assert_eq!(t.name(), "busybox");
    assert!(find_target_satisfier(&dbs, Targ::from("community/sh")).is_none());
    let t = dbs.as_slice().find_target_satisfier(Targ::from("linux")).unwrap();
    assert_eq!(t.version(), "6.1-1");
}
