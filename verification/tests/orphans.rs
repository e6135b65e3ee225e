use alpm::db::Db;
use alpm::deps::Depend;
use alpm::orphans::{
    find_orphans, find_unneeded, find_unneeded_classified, is_orphan, removal_closure, OrphanExt,
};
use alpm::package::{Package, PackageReason};

/// A local database laid out like the one the orphan tests use: an
/// explicit application with a hard and an optional dependency, a chain
/// of orphans `orphan-a -> orphan-b -> orphan-c`, and an orphan that needs
/// a virtual package provided by another.
fn test_db() -> Db {
    let mut db = Db::new("local");

    let mut app = Package::new("explicit-app", "1.0-1", PackageReason::Explicit);
    app.add_depend(Depend::new("needed-lib"));
    app.add_optdepend(Depend::new("opt-dep: optional feature"));
    assert!(db.add_pkg(app));

    let mut lib = Package::new("needed-lib", "1.0-1", PackageReason::Depend);
    lib.add_required_by("explicit-app");
    assert!(db.add_pkg(lib));

    let mut opt = Package::new("opt-dep", "1.0-1", PackageReason::Depend);
    opt.add_optional_for("explicit-app");
    assert!(db.add_pkg(opt));

    let mut a = Package::new("orphan-a", "1.0-1", PackageReason::Depend);
    a.add_depend(Depend::new("orphan-b"));
    assert!(db.add_pkg(a));

    let mut b = Package::new("orphan-b", "1.0-1", PackageReason::Depend);
    b.add_depend(Depend::new("orphan-c"));
    b.add_required_by("orphan-a");
    assert!(db.add_pkg(b));

    let mut c = Package::new("orphan-c", "1.0-1", PackageReason::Depend);
    c.add_required_by("orphan-b");
    assert!(db.add_pkg(c));

    let mut consumer = Package::new("orphan-consumer", "1.0-1", PackageReason::Depend);
    consumer.add_depend(Depend::new("virtual-thing"));
    assert!(db.add_pkg(consumer));

    let mut provider = Package::new("orphan-provider", "1.0-1", PackageReason::Depend);
    provider.add_provide(Depend::new("virtual-thing"));
    provider.add_required_by("orphan-consumer");
    assert!(db.add_pkg(provider));

    db
}

fn unneeded_names(db: &Db, keep_optional: bool) -> Vec<&str> {
    find_unneeded(db, keep_optional)
        .iter()
        .map(|p| p.name())
        .collect()
}

#[test]
fn test_is_orphan() {
    let db = test_db();
    assert!(!is_orphan(db.pkg("needed-lib").unwrap()));
    assert!(is_orphan(db.pkg("orphan-a").unwrap()));
    assert!(!is_orphan(db.pkg("explicit-app").unwrap()));
}

#[test]
fn test_find_orphans() {
    let db = test_db();
    let mut names: Vec<_> = db.find_orphans().iter().map(|p| p.name()).collect();
    names.sort();
    assert_eq!(names, ["orphan-a", "orphan-consumer"]);
    let free: Vec<_> = find_orphans(&db).iter().map(|p| p.name()).collect();
    assert_eq!(free, ["orphan-a", "orphan-consumer"]);
}

#[test]
fn test_find_unneeded() {
    let db = test_db();
    let mut names = unneeded_names(&db, false);
    names.sort();
    assert_eq!(
        names,
        [
            "opt-dep",
            "orphan-a",
            "orphan-b",
            "orphan-c",
            "orphan-consumer",
            "orphan-provider"
        ]
    );
}

#[test]
fn test_find_unneeded_keep_optional() {
    let db = test_db();
    let mut names = unneeded_names(&db, true);
    names.sort();
    assert_eq!(
        names,
        [
            "orphan-a",
            "orphan-b",
            "orphan-c",
            "orphan-consumer",
            "orphan-provider"
        ]
    );
}

fn closure_names<'a>(db: &'a Db, targets: &[&str]) -> Vec<&'a str> {
    let mut names: Vec<_> = removal_closure(db, targets, true)
        .iter()
        .map(|p| p.name())
        .collect();
    names.sort();
    names
}

#[test]
fn test_removal_closure_leaf() {
    let db = test_db();
    assert_eq!(closure_names(&db, &["orphan-c"]), ["orphan-a", "orphan-b", "orphan-c"]);
}

#[test]
fn test_removal_closure_root() {
    let db = test_db();
    assert_eq!(closure_names(&db, &["orphan-a"]), ["orphan-a"]);
}

#[test]
fn test_removal_closure_middle() {
    let db = test_db();
    assert_eq!(closure_names(&db, &["orphan-b"]), ["orphan-a", "orphan-b"]);
}

#[test]
fn test_removal_closure_empty() {
    let db = test_db();
    assert!(closure_names(&db, &[]).is_empty());
}

#[test]
fn test_removal_closure_not_unneeded() {
    let db = test_db();
    assert!(closure_names(&db, &["needed-lib"]).is_empty());
}

#[test]
fn test_removal_closure_multiple_targets() {
    let db = test_db();
    assert_eq!(
        closure_names(&db, &["orphan-a", "orphan-provider"]),
        ["orphan-a", "orphan-consumer", "orphan-provider"]
    );
}

#[test]
fn test_removal_closure_keep_optional_false() {
    let db = test_db();
    let mut names: Vec<_> = removal_closure(&db, &["orphan-c"], false)
        .iter()
        .map(|p| p.name())
        .collect();
    names.sort();
    assert_eq!(names, ["orphan-a", "orphan-b", "orphan-c"]);
}

#[test]
fn test_removal_closure_virtual_dep() {
    let db = test_db();
    assert_eq!(
        closure_names(&db, &["orphan-provider"]),
        ["orphan-consumer", "orphan-provider"]
    );
}

#[test]
fn test_find_unneeded_classified() {
    let db = test_db();
    let mut classified = find_unneeded_classified(&db, true);
    classified.sort_by_key(|u| u.pkg.name());

    let result: Vec<_> = classified
        .iter()
        .map(|u| (u.pkg.name(), u.direct))
        .collect();
    assert_eq!(
        result,
        [
            ("orphan-a", true),
            ("orphan-b", false),
            ("orphan-c", false),
            ("orphan-consumer", true),
            ("orphan-provider", false),
        ]
    );
}

#[test]
fn orphan_ext_methods_agree() {
    let db = test_db();
    let names: Vec<_> = db.find_unneeded(true).iter().map(|p| p.name()).collect();
    let free: Vec<_> = find_unneeded(&db, true).iter().map(|p| p.name()).collect();
    assert_eq!(names, free);
    assert_eq!(db.find_unneeded_classified(false).len(), 6);
    let closure: Vec<_> = db.removal_closure(&["orphan-b"], true).iter().map(|p| p.name()).collect();
    assert_eq!(closure, ["orphan-a", "orphan-b"]);
}

#[test]
fn versioned_dependency_not_met_leaves_package_unneeded() {
    let mut db = Db::new("local");
    let mut app = Package::new("app", "1-1", PackageReason::Explicit);
    app.add_depend(Depend::new("lib>=2"));
    assert!(db.add_pkg(app));
    let mut lib = Package::new("lib", "1-1", PackageReason::Depend);
    lib.add_required_by("app");
    assert!(db.add_pkg(lib));
    assert_eq!(unneeded_names(&db, false), ["lib"]);
}

#[test]
fn database_refuses_duplicate_names() {
    let mut db = Db::new("local");
    assert!(db.add_pkg(Package::new("a", "1", PackageReason::Explicit)));
    assert!(!db.add_pkg(Package::new("a", "2", PackageReason::Explicit)));
    assert_eq!(db.pkgs().len(), 1);
    assert_eq!(db.pkg("a").unwrap().version(), "1");
    assert_eq!(db.name(), "local");
}
