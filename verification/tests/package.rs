use alpm::package::{Package, PackageReason, Pkg};
use alpm::deps::Depend;

#[test]
fn test_pkg_optimization() {
    assert!(std::mem::size_of::<&Pkg>() == std::mem::size_of::<&Option<Pkg>>());
}

#[test]
fn package_builders() {
    let mut p = Package::new("app", "1.0-1", PackageReason::Explicit);
    assert_eq!(p.name(), "app");
    assert_eq!(p.version(), "1.0-1");
    assert_eq!(p.reason(), PackageReason::Explicit);
    assert!(p.depends().is_empty());
    p.add_depend(Depend::new("lib>=1"));
    p.add_optdepend(Depend::new("extra: more"));
    p.add_provide(Depend::new("app-virtual=1.0"));
    p.add_required_by("other");
    p.add_optional_for("third");
    assert_eq!(p.depends().len(), 1);
    assert_eq!(p.depends()[0].name(), "lib");
    assert_eq!(p.optdepends()[0].desc(), "more");
    assert_eq!(p.provides()[0].version(), Some("1.0"));
    assert_eq!(p.required_by(), ["other".to_string()]);
    assert_eq!(p.optional_for(), ["third".to_string()]);
}
