use alpm::deps::Depend;
use alpm::satisfy::{
    satisfies, satisfies_dep, satisfies_dep_nover, satisfies_nover, satisfies_provide,
    satisfies_provide_nover, satisfies_ver,
};
use alpm::version::Version;

#[test]
fn test_satisfies_ver() {
    assert!(satisfies_ver(
        Depend::new("foo>0").as_dep(),
        Version::new("9.0.0").as_str()
    ));
    assert!(satisfies_ver(&Depend::new("foo<10"), Version::new("9.0.0").as_str()));
    assert!(satisfies_ver(&Depend::new("foo=10"), Version::new("10").as_str()));
    assert!(satisfies_ver(&Depend::new("foo=10-1"), Version::new("10-1").as_str()));
    assert!(satisfies_ver(&Depend::new("foo=10"), Version::new("10-1").as_str()));
    assert!(satisfies_ver(&Depend::new("foo=10"), Version::new("10-2").as_str()));
    assert!(!satisfies_ver(
        &Depend::new("foo=10-1"),
        Version::new("10-2").as_str()
    ));
    assert!(satisfies_ver(&Depend::new("foo<=10"), Version::new("9.0.0").as_str()));
    assert!(satisfies_ver(&Depend::new("foo>=9"), Version::new("9.0.0").as_str()));
    assert!(satisfies_ver(
        &Depend::new("foo=9.0.0"),
        Version::new("9.0.0").as_str()
    ));

    assert!(!satisfies_ver(
        &Depend::new("foo>=10"),
        Version::new("9.0.0").as_str()
    ));
    assert!(!satisfies_ver(&Depend::new("foo<=8"), Version::new("9.0.0").as_str()));
    assert!(!satisfies_ver(&Depend::new("foo=8"), Version::new("9.0.0").as_str()));

    assert!(satisfies_ver(&Depend::new("foo"), Version::new("1").as_str()));
    assert!(satisfies_ver(&Depend::new("foo"), Version::new("1.0.0").as_str()));
}

#[test]
fn satisfies_by_name_and_version() {
    let dep = Depend::new("lib>=2");
    assert!(satisfies_dep(&dep, "lib", "2.1"));
    assert!(!satisfies_dep(&dep, "lib", "1.9"));
    assert!(!satisfies_dep(&dep, "other", "3"));
    assert!(satisfies_dep_nover(&dep, "lib"));
    assert!(!satisfies_dep_nover(&dep, "other"));
}

#[test]
fn satisfies_by_provision() {
    let dep = Depend::new("sh>=5");
    assert!(satisfies_provide(&dep, &Depend::new("sh=5.2")));
    assert!(!satisfies_provide(&dep, &Depend::new("sh=4")));
    assert!(!satisfies_provide(&dep, &Depend::new("sh")));
    assert!(satisfies_provide(&Depend::new("sh"), &Depend::new("sh")));
    assert!(satisfies_provide(&Depend::new("sh"), &Depend::new("sh=1")));
    assert!(!satisfies_provide(&dep, &Depend::new("zsh=5")));
    assert!(satisfies_provide_nover(&dep, &Depend::new("sh")));
    assert!(!satisfies_provide_nover(&dep, &Depend::new("zsh=5")));

    let provides = vec![Depend::new("zsh=5.9"), Depend::new("sh=5.9")];
    assert!(satisfies(&dep, "bash", "5.2", &provides));
    assert!(satisfies(&dep, "sh", "5.0", &[]));
    assert!(!satisfies(&dep, "bash", "5.2", &provides[..1]));
    assert!(satisfies_nover(&dep, "bash", &provides));
    assert!(!satisfies_nover(&dep, "bash", &provides[..1]));
}

#[test]
fn package_meets_dependency_on_its_own_version() {
    for text in ["foo=1.0-1", "foo>=1.0-1", "foo<=1.0-1", "foo"] {
        assert!(satisfies_dep(&Depend::new(text), "foo", "1.0-1"), "{}", text);
    }
    assert!(!satisfies_dep(&Depend::new("foo>1.0-1"), "foo", "1.0-1"));
    assert!(!satisfies_dep(&Depend::new("foo<1.0-1"), "foo", "1.0-1"));
}
