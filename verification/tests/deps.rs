use alpm::deps::{DepMissing, DepMod, DepModVer, Depend, DependMissing};

#[test]
fn test_depend() {
    let dep = Depend::new("abc");
    assert_eq!(dep.name(), "abc");
}

#[test]
fn test_eq() {
    assert_eq!(Depend::new("foo=1"), Depend::new("foo=1"));
    assert!(Depend::new("foo=2") != Depend::new("foo=1"));
}

#[test]
fn parse_each_comparison() {
    let cases = [
        ("foo", DepMod::Any, None),
        ("foo=1", DepMod::Eq, Some("1")),
        ("foo>=1.2", DepMod::Ge, Some("1.2")),
        ("foo<=1:2-3", DepMod::Le, Some("1:2-3")),
        ("foo>2", DepMod::Gt, Some("2")),
        ("foo<3", DepMod::Lt, Some("3")),
    ];
    for (text, m, v) in cases {
        let d = Depend::new(text);
        assert_eq!(d.name(), "foo");
        assert_eq!(d.depmod(), m);
        assert_eq!(d.version(), v);
        assert_eq!(d.to_string(), text);
    }
}

#[test]
fn parse_description() {
    let d = Depend::new("python>=3: for the scripts");
    assert_eq!(d.name(), "python");
    assert_eq!(d.depmod(), DepMod::Ge);
    assert_eq!(d.version(), Some("3"));
    assert_eq!(d.desc(), "for the scripts");
    assert_eq!(d.to_string(), "python>=3: for the scripts");
}

#[test]
fn description_separator_needs_a_space() {
    let d = Depend::new("foo=1:2");
    assert_eq!(d.name(), "foo");
    assert_eq!(d.version(), Some("1:2"));
}

#[test]
fn first_operator_wins() {
    let d = Depend::new("a>b<c");
    assert_eq!(d.name(), "a>b");
    assert_eq!(d.depmod(), DepMod::Lt);
    assert_eq!(d.version(), Some("c"));
}

#[test]
fn depmodver_carries_the_version() {
    let d = Depend::new("foo>=2");
    assert_eq!(d.depmodver(), DepModVer::Ge("2"));
    assert_eq!(d.depmodver().depmod(), DepMod::Ge);
    assert_eq!(Depend::new("foo").depmodver(), DepModVer::Any);
}

#[test]
fn to_depend_reads_back() {
    let d = Depend::new("foo<=1.0-2: why");
    let e = d.as_dep().to_depend();
    assert_eq!(d, e);
    let c = d.as_dep().clone();
    assert_eq!(c.to_string(), "foo<=1.0-2: why");
}

#[test]
fn dep_missing_parts() {
    let m = DepMissing::new("app", Depend::new("lib>=2"), Some("other"));
    assert_eq!(m.target(), "app");
    assert_eq!(m.depend().name(), "lib");
    assert_eq!(m.causing_pkg(), Some("other"));
    let m = DepMissing::new("app", Depend::new("lib"), None);
    assert_eq!(m.causing_pkg(), None);
    let owned = DependMissing::new(m);
    assert_eq!(owned.as_missing().target(), "app");
}

#[test]
fn to_depend_gives_back_every_dependency() {
    for text in ["a>b<c", "foo>=1.2", "x=: y: z", "<=", "n: d", "foo=1:2-3"] {
        let d = Depend::new(text);
        let e = d.as_dep().to_depend();
        assert_eq!(d, e);
        assert_eq!(e.to_string(), d.to_string());
        assert_eq!(d.to_string(), text);
    }
}
