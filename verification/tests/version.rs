use std::cmp::Ordering;

use alpm::deps::Depend;
use alpm::version::{vercmp, Version};

#[test]
fn version_test_version() {
    assert!(Version::new("0") <= Version::new("1"));
    assert!(Version::new("2") <= Version::new("2"));
    assert!(Version::new("2") > Version::new("1"));
    assert!(Version::new("2") < Version::new("3"));
    assert!(Version::new("2") >= Version::new("1"));
    assert!(Version::new("2") >= Version::new("2"));
    assert!(Version::new("2") == Version::new("2"));
    assert!(Version::new("2").as_str() == "2");

    let dep1 = Depend::new("foo=20");
    let dep2 = Depend::new("foo=34");

    assert!(dep1.version() != dep2.version());
    assert!(vercmp(dep1.version().unwrap(), dep2.version().unwrap()) == Ordering::Less);
    assert!(Version::new("34").as_str() == dep2.version().unwrap());
    assert!(vercmp("34", dep2.version().unwrap()) != Ordering::Less);
    assert!(dep2.version().unwrap() == Version::new("34").as_str());
    assert!(vercmp(dep2.version().unwrap(), "34") != Ordering::Less);
}

#[test]
fn vercmp_examples() {
    let cases = [
        ("1.0", "1.0", Ordering::Equal),
        ("1.0", "1.1", Ordering::Less),
        ("1.10", "1.9", Ordering::Greater),
        ("1.0a", "1.0", Ordering::Less),
        ("1.0", "1.0.1", Ordering::Less),
        ("1.0alpha", "1.0beta", Ordering::Less),
        ("1:1.0", "2.0", Ordering::Greater),
        ("1.0-1", "1.0-2", Ordering::Less),
        ("1.0-2", "1.0", Ordering::Equal),
        ("1.0", "1.0-2", Ordering::Equal),
        ("001", "1", Ordering::Equal),
        ("1.0.a", "1.0.1", Ordering::Less),
        ("1..0", "1.0", Ordering::Greater),
        ("1.5.a", "1.5", Ordering::Greater),
        ("1.0", "1.0.a", Ordering::Less),
        ("1.", "1", Ordering::Greater),
        ("1.0", "1.0.", Ordering::Less),
        ("", "", Ordering::Equal),
        ("1", "", Ordering::Greater),
    ];
    for (a, b, want) in cases {
        assert_eq!(vercmp(a, b), want, "{} vs {}", a, b);
        assert_eq!(vercmp(b, a), want.reverse(), "{} vs {}", b, a);
    }
}

#[test]
fn version_vercmp_and_byte_order_differ() {
    let a = Version::new("10");
    let b = Version::new("9");
    assert!(a < b);
    assert_eq!(a.vercmp(&b), Ordering::Greater);
}

#[test]
fn release_only_counts_when_both_have_one() {
    assert_eq!(vercmp("1-2", "1"), Ordering::Equal);
    assert_eq!(vercmp("1", "1-1"), Ordering::Equal);
    assert_eq!(vercmp("1-2", "1-1"), Ordering::Greater);
    assert_eq!(vercmp("1.", "1"), Ordering::Greater);
    assert_eq!(vercmp("0:1", "1"), Ordering::Equal);
    assert_eq!(vercmp(":1", "1"), Ordering::Equal);
}
