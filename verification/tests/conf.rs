use alpm::conf::{parse_sig_level, repo_sig_level, repo_usage};
use alpm::flags::{
    Capabilities, SigLevel, Usage, CAPABILITY_DOWNLOADER, CAPABILITY_NLS, CAPABILITY_SIGNATURES,
    SIG_DATABASE, SIG_DATABASE_MARGINAL_OK, SIG_DATABASE_OPTIONAL, SIG_DATABASE_UNKNOWN_OK,
    SIG_PACKAGE, SIG_PACKAGE_MARGINAL_OK, SIG_PACKAGE_OPTIONAL, SIG_PACKAGE_UNKNOWN_OK,
    SIG_USE_DEFAULT, USAGE_ALL, USAGE_INSTALL, USAGE_SEARCH, USAGE_SYNC, USAGE_UPGRADE,
};

fn words(ws: &[&str]) -> Vec<String> {
    ws.iter().map(|w| w.to_string()).collect()
}

#[test]
fn sig_level_words() {
    assert_eq!(parse_sig_level(&words(&[])).bits(), 0);
    assert_eq!(
        parse_sig_level(&words(&["PackageOptional"])).bits(),
        SIG_PACKAGE | SIG_PACKAGE_OPTIONAL
    );
    assert_eq!(
        parse_sig_level(&words(&["PackageOptional", "PackageRequired"])).bits(),
        SIG_PACKAGE
    );
    assert_eq!(
        parse_sig_level(&words(&["PackageRequired", "PackageNever"])).bits(),
        0
    );
    assert_eq!(
        parse_sig_level(&words(&["PackageTrustAll"])).bits(),
        SIG_PACKAGE_MARGINAL_OK | SIG_PACKAGE_UNKNOWN_OK
    );
    assert_eq!(
        parse_sig_level(&words(&["PackageTrustAll", "PackageTrustOnly"])).bits(),
        0
    );
    assert_eq!(
        parse_sig_level(&words(&["DatabaseOptional", "DatabaseTrustAll"])).bits(),
        SIG_DATABASE | SIG_DATABASE_OPTIONAL | SIG_DATABASE_MARGINAL_OK | SIG_DATABASE_UNKNOWN_OK
    );
    assert_eq!(
        parse_sig_level(&words(&["DatabaseOptional", "DatabaseRequired", "DatabaseTrustOnly"]))
            .bits(),
        SIG_DATABASE
    );
    assert_eq!(
        parse_sig_level(&words(&["DatabaseRequired", "DatabaseNever"])).bits(),
        0
    );
    assert_eq!(parse_sig_level(&words(&["Required", "Optional"])).bits(), 0);
}

#[test]
fn repo_sig_level_defaults_when_empty() {
    assert_eq!(repo_sig_level(&words(&[])).bits(), SIG_USE_DEFAULT);
    assert_eq!(repo_sig_level(&words(&["Never"])).bits(), 0);
    assert_eq!(repo_sig_level(&words(&["PackageRequired"])).bits(), SIG_PACKAGE);
}

#[test]
fn usage_words() {
    assert_eq!(repo_usage(&words(&[])).bits(), 0);
    assert_eq!(repo_usage(&words(&["Sync", "Search"])).bits(), USAGE_SYNC | USAGE_SEARCH);
    assert_eq!(
        repo_usage(&words(&["Install", "Upgrade"])).bits(),
        USAGE_INSTALL | USAGE_UPGRADE
    );
    assert_eq!(repo_usage(&words(&["All"])).bits(), USAGE_ALL);
    assert_eq!(repo_usage(&words(&["Bogus", "Sync"])).bits(), USAGE_ALL);
}

#[test]
fn flag_operations() {
    let mut s = SigLevel::empty();
    assert!(s.is_empty());
    s.insert(SigLevel::from_bits_retain(SIG_PACKAGE | SIG_DATABASE));
    assert!(s.contains(SigLevel::from_bits_retain(SIG_PACKAGE)));
    assert!(s.intersects(SigLevel::from_bits_retain(SIG_DATABASE | SIG_PACKAGE_OPTIONAL)));
    assert!(!s.contains(SigLevel::from_bits_retain(SIG_DATABASE | SIG_PACKAGE_OPTIONAL)));
    s.remove(SigLevel::from_bits_retain(SIG_PACKAGE));
    assert_eq!(s.bits(), SIG_DATABASE);
    assert_eq!(s.union(SigLevel::from_bits_retain(SIG_PACKAGE)).bits(), SIG_DATABASE | SIG_PACKAGE);

    let mut u = Usage::empty();
    u.insert(Usage::from_bits_retain(USAGE_SYNC));
    assert!(u.contains(Usage::from_bits_retain(USAGE_SYNC)));
    u.remove(Usage::from_bits_retain(USAGE_SYNC));
    assert!(u.is_empty());
    assert_eq!(Usage::from_bits_retain(USAGE_SYNC).union(Usage::from_bits_retain(USAGE_SEARCH)).bits(), 3);
}

#[test]
fn capabilities() {
    let c = Capabilities::from_bits(CAPABILITY_NLS | CAPABILITY_SIGNATURES).unwrap();
    assert!(c.nls());
    assert!(!c.downloader());
    assert!(c.signatures());
    assert_eq!(c.bits(), 5);
    let c = Capabilities::from_bits(CAPABILITY_DOWNLOADER).unwrap();
    assert!(c.downloader());
    assert!(Capabilities::from_bits(8).is_none());
}

#[test]
fn sig_level_words_compose_and_stay_in_their_bits() {
    let a = words(&["PackageRequired", "DatabaseOptional"]);
    let b = words(&["PackageNever", "Bogus", "DatabaseTrustAll"]);
    let mut ab = a.clone();
    ab.extend(b.clone());
    let mut step = parse_sig_level(&a);
    step.remove(SigLevel::from_bits_retain(SIG_PACKAGE));
    step.insert(SigLevel::from_bits_retain(SIG_DATABASE_MARGINAL_OK | SIG_DATABASE_UNKNOWN_OK));
    assert_eq!(parse_sig_level(&ab).bits(), step.bits());
    assert_eq!(parse_sig_level(&words(&["Bogus"])).bits(), 0);
    let pkg_only = parse_sig_level(&words(&["PackageOptional", "PackageTrustAll"])).bits();
    assert_eq!(pkg_only & !0xf, 0);
    let db_only = parse_sig_level(&words(&["DatabaseOptional", "DatabaseTrustAll"])).bits();
    assert_eq!(db_only & !0x3c00, 0);
}
