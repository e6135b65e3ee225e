use alpm::signing::{PgpKey, SigList, SigResult, SigStatus, SigValidity};

#[test]
fn pgp_key_getters() {
    let k = PgpKey::new("ABCD", "Dev <dev@example.org>", Some("Dev"), None, 100, 200, 4096, 0, 1);
    assert_eq!(k.fingerprint(), "ABCD");
    assert_eq!(k.uid(), "Dev <dev@example.org>");
    assert_eq!(k.name(), Some("Dev"));
    assert_eq!(k.email(), None);
    assert_eq!(k.created(), 100);
    assert_eq!(k.expires(), 200);
    assert_eq!(k.length(), 4096);
    assert_eq!(k.revoked(), 0);
    assert_eq!(k.pubkey_algo(), 1);
}

#[test]
fn sig_list_results() {
    let mut l = SigList::new();
    assert!(l.results().is_empty());
    let k = PgpKey::new("EF01", "uid", None, Some("a@b"), 1, 0, 2048, 1, 2);
    l.push(SigResult::new(k, SigStatus::KeyExpired, SigValidity::Marginal));
    assert_eq!(l.results().len(), 1);
    let r = &l.results()[0];
    assert_eq!(r.status(), SigStatus::KeyExpired);
    assert_eq!(r.validity(), SigValidity::Marginal);
    assert_eq!(r.key().fingerprint(), "EF01");
    assert_eq!(r.key().email(), Some("a@b"));
    assert!(SigList::default().results().is_empty());
}
