use alpm::events::{
    Event, EventType, OperationKind, PackageOperation, Question, QuestionType,
};

#[test]
fn events_from_raw() {
    assert_eq!(Event::from_raw(EventType::CheckDepsStart, 7), Event::CheckDepsStart);
    assert_eq!(Event::from_raw(EventType::ScriptletInfo, 7), Event::ScriptletInfo(7));
    assert_eq!(Event::from_raw(EventType::HookRunDone, 3), Event::HookRunDone(3));
    assert_eq!(Event::from_raw(EventType::KeyDownloadStart, 0), Event::KeyDownloadStart);
    assert_eq!(Event::from_raw(EventType::KeyDownloadDone, 0), Event::KeyringDone);
    assert_eq!(Event::from_raw(EventType::PkgRetrieveFailed, "x"), Event::PkgRetrieveFailed("x"));
}

#[test]
fn package_operations_from_raw() {
    assert_eq!(PackageOperation::from_raw(OperationKind::Install, "new", "old"), PackageOperation::Install("new"));
    assert_eq!(PackageOperation::from_raw(OperationKind::Upgrade, "new", "old"), PackageOperation::Upgrade("new", "old"));
    assert_eq!(PackageOperation::from_raw(OperationKind::Remove, "new", "old"), PackageOperation::Remove("old"));
}

#[test]
fn questions_from_raw() {
    assert_eq!(Question::from_raw(QuestionType::ReplacePkg, 1), Question::Replace(1));
    assert_eq!(Question::from_raw(QuestionType::SelectProvider, 2), Question::SelectProvider(2));
    assert_eq!(Question::from_raw(QuestionType::ImportKey, 3), Question::ImportKey(3));
}
