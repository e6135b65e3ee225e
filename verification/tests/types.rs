use alpm::types::{DownloadEvent, DownloadEventType, DownloadResult};

#[test]
fn download_results_from_status() {
    assert_eq!(DownloadResult::from_status(0), DownloadResult::Success);
    assert_eq!(DownloadResult::from_status(1), DownloadResult::UpToDate);
    assert_eq!(DownloadResult::from_status(-1), DownloadResult::Failed);
    assert_eq!(DownloadResult::from_status(i32::MIN), DownloadResult::Failed);
}

#[test]
fn download_events_from_raw() {
    match DownloadEvent::from_raw(DownloadEventType::Init, 1, 0, 0, 0) {
        DownloadEvent::Init(e) => assert!(e.optional),
        other => panic!("unexpected {:?}", other),
    }
    match DownloadEvent::from_raw(DownloadEventType::Retry, 0, 0, 0, 0) {
        DownloadEvent::Retry(e) => assert!(!e.resume),
        other => panic!("unexpected {:?}", other),
    }
    match DownloadEvent::from_raw(DownloadEventType::Progress, 0, 10, 20, 0) {
        DownloadEvent::Progress(e) => {
            assert_eq!(e.downloaded, 10);
            assert_eq!(e.total, 20);
        }
        other => panic!("unexpected {:?}", other),
    }
    match DownloadEvent::from_raw(DownloadEventType::Completed, 0, 0, 30, 1) {
        DownloadEvent::Completed(e) => {
            assert_eq!(e.total, 30);
            assert_eq!(e.result, DownloadResult::UpToDate);
        }
        other => panic!("unexpected {:?}", other),
    }
}
