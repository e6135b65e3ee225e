//! Small value types: progress kinds, download events and their results.
use vstd::prelude::*;

verus! {

/// The result of a fetch callback.
#[derive(Debug, Eq, PartialEq, Structural, Copy, Clone, Ord, PartialOrd, Hash)]
pub enum FetchResult {
    /// The file was fetched.
    Done,
    /// The fetch failed.
    Failed,
    /// The file is already present.
    FileExists,
}

/// The kind of a long-running operation that reports progress.
#[derive(Debug, Eq, PartialEq, Structural, Copy, Clone, Ord, PartialOrd, Hash)]
pub enum Progress {
    /// Installing packages.
    AddStart,
    /// Upgrading packages.
    UpgradeStart,
    /// Downgrading packages.
    DowngradeStart,
    /// Reinstalling packages.
    ReinstallStart,
    /// Removing packages.
    RemoveStart,
    /// Checking for file conflicts.
    ConflictsStart,
    /// Checking available disk space.
    DiskspaceStart,
    /// Checking package integrity.
    IntegrityStart,
    /// Loading package files.
    LoadStart,
    /// Checking keys in the keyring.
    KeyringStart,
}

/// Whether a name matched a list of patterns, and how.
#[derive(Debug, Eq, PartialEq, Structural, Copy, Clone, Ord, PartialOrd, Hash)]
pub enum Match {
    /// It did not match.
    No,
    /// It matched.
    Yes,
    /// It matched a negated pattern.
    Inverted,
}

/// The kind of a download event.
#[derive(Debug, Eq, PartialEq, Structural, Copy, Clone, Ord, PartialOrd, Hash)]
pub enum DownloadEventType {
    /// A download starts.
    Init,
    /// A download is retried.
    Retry,
    /// A download made progress.
    Progress,
    /// A download finished.
    Completed,
}

/// How a download finished.
#[derive(Debug, Eq, PartialEq, Structural, Copy, Clone, Ord, PartialOrd, Hash)]
pub enum DownloadResult {
    /// The file was downloaded.
    Success,
    /// The file was already up to date.
    UpToDate,
    /// The download failed.
    Failed,
}

/// A download starts.
#[derive(Debug, Eq, PartialEq, Structural, Copy, Clone, Ord, PartialOrd, Hash)]
pub struct DownloadEventInit {
    /// Whether the file may be missing.
    pub optional: bool,
}

/// A download made progress.
#[derive(Debug, Eq, PartialEq, Structural, Copy, Clone, Ord, PartialOrd, Hash)]
pub struct DownloadEventProgress {
    /// The bytes downloaded so far.
    pub downloaded: i64,
    /// The bytes expected in all.
    pub total: i64,
}

/// A download is retried.
#[derive(Debug, Eq, PartialEq, Structural, Copy, Clone, Ord, PartialOrd, Hash)]
pub struct DownloadEventRetry {
    /// Whether the download resumes where it stopped.
    pub resume: bool,
}

/// A download finished.
#[derive(Debug, Eq, PartialEq, Structural, Copy, Clone, Ord, PartialOrd, Hash)]
pub struct DownloadEventCompleted {
    /// The bytes downloaded in all.
    pub total: i64,
    /// How the download finished.
    pub result: DownloadResult,
}

/// A download event with its data.
#[derive(Debug, Eq, PartialEq, Structural, Copy, Clone, Ord, PartialOrd, Hash)]
pub enum DownloadEvent {
    /// A download starts.
    Init(DownloadEventInit),
    /// A download made progress.
    Progress(DownloadEventProgress),
    /// A download is retried.
    Retry(DownloadEventRetry),
    /// A download finished.
    Completed(DownloadEventCompleted),
}

/// How a download finished, read from the status it reports: zero for
/// success, positive when the file was up to date, negative on failure.
pub open spec fn download_result_of(code: i32) -> DownloadResult {
    if code == 0 {
        DownloadResult::Success
    } else if code > 0 {
        DownloadResult::UpToDate
    } else {
        DownloadResult::Failed
    }
}

impl DownloadResult {
    /// How a download finished, read from the status it reports.
    pub fn from_status(code: i32) -> (r: DownloadResult)
        ensures
            r == download_result_of(code),
    {
        if code == 0 {
            DownloadResult::Success
        } else if code > 0 {
            DownloadResult::UpToDate
        } else {
            DownloadResult::Failed
        }
    }
}

impl DownloadEvent {
    /// The event a download reports, from its kind and raw data: the flag
    /// of an init or retry event, the byte counts of a progress event, or
    /// the total and status of a completed one.
    pub fn from_raw(kind: DownloadEventType, flag: i32, downloaded: i64, total: i64, status: i32) -> (r:
        DownloadEvent)
        ensures
            kind == DownloadEventType::Init ==> (r matches DownloadEvent::Init(e) && e.optional == (
            flag != 0)),
            kind == DownloadEventType::Retry ==> (r matches DownloadEvent::Retry(e) && e.resume == (
            flag != 0)),
            kind == DownloadEventType::Progress ==> (r matches DownloadEvent::Progress(e)
                && e.downloaded == downloaded && e.total == total),
            kind == DownloadEventType::Completed ==> (r matches DownloadEvent::Completed(e)
                && e.total == total && e.result == download_result_of(status)),
    {
        match kind {
            DownloadEventType::Init => DownloadEvent::Init(DownloadEventInit { optional: flag != 0 }),
            DownloadEventType::Retry => DownloadEvent::Retry(DownloadEventRetry { resume: flag != 0 }),
            DownloadEventType::Progress => DownloadEvent::Progress(
                DownloadEventProgress { downloaded, total },
            ),
            DownloadEventType::Completed => DownloadEvent::Completed(
                DownloadEventCompleted { total, result: DownloadResult::from_status(status) },
            ),
        }
    }
}

} // verus!
