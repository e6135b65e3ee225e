//! The events and questions a transaction reports, decoded from their
//! kind and the data that comes with them.
use vstd::prelude::*;

verus! {

/// The kind of an event a transaction reports.
#[derive(Debug, Eq, PartialEq, Structural, Copy, Clone, Ord, PartialOrd, Hash)]
pub enum EventType {
    /// The check deps start event.
    CheckDepsStart,
    /// The check deps done event.
    CheckDepsDone,
    /// The file conflicts start event.
    FileConflictsStart,
    /// The file conflicts done event.
    FileConflictsDone,
    /// The resolve deps start event.
    ResolveDepsStart,
    /// The resolve deps done event.
    ResolveDepsDone,
    /// The inter conflicts start event.
    InterConflictsStart,
    /// The inter conflicts done event.
    InterConflictsDone,
    /// The transaction start event.
    TransactionStart,
    /// The transaction done event.
    TransactionDone,
    /// The package operation start event.
    PackageOperationStart,
    /// The package operation done event.
    PackageOperationDone,
    /// The integrity start event.
    IntegrityStart,
    /// The integrity done event.
    IntegrityDone,
    /// The load start event.
    LoadStart,
    /// The load done event.
    LoadDone,
    /// The scriptlet info event.
    ScriptletInfo,
    /// The retrieve start event.
    RetrieveStart,
    /// The retrieve done event.
    RetrieveDone,
    /// The retrieve failed event.
    RetrieveFailed,
    /// The pkg retrieve start event.
    PkgRetrieveStart,
    /// The pkg retrieve done event.
    PkgRetrieveDone,
    /// The pkg retrieve failed event.
    PkgRetrieveFailed,
    /// The disk space start event.
    DiskSpaceStart,
    /// The disk space done event.
    DiskSpaceDone,
    /// The opt dep removal event.
    OptDepRemoval,
    /// The database missing event.
    DatabaseMissing,
    /// The keyring start event.
    KeyringStart,
    /// The keyring done event.
    KeyringDone,
    /// The key download start event.
    KeyDownloadStart,
    /// The key download done event.
    KeyDownloadDone,
    /// The pacnew created event.
    PacnewCreated,
    /// The pacsave created event.
    PacsaveCreated,
    /// The hook start event.
    HookStart,
    /// The hook done event.
    HookDone,
    /// The hook run start event.
    HookRunStart,
    /// The hook run done event.
    HookRunDone,
}

/// An event, with the data that comes with it for the kinds that carry
/// data. Key downloads that are done are reported as the keyring check
/// being done.
#[derive(Debug, Eq, PartialEq, Copy, Clone)]
pub enum Event<D> {
    /// The check deps start event.
    CheckDepsStart,
    /// The check deps done event.
    CheckDepsDone,
    /// The file conflicts start event.
    FileConflictsStart,
    /// The file conflicts done event.
    FileConflictsDone,
    /// The resolve deps start event.
    ResolveDepsStart,
    /// The resolve deps done event.
    ResolveDepsDone,
    /// The inter conflicts start event.
    InterConflictsStart,
    /// The inter conflicts done event.
    InterConflictsDone,
    /// The transaction start event.
    TransactionStart,
    /// The transaction done event.
    TransactionDone,
    /// The package operation start event.
    PackageOperationStart(D),
    /// The package operation done event.
    PackageOperationDone(D),
    /// The integrity start event.
    IntegrityStart,
    /// The integrity done event.
    IntegrityDone,
    /// The load start event.
    LoadStart,
    /// The load done event.
    LoadDone,
    /// The scriptlet info event.
    ScriptletInfo(D),
    /// The retrieve start event.
    RetrieveStart,
    /// The retrieve done event.
    RetrieveDone,
    /// The retrieve failed event.
    RetrieveFailed,
    /// The pkg retrieve start event.
    PkgRetrieveStart(D),
    /// The pkg retrieve done event.
    PkgRetrieveDone(D),
    /// The pkg retrieve failed event.
    PkgRetrieveFailed(D),
    /// The disk space start event.
    DiskSpaceStart,
    /// The disk space done event.
    DiskSpaceDone,
    /// The opt dep removal event.
    OptDepRemoval(D),
    /// The database missing event.
    DatabaseMissing(D),
    /// The keyring start event.
    KeyringStart,
    /// The keyring done event.
    KeyringDone,
    /// The key download start event.
    KeyDownloadStart,
    /// The key download done event.
    KeyDownloadDone,
    /// The pacnew created event.
    PacnewCreated(D),
    /// The pacsave created event.
    PacsaveCreated(D),
    /// The hook start event.
    HookStart(D),
    /// The hook done event.
    HookDone(D),
    /// The hook run start event.
    HookRunStart(D),
    /// The hook run done event.
    HookRunDone(D),
}

/// Whether events of kind `t` carry data.
pub open spec fn carries_data(t: EventType) -> bool {
    match t {
        EventType::PackageOperationStart => true,
        EventType::PackageOperationDone => true,
        EventType::ScriptletInfo => true,
        EventType::PkgRetrieveStart => true,
        EventType::PkgRetrieveDone => true,
        EventType::PkgRetrieveFailed => true,
        EventType::OptDepRemoval => true,
        EventType::DatabaseMissing => true,
        EventType::PacnewCreated => true,
        EventType::PacsaveCreated => true,
        EventType::HookStart => true,
        EventType::HookDone => true,
        EventType::HookRunStart => true,
        EventType::HookRunDone => true,
        _ => false,
    }
}

/// The kind an event of kind `t` is reported as: its own, except that a
/// finished key download is reported as a finished keyring check.
pub open spec fn reported_kind(t: EventType) -> EventType {
    match t {
        EventType::KeyDownloadDone => EventType::KeyringDone,
        _ => t,
    }
}

impl<D> Event<D> {
    /// The kind of the event.
    pub open spec fn kind(self) -> EventType {
        match self {
            Event::CheckDepsStart => EventType::CheckDepsStart,
            Event::CheckDepsDone => EventType::CheckDepsDone,
            Event::FileConflictsStart => EventType::FileConflictsStart,
            Event::FileConflictsDone => EventType::FileConflictsDone,
            Event::ResolveDepsStart => EventType::ResolveDepsStart,
            Event::ResolveDepsDone => EventType::ResolveDepsDone,
            Event::InterConflictsStart => EventType::InterConflictsStart,
            Event::InterConflictsDone => EventType::InterConflictsDone,
            Event::TransactionStart => EventType::TransactionStart,
            Event::TransactionDone => EventType::TransactionDone,
            Event::PackageOperationStart(_) => EventType::PackageOperationStart,
            Event::PackageOperationDone(_) => EventType::PackageOperationDone,
            Event::IntegrityStart => EventType::IntegrityStart,
            Event::IntegrityDone => EventType::IntegrityDone,
            Event::LoadStart => EventType::LoadStart,
            Event::LoadDone => EventType::LoadDone,
            Event::ScriptletInfo(_) => EventType::ScriptletInfo,
            Event::RetrieveStart => EventType::RetrieveStart,
            Event::RetrieveDone => EventType::RetrieveDone,
            Event::RetrieveFailed => EventType::RetrieveFailed,
            Event::PkgRetrieveStart(_) => EventType::PkgRetrieveStart,
            Event::PkgRetrieveDone(_) => EventType::PkgRetrieveDone,
            Event::PkgRetrieveFailed(_) => EventType::PkgRetrieveFailed,
            Event::DiskSpaceStart => EventType::DiskSpaceStart,
            Event::DiskSpaceDone => EventType::DiskSpaceDone,
            Event::OptDepRemoval(_) => EventType::OptDepRemoval,
            Event::DatabaseMissing(_) => EventType::DatabaseMissing,
            Event::KeyringStart => EventType::KeyringStart,
            Event::KeyringDone => EventType::KeyringDone,
            Event::KeyDownloadStart => EventType::KeyDownloadStart,
            Event::KeyDownloadDone => EventType::KeyDownloadDone,
            Event::PacnewCreated(_) => EventType::PacnewCreated,
            Event::PacsaveCreated(_) => EventType::PacsaveCreated,
            Event::HookStart(_) => EventType::HookStart,
            Event::HookDone(_) => EventType::HookDone,
            Event::HookRunStart(_) => EventType::HookRunStart,
            Event::HookRunDone(_) => EventType::HookRunDone,
        }
    }

    /// The data of the event, for the kinds that carry data.
    pub open spec fn data(self) -> Option<D> {
        match self {
            Event::PackageOperationStart(d) => Some(d),
            Event::PackageOperationDone(d) => Some(d),
            Event::ScriptletInfo(d) => Some(d),
            Event::PkgRetrieveStart(d) => Some(d),
            Event::PkgRetrieveDone(d) => Some(d),
            Event::PkgRetrieveFailed(d) => Some(d),
            Event::OptDepRemoval(d) => Some(d),
            Event::DatabaseMissing(d) => Some(d),
            Event::PacnewCreated(d) => Some(d),
            Event::PacsaveCreated(d) => Some(d),
            Event::HookStart(d) => Some(d),
            Event::HookDone(d) => Some(d),
            Event::HookRunStart(d) => Some(d),
            Event::HookRunDone(d) => Some(d),
            _ => None,
        }
    }

    /// The event of kind `kind` with the data that came with it; the data
    /// is dropped for kinds that carry none.
    pub fn from_raw(kind: EventType, data: D) -> (r: Event<D>)
        ensures
            r.kind() == reported_kind(kind),
            r.data() == if carries_data(kind) {
                Some(data)
            } else {
                None::<D>
            },
    {
        match kind {
            EventType::CheckDepsStart => Event::CheckDepsStart,
            EventType::CheckDepsDone => Event::CheckDepsDone,
            EventType::FileConflictsStart => Event::FileConflictsStart,
            EventType::FileConflictsDone => Event::FileConflictsDone,
            EventType::ResolveDepsStart => Event::ResolveDepsStart,
            EventType::ResolveDepsDone => Event::ResolveDepsDone,
            EventType::InterConflictsStart => Event::InterConflictsStart,
            EventType::InterConflictsDone => Event::InterConflictsDone,
            EventType::TransactionStart => Event::TransactionStart,
            EventType::TransactionDone => Event::TransactionDone,
            EventType::PackageOperationStart => Event::PackageOperationStart(data),
            EventType::PackageOperationDone => Event::PackageOperationDone(data),
            EventType::IntegrityStart => Event::IntegrityStart,
            EventType::IntegrityDone => Event::IntegrityDone,
            EventType::LoadStart => Event::LoadStart,
            EventType::LoadDone => Event::LoadDone,
            EventType::ScriptletInfo => Event::ScriptletInfo(data),
            EventType::RetrieveStart => Event::RetrieveStart,
            EventType::RetrieveDone => Event::RetrieveDone,
            EventType::RetrieveFailed => Event::RetrieveFailed,
            EventType::PkgRetrieveStart => Event::PkgRetrieveStart(data),
            EventType::PkgRetrieveDone => Event::PkgRetrieveDone(data),
            EventType::PkgRetrieveFailed => Event::PkgRetrieveFailed(data),
            EventType::DiskSpaceStart => Event::DiskSpaceStart,
            EventType::DiskSpaceDone => Event::DiskSpaceDone,
            EventType::OptDepRemoval => Event::OptDepRemoval(data),
            EventType::DatabaseMissing => Event::DatabaseMissing(data),
            EventType::KeyringStart => Event::KeyringStart,
            EventType::KeyringDone => Event::KeyringDone,
            EventType::KeyDownloadStart => Event::KeyDownloadStart,
            EventType::KeyDownloadDone => Event::KeyringDone,
            EventType::PacnewCreated => Event::PacnewCreated(data),
            EventType::PacsaveCreated => Event::PacsaveCreated(data),
            EventType::HookStart => Event::HookStart(data),
            EventType::HookDone => Event::HookDone(data),
            EventType::HookRunStart => Event::HookRunStart(data),
            EventType::HookRunDone => Event::HookRunDone(data),
        }
    }
}

/// When a hook runs.
#[derive(Debug, Eq, PartialEq, Structural, Copy, Clone, Ord, PartialOrd, Hash)]
pub enum HookWhen {
    /// Before the transaction.
    PreTransaction,
    /// After the transaction.
    PostTransaction,
}

/// The kind of operation a package event reports.
#[derive(Debug, Eq, PartialEq, Structural, Copy, Clone, Ord, PartialOrd, Hash)]
pub enum OperationKind {
    /// A package is installed.
    Install,
    /// A package is upgraded.
    Upgrade,
    /// A package is reinstalled.
    Reinstall,
    /// A package is downgraded.
    Downgrade,
    /// A package is removed.
    Remove,
}

/// The operation a package event reports, with the packages it concerns:
/// the new one for an install, the old one for a removal, both otherwise.
#[derive(Debug, Eq, PartialEq, Copy, Clone)]
pub enum PackageOperation<P> {
    /// The new package is installed.
    Install(P),
    /// The second package is upgraded to the first.
    Upgrade(P, P),
    /// The second package is reinstalled as the first.
    Reinstall(P, P),
    /// The second package is downgraded to the first.
    Downgrade(P, P),
    /// The old package is removed.
    Remove(P),
}

impl<P> PackageOperation<P> {
    /// The operation of kind `op` on the new package `newpkg` and the old
    /// package `oldpkg`.
    pub fn from_raw(op: OperationKind, newpkg: P, oldpkg: P) -> (r: PackageOperation<P>)
        ensures
            op == OperationKind::Install ==> r == PackageOperation::Install(newpkg),
            op == OperationKind::Upgrade ==> r == PackageOperation::Upgrade(newpkg, oldpkg),
            op == OperationKind::Reinstall ==> r == PackageOperation::Reinstall(newpkg, oldpkg),
            op == OperationKind::Downgrade ==> r == PackageOperation::Downgrade(newpkg, oldpkg),
            op == OperationKind::Remove ==> r == PackageOperation::Remove(oldpkg),
    {
        match op {
            OperationKind::Install => PackageOperation::Install(newpkg),
            OperationKind::Upgrade => PackageOperation::Upgrade(newpkg, oldpkg),
            OperationKind::Reinstall => PackageOperation::Reinstall(newpkg, oldpkg),
            OperationKind::Downgrade => PackageOperation::Downgrade(newpkg, oldpkg),
            OperationKind::Remove => PackageOperation::Remove(oldpkg),
        }
    }
}

/// The kind of a question a transaction asks.
#[derive(Debug, Eq, PartialEq, Structural, Copy, Clone, Ord, PartialOrd, Hash)]
pub enum QuestionType {
    /// Asks whether to install an ignored package.
    InstallIgnorepkg,
    /// Asks whether to replace a package.
    ReplacePkg,
    /// Asks whether to remove a conflicting package.
    ConflictPkg,
    /// Asks whether to delete a corrupted package file.
    CorruptedPkg,
    /// Asks whether to skip packages that cannot be upgraded.
    RemovePkgs,
    /// Asks which provider to use.
    SelectProvider,
    /// Asks whether to import a key.
    ImportKey,
}

/// A question, with the data that comes with it.
#[derive(Debug, Eq, PartialEq, Copy, Clone)]
pub enum Question<D> {
    /// Asks whether to install an ignored package.
    InstallIgnorepkg(D),
    /// Asks whether to replace a package.
    Replace(D),
    /// Asks whether to remove a conflicting package.
    Conflict(D),
    /// Asks whether to delete a corrupted package file.
    Corrupted(D),
    /// Asks whether to skip packages that cannot be upgraded.
    RemovePkgs(D),
    /// Asks which provider to use.
    SelectProvider(D),
    /// Asks whether to import a key.
    ImportKey(D),
}

impl<D> Question<D> {
    /// The kind of the question.
    pub open spec fn kind(self) -> QuestionType {
        match self {
            Question::InstallIgnorepkg(_) => QuestionType::InstallIgnorepkg,
            Question::Replace(_) => QuestionType::ReplacePkg,
            Question::Conflict(_) => QuestionType::ConflictPkg,
            Question::Corrupted(_) => QuestionType::CorruptedPkg,
            Question::RemovePkgs(_) => QuestionType::RemovePkgs,
            Question::SelectProvider(_) => QuestionType::SelectProvider,
            Question::ImportKey(_) => QuestionType::ImportKey,
        }
    }

    /// The data of the question.
    pub open spec fn data(self) -> D {
        match self {
            Question::InstallIgnorepkg(d) => d,
            Question::Replace(d) => d,
            Question::Conflict(d) => d,
            Question::Corrupted(d) => d,
            Question::RemovePkgs(d) => d,
            Question::SelectProvider(d) => d,
            Question::ImportKey(d) => d,
        }
    }

    /// The question of kind `kind` with the data that came with it.
    pub fn from_raw(kind: QuestionType, data: D) -> (r: Question<D>)
        ensures
            r.kind() == kind,
            r.data() == data,
    {
        match kind {
            QuestionType::InstallIgnorepkg => Question::InstallIgnorepkg(data),
            QuestionType::ReplacePkg => Question::Replace(data),
            QuestionType::ConflictPkg => Question::Conflict(data),
            QuestionType::CorruptedPkg => Question::Corrupted(data),
            QuestionType::RemovePkgs => Question::RemovePkgs(data),
            QuestionType::SelectProvider => Question::SelectProvider(data),
            QuestionType::ImportKey => Question::ImportKey(data),
        }
    }
}

} // verus!
