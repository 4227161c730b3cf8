//! Backup and restore of the database file: the decisions, step by step.
//! The file operations themselves are performed by the caller, who reports
//! each outcome back.

use vstd::prelude::*;
use vstd::string::StringExecFns;

use crate::clock::{date_text, push_date, utc_now, UtcDateTime};
use crate::model::DbError;

verus! {

/// The default name offered for a backup taken on date `t`:
/// `app-backup-YYYY-MM-DD.db`.
pub open spec fn backup_name_text(t: UtcDateTime) -> Seq<char> {
    seq!['a', 'p', 'p', '-', 'b', 'a', 'c', 'k', 'u', 'p', '-'] + date_text(t) + seq!['.', 'd', 'b']
}

/// The default backup file name for date `t`.
pub fn backup_file_name(t: &UtcDateTime) -> (r: String)
    requires
        t.wf(),
    ensures
        r@ == backup_name_text(*t),
{
    proof {
        reveal_strlit("app-backup-");
        reveal_strlit(".db");
    }
    let mut out = String::new();
    out.append("app-backup-");
    push_date(&mut out, t);
    out.append(".db");
    assert(out@ =~= backup_name_text(*t));
    out
}

/// Starts a backup: fails with `NotFound` when there is no live database
/// file, else gives the file name to offer, for date `t`.
pub fn backup_start_on(live_exists: bool, t: &UtcDateTime) -> (r: Result<String, DbError>)
    requires
        t.wf(),
    ensures
        !live_exists ==> r == Err::<String, DbError>(DbError::NotFound),
        live_exists ==> r is Ok && r->Ok_0@ == backup_name_text(*t),
{
    if !live_exists {
        return Err(DbError::NotFound);
    }
    Ok(backup_file_name(t))
}

/// Starts a backup today (UTC).
pub fn backup_start(live_exists: bool) -> (r: Result<String, DbError>)
    ensures
        !live_exists ==> r == Err::<String, DbError>(DbError::NotFound),
        live_exists ==> r is Ok && exists|t: UtcDateTime| t.wf() && r->Ok_0@ == backup_name_text(t),
{
    let t = utc_now();
    backup_start_on(live_exists, &t)
}

/// Where a restore stands.
#[derive(Debug, Clone, PartialEq)]
pub enum RestoreStage {
    /// Nothing done yet.
    Begin,
    /// Waiting to learn whether the chosen source file exists.
    SourceChecked,
    /// Waiting to learn whether a live database file exists.
    LiveChecked,
    /// Waiting for the copy of the live file aside.
    AsideCopied,
    /// Waiting for the copy of the source over the live file.
    Replaced,
    /// The replace failed with this error; waiting to learn whether the
    /// aside copy exists.
    RollbackChecked(String),
    /// The replace failed with this error; waiting for the copy back.
    RolledBack(String),
    /// The replace succeeded; waiting to learn whether the aside copy exists.
    CleanupChecked,
    /// Waiting for the removal of the aside copy.
    CleanedUp,
    /// Finished.
    Done,
}

/// The outcome of the last action, as the caller observed it.
#[derive(Debug, PartialEq)]
pub enum RestoreEvent {
    Started,
    /// A file exists (or not).
    Exists(bool),
    /// A copy finished, or failed with the error text.
    Copied(Result<(), String>),
    /// A removal finished; its result does not matter.
    Removed,
}

/// Why a restore failed.
#[derive(Debug, Clone, PartialEq)]
pub enum RestoreFailure {
    /// The chosen source file does not exist.
    SourceMissing,
    /// Copying the live file aside failed; nothing was changed.
    AsideCopyFailed(String),
    /// Copying the source over the live file failed; the aside copy, if
    /// any, was copied back.
    ReplaceFailed(String),
    /// An event arrived that the current stage does not expect.
    OutOfOrder,
}

/// The next file operation to perform.
#[derive(Debug, PartialEq)]
pub enum RestoreAction {
    CheckSourceExists,
    CheckLiveExists,
    /// Copy the live file to `<live>.backup` in the same directory.
    CopyLiveAside,
    CopySourceToLive,
    CheckAsideExists,
    CopyAsideToLive,
    RemoveAside,
    Finish(Result<(), RestoreFailure>),
}

/// The restore procedure as a table: from a stage and the outcome of the
/// last action, the next stage and the next action.
pub open spec fn restore_next(stage: RestoreStage, event: RestoreEvent) -> (RestoreStage, RestoreAction) {
    let fail = |f: RestoreFailure| (RestoreStage::Done, RestoreAction::Finish(Err(f)));
    match (stage, event) {
        (RestoreStage::Begin, RestoreEvent::Started) => (
            RestoreStage::SourceChecked,
            RestoreAction::CheckSourceExists,
        ),
        (RestoreStage::SourceChecked, RestoreEvent::Exists(false)) => fail(
            RestoreFailure::SourceMissing,
        ),
        (RestoreStage::SourceChecked, RestoreEvent::Exists(true)) => (
            RestoreStage::LiveChecked,
            RestoreAction::CheckLiveExists,
        ),
        (RestoreStage::LiveChecked, RestoreEvent::Exists(true)) => (
            RestoreStage::AsideCopied,
            RestoreAction::CopyLiveAside,
        ),
        (RestoreStage::LiveChecked, RestoreEvent::Exists(false)) => (
            RestoreStage::Replaced,
            RestoreAction::CopySourceToLive,
        ),
        (RestoreStage::AsideCopied, RestoreEvent::Copied(Ok(()))) => (
            RestoreStage::Replaced,
            RestoreAction::CopySourceToLive,
        ),
        (RestoreStage::AsideCopied, RestoreEvent::Copied(Err(e))) => fail(
            RestoreFailure::AsideCopyFailed(e),
        ),
        (RestoreStage::Replaced, RestoreEvent::Copied(Ok(()))) => (
            RestoreStage::CleanupChecked,
            RestoreAction::CheckAsideExists,
        ),
        (RestoreStage::Replaced, RestoreEvent::Copied(Err(e))) => (
            RestoreStage::RollbackChecked(e),
            RestoreAction::CheckAsideExists,
        ),
        (RestoreStage::RollbackChecked(e), RestoreEvent::Exists(true)) => (
            RestoreStage::RolledBack(e),
            RestoreAction::CopyAsideToLive,
        ),
        (RestoreStage::RollbackChecked(e), RestoreEvent::Exists(false)) => fail(
            RestoreFailure::ReplaceFailed(e),
        ),
        (RestoreStage::RolledBack(e), RestoreEvent::Copied(_)) => fail(
            RestoreFailure::ReplaceFailed(e),
        ),
        (RestoreStage::CleanupChecked, RestoreEvent::Exists(true)) => (
            RestoreStage::CleanedUp,
            RestoreAction::RemoveAside,
        ),
        (RestoreStage::CleanupChecked, RestoreEvent::Exists(false)) => (
            RestoreStage::Done,
            RestoreAction::Finish(Ok(())),
        ),
        (RestoreStage::CleanedUp, RestoreEvent::Removed) => (
            RestoreStage::Done,
            RestoreAction::Finish(Ok(())),
        ),
        _ => fail(RestoreFailure::OutOfOrder),
    }
}

/// One step of a restore.
pub fn restore_step(stage: RestoreStage, event: RestoreEvent) -> (r: (RestoreStage, RestoreAction))
    ensures
        r == restore_next(stage, event),
{
    match (stage, event) {
        (RestoreStage::Begin, RestoreEvent::Started) => (
            RestoreStage::SourceChecked,
            RestoreAction::CheckSourceExists,
        ),
        (RestoreStage::SourceChecked, RestoreEvent::Exists(found)) => {
            if found {
                (RestoreStage::LiveChecked, RestoreAction::CheckLiveExists)
            } else {
                (RestoreStage::Done, RestoreAction::Finish(Err(RestoreFailure::SourceMissing)))
            }
        },
        (RestoreStage::LiveChecked, RestoreEvent::Exists(found)) => {
            if found {
                (RestoreStage::AsideCopied, RestoreAction::CopyLiveAside)
            } else {
                (RestoreStage::Replaced, RestoreAction::CopySourceToLive)
            }
        },
        (RestoreStage::AsideCopied, RestoreEvent::Copied(res)) => match res {
            Ok(()) => (RestoreStage::Replaced, RestoreAction::CopySourceToLive),
            Err(e) => (
                RestoreStage::Done,
                RestoreAction::Finish(Err(RestoreFailure::AsideCopyFailed(e))),
            ),
        },
        (RestoreStage::Replaced, RestoreEvent::Copied(res)) => match res {
            Ok(()) => (RestoreStage::CleanupChecked, RestoreAction::CheckAsideExists),
            Err(e) => (RestoreStage::RollbackChecked(e), RestoreAction::CheckAsideExists),
        },
        (RestoreStage::RollbackChecked(e), RestoreEvent::Exists(found)) => {
            if found {
                (RestoreStage::RolledBack(e), RestoreAction::CopyAsideToLive)
            } else {
                (RestoreStage::Done, RestoreAction::Finish(Err(RestoreFailure::ReplaceFailed(e))))
            }
        },
        (RestoreStage::RolledBack(e), RestoreEvent::Copied(_)) => (
            RestoreStage::Done,
            RestoreAction::Finish(Err(RestoreFailure::ReplaceFailed(e))),
        ),
        (RestoreStage::CleanupChecked, RestoreEvent::Exists(found)) => {
            if found {
                (RestoreStage::CleanedUp, RestoreAction::RemoveAside)
            } else {
                (RestoreStage::Done, RestoreAction::Finish(Ok(())))
            }
        },
        (RestoreStage::CleanedUp, RestoreEvent::Removed) => (
            RestoreStage::Done,
            RestoreAction::Finish(Ok(())),
        ),
        _ => (RestoreStage::Done, RestoreAction::Finish(Err(RestoreFailure::OutOfOrder))),
    }
}

} // verus!
