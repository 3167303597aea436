//! Archiving an upload ledger: when it may be archived, and the steps by which
//! it is copied, verified and retired.

use vstd::prelude::*;

use crate::artifact;
use crate::artifact::is_generated_frame_filename;
use crate::digest;
use crate::hex;
use crate::hex::push_hex;
use crate::ledger_maintenance;
use crate::ledger_maintenance::{
    count_jobs, ensure_expected_id, verify_v4, LedgerJob, LedgerMaintenanceError, LedgerPathKind,
    MaintainedLedger, PartialArchive, TargetSchema, UploadLedgerId, TARGET_SCHEMA_VERSION,
};
use crate::ledger_rows::{ledger_content_digest, LedgerRows};
use crate::random;
use crate::random::draw;
use crate::text::{chars_of, same_bytes, same_chars, same_text};
use crate::unicode;
use crate::unicode::lower_text;

verus! {

broadcast use vstd::string::group_string_axioms;

/// What stands at a path.
#[derive(Clone, Copy, Debug, PartialEq, Eq, Structural)]
pub enum Sighting {
    Missing,
    /// A regular file that is neither a link nor a reparse point.
    Regular,
    Unsafe,
}

/// An entry of the capture directory. Its name and path are absent where they
/// are not Unicode; `shown_path` is for messages.
#[derive(Debug)]
pub struct CaptureEntry {
    pub filename: Option<String>,
    pub path: Option<String>,
    pub shown_path: String,
    pub regular: bool,
}

/// Whether a ledger knows of a capture: as a job, or as older than the ledger.
pub open spec fn is_recorded(ledger: MaintainedLedger, path: Seq<char>) -> bool {
    ||| exists|i: int|
        0 <= i < ledger.jobs@.len() && (#[trigger] ledger.jobs@[i]).artifact_path@ == path
    ||| exists|i: int|
        0 <= i < ledger.preactivation@.len() && (#[trigger] ledger.preactivation@[i])@ == path
}

fn check_recorded(ledger: &MaintainedLedger, path: &str) -> (r: bool)
    ensures
        r == is_recorded(*ledger, path@),
{
    let mut i: usize = 0;
    while i < ledger.jobs.len()
        invariant
            i <= ledger.jobs.len(),
            forall|j: int| 0 <= j < i ==> (#[trigger] ledger.jobs@[j]).artifact_path@ != path@,
        decreases ledger.jobs.len() - i,
    {
        if same_text(ledger.jobs[i].artifact_path.as_str(), path) {
            assert(ledger.jobs@[i as int].artifact_path@ == path@);
            return true;
        }
        i = i + 1;
    }
    let mut k: usize = 0;
    while k < ledger.preactivation.len()
        invariant
            k <= ledger.preactivation.len(),
            forall|j: int|
                0 <= j < ledger.jobs@.len() ==> (#[trigger] ledger.jobs@[j]).artifact_path@
                    != path@,
            forall|j: int| 0 <= j < k ==> (#[trigger] ledger.preactivation@[j])@ != path@,
        decreases ledger.preactivation.len() - k,
    {
        if same_text(ledger.preactivation[k].as_str(), path) {
            assert(ledger.preactivation@[k as int]@ == path@);
            return true;
        }
        k = k + 1;
    }
    false
}

/// Whether an entry is a capture that this program named.
pub open spec fn is_capture(entry: CaptureEntry) -> bool {
    entry.filename matches Some(name) && exists|seconds: nat, millis: nat, sequence: nat|
        #[trigger] artifact::names_frame(name@, seconds, millis, sequence)
}

/// Why an entry of the capture directory forbids archiving, if it does: it is a
/// generated capture that is no plain file, or that no ledger entry tells of.
pub open spec fn entry_fault(ledger: MaintainedLedger, entry: CaptureEntry) -> Option<
    LedgerMaintenanceError,
> {
    if !is_capture(entry) {
        None
    } else if !entry.regular {
        Some(
            LedgerMaintenanceError::UnsafePath {
                kind: LedgerPathKind::GeneratedCapture,
                path: entry.shown_path,
            },
        )
    } else if entry.path matches Some(path) && is_recorded(ledger, path@) {
        None
    } else {
        Some(LedgerMaintenanceError::CrashGap { path: entry.shown_path })
    }
}

/// The first fault among entries of the capture directory.
pub open spec fn captures_fault(ledger: MaintainedLedger, entries: Seq<CaptureEntry>) -> Option<
    LedgerMaintenanceError,
>
    decreases entries.len(),
{
    if entries.len() == 0 {
        None
    } else if entry_fault(ledger, entries[0]) is Some {
        entry_fault(ledger, entries[0])
    } else {
        captures_fault(ledger, entries.skip(1))
    }
}

fn check_entry(ledger: &MaintainedLedger, entry: &CaptureEntry) -> (r: Result<
    (),
    LedgerMaintenanceError,
>)
    ensures
        r == (match entry_fault(*ledger, *entry) {
            Some(error) => Err::<(), LedgerMaintenanceError>(error),
            None => Ok::<(), LedgerMaintenanceError>(()),
        }),
{
    let generated = match &entry.filename {
        Some(name) => is_generated_frame_filename(name.as_str()),
        None => false,
    };
    if !generated {
        return Ok(());
    }
    if !entry.regular {
        return Err(
            LedgerMaintenanceError::UnsafePath {
                kind: LedgerPathKind::GeneratedCapture,
                path: entry.shown_path.clone(),
            },
        );
    }
    let recorded = match &entry.path {
        Some(path) => check_recorded(ledger, path.as_str()),
        None => false,
    };
    if recorded {
        Ok(())
    } else {
        Err(LedgerMaintenanceError::CrashGap { path: entry.shown_path.clone() })
    }
}

/// Check that every generated capture is a plain file that the ledger tells of,
/// so that none was published and then lost in a crash.
pub fn ensure_no_crash_gap(ledger: &MaintainedLedger, entries: &Vec<CaptureEntry>) -> (r: Result<
    (),
    LedgerMaintenanceError,
>)
    ensures
        r == (match captures_fault(*ledger, entries@) {
            Some(error) => Err::<(), LedgerMaintenanceError>(error),
            None => Ok::<(), LedgerMaintenanceError>(()),
        }),
{
    let mut i: usize = 0;
    assert(entries@.skip(0) =~= entries@);
    while i < entries.len()
        invariant
            i <= entries.len(),
            captures_fault(*ledger, entries@) == captures_fault(*ledger, entries@.skip(i as int)),
        decreases entries.len() - i,
    {
        proof {
            assert(entries@.skip(i as int)[0] == entries@[i as int]);
            assert(entries@.skip(i as int).skip(1) =~= entries@.skip(i + 1));
        }
        check_entry(ledger, &entries[i])?;
        i = i + 1;
    }
    assert(entries@.skip(i as int) =~= Seq::<CaptureEntry>::empty());
    Ok(())
}

/// How many jobs are not in a final state.
pub open spec fn live_jobs(jobs: Seq<LedgerJob>) -> nat {
    ledger_maintenance::jobs_in(jobs, "pending"@) + ledger_maintenance::jobs_in(
        jobs,
        "in_progress"@,
    ) + ledger_maintenance::jobs_in(jobs, "retrying"@)
}

proof fn lemma_live_jobs_bound(jobs: Seq<LedgerJob>)
    ensures
        live_jobs(jobs) <= jobs.len(),
    decreases jobs.len(),
{
    if jobs.len() > 0 {
        reveal_strlit("pending");
        reveal_strlit("in_progress");
        reveal_strlit("retrying");
        assert("pending"@.len() != "in_progress"@.len());
        assert("pending"@.len() != "retrying"@.len());
        assert("in_progress"@.len() != "retrying"@.len());
        lemma_live_jobs_bound(jobs.drop_last());
    }
}

/// Why a ledger may not be archived, if it may not.
pub open spec fn ready_fault(ledger: MaintainedLedger, entries: Seq<CaptureEntry>) -> Option<
    LedgerMaintenanceError,
> {
    let failed = ledger_maintenance::jobs_in(ledger.jobs@, "permanently_failed"@);
    if live_jobs(ledger.jobs@) != 0 {
        Some(LedgerMaintenanceError::LiveWork { count: live_jobs(ledger.jobs@) as u64 })
    } else if failed != 0 {
        Some(LedgerMaintenanceError::PermanentFailures { count: failed as u64 })
    } else {
        captures_fault(ledger, entries)
    }
}

/// Check that a ledger may be archived: every job is completed, and every
/// generated capture is known.
pub fn ensure_archive_ready(ledger: &MaintainedLedger, entries: &Vec<CaptureEntry>) -> (r: Result<
    (),
    LedgerMaintenanceError,
>)
    ensures
        r == (match ready_fault(*ledger, entries@) {
            Some(error) => Err::<(), LedgerMaintenanceError>(error),
            None => Ok::<(), LedgerMaintenanceError>(()),
        }),
{
    let pending: u64 = count_jobs(&ledger.jobs, "pending");
    let in_progress: u64 = count_jobs(&ledger.jobs, "in_progress");
    let retrying: u64 = count_jobs(&ledger.jobs, "retrying");
    proof {
        lemma_live_jobs_bound(ledger.jobs@);
        assert(ledger.jobs.len() == ledger.jobs@.len());
    }
    let live: u64 = pending + in_progress + retrying;
    if live != 0 {
        return Err(LedgerMaintenanceError::LiveWork { count: live });
    }
    let failed: u64 = count_jobs(&ledger.jobs, "permanently_failed");
    if failed != 0 {
        return Err(LedgerMaintenanceError::PermanentFailures { count: failed });
    }
    ensure_no_crash_gap(ledger, entries)
}

/// A copy of a ledger, and what was read of it and of the capture directory.
#[derive(Debug)]
pub struct LedgerCopy {
    pub sighting: Sighting,
    pub path: String,
    pub ledger: MaintainedLedger,
    pub captures: Vec<CaptureEntry>,
    pub rows: LedgerRows,
}

impl LedgerCopy {
    pub open spec fn readable(self, target: TargetSchema) -> bool {
        self.ledger.objects@.len() == target.objects@.len()
    }

    /// Why this is not a complete archive, if it is not.
    pub open spec fn fault(self, target: TargetSchema) -> Option<LedgerMaintenanceError> {
        match self.sighting {
            Sighting::Unsafe => Some(
                LedgerMaintenanceError::UnsafePath {
                    kind: LedgerPathKind::Archive,
                    path: self.path,
                },
            ),
            Sighting::Missing => Some(
                LedgerMaintenanceError::PartialArchive(PartialArchive::ArtifactMissing),
            ),
            Sighting::Regular => if ledger_maintenance::v4_fault(self.ledger, target) is Some {
                ledger_maintenance::v4_fault(self.ledger, target)
            } else {
                ready_fault(self.ledger, self.captures@)
            },
        }
    }

    pub open spec fn content_digest(self) -> Seq<u8> {
        digest::sha256_digest(self.rows@.encoded())
    }
}

/// Check an archived ledger; its identity.
pub fn verify_archive(copy: &LedgerCopy, target: &TargetSchema) -> (r: Result<
    UploadLedgerId,
    LedgerMaintenanceError,
>)
    requires
        copy.readable(*target),
    ensures
        match copy.fault(*target) {
            Some(error) => r == Err::<UploadLedgerId, LedgerMaintenanceError>(error),
            None => r matches Ok(id) && id.0@ == copy.ledger.metadata.ledger_id@,
        },
{
    match copy.sighting {
        Sighting::Unsafe => {
            return Err(
                LedgerMaintenanceError::UnsafePath {
                    kind: LedgerPathKind::Archive,
                    path: copy.path.clone(),
                },
            );
        },
        Sighting::Missing => {
            return Err(LedgerMaintenanceError::PartialArchive(PartialArchive::ArtifactMissing));
        },
        Sighting::Regular => {},
    }
    let id = verify_v4(&copy.ledger, target)?;
    ensure_archive_ready(&copy.ledger, &copy.captures)?;
    Ok(id)
}

/// The extension that names the archive of a ledger beside its configuration.
pub fn archive_extension(id: UploadLedgerId) -> (r: String)
    ensures
        r@ == "upload."@ + hex::hex(id.0@) + ".archive.sqlite3"@,
{
    let mut extension = "upload.".to_owned();
    push_hex(&mut extension, id.0.as_slice());
    extension.append(".archive.sqlite3");
    extension
}

/// The extension that names a retired ledger beside its configuration.
pub fn retired_extension(id: UploadLedgerId) -> (r: String)
    ensures
        r@ == "upload."@ + hex::hex(id.0@) + ".retired.sqlite3"@,
{
    let mut extension = "upload.".to_owned();
    push_hex(&mut extension, id.0.as_slice());
    extension.append(".retired.sqlite3");
    extension
}

/// What an archive came to.
#[derive(Debug, PartialEq, Eq)]
pub struct LedgerArchiveReport {
    pub ledger_id: String,
    pub archive_path: String,
    pub retired_path: String,
    pub sha256: String,
}

/// How far archiving has come. A stage waits for one event.
#[derive(Clone, Copy, Debug, PartialEq, Eq)]
pub enum ArchiveStage {
    /// Waits for a look at the three paths.
    Inspect,
    /// Waits for the completed archive and the retired ledger to be read.
    ReadCompleted,
    /// Waits for the active ledger to be read.
    ReadActive { archive_exists: bool },
    /// Waits for the active ledger to be checkpointed and read again.
    Checkpoint { archive_exists: bool },
    /// Waits for the archive, or the backup that is to become it, to be read.
    ReadArchive { archive_exists: bool, content: [u8; 32] },
    /// Waits for the backup to be published as the archive.
    Publish { sha256: [u8; 32] },
    /// Waits for the active ledger to be closed.
    Close { sha256: [u8; 32] },
    /// Waits for the active ledger to be renamed.
    Retire { sha256: [u8; 32] },
    Finished,
}

/// What happened.
#[allow(inconsistent_fields)]
#[derive(Debug)]
pub enum ArchiveEvent {
    Inspected { active: Sighting, archive: Sighting, retired: Sighting },
    CompletedRead { archive: LedgerCopy, retired: LedgerCopy, sha256: [u8; 32] },
    ActiveRead { ledger: MaintainedLedger, captures: Vec<CaptureEntry> },
    Checkpointed {
        busy: bool,
        journal_mode: String,
        sidecar: Option<String>,
        ledger: MaintainedLedger,
        captures: Vec<CaptureEntry>,
        rows: LedgerRows,
    },
    ArchiveRead { copy: LedgerCopy, sha256: [u8; 32] },
    Published,
    Closed { sidecar: Option<String> },
    Retired,
}

/// What to do next.
#[derive(Debug)]
pub enum ArchiveAction {
    ReadCompleted,
    ReadActive,
    Checkpoint,
    ReadArchive,
    BackUp,
    PublishBackup,
    CloseActive,
    RetireActive,
    Report(LedgerArchiveReport),
    Refuse(LedgerMaintenanceError),
}

/// One archiving of one ledger.
#[derive(Debug)]
pub struct ArchiveRun {
    pub expected: UploadLedgerId,
    pub database_path: String,
    pub archive_path: String,
    pub retired_path: String,
    pub stage: ArchiveStage,
}

/// Why an identity is not the expected one, if it is not.
pub open spec fn id_fault(expected: UploadLedgerId, actual: Seq<u8>) -> bool {
    expected.0@ != actual
}

/// Whether a refusal names the identity that was found in place of the expected
/// one.
pub open spec fn is_id_mismatch(
    error: LedgerMaintenanceError,
    expected: UploadLedgerId,
    actual: Seq<u8>,
) -> bool {
    error matches LedgerMaintenanceError::LedgerIdMismatch { expected: wanted, actual: found }
        && wanted == expected && found.0@ == actual
}

impl ArchiveRun {
    /// Whether the stage waits for this event.
    pub open spec fn awaits(self, event: ArchiveEvent, target: TargetSchema) -> bool {
        match (self.stage, event) {
            (ArchiveStage::Inspect, ArchiveEvent::Inspected { .. }) => true,
            (
                ArchiveStage::ReadCompleted,
                ArchiveEvent::CompletedRead { archive, retired, .. },
            ) => archive.readable(target) && retired.readable(target),
            (ArchiveStage::ReadActive { .. }, ArchiveEvent::ActiveRead { ledger, .. }) =>
                ledger.objects@.len() == target.objects@.len(),
            (ArchiveStage::Checkpoint { .. }, ArchiveEvent::Checkpointed { .. }) => true,
            (ArchiveStage::ReadArchive { .. }, ArchiveEvent::ArchiveRead { copy, .. }) =>
                copy.readable(target),
            (ArchiveStage::Publish { .. }, ArchiveEvent::Published) => true,
            (ArchiveStage::Close { .. }, ArchiveEvent::Closed { .. }) => true,
            (ArchiveStage::Retire { .. }, ArchiveEvent::Retired) => true,
            _ => false,
        }
    }

    pub open spec fn is_report(self, report: LedgerArchiveReport, sha256: [u8; 32]) -> bool {
        &&& report.ledger_id@ == hex::hex(self.expected.0@)
        &&& report.archive_path == self.archive_path
        &&& report.retired_path == self.retired_path
        &&& report.sha256@ == hex::hex(sha256@)
    }

    fn report(&self, sha256: &[u8; 32]) -> (r: LedgerArchiveReport)
        ensures
            self.is_report(r, *sha256),
    {
        let mut text = String::new();
        push_hex(&mut text, sha256.as_slice());
        assert(text@ =~= hex::hex(sha256@));
        LedgerArchiveReport {
            ledger_id: self.expected.as_hex(),
            archive_path: self.archive_path.clone(),
            retired_path: self.retired_path.clone(),
            sha256: text,
        }
    }

    /// Where a look at the three paths leads.
    pub open spec fn after_inspection(
        self,
        active: Sighting,
        archive: Sighting,
        retired: Sighting,
    ) -> Result<(ArchiveStage, ArchiveAction), LedgerMaintenanceError> {
        let active_exists = active == Sighting::Regular;
        let archive_exists = archive == Sighting::Regular;
        let retired_exists = retired == Sighting::Regular;
        if active == Sighting::Unsafe {
            Err(
                LedgerMaintenanceError::UnsafePath {
                    kind: LedgerPathKind::ActiveLedger,
                    path: self.database_path,
                },
            )
        } else if archive == Sighting::Unsafe {
            Err(
                LedgerMaintenanceError::UnsafePath {
                    kind: LedgerPathKind::Archive,
                    path: self.archive_path,
                },
            )
        } else if retired == Sighting::Unsafe {
            Err(
                LedgerMaintenanceError::UnsafePath {
                    kind: LedgerPathKind::RetiredLedger,
                    path: self.retired_path,
                },
            )
        } else if archive_exists && retired_exists {
            if active_exists {
                Err(LedgerMaintenanceError::PartialArchive(PartialArchive::ActiveBesideCompleted))
            } else {
                Ok((ArchiveStage::ReadCompleted, ArchiveAction::ReadCompleted))
            }
        } else if retired_exists {
            Err(LedgerMaintenanceError::PartialArchive(PartialArchive::RetiredWithoutArchive))
        } else if !active_exists {
            if archive_exists {
                Err(LedgerMaintenanceError::PartialArchive(PartialArchive::ArchiveAlone))
            } else {
                Err(LedgerMaintenanceError::PartialArchive(PartialArchive::ActiveAbsent))
            }
        } else {
            Ok((ArchiveStage::ReadActive { archive_exists }, ArchiveAction::ReadActive))
        }
    }

    fn inspect(&self, active: Sighting, archive: Sighting, retired: Sighting) -> (r: Result<
        (ArchiveStage, ArchiveAction),
        LedgerMaintenanceError,
    >)
        ensures
            r == self.after_inspection(active, archive, retired),
    {
        let active_exists = active == Sighting::Regular;
        let archive_exists = archive == Sighting::Regular;
        let retired_exists = retired == Sighting::Regular;
        if active == Sighting::Unsafe {
            return Err(
                LedgerMaintenanceError::UnsafePath {
                    kind: LedgerPathKind::ActiveLedger,
                    path: self.database_path.clone(),
                },
            );
        }
        if archive == Sighting::Unsafe {
            return Err(
                LedgerMaintenanceError::UnsafePath {
                    kind: LedgerPathKind::Archive,
                    path: self.archive_path.clone(),
                },
            );
        }
        if retired == Sighting::Unsafe {
            return Err(
                LedgerMaintenanceError::UnsafePath {
                    kind: LedgerPathKind::RetiredLedger,
                    path: self.retired_path.clone(),
                },
            );
        }
        if archive_exists && retired_exists {
            if active_exists {
                return Err(
                    LedgerMaintenanceError::PartialArchive(PartialArchive::ActiveBesideCompleted),
                );
            }
            return Ok((ArchiveStage::ReadCompleted, ArchiveAction::ReadCompleted));
        }
        if retired_exists {
            return Err(
                LedgerMaintenanceError::PartialArchive(PartialArchive::RetiredWithoutArchive),
            );
        }
        if !active_exists {
            let detail = if archive_exists {
                PartialArchive::ArchiveAlone
            } else {
                PartialArchive::ActiveAbsent
            };
            return Err(LedgerMaintenanceError::PartialArchive(detail));
        }
        Ok((ArchiveStage::ReadActive { archive_exists }, ArchiveAction::ReadActive))
    }

    /// Whether a completed archive is answered as it has to be.
    pub open spec fn is_completed_answer(
        self,
        r: Result<(ArchiveStage, ArchiveAction), LedgerMaintenanceError>,
        archive: LedgerCopy,
        retired: LedgerCopy,
        sha256: [u8; 32],
        target: TargetSchema,
    ) -> bool {
        if archive.fault(target) is Some {
            r == Err::<(ArchiveStage, ArchiveAction), LedgerMaintenanceError>(
                archive.fault(target)->0,
            )
        } else if retired.fault(target) is Some {
            r == Err::<(ArchiveStage, ArchiveAction), LedgerMaintenanceError>(
                retired.fault(target)->0,
            )
        } else if id_fault(self.expected, archive.ledger.metadata.ledger_id@) {
            r is Err && is_id_mismatch(
                r->Err_0,
                self.expected,
                archive.ledger.metadata.ledger_id@,
            )
        } else if id_fault(self.expected, retired.ledger.metadata.ledger_id@) {
            r is Err && is_id_mismatch(
                r->Err_0,
                self.expected,
                retired.ledger.metadata.ledger_id@,
            )
        } else if archive.content_digest() != retired.content_digest() {
            r == Err::<(ArchiveStage, ArchiveAction), LedgerMaintenanceError>(
                LedgerMaintenanceError::PartialArchive(PartialArchive::RetiredDiffers),
            )
        } else {
            &&& r matches Ok((stage, action))
            &&& stage == ArchiveStage::Finished
            &&& action matches ArchiveAction::Report(report)
            &&& self.is_report(report, sha256)
        }
    }

    fn complete(
        &self,
        archive: &LedgerCopy,
        retired: &LedgerCopy,
        sha256: &[u8; 32],
        target: &TargetSchema,
    ) -> (r: Result<(ArchiveStage, ArchiveAction), LedgerMaintenanceError>)
        requires
            archive.readable(*target),
            retired.readable(*target),
        ensures
            self.is_completed_answer(r, *archive, *retired, *sha256, *target),
    {
        let archive_id = verify_archive(archive, target)?;
        let retired_id = verify_archive(retired, target)?;
        ensure_expected_id(self.expected, archive_id)?;
        ensure_expected_id(self.expected, retired_id)?;
        let archived = ledger_content_digest(&archive.rows);
        let kept = ledger_content_digest(&retired.rows);
        if !same_bytes(archived.as_slice(), kept.as_slice()) {
            return Err(LedgerMaintenanceError::PartialArchive(PartialArchive::RetiredDiffers));
        }
        Ok((ArchiveStage::Finished, ArchiveAction::Report(self.report(sha256))))
    }

    /// Whether a reading of the active ledger is answered as it has to be.
    pub open spec fn is_active_answer(
        self,
        r: Result<(), LedgerMaintenanceError>,
        ledger: MaintainedLedger,
        captures: Seq<CaptureEntry>,
        target: TargetSchema,
    ) -> bool {
        if ledger.version != TARGET_SCHEMA_VERSION {
            r == Err::<(), LedgerMaintenanceError>(
                LedgerMaintenanceError::UnsupportedSchema { found: ledger.version },
            )
        } else if ledger_maintenance::v4_fault(ledger, target) is Some {
            r == Err::<(), LedgerMaintenanceError>(ledger_maintenance::v4_fault(ledger, target)->0)
        } else if id_fault(self.expected, ledger.metadata.ledger_id@) {
            r is Err && is_id_mismatch(r->Err_0, self.expected, ledger.metadata.ledger_id@)
        } else if ready_fault(ledger, captures) is Some {
            r == Err::<(), LedgerMaintenanceError>(ready_fault(ledger, captures)->0)
        } else {
            r is Ok
        }
    }

    fn check_active(
        &self,
        ledger: &MaintainedLedger,
        captures: &Vec<CaptureEntry>,
        target: &TargetSchema,
    ) -> (r: Result<(), LedgerMaintenanceError>)
        requires
            ledger.objects@.len() == target.objects@.len(),
        ensures
            self.is_active_answer(r, *ledger, captures@, *target),
    {
        if ledger.version != TARGET_SCHEMA_VERSION {
            return Err(LedgerMaintenanceError::UnsupportedSchema { found: ledger.version });
        }
        let id = verify_v4(ledger, target)?;
        ensure_expected_id(self.expected, id)?;
        ensure_archive_ready(ledger, captures)
    }

    /// Whether a reading of the archive is answered as it has to be.
    pub open spec fn is_archive_answer(
        self,
        r: Result<(), LedgerMaintenanceError>,
        archive_exists: bool,
        content: Seq<u8>,
        copy: LedgerCopy,
        target: TargetSchema,
    ) -> bool {
        if copy.fault(target) is Some {
            r == Err::<(), LedgerMaintenanceError>(copy.fault(target)->0)
        } else if id_fault(self.expected, copy.ledger.metadata.ledger_id@) {
            r is Err && is_id_mismatch(r->Err_0, self.expected, copy.ledger.metadata.ledger_id@)
        } else if copy.content_digest() != content {
            r == Err::<(), LedgerMaintenanceError>(
                if archive_exists {
                    LedgerMaintenanceError::ActiveChangedAfterArchive
                } else {
                    LedgerMaintenanceError::PartialArchive(PartialArchive::BackupDiffers)
                },
            )
        } else {
            r is Ok
        }
    }

    fn check_archive(
        &self,
        archive_exists: bool,
        content: &[u8; 32],
        copy: &LedgerCopy,
        target: &TargetSchema,
    ) -> (r: Result<(), LedgerMaintenanceError>)
        requires
            copy.readable(*target),
        ensures
            self.is_archive_answer(r, archive_exists, content@, *copy, *target),
    {
        let id = verify_archive(copy, target)?;
        ensure_expected_id(self.expected, id)?;
        let copied = ledger_content_digest(&copy.rows);
        if !same_bytes(copied.as_slice(), content.as_slice()) {
            if archive_exists {
                return Err(LedgerMaintenanceError::ActiveChangedAfterArchive);
            }
            return Err(LedgerMaintenanceError::PartialArchive(PartialArchive::BackupDiffers));
        }
        Ok(())
    }
}

/// Why a checkpoint does not allow archiving, if it does not.
pub open spec fn checkpoint_fault(
    busy: bool,
    journal_mode: String,
    sidecar: Option<String>,
) -> Option<LedgerMaintenanceError> {
    if busy {
        Some(LedgerMaintenanceError::CheckpointBusy)
    } else if unicode::lower(journal_mode@) != "delete"@ {
        Some(LedgerMaintenanceError::JournalMode(journal_mode))
    } else if sidecar is Some {
        Some(LedgerMaintenanceError::SidecarPresent(sidecar->0))
    } else {
        None
    }
}

/// Check that the whole ledger is in its one database file.
pub fn check_checkpoint(busy: bool, journal_mode: String, sidecar: Option<String>) -> (r: Result<
    (),
    LedgerMaintenanceError,
>)
    ensures
        r == (match checkpoint_fault(busy, journal_mode, sidecar) {
            Some(error) => Err::<(), LedgerMaintenanceError>(error),
            None => Ok::<(), LedgerMaintenanceError>(()),
        }),
{
    if busy {
        return Err(LedgerMaintenanceError::CheckpointBusy);
    }
    let lowered = lower_text(journal_mode.as_str());
    let wanted = chars_of("delete");
    if !same_chars(lowered.as_slice(), wanted.as_slice()) {
        return Err(LedgerMaintenanceError::JournalMode(journal_mode));
    }
    match sidecar {
        Some(path) => Err(LedgerMaintenanceError::SidecarPresent(path)),
        None => Ok(()),
    }
}

/// The files beside a database that hold what is not in it yet.
pub fn sqlite_sidecars(database: &str) -> (r: (String, String))
    ensures
        r.0@ == database@ + "-wal"@,
        r.1@ == database@ + "-shm"@,
{
    let mut wal = database.to_owned();
    wal.append("-wal");
    let mut shm = database.to_owned();
    shm.append("-shm");
    (wal, shm)
}

/// The first of a database's sidecars that exists.
pub fn present_sidecar(database: &str, wal_exists: bool, shm_exists: bool) -> (r: Option<String>)
    ensures
        match r {
            Some(path) => (wal_exists || shm_exists) && path@ == database@ + (if wal_exists {
                "-wal"@
            } else {
                "-shm"@
            }),
            None => !wal_exists && !shm_exists,
        },
{
    let (wal, shm) = sqlite_sidecars(database);
    if wal_exists {
        Some(wal)
    } else if shm_exists {
        Some(shm)
    } else {
        None
    }
}

/// Begin to archive the ledger with this identity.
pub fn begin_archive(
    expected: UploadLedgerId,
    database_path: String,
    archive_path: String,
    retired_path: String,
) -> (r: ArchiveRun)
    ensures
        r == (ArchiveRun {
            expected,
            database_path,
            archive_path,
            retired_path,
            stage: ArchiveStage::Inspect,
        }),
{
    ArchiveRun { expected, database_path, archive_path, retired_path, stage: ArchiveStage::Inspect }
}

/// Whether a step goes from a stage to the next with the action that it calls
/// for.
pub open spec fn is_archive_step(
    before: ArchiveRun,
    event: ArchiveEvent,
    target: TargetSchema,
    after: ArchiveStage,
    action: ArchiveAction,
) -> bool {
    match (before.stage, event) {
        (ArchiveStage::Inspect, ArchiveEvent::Inspected { active, archive, retired }) => {
            match before.after_inspection(active, archive, retired) {
                Ok((stage, next)) => after == stage && action == next,
                Err(error) => after == ArchiveStage::Finished && action == ArchiveAction::Refuse(
                    error,
                ),
            }
        },
        (
            ArchiveStage::ReadCompleted,
            ArchiveEvent::CompletedRead { archive, retired, sha256 },
        ) => {
            &&& after == ArchiveStage::Finished
            &&& match action {
                ArchiveAction::Refuse(error) => before.is_completed_answer(
                    Err(error),
                    archive,
                    retired,
                    sha256,
                    target,
                ),
                _ => before.is_completed_answer(
                    Ok((after, action)),
                    archive,
                    retired,
                    sha256,
                    target,
                ),
            }
        },
        (
            ArchiveStage::ReadActive { archive_exists },
            ArchiveEvent::ActiveRead { ledger, captures },
        ) => match action {
            ArchiveAction::Refuse(error) => after == ArchiveStage::Finished
                && before.is_active_answer(Err(error), ledger, captures@, target),
            _ => action == ArchiveAction::Checkpoint && after == (ArchiveStage::Checkpoint {
                archive_exists,
            }) && before.is_active_answer(Ok(()), ledger, captures@, target),
        },
        (
            ArchiveStage::Checkpoint { archive_exists },
            ArchiveEvent::Checkpointed { busy, journal_mode, sidecar, ledger, captures, rows },
        ) => if checkpoint_fault(busy, journal_mode, sidecar) is Some {
            after == ArchiveStage::Finished && action == ArchiveAction::Refuse(
                checkpoint_fault(busy, journal_mode, sidecar)->0,
            )
        } else if ready_fault(ledger, captures@) is Some {
            after == ArchiveStage::Finished && action == ArchiveAction::Refuse(
                ready_fault(ledger, captures@)->0,
            )
        } else {
            &&& after matches ArchiveStage::ReadArchive { archive_exists: exists_now, content }
            &&& exists_now == archive_exists
            &&& content@ == digest::sha256_digest(rows@.encoded())
            &&& action == if archive_exists {
                ArchiveAction::ReadArchive
            } else {
                ArchiveAction::BackUp
            }
        },
        (
            ArchiveStage::ReadArchive { archive_exists, content },
            ArchiveEvent::ArchiveRead { copy, sha256 },
        ) => match action {
            ArchiveAction::Refuse(error) => after == ArchiveStage::Finished
                && before.is_archive_answer(
                Err(error),
                archive_exists,
                content@,
                copy,
                target,
            ),
            _ => {
                &&& before.is_archive_answer(Ok(()), archive_exists, content@, copy, target)
                &&& if archive_exists {
                    action == ArchiveAction::CloseActive && after == (ArchiveStage::Close { sha256 })
                } else {
                    action == ArchiveAction::PublishBackup && after == (ArchiveStage::Publish {
                        sha256,
                    })
                }
            },
        },
        (ArchiveStage::Publish { sha256 }, ArchiveEvent::Published) => {
            after == (ArchiveStage::Close { sha256 }) && action == ArchiveAction::CloseActive
        },
        (ArchiveStage::Close { sha256 }, ArchiveEvent::Closed { sidecar }) => match sidecar {
            Some(path) => after == ArchiveStage::Finished && action == ArchiveAction::Refuse(
                LedgerMaintenanceError::SidecarPresent(path),
            ),
            None => after == (ArchiveStage::Retire { sha256 }) && action
                == ArchiveAction::RetireActive,
        },
        (ArchiveStage::Retire { sha256 }, ArchiveEvent::Retired) => {
            &&& after == ArchiveStage::Finished
            &&& action matches ArchiveAction::Report(report)
            &&& before.is_report(report, sha256)
        },
        _ => false,
    }
}

/// One step of archiving a ledger: account for what happened, and say what to do
/// next. The active ledger stays until a copy of it was verified and published.
pub fn archive_upload_ledger(
    run: &mut ArchiveRun,
    event: ArchiveEvent,
    target: &TargetSchema,
) -> (action: ArchiveAction)
    requires
        old(run).awaits(event, *target),
    ensures
        is_archive_step(*old(run), event, *target, final(run).stage, action),
        *final(run) == (ArchiveRun { stage: final(run).stage, ..*old(run) }),
{
    let stage = run.stage;
    match (stage, event) {
        (ArchiveStage::Inspect, ArchiveEvent::Inspected { active, archive, retired }) => {
            match run.inspect(active, archive, retired) {
                Ok((next, action)) => {
                    run.stage = next;
                    action
                },
                Err(error) => {
                    run.stage = ArchiveStage::Finished;
                    ArchiveAction::Refuse(error)
                },
            }
        },
        (
            ArchiveStage::ReadCompleted,
            ArchiveEvent::CompletedRead { archive, retired, sha256 },
        ) => {
            let answer = run.complete(&archive, &retired, &sha256, target);
            run.stage = ArchiveStage::Finished;
            match answer {
                Ok((_, action)) => action,
                Err(error) => ArchiveAction::Refuse(error),
            }
        },
        (
            ArchiveStage::ReadActive { archive_exists },
            ArchiveEvent::ActiveRead { ledger, captures },
        ) => {
            match run.check_active(&ledger, &captures, target) {
                Ok(_) => {
                    run.stage = ArchiveStage::Checkpoint { archive_exists };
                    ArchiveAction::Checkpoint
                },
                Err(error) => {
                    run.stage = ArchiveStage::Finished;
                    ArchiveAction::Refuse(error)
                },
            }
        },
        (
            ArchiveStage::Checkpoint { archive_exists },
            ArchiveEvent::Checkpointed { busy, journal_mode, sidecar, ledger, captures, rows },
        ) => {
            if let Err(error) = check_checkpoint(busy, journal_mode, sidecar) {
                run.stage = ArchiveStage::Finished;
                return ArchiveAction::Refuse(error);
            }
            if let Err(error) = ensure_archive_ready(&ledger, &captures) {
                run.stage = ArchiveStage::Finished;
                return ArchiveAction::Refuse(error);
            }
            let content = ledger_content_digest(&rows);
            run.stage = ArchiveStage::ReadArchive { archive_exists, content };
            if archive_exists {
                ArchiveAction::ReadArchive
            } else {
                ArchiveAction::BackUp
            }
        },
        (
            ArchiveStage::ReadArchive { archive_exists, content },
            ArchiveEvent::ArchiveRead { copy, sha256 },
        ) => {
            match run.check_archive(archive_exists, &content, &copy, target) {
                Ok(_) => {
                    if archive_exists {
                        run.stage = ArchiveStage::Close { sha256 };
                        ArchiveAction::CloseActive
                    } else {
                        run.stage = ArchiveStage::Publish { sha256 };
                        ArchiveAction::PublishBackup
                    }
                },
                Err(error) => {
                    run.stage = ArchiveStage::Finished;
                    ArchiveAction::Refuse(error)
                },
            }
        },
        (ArchiveStage::Publish { sha256 }, ArchiveEvent::Published) => {
            run.stage = ArchiveStage::Close { sha256 };
            ArchiveAction::CloseActive
        },
        (ArchiveStage::Close { sha256 }, ArchiveEvent::Closed { sidecar }) => {
            match sidecar {
                Some(path) => {
                    run.stage = ArchiveStage::Finished;
                    ArchiveAction::Refuse(LedgerMaintenanceError::SidecarPresent(path))
                },
                None => {
                    run.stage = ArchiveStage::Retire { sha256 };
                    ArchiveAction::RetireActive
                },
            }
        },
        (ArchiveStage::Retire { sha256 }, ArchiveEvent::Retired) => {
            run.stage = ArchiveStage::Finished;
            ArchiveAction::Report(run.report(&sha256))
        },
        _ => vstd::pervasive::unreached(),
    }
}

/// A ledger that may be archived has neither unfinished nor failed work, and
/// tells of every generated capture, each of which is a plain file.
pub proof fn law_ready_ledger_is_settled(
    ledger: MaintainedLedger,
    entries: Seq<CaptureEntry>,
    i: int,
)
    requires
        ready_fault(ledger, entries) is None,
        0 <= i < entries.len(),
    ensures
        live_jobs(ledger.jobs@) == 0,
        ledger_maintenance::jobs_in(ledger.jobs@, "permanently_failed"@) == 0,
        is_capture(entries[i]) ==> entries[i].regular && entries[i].path is Some && is_recorded(
            ledger,
            entries[i].path->0@,
        ),
    decreases entries.len(),
{
    if i > 0 {
        assert(entries.skip(1)[i - 1] == entries[i]);
        law_ready_ledger_is_settled(ledger, entries.skip(1), i - 1);
    }
}

/// The active ledger is retired last: only after a copy with the expected
/// identity was verified, found ready and found to have the digest of the active
/// ledger's contents, and after a new copy was published.
pub proof fn law_active_ledger_is_retired_last(
    before: ArchiveRun,
    event: ArchiveEvent,
    target: TargetSchema,
    after: ArchiveStage,
    action: ArchiveAction,
)
    requires
        is_archive_step(before, event, target, after, action),
    ensures
        action is RetireActive ==> before.stage is Close,
        after is Close ==> before.stage is Publish || before.stage is ReadArchive,
        after is Publish ==> before.stage is ReadArchive,
        before.stage is ReadArchive && !(action is Refuse) ==> {
            &&& event matches ArchiveEvent::ArchiveRead { copy, .. }
            &&& copy.fault(target) is None
            &&& copy.ledger.metadata.ledger_id@ == before.expected.0@
            &&& copy.content_digest() == before.stage->content@
        },
{
}

/// A ledger is neither copied nor retired unless it was verified, carries the
/// expected identity and may be archived.
pub proof fn law_unready_ledger_is_left_alone(
    before: ArchiveRun,
    ledger: MaintainedLedger,
    captures: Vec<CaptureEntry>,
    target: TargetSchema,
    after: ArchiveStage,
    action: ArchiveAction,
)
    requires
        before.stage is ReadActive,
        is_archive_step(
            before,
            ArchiveEvent::ActiveRead { ledger, captures },
            target,
            after,
            action,
        ),
        ledger_maintenance::v4_fault(ledger, target) is Some || ledger.metadata.ledger_id@
            != before.expected.0@ || ready_fault(ledger, captures@) is Some,
    ensures
        action is Refuse,
        after == ArchiveStage::Finished,
{
}

/// The name under which a backup is written before it is published.
pub open spec fn partial_path(archive: Seq<char>, random: Seq<u8>) -> Seq<char> {
    archive + ".partial-"@ + hex::hex(random)
}

pub fn partial_archive_path(archive: &str, random: &[u8; 8]) -> (r: String)
    ensures
        r@ == partial_path(archive@, random@),
{
    let mut path = archive.to_owned();
    path.append(".partial-");
    push_hex(&mut path, random.as_slice());
    path
}

/// A fresh name for a backup.
pub fn unique_partial_path(archive: &str) -> (r: Result<String, LedgerMaintenanceError>)
    ensures
        exists|source: Result<[u8; 8], getrandom::Error>| #[trigger]
            random::drawn(source) && match source {
                Ok(bytes) => r matches Ok(path) && path@ == partial_path(archive@, bytes@),
                Err(error) => r == Err::<String, LedgerMaintenanceError>(
                    LedgerMaintenanceError::Random(error),
                ),
            },
{
    match draw::<8>() {
        Ok(random) => Ok(partial_archive_path(archive, &random)),
        Err(error) => Err(LedgerMaintenanceError::Random(error)),
    }
}

/// How many names are tried for a backup.
pub const PARTIAL_ATTEMPTS: u32 = 32;

/// What creating a file under a fresh name came to.
#[derive(Clone, Copy, Debug, PartialEq, Eq, Structural)]
pub enum CreateOutcome {
    Created,
    Exists,
    Failed,
}

/// What to do after a file was to be created under a fresh name.
#[derive(Clone, Copy, Debug, PartialEq, Eq, Structural)]
pub enum CreateStep {
    Use,
    TryAnother,
    GiveUp,
    Fail,
}

/// A name that is taken is tried again with another one, so often.
pub fn after_create(outcome: CreateOutcome, attempts_made: u32) -> (r: CreateStep)
    ensures
        r == (match outcome {
            CreateOutcome::Created => CreateStep::Use,
            CreateOutcome::Exists => if attempts_made < PARTIAL_ATTEMPTS {
                CreateStep::TryAnother
            } else {
                CreateStep::GiveUp
            },
            CreateOutcome::Failed => CreateStep::Fail,
        }),
{
    match outcome {
        CreateOutcome::Created => CreateStep::Use,
        CreateOutcome::Exists => {
            if attempts_made < PARTIAL_ATTEMPTS {
                CreateStep::TryAnother
            } else {
                CreateStep::GiveUp
            }
        },
        CreateOutcome::Failed => CreateStep::Fail,
    }
}

/// The jobs of a ledger that still have to be uploaded.
pub open spec fn unfinished(jobs: Seq<LedgerJob>) -> Seq<LedgerJob> {
    jobs.filter(
        |job: LedgerJob|
            job.state@ == "pending"@ || job.state@ == "in_progress"@ || job.state@ == "retrying"@,
    )
}

/// The jobs of a ledger that will not be uploaded any more.
pub open spec fn given_up(jobs: Seq<LedgerJob>) -> Seq<LedgerJob> {
    jobs.filter(|job: LedgerJob| job.state@ == "permanently_failed"@)
}

proof fn lemma_states_differ()
    ensures
        "pending"@ != "in_progress"@,
        "pending"@ != "retrying"@,
        "in_progress"@ != "retrying"@,
        "pending"@ != "permanently_failed"@,
        "in_progress"@ != "permanently_failed"@,
        "retrying"@ != "permanently_failed"@,
        "completed"@ != "pending"@,
        "completed"@ != "in_progress"@,
        "completed"@ != "retrying"@,
        "completed"@ != "permanently_failed"@,
{
    reveal_strlit("pending");
    reveal_strlit("in_progress");
    reveal_strlit("retrying");
    reveal_strlit("permanently_failed");
    reveal_strlit("completed");
    assert("pending"@.len() == 7);
    assert("in_progress"@.len() == 11);
    assert("retrying"@.len() == 8);
    assert("permanently_failed"@.len() == 18);
    assert("completed"@.len() == 9);
}

proof fn lemma_counted(jobs: Seq<LedgerJob>)
    ensures
        live_jobs(jobs) == unfinished(jobs).len(),
        ledger_maintenance::jobs_in(jobs, "permanently_failed"@) == given_up(jobs).len(),
        forall|i: int|
            0 <= i < jobs.len() && ((#[trigger] jobs[i]).state@ == "pending"@ || jobs[i].state@
                == "in_progress"@ || jobs[i].state@ == "retrying"@) ==> unfinished(jobs).len() > 0,
        forall|i: int|
            0 <= i < jobs.len() && (#[trigger] jobs[i]).state@ == "permanently_failed"@
                ==> given_up(jobs).len() > 0,
    decreases jobs.len(),
{
    reveal(Seq::filter);
    if jobs.len() > 0 {
        lemma_states_differ();
        lemma_counted(jobs.drop_last());
        assert forall|i: int|
            0 <= i < jobs.len() && ((#[trigger] jobs[i]).state@ == "pending"@ || jobs[i].state@
                == "in_progress"@ || jobs[i].state@ == "retrying"@) implies unfinished(jobs).len()
            > 0 by {
            if i < jobs.len() - 1 {
                assert(jobs.drop_last()[i] == jobs[i]);
            }
        }
        assert forall|i: int|
            0 <= i < jobs.len() && (#[trigger] jobs[i]).state@
                == "permanently_failed"@ implies given_up(jobs).len() > 0 by {
            if i < jobs.len() - 1 {
                assert(jobs.drop_last()[i] == jobs[i]);
            }
        }
    }
}

proof fn lemma_no_capture_fault(ledger: MaintainedLedger, entries: Seq<CaptureEntry>)
    ensures
        captures_fault(ledger, entries) is None <==> forall|i: int|
            0 <= i < entries.len() ==> entry_fault(ledger, #[trigger] entries[i]) is None,
    decreases entries.len(),
{
    if entries.len() > 0 {
        let rest = entries.skip(1);
        lemma_no_capture_fault(ledger, rest);
        if captures_fault(ledger, entries) is None {
            assert forall|i: int| 0 <= i < entries.len() implies entry_fault(
                ledger,
                #[trigger] entries[i],
            ) is None by {
                if i > 0 {
                    assert(rest[i - 1] == entries[i]);
                }
            }
        }
        if forall|i: int|
            0 <= i < entries.len() ==> entry_fault(ledger, #[trigger] entries[i]) is None {
            assert(entry_fault(ledger, entries[0]) is None);
            assert forall|i: int| 0 <= i < rest.len() implies entry_fault(
                ledger,
                #[trigger] rest[i],
            ) is None by {
                assert(rest[i] == entries[i + 1]);
            }
        }
    }
}

/// A ledger with work that is waiting, under way or to be repeated is not ready
/// to be archived, and the refusal tells how many such jobs there are. Where none
/// is left, jobs that were given up are what is told of.
pub proof fn law_unfinished_work_stops_archiving(
    ledger: &MaintainedLedger,
    entries: &Vec<CaptureEntry>,
    r: Result<(), LedgerMaintenanceError>,
)
    requires
        call_ensures(ensure_archive_ready, (ledger, entries), r),
    ensures
        r is Ok ==> forall|i: int|
            0 <= i < ledger.jobs@.len() ==> {
                &&& (#[trigger] ledger.jobs@[i]).state@ != "pending"@
                &&& ledger.jobs@[i].state@ != "in_progress"@
                &&& ledger.jobs@[i].state@ != "retrying"@
                &&& ledger.jobs@[i].state@ != "permanently_failed"@
            },
        forall|i: int|
            0 <= i < ledger.jobs@.len() && ((#[trigger] ledger.jobs@[i]).state@ == "pending"@
                || ledger.jobs@[i].state@ == "in_progress"@ || ledger.jobs@[i].state@
                == "retrying"@) ==> r is Err && r->Err_0 is LiveWork,
        r matches Err(LedgerMaintenanceError::LiveWork { count }) ==> count == unfinished(
            ledger.jobs@,
        ).len() && count > 0,
        unfinished(ledger.jobs@).len() == 0 ==> forall|i: int|
            0 <= i < ledger.jobs@.len() && (#[trigger] ledger.jobs@[i]).state@
                == "permanently_failed"@ ==> r is Err && r->Err_0 is PermanentFailures,
        r matches Err(LedgerMaintenanceError::PermanentFailures { count }) ==> count == given_up(
            ledger.jobs@,
        ).len() && count > 0 && unfinished(ledger.jobs@).len() == 0,
{
    lemma_counted(ledger.jobs@);
    lemma_live_jobs_bound(ledger.jobs@);
    lemma_failed_bound(ledger.jobs@);
    assert(ledger.jobs.len() == ledger.jobs@.len());
    lemma_capture_fault_kind(*ledger, entries@);
}

proof fn lemma_failed_bound(jobs: Seq<LedgerJob>)
    ensures
        ledger_maintenance::jobs_in(jobs, "permanently_failed"@) <= jobs.len(),
    decreases jobs.len(),
{
    if jobs.len() > 0 {
        lemma_failed_bound(jobs.drop_last());
    }
}

proof fn lemma_capture_fault_kind(ledger: MaintainedLedger, entries: Seq<CaptureEntry>)
    ensures
        captures_fault(ledger, entries) matches Some(error) ==> error is CrashGap || error
            is UnsafePath,
    decreases entries.len(),
{
    if entries.len() > 0 {
        lemma_capture_fault_kind(ledger, entries.skip(1));
    }
}

/// A ledger whose jobs are all completed is ready to be archived exactly where
/// each generated capture in the directory is a plain file that a job or the list
/// of older captures tells of.
pub proof fn law_drained_ledger_is_ready(
    ledger: &MaintainedLedger,
    entries: &Vec<CaptureEntry>,
    r: Result<(), LedgerMaintenanceError>,
)
    requires
        call_ensures(ensure_archive_ready, (ledger, entries), r),
        forall|i: int|
            0 <= i < ledger.jobs@.len() ==> (#[trigger] ledger.jobs@[i]).state@ == "completed"@,
    ensures
        r is Ok <==> forall|k: int, seconds: nat, millis: nat, sequence: nat|
            0 <= k < entries@.len() && (#[trigger] entries@[k]).filename is Some
                && #[trigger] artifact::names_frame(
                entries@[k].filename->0@,
                seconds,
                millis,
                sequence,
            ) ==> {
                &&& entries@[k].regular
                &&& entries@[k].path is Some
                &&& (exists|i: int|
                    0 <= i < ledger.jobs@.len() && (#[trigger] ledger.jobs@[i]).artifact_path@
                        == entries@[k].path->0@) || (exists|i: int|
                    0 <= i < ledger.preactivation@.len() && (#[trigger] ledger.preactivation@[i])@
                        == entries@[k].path->0@)
            },
        forall|error: LedgerMaintenanceError|
            r == Err::<(), LedgerMaintenanceError>(error) ==> error is CrashGap || error
                is UnsafePath,
{
    lemma_states_differ();
    lemma_all_completed(ledger.jobs@);
    lemma_no_capture_fault(*ledger, entries@);
    lemma_capture_fault_kind(*ledger, entries@);
    if r is Ok {
        assert forall|k: int, seconds: nat, millis: nat, sequence: nat|
            0 <= k < entries@.len() && (#[trigger] entries@[k]).filename is Some
                && #[trigger] artifact::names_frame(
                entries@[k].filename->0@,
                seconds,
                millis,
                sequence,
            ) implies entries@[k].regular && entries@[k].path is Some && is_recorded(
            *ledger,
            entries@[k].path->0@,
        ) by {
            assert(entry_fault(*ledger, entries@[k]) is None);
            assert(is_capture(entries@[k]));
        }
    } else {
        let k = choose|k: int|
            0 <= k < entries@.len() && entry_fault(*ledger, #[trigger] entries@[k]) is Some;
        assert(is_capture(entries@[k]));
        let (seconds, millis, sequence) = choose|seconds: nat, millis: nat, sequence: nat|
            #[trigger] artifact::names_frame(
                entries@[k].filename->0@,
                seconds,
                millis,
                sequence,
            );
        assert(artifact::names_frame(entries@[k].filename->0@, seconds, millis, sequence));
    }
}

proof fn lemma_all_completed(jobs: Seq<LedgerJob>)
    requires
        forall|i: int| 0 <= i < jobs.len() ==> (#[trigger] jobs[i]).state@ == "completed"@,
    ensures
        live_jobs(jobs) == 0,
        ledger_maintenance::jobs_in(jobs, "permanently_failed"@) == 0,
    decreases jobs.len(),
{
    if jobs.len() > 0 {
        lemma_states_differ();
        assert(jobs.last().state@ == "completed"@);
        assert forall|i: int| 0 <= i < jobs.drop_last().len() implies (
        #[trigger] jobs.drop_last()[i]).state@ == "completed"@ by {
            assert(jobs.drop_last()[i] == jobs[i]);
        }
        lemma_all_completed(jobs.drop_last());
    }
}

/// Whether a ledger still has something that stands in the way of archiving it.
pub open spec fn has_open_job(ledger: MaintainedLedger) -> bool {
    exists|i: int|
        0 <= i < ledger.jobs@.len() && ((#[trigger] ledger.jobs@[i]).state@ == "pending"@
            || ledger.jobs@[i].state@ == "in_progress"@ || ledger.jobs@[i].state@ == "retrying"@
            || ledger.jobs@[i].state@ == "permanently_failed"@)
}

/// Archiving stops at a ledger with an upload that is not completed, both when the
/// active ledger is first read and when it is read again after its checkpoint; and
/// it stops where the ledger is not the expected one or is damaged.
pub proof fn law_archiving_stops_at_open_uploads(
    target: &TargetSchema,
    ledger: MaintainedLedger,
    captures: Vec<CaptureEntry>,
    busy: bool,
    journal_mode: String,
    sidecar: Option<String>,
    rows: LedgerRows,
    i: int,
    action: ArchiveAction,
)
    requires
        0 <= i < ledger.jobs@.len(),
        ledger.jobs@[i].state@ == "pending"@ || ledger.jobs@[i].state@ == "in_progress"@
            || ledger.jobs@[i].state@ == "retrying"@ || ledger.jobs@[i].state@
            == "permanently_failed"@,
    ensures
        forall|run: &mut ArchiveRun|
            run.stage is ReadActive && #[trigger] call_ensures(
                archive_upload_ledger,
                (run, ArchiveEvent::ActiveRead { ledger, captures }, target),
                action,
            ) ==> action is Refuse && final(run).stage is Finished,
        forall|run: &mut ArchiveRun|
            run.stage is Checkpoint && #[trigger] call_ensures(
                archive_upload_ledger,
                (
                    run,
                    ArchiveEvent::Checkpointed {
                        busy,
                        journal_mode,
                        sidecar,
                        ledger,
                        captures,
                        rows,
                    },
                    target,
                ),
                action,
            ) ==> action is Refuse && final(run).stage is Finished,
{
    lemma_counted(ledger.jobs@);
}

/// A ledger of another version, with another identity or with damage is refused
/// when it is first read, and so is one whose checkpoint left anything outside its
/// one file.
pub proof fn law_archiving_stops_at_unfit_ledgers(
    target: &TargetSchema,
    ledger: MaintainedLedger,
    captures: Vec<CaptureEntry>,
    busy: bool,
    journal_mode: String,
    sidecar: Option<String>,
    rows: LedgerRows,
    action: ArchiveAction,
)
    ensures
        forall|run: &mut ArchiveRun|
            run.stage is ReadActive && #[trigger] call_ensures(
                archive_upload_ledger,
                (run, ArchiveEvent::ActiveRead { ledger, captures }, target),
                action,
            ) && (ledger.version != 4 || ledger.integrity@ != "ok"@ || ledger.metadata.ledger_id@
                != run.expected.0@) ==> action is Refuse && final(run).stage is Finished,
        forall|run: &mut ArchiveRun|
            run.stage is Checkpoint && #[trigger] call_ensures(
                archive_upload_ledger,
                (
                    run,
                    ArchiveEvent::Checkpointed {
                        busy,
                        journal_mode,
                        sidecar,
                        ledger,
                        captures,
                        rows,
                    },
                    target,
                ),
                action,
            ) && (busy || sidecar is Some || unicode::lower(journal_mode@) != "delete"@)
                ==> action is Refuse && final(run).stage is Finished,
{
}

/// Looking at the three paths: archiving begins only with an active ledger and
/// without a retired one, a completed archive is only read again, and nothing but a
/// plain file is ever touched.
pub proof fn law_archiving_begins_with_an_active_ledger(
    target: &TargetSchema,
    active: Sighting,
    archive: Sighting,
    retired: Sighting,
    action: ArchiveAction,
)
    ensures
        forall|run: &mut ArchiveRun|
            run.stage is Inspect && #[trigger] call_ensures(
                archive_upload_ledger,
                (run, ArchiveEvent::Inspected { active, archive, retired }, target),
                action,
            ) ==> {
                &&& action is ReadActive <==> active is Regular && retired is Missing && !(archive
                    is Unsafe)
                &&& action is ReadActive ==> final(run).stage == (ArchiveStage::ReadActive {
                    archive_exists: archive is Regular,
                })
                &&& action is ReadCompleted <==> active is Missing && archive is Regular && retired
                    is Regular
                &&& action is ReadCompleted ==> final(run).stage is ReadCompleted
                &&& !(action is ReadActive) && !(action is ReadCompleted) ==> action is Refuse
                    && final(run).stage is Finished
            },
{
}

/// Once a copy was checked, the steps follow one another: a new copy is published,
/// the active ledger is closed and renamed, and the report names the ledger, both
/// files and the digest of the copy.
pub proof fn law_checked_copy_is_published_and_the_ledger_retired(
    target: &TargetSchema,
    sidecar: Option<String>,
    sha256: [u8; 32],
    action: ArchiveAction,
)
    ensures
        forall|run: &mut ArchiveRun|
            run.stage == (ArchiveStage::Publish { sha256 }) && #[trigger] call_ensures(
                archive_upload_ledger,
                (run, ArchiveEvent::Published, target),
                action,
            ) ==> action is CloseActive && final(run).stage == (ArchiveStage::Close { sha256 }),
        forall|run: &mut ArchiveRun|
            run.stage == (ArchiveStage::Close { sha256 }) && #[trigger] call_ensures(
                archive_upload_ledger,
                (run, ArchiveEvent::Closed { sidecar }, target),
                action,
            ) ==> if sidecar is Some {
                action is Refuse && final(run).stage is Finished
            } else {
                action is RetireActive && final(run).stage == (ArchiveStage::Retire { sha256 })
            },
        forall|run: &mut ArchiveRun|
            run.stage == (ArchiveStage::Retire { sha256 }) && #[trigger] call_ensures(
                archive_upload_ledger,
                (run, ArchiveEvent::Retired, target),
                action,
            ) ==> {
                &&& final(run).stage is Finished
                &&& action matches ArchiveAction::Report(report)
                &&& report.ledger_id@ == hex::hex(run.expected.0@)
                &&& report.archive_path@ == run.archive_path@
                &&& report.retired_path@ == run.retired_path@
                &&& report.sha256@ == hex::hex(sha256@)
            },
{
}

/// A copy is accepted only where it is a plain file that holds a whole and settled
/// ledger with the expected identity and the very contents of the active one; an
/// accepted new copy is published, and an accepted older one is kept.
pub proof fn law_only_a_true_copy_replaces_the_ledger(
    target: &TargetSchema,
    copy: LedgerCopy,
    sha256: [u8; 32],
    archive_exists: bool,
    content: [u8; 32],
    action: ArchiveAction,
)
    ensures
        forall|run: &mut ArchiveRun|
            run.stage == (ArchiveStage::ReadArchive { archive_exists, content })
                && #[trigger] call_ensures(
                archive_upload_ledger,
                (run, ArchiveEvent::ArchiveRead { copy, sha256 }, target),
                action,
            ) ==> {
                &&& !(action is Refuse) ==> {
                    &&& copy.sighting is Regular
                    &&& copy.ledger.integrity@ == "ok"@
                    &&& copy.ledger.metadata.ledger_id@ == run.expected.0@
                    &&& !has_open_job(copy.ledger)
                    &&& digest::sha256_digest(copy.rows@.encoded()) == content@
                    &&& if archive_exists {
                        action is CloseActive && final(run).stage == (ArchiveStage::Close {
                            sha256,
                        })
                    } else {
                        action is PublishBackup && final(run).stage == (ArchiveStage::Publish {
                            sha256,
                        })
                    }
                }
                &&& action is Refuse ==> final(run).stage is Finished
            },
{
    lemma_counted(copy.ledger.jobs@);
}

/// A capture directory has no gap exactly where each generated frame in it is a regular
/// file that has a job or is older than the ledger.
pub proof fn law_every_frame_is_known(
    ledger: &MaintainedLedger,
    entries: &Vec<CaptureEntry>,
    k: int,
    name: &str,
    generated: bool,
    r: Result<(), LedgerMaintenanceError>,
)
    requires
        call_ensures(ensure_no_crash_gap, (ledger, entries), r),
        call_ensures(is_generated_frame_filename, (name,), generated),
        0 <= k < entries@.len(),
        entries@[k].filename is Some,
        name@ == entries@[k].filename->0@,
    ensures
        ({
            let known = entries@[k].path is Some && ((exists|i: int|
                0 <= i < ledger.jobs@.len() && (#[trigger] ledger.jobs@[i]).artifact_path@
                    == entries@[k].path->0@) || (exists|i: int|
                0 <= i < ledger.preactivation@.len() && (#[trigger] ledger.preactivation@[i])@
                    == entries@[k].path->0@));
            &&& generated && !entries@[k].regular ==> r is Err
            &&& generated && !known ==> r is Err
            &&& entries@.len() == 1 && (!generated || (entries@[k].regular && known)) ==> r is Ok
            &&& entries@.len() == 1 && generated && !entries@[k].regular ==> (r matches Err(
                LedgerMaintenanceError::UnsafePath { .. },
            ))
            &&& entries@.len() == 1 && generated && entries@[k].regular && !known ==> (r
                matches Err(LedgerMaintenanceError::CrashGap { .. }))
        }),
        r matches Err(error) ==> error is CrashGap || error is UnsafePath,
{
    lemma_no_capture_fault(*ledger, entries@);
    lemma_capture_fault_kind(*ledger, entries@);
    assert(entry_fault(*ledger, entries@[k]) is None <==> !generated || (entries@[k].regular
        && entries@[k].path is Some && is_recorded(*ledger, entries@[k].path->0@)));
    if entries@.len() == 1 {
        assert(captures_fault(*ledger, entries@.skip(1)) is None) by {
            assert(entries@.skip(1) =~= Seq::<CaptureEntry>::empty());
        }
        assert(captures_fault(*ledger, entries@) == entry_fault(*ledger, entries@[0]));
    }
}

/// An archive is accepted exactly where it is a regular file with a ledger of the target
/// schema that is ready to be archived; its identity is the answer.
pub proof fn law_archive_is_a_ready_ledger(
    copy: &LedgerCopy,
    target: &TargetSchema,
    schema: Result<UploadLedgerId, LedgerMaintenanceError>,
    ready: Result<(), LedgerMaintenanceError>,
    r: Result<UploadLedgerId, LedgerMaintenanceError>,
)
    requires
        call_ensures(verify_archive, (copy, target), r),
        call_ensures(verify_v4, (&copy.ledger, target), schema),
        call_ensures(ensure_archive_ready, (&copy.ledger, &copy.captures), ready),
        copy.readable(*target),
    ensures
        r is Ok <==> copy.sighting is Regular && schema is Ok && ready is Ok,
        r matches Ok(id) ==> id.0@ == copy.ledger.metadata.ledger_id@,
        copy.sighting is Missing ==> r == Err::<UploadLedgerId, LedgerMaintenanceError>(
            LedgerMaintenanceError::PartialArchive(PartialArchive::ArtifactMissing),
        ),
        copy.sighting is Unsafe ==> (r matches Err(LedgerMaintenanceError::UnsafePath { kind, path })
            && kind is Archive && path == copy.path),
{
}

/// An archive and a retired ledger are named by the identity of the ledger.
pub proof fn law_archives_are_named_by_identity(id: UploadLedgerId, archive: String, retired: String)
    requires
        call_ensures(archive_extension, (id,), archive),
        call_ensures(retired_extension, (id,), retired),
    ensures
        archive@ == "upload."@ + hex::hex(id.0@) + ".archive.sqlite3"@,
        retired@ == "upload."@ + hex::hex(id.0@) + ".retired.sqlite3"@,
{
}

/// Archiving needs a checkpoint that was not held up, the journal mode that leaves one
/// file, in whatever case it is answered, and no file beside the database.
pub proof fn law_checkpoint_leaves_one_file(
    busy: bool,
    journal_mode: String,
    answered: &str,
    lowered: Vec<char>,
    sidecar: Option<String>,
    r: Result<(), LedgerMaintenanceError>,
)
    requires
        call_ensures(check_checkpoint, (busy, journal_mode, sidecar), r),
        call_ensures(lower_text, (answered,), lowered),
        answered@ == journal_mode@,
    ensures
        r is Ok <==> !busy && lowered@ == "delete"@ && sidecar is None,
        r matches Err(LedgerMaintenanceError::CheckpointBusy) <==> busy,
        r matches Err(LedgerMaintenanceError::JournalMode(_)) <==> !busy && lowered@ != "delete"@,
        r matches Err(LedgerMaintenanceError::SidecarPresent(_)) <==> !busy && lowered@
            == "delete"@ && sidecar is Some,
{
}

/// The log and the index of a database stand beside it, and either is found.
pub proof fn law_sidecars_stand_beside_the_database(
    database: &str,
    both: (String, String),
    wal_exists: bool,
    shm_exists: bool,
    r: Option<String>,
)
    requires
        call_ensures(sqlite_sidecars, (database,), both),
        call_ensures(present_sidecar, (database, wal_exists, shm_exists), r),
    ensures
        both.0@ == database@ + "-wal"@,
        both.1@ == database@ + "-shm"@,
        r is None <==> !wal_exists && !shm_exists,
        r matches Some(path) ==> (wal_exists && path@ == both.0@) || (!wal_exists && path@
            == both.1@),
{
}

/// A run begins by looking at what is there.
pub proof fn law_archiving_begins_with_a_look(
    expected: UploadLedgerId,
    database_path: String,
    archive_path: String,
    retired_path: String,
    r: ArchiveRun,
)
    requires
        call_ensures(begin_archive, (expected, database_path, archive_path, retired_path), r),
    ensures
        r.stage is Inspect,
        r.expected == expected,
        r.database_path == database_path,
        r.archive_path == archive_path,
        r.retired_path == retired_path,
{
}

/// A backup is written beside the archive under a random name, of which a taken one is
/// replaced a few times.
pub proof fn law_backup_gets_a_free_name(
    archive: &str,
    random: &[u8; 8],
    path: String,
    outcome: CreateOutcome,
    attempts_made: u32,
    r: CreateStep,
)
    requires
        call_ensures(partial_archive_path, (archive, random), path),
        call_ensures(after_create, (outcome, attempts_made), r),
    ensures
        path@ == archive@ + ".partial-"@ + hex::hex(random@),
        r is Use <==> outcome is Created,
        r is Fail <==> outcome is Failed,
        r is TryAnother <==> outcome is Exists && attempts_made < 32,
        r is GiveUp <==> outcome is Exists && attempts_made >= 32,
{
}

/// What cannot be archived is refused by what was found: an unsafe path by its kind, and
/// an archive that was left half done by what is there and what is missing.
pub proof fn law_half_done_archive_is_refused(
    target: &TargetSchema,
    active: Sighting,
    archive: Sighting,
    retired: Sighting,
    action: ArchiveAction,
)
    ensures
        forall|run: &mut ArchiveRun|
            run.stage is Inspect && #[trigger] call_ensures(
                archive_upload_ledger,
                (run, ArchiveEvent::Inspected { active, archive, retired }, target),
                action,
            ) ==> {
                let safe = active !is Unsafe && archive !is Unsafe && retired !is Unsafe;
                &&& !safe ==> (action matches ArchiveAction::Refuse(
                    LedgerMaintenanceError::UnsafePath { kind, path },
                ) && {
                    &&& kind is ActiveLedger <==> active is Unsafe
                    &&& kind is Archive <==> active !is Unsafe && archive is Unsafe
                    &&& kind is ActiveLedger ==> path@ == run.database_path@
                    &&& kind is Archive ==> path@ == run.archive_path@
                    &&& kind is RetiredLedger ==> path@ == run.retired_path@
                })
                &&& safe && active is Regular && archive is Regular && retired is Regular ==> action
                    == ArchiveAction::Refuse(
                    LedgerMaintenanceError::PartialArchive(PartialArchive::ActiveBesideCompleted),
                )
                &&& safe && archive is Missing && retired is Regular ==> action
                    == ArchiveAction::Refuse(
                    LedgerMaintenanceError::PartialArchive(PartialArchive::RetiredWithoutArchive),
                )
                &&& safe && active is Missing && archive is Regular && retired is Missing ==> action
                    == ArchiveAction::Refuse(
                    LedgerMaintenanceError::PartialArchive(PartialArchive::ArchiveAlone),
                )
                &&& safe && active is Missing && archive is Missing && retired is Missing ==> action
                    == ArchiveAction::Refuse(
                    LedgerMaintenanceError::PartialArchive(PartialArchive::ActiveAbsent),
                )
            },
{
}

/// A fit and drained ledger goes on to a checkpoint, and from there to the archive that
/// exists or to a backup, by the digest of what it holds.
pub proof fn law_drained_ledger_goes_on(
    target: &TargetSchema,
    ledger: MaintainedLedger,
    captures: Vec<CaptureEntry>,
    schema: Result<UploadLedgerId, LedgerMaintenanceError>,
    ready: Result<(), LedgerMaintenanceError>,
    busy: bool,
    journal_mode: String,
    sidecar: Option<String>,
    rows: LedgerRows,
    archive_exists: bool,
    action: ArchiveAction,
)
    requires
        call_ensures(verify_v4, (&ledger, target), schema),
        call_ensures(ensure_archive_ready, (&ledger, &captures), ready),
        ready is Ok,
    ensures
        forall|run: &mut ArchiveRun|
            run.stage == (ArchiveStage::ReadActive { archive_exists })
                && #[trigger] call_ensures(
                archive_upload_ledger,
                (run, ArchiveEvent::ActiveRead { ledger, captures }, target),
                action,
            ) && schema is Ok && ledger.version == 4 && ledger.metadata.ledger_id@ == run.expected.0@
                ==> action is Checkpoint && final(run).stage == (ArchiveStage::Checkpoint {
                archive_exists,
            }),
        forall|run: &mut ArchiveRun|
            run.stage == (ArchiveStage::Checkpoint { archive_exists })
                && #[trigger] call_ensures(
                archive_upload_ledger,
                (
                    run,
                    ArchiveEvent::Checkpointed {
                        busy,
                        journal_mode,
                        sidecar,
                        ledger,
                        captures,
                        rows,
                    },
                    target,
                ),
                action,
            ) && !busy && sidecar is None && unicode::lower(journal_mode@) == "delete"@ ==> {
                &&& archive_exists ==> action is ReadArchive
                &&& !archive_exists ==> action is BackUp
                &&& final(run).stage matches ArchiveStage::ReadArchive {
                    archive_exists: exists_now,
                    content,
                } && exists_now == archive_exists && content@ == digest::sha256_digest(
                    rows@.encoded(),
                )
            },
{
}

/// A copy that verifies, is of the expected ledger and holds what the active one holds is
/// accepted; one that holds something else is refused as a ledger that changed, or as a
/// backup that failed.
pub proof fn law_true_copy_is_accepted(
    target: &TargetSchema,
    copy: LedgerCopy,
    verified: Result<UploadLedgerId, LedgerMaintenanceError>,
    sha256: [u8; 32],
    archive_exists: bool,
    content: [u8; 32],
    action: ArchiveAction,
)
    requires
        call_ensures(verify_archive, (&copy, target), verified),
        verified is Ok,
    ensures
        forall|run: &mut ArchiveRun|
            run.stage == (ArchiveStage::ReadArchive { archive_exists, content })
                && #[trigger] call_ensures(
                archive_upload_ledger,
                (run, ArchiveEvent::ArchiveRead { copy, sha256 }, target),
                action,
            ) ==> {
                let expected = verified->Ok_0.0@ == run.expected.0@;
                let same = digest::sha256_digest(copy.rows@.encoded()) == content@;
                &&& action is Refuse <==> !expected || !same
                &&& !expected ==> (action matches ArchiveAction::Refuse(error) && error
                    is LedgerIdMismatch)
                &&& expected && !same && archive_exists ==> action == ArchiveAction::Refuse(
                    LedgerMaintenanceError::ActiveChangedAfterArchive,
                )
                &&& expected && !same && !archive_exists ==> action == ArchiveAction::Refuse(
                    LedgerMaintenanceError::PartialArchive(PartialArchive::BackupDiffers),
                )
            },
{
}

/// An archive that was completed before is reported again exactly where both copies
/// verify, are of the expected ledger and hold the same.
pub proof fn law_completed_archive_is_reported_again(
    target: &TargetSchema,
    archive: LedgerCopy,
    retired: LedgerCopy,
    first: Result<UploadLedgerId, LedgerMaintenanceError>,
    second: Result<UploadLedgerId, LedgerMaintenanceError>,
    sha256: [u8; 32],
    action: ArchiveAction,
)
    requires
        call_ensures(verify_archive, (&archive, target), first),
        call_ensures(verify_archive, (&retired, target), second),
    ensures
        forall|run: &mut ArchiveRun|
            run.stage is ReadCompleted && #[trigger] call_ensures(
                archive_upload_ledger,
                (run, ArchiveEvent::CompletedRead { archive, retired, sha256 }, target),
                action,
            ) ==> {
                let expected = first is Ok && second is Ok && first->Ok_0.0@ == run.expected.0@
                    && second->Ok_0.0@ == run.expected.0@;
                let same = digest::sha256_digest(archive.rows@.encoded()) == digest::sha256_digest(
                    retired.rows@.encoded(),
                );
                &&& action is Report <==> expected && same
                &&& action is Refuse <==> !(expected && same)
                &&& expected && !same ==> action == ArchiveAction::Refuse(
                    LedgerMaintenanceError::PartialArchive(PartialArchive::RetiredDiffers),
                )
                &&& action matches ArchiveAction::Report(report) ==> {
                    &&& report.ledger_id@ == hex::hex(run.expected.0@)
                    &&& report.archive_path@ == run.archive_path@
                    &&& report.retired_path@ == run.retired_path@
                    &&& report.sha256@ == hex::hex(sha256@)
                }
                &&& final(run).stage is Finished
            },
{
}

/// A partial archive stands beside the archive, under a name that sixteen digits end.
pub proof fn law_partial_archive_stands_beside_the_archive(
    archive: &str,
    r: Result<String, LedgerMaintenanceError>,
)
    requires
        call_ensures(unique_partial_path, (archive,), r),
    ensures
        r matches Ok(path) ==> {
            let before = archive@ + ".partial-"@;
            &&& path@.len() == before.len() + 16
            &&& path@.take(before.len() as int) == before
        },
        r matches Err(error) ==> error is Random,
{
    if let Ok(path) = r {
        let before = archive@ + ".partial-"@;
        assert(path@.take(before.len() as int) =~= before);
    }
}

} // verus!
