//! What the errors of the library say.

use vstd::prelude::*;

use crate::camera::{ImageType, RoiError, SelectCameraError};
use crate::capture::{AttemptPart, CaptureFault, PublishFault};
use crate::hex;
use crate::http::BearerTokenError;
use crate::ledger_maintenance::{
    LedgerLeaseError, LedgerMaintenanceError, LedgerPathKind, PartialArchive,
};
use crate::preview::{PreviewEncodeError, PreviewError};
use crate::quote;
use crate::quote::quoted;
use crate::still::StillError;
use crate::text;
use crate::text::{push_decimal, push_signed};
use crate::upload::UploadError;
use crate::upload_record::UploadStoreError;
use crate::video::EncodeError;

verus! {

broadcast use vstd::string::group_string_axioms;

impl UploadStoreError {
    /// What the error says; the reason behind a failed operation stands apart.
    pub open spec fn text(self) -> Seq<char> {
        match self {
            UploadStoreError::MissingSchema => "the existing upload ledger has no recognized schema"@,
            UploadStoreError::UnsupportedSchema { found, supported } => "unsupported upload-ledger schema version "@ + text::signed(found as int) + "; this build supports version "@ + text::signed(supported as int),
            UploadStoreError::InvalidSchema => "the existing upload ledger schema does not match this build"@,
            UploadStoreError::CaptureRootMismatch => "the upload ledger belongs to a different capture directory"@,
            UploadStoreError::InvalidDestination => "upload destination must be a non-empty normalized string"@,
            UploadStoreError::DestinationMismatch => "the upload ledger belongs to a different upload destination"@,
            UploadStoreError::AuthorizationIdentityMismatch => "the upload ledger belongs to a different upload authorization identity"@,
            UploadStoreError::Configuration { name, actual } => "SQLite did not enable the requested "@ + name@ + " setting (reported "@ + quote::quoted_text(actual@) + ")"@,
            UploadStoreError::ArtifactPathNotAbsolute(path) => "artifact path must be absolute: "@ + quote::quoted_text(path@),
            UploadStoreError::ArtifactPathNotUtf8(path) => "artifact path must be valid UTF-8: "@ + quote::quoted_text(path@),
            UploadStoreError::ArtifactOutsideCaptureRoot(path) => "artifact path must be a direct child of the configured capture directory: "@ + quote::quoted_text(path@),
            UploadStoreError::ArtifactIsSymlink(path) => "artifact path must not be a symbolic link: "@ + quote::quoted_text(path@),
            UploadStoreError::ArtifactNotRegularFile(path) => "artifact path must name a regular file: "@ + quote::quoted_text(path@),
            UploadStoreError::InvalidArtifactFilename(path) => "artifact filename does not match AutoPierCam's generated JPEG grammar: "@ + quote::quoted_text(path@),
            UploadStoreError::CaptureDirectoryNotAbsolute(path) => "capture directory must be absolute: "@ + quote::quoted_text(path@),
            UploadStoreError::CaptureDirectoryNotUtf8(path) => "capture directory must be valid UTF-8: "@ + quote::quoted_text(path@),
            UploadStoreError::TimestampOutOfRange(value) => "Unix timestamp "@ + text::decimal(value as nat) + "ms cannot be represented by SQLite"@,
            UploadStoreError::ArtifactSizeOutOfRange(value) => "artifact size "@ + text::decimal(value as nat) + " cannot be represented by SQLite"@,
            UploadStoreError::CorruptInteger { column, value } => "upload ledger contains an invalid "@ + column@ + " integer: "@ + text::signed(value as int),
            UploadStoreError::CorruptState(state) => "upload ledger contains an unknown upload state: "@ + quote::quoted_text(state@),
            UploadStoreError::CorruptArtifactIdentity(id) => "upload job "@ + text::signed(id.0 as int) + " has inconsistent identity metadata"@,
            UploadStoreError::InvalidTransition(id) => "upload job "@ + text::signed(id.0 as int) + " is not in progress or its attempt is stale"@,
            UploadStoreError::AttemptCountOverflow(id) => "upload job "@ + text::signed(id.0 as int) + " has exhausted SQLite's attempt counter"@,
            UploadStoreError::ReconcileCountOverflow => "upload reconciliation counter overflowed"@,
            UploadStoreError::Io { operation, path, .. } => "could not "@ + operation@ + " "@ + quote::quoted_text(path@),
            UploadStoreError::ConstraintViolation => "SQLite upload-ledger operation failed"@,
        }
    }

    pub fn message(&self) -> (r: String)
        ensures
            r@ == self.text(),
    {
        match self {
            UploadStoreError::MissingSchema => "the existing upload ledger has no recognized schema".to_owned(),
            UploadStoreError::UnsupportedSchema { found, supported } => {
                let mut out = "unsupported upload-ledger schema version ".to_owned();
                push_signed(&mut out, *found);
                out.append("; this build supports version ");
                push_signed(&mut out, *supported);
                out
            },
            UploadStoreError::InvalidSchema => "the existing upload ledger schema does not match this build".to_owned(),
            UploadStoreError::CaptureRootMismatch => "the upload ledger belongs to a different capture directory".to_owned(),
            UploadStoreError::InvalidDestination => "upload destination must be a non-empty normalized string".to_owned(),
            UploadStoreError::DestinationMismatch => "the upload ledger belongs to a different upload destination".to_owned(),
            UploadStoreError::AuthorizationIdentityMismatch => "the upload ledger belongs to a different upload authorization identity".to_owned(),
            UploadStoreError::Configuration { name, actual } => {
                let mut out = "SQLite did not enable the requested ".to_owned();
                out.append(name);
                out.append(" setting (reported ");
                out.append(quoted(actual.as_str()).as_str());
                out.append(")");
                out
            },
            UploadStoreError::ArtifactPathNotAbsolute(path) => {
                let mut out = "artifact path must be absolute: ".to_owned();
                out.append(quoted(path.as_str()).as_str());
                out
            },
            UploadStoreError::ArtifactPathNotUtf8(path) => {
                let mut out = "artifact path must be valid UTF-8: ".to_owned();
                out.append(quoted(path.as_str()).as_str());
                out
            },
            UploadStoreError::ArtifactOutsideCaptureRoot(path) => {
                let mut out = "artifact path must be a direct child of the configured capture directory: ".to_owned();
                out.append(quoted(path.as_str()).as_str());
                out
            },
            UploadStoreError::ArtifactIsSymlink(path) => {
                let mut out = "artifact path must not be a symbolic link: ".to_owned();
                out.append(quoted(path.as_str()).as_str());
                out
            },
            UploadStoreError::ArtifactNotRegularFile(path) => {
                let mut out = "artifact path must name a regular file: ".to_owned();
                out.append(quoted(path.as_str()).as_str());
                out
            },
            UploadStoreError::InvalidArtifactFilename(path) => {
                let mut out = "artifact filename does not match AutoPierCam's generated JPEG grammar: ".to_owned();
                out.append(quoted(path.as_str()).as_str());
                out
            },
            UploadStoreError::CaptureDirectoryNotAbsolute(path) => {
                let mut out = "capture directory must be absolute: ".to_owned();
                out.append(quoted(path.as_str()).as_str());
                out
            },
            UploadStoreError::CaptureDirectoryNotUtf8(path) => {
                let mut out = "capture directory must be valid UTF-8: ".to_owned();
                out.append(quoted(path.as_str()).as_str());
                out
            },
            UploadStoreError::TimestampOutOfRange(value) => {
                let mut out = "Unix timestamp ".to_owned();
                push_decimal(&mut out, *value as u64);
                out.append("ms cannot be represented by SQLite");
                out
            },
            UploadStoreError::ArtifactSizeOutOfRange(value) => {
                let mut out = "artifact size ".to_owned();
                push_decimal(&mut out, *value as u64);
                out.append(" cannot be represented by SQLite");
                out
            },
            UploadStoreError::CorruptInteger { column, value } => {
                let mut out = "upload ledger contains an invalid ".to_owned();
                out.append(column);
                out.append(" integer: ");
                push_signed(&mut out, *value);
                out
            },
            UploadStoreError::CorruptState(state) => {
                let mut out = "upload ledger contains an unknown upload state: ".to_owned();
                out.append(quoted(state.as_str()).as_str());
                out
            },
            UploadStoreError::CorruptArtifactIdentity(id) => {
                let mut out = "upload job ".to_owned();
                push_signed(&mut out, id.0);
                out.append(" has inconsistent identity metadata");
                out
            },
            UploadStoreError::InvalidTransition(id) => {
                let mut out = "upload job ".to_owned();
                push_signed(&mut out, id.0);
                out.append(" is not in progress or its attempt is stale");
                out
            },
            UploadStoreError::AttemptCountOverflow(id) => {
                let mut out = "upload job ".to_owned();
                push_signed(&mut out, id.0);
                out.append(" has exhausted SQLite's attempt counter");
                out
            },
            UploadStoreError::ReconcileCountOverflow => "upload reconciliation counter overflowed".to_owned(),
            UploadStoreError::Io { operation, path, .. } => {
                let mut out = "could not ".to_owned();
                out.append(operation);
                out.append(" ");
                out.append(quoted(path.as_str()).as_str());
                out
            },
            UploadStoreError::ConstraintViolation => "SQLite upload-ledger operation failed".to_owned(),
        }
    }
}

impl UploadError {
    /// What the error says.
    pub open spec fn text(self) -> Seq<char> {
        match self {
            UploadError::Store(error) => error.text(),
            UploadError::InvalidWakeCapacity => "upload wake capacity must be greater than zero"@,
            UploadError::ClockBeforeUnixEpoch => "the system clock is before the Unix epoch"@,
            UploadError::ClockOutOfRange => "the system clock cannot be represented in milliseconds"@,
        }
    }

    pub fn message(&self) -> (r: String)
        ensures
            r@ == self.text(),
    {
        match self {
            UploadError::Store(error) => {
                let mut out = String::new();
                out.append(error.message().as_str());
                out
            },
            UploadError::InvalidWakeCapacity => "upload wake capacity must be greater than zero".to_owned(),
            UploadError::ClockBeforeUnixEpoch => "the system clock is before the Unix epoch".to_owned(),
            UploadError::ClockOutOfRange => "the system clock cannot be represented in milliseconds".to_owned(),
        }
    }
}

impl LedgerLeaseError {
    /// What the error says.
    pub open spec fn text(self) -> Seq<char> {
        match self {
            LedgerLeaseError::MaintenanceActive { database } => "upload-ledger offline maintenance is already active for "@ + quote::quoted_text(database@),
            LedgerLeaseError::AgentActive => "the upload ledger is active; stop autopiercam before offline maintenance"@,
            LedgerLeaseError::Lock { path } => "could not lock upload-ledger maintenance marker "@ + quote::quoted_text(path@),
        }
    }

    pub fn message(&self) -> (r: String)
        ensures
            r@ == self.text(),
    {
        match self {
            LedgerLeaseError::MaintenanceActive { database } => {
                let mut out = "upload-ledger offline maintenance is already active for ".to_owned();
                out.append(quoted(database.as_str()).as_str());
                out
            },
            LedgerLeaseError::AgentActive => "the upload ledger is active; stop autopiercam before offline maintenance".to_owned(),
            LedgerLeaseError::Lock { path } => {
                let mut out = "could not lock upload-ledger maintenance marker ".to_owned();
                out.append(quoted(path.as_str()).as_str());
                out
            },
        }
    }
}

impl LedgerPathKind {
    /// What the path is called.
    pub open spec fn text(self) -> Seq<char> {
        match self {
            LedgerPathKind::ActiveLedger => "active upload ledger"@,
            LedgerPathKind::Archive => "upload-ledger archive"@,
            LedgerPathKind::RetiredLedger => "retired upload ledger"@,
            LedgerPathKind::GeneratedCapture => "generated capture"@,
        }
    }

    pub fn message(&self) -> (r: String)
        ensures
            r@ == self.text(),
    {
        match self {
            LedgerPathKind::ActiveLedger => "active upload ledger".to_owned(),
            LedgerPathKind::Archive => "upload-ledger archive".to_owned(),
            LedgerPathKind::RetiredLedger => "retired upload ledger".to_owned(),
            LedgerPathKind::GeneratedCapture => "generated capture".to_owned(),
        }
    }
}

impl PartialArchive {
    /// What was found.
    pub open spec fn text(self) -> Seq<char> {
        match self {
            PartialArchive::ActiveBesideCompleted => "archive and retired ledger are complete, but an active database also exists; inspect its ledger ID before removing or starting another archive"@,
            PartialArchive::RetiredWithoutArchive => "a retired ledger exists without its verified archive; restore or inspect the retired file before retrying"@,
            PartialArchive::ArchiveAlone => "a verified-archive candidate exists, but both active and retired ledgers are absent"@,
            PartialArchive::ActiveAbsent => "the active upload ledger is absent"@,
            PartialArchive::ArtifactMissing => "ledger artifact is missing"@,
            PartialArchive::RetiredDiffers => "archive and retired ledger have different logical contents"@,
            PartialArchive::BackupDiffers => "SQLite backup contents did not match the active ledger"@,
        }
    }

    pub fn message(&self) -> (r: String)
        ensures
            r@ == self.text(),
    {
        match self {
            PartialArchive::ActiveBesideCompleted => "archive and retired ledger are complete, but an active database also exists; inspect its ledger ID before removing or starting another archive".to_owned(),
            PartialArchive::RetiredWithoutArchive => "a retired ledger exists without its verified archive; restore or inspect the retired file before retrying".to_owned(),
            PartialArchive::ArchiveAlone => "a verified-archive candidate exists, but both active and retired ledgers are absent".to_owned(),
            PartialArchive::ActiveAbsent => "the active upload ledger is absent".to_owned(),
            PartialArchive::ArtifactMissing => "ledger artifact is missing".to_owned(),
            PartialArchive::RetiredDiffers => "archive and retired ledger have different logical contents".to_owned(),
            PartialArchive::BackupDiffers => "SQLite backup contents did not match the active ledger".to_owned(),
        }
    }
}

impl LedgerMaintenanceError {
    /// What the error says.
    pub open spec fn text(self) -> Seq<char> {
        match self {
            LedgerMaintenanceError::Lease(error) => "upload-ledger maintenance lease failed: "@ + error.text(),
            LedgerMaintenanceError::Random(_) => "could not draw random bytes"@,
            LedgerMaintenanceError::Store(error) => "upload-ledger verification failed: "@ + error.text(),
            LedgerMaintenanceError::UnsupportedSchema { found } => "unsupported upload-ledger schema version "@ + text::signed(found as int) + "; maintenance supports only v3 -> v4 and exact v4"@,
            LedgerMaintenanceError::InvalidV3Schema => "the v3 upload ledger does not match the exact released schema"@,
            LedgerMaintenanceError::Integrity(detail) => "the upload ledger failed SQLite integrity verification: "@ + detail@,
            LedgerMaintenanceError::CaptureRootMismatch => "the configured capture directory does not match the ledger"@,
            LedgerMaintenanceError::InvalidExpectedLedgerId => "expected ledger ID must be exactly 32 lowercase hexadecimal characters"@,
            LedgerMaintenanceError::LedgerIdMismatch { expected, actual } => "expected ledger ID "@ + hex::hex(expected.0@) + " does not match active ledger "@ + hex::hex(actual.0@),
            LedgerMaintenanceError::LiveWork { count } => "archive refused: "@ + text::decimal(count as nat) + " nonterminal upload job(s) remain"@,
            LedgerMaintenanceError::PermanentFailures { count } => "archive refused: "@ + text::decimal(count as nat) + " permanently failed upload job(s) require operator action"@,
            LedgerMaintenanceError::CrashGap { path } => "archive refused: generated capture "@ + quote::quoted_text(path@) + " has no durable upload job"@,
            LedgerMaintenanceError::UnsafePath { kind, path } => "refusing unsafe "@ + kind.text() + " path (symlink, reparse point, or non-regular file): "@ + quote::quoted_text(path@),
            LedgerMaintenanceError::PartialArchive(detail) => "incomplete prior archive has inconsistent artifacts: "@ + detail.text(),
            LedgerMaintenanceError::ActiveChangedAfterArchive => "a verified prior archive exists, but the active ledger changed after it was published"@,
            LedgerMaintenanceError::CheckpointBusy => "SQLite could not fully checkpoint the upload ledger before archive"@,
            LedgerMaintenanceError::JournalMode(mode) => "SQLite did not leave DELETE journal mode before archive (reported "@ + quote::quoted_text(mode@) + ")"@,
            LedgerMaintenanceError::SidecarPresent(path) => "unexpected SQLite sidecar remains after checkpoint: "@ + quote::quoted_text(path@),
        }
    }

    pub fn message(&self) -> (r: String)
        ensures
            r@ == self.text(),
    {
        match self {
            LedgerMaintenanceError::Lease(error) => {
                let mut out = "upload-ledger maintenance lease failed: ".to_owned();
                out.append(error.message().as_str());
                out
            },
            LedgerMaintenanceError::Random(_) => "could not draw random bytes".to_owned(),
            LedgerMaintenanceError::Store(error) => {
                let mut out = "upload-ledger verification failed: ".to_owned();
                out.append(error.message().as_str());
                out
            },
            LedgerMaintenanceError::UnsupportedSchema { found } => {
                let mut out = "unsupported upload-ledger schema version ".to_owned();
                push_signed(&mut out, *found);
                out.append("; maintenance supports only v3 -> v4 and exact v4");
                out
            },
            LedgerMaintenanceError::InvalidV3Schema => "the v3 upload ledger does not match the exact released schema".to_owned(),
            LedgerMaintenanceError::Integrity(detail) => {
                let mut out = "the upload ledger failed SQLite integrity verification: ".to_owned();
                out.append(detail.as_str());
                out
            },
            LedgerMaintenanceError::CaptureRootMismatch => "the configured capture directory does not match the ledger".to_owned(),
            LedgerMaintenanceError::InvalidExpectedLedgerId => "expected ledger ID must be exactly 32 lowercase hexadecimal characters".to_owned(),
            LedgerMaintenanceError::LedgerIdMismatch { expected, actual } => {
                let mut out = "expected ledger ID ".to_owned();
                out.append(expected.as_hex().as_str());
                out.append(" does not match active ledger ");
                out.append(actual.as_hex().as_str());
                out
            },
            LedgerMaintenanceError::LiveWork { count } => {
                let mut out = "archive refused: ".to_owned();
                push_decimal(&mut out, *count as u64);
                out.append(" nonterminal upload job(s) remain");
                out
            },
            LedgerMaintenanceError::PermanentFailures { count } => {
                let mut out = "archive refused: ".to_owned();
                push_decimal(&mut out, *count as u64);
                out.append(" permanently failed upload job(s) require operator action");
                out
            },
            LedgerMaintenanceError::CrashGap { path } => {
                let mut out = "archive refused: generated capture ".to_owned();
                out.append(quoted(path.as_str()).as_str());
                out.append(" has no durable upload job");
                out
            },
            LedgerMaintenanceError::UnsafePath { kind, path } => {
                let mut out = "refusing unsafe ".to_owned();
                out.append(kind.message().as_str());
                out.append(" path (symlink, reparse point, or non-regular file): ");
                out.append(quoted(path.as_str()).as_str());
                out
            },
            LedgerMaintenanceError::PartialArchive(detail) => {
                let mut out = "incomplete prior archive has inconsistent artifacts: ".to_owned();
                out.append(detail.message().as_str());
                out
            },
            LedgerMaintenanceError::ActiveChangedAfterArchive => "a verified prior archive exists, but the active ledger changed after it was published".to_owned(),
            LedgerMaintenanceError::CheckpointBusy => "SQLite could not fully checkpoint the upload ledger before archive".to_owned(),
            LedgerMaintenanceError::JournalMode(mode) => {
                let mut out = "SQLite did not leave DELETE journal mode before archive (reported ".to_owned();
                out.append(quoted(mode.as_str()).as_str());
                out.append(")");
                out
            },
            LedgerMaintenanceError::SidecarPresent(path) => {
                let mut out = "unexpected SQLite sidecar remains after checkpoint: ".to_owned();
                out.append(quoted(path.as_str()).as_str());
                out
            },
        }
    }
}

impl SelectCameraError {
    /// What the error says.
    pub open spec fn text(self) -> Seq<char> {
        match self {
            SelectCameraError::NotConnected(id) => "camera id "@ + text::signed(id as int) + " is not connected"@,
            SelectCameraError::NoneConnected => "no ZWO ASI camera is connected"@,
            SelectCameraError::Ambiguous(count) => text::decimal(count as nat) + " cameras are connected; select one with --camera-id"@,
            SelectCameraError::NoMatch => "no connected camera matches the configuration"@,
            SelectCameraError::SeveralMatches => "more than one connected camera matches the configuration"@,
        }
    }

    pub fn message(&self) -> (r: String)
        ensures
            r@ == self.text(),
    {
        match self {
            SelectCameraError::NotConnected(id) => {
                let mut out = "camera id ".to_owned();
                push_signed(&mut out, *id as i64);
                out.append(" is not connected");
                out
            },
            SelectCameraError::NoneConnected => "no ZWO ASI camera is connected".to_owned(),
            SelectCameraError::Ambiguous(count) => {
                let mut out = String::new();
                push_decimal(&mut out, *count as u64);
                out.append(" cameras are connected; select one with --camera-id");
                out
            },
            SelectCameraError::NoMatch => "no connected camera matches the configuration".to_owned(),
            SelectCameraError::SeveralMatches => "more than one connected camera matches the configuration".to_owned(),
        }
    }
}

impl BearerTokenError {
    /// What the error says of the environment variable that held the token.
    pub open spec fn text(self, variable: Seq<char>) -> Seq<char> {
        match self {
            BearerTokenError::EmptyOrPadded => "upload bearer-token environment variable "@ + variable + " is empty or has surrounding whitespace"@,
            BearerTokenError::Unrepresentable => "upload bearer-token environment variable "@ + variable + " cannot be represented safely in an HTTP header"@,
        }
    }

    pub fn message(&self, variable: &str) -> (r: String)
        ensures
            r@ == self.text(variable@),
    {
        match self {
            BearerTokenError::EmptyOrPadded => {
                let mut out = "upload bearer-token environment variable ".to_owned();
                out.append(variable);
                out.append(" is empty or has surrounding whitespace");
                out
            },
            BearerTokenError::Unrepresentable => {
                let mut out = "upload bearer-token environment variable ".to_owned();
                out.append(variable);
                out.append(" cannot be represented safely in an HTTP header");
                out
            },
        }
    }
}

impl CaptureFault {
    /// What the fault says; of a failed read, what the camera said.
    pub open spec fn text(self, camera: Seq<char>) -> Seq<char> {
        match self {
            CaptureFault::VideoStopped => "video worker stopped unexpectedly"@,
            CaptureFault::UploadStopped => "durable upload worker stopped unexpectedly"@,
            CaptureFault::RetentionStopped => "capture retention worker stopped unexpectedly"@,
            CaptureFault::Deadline(millis) =>
                "camera produced no frame within its exposure deadline ("@ + text::decimal(
                    millis as nat,
                ) + " ms)"@,
            CaptureFault::Camera => camera,
            CaptureFault::WriterStopped => "still writer stopped unexpectedly"@,
        }
    }

    pub fn message(&self, camera: &str) -> (r: String)
        ensures
            r@ == self.text(camera@),
    {
        match self {
            CaptureFault::VideoStopped => "video worker stopped unexpectedly".to_owned(),
            CaptureFault::UploadStopped => "durable upload worker stopped unexpectedly".to_owned(),
            CaptureFault::RetentionStopped =>
                "capture retention worker stopped unexpectedly".to_owned(),
            CaptureFault::Deadline(millis) => {
                let mut out =
                    "camera produced no frame within its exposure deadline (".to_owned();
                push_decimal(&mut out, *millis);
                out.append(" ms)");
                out
            },
            CaptureFault::Camera => camera.to_owned(),
            CaptureFault::WriterStopped => "still writer stopped unexpectedly".to_owned(),
        }
    }
}

impl AttemptPart {
    /// What an attempt was doing in a part, where a failure of it says so.
    pub open spec fn doing(self) -> Option<Seq<char>> {
        match self {
            AttemptPart::Video => Some("recording video"@),
            AttemptPart::Retention => Some("stopping capture retention worker"@),
            AttemptPart::Upload => Some("stopping HTTP upload worker"@),
            AttemptPart::Capture | AttemptPart::Writer | AttemptPart::Preview => None,
        }
    }

    pub fn context(&self) -> (r: Option<&'static str>)
        ensures
            match r {
                Some(text) => self.doing() == Some(text@),
                None => self.doing() is None,
            },
    {
        match self {
            AttemptPart::Video => Some("recording video"),
            AttemptPart::Retention => Some("stopping capture retention worker"),
            AttemptPart::Upload => Some("stopping HTTP upload worker"),
            AttemptPart::Capture | AttemptPart::Writer | AttemptPart::Preview => None,
        }
    }
}

impl PublishFault {
    /// What the fault says of a still.
    pub open spec fn still_text(self, path: Seq<char>) -> Seq<char> {
        match self {
            PublishFault::UploadStopped => "upload worker stopped after recording "@ + path
                + " durably"@,
            PublishFault::RetentionStopped =>
                "capture retention worker stopped after finalizing "@ + path,
        }
    }

    /// What the fault says of a recording.
    pub open spec fn video_text(self) -> Seq<char> {
        match self {
            PublishFault::UploadStopped => "upload worker stopped after recording video"@,
            PublishFault::RetentionStopped => "retention worker stopped after saving video"@,
        }
    }

    pub fn still_message(&self, path: &str) -> (r: String)
        ensures
            r@ == self.still_text(path@),
    {
        match self {
            PublishFault::UploadStopped => {
                let mut out = "upload worker stopped after recording ".to_owned();
                out.append(path);
                out.append(" durably");
                out
            },
            PublishFault::RetentionStopped => {
                let mut out = "capture retention worker stopped after finalizing ".to_owned();
                out.append(path);
                out
            },
        }
    }

    pub fn video_message(&self) -> (r: String)
        ensures
            r@ == self.video_text(),
    {
        match self {
            PublishFault::UploadStopped => "upload worker stopped after recording video".to_owned(),
            PublishFault::RetentionStopped =>
                "retention worker stopped after saving video".to_owned(),
        }
    }
}

impl EncodeError {
    /// What the error says: of a failed encoder what it wrote, of an encoder that
    /// could not be waited for what stopped that.
    pub open spec fn text(self, detail: Seq<char>) -> Seq<char> {
        match self {
            EncodeError::EmptySegment => "cannot encode an empty segment"@,
            EncodeError::DeadlineExceeded =>
                "FFmpeg exceeded the 20-second segment encoding deadline"@,
            EncodeError::StatusUnavailable => detail,
            EncodeError::EncodingFailed => "FFmpeg encoding failed: "@ + detail,
            EncodeError::EmptyOutput => "FFmpeg produced an empty segment"@,
        }
    }

    pub fn message(&self, detail: &str) -> (r: String)
        ensures
            r@ == self.text(detail@),
    {
        match self {
            EncodeError::EmptySegment => "cannot encode an empty segment".to_owned(),
            EncodeError::DeadlineExceeded =>
                "FFmpeg exceeded the 20-second segment encoding deadline".to_owned(),
            EncodeError::StatusUnavailable => detail.to_owned(),
            EncodeError::EncodingFailed => {
                let mut out = "FFmpeg encoding failed: ".to_owned();
                out.append(detail);
                out
            },
            EncodeError::EmptyOutput => "FFmpeg produced an empty segment".to_owned(),
        }
    }
}

/// The first numbers of a list, with commas between them.
pub open spec fn listed(numbers: Seq<i32>, count: nat) -> Seq<char>
    decreases count,
{
    if count == 0 {
        Seq::empty()
    } else if count == 1 {
        text::signed(numbers[0] as int)
    } else {
        listed(numbers, (count - 1) as nat) + ", "@ + text::signed(numbers[count - 1] as int)
    }
}

fn push_list(out: &mut String, numbers: &Vec<i32>)
    ensures
        final(out)@ == old(out)@ + "["@ + listed(numbers@, numbers@.len()) + "]"@,
{
    out.append("[");
    let mut i: usize = 0;
    let ghost start = out@;
    while i < numbers.len()
        invariant
            i <= numbers.len(),
            start == old(out)@ + "["@,
            out@ == start + listed(numbers@, i as nat),
        decreases numbers.len() - i,
    {
        if i > 0 {
            out.append(", ");
        }
        push_signed(out, numbers[i] as i64);
        assert(listed(numbers@, (i + 1) as nat) == if i == 0 {
            text::signed(numbers@[0] as int)
        } else {
            listed(numbers@, i as nat) + ", "@ + text::signed(numbers@[i as int] as int)
        });
        assert(out@ =~= start + listed(numbers@, (i + 1) as nat));
        i = i + 1;
    }
    out.append("]");
}

/// How a pixel format is called.
pub open spec fn format_text(format: ImageType) -> Seq<char> {
    match format {
        ImageType::Raw8 => "Raw8"@,
        ImageType::Rgb24 => "Rgb24"@,
        ImageType::Raw16 => "Raw16"@,
        ImageType::Y8 => "Y8"@,
    }
}

pub fn format_name(format: ImageType) -> (r: &'static str)
    ensures
        r@ == format_text(format),
{
    match format {
        ImageType::Raw8 => "Raw8",
        ImageType::Rgb24 => "Rgb24",
        ImageType::Raw16 => "Raw16",
        ImageType::Y8 => "Y8",
    }
}

impl RoiError {
    /// What the error says of a camera, the configured bin and the bins that the
    /// camera supports.
    pub open spec fn text(self, name: Seq<char>, bin: i32, bins: Seq<i32>) -> Seq<char> {
        match self {
            RoiError::NotColor => name
                + " is not a color camera; AutoPierCam requires a color ASI camera"@,
            RoiError::UnsupportedBin => "camera "@ + name + " does not support bin "@
                + text::signed(bin as int) + "; supported bins are "@ + "["@ + listed(
                bins,
                bins.len(),
            ) + "]"@,
            RoiError::UnsupportedFormat(format) => "camera "@ + name + " does not support "@
                + format_text(format) + " video"@,
            RoiError::BinNotPositive => "camera bin must be positive"@,
        }
    }

    pub fn message(&self, name: &str, bin: i32, bins: &Vec<i32>) -> (r: String)
        ensures
            r@ == self.text(name@, bin, bins@),
    {
        match self {
            RoiError::NotColor => {
                let mut out = name.to_owned();
                out.append(" is not a color camera; AutoPierCam requires a color ASI camera");
                out
            },
            RoiError::UnsupportedBin => {
                let mut out = "camera ".to_owned();
                out.append(name);
                out.append(" does not support bin ");
                push_signed(&mut out, bin as i64);
                out.append("; supported bins are ");
                push_list(&mut out, bins);
                out
            },
            RoiError::UnsupportedFormat(format) => {
                let mut out = "camera ".to_owned();
                out.append(name);
                out.append(" does not support ");
                out.append(format_name(*format));
                out.append(" video");
                out
            },
            RoiError::BinNotPositive => "camera bin must be positive".to_owned(),
        }
    }
}

impl PreviewError {
    /// What the error says, given the greatest length of a preview.
    pub open spec fn text(self, maximum: usize) -> Seq<char> {
        match self {
            PreviewError::Length(length) => "preview JPEG length "@ + text::decimal(length as nat)
                + " is outside the supported 1..="@ + text::decimal(maximum as nat)
                + " byte range"@,
        }
    }

    pub fn message(&self, maximum: usize) -> (r: String)
        ensures
            r@ == self.text(maximum),
    {
        match self {
            PreviewError::Length(length) => {
                let mut out = "preview JPEG length ".to_owned();
                push_decimal(&mut out, *length as u64);
                out.append(" is outside the supported 1..=");
                push_decimal(&mut out, maximum as u64);
                out.append(" byte range");
                out
            },
        }
    }
}

impl PreviewEncodeError {
    /// What the error says, given the greatest length of a preview; the reason of
    /// the encoder stands apart.
    pub open spec fn text(self, maximum: usize) -> Seq<char> {
        match self {
            PreviewEncodeError::Jpeg(_) => "encoding preview JPEG"@,
            PreviewEncodeError::TooLarge(length) => "encoded preview is "@ + text::decimal(
                length as nat,
            ) + " bytes; maximum is "@ + text::decimal(maximum as nat),
        }
    }

    pub fn message(&self, maximum: usize) -> (r: String)
        ensures
            r@ == self.text(maximum),
    {
        match self {
            PreviewEncodeError::Jpeg(_) => "encoding preview JPEG".to_owned(),
            PreviewEncodeError::TooLarge(length) => {
                let mut out = "encoded preview is ".to_owned();
                push_decimal(&mut out, *length as u64);
                out.append(" bytes; maximum is ");
                push_decimal(&mut out, maximum as u64);
                out
            },
        }
    }
}

impl StillError {
    /// What the error says; the reason of an encoder stands apart.
    pub open spec fn text(self) -> Seq<char> {
        match self {
            StillError::Extension => "output extension must be .jpg, .jpeg, or .png"@,
            StillError::DeepJpeg | StillError::Jpeg(_) => "encoding JPEG"@,
            StillError::Png(_) => "encoding PNG"@,
        }
    }

    pub fn message(&self) -> (r: String)
        ensures
            r@ == self.text(),
    {
        match self {
            StillError::Extension => "output extension must be .jpg, .jpeg, or .png".to_owned(),
            StillError::DeepJpeg | StillError::Jpeg(_) => "encoding JPEG".to_owned(),
            StillError::Png(_) => "encoding PNG".to_owned(),
        }
    }
}

/// Each refusal of the ledger says what was refused, and of what.
pub proof fn law_refusal_of_the_ledger_says_why(
    error: &UploadStoreError,
    r: String,
)
    requires
        call_ensures(UploadStoreError::message, (error,), r),
    ensures
        *error matches UploadStoreError::MissingSchema ==> r@ == "the existing upload ledger has no recognized schema"@,
        *error matches UploadStoreError::UnsupportedSchema { found, supported } ==> r@ == "unsupported upload-ledger schema version "@ + text::signed(found as int) + "; this build supports version "@ + text::signed(supported as int),
        *error matches UploadStoreError::InvalidSchema ==> r@ == "the existing upload ledger schema does not match this build"@,
        *error matches UploadStoreError::CaptureRootMismatch ==> r@ == "the upload ledger belongs to a different capture directory"@,
        *error matches UploadStoreError::InvalidDestination ==> r@ == "upload destination must be a non-empty normalized string"@,
        *error matches UploadStoreError::DestinationMismatch ==> r@ == "the upload ledger belongs to a different upload destination"@,
        *error matches UploadStoreError::AuthorizationIdentityMismatch ==> r@ == "the upload ledger belongs to a different upload authorization identity"@,
        *error matches UploadStoreError::Configuration { name, actual } ==> r@ == "SQLite did not enable the requested "@ + name@ + " setting (reported "@ + quote::quoted_text(actual@) + ")"@,
        *error matches UploadStoreError::ArtifactPathNotAbsolute(path) ==> r@ == "artifact path must be absolute: "@ + quote::quoted_text(path@),
        *error matches UploadStoreError::ArtifactPathNotUtf8(path) ==> r@ == "artifact path must be valid UTF-8: "@ + quote::quoted_text(path@),
        *error matches UploadStoreError::ArtifactOutsideCaptureRoot(path) ==> r@ == "artifact path must be a direct child of the configured capture directory: "@ + quote::quoted_text(path@),
        *error matches UploadStoreError::ArtifactIsSymlink(path) ==> r@ == "artifact path must not be a symbolic link: "@ + quote::quoted_text(path@),
        *error matches UploadStoreError::ArtifactNotRegularFile(path) ==> r@ == "artifact path must name a regular file: "@ + quote::quoted_text(path@),
        *error matches UploadStoreError::InvalidArtifactFilename(path) ==> r@ == "artifact filename does not match AutoPierCam's generated JPEG grammar: "@ + quote::quoted_text(path@),
        *error matches UploadStoreError::CaptureDirectoryNotAbsolute(path) ==> r@ == "capture directory must be absolute: "@ + quote::quoted_text(path@),
        *error matches UploadStoreError::CaptureDirectoryNotUtf8(path) ==> r@ == "capture directory must be valid UTF-8: "@ + quote::quoted_text(path@),
        *error matches UploadStoreError::TimestampOutOfRange(value) ==> r@ == "Unix timestamp "@ + text::decimal(value as nat) + "ms cannot be represented by SQLite"@,
        *error matches UploadStoreError::ArtifactSizeOutOfRange(value) ==> r@ == "artifact size "@ + text::decimal(value as nat) + " cannot be represented by SQLite"@,
        *error matches UploadStoreError::CorruptInteger { column, value } ==> r@ == "upload ledger contains an invalid "@ + column@ + " integer: "@ + text::signed(value as int),
        *error matches UploadStoreError::CorruptState(state) ==> r@ == "upload ledger contains an unknown upload state: "@ + quote::quoted_text(state@),
        *error matches UploadStoreError::CorruptArtifactIdentity(id) ==> r@ == "upload job "@ + text::signed(id.0 as int) + " has inconsistent identity metadata"@,
        *error matches UploadStoreError::InvalidTransition(id) ==> r@ == "upload job "@ + text::signed(id.0 as int) + " is not in progress or its attempt is stale"@,
        *error matches UploadStoreError::AttemptCountOverflow(id) ==> r@ == "upload job "@ + text::signed(id.0 as int) + " has exhausted SQLite's attempt counter"@,
        *error matches UploadStoreError::ReconcileCountOverflow ==> r@ == "upload reconciliation counter overflowed"@,
        *error matches UploadStoreError::Io { operation, path, .. } ==> r@ == "could not "@ + operation@ + " "@ + quote::quoted_text(path@),
        *error matches UploadStoreError::ConstraintViolation ==> r@ == "SQLite upload-ledger operation failed"@,
{
}

/// A failure of uploading says what failed, and of the ledger what that says.
pub proof fn law_upload_failure_says_why(
    error: &UploadError,
    r: String,
)
    requires
        call_ensures(UploadError::message, (error,), r),
    ensures
        *error matches UploadError::Store(error) ==> r@ == error.text(),
        *error matches UploadError::InvalidWakeCapacity ==> r@ == "upload wake capacity must be greater than zero"@,
        *error matches UploadError::ClockBeforeUnixEpoch ==> r@ == "the system clock is before the Unix epoch"@,
        *error matches UploadError::ClockOutOfRange ==> r@ == "the system clock cannot be represented in milliseconds"@,
{
}

/// A refused lease says who holds the ledger, or which marker cannot be locked.
pub proof fn law_refused_lease_says_who_holds_it(
    error: &LedgerLeaseError,
    r: String,
)
    requires
        call_ensures(LedgerLeaseError::message, (error,), r),
    ensures
        *error matches LedgerLeaseError::MaintenanceActive { database } ==> r@ == "upload-ledger offline maintenance is already active for "@ + quote::quoted_text(database@),
        *error matches LedgerLeaseError::AgentActive ==> r@ == "the upload ledger is active; stop autopiercam before offline maintenance"@,
        *error matches LedgerLeaseError::Lock { path } ==> r@ == "could not lock upload-ledger maintenance marker "@ + quote::quoted_text(path@),
{
}

/// A path is called by what it is.
pub proof fn law_path_is_called_by_its_kind(
    error: &LedgerPathKind,
    r: String,
)
    requires
        call_ensures(LedgerPathKind::message, (error,), r),
    ensures
        *error matches LedgerPathKind::ActiveLedger ==> r@ == "active upload ledger"@,
        *error matches LedgerPathKind::Archive ==> r@ == "upload-ledger archive"@,
        *error matches LedgerPathKind::RetiredLedger ==> r@ == "retired upload ledger"@,
        *error matches LedgerPathKind::GeneratedCapture ==> r@ == "generated capture"@,
{
}

/// An archive that was left half done says what was found.
pub proof fn law_partial_archive_says_what_was_found(
    error: &PartialArchive,
    r: String,
)
    requires
        call_ensures(PartialArchive::message, (error,), r),
    ensures
        *error matches PartialArchive::ActiveBesideCompleted ==> r@ == "archive and retired ledger are complete, but an active database also exists; inspect its ledger ID before removing or starting another archive"@,
        *error matches PartialArchive::RetiredWithoutArchive ==> r@ == "a retired ledger exists without its verified archive; restore or inspect the retired file before retrying"@,
        *error matches PartialArchive::ArchiveAlone ==> r@ == "a verified-archive candidate exists, but both active and retired ledgers are absent"@,
        *error matches PartialArchive::ActiveAbsent ==> r@ == "the active upload ledger is absent"@,
        *error matches PartialArchive::ArtifactMissing ==> r@ == "ledger artifact is missing"@,
        *error matches PartialArchive::RetiredDiffers ==> r@ == "archive and retired ledger have different logical contents"@,
        *error matches PartialArchive::BackupDiffers ==> r@ == "SQLite backup contents did not match the active ledger"@,
{
}

/// Refused maintenance says why, with the numbers, names and paths it is about.
pub proof fn law_refused_maintenance_says_why(
    error: &LedgerMaintenanceError,
    r: String,
)
    requires
        call_ensures(LedgerMaintenanceError::message, (error,), r),
    ensures
        *error matches LedgerMaintenanceError::Lease(error) ==> r@ == "upload-ledger maintenance lease failed: "@ + error.text(),
        *error matches LedgerMaintenanceError::Random(_) ==> r@ == "could not draw random bytes"@,
        *error matches LedgerMaintenanceError::Store(error) ==> r@ == "upload-ledger verification failed: "@ + error.text(),
        *error matches LedgerMaintenanceError::UnsupportedSchema { found } ==> r@ == "unsupported upload-ledger schema version "@ + text::signed(found as int) + "; maintenance supports only v3 -> v4 and exact v4"@,
        *error matches LedgerMaintenanceError::InvalidV3Schema ==> r@ == "the v3 upload ledger does not match the exact released schema"@,
        *error matches LedgerMaintenanceError::Integrity(detail) ==> r@ == "the upload ledger failed SQLite integrity verification: "@ + detail@,
        *error matches LedgerMaintenanceError::CaptureRootMismatch ==> r@ == "the configured capture directory does not match the ledger"@,
        *error matches LedgerMaintenanceError::InvalidExpectedLedgerId ==> r@ == "expected ledger ID must be exactly 32 lowercase hexadecimal characters"@,
        *error matches LedgerMaintenanceError::LedgerIdMismatch { expected, actual } ==> r@ == "expected ledger ID "@ + hex::hex(expected.0@) + " does not match active ledger "@ + hex::hex(actual.0@),
        *error matches LedgerMaintenanceError::LiveWork { count } ==> r@ == "archive refused: "@ + text::decimal(count as nat) + " nonterminal upload job(s) remain"@,
        *error matches LedgerMaintenanceError::PermanentFailures { count } ==> r@ == "archive refused: "@ + text::decimal(count as nat) + " permanently failed upload job(s) require operator action"@,
        *error matches LedgerMaintenanceError::CrashGap { path } ==> r@ == "archive refused: generated capture "@ + quote::quoted_text(path@) + " has no durable upload job"@,
        *error matches LedgerMaintenanceError::UnsafePath { kind, path } ==> r@ == "refusing unsafe "@ + kind.text() + " path (symlink, reparse point, or non-regular file): "@ + quote::quoted_text(path@),
        *error matches LedgerMaintenanceError::PartialArchive(detail) ==> r@ == "incomplete prior archive has inconsistent artifacts: "@ + detail.text(),
        *error matches LedgerMaintenanceError::ActiveChangedAfterArchive ==> r@ == "a verified prior archive exists, but the active ledger changed after it was published"@,
        *error matches LedgerMaintenanceError::CheckpointBusy ==> r@ == "SQLite could not fully checkpoint the upload ledger before archive"@,
        *error matches LedgerMaintenanceError::JournalMode(mode) ==> r@ == "SQLite did not leave DELETE journal mode before archive (reported "@ + quote::quoted_text(mode@) + ")"@,
        *error matches LedgerMaintenanceError::SidecarPresent(path) ==> r@ == "unexpected SQLite sidecar remains after checkpoint: "@ + quote::quoted_text(path@),
{
}

/// A camera that is not there is named, and several are counted.
pub proof fn law_missing_camera_is_named(
    error: &SelectCameraError,
    r: String,
)
    requires
        call_ensures(SelectCameraError::message, (error,), r),
    ensures
        *error matches SelectCameraError::NotConnected(id) ==> r@ == "camera id "@ + text::signed(id as int) + " is not connected"@,
        *error matches SelectCameraError::NoneConnected ==> r@ == "no ZWO ASI camera is connected"@,
        *error matches SelectCameraError::Ambiguous(count) ==> r@ == text::decimal(count as nat) + " cameras are connected; select one with --camera-id"@,
        *error matches SelectCameraError::NoMatch ==> r@ == "no connected camera matches the configuration"@,
        *error matches SelectCameraError::SeveralMatches ==> r@ == "more than one connected camera matches the configuration"@,
{
}

/// A refused token names the variable that held it.
pub proof fn law_refused_token_names_its_variable(
    error: &BearerTokenError,
    variable: &str,
    r: String,
)
    requires
        call_ensures(BearerTokenError::message, (error, variable), r),
    ensures
        *error matches BearerTokenError::EmptyOrPadded ==> r@ == "upload bearer-token environment variable "@ + variable@ + " is empty or has surrounding whitespace"@,
        *error matches BearerTokenError::Unrepresentable ==> r@ == "upload bearer-token environment variable "@ + variable@ + " cannot be represented safely in an HTTP header"@,
{
}

/// A fault of capture says what stopped, or what the camera said.
pub proof fn law_capture_fault_says_what_stopped(
    error: &CaptureFault,
    camera: &str,
    r: String,
)
    requires
        call_ensures(CaptureFault::message, (error, camera), r),
    ensures
        *error matches CaptureFault::VideoStopped ==> r@ == "video worker stopped unexpectedly"@,
        *error matches CaptureFault::UploadStopped ==> r@ == "durable upload worker stopped unexpectedly"@,
        *error matches CaptureFault::RetentionStopped ==> r@ == "capture retention worker stopped unexpectedly"@,
        *error matches CaptureFault::Deadline(millis) ==> r@ == "camera produced no frame within its exposure deadline ("@ + text::decimal( millis as nat, ) + " ms)"@,
        *error matches CaptureFault::Camera ==> r@ == camera@,
        *error matches CaptureFault::WriterStopped ==> r@ == "still writer stopped unexpectedly"@,
{
}

/// A fault after saving says which worker stopped.
pub proof fn law_publish_fault_says_which_worker_stopped(
    error: &PublishFault,
    path: &str,
    r: String,
    s: String,
)
    requires
        call_ensures(PublishFault::still_message, (error, path), r),
        call_ensures(PublishFault::video_message, (error,), s),
    ensures
        *error matches PublishFault::UploadStopped ==> r@ == "upload worker stopped after recording "@ + path@ + " durably"@,
        *error matches PublishFault::RetentionStopped ==> r@ == "capture retention worker stopped after finalizing "@ + path@,
        *error matches PublishFault::UploadStopped ==> s@ == "upload worker stopped after recording video"@,
        *error matches PublishFault::RetentionStopped ==> s@ == "retention worker stopped after saving video"@,
{
}

/// A failed encoder is quoted.
pub proof fn law_encoder_failure_says_what_it_wrote(
    error: &EncodeError,
    detail: &str,
    r: String,
)
    requires
        call_ensures(EncodeError::message, (error, detail), r),
    ensures
        *error matches EncodeError::EmptySegment ==> r@ == "cannot encode an empty segment"@,
        *error matches EncodeError::DeadlineExceeded ==> r@ == "FFmpeg exceeded the 20-second segment encoding deadline"@,
        *error matches EncodeError::StatusUnavailable ==> r@ == detail@,
        *error matches EncodeError::EncodingFailed ==> r@ == "FFmpeg encoding failed: "@ + detail@,
        *error matches EncodeError::EmptyOutput ==> r@ == "FFmpeg produced an empty segment"@,
{
}

/// A refused region says what the camera lacks.
pub proof fn law_refused_region_says_what_the_camera_lacks(
    error: &RoiError,
    name: &str,
    bin: i32,
    bins: &Vec<i32>,
    r: String,
)
    requires
        call_ensures(RoiError::message, (error, name, bin, bins), r),
    ensures
        *error matches RoiError::NotColor ==> r@ == name@ + " is not a color camera; AutoPierCam requires a color ASI camera"@,
        *error matches RoiError::UnsupportedBin ==> r@ == "camera "@ + name@ + " does not support bin "@ + text::signed(bin as int) + "; supported bins are "@ + "["@ + listed( bins@, bins@.len(), ) + "]"@,
        *error matches RoiError::UnsupportedFormat(format) ==> r@ == "camera "@ + name@ + " does not support "@ + format_text(format) + " video"@,
        *error matches RoiError::BinNotPositive ==> r@ == "camera bin must be positive"@,
{
}

/// A refused preview says how long it is and how long it may be.
pub proof fn law_refused_preview_says_its_length(
    error: &PreviewError,
    maximum: usize,
    r: String,
)
    requires
        call_ensures(PreviewError::message, (error, maximum), r),
    ensures
        *error matches PreviewError::Length(length) ==> r@ == "preview JPEG length "@ + text::decimal(length as nat) + " is outside the supported 1..="@ + text::decimal(maximum as nat) + " byte range"@,
{
}

/// A preview that was not encoded says how long it came out.
pub proof fn law_unencoded_preview_says_its_length(
    error: &PreviewEncodeError,
    maximum: usize,
    r: String,
)
    requires
        call_ensures(PreviewEncodeError::message, (error, maximum), r),
    ensures
        *error matches PreviewEncodeError::Jpeg(_) ==> r@ == "encoding preview JPEG"@,
        *error matches PreviewEncodeError::TooLarge(length) ==> r@ == "encoded preview is "@ + text::decimal( length as nat, ) + " bytes; maximum is "@ + text::decimal(maximum as nat),
{
}

/// A still that was not encoded says which format failed.
pub proof fn law_unencoded_still_says_its_format(
    error: &StillError,
    r: String,
)
    requires
        call_ensures(StillError::message, (error,), r),
    ensures
        *error matches StillError::Extension ==> r@ == "output extension must be .jpg, .jpeg, or .png"@,
        *error matches StillError::DeepJpeg ==> r@ == "encoding JPEG"@,
        *error matches StillError::Jpeg(_) ==> r@ == "encoding JPEG"@,
        *error matches StillError::Png(_) ==> r@ == "encoding PNG"@,
{
}

/// A failed part of an attempt says what it was doing where its error does not.
pub proof fn law_failed_part_says_what_it_was_doing(part: &AttemptPart, r: Option<&'static str>)
    requires
        call_ensures(AttemptPart::context, (part,), r),
    ensures
        *part is Video ==> (r matches Some(text) && text@ == "recording video"@),
        *part is Retention ==> (r matches Some(text) && text@
            == "stopping capture retention worker"@),
        *part is Upload ==> (r matches Some(text) && text@ == "stopping HTTP upload worker"@),
        *part is Capture || *part is Writer || *part is Preview ==> r is None,
{
}

/// A pixel format is called by its own name.
pub proof fn law_format_is_called_by_its_name(format: ImageType, r: &'static str)
    requires
        call_ensures(format_name, (format,), r),
    ensures
        format is Raw8 ==> r@ == "Raw8"@,
        format is Rgb24 ==> r@ == "Rgb24"@,
        format is Raw16 ==> r@ == "Raw16"@,
        format is Y8 ==> r@ == "Y8"@,
{
}

/// One more supported bin is told behind the others.
pub proof fn law_supported_bins_are_listed_in_turn(
    name: &str,
    bin: i32,
    bins: &Vec<i32>,
    more: &Vec<i32>,
    r: String,
    s: String,
)
    requires
        call_ensures(RoiError::message, (&RoiError::UnsupportedBin, name, bin, bins), r),
        call_ensures(RoiError::message, (&RoiError::UnsupportedBin, name, bin, more), s),
        bins@.len() > 0,
        more@.len() == bins@.len() + 1,
        more@.drop_last() == bins@,
    ensures
        s@ == r@.drop_last() + ", "@ + text::signed(more@.last() as int) + "]"@,
        r@.last() == ']',
{
    reveal_strlit("]");
    lemma_listed_alike(bins@, more@, bins@.len());
    assert(r@.drop_last() + "]"@ =~= r@);
    assert(s@ =~= r@.drop_last() + ", "@ + text::signed(more@.last() as int) + "]"@);
}

proof fn lemma_listed_alike(a: Seq<i32>, b: Seq<i32>, count: nat)
    requires
        count <= a.len(),
        b.len() == a.len() + 1,
        b.drop_last() == a,
    ensures
        listed(a, count) == listed(b, count),
    decreases count,
{
    if count > 0 {
        assert(b.drop_last()[count - 1] == b[count - 1]);
        assert(b.drop_last()[0] == b[0]);
        lemma_listed_alike(a, b, (count - 1) as nat);
    }
}

} // verus!
