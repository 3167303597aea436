use autopiercam::camera::{ImageType, RoiError, SelectCameraError};
use autopiercam::capture::{AttemptPart, CaptureFault, PublishFault};
use autopiercam::http::BearerTokenError;
use autopiercam::ledger_maintenance::{
    LedgerLeaseError, LedgerMaintenanceError, LedgerPathKind, PartialArchive, UploadLedgerId,
};
use autopiercam::preview::{PreviewEncodeError, PreviewError};
use autopiercam::still::StillError;
use autopiercam::upload::UploadError;
use autopiercam::upload_record::{UploadJobId, UploadStoreError};
use autopiercam::video::EncodeError;

#[test]
fn store_errors_say_what_went_wrong() {
    let path = || "/captures/a \"b\".jpg".to_owned();
    for (error, text) in [
        (
            UploadStoreError::MissingSchema,
            "the existing upload ledger has no recognized schema",
        ),
        (
            UploadStoreError::UnsupportedSchema {
                found: -7,
                supported: 3,
            },
            "unsupported upload-ledger schema version -7; this build supports version 3",
        ),
        (
            UploadStoreError::Configuration {
                name: "journal_mode=WAL",
                actual: "delete".to_owned(),
            },
            "SQLite did not enable the requested journal_mode=WAL setting (reported \"delete\")",
        ),
        (
            UploadStoreError::ArtifactPathNotAbsolute(path()),
            "artifact path must be absolute: \"/captures/a \\\"b\\\".jpg\"",
        ),
        (
            UploadStoreError::TimestampOutOfRange(u64::MAX),
            "Unix timestamp 18446744073709551615ms cannot be represented by SQLite",
        ),
        (
            UploadStoreError::CorruptInteger {
                column: "file_size",
                value: i64::MIN,
            },
            "upload ledger contains an invalid file_size integer: -9223372036854775808",
        ),
        (
            UploadStoreError::InvalidTransition(UploadJobId(4)),
            "upload job 4 is not in progress or its attempt is stale",
        ),
        (
            UploadStoreError::Io {
                operation: "open finalized artifact",
                path: "/captures/a.jpg".to_owned(),
                source: "denied".to_owned(),
            },
            "could not open finalized artifact \"/captures/a.jpg\"",
        ),
        (
            UploadStoreError::ConstraintViolation,
            "SQLite upload-ledger operation failed",
        ),
    ] {
        assert_eq!(error.message(), text);
        assert_eq!(UploadError::Store(error).message(), text);
    }
    assert_eq!(
        UploadError::InvalidWakeCapacity.message(),
        "upload wake capacity must be greater than zero"
    );
}

#[test]
fn maintenance_errors_say_what_went_wrong() {
    let id = |byte: u8| UploadLedgerId([byte; 16]);
    for (error, text) in [
        (
            LedgerMaintenanceError::Lease(LedgerLeaseError::MaintenanceActive {
                database: "/a.sqlite3".to_owned(),
            }),
            "upload-ledger maintenance lease failed: upload-ledger offline maintenance is already active for \"/a.sqlite3\"",
        ),
        (
            LedgerMaintenanceError::Store(UploadStoreError::InvalidSchema),
            "upload-ledger verification failed: the existing upload ledger schema does not match this build",
        ),
        (
            LedgerMaintenanceError::UnsupportedSchema { found: 9 },
            "unsupported upload-ledger schema version 9; maintenance supports only v3 -> v4 and exact v4",
        ),
        (
            LedgerMaintenanceError::LedgerIdMismatch {
                expected: id(1),
                actual: id(0xab),
            },
            "expected ledger ID 01010101010101010101010101010101 does not match active ledger abababababababababababababababab",
        ),
        (
            LedgerMaintenanceError::LiveWork { count: 2 },
            "archive refused: 2 nonterminal upload job(s) remain",
        ),
        (
            LedgerMaintenanceError::UnsafePath {
                kind: LedgerPathKind::RetiredLedger,
                path: "/r".to_owned(),
            },
            "refusing unsafe retired upload ledger path (symlink, reparse point, or non-regular file): \"/r\"",
        ),
        (
            LedgerMaintenanceError::PartialArchive(PartialArchive::ArtifactMissing),
            "incomplete prior archive has inconsistent artifacts: ledger artifact is missing",
        ),
        (
            LedgerMaintenanceError::JournalMode("wal".to_owned()),
            "SQLite did not leave DELETE journal mode before archive (reported \"wal\")",
        ),
    ] {
        assert_eq!(error.message(), text);
    }
    assert_eq!(
        LedgerLeaseError::Lock {
            path: "/m".to_owned()
        }
        .message(),
        "could not lock upload-ledger maintenance marker \"/m\""
    );
}

#[test]
fn camera_errors_name_the_camera() {
    let bins = vec![1, 2, 4];
    let message = |error: RoiError| error.message("ASI678MC", 3, &bins);
    assert_eq!(
        message(RoiError::UnsupportedBin),
        "camera ASI678MC does not support bin 3; supported bins are [1, 2, 4]"
    );
    assert_eq!(
        RoiError::UnsupportedBin.message("ASI678MC", -1, &vec![]),
        "camera ASI678MC does not support bin -1; supported bins are []"
    );
    assert_eq!(
        message(RoiError::UnsupportedFormat(ImageType::Raw16)),
        "camera ASI678MC does not support Raw16 video"
    );
    assert_eq!(
        message(RoiError::NotColor),
        "ASI678MC is not a color camera; AutoPierCam requires a color ASI camera"
    );
    assert_eq!(
        SelectCameraError::NotConnected(-2).message(),
        "camera id -2 is not connected"
    );
    assert_eq!(
        SelectCameraError::Ambiguous(3).message(),
        "3 cameras are connected; select one with --camera-id"
    );
}

#[test]
fn faults_of_a_run_say_where_they_happened() {
    assert_eq!(
        CaptureFault::Deadline(1_500).message(""),
        "camera produced no frame within its exposure deadline (1500 ms)"
    );
    assert_eq!(CaptureFault::Camera.message("removed"), "removed");
    assert_eq!(AttemptPart::Video.context(), Some("recording video"));
    assert_eq!(AttemptPart::Capture.context(), None);
    assert_eq!(
        PublishFault::UploadStopped.still_message("/c/a.jpg"),
        "upload worker stopped after recording /c/a.jpg durably"
    );
    assert_eq!(
        PublishFault::RetentionStopped.video_message(),
        "retention worker stopped after saving video"
    );
    assert_eq!(
        EncodeError::EncodingFailed.message("no codec"),
        "FFmpeg encoding failed: no codec"
    );
    assert_eq!(EncodeError::StatusUnavailable.message("gone"), "gone");
    assert_eq!(
        BearerTokenError::EmptyOrPadded.message("TOKEN"),
        "upload bearer-token environment variable TOKEN is empty or has surrounding whitespace"
    );
    assert_eq!(
        PreviewError::Length(0).message(262_144),
        "preview JPEG length 0 is outside the supported 1..=262144 byte range"
    );
    assert_eq!(
        PreviewEncodeError::TooLarge(9).message(8),
        "encoded preview is 9 bytes; maximum is 8"
    );
    assert_eq!(StillError::DeepJpeg.message(), "encoding JPEG");
}
