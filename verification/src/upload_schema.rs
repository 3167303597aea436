//! The stored form of the upload ledger: its tables and triggers, and what an
//! existing database must satisfy before it is used.

use vstd::prelude::*;

use crate::text;
use crate::text::{chars_of, push_signed, same_chars, same_text};
use crate::unicode;
use crate::unicode::{check_whitespace, lower_text};
use crate::upload_artifact;
use crate::upload_artifact::ReconcileEntry;
use crate::upload_record::{
    check_timestamp, normalize_destination, UploadAuthorizationFingerprint, UploadStateCounts,
    UploadStoreError,
};
use crate::upload_record;
use crate::upload_store;
use crate::upload_store::UploadStore;

verus! {

broadcast use vstd::string::group_string_axioms;

pub const SCHEMA_VERSION: i64 = 2;

pub const APPLICATION_ID: i64 = 0x4150_4355;

pub const SCHEMA_OBJECTS: usize = 7;

pub const SCHEMA_SIGNATURE: &'static str =
    "autopiercam-upload-ledger-v2-destination-authorization-activation-aggregates-sha256-20260828";

pub const CREATE_METADATA: &'static str = r#"
CREATE TABLE upload_metadata (
    singleton                INTEGER PRIMARY KEY CHECK (singleton = 1),
    schema_signature         TEXT NOT NULL,
    capture_root             TEXT NOT NULL,
    destination              TEXT NOT NULL CHECK (
                                 length(destination) > 0 AND
                                 trim(destination) = destination
                             ),
    authorization_sha256     BLOB NOT NULL CHECK (
                                 length(authorization_sha256) = 32
                             ),
    activation_at_ms         INTEGER NOT NULL CHECK (
                                 typeof(activation_at_ms) = 'integer' AND
                                 activation_at_ms >= 0
                             ),
    pending_count            INTEGER NOT NULL DEFAULT 0 CHECK (
                                 typeof(pending_count) = 'integer' AND
                                 pending_count >= 0
                             ),
    in_progress_count        INTEGER NOT NULL DEFAULT 0 CHECK (
                                 typeof(in_progress_count) = 'integer' AND
                                 in_progress_count >= 0
                             ),
    retrying_count           INTEGER NOT NULL DEFAULT 0 CHECK (
                                 typeof(retrying_count) = 'integer' AND
                                 retrying_count >= 0
                             ),
    completed_count          INTEGER NOT NULL DEFAULT 0 CHECK (
                                 typeof(completed_count) = 'integer' AND
                                 completed_count >= 0
                             ),
    permanently_failed_count INTEGER NOT NULL DEFAULT 0 CHECK (
                                 typeof(permanently_failed_count) = 'integer' AND
                                 permanently_failed_count >= 0
                             ),
    last_success_at_ms       INTEGER CHECK (
                                 last_success_at_ms IS NULL OR
                                 last_success_at_ms >= 0
                             ),
    last_failure_at_ms       INTEGER CHECK (
                                 last_failure_at_ms IS NULL OR
                                 last_failure_at_ms >= 0
                             ),
    last_error               TEXT
) STRICT
"#;

pub const CREATE_UPLOAD_JOBS: &'static str = r#"
CREATE TABLE upload_jobs (
    id                     INTEGER PRIMARY KEY,
    artifact_path          TEXT NOT NULL UNIQUE,
    filename               TEXT NOT NULL,
    idempotency_key        TEXT NOT NULL UNIQUE,
    file_size              INTEGER NOT NULL CHECK (file_size >= 0),
    sha256                 BLOB NOT NULL CHECK (length(sha256) = 32),
    state                  TEXT NOT NULL CHECK (
                               state IN (
                                   'pending',
                                   'in_progress',
                                   'retrying',
                                   'completed',
                                   'permanently_failed'
                               )
                           ),
    attempt_count          INTEGER NOT NULL DEFAULT 0
                           CHECK (typeof(attempt_count) = 'integer' AND attempt_count >= 0),
    next_attempt_at_ms     INTEGER
                           CHECK (next_attempt_at_ms IS NULL OR next_attempt_at_ms >= 0),
    last_http_status       INTEGER
                           CHECK (
                               last_http_status IS NULL OR
                               last_http_status BETWEEN 100 AND 599
                           ),
    last_error             TEXT,
    created_at_ms          INTEGER NOT NULL CHECK (created_at_ms >= 0),
    updated_at_ms          INTEGER NOT NULL CHECK (updated_at_ms >= 0),
    completed_at_ms        INTEGER CHECK (completed_at_ms IS NULL OR completed_at_ms >= 0),
    last_failure_at_ms     INTEGER CHECK (
                               last_failure_at_ms IS NULL OR last_failure_at_ms >= 0
                           ),
    CHECK (
        (state = 'retrying' AND next_attempt_at_ms IS NOT NULL) OR
        (state <> 'retrying' AND next_attempt_at_ms IS NULL)
    ),
    CHECK (
        (state = 'completed' AND completed_at_ms IS NOT NULL) OR
        (state <> 'completed' AND completed_at_ms IS NULL)
    )
) STRICT
"#;

pub const CREATE_DUE_INDEX: &'static str = r#"
CREATE INDEX upload_jobs_due
    ON upload_jobs (COALESCE(next_attempt_at_ms, created_at_ms), id)
    WHERE state IN ('pending', 'retrying')
"#;

pub const CREATE_INSERT_AGGREGATE_TRIGGER: &'static str = r#"
CREATE TRIGGER upload_jobs_after_insert
AFTER INSERT ON upload_jobs
BEGIN
    UPDATE upload_metadata
    SET pending_count = pending_count + (NEW.state = 'pending'),
        in_progress_count = in_progress_count + (NEW.state = 'in_progress'),
        retrying_count = retrying_count + (NEW.state = 'retrying'),
        completed_count = completed_count + (NEW.state = 'completed'),
        permanently_failed_count =
            permanently_failed_count + (NEW.state = 'permanently_failed'),
        last_success_at_ms = CASE
            WHEN NEW.completed_at_ms IS NOT NULL AND
                 (last_success_at_ms IS NULL OR
                  NEW.completed_at_ms >= last_success_at_ms)
            THEN NEW.completed_at_ms
            ELSE last_success_at_ms
        END,
        last_failure_at_ms = CASE
            WHEN NEW.last_failure_at_ms IS NOT NULL AND
                 (last_failure_at_ms IS NULL OR
                  NEW.last_failure_at_ms >= last_failure_at_ms)
            THEN NEW.last_failure_at_ms
            ELSE last_failure_at_ms
        END,
        last_error = CASE
            WHEN NEW.last_failure_at_ms IS NOT NULL AND
                 (last_failure_at_ms IS NULL OR
                  NEW.last_failure_at_ms >= last_failure_at_ms)
            THEN NEW.last_error
            ELSE last_error
        END
    WHERE singleton = 1;
END
"#;

pub const CREATE_UPDATE_AGGREGATE_TRIGGER: &'static str = r#"
CREATE TRIGGER upload_jobs_after_status_update
AFTER UPDATE OF state, completed_at_ms, last_failure_at_ms, last_error ON upload_jobs
BEGIN
    UPDATE upload_metadata
    SET pending_count = pending_count
            - (OLD.state = 'pending') + (NEW.state = 'pending'),
        in_progress_count = in_progress_count
            - (OLD.state = 'in_progress') + (NEW.state = 'in_progress'),
        retrying_count = retrying_count
            - (OLD.state = 'retrying') + (NEW.state = 'retrying'),
        completed_count = completed_count
            - (OLD.state = 'completed') + (NEW.state = 'completed'),
        permanently_failed_count = permanently_failed_count
            - (OLD.state = 'permanently_failed')
            + (NEW.state = 'permanently_failed'),
        last_success_at_ms = CASE
            WHEN NEW.completed_at_ms IS NOT OLD.completed_at_ms AND
                 NEW.completed_at_ms IS NOT NULL AND
                 (last_success_at_ms IS NULL OR
                  NEW.completed_at_ms >= last_success_at_ms)
            THEN NEW.completed_at_ms
            ELSE last_success_at_ms
        END,
        last_failure_at_ms = CASE
            WHEN NEW.last_failure_at_ms IS NOT OLD.last_failure_at_ms AND
                 NEW.last_failure_at_ms IS NOT NULL AND
                 (last_failure_at_ms IS NULL OR
                  NEW.last_failure_at_ms >= last_failure_at_ms)
            THEN NEW.last_failure_at_ms
            ELSE last_failure_at_ms
        END,
        last_error = CASE
            WHEN NEW.last_failure_at_ms IS NOT OLD.last_failure_at_ms AND
                 NEW.last_failure_at_ms IS NOT NULL AND
                 (last_failure_at_ms IS NULL OR
                  NEW.last_failure_at_ms >= last_failure_at_ms)
            THEN NEW.last_error
            ELSE last_error
        END
    WHERE singleton = 1;
END
"#;

pub const CREATE_IMMUTABLE_IDENTITY_TRIGGER: &'static str = r#"
CREATE TRIGGER upload_jobs_identity_immutable
BEFORE UPDATE OF artifact_path, filename, idempotency_key, file_size, sha256, created_at_ms
ON upload_jobs
BEGIN
    SELECT RAISE(ABORT, 'upload artifact identity is immutable');
END
"#;

pub const CREATE_NO_DELETE_TRIGGER: &'static str = r#"
CREATE TRIGGER upload_jobs_no_delete
BEFORE DELETE ON upload_jobs
BEGIN
    SELECT RAISE(ABORT, 'upload jobs are append-only');
END
"#;

pub const VERIFY_SCHEMA_PROJECTION: &'static str = r#"
SELECT
    id,
    artifact_path,
    filename,
    idempotency_key,
    file_size,
    sha256,
    state,
    attempt_count,
    next_attempt_at_ms,
    last_http_status,
    last_error,
    created_at_ms,
    updated_at_ms,
    completed_at_ms,
    last_failure_at_ms
FROM upload_jobs
LIMIT 0
"#;

/// Whitespace-separated words of a text.
pub open spec fn words(s: Seq<char>) -> Seq<Seq<char>>
    decreases s.len(),
{
    if s.len() == 0 {
        Seq::empty()
    } else {
        let before = words(s.drop_last());
        let c = s.last();
        if unicode::is_whitespace(c) {
            before
        } else if s.len() >= 2 && !unicode::is_whitespace(s[s.len() - 2]) {
            before.update(before.len() - 1, before.last().push(c))
        } else {
            before.push(seq![c])
        }
    }
}

/// Without the semicolons at its end.
pub open spec fn without_semicolons(s: Seq<char>) -> Seq<char>
    decreases s.len(),
{
    if s.len() > 0 && s.last() == ';' {
        without_semicolons(s.drop_last())
    } else {
        s
    }
}

/// A statement with every run of whitespace replaced by one space, and without
/// its terminating semicolons.
pub open spec fn normalized_sql(s: Seq<char>) -> Seq<char> {
    without_semicolons(text::joined(words(s), ' '))
}

proof fn lemma_words_nonempty(s: Seq<char>)
    requires
        s.len() > 0,
        !unicode::is_whitespace(s.last()),
    ensures
        words(s).len() > 0,
    decreases s.len(),
{
    if s.len() >= 2 && !unicode::is_whitespace(s[s.len() - 2]) {
        lemma_words_nonempty(s.drop_last());
    }
}

proof fn lemma_joined_extends(parts: Seq<Seq<char>>, c: char)
    requires
        parts.len() > 0,
    ensures
        text::joined(parts.update(parts.len() - 1, parts.last().push(c)), ' ') == text::joined(
            parts,
            ' ',
        ).push(c),
        text::joined(parts.push(seq![c]), ' ') == text::joined(parts, ' ').push(' ').push(c),
{
    let longer = parts.update(parts.len() - 1, parts.last().push(c));
    assert(longer.drop_last() =~= parts.drop_last());
    assert(text::joined(longer, ' ') =~= text::joined(parts, ' ').push(c));
    let more = parts.push(seq![c]);
    assert(more.drop_last() =~= parts);
    assert(text::joined(more, ' ') =~= text::joined(parts, ' ').push(' ').push(c));
}

/// Normalize a stored statement for comparison.
pub fn normalize_sql(sql: &str) -> (r: Vec<char>)
    ensures
        r@ == normalized_sql(sql@),
{
    let chars = chars_of(sql);
    let mut out: Vec<char> = Vec::new();
    let mut any = false;
    let mut i: usize = 0;
    proof {
        assert(chars@.take(0) =~= Seq::<char>::empty());
    }
    while i < chars.len()
        invariant
            i <= chars.len(),
            out@ == text::joined(words(chars@.take(i as int)), ' '),
            any == (words(chars@.take(i as int)).len() > 0),
        decreases chars.len() - i,
    {
        let c = chars[i];
        let ghost prefix = chars@.take(i as int);
        let ghost next = chars@.take(i + 1);
        proof {
            assert(next.drop_last() =~= prefix);
            assert(next.last() == c);
            if i > 0 {
                assert(next[i - 1] == chars@[i - 1]);
                assert(prefix.last() == chars@[i - 1]);
            }
        }
        if !check_whitespace(c) {
            let inside = i > 0 && !check_whitespace(chars[i - 1]);
            proof {
                if inside {
                    lemma_words_nonempty(prefix);
                }
                if words(prefix).len() > 0 {
                    lemma_joined_extends(words(prefix), c);
                } else {
                    assert(words(prefix).push(seq![c]) =~= seq![seq![c]]);
                    assert(out@.push(c) =~= seq![c]);
                }
            }
            if !inside && any {
                out.push(' ');
            }
            out.push(c);
            any = true;
        }
        i = i + 1;
    }
    proof {
        assert(chars@.take(i as int) =~= chars@);
    }
    let ghost full = out@;
    while out.len() > 0 && out[out.len() - 1] == ';'
        invariant
            without_semicolons(out@) == without_semicolons(full),
        decreases out.len(),
    {
        proof {
            assert(out@.drop_last() =~= out@.subrange(0, out@.len() - 1));
        }
        let _last = out.pop();
    }
    out
}

/// The statement that creates each object of the schema.
pub open spec fn expected_sql(i: int) -> Seq<char> {
    if i == 0 {
        CREATE_METADATA@
    } else if i == 1 {
        CREATE_UPLOAD_JOBS@
    } else if i == 2 {
        CREATE_DUE_INDEX@
    } else if i == 3 {
        CREATE_INSERT_AGGREGATE_TRIGGER@
    } else if i == 4 {
        CREATE_UPDATE_AGGREGATE_TRIGGER@
    } else if i == 5 {
        CREATE_IMMUTABLE_IDENTITY_TRIGGER@
    } else {
        CREATE_NO_DELETE_TRIGGER@
    }
}

/// The statement that creates an object of the schema.
pub fn schema_sql(i: usize) -> (r: &'static str)
    requires
        i < SCHEMA_OBJECTS,
    ensures
        r@ == expected_sql(i as int),
{
    if i == 0 {
        CREATE_METADATA
    } else if i == 1 {
        CREATE_UPLOAD_JOBS
    } else if i == 2 {
        CREATE_DUE_INDEX
    } else if i == 3 {
        CREATE_INSERT_AGGREGATE_TRIGGER
    } else if i == 4 {
        CREATE_UPDATE_AGGREGATE_TRIGGER
    } else if i == 5 {
        CREATE_IMMUTABLE_IDENTITY_TRIGGER
    } else {
        CREATE_NO_DELETE_TRIGGER
    }
}

/// The kind and name of an object of the schema.
pub open spec fn object_name(i: int) -> (Seq<char>, Seq<char>) {
    if i == 0 {
        ("table"@, "upload_metadata"@)
    } else if i == 1 {
        ("table"@, "upload_jobs"@)
    } else if i == 2 {
        ("index"@, "upload_jobs_due"@)
    } else if i == 3 {
        ("trigger"@, "upload_jobs_after_insert"@)
    } else if i == 4 {
        ("trigger"@, "upload_jobs_after_status_update"@)
    } else if i == 5 {
        ("trigger"@, "upload_jobs_identity_immutable"@)
    } else {
        ("trigger"@, "upload_jobs_no_delete"@)
    }
}

pub fn schema_object(i: usize) -> (r: (&'static str, &'static str))
    requires
        i < SCHEMA_OBJECTS,
    ensures
        (r.0@, r.1@) == object_name(i as int),
{
    if i == 0 {
        ("table", "upload_metadata")
    } else if i == 1 {
        ("table", "upload_jobs")
    } else if i == 2 {
        ("index", "upload_jobs_due")
    } else if i == 3 {
        ("trigger", "upload_jobs_after_insert")
    } else if i == 4 {
        ("trigger", "upload_jobs_after_status_update")
    } else if i == 5 {
        ("trigger", "upload_jobs_identity_immutable")
    } else {
        ("trigger", "upload_jobs_no_delete")
    }
}

/// Whether a setting that the database answered is the wanted one, in any ASCII
/// case.
pub open spec fn setting_is(actual: Seq<char>, wanted: Seq<char>) -> bool {
    unicode::lower(actual) == wanted
}

fn check_setting(name: &'static str, actual: String, wanted: &str) -> (r: Result<
    (),
    UploadStoreError,
>)
    ensures
        r == (if setting_is(actual@, wanted@) {
            Ok::<(), UploadStoreError>(())
        } else {
            Err::<(), UploadStoreError>((UploadStoreError::Configuration { name, actual }))
        }),
{
    let lowered = lower_text(actual.as_str());
    let expected = chars_of(wanted);
    if same_chars(lowered.as_slice(), expected.as_slice()) {
        Ok(())
    } else {
        Err(UploadStoreError::Configuration { name, actual })
    }
}

/// A ledger's changes go through a write-ahead log.
pub fn check_journal_mode(actual: String) -> (r: Result<(), UploadStoreError>)
    ensures
        r == (if setting_is(actual@, "wal"@) {
            Ok::<(), UploadStoreError>(())
        } else {
            Err::<(), UploadStoreError>(
                (UploadStoreError::Configuration { name: "journal_mode=WAL", actual }),
            )
        }),
{
    check_setting("journal_mode=WAL", actual, "wal")
}

/// A ledger has one owner at a time.
pub fn check_locking_mode(actual: String) -> (r: Result<(), UploadStoreError>)
    ensures
        r == (if setting_is(actual@, "exclusive"@) {
            Ok::<(), UploadStoreError>(())
        } else {
            Err::<(), UploadStoreError>(
                (UploadStoreError::Configuration { name: "locking_mode=EXCLUSIVE", actual }),
            )
        }),
{
    check_setting("locking_mode=EXCLUSIVE", actual, "exclusive")
}

/// The level at which every commit reaches the disk.
pub const SYNCHRONOUS_FULL: i64 = 2;

/// Every commit of a ledger reaches the disk before it is acted on.
pub fn check_synchronous(actual: i64) -> (r: Result<(), UploadStoreError>)
    ensures
        match r {
            Ok(_) => actual == SYNCHRONOUS_FULL,
            Err(error) => {
                &&& actual != SYNCHRONOUS_FULL
                &&& error matches UploadStoreError::Configuration { name, actual: found }
                &&& name@ == "synchronous=FULL"@
                &&& found@ == text::signed(actual as int)
            },
        },
{
    if actual == SYNCHRONOUS_FULL {
        return Ok(());
    }
    let mut found = String::new();
    push_signed(&mut found, actual);
    assert(found@ =~= text::signed(actual as int));
    Err(UploadStoreError::Configuration { name: "synchronous=FULL", actual: found })
}

/// A capture directory as it was found. What is said of its canonical path does
/// not matter where the path is not absolute.
#[derive(Debug)]
pub struct DirectorySighting {
    pub path: String,
    pub is_absolute: bool,
    pub canonical_path: String,
    pub canonical_is_utf8: bool,
}

/// The path under which a ledger knows its capture directory.
pub fn canonical_capture_root(directory: DirectorySighting) -> (r: Result<String, UploadStoreError>)
    ensures
        r == (if !directory.is_absolute {
            Err::<String, UploadStoreError>(
                UploadStoreError::CaptureDirectoryNotAbsolute(directory.path),
            )
        } else if !directory.canonical_is_utf8 {
            Err::<String, UploadStoreError>(
                UploadStoreError::CaptureDirectoryNotUtf8(directory.canonical_path),
            )
        } else {
            Ok::<String, UploadStoreError>(directory.canonical_path)
        }),
{
    if !directory.is_absolute {
        return Err(UploadStoreError::CaptureDirectoryNotAbsolute(directory.path));
    }
    if !directory.canonical_is_utf8 {
        return Err(UploadStoreError::CaptureDirectoryNotUtf8(directory.canonical_path));
    }
    Ok(directory.canonical_path)
}

/// A ledger as it was found in a database.
#[derive(Debug)]
pub struct StoredLedger {
    pub schema_signature: String,
    pub store: UploadStore,
}

/// What a database holds before it is used: its version and application, the
/// statement of each schema object in order, and the ledger if it has one.
#[derive(Debug)]
pub struct LedgerImage {
    pub user_version: i64,
    pub application_id: i64,
    pub object_count: i64,
    pub objects: Vec<Option<String>>,
    pub contents: Option<StoredLedger>,
}

/// The first fault among the schema objects from `i` on.
pub open spec fn object_fault(objects: Seq<Option<String>>, i: int) -> Option<UploadStoreError>
    decreases SCHEMA_OBJECTS - i,
{
    if i >= SCHEMA_OBJECTS {
        None
    } else {
        match objects[i] {
            None => Some(UploadStoreError::MissingSchema),
            Some(sql) => if normalized_sql(sql@) != normalized_sql(expected_sql(i)) {
                Some(UploadStoreError::InvalidSchema)
            } else {
                object_fault(objects, i + 1)
            },
        }
    }
}

/// Why an existing ledger cannot be used for this capture directory and
/// destination, if it cannot.
pub open spec fn schema_fault(
    image: LedgerImage,
    capture_root: Seq<char>,
    destination: Seq<char>,
) -> Option<UploadStoreError> {
    if image.application_id != APPLICATION_ID || image.object_count != SCHEMA_OBJECTS {
        Some(UploadStoreError::InvalidSchema)
    } else if object_fault(image.objects@, 0) is Some {
        object_fault(image.objects@, 0)
    } else {
        match image.contents {
            None => Some(UploadStoreError::ConstraintViolation),
            Some(ledger) => if ledger.schema_signature@ != SCHEMA_SIGNATURE@ {
                Some(UploadStoreError::InvalidSchema)
            } else if ledger.store.capture_root@ != capture_root {
                Some(UploadStoreError::CaptureRootMismatch)
            } else if ledger.store.destination@ != destination {
                Some(UploadStoreError::DestinationMismatch)
            } else {
                None
            },
        }
    }
}

fn check_objects(objects: &Vec<Option<String>>) -> (r: Result<(), UploadStoreError>)
    requires
        objects@.len() == SCHEMA_OBJECTS,
    ensures
        r == (match object_fault(objects@, 0) {
            Some(error) => Err::<(), UploadStoreError>(error),
            None => Ok::<(), UploadStoreError>(()),
        }),
{
    let mut i: usize = 0;
    while i < SCHEMA_OBJECTS
        invariant
            i <= SCHEMA_OBJECTS,
            objects@.len() == SCHEMA_OBJECTS,
            object_fault(objects@, 0) == object_fault(objects@, i as int),
        decreases SCHEMA_OBJECTS - i,
    {
        match &objects[i] {
            None => {
                return Err(UploadStoreError::MissingSchema);
            },
            Some(sql) => {
                let actual = normalize_sql(sql.as_str());
                let expected = normalize_sql(schema_sql(i));
                if !same_chars(actual.as_slice(), expected.as_slice()) {
                    return Err(UploadStoreError::InvalidSchema);
                }
            },
        }
        i = i + 1;
    }
    Ok(())
}

/// Check that an existing database holds exactly this ledger's schema and
/// belongs to this capture directory and destination.
pub fn verify_schema(image: &LedgerImage, capture_root: &str, destination: &str) -> (r: Result<
    (),
    UploadStoreError,
>)
    requires
        image.objects@.len() == SCHEMA_OBJECTS,
    ensures
        r == (match schema_fault(*image, capture_root@, destination@) {
            Some(error) => Err::<(), UploadStoreError>(error),
            None => Ok::<(), UploadStoreError>(()),
        }),
{
    if image.application_id != APPLICATION_ID {
        return Err(UploadStoreError::InvalidSchema);
    }
    if image.object_count != SCHEMA_OBJECTS as i64 {
        return Err(UploadStoreError::InvalidSchema);
    }
    check_objects(&image.objects)?;
    match &image.contents {
        None => Err(UploadStoreError::ConstraintViolation),
        Some(ledger) => {
            if !same_text(ledger.schema_signature.as_str(), SCHEMA_SIGNATURE) {
                Err(UploadStoreError::InvalidSchema)
            } else if !same_text(ledger.store.capture_root.as_str(), capture_root) {
                Err(UploadStoreError::CaptureRootMismatch)
            } else if !same_text(ledger.store.destination.as_str(), destination) {
                Err(UploadStoreError::DestinationMismatch)
            } else {
                Ok(())
            }
        },
    }
}

/// A ledger that has been opened, and whether it had to be created.
#[derive(Debug)]
pub struct OpenedLedger {
    pub store: UploadStore,
    pub created: bool,
}

/// Whether a ledger is empty and bound like this.
pub open spec fn is_new_ledger(
    store: UploadStore,
    capture_root: String,
    destination: Seq<char>,
    authorization: UploadAuthorizationFingerprint,
    activation_at_unix_ms: u64,
) -> bool {
    &&& store.capture_root == capture_root
    &&& store.destination@ == destination
    &&& store.authorization == authorization
    &&& store.activation_at_unix_ms == activation_at_unix_ms
    &&& store.jobs@.len() == 0
    &&& store.last_success_at_unix_ms is None
    &&& store.last_failure_at_unix_ms is None
    &&& store.last_error is None
    &&& store.agrees()
}

/// Whether a database holds nothing at all.
pub open spec fn is_empty_database(image: LedgerImage) -> bool {
    image.user_version == 0 && image.application_id == 0 && image.object_count == 0
}

/// Whether a ledger is an existing one, opened: its interrupted attempts wait
/// again, it is bound to this authorization, and nothing else has changed.
pub open spec fn is_reopened(
    stored: UploadStore,
    authorization: UploadAuthorizationFingerprint,
    store: UploadStore,
) -> bool {
    &&& store.authorization.0@ == authorization.0@
    &&& (UploadStore { authorization: store.authorization, ..stored }).is_recovered(store)
    &&& stored.history_kept(store)
}

impl UploadStore {
    fn create(
        capture_root: String,
        destination: String,
        authorization: UploadAuthorizationFingerprint,
        activation_at_unix_ms: u64,
    ) -> (r: Self)
        requires
            upload_record::fits_i64(activation_at_unix_ms),
        ensures
            r.wf(),
            is_new_ledger(r, capture_root, destination@, authorization, activation_at_unix_ms),
    {
        let r = UploadStore {
            capture_root,
            destination,
            authorization,
            activation_at_unix_ms,
            jobs: Vec::new(),
            counts: UploadStateCounts {
                pending: 0,
                in_progress: 0,
                retrying: 0,
                completed: 0,
                permanently_failed: 0,
            },
            last_success_at_unix_ms: None,
            last_failure_at_unix_ms: None,
            last_error: None,
        };
        proof {
            reveal(upload_store::distinct);
            reveal(upload_store::latest_completion);
            reveal(upload_store::bounds_failures);
        }
        r
    }

    /// Open the ledger of a capture directory that holds these entries. An empty
    /// database gets a new ledger. An existing ledger must have this schema and
    /// this binding; its authorization is replaced only if no work is outstanding
    /// and no capture awaits reconciliation, and attempts that its last owner left
    /// behind return to the queue.
    pub fn open(
        image: LedgerImage,
        entries: &Vec<ReconcileEntry>,
        capture_root: String,
        destination: &str,
        authorization_fingerprint: UploadAuthorizationFingerprint,
        now_unix_ms: u64,
    ) -> (r: Result<OpenedLedger, UploadStoreError>)
        requires
            image.objects@.len() == SCHEMA_OBJECTS,
            image.contents matches Some(ledger) ==> ledger.store.wf(),
        ensures
            r matches Ok(opened) ==> opened.store.wf(),
            ({
                let bound = unicode::trim(destination@);
                let valid = bound.len() > 0 && forall|i: int|
                    0 <= i < bound.len() ==> !unicode::is_control(#[trigger] bound[i]);
                if !valid {
                    r == Err::<OpenedLedger, UploadStoreError>(UploadStoreError::InvalidDestination)
                } else if is_empty_database(image) {
                    if upload_record::fits_i64(now_unix_ms) {
                        r matches Ok(opened) && opened.created && is_new_ledger(
                            opened.store,
                            capture_root,
                            bound,
                            authorization_fingerprint,
                            now_unix_ms,
                        )
                    } else {
                        r == Err::<OpenedLedger, UploadStoreError>(
                            UploadStoreError::TimestampOutOfRange(now_unix_ms),
                        )
                    }
                } else if image.user_version == 0 {
                    r == Err::<OpenedLedger, UploadStoreError>(UploadStoreError::MissingSchema)
                } else if image.user_version != SCHEMA_VERSION {
                    r == Err::<OpenedLedger, UploadStoreError>(
                        (UploadStoreError::UnsupportedSchema {
                            found: image.user_version,
                            supported: SCHEMA_VERSION,
                        }),
                    )
                } else {
                    match schema_fault(image, capture_root@, bound) {
                        Some(error) => r == Err::<OpenedLedger, UploadStoreError>(error),
                        None => {
                            let stored = image.contents->0.store;
                            if stored.authorization.0@ != authorization_fingerprint.0@ && (
                            upload_store::has_live_work(stored.jobs@)
                                || upload_artifact::has_crash_gap(stored, entries@)) {
                                r == Err::<OpenedLedger, UploadStoreError>(
                                    UploadStoreError::AuthorizationIdentityMismatch,
                                )
                            } else if stored.can_recover() {
                                r matches Ok(opened) && !opened.created && is_reopened(
                                    stored,
                                    authorization_fingerprint,
                                    opened.store,
                                ) && (stored.agrees() ==> opened.store.agrees())
                            } else {
                                r == Err::<OpenedLedger, UploadStoreError>(
                                    UploadStoreError::ConstraintViolation,
                                )
                            }
                        },
                    }
                }
            }),
    {
        let bound = normalize_destination(destination)?;
        if image.user_version == 0 {
            if image.application_id != 0 || image.object_count != 0 {
                return Err(UploadStoreError::MissingSchema);
            }
            check_timestamp(now_unix_ms)?;
            return Ok(
                OpenedLedger {
                    store: UploadStore::create(
                        capture_root,
                        bound,
                        authorization_fingerprint,
                        now_unix_ms,
                    ),
                    created: true,
                },
            );
        }
        if image.user_version != SCHEMA_VERSION {
            return Err(
                UploadStoreError::UnsupportedSchema {
                    found: image.user_version,
                    supported: SCHEMA_VERSION,
                },
            );
        }
        verify_schema(&image, capture_root.as_str(), bound.as_str())?;
        match image.contents {
            Some(ledger) => {
                let ghost stored = ledger.store;
                let mut store = ledger.store;
                store.rotate_authorization_if_drained(entries, authorization_fingerprint)?;
                let ghost rotated = store;
                store.recover_interrupted_jobs()?;
                proof {
                    upload_store::law_history_is_transitive(stored, rotated, store);
                }
                Ok(OpenedLedger { store, created: false })
            },
            None => Err(UploadStoreError::ConstraintViolation),
        }
    }
}

/// A statement is compared by its words: what is not whitespace is kept as it is, a run
/// of whitespace between words counts as one space, and whitespace and semicolons at the
/// end count for nothing.
pub proof fn law_statement_is_compared_by_its_words(
    shorter: &str,
    longer: &str,
    c: char,
    r: Vec<char>,
    s: Vec<char>,
)
    requires
        call_ensures(normalize_sql, (shorter,), r),
        call_ensures(normalize_sql, (longer,), s),
        longer@ == shorter@.push(c),
    ensures
        shorter@.len() == 0 ==> r@.len() == 0,
        unicode::is_whitespace(c) ==> s@ == r@,
        !unicode::is_whitespace(c) && c != ';' && shorter@.len() == 0 ==> s@ == seq![c],
        !unicode::is_whitespace(c) && c != ';' && shorter@.len() > 0 && !unicode::is_whitespace(
            shorter@.last(),
        ) && shorter@.last() != ';' ==> s@ == r@.push(c),
        !unicode::is_whitespace(c) && c != ';' && shorter@.len() > 1 && unicode::is_whitespace(
            shorter@.last(),
        ) && !unicode::is_whitespace(shorter@[shorter@.len() - 2]) && shorter@[shorter@.len() - 2]
            != ';' ==> s@ == r@.push(' ').push(c),
        c == ';' && shorter@.len() > 0 && !unicode::is_whitespace(shorter@.last()) ==> s@ == r@,
{
    let a = shorter@;
    let b = longer@;
    assert(b.drop_last() =~= a);
    assert(!unicode::is_whitespace(';'));
    if !unicode::is_whitespace(c) {
        if a.len() > 0 && !unicode::is_whitespace(a.last()) {
            lemma_words_nonempty(a);
            lemma_joined_extends(words(a), c);
            lemma_ends_as_written(a);
        } else if a.len() > 1 && unicode::is_whitespace(a.last()) && !unicode::is_whitespace(
            a[a.len() - 2],
        ) {
            let d = a.drop_last();
            assert(d.last() == a[a.len() - 2]);
            lemma_words_nonempty(d);
            assert(words(a) == words(d));
            lemma_joined_extends(words(d), c);
            lemma_ends_as_written(d);
        } else if a.len() == 0 {
            assert(words(a) =~= Seq::<Seq<char>>::empty());
            assert(words(b) =~= seq![seq![c]]);
            assert(text::joined(seq![seq![c]], ' ') == seq![c]);
        }
        if c == ';' && a.len() > 0 && !unicode::is_whitespace(a.last()) {
            let j = text::joined(words(a), ' ');
            assert(text::joined(words(b), ' ') == j.push(c));
            assert(j.push(c).drop_last() =~= j);
        }
    }
}

/// A text that ends in something other than whitespace is joined to end in the same.
proof fn lemma_ends_as_written(s: Seq<char>)
    requires
        s.len() > 0,
        !unicode::is_whitespace(s.last()),
    ensures
        text::joined(words(s), ' ').len() > 0,
        text::joined(words(s), ' ').last() == s.last(),
    decreases s.len(),
{
    let before = words(s.drop_last());
    if s.len() >= 2 && !unicode::is_whitespace(s[s.len() - 2]) {
        lemma_words_nonempty(s.drop_last());
        lemma_joined_extends(before, s.last());
    } else if before.len() > 0 {
        lemma_joined_extends(before, s.last());
    } else {
        assert(words(s) =~= seq![seq![s.last()]]);
        assert(text::joined(words(s), ' ') == seq![s.last()]);
    }
}

/// A ledger is written through a write-ahead log by one owner, in whatever case that is
/// answered, and every commit reaches the disk.
pub proof fn law_settings_are_the_wanted_ones(
    actual: String,
    answered: &str,
    lowered: Vec<char>,
    journal: Result<(), UploadStoreError>,
    locking: Result<(), UploadStoreError>,
    level: i64,
    synchronous: Result<(), UploadStoreError>,
)
    requires
        call_ensures(check_journal_mode, (actual,), journal),
        call_ensures(check_locking_mode, (actual,), locking),
        call_ensures(lower_text, (answered,), lowered),
        answered@ == actual@,
        call_ensures(check_synchronous, (level,), synchronous),
    ensures
        journal is Ok <==> lowered@ == "wal"@,
        locking is Ok <==> lowered@ == "exclusive"@,
        synchronous is Ok <==> level == 2,
        journal matches Err(error) ==> (error matches UploadStoreError::Configuration {
            actual: found,
            ..
        } && found == actual),
        locking matches Err(error) ==> (error matches UploadStoreError::Configuration {
            actual: found,
            ..
        } && found == actual),
        synchronous matches Err(error) ==> error is Configuration,
{
}

/// A capture directory is known by its canonical path, where the path given is absolute
/// and the canonical one is text.
pub proof fn law_capture_directory_is_known_by_its_canonical_path(
    directory: DirectorySighting,
    r: Result<String, UploadStoreError>,
)
    requires
        call_ensures(canonical_capture_root, (directory,), r),
    ensures
        r is Ok <==> directory.is_absolute && directory.canonical_is_utf8,
        r matches Ok(path) ==> path == directory.canonical_path,
        !directory.is_absolute ==> r == Err::<String, UploadStoreError>(
            UploadStoreError::CaptureDirectoryNotAbsolute(directory.path),
        ),
        directory.is_absolute && !directory.canonical_is_utf8 ==> r == Err::<
            String,
            UploadStoreError,
        >(UploadStoreError::CaptureDirectoryNotUtf8(directory.canonical_path)),
{
}

/// Whether some objects from one on are the statements of the schema, up to whitespace.
pub open spec fn holds_schema_from(objects: Seq<Option<String>>, from: int) -> bool {
    forall|i: int|
        from <= i < 7 ==> (#[trigger] objects[i]) is Some && normalized_sql(objects[i]->0@)
            == normalized_sql(expected_sql(i))
}

proof fn lemma_object_fault(objects: Seq<Option<String>>, i: int)
    requires
        0 <= i <= 7,
    ensures
        object_fault(objects, i) is None <==> holds_schema_from(objects, i),
        i < 7 && objects[i] is None ==> object_fault(objects, i) == Some(
            UploadStoreError::MissingSchema,
        ),
    decreases 7 - i,
{
    if i < 7 {
        lemma_object_fault(objects, i + 1);
    }
}

/// An existing database is used exactly where it is one of this application with the
/// seven objects of the schema and no more, and holds a ledger of this schema, of this
/// capture directory and of this destination.
pub proof fn law_database_is_used_for_what_it_was_made(
    image: &LedgerImage,
    capture_root: &str,
    destination: &str,
    r: Result<(), UploadStoreError>,
)
    requires
        call_ensures(verify_schema, (image, capture_root, destination), r),
        image.objects@.len() == 7,
    ensures
        ({
            let schema = image.application_id == 0x4150_4355 && image.object_count == 7
                && holds_schema_from(image.objects@, 0);
            let signed = image.contents is Some && image.contents->0.schema_signature@
                == SCHEMA_SIGNATURE@;
            let at_home = image.contents->0.store.capture_root@ == capture_root@;
            let bound = image.contents->0.store.destination@ == destination@;
            &&& r is Ok <==> schema && signed && at_home && bound
            &&& schema && signed && !at_home ==> r == Err::<(), UploadStoreError>(
                UploadStoreError::CaptureRootMismatch,
            )
            &&& schema && signed && at_home && !bound ==> r == Err::<(), UploadStoreError>(
                UploadStoreError::DestinationMismatch,
            )
            &&& schema && image.contents is Some && !signed ==> r == Err::<(), UploadStoreError>(
                UploadStoreError::InvalidSchema,
            )
        }),
{
    lemma_object_fault(image.objects@, 0);
}

/// An empty database gets a new ledger, bound as asked and activated now; one of another
/// version is refused; one of this version is reopened where its schema verifies and its
/// authorization is the same or may change. A reopened ledger keeps its jobs, of which
/// none is left in progress.
pub proof fn law_ledger_is_opened(
    image: LedgerImage,
    entries: &Vec<ReconcileEntry>,
    capture_root: String,
    destination: &str,
    authorization: UploadAuthorizationFingerprint,
    now_unix_ms: u64,
    normalized: Result<String, UploadStoreError>,
    root: &str,
    bound: &str,
    verified: Result<(), UploadStoreError>,
    r: Result<OpenedLedger, UploadStoreError>,
    i: int,
)
    requires
        call_ensures(
            UploadStore::open,
            (image, entries, capture_root, destination, authorization, now_unix_ms),
            r,
        ),
        call_ensures(normalize_destination, (destination,), normalized),
        call_ensures(verify_schema, (&image, root, bound), verified),
        root@ == capture_root@,
        normalized matches Ok(text) ==> bound@ == text@,
        image.contents matches Some(ledger) ==> ledger.store.wf(),
    ensures
        ({
            let valid = normalized is Ok;
            let empty = image.user_version == 0 && image.application_id == 0 && image.object_count
                == 0;
            let stored = image.contents->0.store;
            let same = stored.authorization.0@ == authorization.0@;
            &&& !valid ==> r == Err::<OpenedLedger, UploadStoreError>(
                UploadStoreError::InvalidDestination,
            )
            &&& valid && empty && now_unix_ms <= i64::MAX ==> r is Ok && r->Ok_0.created
            &&& valid && empty && now_unix_ms > i64::MAX ==> r is Err
            &&& valid && !empty && image.user_version == 0 ==> r == Err::<
                OpenedLedger,
                UploadStoreError,
            >(UploadStoreError::MissingSchema)
            &&& valid && image.user_version != 0 && image.user_version != 2 ==> (r matches Err(
                UploadStoreError::UnsupportedSchema { found, supported },
            ) && found == image.user_version && supported == 2)
            &&& valid && image.user_version == 2 && verified is Err ==> r is Err && r->Err_0
                == verified->Err_0
            &&& valid && image.user_version == 2 && verified is Ok && !same
                && !upload_artifact::is_drained(stored) ==> r == Err::<
                OpenedLedger,
                UploadStoreError,
            >(UploadStoreError::AuthorizationIdentityMismatch)
            &&& valid && image.user_version == 2 && verified is Ok && (same
                || upload_artifact::is_drained(stored) && entries@.len() == 0) && stored.agrees()
                ==> r is Ok && !r->Ok_0.created
            &&& r matches Ok(opened) ==> {
                &&& opened.created <==> empty
                &&& opened.store.authorization.0@ == authorization.0@
                &&& opened.store.capture_root@ == capture_root@
                &&& opened.store.destination@ == bound@
                &&& opened.created ==> opened.store.jobs@.len() == 0
                    && opened.store.activation_at_unix_ms == now_unix_ms
                &&& !opened.created ==> opened.store.jobs@.len() == stored.jobs@.len()
                    && opened.store.activation_at_unix_ms == stored.activation_at_unix_ms
                &&& !opened.created && 0 <= i < stored.jobs@.len() ==> {
                    &&& opened.store.jobs@[i].state !is InProgress
                    &&& stored.jobs@[i].state !is InProgress ==> opened.store.jobs@[i]
                        == stored.jobs@[i]
                    &&& stored.jobs@[i].state is InProgress ==> opened.store.jobs@[i].state
                        is Pending
                }
            }
        }),
{
    let stored = image.contents->0.store;
    upload_artifact::lemma_drained(stored);
    upload_record::lemma_count_bounds(stored.jobs@);
    assert(normalized is Err <==> upload_record::is_invalid_destination(destination@));
}

/// The schema has two tables, an index and four triggers, under these names.
pub proof fn law_schema_objects_are_named(i: usize, r: (&'static str, &'static str))
    requires
        call_ensures(schema_object, (i,), r),
    ensures
        i == 0 ==> r.0@ == "table"@ && r.1@ == "upload_metadata"@,
        i == 1 ==> r.0@ == "table"@ && r.1@ == "upload_jobs"@,
        i == 2 ==> r.0@ == "index"@ && r.1@ == "upload_jobs_due"@,
        i == 3 ==> r.0@ == "trigger"@ && r.1@ == "upload_jobs_after_insert"@,
        i == 4 ==> r.0@ == "trigger"@ && r.1@ == "upload_jobs_after_status_update"@,
        i == 5 ==> r.0@ == "trigger"@ && r.1@ == "upload_jobs_identity_immutable"@,
        i == 6 ==> r.0@ == "trigger"@ && r.1@ == "upload_jobs_no_delete"@,
{
}

/// Each object of the schema is created by its own statement, the tables first.
pub proof fn law_schema_objects_are_created_in_order(i: usize, r: &'static str)
    requires
        call_ensures(schema_sql, (i,), r),
    ensures
        i == 0 ==> r@ == CREATE_METADATA@,
        i == 1 ==> r@ == CREATE_UPLOAD_JOBS@,
        i == 2 ==> r@ == CREATE_DUE_INDEX@,
        i == 3 ==> r@ == CREATE_INSERT_AGGREGATE_TRIGGER@,
        i == 4 ==> r@ == CREATE_UPDATE_AGGREGATE_TRIGGER@,
        i == 5 ==> r@ == CREATE_IMMUTABLE_IDENTITY_TRIGGER@,
        i == 6 ==> r@ == CREATE_NO_DELETE_TRIGGER@,
{
}

} // verus!
