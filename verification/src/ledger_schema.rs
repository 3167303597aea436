//! The third version of the upload ledger's schema, from which ledgers are
//! migrated.

use vstd::prelude::*;

verus! {

pub const V3_SCHEMA_VERSION: i64 = 3;

pub const V3_SCHEMA_OBJECTS: usize = 8;

pub const V3_SCHEMA_SIGNATURE: &'static str =
    "autopiercam-upload-ledger-v3-destination-authorization-preactivation-inventory-aggregates-sha256-20260828";

pub const V3_CREATE_METADATA: &'static str = r#"
CREATE TABLE upload_metadata (
    singleton                INTEGER PRIMARY KEY CHECK (singleton = 1),
    schema_signature         TEXT NOT NULL,
    capture_root             TEXT NOT NULL,
    destination              TEXT NOT NULL CHECK (
                                 length(destination) > 0 AND
                                 trim(destination) = destination
                             ),
    authorization_sha256     BLOB NOT NULL CHECK (
                                 length(authorization_sha256) = 32
                             ),
    pending_count            INTEGER NOT NULL DEFAULT 0 CHECK (
                                 typeof(pending_count) = 'integer' AND
                                 pending_count >= 0
                             ),
    in_progress_count        INTEGER NOT NULL DEFAULT 0 CHECK (
                                 typeof(in_progress_count) = 'integer' AND
                                 in_progress_count >= 0
                             ),
    retrying_count           INTEGER NOT NULL DEFAULT 0 CHECK (
                                 typeof(retrying_count) = 'integer' AND
                                 retrying_count >= 0
                             ),
    completed_count          INTEGER NOT NULL DEFAULT 0 CHECK (
                                 typeof(completed_count) = 'integer' AND
                                 completed_count >= 0
                             ),
    permanently_failed_count INTEGER NOT NULL DEFAULT 0 CHECK (
                                 typeof(permanently_failed_count) = 'integer' AND
                                 permanently_failed_count >= 0
                             ),
    last_success_at_ms       INTEGER CHECK (
                                 last_success_at_ms IS NULL OR
                                 last_success_at_ms >= 0
                             ),
    last_failure_at_ms       INTEGER CHECK (
                                 last_failure_at_ms IS NULL OR
                                 last_failure_at_ms >= 0
                             ),
    last_error               TEXT
) STRICT
"#;

pub const V3_CREATE_PREACTIVATION_ARTIFACTS: &'static str = r#"
CREATE TABLE upload_preactivation_artifacts (
    artifact_path TEXT PRIMARY KEY CHECK (length(artifact_path) > 0)
) STRICT, WITHOUT ROWID
"#;

pub const V3_CREATE_UPLOAD_JOBS: &'static str = r#"
CREATE TABLE upload_jobs (
    id                     INTEGER PRIMARY KEY,
    artifact_path          TEXT NOT NULL UNIQUE,
    filename               TEXT NOT NULL,
    idempotency_key        TEXT NOT NULL UNIQUE,
    file_size              INTEGER NOT NULL CHECK (file_size >= 0),
    sha256                 BLOB NOT NULL CHECK (length(sha256) = 32),
    state                  TEXT NOT NULL CHECK (
                               state IN (
                                   'pending',
                                   'in_progress',
                                   'retrying',
                                   'completed',
                                   'permanently_failed'
                               )
                           ),
    attempt_count          INTEGER NOT NULL DEFAULT 0
                           CHECK (typeof(attempt_count) = 'integer' AND attempt_count >= 0),
    next_attempt_at_ms     INTEGER
                           CHECK (next_attempt_at_ms IS NULL OR next_attempt_at_ms >= 0),
    last_http_status       INTEGER
                           CHECK (
                               last_http_status IS NULL OR
                               last_http_status BETWEEN 100 AND 599
                           ),
    last_error             TEXT,
    created_at_ms          INTEGER NOT NULL CHECK (created_at_ms >= 0),
    updated_at_ms          INTEGER NOT NULL CHECK (updated_at_ms >= 0),
    completed_at_ms        INTEGER CHECK (completed_at_ms IS NULL OR completed_at_ms >= 0),
    last_failure_at_ms     INTEGER CHECK (
                               last_failure_at_ms IS NULL OR last_failure_at_ms >= 0
                           ),
    CHECK (
        (state = 'retrying' AND next_attempt_at_ms IS NOT NULL) OR
        (state <> 'retrying' AND next_attempt_at_ms IS NULL)
    ),
    CHECK (
        (state = 'completed' AND completed_at_ms IS NOT NULL) OR
        (state <> 'completed' AND completed_at_ms IS NULL)
    )
) STRICT
"#;

pub const V3_CREATE_DUE_INDEX: &'static str = r#"
CREATE INDEX upload_jobs_due
    ON upload_jobs (COALESCE(next_attempt_at_ms, created_at_ms), id)
    WHERE state IN ('pending', 'retrying')
"#;

pub const V3_CREATE_INSERT_AGGREGATE_TRIGGER: &'static str = r#"
CREATE TRIGGER upload_jobs_after_insert
AFTER INSERT ON upload_jobs
BEGIN
    UPDATE upload_metadata
    SET pending_count = pending_count + (NEW.state = 'pending'),
        in_progress_count = in_progress_count + (NEW.state = 'in_progress'),
        retrying_count = retrying_count + (NEW.state = 'retrying'),
        completed_count = completed_count + (NEW.state = 'completed'),
        permanently_failed_count =
            permanently_failed_count + (NEW.state = 'permanently_failed'),
        last_success_at_ms = CASE
            WHEN NEW.completed_at_ms IS NOT NULL AND
                 (last_success_at_ms IS NULL OR
                  NEW.completed_at_ms >= last_success_at_ms)
            THEN NEW.completed_at_ms
            ELSE last_success_at_ms
        END,
        last_failure_at_ms = CASE
            WHEN NEW.last_failure_at_ms IS NOT NULL AND
                 (last_failure_at_ms IS NULL OR
                  NEW.last_failure_at_ms >= last_failure_at_ms)
            THEN NEW.last_failure_at_ms
            ELSE last_failure_at_ms
        END,
        last_error = CASE
            WHEN NEW.last_failure_at_ms IS NOT NULL AND
                 (last_failure_at_ms IS NULL OR
                  NEW.last_failure_at_ms >= last_failure_at_ms)
            THEN NEW.last_error
            ELSE last_error
        END
    WHERE singleton = 1;
END
"#;

pub const V3_CREATE_UPDATE_AGGREGATE_TRIGGER: &'static str = r#"
CREATE TRIGGER upload_jobs_after_status_update
AFTER UPDATE OF state, completed_at_ms, last_failure_at_ms, last_error ON upload_jobs
BEGIN
    UPDATE upload_metadata
    SET pending_count = pending_count
            - (OLD.state = 'pending') + (NEW.state = 'pending'),
        in_progress_count = in_progress_count
            - (OLD.state = 'in_progress') + (NEW.state = 'in_progress'),
        retrying_count = retrying_count
            - (OLD.state = 'retrying') + (NEW.state = 'retrying'),
        completed_count = completed_count
            - (OLD.state = 'completed') + (NEW.state = 'completed'),
        permanently_failed_count = permanently_failed_count
            - (OLD.state = 'permanently_failed')
            + (NEW.state = 'permanently_failed'),
        last_success_at_ms = CASE
            WHEN NEW.completed_at_ms IS NOT OLD.completed_at_ms AND
                 NEW.completed_at_ms IS NOT NULL AND
                 (last_success_at_ms IS NULL OR
                  NEW.completed_at_ms >= last_success_at_ms)
            THEN NEW.completed_at_ms
            ELSE last_success_at_ms
        END,
        last_failure_at_ms = CASE
            WHEN NEW.last_failure_at_ms IS NOT OLD.last_failure_at_ms AND
                 NEW.last_failure_at_ms IS NOT NULL AND
                 (last_failure_at_ms IS NULL OR
                  NEW.last_failure_at_ms >= last_failure_at_ms)
            THEN NEW.last_failure_at_ms
            ELSE last_failure_at_ms
        END,
        last_error = CASE
            WHEN NEW.last_failure_at_ms IS NOT OLD.last_failure_at_ms AND
                 NEW.last_failure_at_ms IS NOT NULL AND
                 (last_failure_at_ms IS NULL OR
                  NEW.last_failure_at_ms >= last_failure_at_ms)
            THEN NEW.last_error
            ELSE last_error
        END
    WHERE singleton = 1;
END
"#;

pub const V3_CREATE_IMMUTABLE_IDENTITY_TRIGGER: &'static str = r#"
CREATE TRIGGER upload_jobs_identity_immutable
BEFORE UPDATE OF artifact_path, filename, idempotency_key, file_size, sha256, created_at_ms
ON upload_jobs
BEGIN
    SELECT RAISE(ABORT, 'upload artifact identity is immutable');
END
"#;

pub const V3_CREATE_NO_DELETE_TRIGGER: &'static str = r#"
CREATE TRIGGER upload_jobs_no_delete
BEFORE DELETE ON upload_jobs
BEGIN
    SELECT RAISE(ABORT, 'upload jobs are append-only');
END
"#;

/// A query that a ledger of the third version can prepare.
pub const V3_VERIFY_SCHEMA_PROJECTION: &'static str = r#"
SELECT
    id,
    artifact_path,
    filename,
    idempotency_key,
    file_size,
    sha256,
    state,
    attempt_count,
    next_attempt_at_ms,
    last_http_status,
    last_error,
    created_at_ms,
    updated_at_ms,
    completed_at_ms,
    last_failure_at_ms
FROM upload_jobs
LIMIT 0
"#;

/// The statement that creates each object of the schema.
pub open spec fn v3_expected_sql(i: int) -> Seq<char> {
    if i == 0 {
        V3_CREATE_METADATA@
    } else if i == 1 {
        V3_CREATE_PREACTIVATION_ARTIFACTS@
    } else if i == 2 {
        V3_CREATE_UPLOAD_JOBS@
    } else if i == 3 {
        V3_CREATE_DUE_INDEX@
    } else if i == 4 {
        V3_CREATE_INSERT_AGGREGATE_TRIGGER@
    } else if i == 5 {
        V3_CREATE_UPDATE_AGGREGATE_TRIGGER@
    } else if i == 6 {
        V3_CREATE_IMMUTABLE_IDENTITY_TRIGGER@
    } else {
        V3_CREATE_NO_DELETE_TRIGGER@
    }
}

pub fn v3_schema_sql(i: usize) -> (r: &'static str)
    requires
        i < V3_SCHEMA_OBJECTS,
    ensures
        r@ == v3_expected_sql(i as int),
{
    if i == 0 {
        V3_CREATE_METADATA
    } else if i == 1 {
        V3_CREATE_PREACTIVATION_ARTIFACTS
    } else if i == 2 {
        V3_CREATE_UPLOAD_JOBS
    } else if i == 3 {
        V3_CREATE_DUE_INDEX
    } else if i == 4 {
        V3_CREATE_INSERT_AGGREGATE_TRIGGER
    } else if i == 5 {
        V3_CREATE_UPDATE_AGGREGATE_TRIGGER
    } else if i == 6 {
        V3_CREATE_IMMUTABLE_IDENTITY_TRIGGER
    } else {
        V3_CREATE_NO_DELETE_TRIGGER
    }
}

/// The kind and name of an object of the schema.
pub open spec fn v3_object_name(i: int) -> (Seq<char>, Seq<char>) {
    if i == 0 {
        ("table"@, "upload_metadata"@)
    } else if i == 1 {
        ("table"@, "upload_preactivation_artifacts"@)
    } else if i == 2 {
        ("table"@, "upload_jobs"@)
    } else if i == 3 {
        ("index"@, "upload_jobs_due"@)
    } else if i == 4 {
        ("trigger"@, "upload_jobs_after_insert"@)
    } else if i == 5 {
        ("trigger"@, "upload_jobs_after_status_update"@)
    } else if i == 6 {
        ("trigger"@, "upload_jobs_identity_immutable"@)
    } else {
        ("trigger"@, "upload_jobs_no_delete"@)
    }
}

pub fn v3_schema_object(i: usize) -> (r: (&'static str, &'static str))
    requires
        i < V3_SCHEMA_OBJECTS,
    ensures
        (r.0@, r.1@) == v3_object_name(i as int),
{
    if i == 0 {
        ("table", "upload_metadata")
    } else if i == 1 {
        ("table", "upload_preactivation_artifacts")
    } else if i == 2 {
        ("table", "upload_jobs")
    } else if i == 3 {
        ("index", "upload_jobs_due")
    } else if i == 4 {
        ("trigger", "upload_jobs_after_insert")
    } else if i == 5 {
        ("trigger", "upload_jobs_after_status_update")
    } else if i == 6 {
        ("trigger", "upload_jobs_identity_immutable")
    } else {
        ("trigger", "upload_jobs_no_delete")
    }
}

/// The third version has three tables, an index and four triggers, under these names.
pub proof fn law_third_schema_objects_are_named(i: usize, r: (&'static str, &'static str))
    requires
        call_ensures(v3_schema_object, (i,), r),
    ensures
        i == 0 ==> r.0@ == "table"@ && r.1@ == "upload_metadata"@,
        i == 1 ==> r.0@ == "table"@ && r.1@ == "upload_preactivation_artifacts"@,
        i == 2 ==> r.0@ == "table"@ && r.1@ == "upload_jobs"@,
        i == 3 ==> r.0@ == "index"@ && r.1@ == "upload_jobs_due"@,
        i == 4 ==> r.0@ == "trigger"@ && r.1@ == "upload_jobs_after_insert"@,
        i == 5 ==> r.0@ == "trigger"@ && r.1@ == "upload_jobs_after_status_update"@,
        i == 6 ==> r.0@ == "trigger"@ && r.1@ == "upload_jobs_identity_immutable"@,
        i == 7 ==> r.0@ == "trigger"@ && r.1@ == "upload_jobs_no_delete"@,
{
}

/// Each object of the third version is created by its own statement, the tables first.
pub proof fn law_third_schema_objects_are_created_in_order(i: usize, r: &'static str)
    requires
        call_ensures(v3_schema_sql, (i,), r),
    ensures
        i == 0 ==> r@ == V3_CREATE_METADATA@,
        i == 1 ==> r@ == V3_CREATE_PREACTIVATION_ARTIFACTS@,
        i == 2 ==> r@ == V3_CREATE_UPLOAD_JOBS@,
        i == 3 ==> r@ == V3_CREATE_DUE_INDEX@,
        i == 4 ==> r@ == V3_CREATE_INSERT_AGGREGATE_TRIGGER@,
        i == 5 ==> r@ == V3_CREATE_UPDATE_AGGREGATE_TRIGGER@,
        i == 6 ==> r@ == V3_CREATE_IMMUTABLE_IDENTITY_TRIGGER@,
        i == 7 ==> r@ == V3_CREATE_NO_DELETE_TRIGGER@,
{
}

} // verus!
