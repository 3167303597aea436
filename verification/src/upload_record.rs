//! The records of the durable upload ledger and their stored forms.

use vstd::prelude::*;

use crate::artifact;
use crate::artifact::{idempotency_key, is_generated_frame_filename};
use crate::digest;
use crate::digest::hash_bytes;
use crate::path;
use crate::path::{check_absolute, check_child};
use crate::text::{same_bytes, same_text};
use crate::unicode;

verus! {

broadcast use vstd::string::group_string_axioms;

/// Why the ledger refused an operation.
#[derive(Debug, PartialEq, Eq)]
pub enum UploadStoreError {
    MissingSchema,
    UnsupportedSchema { found: i64, supported: i64 },
    InvalidSchema,
    CaptureRootMismatch,
    InvalidDestination,
    DestinationMismatch,
    AuthorizationIdentityMismatch,
    Configuration { name: &'static str, actual: String },
    ArtifactPathNotAbsolute(String),
    ArtifactPathNotUtf8(String),
    ArtifactOutsideCaptureRoot(String),
    ArtifactIsSymlink(String),
    ArtifactNotRegularFile(String),
    InvalidArtifactFilename(String),
    CaptureDirectoryNotAbsolute(String),
    CaptureDirectoryNotUtf8(String),
    TimestampOutOfRange(u64),
    ArtifactSizeOutOfRange(u64),
    CorruptInteger { column: &'static str, value: i64 },
    CorruptState(String),
    CorruptArtifactIdentity(UploadJobId),
    InvalidTransition(UploadJobId),
    AttemptCountOverflow(UploadJobId),
    ReconcileCountOverflow,
    /// An operation on this path failed for this reason.
    Io { operation: &'static str, path: String, source: String },
    /// A row would break a constraint of the stored tables.
    ConstraintViolation,
}

/// Identifies one job of a ledger.
#[derive(Clone, Copy, Debug, PartialEq, Eq, Structural)]
pub struct UploadJobId(pub i64);

/// One-way identity bound to a durable upload ledger.
///
/// Bearer identity is derived from the actual token, never its environment
/// variable name. Consequently, renaming the variable is safe while rotation
/// is permitted only after all queued work reaches a terminal state and no
/// capture awaits reconciliation. A token change with pending, in-progress, or
/// retrying work, or with a capture that has no job yet, fails ledger reopen.
#[derive(Clone, Copy, Debug, PartialEq, Eq)]
pub struct UploadAuthorizationFingerprint(pub [u8; 32]);

/// The bytes whose digest identifies an authorization.
pub open spec fn authorization_preimage(kind: Seq<u8>, identity: Seq<u8>) -> Seq<u8> {
    vstd::utf8::encode_utf8("autopiercam-upload-authorization-identity-v1\0"@) + kind + seq![0u8]
        + identity
}

impl UploadAuthorizationFingerprint {
    pub fn anonymous() -> (r: Self)
        ensures
            r.0@ == digest::sha256_digest(
                authorization_preimage(
                    vstd::utf8::encode_utf8("anonymous"@),
                    Seq::empty(),
                ),
            ),
    {
        let nobody: Vec<u8> = Vec::new();
        Self::derive("anonymous".as_bytes(), nobody.as_slice())
    }

    pub fn for_bearer_token(token: &str) -> (r: Self)
        ensures
            r.0@ == digest::sha256_digest(
                authorization_preimage(
                    vstd::utf8::encode_utf8("bearer"@),
                    vstd::utf8::encode_utf8(token@),
                ),
            ),
    {
        Self::derive("bearer".as_bytes(), token.as_bytes())
    }

    fn derive(kind: &[u8], identity: &[u8]) -> (r: Self)
        ensures
            r.0@ == digest::sha256_digest(authorization_preimage(kind@, identity@)),
    {
        let mut preimage: Vec<u8> = Vec::new();
        let domain = "autopiercam-upload-authorization-identity-v1\0";
        preimage.extend_from_slice(domain.as_bytes());
        preimage.extend_from_slice(kind);
        preimage.push(0);
        preimage.extend_from_slice(identity);
        assert(preimage@ =~= authorization_preimage(kind@, identity@));
        Self(hash_bytes(preimage.as_slice()))
    }

    pub fn same(&self, other: &Self) -> (r: bool)
        ensures
            r == (self.0@ == other.0@),
    {
        same_bytes(self.0.as_slice(), other.0.as_slice())
    }
}

#[derive(Clone, Copy, Debug, PartialEq, Eq, Structural)]
pub enum UploadState {
    Pending,
    InProgress,
    Retrying,
    Completed,
    PermanentlyFailed,
}

impl UploadState {
    /// The name under which a state is stored.
    pub open spec fn name(self) -> Seq<char> {
        match self {
            UploadState::Pending => "pending"@,
            UploadState::InProgress => "in_progress"@,
            UploadState::Retrying => "retrying"@,
            UploadState::Completed => "completed"@,
            UploadState::PermanentlyFailed => "permanently_failed"@,
        }
    }

    /// Whether the job still waits to be attempted.
    pub open spec fn waits(self) -> bool {
        self == UploadState::Pending || self == UploadState::Retrying
    }

    /// Whether the job has reached neither success nor permanent failure.
    pub open spec fn live(self) -> bool {
        self.waits() || self == UploadState::InProgress
    }

    pub fn from_database(value: String) -> (r: Result<Self, UploadStoreError>)
        ensures
            match r {
                Ok(state) => state.name() == value@,
                Err(error) => error == UploadStoreError::CorruptState(value) && names_no_state(
                    value@,
                ),
            },
    {
        if same_text(value.as_str(), "pending") {
            Ok(UploadState::Pending)
        } else if same_text(value.as_str(), "in_progress") {
            Ok(UploadState::InProgress)
        } else if same_text(value.as_str(), "retrying") {
            Ok(UploadState::Retrying)
        } else if same_text(value.as_str(), "completed") {
            Ok(UploadState::Completed)
        } else if same_text(value.as_str(), "permanently_failed") {
            Ok(UploadState::PermanentlyFailed)
        } else {
            Err(UploadStoreError::CorruptState(value))
        }
    }

    pub fn database_name(self) -> (r: &'static str)
        ensures
            r@ == self.name(),
    {
        match self {
            UploadState::Pending => "pending",
            UploadState::InProgress => "in_progress",
            UploadState::Retrying => "retrying",
            UploadState::Completed => "completed",
            UploadState::PermanentlyFailed => "permanently_failed",
        }
    }
}

/// The stored names of the states are told apart by the ledger.
pub proof fn law_state_names_differ(a: UploadState, b: UploadState)
    ensures
        a.name() == b.name() ==> a == b,
{
    reveal_strlit("pending");
    reveal_strlit("in_progress");
    reveal_strlit("retrying");
    reveal_strlit("completed");
    reveal_strlit("permanently_failed");
    assert("pending"@[0] == 'p' && "permanently_failed"@.len() == 18 && "pending"@.len() == 7);
    assert("in_progress"@[0] == 'i' && "retrying"@[0] == 'r' && "completed"@[0] == 'c');
    assert("permanently_failed"@[0] == 'p');
}

/// Whether a text is the name of no state.
pub open spec fn names_no_state(text: Seq<char>) -> bool {
    forall|state: UploadState| (#[trigger] state.name()) != text
}

pub open spec fn fits_i64(value: u64) -> bool {
    value <= i64::MAX
}

pub fn check_timestamp(value: u64) -> (r: Result<(), UploadStoreError>)
    ensures
        r == (if fits_i64(value) {
            Ok::<(), UploadStoreError>(())
        } else {
            Err::<(), UploadStoreError>(UploadStoreError::TimestampOutOfRange(value))
        }),
{
    if value <= i64::MAX as u64 {
        Ok(())
    } else {
        Err(UploadStoreError::TimestampOutOfRange(value))
    }
}

/// Convert a time to a stored integer.
pub fn unix_ms_to_database(value: u64) -> (r: Result<i64, UploadStoreError>)
    ensures
        r == (if fits_i64(value) {
            Ok::<i64, UploadStoreError>(value as i64)
        } else {
            Err::<i64, UploadStoreError>(UploadStoreError::TimestampOutOfRange(value))
        }),
{
    if value <= i64::MAX as u64 {
        Ok(value as i64)
    } else {
        Err(UploadStoreError::TimestampOutOfRange(value))
    }
}

/// The time at which a ledger is opened, by a clock that shows so many
/// milliseconds since the Unix epoch. A time before the epoch counts as the epoch.
pub fn current_unix_time_ms(since_epoch_ms: Option<u128>) -> (r: Result<u64, UploadStoreError>)
    ensures
        r == (match since_epoch_ms {
            None => Ok::<u64, UploadStoreError>(0),
            Some(millis) => if millis <= i64::MAX {
                Ok::<u64, UploadStoreError>(millis as u64)
            } else if millis <= u64::MAX {
                Err::<u64, UploadStoreError>(UploadStoreError::TimestampOutOfRange(millis as u64))
            } else {
                Err::<u64, UploadStoreError>(UploadStoreError::TimestampOutOfRange(u64::MAX))
            },
        }),
{
    let millis: u128 = match since_epoch_ms {
        Some(millis) => millis,
        None => 0,
    };
    if millis > u64::MAX as u128 {
        return Err(UploadStoreError::TimestampOutOfRange(u64::MAX));
    }
    check_timestamp(millis as u64)?;
    Ok(millis as u64)
}

/// Read a job number from a stored integer.
pub fn job_id_from_database(value: i64) -> (r: Result<UploadJobId, UploadStoreError>)
    ensures
        match r {
            Ok(id) => value > 0 && id == UploadJobId(value),
            Err(error) => value <= 0 && error == (UploadStoreError::CorruptInteger {
                column: "id",
                value,
            }),
        },
{
    if value > 0 {
        Ok(UploadJobId(value))
    } else {
        Err(UploadStoreError::CorruptInteger { column: "id", value })
    }
}

/// Read a non-negative integer from storage.
pub fn database_u64(column: &'static str, value: i64) -> (r: Result<u64, UploadStoreError>)
    ensures
        r == (if value >= 0 {
            Ok::<u64, UploadStoreError>(value as u64)
        } else {
            Err::<u64, UploadStoreError>((UploadStoreError::CorruptInteger { column, value }))
        }),
{
    if value >= 0 {
        Ok(value as u64)
    } else {
        Err(UploadStoreError::CorruptInteger { column, value })
    }
}

pub fn optional_database_u64(column: &'static str, value: Option<i64>) -> (r: Result<
    Option<u64>,
    UploadStoreError,
>)
    ensures
        r == (match value {
            Some(found) if found >= 0 => Ok::<Option<u64>, UploadStoreError>(Some(found as u64)),
            Some(found) => Err::<Option<u64>, UploadStoreError>(
                (UploadStoreError::CorruptInteger { column, value: found }),
            ),
            None => Ok::<Option<u64>, UploadStoreError>(None),
        }),
{
    match value {
        Some(found) => match database_u64(column, found) {
            Ok(number) => Ok(Some(number)),
            Err(error) => Err(error),
        },
        None => Ok(None),
    }
}

pub fn optional_database_u16(column: &'static str, value: Option<i64>) -> (r: Result<
    Option<u16>,
    UploadStoreError,
>)
    ensures
        r == (match value {
            Some(found) if 0 <= found <= u16::MAX => Ok::<Option<u16>, UploadStoreError>(
                Some(found as u16),
            ),
            Some(found) => Err::<Option<u16>, UploadStoreError>(
                (UploadStoreError::CorruptInteger { column, value: found }),
            ),
            None => Ok::<Option<u16>, UploadStoreError>(None),
        }),
{
    match value {
        Some(found) => {
            if found >= 0 && found <= u16::MAX as i64 {
                Ok(Some(found as u16))
            } else {
                Err(UploadStoreError::CorruptInteger { column, value: found })
            }
        },
        None => Ok(None),
    }
}

/// Read a digest from storage: exactly thirty-two bytes.
pub fn sha256_from_database(job_id: UploadJobId, value: Vec<u8>) -> (r: Result<
    [u8; 32],
    UploadStoreError,
>)
    ensures
        match r {
            Ok(digest) => digest@ == value@,
            Err(error) => value@.len() != 32 && error == UploadStoreError::CorruptArtifactIdentity(
                job_id,
            ),
        },
{
    if value.len() != 32 {
        return Err(UploadStoreError::CorruptArtifactIdentity(job_id));
    }
    let mut digest: [u8; 32] = [0u8; 32];
    let mut i: usize = 0;
    while i < 32
        invariant
            i <= 32,
            value@.len() == 32,
            forall|k: int| 0 <= k < i ==> digest@[k] == value@[k],
        decreases 32 - i,
    {
        digest[i] = value[i];
        i = i + 1;
    }
    assert(digest@ =~= value@);
    Ok(digest)
}

/// Whether nothing is left of a destination without the whitespace around it, or a
/// control character is.
pub open spec fn is_invalid_destination(destination: Seq<char>) -> bool {
    unicode::trim(destination).len() == 0 || exists|i: int|
        0 <= i < unicode::trim(destination).len() && unicode::is_control(
            #[trigger] unicode::trim(destination)[i],
        )
}

/// Remove surrounding whitespace from an upload destination, which must not be
/// empty or hold control characters.
pub fn normalize_destination(destination: &str) -> (r: Result<String, UploadStoreError>)
    ensures
        match r {
            Ok(normalized) => {
                &&& normalized@ == unicode::trim(destination@)
                &&& normalized@.len() > 0
                &&& forall|i: int|
                    0 <= i < normalized@.len() ==> !unicode::is_control(#[trigger] normalized@[i])
            },
            Err(error) => {
                &&& error == UploadStoreError::InvalidDestination
                &&& unicode::trim(destination@).len() == 0 || exists|i: int|
                    0 <= i < unicode::trim(destination@).len() && unicode::is_control(
                        #[trigger] unicode::trim(destination@)[i],
                    )
            },
        },
        r is Err <==> is_invalid_destination(destination@),
{
    let normalized = unicode::trim_text(destination);
    if normalized.len() == 0 {
        return Err(UploadStoreError::InvalidDestination);
    }
    let mut i: usize = 0;
    while i < normalized.len()
        invariant
            i <= normalized.len(),
            normalized@ == unicode::trim(destination@),
            forall|k: int| 0 <= k < i ==> !unicode::is_control(#[trigger] normalized@[k]),
        decreases normalized.len() - i,
    {
        if unicode::check_control(normalized[i]) {
            assert(unicode::is_control(unicode::trim(destination@)[i as int]));
            return Err(UploadStoreError::InvalidDestination);
        }
        i = i + 1;
    }
    Ok(crate::text::string_of(normalized.as_slice()))
}

/// Different bearer tokens, and the absence of one, are identified by the
/// digests of different bytes.
pub proof fn law_authorizations_are_told_apart(a: Seq<char>, b: Seq<char>)
    ensures
        authorization_preimage(
            vstd::utf8::encode_utf8("bearer"@),
            vstd::utf8::encode_utf8(a),
        ) == authorization_preimage(
            vstd::utf8::encode_utf8("bearer"@),
            vstd::utf8::encode_utf8(b),
        ) ==> a == b,
        authorization_preimage(vstd::utf8::encode_utf8("anonymous"@), Seq::empty())
            != authorization_preimage(
            vstd::utf8::encode_utf8("bearer"@),
            vstd::utf8::encode_utf8(a),
        ),
{
    let domain = vstd::utf8::encode_utf8("autopiercam-upload-authorization-identity-v1\0"@);
    let bearer = vstd::utf8::encode_utf8("bearer"@);
    let anonymous = vstd::utf8::encode_utf8("anonymous"@);
    let ab = vstd::utf8::encode_utf8(a);
    let bb = vstd::utf8::encode_utf8(b);
    let pa = authorization_preimage(bearer, ab);
    let pb = authorization_preimage(bearer, bb);
    if pa == pb {
        let start = (domain.len() + bearer.len() + 1) as int;
        assert(pa.skip(start) =~= ab);
        assert(pb.skip(start) =~= bb);
        vstd::utf8::encode_utf8_decode_utf8(a);
        vstd::utf8::encode_utf8_decode_utf8(b);
    }
    reveal_strlit("bearer");
    reveal_strlit("anonymous");
    vstd::utf8::is_ascii_chars_encode_utf8("bearer"@);
    vstd::utf8::is_ascii_chars_encode_utf8("anonymous"@);
    assert("bearer"@[0] == 'b' && "anonymous"@[0] == 'a');
    assert(bearer[0] == 98u8);
    assert(anonymous[0] == 97u8);
    let nobody = authorization_preimage(anonymous, Seq::empty());
    assert(nobody[domain.len() as int] == 97u8);
    assert(pa[domain.len() as int] == 98u8);
}

/// One job of the ledger.
#[derive(Debug, PartialEq, Eq)]
pub struct UploadJobRecord {
    pub job_id: UploadJobId,
    pub artifact_path: String,
    pub filename: String,
    pub idempotency_key: String,
    pub file_size: u64,
    pub sha256: [u8; 32],
    pub state: UploadState,
    pub attempt_count: u64,
    pub next_attempt_at_unix_ms: Option<u64>,
    pub last_http_status: Option<u16>,
    pub last_error: Option<String>,
    pub created_at_unix_ms: u64,
    pub updated_at_unix_ms: u64,
    pub completed_at_unix_ms: Option<u64>,
    pub last_failure_at_unix_ms: Option<u64>,
}

pub fn copy_text(text: &Option<String>) -> (r: Option<String>)
    ensures
        r == *text,
{
    match text {
        Some(text) => Some(text.clone()),
        None => None,
    }
}

impl Clone for UploadJobRecord {
    fn clone(&self) -> (r: Self)
        ensures
            r == *self,
    {
        UploadJobRecord {
            job_id: self.job_id,
            artifact_path: self.artifact_path.clone(),
            filename: self.filename.clone(),
            idempotency_key: self.idempotency_key.clone(),
            file_size: self.file_size,
            sha256: self.sha256,
            state: self.state,
            attempt_count: self.attempt_count,
            next_attempt_at_unix_ms: self.next_attempt_at_unix_ms,
            last_http_status: self.last_http_status,
            last_error: copy_text(&self.last_error),
            created_at_unix_ms: self.created_at_unix_ms,
            updated_at_unix_ms: self.updated_at_unix_ms,
            completed_at_unix_ms: self.completed_at_unix_ms,
            last_failure_at_unix_ms: self.last_failure_at_unix_ms,
        }
    }
}

pub open spec fn optional_fits(value: Option<u64>) -> bool {
    value matches Some(number) ==> fits_i64(number)
}

pub open spec fn status_ok(status: Option<u16>) -> bool {
    status matches Some(code) ==> 100 <= code <= 599
}

impl UploadJobRecord {
    /// What a stored job always satisfies.
    pub open spec fn wf(self) -> bool {
        &&& self.state == UploadState::Retrying <==> self.next_attempt_at_unix_ms is Some
        &&& self.state == UploadState::Completed <==> self.completed_at_unix_ms is Some
        &&& status_ok(self.last_http_status)
        &&& fits_i64(self.file_size)
        &&& fits_i64(self.attempt_count)
        &&& fits_i64(self.created_at_unix_ms)
        &&& fits_i64(self.updated_at_unix_ms)
        &&& optional_fits(self.next_attempt_at_unix_ms)
        &&& optional_fits(self.completed_at_unix_ms)
        &&& optional_fits(self.last_failure_at_unix_ms)
    }

    /// When a waiting job may be attempted.
    pub open spec fn due(self) -> u64 {
        match self.next_attempt_at_unix_ms {
            Some(at) => at,
            None => self.created_at_unix_ms,
        }
    }

    pub open spec fn claimable_at(self, now: u64) -> bool {
        self.state.waits() && self.due() <= now
    }

    /// Whether the stored identity is consistent: the path names the file directly
    /// inside the capture directory, the name is a generated one, and the key is
    /// derived from name and digest.
    pub open spec fn identity_ok(self, capture_root: Seq<char>) -> bool {
        &&& path::is_absolute(self.artifact_path@)
        &&& path::is_child(self.artifact_path@, capture_root, self.filename@)
        &&& exists|s: nat, m: nat, q: nat| artifact::names_frame(self.filename@, s, m, q)
        &&& self.idempotency_key@ == artifact::upload_key(self.filename@, self.sha256@)
    }

    /// Whether another record is the same artifact, recorded at the same time.
    pub open spec fn same_identity(self, other: Self) -> bool {
        &&& self.job_id == other.job_id
        &&& self.artifact_path == other.artifact_path
        &&& self.filename == other.filename
        &&& self.idempotency_key == other.idempotency_key
        &&& self.file_size == other.file_size
        &&& self.sha256 == other.sha256
        &&& self.created_at_unix_ms == other.created_at_unix_ms
    }

    pub fn due_at(&self) -> (r: u64)
        ensures
            r == self.due(),
    {
        match self.next_attempt_at_unix_ms {
            Some(at) => at,
            None => self.created_at_unix_ms,
        }
    }

    pub fn is_waiting(&self) -> (r: bool)
        ensures
            r == self.state.waits(),
    {
        self.state == UploadState::Pending || self.state == UploadState::Retrying
    }
}

/// Check that a stored identity is consistent. A path directly inside the capture
/// directory is absolute, because that directory's path is.
pub fn validate_stored_identity(
    job_id: UploadJobId,
    artifact_path: &str,
    filename: &str,
    stored_idempotency_key: &str,
    sha256: &[u8; 32],
    capture_root: &str,
) -> (r: Result<(), UploadStoreError>)
    ensures
        r == (if path::is_absolute(artifact_path@) && path::is_child(
            artifact_path@,
            capture_root@,
            filename@,
        ) && (exists|
            s: nat,
            m: nat,
            q: nat,
        | artifact::names_frame(filename@, s, m, q)) && stored_idempotency_key@
            == artifact::upload_key(filename@, sha256@) {
            Ok::<(), UploadStoreError>(())
        } else {
            Err::<(), UploadStoreError>(UploadStoreError::CorruptArtifactIdentity(job_id))
        }),
        r is Ok <==> path::is_absolute(artifact_path@) && path::is_child(
            artifact_path@,
            capture_root@,
            filename@,
        ) && artifact::is_frame_name(filename@) && stored_idempotency_key@ == artifact::upload_key(
            filename@,
            sha256@,
        ),
{
    let expected = idempotency_key(filename, sha256);
    if check_absolute(artifact_path) && check_child(artifact_path, capture_root, filename)
        && is_generated_frame_filename(filename) && same_text(
        stored_idempotency_key,
        expected.as_str(),
    ) {
        Ok(())
    } else {
        Err(UploadStoreError::CorruptArtifactIdentity(job_id))
    }
}

/// How many jobs are in each state.
#[derive(Clone, Copy, Debug, PartialEq, Eq, Structural)]
pub struct UploadStateCounts {
    pub pending: u64,
    pub in_progress: u64,
    pub retrying: u64,
    pub completed: u64,
    pub permanently_failed: u64,
}

impl UploadStateCounts {
    pub open spec fn of(self, state: UploadState) -> u64 {
        match state {
            UploadState::Pending => self.pending,
            UploadState::InProgress => self.in_progress,
            UploadState::Retrying => self.retrying,
            UploadState::Completed => self.completed,
            UploadState::PermanentlyFailed => self.permanently_failed,
        }
    }

    /// Whether every count fits in storage.
    pub open spec fn fit(self) -> bool {
        &&& fits_i64(self.pending)
        &&& fits_i64(self.in_progress)
        &&& fits_i64(self.retrying)
        &&& fits_i64(self.completed)
        &&& fits_i64(self.permanently_failed)
    }

    /// Whether one job can be counted in another state: no count falls below zero
    /// or outgrows storage.
    pub open spec fn can_move(self, from: UploadState, to: UploadState) -> bool {
        from == to || self.of(from) >= 1 && self.of(to) < i64::MAX
    }

    /// Whether these counts are others with one job counted in another state.
    pub open spec fn moved(self, after: Self, from: UploadState, to: UploadState) -> bool {
        forall|s: UploadState|
            (#[trigger] after.of(s)) == self.of(s) - (if s == from {
                1int
            } else {
                0int
            }) + (if s == to {
                1int
            } else {
                0int
            })
    }

    pub fn count(self, state: UploadState) -> (r: u64)
        ensures
            r == self.of(state),
    {
        match state {
            UploadState::Pending => self.pending,
            UploadState::InProgress => self.in_progress,
            UploadState::Retrying => self.retrying,
            UploadState::Completed => self.completed,
            UploadState::PermanentlyFailed => self.permanently_failed,
        }
    }

    pub fn check_move(self, from: UploadState, to: UploadState) -> (r: bool)
        ensures
            r == self.can_move(from, to),
    {
        from == to || self.count(from) >= 1 && self.count(to) < i64::MAX as u64
    }

    pub fn total(self) -> (r: u64)
        ensures
            r == crate::number::saturated_u64(
                self.pending + self.in_progress + self.retrying + self.completed
                    + self.permanently_failed,
            ),
    {
        self.pending.saturating_add(self.in_progress).saturating_add(self.retrying).saturating_add(
            self.completed,
        ).saturating_add(self.permanently_failed)
    }
}

/// The number of jobs in a state.
pub open spec fn count_in(jobs: Seq<UploadJobRecord>, state: UploadState) -> nat
    decreases jobs.len(),
{
    if jobs.len() == 0 {
        0
    } else {
        count_in(jobs.drop_last(), state) + if jobs.last().state == state {
            1nat
        } else {
            0nat
        }
    }
}

pub open spec fn counts_match(counts: UploadStateCounts, jobs: Seq<UploadJobRecord>) -> bool {
    &&& counts.pending == count_in(jobs, UploadState::Pending)
    &&& counts.in_progress == count_in(jobs, UploadState::InProgress)
    &&& counts.retrying == count_in(jobs, UploadState::Retrying)
    &&& counts.completed == count_in(jobs, UploadState::Completed)
    &&& counts.permanently_failed == count_in(jobs, UploadState::PermanentlyFailed)
}

pub proof fn lemma_count_bounds(jobs: Seq<UploadJobRecord>)
    ensures
        count_in(jobs, UploadState::Pending) + count_in(jobs, UploadState::InProgress) + count_in(
            jobs,
            UploadState::Retrying,
        ) + count_in(jobs, UploadState::Completed) + count_in(jobs, UploadState::PermanentlyFailed)
            == jobs.len(),
    decreases jobs.len(),
{
    if jobs.len() > 0 {
        lemma_count_bounds(jobs.drop_last());
    }
}

pub proof fn lemma_count_update(
    jobs: Seq<UploadJobRecord>,
    i: int,
    row: UploadJobRecord,
    state: UploadState,
)
    requires
        0 <= i < jobs.len(),
    ensures
        count_in(jobs.update(i, row), state) == count_in(jobs, state) - (if jobs[i].state == state {
            1int
        } else {
            0int
        }) + (if row.state == state {
            1int
        } else {
            0int
        }),
        jobs[i].state == state ==> count_in(jobs, state) >= 1,
    decreases jobs.len(),
{
    if i == jobs.len() - 1 {
        assert(jobs.update(i, row).drop_last() =~= jobs.drop_last());
    } else {
        assert(jobs.update(i, row).drop_last() =~= jobs.drop_last().update(i, row));
        lemma_count_update(jobs.drop_last(), i, row, state);
    }
}

/// Counts that match some jobs match them still once a job has changed its state.
pub proof fn lemma_counts_moved(
    jobs: Seq<UploadJobRecord>,
    i: int,
    row: UploadJobRecord,
    before: UploadStateCounts,
    after: UploadStateCounts,
)
    requires
        0 <= i < jobs.len() <= i64::MAX,
        counts_match(before, jobs),
        before.moved(after, jobs[i].state, row.state),
    ensures
        counts_match(after, jobs.update(i, row)),
{
    lemma_count_update(jobs, i, row, UploadState::Pending);
    lemma_count_update(jobs, i, row, UploadState::InProgress);
    lemma_count_update(jobs, i, row, UploadState::Retrying);
    lemma_count_update(jobs, i, row, UploadState::Completed);
    lemma_count_update(jobs, i, row, UploadState::PermanentlyFailed);
    assert(after.of(UploadState::Pending) == after.pending);
    assert(after.of(UploadState::InProgress) == after.in_progress);
    assert(after.of(UploadState::Retrying) == after.retrying);
    assert(after.of(UploadState::Completed) == after.completed);
    assert(after.of(UploadState::PermanentlyFailed) == after.permanently_failed);
}

/// Counts that match some jobs let every one of them change its state.
pub proof fn lemma_matching_counts_move(
    jobs: Seq<UploadJobRecord>,
    i: int,
    counts: UploadStateCounts,
    to: UploadState,
)
    requires
        0 <= i < jobs.len() <= i64::MAX,
        counts_match(counts, jobs),
    ensures
        counts.can_move(jobs[i].state, to),
{
    let from = jobs[i].state;
    lemma_count_bounds(jobs);
    lemma_count_update(jobs, i, jobs[i], from);
    lemma_count_update(jobs, i, jobs[i], to);
    assert(jobs.update(i, jobs[i]) =~= jobs);
    assert(counts.of(from) == count_in(jobs, from));
    assert(counts.of(to) == count_in(jobs, to));
}

pub proof fn lemma_count_push(jobs: Seq<UploadJobRecord>, row: UploadJobRecord, state: UploadState)
    ensures
        count_in(jobs.push(row), state) == count_in(jobs, state) + (if row.state == state {
            1int
        } else {
            0int
        }),
{
    assert(jobs.push(row).drop_last() =~= jobs);
}

/// A state is stored under one of five names and read back from it; any other name is
/// refused.
pub proof fn law_state_is_stored_by_name(
    state: UploadState,
    name: &'static str,
    value: String,
    r: Result<UploadState, UploadStoreError>,
)
    requires
        call_ensures(UploadState::database_name, (state,), name),
        call_ensures(UploadState::from_database, (value,), r),
    ensures
        state is Pending ==> name@ == "pending"@,
        state is InProgress ==> name@ == "in_progress"@,
        state is Retrying ==> name@ == "retrying"@,
        state is Completed ==> name@ == "completed"@,
        state is PermanentlyFailed ==> name@ == "permanently_failed"@,
        value@ == name@ ==> r == Ok::<UploadState, UploadStoreError>(state),
        r is Ok <==> value@ == "pending"@ || value@ == "in_progress"@ || value@ == "retrying"@
            || value@ == "completed"@ || value@ == "permanently_failed"@,
        r matches Err(error) ==> error == UploadStoreError::CorruptState(value),
{
    lemma_state_names_differ();
    if r is Err {
        assert(names_no_state(value@));
        assert(UploadState::Pending.name() != value@);
        assert(UploadState::InProgress.name() != value@);
        assert(UploadState::Retrying.name() != value@);
        assert(UploadState::Completed.name() != value@);
        assert(UploadState::PermanentlyFailed.name() != value@);
        assert(state.name() != value@);
    }
}

proof fn lemma_state_names_differ()
    ensures
        forall|a: UploadState, b: UploadState|
            (#[trigger] a.name()) == (#[trigger] b.name()) ==> a == b,
{
    reveal_strlit("pending");
    reveal_strlit("in_progress");
    reveal_strlit("retrying");
    reveal_strlit("completed");
    reveal_strlit("permanently_failed");
    assert forall|a: UploadState, b: UploadState|
        (#[trigger] a.name()) == (#[trigger] b.name()) implies a == b by {
        assert(a.name().len() == b.name().len());
        assert(a.name()[0] == b.name()[0]);
    }
}

/// Whether a stored number is refused by its column.
pub open spec fn is_refused_by(error: UploadStoreError, name: &'static str, number: i64) -> bool {
    error matches UploadStoreError::CorruptInteger { column, value } && column == name && value
        == number
}

/// Times and sizes are stored where they fit, and read back where they are not negative.
pub proof fn law_stored_numbers_are_not_negative(
    millis: u64,
    stored: Result<i64, UploadStoreError>,
    checked: Result<(), UploadStoreError>,
    column: &'static str,
    value: i64,
    read: Result<u64, UploadStoreError>,
    id: Result<UploadJobId, UploadStoreError>,
)
    requires
        call_ensures(unix_ms_to_database, (millis,), stored),
        call_ensures(check_timestamp, (millis,), checked),
        call_ensures(database_u64, (column, value), read),
        call_ensures(job_id_from_database, (value,), id),
    ensures
        stored is Ok <==> millis <= 0x7fff_ffff_ffff_ffff,
        checked is Ok <==> stored is Ok,
        stored matches Ok(number) ==> number == millis,
        stored matches Err(error) ==> error == UploadStoreError::TimestampOutOfRange(millis),
        checked matches Err(error) ==> error == UploadStoreError::TimestampOutOfRange(millis),
        read is Ok <==> value >= 0,
        read matches Ok(number) ==> number == value,
        read matches Err(error) ==> is_refused_by(error, column, value),
        id is Ok <==> value > 0,
        id matches Ok(job_id) ==> job_id.0 == value,
        id matches Err(error) ==> is_refused_by(error, "id", value),
{
}

/// What may be absent stays absent; what is there is read like any other number.
pub proof fn law_absent_numbers_stay_absent(
    column: &'static str,
    value: Option<i64>,
    time: Result<Option<u64>, UploadStoreError>,
    status: Result<Option<u16>, UploadStoreError>,
)
    requires
        call_ensures(optional_database_u64, (column, value), time),
        call_ensures(optional_database_u16, (column, value), status),
    ensures
        value is None ==> time == Ok::<Option<u64>, UploadStoreError>(None) && status == Ok::<
            Option<u16>,
            UploadStoreError,
        >(None),
        value matches Some(number) ==> (time is Ok <==> number >= 0),
        value matches Some(number) ==> (time is Ok ==> (time->Ok_0 matches Some(read) && read
            == number)),
        value matches Some(number) ==> (status is Ok <==> 0 <= number <= 65_535),
        value matches Some(number) ==> (status is Ok ==> (status->Ok_0 matches Some(read) && read
            == number)),
        value matches Some(number) ==> (time matches Err(error) ==> is_refused_by(
            error,
            column,
            number,
        )),
        value matches Some(number) ==> (status matches Err(error) ==> is_refused_by(
            error,
            column,
            number,
        )),
{
}

/// A clock before the epoch shows the epoch; one that does not fit in storage is refused.
pub proof fn law_ledger_clock_starts_at_the_epoch(
    since_epoch_ms: Option<u128>,
    r: Result<u64, UploadStoreError>,
)
    requires
        call_ensures(current_unix_time_ms, (since_epoch_ms,), r),
    ensures
        since_epoch_ms is None ==> r == Ok::<u64, UploadStoreError>(0),
        since_epoch_ms matches Some(millis) ==> (r is Ok <==> millis <= 0x7fff_ffff_ffff_ffff),
        since_epoch_ms matches Some(millis) ==> (r matches Ok(now) ==> now == millis),
        r matches Err(error) ==> error is TimestampOutOfRange,
{
}

/// A digest is thirty-two bytes, as they are.
pub proof fn law_digest_is_its_bytes(
    job_id: UploadJobId,
    value: Vec<u8>,
    r: Result<[u8; 32], UploadStoreError>,
)
    requires
        call_ensures(sha256_from_database, (job_id, value), r),
    ensures
        r is Ok <==> value@.len() == 32,
        r matches Ok(digest) ==> digest@ == value@,
        r matches Err(error) ==> error == UploadStoreError::CorruptArtifactIdentity(job_id),
{
}

/// A token is identified by the digest of a text that begins with the service and the
/// kind of authorization, and ends with the token; no token by the kind alone. Two are
/// the same where their digests are.
pub proof fn law_authorization_is_known_by_its_digest(
    token: &str,
    bearer: UploadAuthorizationFingerprint,
    anonymous: UploadAuthorizationFingerprint,
    same: bool,
)
    requires
        call_ensures(UploadAuthorizationFingerprint::for_bearer_token, (token,), bearer),
        call_ensures(UploadAuthorizationFingerprint::anonymous, (), anonymous),
        call_ensures(UploadAuthorizationFingerprint::same, (&bearer, &anonymous), same),
    ensures
        bearer.0@ == digest::sha256_digest(
            vstd::utf8::encode_utf8("autopiercam-upload-authorization-identity-v1\0"@)
                + vstd::utf8::encode_utf8("bearer"@) + seq![0u8] + vstd::utf8::encode_utf8(token@),
        ),
        anonymous.0@ == digest::sha256_digest(
            vstd::utf8::encode_utf8("autopiercam-upload-authorization-identity-v1\0"@)
                + vstd::utf8::encode_utf8("anonymous"@) + seq![0u8],
        ),
        same <==> forall|i: int| 0 <= i < 32 ==> #[trigger] bearer.0@[i] == anonymous.0@[i],
{
    assert(authorization_preimage(vstd::utf8::encode_utf8("anonymous"@), Seq::empty())
        =~= vstd::utf8::encode_utf8("autopiercam-upload-authorization-identity-v1\0"@)
        + vstd::utf8::encode_utf8("anonymous"@) + seq![0u8]);
    if forall|i: int| 0 <= i < 32 ==> #[trigger] bearer.0@[i] == anonymous.0@[i] {
        assert(bearer.0@ =~= anonymous.0@);
    }
}

/// A destination is accepted without the whitespace around it where something is left
/// and none of it is a control character.
pub proof fn law_destination_is_visible_text(
    destination: &str,
    trimmed: Vec<char>,
    r: Result<String, UploadStoreError>,
)
    requires
        call_ensures(normalize_destination, (destination,), r),
        call_ensures(unicode::trim_text, (destination,), trimmed),
    ensures
        r matches Ok(normalized) ==> normalized@ == trimmed@ && normalized@.len() > 0,
        r matches Err(error) ==> error == UploadStoreError::InvalidDestination,
        trimmed@.len() == 0 ==> r is Err,
        r is Ok ==> !holds_control(trimmed@),
        trimmed@.len() > 0 && !holds_control(trimmed@) ==> r is Ok,
{
    let text = unicode::trim(destination@);
    assert forall|i: int| 0 <= i < text.len() implies (unicode::is_control(#[trigger] text[i]) <==> (
    text[i] as int) < 32 || 127 <= (text[i] as int) < 160) by {
        lemma_control(text[i]);
    }
    if holds_control(text) {
        let i = choose|i: int|
            0 <= i < text.len() && ((#[trigger] text[i] as int) < 32 || 127 <= (text[i] as int)
                < 160);
        assert(unicode::is_control(text[i]));
    }
    if r is Err && text.len() > 0 {
        let i = choose|i: int| 0 <= i < text.len() && unicode::is_control(#[trigger] text[i]);
        assert((text[i] as int) < 32 || 127 <= (text[i] as int) < 160);
    }
}

proof fn lemma_control(c: char)
    ensures
        unicode::is_control(c) <==> (c as int) < 32 || 127 <= (c as int) < 160,
{
}

/// Whether some character of a text is a control character.
pub open spec fn holds_control(text: Seq<char>) -> bool {
    exists|i: int|
        0 <= i < text.len() && ((#[trigger] text[i] as int) < 32 || 127 <= (text[i] as int) < 160)
}

/// A stored identity is consistent where its path is absolute and that of the name
/// directly in the capture directory, the name is a generated one, and the key is that
/// of the name and the digest.
pub proof fn law_stored_identity_is_consistent(
    job_id: UploadJobId,
    artifact_path: &str,
    filename: &str,
    stored_idempotency_key: &str,
    sha256: &[u8; 32],
    capture_root: &str,
    absolute: bool,
    child: bool,
    generated: bool,
    key: String,
    r: Result<(), UploadStoreError>,
)
    requires
        call_ensures(
            validate_stored_identity,
            (job_id, artifact_path, filename, stored_idempotency_key, sha256, capture_root),
            r,
        ),
        call_ensures(check_absolute, (artifact_path,), absolute),
        call_ensures(check_child, (artifact_path, capture_root, filename), child),
        call_ensures(is_generated_frame_filename, (filename,), generated),
        call_ensures(idempotency_key, (filename, sha256), key),
    ensures
        r is Ok <==> absolute && child && generated && stored_idempotency_key@ == key@,
        r matches Err(error) ==> error == UploadStoreError::CorruptArtifactIdentity(job_id),
{
}

/// A job waits where it is new or to be tried again, and is due when it was made or when
/// it was put off to.
pub proof fn law_job_is_due_when_it_was_put_off_to(job: &UploadJobRecord, due: u64, waiting: bool)
    requires
        call_ensures(UploadJobRecord::due_at, (job,), due),
        call_ensures(UploadJobRecord::is_waiting, (job,), waiting),
    ensures
        job.next_attempt_at_unix_ms matches Some(at) ==> due == at,
        job.next_attempt_at_unix_ms is None ==> due == job.created_at_unix_ms,
        waiting <==> job.state is Pending || job.state is Retrying,
{
}

/// Each state has a count of its own, and all of them make up the total.
pub proof fn law_counts_make_up_the_total(
    counts: UploadStateCounts,
    state: UploadState,
    r: u64,
    total: u64,
)
    requires
        call_ensures(UploadStateCounts::count, (counts, state), r),
        call_ensures(UploadStateCounts::total, (counts,), total),
    ensures
        state is Pending ==> r == counts.pending,
        state is InProgress ==> r == counts.in_progress,
        state is Retrying ==> r == counts.retrying,
        state is Completed ==> r == counts.completed,
        state is PermanentlyFailed ==> r == counts.permanently_failed,
        counts.pending + counts.in_progress + counts.retrying + counts.completed
            + counts.permanently_failed <= u64::MAX ==> total == counts.pending + counts.in_progress
            + counts.retrying + counts.completed + counts.permanently_failed,
{
}

/// A job can be counted in another state where it was counted and the other count can
/// still be stored.
pub proof fn law_job_moves_where_it_is_counted(
    counts: UploadStateCounts,
    from: UploadState,
    to: UploadState,
    r: bool,
    left: u64,
    joined: u64,
)
    requires
        call_ensures(UploadStateCounts::check_move, (counts, from, to), r),
        call_ensures(UploadStateCounts::count, (counts, from), left),
        call_ensures(UploadStateCounts::count, (counts, to), joined),
    ensures
        r <==> from == to || (left > 0 && joined < 0x7fff_ffff_ffff_ffff),
{
}

} // verus!
