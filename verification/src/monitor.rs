//! Runtime status that the tray and local clients read.

use vstd::prelude::*;

use crate::sweep::{RetentionPressure, RetentionTelemetry};
use crate::upload::UploadTelemetry;
use crate::upload_record::copy_text;

verus! {

broadcast use vstd::string::group_string_axioms;

/// What the agent is doing.
#[derive(Clone, Copy, Debug, PartialEq, Eq, Structural)]
pub enum AgentState {
    Starting,
    Idle,
    Capturing,
    Paused,
    Stopping,
    Faulted,
}

/// The camera in use.
#[derive(Debug, PartialEq, Eq)]
pub struct StatusCamera {
    pub id: i32,
    pub name: String,
}

/// How far the current exposure is.
#[derive(Clone, Copy, Debug, PartialEq, Eq, Structural)]
pub struct StatusExposure {
    pub session_generation: u64,
    pub settling: bool,
    pub exposure_us: i64,
    pub gain: i64,
    pub max_exposure_us: i64,
    pub settling_frames: u32,
    pub settling_min_frames: u32,
    pub wait_elapsed_ms: u64,
    pub frame_timeout_ms: u64,
}

/// How the durable upload queue stands.
#[derive(Debug, PartialEq, Eq)]
pub struct StatusUpload {
    pub pending: u64,
    pub active: u64,
    pub retrying: u64,
    pub completed: u64,
    pub permanently_failed: u64,
    pub last_success_unix_ms: Option<u64>,
    pub last_failure_unix_ms: Option<u64>,
    pub last_error: Option<String>,
}

/// Whether the byte limits are met.
#[derive(Clone, Copy, Debug, PartialEq, Eq, Structural)]
pub enum StoragePressure {
    Satisfied,
    CleanupNeeded,
    Blocked,
}

/// How the capture directory stands.
#[derive(Debug, PartialEq, Eq)]
pub struct StatusStorage {
    pub managed_bytes: u64,
    pub protected_bytes: u64,
    pub reclaimable_bytes: u64,
    pub free_bytes: Option<u64>,
    pub last_sweep_unix_ms: Option<u64>,
    pub last_reclaimed_files: u64,
    pub last_reclaimed_bytes: u64,
    pub pressure: StoragePressure,
    pub capture_suspended: bool,
    pub last_error: Option<String>,
}

impl Clone for StatusCamera {
    fn clone(&self) -> (r: Self)
        ensures
            r == *self,
    {
        StatusCamera { id: self.id, name: self.name.clone() }
    }
}

impl Clone for StatusUpload {
    fn clone(&self) -> (r: Self)
        ensures
            r == *self,
    {
        StatusUpload {
            pending: self.pending,
            active: self.active,
            retrying: self.retrying,
            completed: self.completed,
            permanently_failed: self.permanently_failed,
            last_success_unix_ms: self.last_success_unix_ms,
            last_failure_unix_ms: self.last_failure_unix_ms,
            last_error: copy_text(&self.last_error),
        }
    }
}

impl Clone for StatusStorage {
    fn clone(&self) -> (r: Self)
        ensures
            r == *self,
    {
        StatusStorage {
            managed_bytes: self.managed_bytes,
            protected_bytes: self.protected_bytes,
            reclaimable_bytes: self.reclaimable_bytes,
            free_bytes: self.free_bytes,
            last_sweep_unix_ms: self.last_sweep_unix_ms,
            last_reclaimed_files: self.last_reclaimed_files,
            last_reclaimed_bytes: self.last_reclaimed_bytes,
            pressure: self.pressure,
            capture_suspended: self.capture_suspended,
            last_error: copy_text(&self.last_error),
        }
    }
}

/// Everything that clients can read of the agent.
#[derive(Debug, PartialEq, Eq)]
pub struct AgentStatus {
    pub state: AgentState,
    pub camera: Option<StatusCamera>,
    pub frames_captured: u64,
    pub frames_saved: u64,
    pub last_artifact: Option<String>,
    pub last_error: Option<String>,
    pub upload: Option<StatusUpload>,
    pub storage: Option<StatusStorage>,
    pub exposure: Option<StatusExposure>,
    pub capabilities: Vec<String>,
}

impl AgentStatus {
    /// Whether two statuses hold the same.
    pub open spec fn same(self, other: AgentStatus) -> bool {
        &&& self.state == other.state
        &&& self.camera == other.camera
        &&& self.frames_captured == other.frames_captured
        &&& self.frames_saved == other.frames_saved
        &&& self.last_artifact == other.last_artifact
        &&& self.last_error == other.last_error
        &&& self.upload == other.upload
        &&& self.storage == other.storage
        &&& self.exposure == other.exposure
        &&& self.capabilities@ == other.capabilities@
    }
}

fn copy_texts(texts: &Vec<String>) -> (r: Vec<String>)
    ensures
        r@ == texts@,
{
    let mut copies: Vec<String> = Vec::new();
    let mut i: usize = 0;
    while i < texts.len()
        invariant
            i <= texts.len(),
            copies@ == texts@.take(i as int),
        decreases texts.len() - i,
    {
        copies.push(texts[i].clone());
        assert(copies@ =~= texts@.take(i + 1));
        i = i + 1;
    }
    assert(texts@.take(i as int) =~= texts@);
    copies
}

impl Clone for AgentStatus {
    fn clone(&self) -> (r: Self)
        ensures
            r.same(*self),
    {
        AgentStatus {
            state: self.state,
            camera: match &self.camera {
                Some(camera) => Some(camera.clone()),
                None => None,
            },
            frames_captured: self.frames_captured,
            frames_saved: self.frames_saved,
            last_artifact: copy_text(&self.last_artifact),
            last_error: copy_text(&self.last_error),
            upload: match &self.upload {
                Some(upload) => Some(upload.clone()),
                None => None,
            },
            storage: match &self.storage {
                Some(storage) => Some(storage.clone()),
                None => None,
            },
            exposure: self.exposure,
            capabilities: copy_texts(&self.capabilities),
        }
    }
}

/// Whether entering a state ends the exposure in progress.
pub open spec fn ends_exposure(state: AgentState) -> bool {
    state == AgentState::Idle || state == AgentState::Stopping || state == AgentState::Faulted
}

/// The status, and how often an attempt began to capture.
#[derive(Debug)]
pub struct AgentMonitor {
    pub status: AgentStatus,
    pub capturing_generation: u64,
}

impl AgentMonitor {
    /// The capturing generation once the state is entered: it changes exactly
    /// when an attempt enters the capturing state.
    pub open spec fn generation_after(self, state: AgentState) -> u64 {
        if state == AgentState::Capturing && self.status.state != AgentState::Capturing {
            if self.capturing_generation == u64::MAX {
                0
            } else {
                (self.capturing_generation + 1) as u64
            }
        } else {
            self.capturing_generation
        }
    }

    /// A starting agent with the protocol's capabilities and this program's own.
    pub fn new(protocol_capabilities: Vec<String>) -> (r: Self)
        ensures
            r.capturing_generation == 0,
            r.status.state == AgentState::Starting,
            r.status.camera is None,
            r.status.frames_captured == 0,
            r.status.frames_saved == 0,
            r.status.last_artifact is None,
            r.status.last_error is None,
            r.status.upload is None,
            r.status.storage is None,
            r.status.exposure is None,
            r.status.capabilities@.len() == protocol_capabilities@.len() + 3,
            r.status.capabilities@.take(protocol_capabilities@.len() as int)
                == protocol_capabilities@,
            r.status.capabilities@[protocol_capabilities@.len() as int]@
                == "camera.adaptive_exposure"@,
            r.status.capabilities@[protocol_capabilities@.len() as int + 1]@ == "camera.raw16"@,
            r.status.capabilities@[protocol_capabilities@.len() as int + 2]@ == "video.ffmpeg"@,
    {
        let mut capabilities = protocol_capabilities;
        capabilities.push("camera.adaptive_exposure".to_owned());
        capabilities.push("camera.raw16".to_owned());
        capabilities.push("video.ffmpeg".to_owned());
        assert(capabilities@.take(protocol_capabilities@.len() as int)
            =~= protocol_capabilities@);
        AgentMonitor {
            status: AgentStatus {
                state: AgentState::Starting,
                camera: None,
                frames_captured: 0,
                frames_saved: 0,
                last_artifact: None,
                last_error: None,
                upload: None,
                storage: None,
                exposure: None,
                capabilities,
            },
            capturing_generation: 0,
        }
    }

    pub fn snapshot(&self) -> (r: AgentStatus)
        ensures
            r.same(self.status),
    {
        self.status.clone()
    }

    /// Monotonically changes whenever an attempt enters the capturing state.
    /// Supervisors use this handshake so that a short-lived successful connection
    /// is not missed between status polls.
    pub fn capturing_generation(&self) -> (r: u64)
        ensures
            r == self.capturing_generation,
    {
        self.capturing_generation
    }

    /// Publish a host-level startup or transport failure before camera setup.
    pub fn report_fault(&mut self, message: String)
        ensures
            *final(self) == (AgentMonitor {
                status: AgentStatus {
                    state: AgentState::Faulted,
                    exposure: None,
                    last_error: Some(message),
                    ..old(self).status
                },
                ..*old(self)
            }),
    {
        self.status.state = AgentState::Faulted;
        self.status.exposure = None;
        self.status.last_error = Some(message);
    }

    pub fn set_state(&mut self, state: AgentState)
        ensures
            *final(self) == (AgentMonitor {
                status: AgentStatus {
                    state,
                    exposure: if ends_exposure(state) {
                        None
                    } else {
                        old(self).status.exposure
                    },
                    ..old(self).status
                },
                capturing_generation: old(self).generation_after(state),
            }),
    {
        if state == AgentState::Capturing && self.status.state != AgentState::Capturing {
            self.capturing_generation = self.capturing_generation.wrapping_add(1);
        }
        self.status.state = state;
        if state == AgentState::Idle || state == AgentState::Stopping || state
            == AgentState::Faulted {
            self.status.exposure = None;
        }
    }

    pub fn mark_stopping(&mut self)
        ensures
            *final(self) == (AgentMonitor {
                status: AgentStatus {
                    state: AgentState::Stopping,
                    exposure: None,
                    ..old(self).status
                },
                ..*old(self)
            }),
    {
        self.set_state(AgentState::Stopping);
    }

    /// Forget what belonged to the previous attempt; totals are kept.
    pub fn begin_attempt(&mut self)
        ensures
            *final(self) == (AgentMonitor {
                status: AgentStatus {
                    state: AgentState::Starting,
                    camera: None,
                    last_error: None,
                    upload: None,
                    storage: None,
                    exposure: None,
                    ..old(self).status
                },
                ..*old(self)
            }),
    {
        self.status.state = AgentState::Starting;
        self.status.camera = None;
        self.status.last_error = None;
        self.status.upload = None;
        self.status.storage = None;
        self.status.exposure = None;
    }

    pub fn set_camera(&mut self, id: i32, name: String)
        ensures
            *final(self) == (AgentMonitor {
                status: AgentStatus {
                    camera: Some(StatusCamera { id, name }),
                    ..old(self).status
                },
                ..*old(self)
            }),
    {
        self.status.camera = Some(StatusCamera { id, name });
    }

    pub fn exposure_progress(&mut self, exposure: StatusExposure)
        ensures
            *final(self) == (AgentMonitor {
                status: AgentStatus { exposure: Some(exposure), ..old(self).status },
                ..*old(self)
            }),
    {
        self.status.exposure = Some(exposure);
    }

    /// Count a frame without entering the capturing state.
    pub fn settling_frame_captured(&mut self)
        ensures
            *final(self) == (AgentMonitor {
                status: AgentStatus {
                    frames_captured: saturating_next(old(self).status.frames_captured),
                    ..old(self).status
                },
                ..*old(self)
            }),
    {
        self.status.frames_captured = self.status.frames_captured.saturating_add(1);
    }

    pub fn frame_captured(&mut self, paused: bool)
        ensures
            *final(self) == (AgentMonitor {
                status: AgentStatus {
                    frames_captured: saturating_next(old(self).status.frames_captured),
                    state: if paused {
                        AgentState::Paused
                    } else {
                        AgentState::Capturing
                    },
                    ..old(self).status
                },
                capturing_generation: old(self).generation_after(
                    if paused {
                        AgentState::Paused
                    } else {
                        AgentState::Capturing
                    },
                ),
            }),
    {
        self.settling_frame_captured();
        self.set_state(
            if paused {
                AgentState::Paused
            } else {
                AgentState::Capturing
            },
        );
    }

    pub fn artifact_saved(&mut self, path: String)
        ensures
            *final(self) == (AgentMonitor {
                status: AgentStatus {
                    frames_saved: saturating_next(old(self).status.frames_saved),
                    last_artifact: Some(path),
                    ..old(self).status
                },
                ..*old(self)
            }),
    {
        self.status.frames_saved = self.status.frames_saved.saturating_add(1);
        self.status.last_artifact = Some(path);
    }

    pub fn upload_telemetry(&mut self, telemetry: UploadTelemetry)
        ensures
            *final(self) == (AgentMonitor {
                status: AgentStatus {
                    upload: Some(
                        StatusUpload {
                            pending: telemetry.pending,
                            active: telemetry.active,
                            retrying: telemetry.retrying,
                            completed: telemetry.completed,
                            permanently_failed: telemetry.permanently_failed,
                            last_success_unix_ms: telemetry.last_success_unix_ms,
                            last_failure_unix_ms: telemetry.last_failure_unix_ms,
                            last_error: telemetry.last_error,
                        },
                    ),
                    ..old(self).status
                },
                ..*old(self)
            }),
    {
        self.status.upload = Some(
            StatusUpload {
                pending: telemetry.pending,
                active: telemetry.active,
                retrying: telemetry.retrying,
                completed: telemetry.completed,
                permanently_failed: telemetry.permanently_failed,
                last_success_unix_ms: telemetry.last_success_unix_ms,
                last_failure_unix_ms: telemetry.last_failure_unix_ms,
                last_error: telemetry.last_error,
            },
        );
    }

    pub fn retention_telemetry(&mut self, telemetry: RetentionTelemetry)
        ensures
            *final(self) == (AgentMonitor {
                status: AgentStatus {
                    storage: Some(
                        StatusStorage {
                            managed_bytes: telemetry.managed_bytes,
                            protected_bytes: telemetry.protected_bytes,
                            reclaimable_bytes: telemetry.reclaimable_bytes,
                            free_bytes: telemetry.free_bytes,
                            last_sweep_unix_ms: Some(telemetry.swept_at_unix_ms),
                            last_reclaimed_files: telemetry.reclaimed_file_count,
                            last_reclaimed_bytes: telemetry.reclaimed_bytes,
                            pressure: published_pressure(telemetry.pressure),
                            capture_suspended: telemetry.blocked_pressure,
                            last_error: telemetry.error,
                        },
                    ),
                    ..old(self).status
                },
                ..*old(self)
            }),
    {
        self.status.storage = Some(
            StatusStorage {
                managed_bytes: telemetry.managed_bytes,
                protected_bytes: telemetry.protected_bytes,
                reclaimable_bytes: telemetry.reclaimable_bytes,
                free_bytes: telemetry.free_bytes,
                last_sweep_unix_ms: Some(telemetry.swept_at_unix_ms),
                last_reclaimed_files: telemetry.reclaimed_file_count,
                last_reclaimed_bytes: telemetry.reclaimed_bytes,
                pressure: match telemetry.pressure {
                    RetentionPressure::Satisfied => StoragePressure::Satisfied,
                    RetentionPressure::CleanupNeeded => StoragePressure::CleanupNeeded,
                    RetentionPressure::Blocked => StoragePressure::Blocked,
                },
                capture_suspended: telemetry.blocked_pressure,
                last_error: telemetry.error,
            },
        );
    }
}

/// One more, up to the largest number.
pub open spec fn saturating_next(count: u64) -> u64 {
    if count == u64::MAX {
        u64::MAX
    } else {
        (count + 1) as u64
    }
}

/// The pressure that clients see.
pub open spec fn published_pressure(pressure: RetentionPressure) -> StoragePressure {
    match pressure {
        RetentionPressure::Satisfied => StoragePressure::Satisfied,
        RetentionPressure::CleanupNeeded => StoragePressure::CleanupNeeded,
        RetentionPressure::Blocked => StoragePressure::Blocked,
    }
}

/// The status after an attempt: stopping where shutdown was asked for, idle after
/// any other success, else faulted with the error.
pub open spec fn attempt_published(
    before: AgentMonitor,
    result: Result<(), String>,
    shutdown: bool,
) -> AgentMonitor {
    AgentMonitor {
        status: AgentStatus {
            state: match result {
                Ok(_) => if shutdown {
                    AgentState::Stopping
                } else {
                    AgentState::Idle
                },
                Err(_) => AgentState::Faulted,
            },
            exposure: None,
            last_error: match result {
                Ok(_) => before.status.last_error,
                Err(error) => Some(error),
            },
            ..before.status
        },
        ..before
    }
}

pub fn publish_attempt_result(
    result: Result<(), String>,
    shutdown: bool,
    monitor: &mut AgentMonitor,
)
    ensures
        *final(monitor) == attempt_published(*old(monitor), result, shutdown),
{
    match result {
        Ok(_) => {
            if shutdown {
                monitor.mark_stopping();
            } else {
                monitor.set_state(AgentState::Idle);
            }
        },
        Err(error) => monitor.report_fault(error),
    }
}

/// However an attempt ends, no exposure is shown afterwards, the totals and the
/// last artifact are kept, and no capturing transition is recorded.
pub proof fn law_attempt_end_clears_exposure(
    before: AgentMonitor,
    result: Result<(), String>,
    shutdown: bool,
)
    ensures
        ({
            let after = attempt_published(before, result, shutdown);
            &&& after.status.exposure is None
            &&& after.status.frames_captured == before.status.frames_captured
            &&& after.status.frames_saved == before.status.frames_saved
            &&& after.status.last_artifact == before.status.last_artifact
            &&& after.capturing_generation == before.capturing_generation
            &&& after.status.state != AgentState::Capturing
        }),
{
}

/// The capturing generation changes exactly where the capturing state is entered
/// from another state.
pub proof fn law_generation_marks_transitions(monitor: AgentMonitor, state: AgentState)
    ensures
        monitor.generation_after(state) != monitor.capturing_generation <==> state
            == AgentState::Capturing && monitor.status.state != AgentState::Capturing,
{
}

/// Why an upload administration request was not served.
#[derive(Clone, Copy, Debug, PartialEq, Eq, Structural)]
pub enum UploadAdminError {
    ServiceUnavailable,
}

/// The leases on one registered upload administration service.
#[derive(Clone, Copy, Debug, PartialEq, Eq, Structural)]
pub struct UploadAdminSession {
    pub accepting: bool,
    pub active: usize,
}

impl UploadAdminSession {
    pub fn new() -> (r: Self)
        ensures
            r.accepting,
            r.active == 0,
    {
        UploadAdminSession { accepting: true, active: 0 }
    }

    /// Take a lease, unless the session was revoked.
    pub fn acquire(&mut self) -> (r: Result<(), UploadAdminError>)
        requires
            old(self).accepting ==> old(self).active < usize::MAX,
        ensures
            final(self).accepting == old(self).accepting,
            if old(self).accepting {
                r is Ok && final(self).active == old(self).active + 1
            } else {
                r == Err::<(), UploadAdminError>(UploadAdminError::ServiceUnavailable)
                    && final(self).active == old(self).active
            },
    {
        if !self.accepting {
            return Err(UploadAdminError::ServiceUnavailable);
        }
        self.active = self.active + 1;
        Ok(())
    }

    /// Return a lease; whether it was the last one.
    pub fn release(&mut self) -> (r: bool)
        requires
            old(self).active > 0,
        ensures
            final(self).accepting == old(self).accepting,
            final(self).active == old(self).active - 1,
            r == (final(self).active == 0),
    {
        self.active = self.active - 1;
        self.active == 0
    }

    /// Grant no further lease.
    pub fn revoke(&mut self)
        ensures
            !final(self).accepting,
            final(self).active == old(self).active,
    {
        self.accepting = false;
    }

    pub fn is_idle(&self) -> (r: bool)
        ensures
            r == (self.active == 0),
    {
        self.active == 0
    }
}

/// Which registration of an upload administration service is current.
#[derive(Clone, Copy, Debug, PartialEq, Eq, Structural)]
pub struct UploadAdminRegistry {
    pub generation: u64,
    pub current: Option<u64>,
}

impl UploadAdminRegistry {
    /// The generation that follows.
    pub open spec fn next(self) -> u64 {
        if self.generation == u64::MAX {
            0
        } else {
            (self.generation + 1) as u64
        }
    }

    pub open spec fn registered(self) -> Self {
        UploadAdminRegistry { generation: self.next(), current: Some(self.next()) }
    }

    pub open spec fn unregistered(self, generation: u64) -> Self {
        if self.current == Some(generation) {
            UploadAdminRegistry { current: None, ..self }
        } else {
            self
        }
    }

    pub fn new() -> (r: Self)
        ensures
            r.generation == 0,
            r.current is None,
    {
        UploadAdminRegistry { generation: 0, current: None }
    }

    /// Register a service in place of the current one, which has to be revoked
    /// and drained; the result is that one's generation.
    pub fn register(&mut self) -> (replaced: Option<u64>)
        ensures
            *final(self) == old(self).registered(),
            replaced == old(self).current,
    {
        let replaced = self.current;
        self.generation = self.generation.wrapping_add(1);
        self.current = Some(self.generation);
        replaced
    }

    /// End a registration, where it is still the current one; whether its
    /// session has to be revoked and drained.
    pub fn unregister(&mut self, generation: u64) -> (r: bool)
        ensures
            *final(self) == old(self).unregistered(generation),
            r == (old(self).current == Some(generation)),
    {
        let is_current = match self.current {
            Some(current) => current == generation,
            None => false,
        };
        if is_current {
            self.current = None;
        }
        is_current
    }
}

/// A stale registration cannot clear the one that replaced it.
pub proof fn law_stale_registration_keeps_replacement(registry: UploadAdminRegistry)
    ensures
        registry.registered().registered().unregistered(registry.registered().generation)
            == registry.registered().registered(),
{
}

/// A new agent is starting, has done nothing, and offers what the protocol names and
/// three features of its own.
pub proof fn law_new_agent_is_starting(protocol_capabilities: Vec<String>, r: AgentMonitor)
    requires
        call_ensures(AgentMonitor::new, (protocol_capabilities,), r),
    ensures
        r.status.state is Starting,
        r.status.frames_captured == 0,
        r.status.frames_saved == 0,
        r.status.camera is None,
        r.status.last_artifact is None,
        r.status.last_error is None,
        r.status.upload is None,
        r.status.storage is None,
        r.status.exposure is None,
        r.capturing_generation == 0,
        r.status.capabilities@.len() == protocol_capabilities@.len() + 3,
        forall|i: int|
            0 <= i < protocol_capabilities@.len() ==> #[trigger] r.status.capabilities@[i]
                == protocol_capabilities@[i],
        r.status.capabilities@[protocol_capabilities@.len() as int]@ == "camera.adaptive_exposure"@,
        r.status.capabilities@[protocol_capabilities@.len() as int + 1]@ == "camera.raw16"@,
        r.status.capabilities@[protocol_capabilities@.len() as int + 2]@ == "video.ffmpeg"@,
{
    let n = protocol_capabilities@.len() as int;
    assert forall|i: int| 0 <= i < n implies #[trigger] r.status.capabilities@[i]
        == protocol_capabilities@[i] by {
        assert(r.status.capabilities@.take(n)[i] == r.status.capabilities@[i]);
    }
}

/// Clients read what the status holds.
pub proof fn law_snapshot_is_the_status(monitor: &AgentMonitor, r: AgentStatus, generation: u64)
    requires
        call_ensures(AgentMonitor::snapshot, (monitor,), r),
        call_ensures(AgentMonitor::capturing_generation, (monitor,), generation),
    ensures
        r.state == monitor.status.state,
        r.camera == monitor.status.camera,
        r.frames_captured == monitor.status.frames_captured,
        r.frames_saved == monitor.status.frames_saved,
        r.last_artifact == monitor.status.last_artifact,
        r.last_error == monitor.status.last_error,
        r.upload == monitor.status.upload,
        r.storage == monitor.status.storage,
        r.exposure == monitor.status.exposure,
        r.capabilities@ == monitor.status.capabilities@,
        generation == monitor.capturing_generation,
{
}

/// Whether nothing but the state, the exposure and the last error can differ between
/// two statuses.
pub open spec fn keeps_totals(before: AgentStatus, after: AgentStatus) -> bool {
    &&& after.camera == before.camera
    &&& after.frames_captured == before.frames_captured
    &&& after.frames_saved == before.frames_saved
    &&& after.last_artifact == before.last_artifact
    &&& after.upload == before.upload
    &&& after.storage == before.storage
    &&& after.capabilities == before.capabilities
}

/// A fault is shown with its message, and no exposure beside it.
pub proof fn law_fault_is_shown(message: String)
    ensures
        forall|m: &mut AgentMonitor|
            #[trigger] call_ensures(AgentMonitor::report_fault, (m, message), ()) ==> {
                &&& final(m).status.state is Faulted
                &&& final(m).status.last_error == Some(message)
                &&& final(m).status.exposure is None
                &&& keeps_totals(m.status, final(m).status)
                &&& final(m).capturing_generation == m.capturing_generation
            },
{
}

/// A state is entered as it is named. An exposure is shown no longer where the agent is
/// idle, stops or fails; and entering the capturing state, and nothing else, is counted.
pub proof fn law_state_is_entered(state: AgentState)
    ensures
        forall|m: &mut AgentMonitor|
            #[trigger] call_ensures(AgentMonitor::set_state, (m, state), ()) ==> {
                &&& final(m).status.state == state
                &&& state is Idle || state is Stopping || state is Faulted ==> final(m).status.exposure is None
                &&& state is Starting || state is Capturing || state is Paused ==> final(m).status.exposure == m.status.exposure
                &&& final(m).capturing_generation != m.capturing_generation <==> state is Capturing
                    && m.status.state !is Capturing
                &&& m.capturing_generation < u64::MAX ==> final(m).capturing_generation
                    <= m.capturing_generation + 1
                &&& final(m).status.last_error == m.status.last_error
                &&& keeps_totals(m.status, final(m).status)
            },
        forall|m: &mut AgentMonitor|
            #[trigger] call_ensures(AgentMonitor::mark_stopping, (m,), ()) ==> {
                &&& final(m).status.state is Stopping
                &&& final(m).status.exposure is None
                &&& final(m).status.last_error == m.status.last_error
                &&& final(m).capturing_generation == m.capturing_generation
                &&& keeps_totals(m.status, final(m).status)
            },
{
}

/// A new attempt forgets the camera, the queue, the storage, the exposure and the error
/// of the one before, and keeps the totals.
pub proof fn law_attempt_begins_anew()
    ensures
        forall|m: &mut AgentMonitor|
            #[trigger] call_ensures(AgentMonitor::begin_attempt, (m,), ()) ==> {
                &&& final(m).status.state is Starting
                &&& final(m).status.camera is None
                &&& final(m).status.last_error is None
                &&& final(m).status.upload is None
                &&& final(m).status.storage is None
                &&& final(m).status.exposure is None
                &&& final(m).status.frames_captured == m.status.frames_captured
                &&& final(m).status.frames_saved == m.status.frames_saved
                &&& final(m).status.last_artifact == m.status.last_artifact
                &&& final(m).status.capabilities == m.status.capabilities
                &&& final(m).capturing_generation == m.capturing_generation
            },
{
}

/// A frame is counted once; one that is captured shows whether capture is paused, one
/// while exposure settles leaves the state alone.
pub proof fn law_frames_are_counted_once(paused: bool)
    ensures
        forall|m: &mut AgentMonitor|
            #[trigger] call_ensures(AgentMonitor::frame_captured, (m, paused), ())
                && m.status.frames_captured < u64::MAX ==> {
                &&& final(m).status.frames_captured == m.status.frames_captured + 1
                &&& final(m).status.frames_saved == m.status.frames_saved
                &&& paused ==> final(m).status.state is Paused
                &&& !paused ==> final(m).status.state is Capturing
                &&& final(m).capturing_generation != m.capturing_generation <==> !paused
                    && m.status.state !is Capturing
                &&& final(m).status.exposure == m.status.exposure
                &&& final(m).status.last_error == m.status.last_error
            },
        forall|m: &mut AgentMonitor|
            #[trigger] call_ensures(AgentMonitor::settling_frame_captured, (m,), ())
                && m.status.frames_captured < u64::MAX ==> {
                &&& final(m).status.frames_captured == m.status.frames_captured + 1
                &&& final(m).status.frames_saved == m.status.frames_saved
                &&& final(m).status.state == m.status.state
                &&& final(m).capturing_generation == m.capturing_generation
                &&& final(m).status.exposure == m.status.exposure
            },
{
}

/// A saved artifact is counted and shown; a camera and an exposure are shown as they are.
pub proof fn law_news_is_shown(path: String, id: i32, name: String, exposure: StatusExposure)
    ensures
        forall|m: &mut AgentMonitor|
            #[trigger] call_ensures(AgentMonitor::artifact_saved, (m, path), ())
                && m.status.frames_saved < u64::MAX ==> {
                &&& final(m).status.frames_saved == m.status.frames_saved + 1
                &&& final(m).status.last_artifact == Some(path)
                &&& final(m).status.frames_captured == m.status.frames_captured
                &&& final(m).status.state == m.status.state
            },
        forall|m: &mut AgentMonitor|
            #[trigger] call_ensures(AgentMonitor::set_camera, (m, id, name), ()) ==> {
                &&& final(m).status.camera == Some(StatusCamera { id, name })
                &&& final(m).status.state == m.status.state
            },
        forall|m: &mut AgentMonitor|
            #[trigger] call_ensures(AgentMonitor::exposure_progress, (m, exposure), ()) ==> {
                &&& final(m).status.exposure == Some(exposure)
                &&& final(m).status.state == m.status.state
            },
{
}

/// Telemetry is shown number by number. Capture is shown as suspended exactly where the
/// sweep was blocked.
pub proof fn law_telemetry_is_shown(upload: UploadTelemetry, retention: RetentionTelemetry)
    ensures
        forall|m: &mut AgentMonitor|
            #[trigger] call_ensures(AgentMonitor::upload_telemetry, (m, upload), ()) ==> (final(m).status.upload matches Some(shown) && {
                &&& shown.pending == upload.pending
                &&& shown.active == upload.active
                &&& shown.retrying == upload.retrying
                &&& shown.completed == upload.completed
                &&& shown.permanently_failed == upload.permanently_failed
                &&& shown.last_success_unix_ms == upload.last_success_unix_ms
                &&& shown.last_failure_unix_ms == upload.last_failure_unix_ms
                &&& shown.last_error == upload.last_error
            }),
        forall|m: &mut AgentMonitor|
            #[trigger] call_ensures(AgentMonitor::retention_telemetry, (m, retention), ()) ==> (
            final(m).status.storage matches Some(shown) && {
                &&& shown.managed_bytes == retention.managed_bytes
                &&& shown.protected_bytes == retention.protected_bytes
                &&& shown.reclaimable_bytes == retention.reclaimable_bytes
                &&& shown.free_bytes == retention.free_bytes
                &&& shown.last_sweep_unix_ms == Some(retention.swept_at_unix_ms)
                &&& shown.last_reclaimed_files == retention.reclaimed_file_count
                &&& shown.last_reclaimed_bytes == retention.reclaimed_bytes
                &&& shown.capture_suspended == retention.blocked_pressure
                &&& shown.pressure is Satisfied <==> retention.pressure is Satisfied
                &&& shown.pressure is CleanupNeeded <==> retention.pressure is CleanupNeeded
                &&& shown.pressure is Blocked <==> retention.pressure is Blocked
                &&& shown.last_error == retention.error
            }),
{
}

/// An attempt that failed leaves a fault with its error; one that succeeded leaves the
/// agent stopping where that was asked for, else idle.
pub proof fn law_end_of_an_attempt_is_shown(result: Result<(), String>, shutdown: bool)
    ensures
        forall|m: &mut AgentMonitor|
            #[trigger] call_ensures(publish_attempt_result, (result, shutdown, m), ()) ==> {
                &&& final(m).status.state is Faulted <==> result is Err
                &&& final(m).status.state is Stopping <==> result is Ok && shutdown
                &&& final(m).status.state is Idle <==> result is Ok && !shutdown
                &&& result matches Err(error) ==> final(m).status.last_error == Some(error)
                &&& result is Ok ==> final(m).status.last_error == m.status.last_error
                &&& final(m).status.exposure is None
                &&& keeps_totals(m.status, final(m).status)
            },
{
}

/// A lease is given while the session accepts, and each that was given is returned once;
/// the last one that returns says so.
pub proof fn law_leases_are_returned(r: Result<(), UploadAdminError>, last: bool)
    ensures
        forall|s: &mut UploadAdminSession|
            #[trigger] call_ensures(UploadAdminSession::acquire, (s,), r) ==> {
                &&& r is Ok <==> s.accepting
                &&& r is Ok ==> final(s).active == s.active + 1
                &&& r is Err ==> final(s).active == s.active
                &&& final(s).accepting == s.accepting
            },
        forall|s: &mut UploadAdminSession|
            #[trigger] call_ensures(UploadAdminSession::release, (s,), last) ==> {
                &&& final(s).active + 1 == s.active
                &&& last <==> s.active == 1
                &&& final(s).accepting == s.accepting
            },
        forall|s: &mut UploadAdminSession|
            #[trigger] call_ensures(UploadAdminSession::revoke, (s,), ()) ==> !final(s).accepting
                && final(s).active == s.active,
{
}

/// A session is idle where no lease is out.
pub proof fn law_idle_session_has_no_lease(session: &UploadAdminSession, r: bool)
    requires
        call_ensures(UploadAdminSession::is_idle, (session,), r),
    ensures
        r <==> session.active == 0,
{
}

/// A registration replaces the one before under another generation, and only the current
/// one can be ended.
pub proof fn law_registration_replaces_the_one_before(
    replaced: Option<u64>,
    generation: u64,
    ended: bool,
)
    ensures
        forall|s: &mut UploadAdminRegistry|
            #[trigger] call_ensures(UploadAdminRegistry::register, (s,), replaced) ==> {
                &&& replaced == s.current
                &&& final(s).current == Some(final(s).generation)
                &&& final(s).generation != s.generation
                &&& s.generation < u64::MAX ==> final(s).generation == s.generation + 1
            },
        forall|s: &mut UploadAdminRegistry|
            #[trigger] call_ensures(UploadAdminRegistry::unregister, (s, generation), ended) ==> {
                &&& ended <==> s.current == Some(generation)
                &&& ended ==> final(s).current is None
                &&& !ended ==> final(s).current == s.current
                &&& final(s).generation == s.generation
            },
{
}

} // verus!
