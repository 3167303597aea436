//! One retention sweep, from the directory inventory to the telemetry that it
//! publishes.

use vstd::prelude::*;

use crate::message;
use crate::message::{bounded_error_message, list_texts};
use crate::number;
use crate::retention;
use crate::retention::{
    plan_retention, quotas_satisfied, RetentionAuthorization, RetentionCandidate, RetentionPlan,
    RetentionPolicy,
};
use crate::text;
use crate::text::push_decimal;

verus! {

broadcast use vstd::string::group_string_axioms;

pub const MAX_RETENTION_ERROR_MESSAGES: usize = 8;

/// One regular, direct-child JPEG whose name exactly matches the capture
/// writer's generated-frame grammar.
#[derive(Debug, PartialEq, Eq)]
pub struct ManagedArtifact {
    pub path: String,
    pub captured_at_unix_ms: u64,
    pub file_size_bytes: u64,
}

impl Clone for ManagedArtifact {
    fn clone(&self) -> (r: Self)
        ensures
            r == *self,
    {
        ManagedArtifact {
            path: self.path.clone(),
            captured_at_unix_ms: self.captured_at_unix_ms,
            file_size_bytes: self.file_size_bytes,
        }
    }
}

#[derive(Clone, Copy, Debug, PartialEq, Eq, Structural)]
pub enum RetentionPressure {
    Satisfied,
    CleanupNeeded,
    Blocked,
}

/// What a completed sweep reports.
#[derive(Debug, PartialEq, Eq)]
pub struct RetentionTelemetry {
    pub swept_at_unix_ms: u64,
    pub managed_bytes: u64,
    pub protected_bytes: u64,
    pub reclaimable_bytes: u64,
    pub free_bytes: Option<u64>,
    pub reclaimed_file_count: u64,
    pub reclaimed_bytes: u64,
    pub blocked_pressure: bool,
    pub pressure: RetentionPressure,
    pub error: Option<String>,
}

impl RetentionTelemetry {
    /// Whether this reports a sweep that could not begin.
    pub open spec fn reports_failure(
        self,
        swept_at_unix_ms: u64,
        policy: RetentionPolicy,
        free_bytes: Option<u64>,
        error: Seq<char>,
    ) -> bool {
        &&& self.swept_at_unix_ms == swept_at_unix_ms
        &&& self.managed_bytes == 0
        &&& self.protected_bytes == 0
        &&& self.reclaimable_bytes == 0
        &&& self.free_bytes == free_bytes
        &&& self.reclaimed_file_count == 0
        &&& self.reclaimed_bytes == 0
        &&& self.blocked_pressure == policy.limits_bytes()
        &&& self.pressure == (if policy.limits_bytes() {
            RetentionPressure::Blocked
        } else {
            RetentionPressure::CleanupNeeded
        })
        &&& self.error matches Some(text) && text@ == message::bounded(error)
    }

    /// A sweep that cannot begin leaves every byte limit unproven: it is blocked
    /// if the policy has one.
    pub fn failed(
        swept_at_unix_ms: u64,
        policy: RetentionPolicy,
        free_bytes: Option<u64>,
        error: String,
    ) -> (r: Self)
        ensures
            r.reports_failure(swept_at_unix_ms, policy, free_bytes, error@),
    {
        let blocked_pressure = policy.has_byte_quota();
        Self {
            swept_at_unix_ms,
            managed_bytes: 0,
            protected_bytes: 0,
            reclaimable_bytes: 0,
            free_bytes,
            reclaimed_file_count: 0,
            reclaimed_bytes: 0,
            blocked_pressure,
            pressure: if blocked_pressure {
                RetentionPressure::Blocked
            } else {
                RetentionPressure::CleanupNeeded
            },
            error: Some(bounded_error_message(error)),
        }
    }
}

/// The first few errors of a sweep, each bounded, and how many were left out.
pub struct RetentionErrors {
    pub messages: Vec<String>,
    pub omitted: usize,
    pub reported: Ghost<Seq<Seq<char>>>,
}

/// The texts that stand for some reported errors: eight at most.
pub open spec fn kept_errors(reported: Seq<Seq<char>>) -> Seq<Seq<char>> {
    let kept = if reported.len() <= 8 {
        reported
    } else {
        reported.take(8)
    };
    kept.map_values(|error: Seq<char>| message::bounded(error))
}

/// How many reported errors have no text of their own.
pub open spec fn omitted_errors(reported: Seq<Seq<char>>) -> int {
    if reported.len() <= 8 {
        0
    } else {
        number::clamped(reported.len() - 8, 0, usize::MAX as int)
    }
}

/// The note that stands for errors that were left out.
pub open spec fn omission_note(omitted: int) -> Seq<char> {
    text::decimal(omitted as nat) + " additional retention error(s) omitted"@
}

/// The diagnostic text of a sweep with these errors.
pub open spec fn error_summary(reported: Seq<Seq<char>>) -> Option<Seq<char>> {
    let omitted = omitted_errors(reported);
    if reported.len() == 0 {
        None
    } else if omitted == 0 {
        Some(message::listed(kept_errors(reported), "; "@))
    } else {
        Some(message::listed(kept_errors(reported).push(omission_note(omitted)), "; "@))
    }
}

impl RetentionErrors {
    pub open spec fn wf(self) -> bool {
        &&& message::string_views(self.messages@) == kept_errors(self.reported@)
        &&& self.omitted == omitted_errors(self.reported@)
    }

    pub fn new() -> (r: Self)
        ensures
            r.wf(),
            r.reported@ == Seq::<Seq<char>>::empty(),
    {
        let r = Self { messages: Vec::new(), omitted: 0, reported: Ghost(Seq::empty()) };
        assert(message::string_views(r.messages@) =~= kept_errors(r.reported@));
        r
    }

    pub fn push(&mut self, message: String)
        requires
            old(self).wf(),
        ensures
            final(self).wf(),
            final(self).reported@ == old(self).reported@.push(message@),
    {
        let ghost before = self.reported@;
        let ghost after = before.push(message@);
        let ghost shown = message::string_views(self.messages@);
        proof {
            assert(shown.len() == kept_errors(before).len());
            self.reported@ = after;
        }
        if self.messages.len() == MAX_RETENTION_ERROR_MESSAGES {
            self.omitted = self.omitted.saturating_add(1);
            proof {
                assert(before.len() >= 8);
                if before.len() == 8 {
                    assert(after.take(8) =~= before);
                } else {
                    assert(after.take(8) =~= before.take(8));
                }
                assert(kept_errors(after) =~= kept_errors(before));
            }
        } else {
            let text = bounded_error_message(message);
            self.messages.push(text);
            proof {
                assert(before.len() < 8);
                assert(message::string_views(self.messages@) =~= shown.push(text@));
                assert(kept_errors(after) =~= kept_errors(before).push(text@));
            }
        }
    }

    pub fn is_empty(&self) -> (r: bool)
        requires
            self.wf(),
        ensures
            r == (self.reported@.len() == 0),
    {
        assert(message::string_views(self.messages@).len() == self.messages@.len());
        self.messages.is_empty() && self.omitted == 0
    }

    pub fn finish(self) -> (r: Option<String>)
        requires
            self.wf(),
        ensures
            match error_summary(self.reported@) {
                Some(summary) => r matches Some(text) && text@ == summary,
                None => r is None,
            },
    {
        let ghost reported = self.reported@;
        let mut messages = self.messages;
        let omitted: usize = self.omitted;
        assert(message::string_views(messages@).len() == messages@.len());
        if omitted != 0 {
            let mut note = String::new();
            push_decimal(&mut note, omitted as u64);
            note.append(" additional retention error(s) omitted");
            assert(note@ =~= omission_note(omitted as int));
            let ghost shown = message::string_views(messages@);
            messages.push(note);
            assert(message::string_views(messages@) =~= shown.push(note@));
        }
        if messages.is_empty() {
            None
        } else {
            Some(list_texts(&messages, "; "))
        }
    }
}

/// The outcome of deleting exactly the authorized file. A file that is already
/// absent is safe, but is not credited as work performed.
#[derive(Clone, Copy, Debug, PartialEq, Eq, Structural)]
pub enum ExactDeleteOutcome {
    Deleted,
    AlreadyAbsent,
}

/// The outcome of a final recheck and deletion.
#[derive(Clone, Copy, Debug, PartialEq, Eq, Structural)]
pub enum RetentionDeletionOutcome {
    Deleted,
    AlreadyAbsent,
    Protected,
}

/// The authorization that a candidate gets. One that authorizes another size
/// than the inventory found does not authorize deletion.
pub open spec fn effective_authorization(
    artifact: ManagedArtifact,
    authorization: RetentionAuthorization,
) -> RetentionAuthorization {
    if size_changed(artifact, authorization) {
        RetentionAuthorization::protection()
    } else {
        authorization
    }
}

pub open spec fn size_changed(
    artifact: ManagedArtifact,
    authorization: RetentionAuthorization,
) -> bool {
    &&& authorization.reclaims()
    &&& authorization.expected_file_size_bytes matches Some(expected)
    &&& expected != artifact.file_size_bytes
}

pub open spec fn candidate_for(
    artifact: ManagedArtifact,
    authorization: RetentionAuthorization,
) -> RetentionCandidate {
    RetentionCandidate {
        path: artifact.path,
        captured_at_unix_ms: artifact.captured_at_unix_ms,
        file_size_bytes: artifact.file_size_bytes,
        authorization: effective_authorization(artifact, authorization),
    }
}

/// The candidates of an inventory with one authorization for each artifact.
pub open spec fn candidates_for(
    inventory: Seq<ManagedArtifact>,
    authorizations: Seq<RetentionAuthorization>,
) -> Seq<RetentionCandidate> {
    Seq::new(inventory.len(), |i: int| candidate_for(inventory[i], authorizations[i]))
}

pub open spec fn size_changed_message(path: Seq<char>) -> Seq<char> {
    "protecting "@ + path
        + " because its inventory size no longer matches the authorized size"@
}

/// The errors that an inventory raises, one for each artifact that changed size.
pub open spec fn size_errors(
    inventory: Seq<ManagedArtifact>,
    authorizations: Seq<RetentionAuthorization>,
    n: int,
) -> Seq<Seq<char>>
    decreases n,
{
    if n <= 0 {
        Seq::empty()
    } else {
        let before = size_errors(inventory, authorizations, n - 1);
        if size_changed(inventory[n - 1], authorizations[n - 1]) {
            before.push(size_changed_message(inventory[n - 1].path@))
        } else {
            before
        }
    }
}

pub open spec fn count_mismatch_message(expected: nat, actual: nat) -> Seq<char> {
    "retention authority returned "@ + text::decimal(actual)
        + " classifications for an inventory of "@ + text::decimal(expected) + " artifacts"@
}

pub open spec fn retained_message(path: Seq<char>, error: Seq<char>) -> Seq<char> {
    "retaining "@ + path + " after final authorization/deletion failed: "@ + error
}

/// Where the bytes of a sweep's inventory have gone.
#[derive(Clone, Copy, Debug, PartialEq, Eq)]
pub struct SweepTally {
    pub managed_bytes: u64,
    pub protected_bytes: u64,
    pub reclaimable_bytes: u64,
    pub reclaimed_file_count: u64,
    pub reclaimed_bytes: u64,
    pub unresolved_deletions: u64,
}

impl SweepTally {
    pub open spec fn of_plan(plan: RetentionPlan) -> Self {
        SweepTally {
            managed_bytes: plan.managed_bytes,
            protected_bytes: plan.protected_bytes,
            reclaimable_bytes: plan.reclaimable_bytes,
            reclaimed_file_count: 0,
            reclaimed_bytes: 0,
            unresolved_deletions: 0,
        }
    }

    /// The tally once a deletion of this many bytes came to this outcome, or
    /// failed.
    pub open spec fn after(self, size: u64, outcome: Option<RetentionDeletionOutcome>) -> Self {
        let managed = number::saturated_u64(self.managed_bytes - size) as u64;
        let reclaimable = number::saturated_u64(self.reclaimable_bytes - size) as u64;
        match outcome {
            Some(RetentionDeletionOutcome::Deleted) => SweepTally {
                managed_bytes: managed,
                reclaimable_bytes: reclaimable,
                reclaimed_file_count: number::saturated_u64(self.reclaimed_file_count + 1) as u64,
                reclaimed_bytes: number::saturated_u64(self.reclaimed_bytes + size) as u64,
                ..self
            },
            Some(RetentionDeletionOutcome::AlreadyAbsent) => SweepTally {
                managed_bytes: managed,
                reclaimable_bytes: reclaimable,
                ..self
            },
            Some(RetentionDeletionOutcome::Protected) => SweepTally {
                protected_bytes: number::saturated_u64(self.protected_bytes + size) as u64,
                reclaimable_bytes: reclaimable,
                unresolved_deletions: number::saturated_u64(self.unresolved_deletions + 1) as u64,
                ..self
            },
            None => SweepTally {
                unresolved_deletions: number::saturated_u64(self.unresolved_deletions + 1) as u64,
                ..self
            },
        }
    }
}

/// A sweep between its inventory and its telemetry.
pub struct RetentionSweep {
    pub policy: RetentionPolicy,
    pub swept_at_unix_ms: u64,
    pub initial_free_bytes: Option<u64>,
    pub plan: RetentionPlan,
    pub tally: SweepTally,
    pub errors: RetentionErrors,
}

/// What a free-space probe found: bytes, or a description of its failure.
pub open spec fn probed(free: Result<u64, String>) -> Option<u64> {
    match free {
        Ok(bytes) => Some(bytes),
        Err(_) => None,
    }
}

pub open spec fn probe_failed_message(directory: Seq<char>, error: Seq<char>) -> Seq<char> {
    "querying free space for "@ + directory + " failed: "@ + error
}

pub open spec fn recheck_failed_message(directory: Seq<char>, error: Seq<char>) -> Seq<char> {
    "verifying free space for "@ + directory + " after retention failed: "@ + error
}

/// The error that a failed first probe raises, if the policy needs its answer.
pub open spec fn probe_errors(
    policy: RetentionPolicy,
    directory: Seq<char>,
    free: Result<u64, String>,
) -> Seq<Seq<char>> {
    match free {
        Err(error) if policy.min_free_bytes is Some => seq![
            probe_failed_message(directory, error@),
        ],
        _ => Seq::empty(),
    }
}

/// The free space that a finished sweep reports. Where the policy does not need
/// it, an unavailable probe is replaced by the first one plus what was reclaimed.
pub open spec fn final_free(
    policy: RetentionPolicy,
    initial: Option<u64>,
    reclaimed: u64,
    free: Result<u64, String>,
) -> Option<u64> {
    match free {
        Ok(bytes) => Some(bytes),
        Err(_) => if policy.min_free_bytes is Some {
            None
        } else {
            retention::free_after(initial, reclaimed as int)
        },
    }
}

/// The errors of a finished sweep, with that of a failed second probe.
pub open spec fn final_errors(
    policy: RetentionPolicy,
    directory: Seq<char>,
    reported: Seq<Seq<char>>,
    free: Result<u64, String>,
) -> Seq<Seq<char>> {
    match free {
        Err(error) if policy.min_free_bytes is Some => reported.push(
            recheck_failed_message(directory, error@),
        ),
        _ => reported,
    }
}

impl RetentionSweep {
    /// Plan a sweep over an inventory. The authority must return exactly one
    /// authorization for each artifact, in order.
    pub fn begin(
        policy: RetentionPolicy,
        directory: &str,
        swept_at_unix_ms: u64,
        free: Result<u64, String>,
        inventory: Vec<ManagedArtifact>,
        authorizations: Vec<RetentionAuthorization>,
    ) -> (r: Result<Self, RetentionTelemetry>)
        ensures
            r is Ok <==> authorizations@.len() == inventory@.len(),
            match r {
                Ok(sweep) => {
                    &&& sweep.policy == policy
                    &&& sweep.swept_at_unix_ms == swept_at_unix_ms
                    &&& sweep.initial_free_bytes == probed(free)
                    &&& sweep.plan.is_plan_for(
                        policy,
                        swept_at_unix_ms,
                        probed(free),
                        candidates_for(inventory@, authorizations@),
                    )
                    &&& sweep.tally == SweepTally::of_plan(sweep.plan)
                    &&& sweep.errors.wf()
                    &&& sweep.errors.reported@ == probe_errors(policy, directory@, free)
                        + size_errors(inventory@, authorizations@, inventory@.len() as int)
                },
                Err(telemetry) => telemetry.reports_failure(
                    swept_at_unix_ms,
                    policy,
                    probed(free),
                    count_mismatch_message(inventory@.len(), authorizations@.len()),
                ),
            },
    {
        let initial_free_bytes: Option<u64> = match &free {
            Ok(bytes) => Some(*bytes),
            Err(_) => None,
        };
        if authorizations.len() != inventory.len() {
            let mut error = String::new();
            error.append("retention authority returned ");
            push_decimal(&mut error, authorizations.len() as u64);
            error.append(" classifications for an inventory of ");
            push_decimal(&mut error, inventory.len() as u64);
            error.append(" artifacts");
            assert(error@ =~= count_mismatch_message(inventory@.len(), authorizations@.len()));
            return Err(
                RetentionTelemetry::failed(swept_at_unix_ms, policy, initial_free_bytes, error),
            );
        }
        let mut errors = RetentionErrors::new();
        if let Err(cause) = &free {
            if policy.needs_free_space() {
                let mut error = String::new();
                error.append("querying free space for ");
                error.append(directory);
                error.append(" failed: ");
                error.append(cause.as_str());
                assert(error@ =~= probe_failed_message(directory@, cause@));
                errors.push(error);
            }
        }
        let ghost first = probe_errors(policy, directory@, free);
        assert(errors.reported@ =~= first);
        let mut candidates: Vec<RetentionCandidate> = Vec::new();
        let mut i: usize = 0;
        while i < inventory.len()
            invariant
                i <= inventory.len(),
                inventory@.len() == authorizations@.len(),
                errors.wf(),
                errors.reported@ == first + size_errors(inventory@, authorizations@, i as int),
                candidates@ == candidates_for(inventory@, authorizations@).take(i as int),
            decreases inventory.len() - i,
        {
            let artifact = &inventory[i];
            let mut authorization = authorizations[i];
            let changed = match authorization.expected_file_size_bytes {
                Some(expected) => authorization.is_reclaimable() && expected
                    != artifact.file_size_bytes,
                None => false,
            };
            if changed {
                let mut error = String::new();
                error.append("protecting ");
                error.append(artifact.path.as_str());
                error.append(" because its inventory size no longer matches the authorized size");
                assert(error@ =~= size_changed_message(artifact.path@));
                errors.push(error);
                authorization = RetentionAuthorization::protected();
            }
            candidates.push(
                RetentionCandidate {
                    path: artifact.path.clone(),
                    captured_at_unix_ms: artifact.captured_at_unix_ms,
                    file_size_bytes: artifact.file_size_bytes,
                    authorization,
                },
            );
            proof {
                let all = candidates_for(inventory@, authorizations@);
                assert(all.take(i + 1) =~= all.take(i as int).push(all[i as int]));
                assert(errors.reported@ =~= first + size_errors(
                    inventory@,
                    authorizations@,
                    i + 1,
                ));
            }
            i = i + 1;
        }
        assert(candidates@ =~= candidates_for(inventory@, authorizations@));
        let plan = plan_retention(policy, swept_at_unix_ms, initial_free_bytes, candidates);
        let tally = SweepTally {
            managed_bytes: plan.managed_bytes,
            protected_bytes: plan.protected_bytes,
            reclaimable_bytes: plan.reclaimable_bytes,
            reclaimed_file_count: 0,
            reclaimed_bytes: 0,
            unresolved_deletions: 0,
        };
        Ok(Self { policy, swept_at_unix_ms, initial_free_bytes, plan, tally, errors })
    }

    /// Account for the outcome of one planned deletion.
    pub fn record(&mut self, index: usize, outcome: Result<RetentionDeletionOutcome, String>)
        requires
            old(self).errors.wf(),
            index < old(self).plan.deletions@.len(),
        ensures
            final(self).policy == old(self).policy,
            final(self).swept_at_unix_ms == old(self).swept_at_unix_ms,
            final(self).initial_free_bytes == old(self).initial_free_bytes,
            final(self).plan == old(self).plan,
            final(self).errors.wf(),
            ({
                let candidate = old(self).plan.deletions@[index as int];
                match outcome {
                    Ok(outcome) => {
                        &&& final(self).tally == old(self).tally.after(
                            candidate.file_size_bytes,
                            Some(outcome),
                        )
                        &&& final(self).errors.reported@ == old(self).errors.reported@
                    },
                    Err(error) => {
                        &&& final(self).tally == old(self).tally.after(
                            candidate.file_size_bytes,
                            None,
                        )
                        &&& final(self).errors.reported@ == old(self).errors.reported@.push(
                            retained_message(candidate.path@, error@),
                        )
                    },
                }
            }),
    {
        let size: u64 = self.plan.deletions[index].file_size_bytes;
        let mut tally = self.tally;
        match outcome {
            Ok(RetentionDeletionOutcome::Deleted) => {
                tally.managed_bytes = tally.managed_bytes.saturating_sub(size);
                tally.reclaimable_bytes = tally.reclaimable_bytes.saturating_sub(size);
                tally.reclaimed_file_count = tally.reclaimed_file_count.saturating_add(1);
                tally.reclaimed_bytes = tally.reclaimed_bytes.saturating_add(size);
            },
            Ok(RetentionDeletionOutcome::AlreadyAbsent) => {
                tally.managed_bytes = tally.managed_bytes.saturating_sub(size);
                tally.reclaimable_bytes = tally.reclaimable_bytes.saturating_sub(size);
            },
            Ok(RetentionDeletionOutcome::Protected) => {
                tally.protected_bytes = tally.protected_bytes.saturating_add(size);
                tally.reclaimable_bytes = tally.reclaimable_bytes.saturating_sub(size);
                tally.unresolved_deletions = tally.unresolved_deletions.saturating_add(1);
            },
            Err(cause) => {
                tally.unresolved_deletions = tally.unresolved_deletions.saturating_add(1);
                let mut error = String::new();
                error.append("retaining ");
                error.append(self.plan.deletions[index].path.as_str());
                error.append(" after final authorization/deletion failed: ");
                error.append(cause.as_str());
                assert(error@ =~= retained_message(
                    self.plan.deletions@[index as int].path@,
                    cause@,
                ));
                self.errors.push(error);
            },
        }
        self.tally = tally;
    }

    /// Whether this telemetry reports this sweep once the free space has been
    /// probed again.
    pub open spec fn reported_by(
        self,
        directory: Seq<char>,
        free: Result<u64, String>,
        telemetry: RetentionTelemetry,
    ) -> bool {
        let free_bytes = final_free(
            self.policy,
            self.initial_free_bytes,
            self.tally.reclaimed_bytes,
            free,
        );
        let errors = final_errors(self.policy, directory, self.errors.reported@, free);
        let blocked = !retention::quotas_hold(
            self.policy,
            self.tally.managed_bytes as int,
            free_bytes,
        );
        &&& telemetry.swept_at_unix_ms == self.swept_at_unix_ms
        &&& telemetry.managed_bytes == self.tally.managed_bytes
        &&& telemetry.protected_bytes == self.tally.protected_bytes
        &&& telemetry.reclaimable_bytes == self.tally.reclaimable_bytes
        &&& telemetry.free_bytes == free_bytes
        &&& telemetry.reclaimed_file_count == self.tally.reclaimed_file_count
        &&& telemetry.reclaimed_bytes == self.tally.reclaimed_bytes
        &&& telemetry.blocked_pressure == blocked
        &&& telemetry.pressure == (if blocked {
            RetentionPressure::Blocked
        } else if self.tally.unresolved_deletions != 0 || (self.plan.deletions@.len() == 0
            && errors.len() != 0) {
            RetentionPressure::CleanupNeeded
        } else {
            RetentionPressure::Satisfied
        })
        &&& match error_summary(errors) {
            Some(summary) => telemetry.error matches Some(text) && text@ == summary,
            None => telemetry.error is None,
        }
    }

    /// Close the sweep with a second free-space probe. Where the policy needs
    /// that probe and it fails, the pressure stays blocked.
    pub fn finish(self, directory: &str, free: Result<u64, String>) -> (r: RetentionTelemetry)
        requires
            self.errors.wf(),
        ensures
            self.reported_by(directory@, free, r),
    {
        let mut errors = self.errors;
        let tally = self.tally;
        let free_bytes: Option<u64> = match &free {
            Ok(bytes) => Some(*bytes),
            Err(cause) => {
                if self.policy.needs_free_space() {
                    let mut error = String::new();
                    error.append("verifying free space for ");
                    error.append(directory);
                    error.append(" after retention failed: ");
                    error.append(cause.as_str());
                    assert(error@ =~= recheck_failed_message(directory@, cause@));
                    errors.push(error);
                    None
                } else {
                    match self.initial_free_bytes {
                        Some(bytes) => Some(bytes.saturating_add(tally.reclaimed_bytes)),
                        None => None,
                    }
                }
            },
        };
        let blocked_pressure = !quotas_satisfied(self.policy, tally.managed_bytes, free_bytes);
        let has_errors = !errors.is_empty();
        let pressure = if blocked_pressure {
            RetentionPressure::Blocked
        } else if tally.unresolved_deletions != 0 || (self.plan.deletions.len() == 0
            && has_errors) {
            RetentionPressure::CleanupNeeded
        } else {
            RetentionPressure::Satisfied
        };
        RetentionTelemetry {
            swept_at_unix_ms: self.swept_at_unix_ms,
            managed_bytes: tally.managed_bytes,
            protected_bytes: tally.protected_bytes,
            reclaimable_bytes: tally.reclaimable_bytes,
            free_bytes,
            reclaimed_file_count: tally.reclaimed_file_count,
            reclaimed_bytes: tally.reclaimed_bytes,
            blocked_pressure,
            pressure,
            error: errors.finish(),
        }
    }
}

/// Why the clock cannot date a sweep.
#[derive(Clone, Copy, Debug, PartialEq, Eq, Structural)]
pub enum RetentionClockError {
    ClockBeforeUnixEpoch,
    ClockOutOfRange,
}

impl RetentionClockError {
    pub open spec fn text(self) -> Seq<char> {
        match self {
            RetentionClockError::ClockBeforeUnixEpoch => "system clock is before the Unix epoch"@,
            RetentionClockError::ClockOutOfRange =>
                "system clock is outside the supported millisecond range"@,
        }
    }

    pub fn message(self) -> (r: String)
        ensures
            r@ == self.text(),
    {
        match self {
            RetentionClockError::ClockBeforeUnixEpoch => "system clock is before the Unix epoch".to_owned(),
            RetentionClockError::ClockOutOfRange =>
                "system clock is outside the supported millisecond range".to_owned(),
        }
    }
}

/// The time of a clock that shows so many milliseconds since the Unix epoch, or
/// that shows a time before it.
pub fn clock_unix_ms(since_epoch_ms: Option<u128>) -> (r: Result<u64, RetentionClockError>)
    ensures
        r == (match since_epoch_ms {
            None => Err::<u64, RetentionClockError>(RetentionClockError::ClockBeforeUnixEpoch),
            Some(millis) => if millis <= u64::MAX {
                Ok::<u64, RetentionClockError>(millis as u64)
            } else {
                Err::<u64, RetentionClockError>(RetentionClockError::ClockOutOfRange)
            },
        }),
{
    match since_epoch_ms {
        None => Err(RetentionClockError::ClockBeforeUnixEpoch),
        Some(millis) => {
            if millis <= u64::MAX as u128 {
                Ok(millis as u64)
            } else {
                Err(RetentionClockError::ClockOutOfRange)
            }
        },
    }
}

/// Dates a sweep in milliseconds since the Unix epoch.
pub trait RetentionClock {
    fn now_unix_ms(&self) -> Result<u64, RetentionClockError>;
}

/// Reads the capture directory and deletes from it. Platform operations are
/// handed to the final authorization, so that an authority backed by a ledger
/// can hold its lock while the file goes.
pub trait RetentionPlatform {
    fn available_bytes(&self, directory: &str) -> Result<u64, String>;

    fn inventory(&self, directory: &str) -> Result<Vec<ManagedArtifact>, String>;

    fn delete_exact(
        &self,
        candidate: &RetentionCandidate,
        expectation: RetentionAuthorization,
    ) -> Result<ExactDeleteOutcome, String>;
}

/// Classifies a complete inventory.
pub trait RetentionAuthority {
    fn classify_inventory(&self, inventory: &Vec<ManagedArtifact>) -> Result<
        Vec<RetentionAuthorization>,
        String,
    >;
}

/// Owns the final recheck of a classified artifact and its deletion.
pub trait FinalRetentionAuthority<P: RetentionPlatform>: RetentionAuthority {
    fn delete_if_still_authorized(
        &self,
        candidate: &RetentionCandidate,
        platform: &P,
    ) -> Result<RetentionDeletionOutcome, String>;
}

/// Fail-closed authority for a capture directory that may still be referenced
/// by an upload ledger whose owner is unavailable. It inventories bytes for
/// pressure telemetry but never permits automatic deletion.
#[derive(Clone, Copy, Debug)]
pub struct ProtectAllRetentionAuthority;

/// Safe only when the caller has established that no upload ledger exists.
/// A disabled uploader with an old ledger must instead fail closed.
#[derive(Clone, Copy, Debug)]
pub struct LocalOnlyRetentionAuthority;

impl RetentionAuthority for ProtectAllRetentionAuthority {
    fn classify_inventory(&self, inventory: &Vec<ManagedArtifact>) -> (r: Result<
        Vec<RetentionAuthorization>,
        String,
    >)
        ensures
            r matches Ok(list) && list@ == Seq::new(
                inventory@.len(),
                |i: int| RetentionAuthorization::protection(),
            ),
    {
        let mut list: Vec<RetentionAuthorization> = Vec::new();
        let mut i: usize = 0;
        while i < inventory.len()
            invariant
                i <= inventory.len(),
                list@ == Seq::new(i as nat, |k: int| RetentionAuthorization::protection()),
            decreases inventory.len() - i,
        {
            list.push(RetentionAuthorization::protected());
            assert(list@ =~= Seq::new(
                (i + 1) as nat,
                |k: int| RetentionAuthorization::protection(),
            ));
            i = i + 1;
        }
        Ok(list)
    }
}

impl<P: RetentionPlatform> FinalRetentionAuthority<P> for ProtectAllRetentionAuthority {
    fn delete_if_still_authorized(
        &self,
        _candidate: &RetentionCandidate,
        _platform: &P,
    ) -> (r: Result<RetentionDeletionOutcome, String>)
        ensures
            r == Ok::<RetentionDeletionOutcome, String>(RetentionDeletionOutcome::Protected),
    {
        Ok(RetentionDeletionOutcome::Protected)
    }
}

/// What a local file may be deleted as: reclaimable at its inventory size.
pub open spec fn local_authorization(artifact: ManagedArtifact) -> RetentionAuthorization {
    RetentionAuthorization {
        classification: retention::RetentionClassification::Reclaimable,
        expected_file_size_bytes: Some(artifact.file_size_bytes),
        expected_sha256: None,
    }
}

/// How a final authorization reports what the platform did.
pub open spec fn deletion_outcome(outcome: ExactDeleteOutcome) -> RetentionDeletionOutcome {
    match outcome {
        ExactDeleteOutcome::Deleted => RetentionDeletionOutcome::Deleted,
        ExactDeleteOutcome::AlreadyAbsent => RetentionDeletionOutcome::AlreadyAbsent,
    }
}

/// How a final authorization reports what came of an exact deletion.
pub open spec fn relayed(result: Result<ExactDeleteOutcome, String>) -> Result<
    RetentionDeletionOutcome,
    String,
> {
    match result {
        Ok(outcome) => Ok(deletion_outcome(outcome)),
        Err(error) => Err(error),
    }
}

/// Whether an exact deletion can have come to this.
pub open spec fn removes<P: RetentionPlatform>(
    platform: &P,
    candidate: &RetentionCandidate,
    expectation: RetentionAuthorization,
    result: Result<ExactDeleteOutcome, String>,
) -> bool {
    call_ensures(P::delete_exact, (platform, candidate, expectation), result)
}

/// Report what the platform did to an artifact that was still authorized.
pub fn relay_deletion(result: Result<ExactDeleteOutcome, String>) -> (r: Result<
    RetentionDeletionOutcome,
    String,
>)
    ensures
        r == relayed(result),
{
    match result {
        Ok(ExactDeleteOutcome::Deleted) => Ok(RetentionDeletionOutcome::Deleted),
        Ok(ExactDeleteOutcome::AlreadyAbsent) => Ok(RetentionDeletionOutcome::AlreadyAbsent),
        Err(error) => Err(error),
    }
}

impl RetentionAuthority for LocalOnlyRetentionAuthority {
    fn classify_inventory(&self, inventory: &Vec<ManagedArtifact>) -> (r: Result<
        Vec<RetentionAuthorization>,
        String,
    >)
        ensures
            r matches Ok(list) && list@ == Seq::new(
                inventory@.len(),
                |i: int| local_authorization(inventory@[i]),
            ),
    {
        let mut list: Vec<RetentionAuthorization> = Vec::new();
        let mut i: usize = 0;
        while i < inventory.len()
            invariant
                i <= inventory.len(),
                list@ == Seq::new(i as nat, |k: int| local_authorization(inventory@[k])),
            decreases inventory.len() - i,
        {
            list.push(
                RetentionAuthorization::reclaimable(Some(inventory[i].file_size_bytes), None),
            );
            assert(list@ =~= Seq::new(
                (i + 1) as nat,
                |k: int| local_authorization(inventory@[k]),
            ));
            i = i + 1;
        }
        Ok(list)
    }
}

impl<P: RetentionPlatform> FinalRetentionAuthority<P> for LocalOnlyRetentionAuthority {
    fn delete_if_still_authorized(
        &self,
        candidate: &RetentionCandidate,
        platform: &P,
    ) -> (r: Result<RetentionDeletionOutcome, String>)
        ensures
            exists|result: Result<ExactDeleteOutcome, String>| #[trigger]
                removes(platform, candidate, candidate.authorization, result) && r == relayed(
                    result,
                ),
    {
        let result = platform.delete_exact(candidate, candidate.authorization);
        assert(removes(platform, candidate, candidate.authorization, result));
        relay_deletion(result)
    }
}

/// The tally after the first `n` planned deletions came to these outcomes.
pub open spec fn tally_after(
    plan: RetentionPlan,
    outcomes: Seq<Result<RetentionDeletionOutcome, String>>,
    n: int,
) -> SweepTally
    decreases n,
{
    if n <= 0 {
        SweepTally::of_plan(plan)
    } else {
        tally_after(plan, outcomes, n - 1).after(
            plan.deletions@[n - 1].file_size_bytes,
            match outcomes[n - 1] {
                Ok(outcome) => Some(outcome),
                Err(_) => None,
            },
        )
    }
}

/// The errors after the first `n` planned deletions came to these outcomes.
pub open spec fn errors_after(
    plan: RetentionPlan,
    first: Seq<Seq<char>>,
    outcomes: Seq<Result<RetentionDeletionOutcome, String>>,
    n: int,
) -> Seq<Seq<char>>
    decreases n,
{
    if n <= 0 {
        first
    } else {
        let before = errors_after(plan, first, outcomes, n - 1);
        match outcomes[n - 1] {
            Ok(_) => before,
            Err(error) => before.push(
                retained_message(plan.deletions@[n - 1].path@, error@),
            ),
        }
    }
}

/// Whether a sweep is the one that begins with this inventory and in which every
/// planned deletion, in order, came to the outcome given for it.
pub open spec fn swept(
    sweep: RetentionSweep,
    directory: Seq<char>,
    free: Result<u64, String>,
    inventory: Seq<ManagedArtifact>,
    authorizations: Seq<RetentionAuthorization>,
    outcomes: Seq<Result<RetentionDeletionOutcome, String>>,
) -> bool {
    let n = sweep.plan.deletions@.len() as int;
    &&& authorizations.len() == inventory.len()
    &&& outcomes.len() == n
    &&& sweep.initial_free_bytes == probed(free)
    &&& sweep.plan.is_plan_for(
        sweep.policy,
        sweep.swept_at_unix_ms,
        probed(free),
        candidates_for(inventory, authorizations),
    )
    &&& sweep.tally == tally_after(sweep.plan, outcomes, n)
    &&& sweep.errors.reported@ == errors_after(
        sweep.plan,
        probe_errors(sweep.policy, directory, free) + size_errors(
            inventory,
            authorizations,
            inventory.len() as int,
        ),
        outcomes,
        n,
    )
}

/// Whether the clock can have answered this.
pub open spec fn dates<C: RetentionClock>(
    clock: &C,
    now: Result<u64, RetentionClockError>,
) -> bool {
    call_ensures(C::now_unix_ms, (clock,), now)
}

/// Whether a free-space probe can have come to this.
pub open spec fn probes<P: RetentionPlatform>(
    platform: &P,
    directory: &str,
    free: Result<u64, String>,
) -> bool {
    call_ensures(P::available_bytes, (platform, directory), free)
}

/// Whether an inventory can have come to this.
pub open spec fn lists<P: RetentionPlatform>(
    platform: &P,
    directory: &str,
    inventory: Result<Vec<ManagedArtifact>, String>,
) -> bool {
    call_ensures(P::inventory, (platform, directory), inventory)
}

/// Whether a classification of an inventory can have come to this.
pub open spec fn classifies<A: RetentionAuthority>(
    authority: &A,
    inventory: &Vec<ManagedArtifact>,
    authorizations: Result<Vec<RetentionAuthorization>, String>,
) -> bool {
    call_ensures(A::classify_inventory, (authority, inventory), authorizations)
}

/// Whether the final recheck and deletion of a candidate can have come to this.
pub open spec fn settles<A: FinalRetentionAuthority<P>, P: RetentionPlatform>(
    authority: &A,
    candidate: &RetentionCandidate,
    platform: &P,
    outcome: Result<RetentionDeletionOutcome, String>,
) -> bool {
    call_ensures(A::delete_if_still_authorized, (authority, candidate, platform), outcome)
}

/// Whether this reports a sweep of a classified inventory: one authorization too
/// few or too many fails it; otherwise every planned deletion is settled in
/// order, and free space is probed again.
pub open spec fn reports_classified<A: FinalRetentionAuthority<P>, P: RetentionPlatform>(
    telemetry: RetentionTelemetry,
    policy: RetentionPolicy,
    directory: &str,
    authority: &A,
    platform: &P,
    at: u64,
    free: Result<u64, String>,
    inventory: Seq<ManagedArtifact>,
    authorizations: Seq<RetentionAuthorization>,
) -> bool {
    if authorizations.len() != inventory.len() {
        telemetry.reports_failure(
            at,
            policy,
            probed(free),
            count_mismatch_message(inventory.len(), authorizations.len()),
        )
    } else {
        exists|
            sweep: RetentionSweep,
            outcomes: Seq<Result<RetentionDeletionOutcome, String>>,
            recheck: Result<u64, String>,
        |
            {
                &&& sweep.policy == policy
                &&& sweep.swept_at_unix_ms == at
                &&& #[trigger] swept(
                    sweep,
                    directory@,
                    free,
                    inventory,
                    authorizations,
                    outcomes,
                )
                &&& forall|i: int|
                    0 <= i < outcomes.len() ==> settles(
                        authority,
                        &sweep.plan.deletions@[i],
                        platform,
                        #[trigger] outcomes[i],
                    )
                &&& probes(platform, directory, recheck)
                &&& #[trigger] sweep.reported_by(directory@, recheck, telemetry)
            }
    }
}

/// Whether this reports a sweep of an inventory.
pub open spec fn reports_listed<A: FinalRetentionAuthority<P>, P: RetentionPlatform>(
    telemetry: RetentionTelemetry,
    policy: RetentionPolicy,
    directory: &str,
    authority: &A,
    platform: &P,
    at: u64,
    free: Result<u64, String>,
    inventory: Vec<ManagedArtifact>,
) -> bool {
    ||| exists|cause: String| #[trigger]
        classifies(authority, &inventory, Err(cause)) && telemetry.reports_failure(
            at,
            policy,
            probed(free),
            authority_failed_message(cause@),
        )
    ||| exists|authorizations: Vec<RetentionAuthorization>| #[trigger]
        classifies(authority, &inventory, Ok(authorizations)) && reports_classified(
            telemetry,
            policy,
            directory,
            authority,
            platform,
            at,
            free,
            inventory@,
            authorizations@,
        )
}

/// Whether this reports a sweep that was dated and that probed free space.
pub open spec fn reports_probed<A: FinalRetentionAuthority<P>, P: RetentionPlatform>(
    telemetry: RetentionTelemetry,
    policy: RetentionPolicy,
    directory: &str,
    authority: &A,
    platform: &P,
    at: u64,
    free: Result<u64, String>,
) -> bool {
    ||| exists|error: String| #[trigger]
        lists(platform, directory, Err(error)) && telemetry.reports_failure(
            at,
            policy,
            probed(free),
            error@,
        )
    ||| exists|inventory: Vec<ManagedArtifact>| #[trigger]
        lists(platform, directory, Ok(inventory)) && reports_listed(
            telemetry,
            policy,
            directory,
            authority,
            platform,
            at,
            free,
            inventory,
        )
}

/// Whether this is what a sweep reports, given what the clock, the platform and
/// the authority can have answered.
pub open spec fn reports_sweep<
    A: FinalRetentionAuthority<P>,
    P: RetentionPlatform,
    C: RetentionClock,
>(
    telemetry: RetentionTelemetry,
    policy: RetentionPolicy,
    directory: &str,
    authority: &A,
    platform: &P,
    clock: &C,
) -> bool {
    ||| exists|error: RetentionClockError| #[trigger]
        dates(clock, Err(error)) && telemetry.reports_failure(0, policy, None, error.text())
    ||| exists|at: u64, free: Result<u64, String>| #[trigger]
        dates(clock, Ok(at)) && #[trigger] probes(platform, directory, free) && reports_probed(
            telemetry,
            policy,
            directory,
            authority,
            platform,
            at,
            free,
        )
}

pub open spec fn authority_failed_message(error: Seq<char>) -> Seq<char> {
    "retention authority failed: "@ + error
}

/// Inventory the capture directory, delete what the policy selects and the
/// authority still permits, and report the pressure that remains.
pub fn sweep_retention<A: FinalRetentionAuthority<P>, P: RetentionPlatform, C: RetentionClock>(
    policy: RetentionPolicy,
    directory: &str,
    authority: &A,
    platform: &P,
    clock: &C,
) -> (telemetry: RetentionTelemetry)
    ensures
        reports_sweep(telemetry, policy, directory, authority, platform, clock),
        telemetry.blocked_pressure == (telemetry.pressure == RetentionPressure::Blocked),
        !policy.limits_bytes() ==> !telemetry.blocked_pressure,
{
    let now = clock.now_unix_ms();
    assert(dates(clock, now));
    let swept_at_unix_ms: u64 = match now {
        Ok(now) => now,
        Err(error) => {
            return RetentionTelemetry::failed(0, policy, None, error.message());
        },
    };
    let free = platform.available_bytes(directory);
    assert(probes(platform, directory, free));
    let initial_free_bytes: Option<u64> = match &free {
        Ok(bytes) => Some(*bytes),
        Err(_) => None,
    };
    let listing = platform.inventory(directory);
    assert(lists(platform, directory, listing));
    let inventory = match listing {
        Ok(inventory) => inventory,
        Err(error) => {
            return RetentionTelemetry::failed(swept_at_unix_ms, policy, initial_free_bytes, error);
        },
    };
    let classified = authority.classify_inventory(&inventory);
    assert(classifies(authority, &inventory, classified));
    let authorizations = match classified {
        Ok(authorizations) => authorizations,
        Err(cause) => {
            let mut error = String::new();
            error.append("retention authority failed: ");
            error.append(cause.as_str());
            assert(error@ =~= authority_failed_message(cause@));
            return RetentionTelemetry::failed(swept_at_unix_ms, policy, initial_free_bytes, error);
        },
    };
    let ghost listed = inventory;
    let ghost permitted = authorizations;
    let ghost probe = free;
    let mut sweep = match RetentionSweep::begin(
        policy,
        directory,
        swept_at_unix_ms,
        free,
        inventory,
        authorizations,
    ) {
        Ok(sweep) => sweep,
        Err(telemetry) => {
            return telemetry;
        },
    };
    let ghost plan = sweep.plan;
    let ghost first = sweep.errors.reported@;
    let ghost mut outcomes: Seq<Result<RetentionDeletionOutcome, String>> = Seq::empty();
    let deletions: usize = sweep.plan.deletions.len();
    let mut i: usize = 0;
    while i < deletions
        invariant
            i <= deletions,
            deletions == plan.deletions@.len(),
            sweep.plan == plan,
            sweep.policy == policy,
            sweep.swept_at_unix_ms == swept_at_unix_ms,
            sweep.initial_free_bytes == probed(probe),
            sweep.errors.wf(),
            outcomes.len() == i,
            forall|k: int|
                0 <= k < i ==> settles(
                    authority,
                    &plan.deletions@[k],
                    platform,
                    #[trigger] outcomes[k],
                ),
            sweep.tally == tally_after(plan, outcomes, i as int),
            sweep.errors.reported@ == errors_after(plan, first, outcomes, i as int),
        decreases deletions - i,
    {
        let outcome = authority.delete_if_still_authorized(&sweep.plan.deletions[i], platform);
        let ghost before = outcomes;
        proof {
            assert(settles(authority, &plan.deletions@[i as int], platform, outcome));
            outcomes = outcomes.push(outcome);
            lemma_prefix_outcomes(plan, first, before, outcome, i as int);
        }
        sweep.record(i, outcome);
        i = i + 1;
    }
    let recheck = platform.available_bytes(directory);
    assert(probes(platform, directory, recheck));
    assert(swept(sweep, directory@, probe, listed@, permitted@, outcomes));
    let ghost last = sweep;
    let telemetry = sweep.finish(directory, recheck);
    proof {
        assert(last.reported_by(directory@, recheck, telemetry));
        assert(reports_classified(
            telemetry,
            policy,
            directory,
            authority,
            platform,
            swept_at_unix_ms,
            probe,
            listed@,
            permitted@,
        ));
        assert(reports_listed(
            telemetry,
            policy,
            directory,
            authority,
            platform,
            swept_at_unix_ms,
            probe,
            listed,
        ));
    }
    telemetry
}

proof fn lemma_prefix_outcomes(
    plan: RetentionPlan,
    first: Seq<Seq<char>>,
    outcomes: Seq<Result<RetentionDeletionOutcome, String>>,
    next: Result<RetentionDeletionOutcome, String>,
    n: int,
)
    requires
        0 <= n <= outcomes.len(),
    ensures
        tally_after(plan, outcomes.push(next), n) == tally_after(plan, outcomes, n),
        errors_after(plan, first, outcomes.push(next), n) == errors_after(plan, first, outcomes, n),
    decreases n,
{
    if n > 0 {
        lemma_prefix_outcomes(plan, first, outcomes, next, n - 1);
        assert(outcomes.push(next)[n - 1] == outcomes[n - 1]);
    }
}

/// A sweep that could not begin has reclaimed nothing, tells why, and suspends capture
/// exactly where a byte limit is set.
pub proof fn law_failed_sweep_is_blocked_by_byte_limits(
    swept_at_unix_ms: u64,
    policy: RetentionPolicy,
    free_bytes: Option<u64>,
    error: String,
    r: RetentionTelemetry,
)
    requires
        call_ensures(RetentionTelemetry::failed, (swept_at_unix_ms, policy, free_bytes, error), r),
    ensures
        r.swept_at_unix_ms == swept_at_unix_ms,
        r.free_bytes == free_bytes,
        r.reclaimed_file_count == 0,
        r.reclaimed_bytes == 0,
        r.managed_bytes == 0,
        r.blocked_pressure <==> policy.max_managed_bytes is Some || policy.min_free_bytes is Some,
        r.pressure is Blocked <==> r.blocked_pressure,
        r.pressure is CleanupNeeded <==> !r.blocked_pressure,
        r.error is Some,
        message::utf8_len(error@) <= 1_024 ==> r.error->0@ == error@,
{
}

/// Whether an artifact may be deleted by an authorization: it is released, and has the
/// size that was authorized, if one was.
pub open spec fn lets_go(artifact: ManagedArtifact, authorization: RetentionAuthorization) -> bool {
    &&& authorization.classification is Reclaimable
    &&& authorization.expected_file_size_bytes is None
        || authorization.expected_file_size_bytes->0 == artifact.file_size_bytes
}

/// A sweep begins exactly where each artifact has one authorization. It plans to delete
/// only artifacts of the inventory that their own authorization lets go, as it lets
/// them go; and every one of those that is too old, with a later one beside it.
pub proof fn law_sweep_deletes_what_was_let_go(
    policy: RetentionPolicy,
    directory: &str,
    swept_at_unix_ms: u64,
    free: Result<u64, String>,
    inventory: Vec<ManagedArtifact>,
    authorizations: Vec<RetentionAuthorization>,
    r: Result<RetentionSweep, RetentionTelemetry>,
    k: int,
    i: int,
    j: int,
    max_age: u64,
)
    requires
        call_ensures(
            RetentionSweep::begin,
            (policy, directory, swept_at_unix_ms, free, inventory, authorizations),
            r,
        ),
    ensures
        r is Ok <==> authorizations@.len() == inventory@.len(),
        r matches Err(telemetry) ==> telemetry.reclaimed_bytes == 0 && telemetry.error is Some,
        r matches Ok(sweep) ==> (0 <= k < sweep.plan.deletions@.len() ==> exists|at: int|
            {
                let x = sweep.plan.deletions@[k];
                &&& 0 <= at < inventory@.len()
                &&& lets_go(inventory@[at], authorizations@[at])
                &&& x.path == (#[trigger] inventory@[at]).path
                &&& x.file_size_bytes == inventory@[at].file_size_bytes
                &&& x.captured_at_unix_ms == inventory@[at].captured_at_unix_ms
                &&& x.authorization == authorizations@[at]
            }),
        r matches Ok(sweep) ==> (0 <= i < inventory@.len() && 0 <= j < inventory@.len() && lets_go(
            inventory@[i],
            authorizations@[i],
        ) && inventory@[j].captured_at_unix_ms > inventory@[i].captured_at_unix_ms
            && policy.max_age_ms == Some(max_age) && inventory@[i].captured_at_unix_ms + max_age
            <= swept_at_unix_ms ==> exists|at: int|
            0 <= at < sweep.plan.deletions@.len() && (#[trigger] sweep.plan.deletions@[at]).path
                == inventory@[i].path),
        r matches Ok(sweep) ==> sweep.tally.reclaimed_bytes == 0
            && sweep.tally.reclaimed_file_count == 0 && sweep.tally.unresolved_deletions == 0
            && sweep.tally.managed_bytes == sweep.plan.managed_bytes,
{
    if let Ok(sweep) = r {
        let all = candidates_for(inventory@, authorizations@);
        let plan = sweep.plan;
        if 0 <= k < plan.deletions@.len() {
            let x = plan.deletions@[k];
            assert(plan.deletions@.contains(x));
            retention::law_plan_never_deletes_protected(
                plan,
                policy,
                swept_at_unix_ms,
                probed(free),
                all,
                x,
            );
            let at = choose|at: int| 0 <= at < all.len() && all[at] == x;
            assert(x == candidate_for(inventory@[at], authorizations@[at]));
            assert(lets_go(inventory@[at], authorizations@[at]));
            assert(x.path == inventory@[at].path);
        }
        if 0 <= i < inventory@.len() && 0 <= j < inventory@.len() && lets_go(
            inventory@[i],
            authorizations@[i],
        ) && inventory@[j].captured_at_unix_ms > inventory@[i].captured_at_unix_ms
            && policy.max_age_ms == Some(max_age) && inventory@[i].captured_at_unix_ms + max_age
            <= swept_at_unix_ms {
            assert(all[j].captured_at_unix_ms > all[i].captured_at_unix_ms);
            retention::lemma_expired_is_planned(
                plan,
                policy,
                swept_at_unix_ms,
                probed(free),
                all,
                max_age,
                i,
            );
            let at = choose|at: int| 0 <= at < plan.deletions@.len() && plan.deletions@[at] == all[i];
            assert(plan.deletions@[at].path == inventory@[i].path);
        }
    }
}

/// Only a deletion that happened is credited. A file that was gone leaves what is
/// managed; a file that stays protected stays managed; a failure is told.
pub proof fn law_only_deleted_files_are_credited(
    index: usize,
    outcome: Result<RetentionDeletionOutcome, String>,
)
    ensures
        forall|s: &mut RetentionSweep|
            #[trigger] call_ensures(RetentionSweep::record, (s, index, outcome), ()) && s.errors.wf()
                && index < s.plan.deletions@.len() && s.tally.reclaimed_file_count < u64::MAX
                && s.tally.unresolved_deletions < u64::MAX ==> {
                let size = s.plan.deletions@[index as int].file_size_bytes;
                let deleted = outcome matches Ok(RetentionDeletionOutcome::Deleted);
                let absent = outcome matches Ok(RetentionDeletionOutcome::AlreadyAbsent);
                let protected = outcome matches Ok(RetentionDeletionOutcome::Protected);
                &&& deleted ==> final(s).tally.reclaimed_file_count == s.tally.reclaimed_file_count
                    + 1
                &&& deleted && s.tally.reclaimed_bytes + size <= u64::MAX ==> final(s).tally.reclaimed_bytes == s.tally.reclaimed_bytes + size
                &&& !deleted ==> final(s).tally.reclaimed_file_count == s.tally.reclaimed_file_count
                    && final(s).tally.reclaimed_bytes == s.tally.reclaimed_bytes
                &&& (deleted || absent) && size <= s.tally.managed_bytes ==> final(s).tally.managed_bytes == s.tally.managed_bytes - size
                &&& (protected || outcome is Err) ==> final(s).tally.managed_bytes
                    == s.tally.managed_bytes && final(s).tally.unresolved_deletions
                    == s.tally.unresolved_deletions + 1
                &&& (deleted || absent) ==> final(s).tally.unresolved_deletions
                    == s.tally.unresolved_deletions && final(s).tally.protected_bytes
                    == s.tally.protected_bytes
                &&& outcome is Ok && size <= s.tally.reclaimable_bytes ==> final(s).tally.reclaimable_bytes == s.tally.reclaimable_bytes - size
                &&& protected && s.tally.protected_bytes + size <= u64::MAX ==> final(s).tally.protected_bytes == s.tally.protected_bytes + size
                &&& outcome is Err ==> final(s).tally.reclaimable_bytes == s.tally.reclaimable_bytes
                    && final(s).tally.protected_bytes == s.tally.protected_bytes
                &&& final(s).errors.reported@.len() == s.errors.reported@.len() + (if outcome is Err {
                    1int
                } else {
                    0
                })
                &&& final(s).plan == s.plan
                &&& final(s).policy == s.policy
            },
{
}

/// A finished sweep is blocked exactly where a byte limit stays broken or the free space
/// that a limit asks for could not be measured. It is satisfied only where nothing is
/// left to do.
pub proof fn law_finished_sweep_tells_the_pressure(
    sweep: RetentionSweep,
    directory: &str,
    free: Result<u64, String>,
    r: RetentionTelemetry,
)
    requires
        call_ensures(RetentionSweep::finish, (sweep, directory, free), r),
        sweep.errors.wf(),
    ensures
        r.blocked_pressure <==> {
            ||| sweep.policy.max_managed_bytes matches Some(most) && sweep.tally.managed_bytes
                > most
            ||| sweep.policy.min_free_bytes matches Some(least) && (free is Err || free->Ok_0
                < least)
        },
        r.pressure is Blocked <==> r.blocked_pressure,
        r.pressure is Satisfied ==> sweep.tally.unresolved_deletions == 0,
        !r.blocked_pressure && sweep.tally.unresolved_deletions == 0 && sweep.plan.deletions@.len()
            > 0 ==> r.pressure is Satisfied,
        !r.blocked_pressure && sweep.tally.unresolved_deletions > 0 ==> r.pressure is CleanupNeeded,
        sweep.plan.deletions@.len() == 0 && sweep.errors.reported@.len() > 0 ==> r.pressure
            !is Satisfied,
        sweep.errors.reported@.len() > 0 ==> r.error is Some,
        free is Err && sweep.policy.min_free_bytes is Some ==> r.error is Some && r.free_bytes
            is None,
        sweep.errors.reported@.len() == 0 && (free is Ok || sweep.policy.min_free_bytes is None)
            ==> r.error is None,
        free matches Ok(bytes) ==> r.free_bytes == Some(bytes),
        free is Err && sweep.policy.min_free_bytes is None ==> (sweep.initial_free_bytes matches Some(
            before,
        ) ==> (before + sweep.tally.reclaimed_bytes <= u64::MAX ==> r.free_bytes == Some(
            (before + sweep.tally.reclaimed_bytes) as u64,
        ))),
        r.managed_bytes == sweep.tally.managed_bytes,
        r.protected_bytes == sweep.tally.protected_bytes,
        r.reclaimable_bytes == sweep.tally.reclaimable_bytes,
        r.reclaimed_file_count == sweep.tally.reclaimed_file_count,
        r.reclaimed_bytes == sweep.tally.reclaimed_bytes,
        r.swept_at_unix_ms == sweep.swept_at_unix_ms,
{
}

/// Errors are told where there are any: a single one that is short enough, by its text.
pub proof fn law_errors_are_told(errors: RetentionErrors, r: Option<String>, empty: bool)
    requires
        call_ensures(RetentionErrors::finish, (errors,), r),
        call_ensures(RetentionErrors::is_empty, (&errors,), empty),
        errors.wf(),
    ensures
        empty <==> errors.reported@.len() == 0,
        r is None <==> empty,
        errors.reported@.len() == 1 && message::utf8_len(errors.reported@[0]) <= 1_024 ==> (r
            matches Some(text) && text@ == errors.reported@[0]),
{
    if errors.reported@.len() == 1 {
        assert(kept_errors(errors.reported@)[0] == message::bounded(errors.reported@[0]));
    }
}

/// A clock is read in milliseconds, and refused where it is before the epoch or does not
/// fit.
pub proof fn law_clock_is_in_milliseconds(
    since_epoch_ms: Option<u128>,
    r: Result<u64, RetentionClockError>,
)
    requires
        call_ensures(clock_unix_ms, (since_epoch_ms,), r),
    ensures
        r matches Ok(millis) ==> since_epoch_ms == Some(millis as u128),
        since_epoch_ms matches Some(millis) ==> (millis <= u64::MAX ==> r is Ok),
        r == Err::<u64, RetentionClockError>(RetentionClockError::ClockBeforeUnixEpoch)
            <==> since_epoch_ms is None,
{
}

/// What the platform did is what is reported.
pub proof fn law_deletion_is_reported_as_it_happened(
    result: Result<ExactDeleteOutcome, String>,
    r: Result<RetentionDeletionOutcome, String>,
)
    requires
        call_ensures(relay_deletion, (result,), r),
    ensures
        result matches Ok(done) ==> (r matches Ok(told) && (told is Deleted <==> done is Deleted)
            && (told is AlreadyAbsent <==> done is AlreadyAbsent)),
        result matches Err(error) ==> r == Err::<RetentionDeletionOutcome, String>(error),
{
}

/// An authority that protects all releases nothing of any inventory.
pub proof fn law_protect_all_releases_nothing(
    authority: &ProtectAllRetentionAuthority,
    inventory: &Vec<ManagedArtifact>,
    r: Result<Vec<RetentionAuthorization>, String>,
    i: int,
)
    requires
        call_ensures(ProtectAllRetentionAuthority::classify_inventory, (authority, inventory), r),
    ensures
        r matches Ok(list) && list@.len() == inventory@.len() && (0 <= i < list@.len()
            ==> list@[i].classification is Protected),
{
}

/// A local authority releases each file of an inventory, at the size it was found with.
pub proof fn law_local_files_are_released_at_their_size(
    authority: &LocalOnlyRetentionAuthority,
    inventory: &Vec<ManagedArtifact>,
    r: Result<Vec<RetentionAuthorization>, String>,
    i: int,
)
    requires
        call_ensures(LocalOnlyRetentionAuthority::classify_inventory, (authority, inventory), r),
    ensures
        r matches Ok(list) && list@.len() == inventory@.len() && (0 <= i < list@.len()
            ==> list@[i].classification is Reclaimable && list@[i].expected_file_size_bytes == Some(
            inventory@[i].file_size_bytes,
        ) && list@[i].expected_sha256 is None),
{
}

proof fn lemma_nothing_to_delete(
    sweep: RetentionSweep,
    directory: Seq<char>,
    free: Result<u64, String>,
    inventory: Seq<ManagedArtifact>,
    authorizations: Seq<RetentionAuthorization>,
    outcomes: Seq<Result<RetentionDeletionOutcome, String>>,
)
    requires
        swept(sweep, directory, free, inventory, authorizations, outcomes),
        forall|i: int|
            0 <= i < authorizations.len() ==> (#[trigger] authorizations[i]).classification
                is Protected,
    ensures
        sweep.tally.reclaimed_file_count == 0,
        sweep.tally.reclaimed_bytes == 0,
{
    let all = candidates_for(inventory, authorizations);
    let plan = sweep.plan;
    if plan.deletions@.len() > 0 {
        let x = plan.deletions@[0];
        assert(plan.deletions@.contains(x));
        retention::law_plan_never_deletes_protected(
            plan,
            sweep.policy,
            sweep.swept_at_unix_ms,
            probed(free),
            all,
            x,
        );
        let at = choose|at: int| 0 <= at < all.len() && all[at] == x;
        assert(x == candidate_for(inventory[at], authorizations[at]));
        assert(authorizations[at].classification is Protected);
    }
}

/// Where all is protected, a sweep deletes nothing, whatever the policy asks for.
pub proof fn law_protected_directory_is_left_alone<P: RetentionPlatform, C: RetentionClock>(
    policy: RetentionPolicy,
    directory: &str,
    authority: &ProtectAllRetentionAuthority,
    platform: &P,
    clock: &C,
    r: RetentionTelemetry,
)
    requires
        call_ensures(
            sweep_retention::<ProtectAllRetentionAuthority, P, C>,
            (policy, directory, authority, platform, clock),
            r,
        ),
    ensures
        r.reclaimed_file_count == 0,
        r.reclaimed_bytes == 0,
{
    let failed = exists|error: RetentionClockError| #[trigger]
        dates(clock, Err(error)) && r.reports_failure(0, policy, None, error.text());
    if !failed {
        let (at, free) = choose|at: u64, free: Result<u64, String>| #[trigger]
            dates(clock, Ok(at)) && #[trigger] probes(platform, directory, free) && reports_probed(
                r,
                policy,
                directory,
                authority,
                platform,
                at,
                free,
            );
        let unlisted = exists|error: String| #[trigger]
            lists(platform, directory, Err(error)) && r.reports_failure(
                at,
                policy,
                probed(free),
                error@,
            );
        if !unlisted {
            let inventory = choose|inventory: Vec<ManagedArtifact>| #[trigger]
                lists(platform, directory, Ok(inventory)) && reports_listed(
                    r,
                    policy,
                    directory,
                    authority,
                    platform,
                    at,
                    free,
                    inventory,
                );
            let unclassified = exists|cause: String| #[trigger]
                classifies(authority, &inventory, Err(cause)) && r.reports_failure(
                    at,
                    policy,
                    probed(free),
                    authority_failed_message(cause@),
                );
            if !unclassified {
                let list = choose|list: Vec<RetentionAuthorization>| #[trigger]
                    classifies(authority, &inventory, Ok(list)) && reports_classified(
                        r,
                        policy,
                        directory,
                        authority,
                        platform,
                        at,
                        free,
                        inventory@,
                        list@,
                    );
                assert forall|i: int| 0 <= i < list@.len() implies (
                #[trigger] list@[i]).classification is Protected by {
                    law_protect_all_releases_nothing(authority, &inventory, Ok(list), i);
                }
                if list@.len() == inventory@.len() {
                    let (sweep, outcomes, recheck) = choose|
                        sweep: RetentionSweep,
                        outcomes: Seq<Result<RetentionDeletionOutcome, String>>,
                        recheck: Result<u64, String>,
                    |
                        {
                            &&& sweep.policy == policy
                            &&& sweep.swept_at_unix_ms == at
                            &&& #[trigger] swept(
                                sweep,
                                directory@,
                                free,
                                inventory@,
                                list@,
                                outcomes,
                            )
                            &&& forall|i: int|
                                0 <= i < outcomes.len() ==> settles(
                                    authority,
                                    &sweep.plan.deletions@[i],
                                    platform,
                                    #[trigger] outcomes[i],
                                )
                            &&& probes(platform, directory, recheck)
                            &&& #[trigger] sweep.reported_by(directory@, recheck, r)
                        };
                    lemma_nothing_to_delete(
                        sweep,
                        directory@,
                        free,
                        inventory@,
                        list@,
                        outcomes,
                    );
                }
            }
        }
    }
}

/// A clock that cannot date a sweep says why.
pub proof fn law_refused_clock_says_why(error: RetentionClockError, r: String)
    requires
        call_ensures(RetentionClockError::message, (error,), r),
    ensures
        error matches RetentionClockError::ClockBeforeUnixEpoch ==> r@ == "system clock is before the Unix epoch"@,
        error matches RetentionClockError::ClockOutOfRange ==> r@ == "system clock is outside the supported millisecond range"@,
{
}

/// Whether a file was listed, let go and then deleted.
pub open spec fn was_let_go<A: FinalRetentionAuthority<P>, P: RetentionPlatform>(
    authority: &A,
    platform: &P,
    directory: &str,
    inventory: Vec<ManagedArtifact>,
    list: Vec<RetentionAuthorization>,
    candidate: RetentionCandidate,
    k: int,
) -> bool {
    &&& lists(platform, directory, Ok(inventory))
    &&& classifies(authority, &inventory, Ok(list))
    &&& inventory@.len() == list@.len()
    &&& 0 <= k < inventory@.len()
    &&& lets_go(inventory@[k], list@[k])
    &&& candidate.path == inventory@[k].path
    &&& candidate.file_size_bytes == inventory@[k].file_size_bytes
    &&& candidate.authorization == list@[k]
    &&& settles(authority, &candidate, platform, Ok(RetentionDeletionOutcome::Deleted))
}

/// Whether a listing holds a capture that is too old, with a later one beside it.
pub open spec fn lists_expired(inventory: Seq<ManagedArtifact>, at: u64, max_age: u64) -> bool {
    exists|i: int, j: int|
        0 <= i < inventory.len() && 0 <= j < inventory.len() && (
        #[trigger] inventory[j]).captured_at_unix_ms > (#[trigger] inventory[i]).captured_at_unix_ms
            && inventory[i].captured_at_unix_ms + max_age <= at
}

proof fn lemma_counted_was_deleted(
    plan: RetentionPlan,
    outcomes: Seq<Result<RetentionDeletionOutcome, String>>,
    n: int,
) -> (k: int)
    requires
        0 <= n <= outcomes.len(),
        tally_after(plan, outcomes, n).reclaimed_file_count > 0,
    ensures
        0 <= k < n,
        outcomes[k] == Ok::<RetentionDeletionOutcome, String>(RetentionDeletionOutcome::Deleted),
    decreases n,
{
    if outcomes[n - 1] == Ok::<RetentionDeletionOutcome, String>(RetentionDeletionOutcome::Deleted) {
        n - 1
    } else {
        lemma_counted_was_deleted(plan, outcomes, n - 1)
    }
}

proof fn lemma_how_a_sweep_ends<A: FinalRetentionAuthority<P>, P: RetentionPlatform, C: RetentionClock>(
    policy: RetentionPolicy,
    directory: &str,
    authority: &A,
    platform: &P,
    clock: &C,
    r: RetentionTelemetry,
) -> (run: (
    bool,
    Result<u64, String>,
    Vec<ManagedArtifact>,
    Vec<RetentionAuthorization>,
    RetentionSweep,
    Seq<Result<RetentionDeletionOutcome, String>>,
))
    requires
        reports_sweep(r, policy, directory, authority, platform, clock),
    ensures
        ({
            let (swept_through, free, inventory, list, sweep, outcomes) = run;
            &&& dates(clock, Ok(r.swept_at_unix_ms)) || (exists|error: RetentionClockError|
                #[trigger] dates(clock, Err(error)) && r.swept_at_unix_ms == 0)
            &&& swept_through ==> {
                &&& dates(clock, Ok(r.swept_at_unix_ms))
                &&& lists(platform, directory, Ok(inventory))
                &&& classifies(authority, &inventory, Ok(list))
                &&& sweep.policy == policy
                &&& sweep.swept_at_unix_ms == r.swept_at_unix_ms
                &&& swept(sweep, directory@, free, inventory@, list@, outcomes)
                &&& forall|i: int|
                    0 <= i < outcomes.len() ==> settles(
                        authority,
                        &sweep.plan.deletions@[i],
                        platform,
                        #[trigger] outcomes[i],
                    )
                &&& r.reclaimed_file_count == sweep.tally.reclaimed_file_count
            }
            &&& !swept_through ==> {
                &&& r.reclaimed_file_count == 0
                &&& r.error is Some
                &&& {
                    ||| exists|error: RetentionClockError| #[trigger] dates(clock, Err(error))
                    ||| exists|error: String| #[trigger] lists(platform, directory, Err(error))
                    ||| lists(platform, directory, Ok(inventory)) && exists|error: String|
                        #[trigger] classifies(authority, &inventory, Err(error))
                    ||| lists(platform, directory, Ok(inventory)) && classifies(
                        authority,
                        &inventory,
                        Ok(list),
                    ) && list@.len() != inventory@.len()
                }
            }
        }),
{
    let failed = exists|error: RetentionClockError| #[trigger]
        dates(clock, Err(error)) && r.reports_failure(0, policy, None, error.text());
    if failed {
        (false, arbitrary(), arbitrary(), arbitrary(), arbitrary(), arbitrary())
    } else {
        let (at, free) = choose|at: u64, free: Result<u64, String>| #[trigger]
            dates(clock, Ok(at)) && #[trigger] probes(platform, directory, free) && reports_probed(
                r,
                policy,
                directory,
                authority,
                platform,
                at,
                free,
            );
        let unlisted = exists|error: String| #[trigger]
            lists(platform, directory, Err(error)) && r.reports_failure(
                at,
                policy,
                probed(free),
                error@,
            );
        if unlisted {
            (false, free, arbitrary(), arbitrary(), arbitrary(), arbitrary())
        } else {
            let inventory = choose|inventory: Vec<ManagedArtifact>| #[trigger]
                lists(platform, directory, Ok(inventory)) && reports_listed(
                    r,
                    policy,
                    directory,
                    authority,
                    platform,
                    at,
                    free,
                    inventory,
                );
            let unclassified = exists|cause: String| #[trigger]
                classifies(authority, &inventory, Err(cause)) && r.reports_failure(
                    at,
                    policy,
                    probed(free),
                    authority_failed_message(cause@),
                );
            if unclassified {
                (false, free, inventory, arbitrary(), arbitrary(), arbitrary())
            } else {
                let list = choose|list: Vec<RetentionAuthorization>| #[trigger]
                    classifies(authority, &inventory, Ok(list)) && reports_classified(
                        r,
                        policy,
                        directory,
                        authority,
                        platform,
                        at,
                        free,
                        inventory@,
                        list@,
                    );
                if list@.len() != inventory@.len() {
                    (false, free, inventory, list, arbitrary(), arbitrary())
                } else {
                    let (sweep, outcomes, recheck) = choose|
                        sweep: RetentionSweep,
                        outcomes: Seq<Result<RetentionDeletionOutcome, String>>,
                        recheck: Result<u64, String>,
                    |
                        {
                            &&& sweep.policy == policy
                            &&& sweep.swept_at_unix_ms == at
                            &&& #[trigger] swept(
                                sweep,
                                directory@,
                                free,
                                inventory@,
                                list@,
                                outcomes,
                            )
                            &&& forall|i: int|
                                0 <= i < outcomes.len() ==> settles(
                                    authority,
                                    &sweep.plan.deletions@[i],
                                    platform,
                                    #[trigger] outcomes[i],
                                )
                            &&& probes(platform, directory, recheck)
                            &&& #[trigger] sweep.reported_by(directory@, recheck, r)
                        };
                    (true, free, inventory, list, sweep, outcomes)
                }
            }
        }
    }
}

/// A sweep is dated by its clock, and reclaims only where a listed file was let go and
/// then deleted.
pub proof fn law_only_released_files_are_reclaimed<
    A: FinalRetentionAuthority<P>,
    P: RetentionPlatform,
    C: RetentionClock,
>(
    policy: RetentionPolicy,
    directory: &str,
    authority: &A,
    platform: &P,
    clock: &C,
    r: RetentionTelemetry,
)
    requires
        call_ensures(
            sweep_retention::<A, P, C>,
            (policy, directory, authority, platform, clock),
            r,
        ),
    ensures
        dates(clock, Ok(r.swept_at_unix_ms)) || r.swept_at_unix_ms == 0,
        r.reclaimed_file_count > 0 ==> dates(clock, Ok(r.swept_at_unix_ms)),
        r.reclaimed_file_count > 0 ==> exists|
            inventory: Vec<ManagedArtifact>,
            list: Vec<RetentionAuthorization>,
            candidate: RetentionCandidate,
            k: int,
        | #[trigger]
            was_let_go(authority, platform, directory, inventory, list, candidate, k),
{
    let (through, free, inventory, list, sweep, outcomes) = lemma_how_a_sweep_ends(
        policy,
        directory,
        authority,
        platform,
        clock,
        r,
    );
    if r.reclaimed_file_count > 0 {
        let n = lemma_counted_was_deleted(sweep.plan, outcomes, outcomes.len() as int);
        let x = sweep.plan.deletions@[n];
        let all = candidates_for(inventory@, list@);
        assert(sweep.plan.deletions@.contains(x));
        retention::law_plan_never_deletes_protected(
            sweep.plan,
            policy,
            sweep.swept_at_unix_ms,
            probed(free),
            all,
            x,
        );
        let k = choose|k: int| 0 <= k < all.len() && all[k] == x;
        assert(x == candidate_for(inventory@[k], list@[k]));
        assert(settles(authority, &sweep.plan.deletions@[n], platform, outcomes[n]));
        assert(was_let_go(authority, platform, directory, inventory, list, x, k));
    }
}

/// A local directory that holds a capture that is too old, with a later one beside it, is
/// swept of something, where it can be listed and its files deleted.
pub proof fn law_expired_local_capture_is_reclaimed<P: RetentionPlatform, C: RetentionClock>(
    policy: RetentionPolicy,
    directory: &str,
    authority: &LocalOnlyRetentionAuthority,
    platform: &P,
    clock: &C,
    at: u64,
    max_age: u64,
    r: RetentionTelemetry,
)
    requires
        call_ensures(
            sweep_retention::<LocalOnlyRetentionAuthority, P, C>,
            (policy, directory, authority, platform, clock),
            r,
        ),
        policy.max_age_ms == Some(max_age),
        forall|now: Result<u64, RetentionClockError>| #[trigger]
            dates(clock, now) ==> now == Ok::<u64, RetentionClockError>(at),
        forall|listing: Result<Vec<ManagedArtifact>, String>| #[trigger]
            lists(platform, directory, listing) ==> (listing matches Ok(inventory)
                && lists_expired(inventory@, at, max_age)),
        forall|candidate: RetentionCandidate, outcome: Result<RetentionDeletionOutcome, String>|
            #[trigger] settles(authority, &candidate, platform, outcome) ==> (outcome matches Ok(
                RetentionDeletionOutcome::Deleted,
            )),
    ensures
        r.swept_at_unix_ms == at,
        r.reclaimed_file_count > 0,
{
    let (through, free, inventory, list, sweep, outcomes) = lemma_how_a_sweep_ends(
        policy,
        directory,
        authority,
        platform,
        clock,
        r,
    );
    if exists|error: String| #[trigger] classifies(authority, &inventory, Err(error)) {
        let error = choose|error: String| #[trigger] classifies(authority, &inventory, Err(error));
        law_local_files_are_released_at_their_size(authority, &inventory, Err(error), 0);
    }
    if classifies(authority, &inventory, Ok(list)) {
        law_local_files_are_released_at_their_size(authority, &inventory, Ok(list), 0);
    }
    assert(through);
    let (i, j) = choose|i: int, j: int|
        0 <= i < inventory@.len() && 0 <= j < inventory@.len() && (
        #[trigger] inventory@[j]).captured_at_unix_ms > (
        #[trigger] inventory@[i]).captured_at_unix_ms && inventory@[i].captured_at_unix_ms
            + max_age <= at;
    law_local_files_are_released_at_their_size(authority, &inventory, Ok(list), i);
    let all = candidates_for(inventory@, list@);
    assert(all[i] == candidate_for(inventory@[i], list@[i]));
    assert(all[j].captured_at_unix_ms > all[i].captured_at_unix_ms);
    retention::lemma_expired_is_planned(
        sweep.plan,
        policy,
        at,
        probed(free),
        all,
        max_age,
        i,
    );
    let n = outcomes.len() as int;
    assert(n > 0);
    assert(settles(authority, &sweep.plan.deletions@[n - 1], platform, outcomes[n - 1]));
}

/// Whether an artifact is released at another size than it has.
pub open spec fn is_released_at_another_size(
    artifact: ManagedArtifact,
    authorization: RetentionAuthorization,
) -> bool {
    &&& authorization.classification is Reclaimable
    &&& authorization.expected_file_size_bytes is Some
    &&& authorization.expected_file_size_bytes->0 != artifact.file_size_bytes
}

proof fn lemma_size_errors(
    inventory: Seq<ManagedArtifact>,
    authorizations: Seq<RetentionAuthorization>,
    n: int,
)
    requires
        0 <= n <= inventory.len(),
    ensures
        size_errors(inventory, authorizations, n).len() == Seq::new(n as nat, |i: int| i).filter(
            |i: int| is_released_at_another_size(inventory[i], authorizations[i]),
        ).len(),
    decreases n,
{
    reveal(Seq::filter);
    if n > 0 {
        lemma_size_errors(inventory, authorizations, n - 1);
        let all = Seq::new(n as nat, |i: int| i);
        assert(all.drop_last() =~= Seq::new((n - 1) as nat, |i: int| i));
        assert(all.last() == n - 1);
    }
}

/// A sweep begins with one error for each artifact that is released at another size than
/// it has, and one more where the free space that a limit asks for could not be measured.
pub proof fn law_changed_sizes_are_told(
    policy: RetentionPolicy,
    directory: &str,
    swept_at_unix_ms: u64,
    free: Result<u64, String>,
    inventory: Vec<ManagedArtifact>,
    authorizations: Vec<RetentionAuthorization>,
    r: Result<RetentionSweep, RetentionTelemetry>,
)
    requires
        call_ensures(
            RetentionSweep::begin,
            (policy, directory, swept_at_unix_ms, free, inventory, authorizations),
            r,
        ),
    ensures
        r matches Ok(sweep) ==> {
            let changed = Seq::new(inventory@.len(), |i: int| i).filter(
                |i: int| is_released_at_another_size(inventory@[i], authorizations@[i]),
            ).len();
            let unmeasured = free is Err && policy.min_free_bytes is Some;
            &&& unmeasured ==> sweep.errors.reported@.len() == changed + 1
            &&& !unmeasured ==> sweep.errors.reported@.len() == changed
        },
{
    lemma_size_errors(inventory@, authorizations@, inventory@.len() as int);
}

} // verus!
