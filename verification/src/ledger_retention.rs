//! Retention of captures that an upload ledger answers for: only what was uploaded
//! may go.

use vstd::prelude::*;

use crate::retention;
use crate::retention::{RetentionAuthorization, RetentionCandidate};
use crate::sweep;
use crate::sweep::{
    relay_deletion, ExactDeleteOutcome, FinalRetentionAuthority, ManagedArtifact,
    RetentionAuthority, RetentionDeletionOutcome, RetentionPlatform,
};
use crate::text::{same_bytes, same_text};
use crate::upload_record::{UploadJobRecord, UploadState};
use crate::upload_store;
use crate::upload_store::UploadStore;

verus! {

broadcast use vstd::string::group_string_axioms;

/// Whether the job at `i` is the one that stands for a path.
pub open spec fn stands_for(store: UploadStore, path: Seq<char>, i: int) -> bool {
    &&& store.records_path(path, i)
    &&& forall|k: int| 0 <= k < i ==> !(#[trigger] store.records_path(path, k))
}

/// Whether the ledger releases a path: its upload is completed.
pub open spec fn releases(store: UploadStore, path: Seq<char>) -> bool {
    exists|i: int| #[trigger]
        stands_for(store, path, i) && store.jobs@[i].state == UploadState::Completed
}

/// What a ledger allows to be done with a capture. A completed upload may be
/// deleted as the file that was recorded; whatever is pending, active, retrying,
/// permanently failed or unknown is protected.
pub open spec fn ledger_authorization(store: UploadStore, path: Seq<char>) ->
    RetentionAuthorization {
    if releases(store, path) {
        released_as(store.jobs@[choose|i: int| stands_for(store, path, i)])
    } else {
        RetentionAuthorization::protection()
    }
}

/// The authorization to delete exactly the file that a job recorded.
pub open spec fn released_as(job: UploadJobRecord) -> RetentionAuthorization {
    RetentionAuthorization {
        classification: retention::RetentionClassification::Reclaimable,
        expected_file_size_bytes: Some(job.file_size),
        expected_sha256: Some(job.sha256),
    }
}

/// Whether two authorizations allow the same.
pub open spec fn allow_same(a: RetentionAuthorization, b: RetentionAuthorization) -> bool {
    &&& a.classification == b.classification
    &&& a.expected_file_size_bytes == b.expected_file_size_bytes
    &&& match (a.expected_sha256, b.expected_sha256) {
        (Some(x), Some(y)) => x@ == y@,
        (None, None) => true,
        _ => false,
    }
}

fn check_allow_same(a: &RetentionAuthorization, b: &RetentionAuthorization) -> (r: bool)
    ensures
        r == allow_same(*a, *b),
{
    if a.is_reclaimable() != b.is_reclaimable() {
        return false;
    }
    let same_size = match (a.expected_file_size_bytes, b.expected_file_size_bytes) {
        (Some(x), Some(y)) => x == y,
        (None, None) => true,
        _ => false,
    };
    let same_digest = match (&a.expected_sha256, &b.expected_sha256) {
        (Some(x), Some(y)) => same_bytes(x.as_slice(), y.as_slice()),
        (None, None) => true,
        _ => false,
    };
    same_size && same_digest
}

impl UploadStore {
    /// What this ledger allows to be done with a capture.
    pub fn retention_authorization(&self, path: &str) -> (r: RetentionAuthorization)
        ensures
            r == ledger_authorization(*self, path@),
    {
        let mut i: usize = 0;
        while i < self.jobs.len()
            invariant
                i <= self.jobs.len(),
                forall|k: int| 0 <= k < i ==> !(#[trigger] self.records_path(path@, k)),
            decreases self.jobs.len() - i,
        {
            if same_text(self.jobs[i].artifact_path.as_str(), path) {
                assert(stands_for(*self, path@, i as int));
                assert forall|k: int| #[trigger] stands_for(*self, path@, k) implies k == i by {
                    assert(self.records_path(path@, k));
                    assert(self.records_path(path@, i as int));
                }
                let completed = match self.jobs[i].state {
                    UploadState::Completed => true,
                    _ => false,
                };
                if completed {
                    return RetentionAuthorization::reclaimable(
                        Some(self.jobs[i].file_size),
                        Some(self.jobs[i].sha256),
                    );
                }
                return RetentionAuthorization::protected();
            }
            assert(!self.records_path(path@, i as int));
            i = i + 1;
        }
        assert(!releases(*self, path@));
        RetentionAuthorization::protected()
    }
}

impl RetentionAuthority for UploadStore {
    fn classify_inventory(&self, inventory: &Vec<ManagedArtifact>) -> (r: Result<
        Vec<RetentionAuthorization>,
        String,
    >)
        ensures
            r matches Ok(list) && list@ == Seq::new(
                inventory@.len(),
                |i: int| ledger_authorization(*self, inventory@[i].path@),
            ),
    {
        let mut list: Vec<RetentionAuthorization> = Vec::new();
        let mut i: usize = 0;
        while i < inventory.len()
            invariant
                i <= inventory.len(),
                list@ == Seq::new(
                    i as nat,
                    |k: int| ledger_authorization(*self, inventory@[k].path@),
                ),
            decreases inventory.len() - i,
        {
            list.push(self.retention_authorization(inventory[i].path.as_str()));
            assert(list@ =~= Seq::new(
                (i + 1) as nat,
                |k: int| ledger_authorization(*self, inventory@[k].path@),
            ));
            i = i + 1;
        }
        Ok(list)
    }
}

/// Whether a candidate is still released as it was classified.
pub open spec fn still_released(store: UploadStore, candidate: RetentionCandidate) -> bool {
    let current = ledger_authorization(store, candidate.path@);
    &&& current.reclaims()
    &&& allow_same(current, candidate.authorization)
}

impl<P: RetentionPlatform> FinalRetentionAuthority<P> for UploadStore {
    fn delete_if_still_authorized(
        &self,
        candidate: &RetentionCandidate,
        platform: &P,
    ) -> (r: Result<RetentionDeletionOutcome, String>)
        ensures
            if still_released(*self, *candidate) {
                exists|result: Result<ExactDeleteOutcome, String>| #[trigger]
                    sweep::removes(
                        platform,
                        candidate,
                        ledger_authorization(*self, candidate.path@),
                        result,
                    ) && r == sweep::relayed(result)
            } else {
                r == Ok::<RetentionDeletionOutcome, String>(RetentionDeletionOutcome::Protected)
            },
    {
        let current = self.retention_authorization(candidate.path.as_str());
        if !current.is_reclaimable() || !check_allow_same(&current, &candidate.authorization) {
            return Ok(RetentionDeletionOutcome::Protected);
        }
        let result = platform.delete_exact(candidate, current);
        assert(sweep::removes(platform, candidate, current, result));
        relay_deletion(result)
    }
}

/// A ledger lets go of a capture exactly if the upload of that path is completed,
/// and then only of a file with the size and digest that were recorded.
pub proof fn law_only_completed_uploads_are_released(store: UploadStore, path: Seq<char>)
    requires
        store.wf(),
    ensures
        ledger_authorization(store, path).reclaims() <==> exists|i: int| #[trigger]
            store.records_path(path, i) && store.jobs@[i].state == UploadState::Completed,
        forall|i: int| #[trigger]
            store.records_path(path, i) ==> ledger_authorization(store, path) == (if store.jobs@[i].state
                == UploadState::Completed {
                released_as(store.jobs@[i])
            } else {
                RetentionAuthorization::protection()
            }),
        (forall|i: int| !(#[trigger] store.records_path(path, i))) ==> ledger_authorization(
            store,
            path,
        ) == RetentionAuthorization::protection(),
{
    reveal(upload_store::distinct);
    assert forall|i: int| #[trigger] store.records_path(path, i) implies stands_for(
        store,
        path,
        i,
    ) && forall|k: int| #[trigger] stands_for(store, path, k) ==> k == i by {
        assert forall|k: int| #[trigger] store.records_path(path, k) implies k == i by {
            assert(store.jobs@[k].artifact_path@ == store.jobs@[i].artifact_path@);
        }
    }
}

/// A ledger releases a capture exactly where a job with its path is completed, and then
/// as the file of that job's size and digest. Whatever is unknown, waiting, being sent
/// or given up is protected.
pub proof fn law_ledger_answers_for_its_captures(
    store: &UploadStore,
    path: &str,
    i: int,
    r: RetentionAuthorization,
)
    requires
        call_ensures(UploadStore::retention_authorization, (store, path), r),
        store.wf(),
    ensures
        0 <= i < store.jobs@.len() && store.jobs@[i].artifact_path@ == path@ ==> {
            &&& r.classification is Reclaimable <==> store.jobs@[i].state is Completed
            &&& r.classification is Reclaimable ==> r.expected_file_size_bytes == Some(
                store.jobs@[i].file_size,
            ) && r.expected_sha256 == Some(store.jobs@[i].sha256)
        },
        (forall|k: int|
            0 <= k < store.jobs@.len() ==> (#[trigger] store.jobs@[k]).artifact_path@ != path@)
            ==> r.classification is Protected,
{
    law_only_completed_uploads_are_released(*store, path@);
    assert(0 <= i < store.jobs@.len() && store.jobs@[i].artifact_path@ == path@
        ==> store.records_path(path@, i));
    if forall|k: int|
        0 <= k < store.jobs@.len() ==> (#[trigger] store.jobs@[k]).artifact_path@ != path@ {
        assert forall|k: int| !(#[trigger] store.records_path(path@, k)) by {
            if store.records_path(path@, k) {
                assert(store.jobs@[k].artifact_path@ == path@);
            }
        }
    }
}

/// An inventory is answered capture by capture, in its order.
pub proof fn law_inventory_is_answered_in_order(
    store: &UploadStore,
    inventory: &Vec<ManagedArtifact>,
    r: Result<Vec<RetentionAuthorization>, String>,
    k: int,
    i: int,
)
    requires
        call_ensures(UploadStore::classify_inventory, (store, inventory), r),
        store.wf(),
        0 <= k < inventory@.len(),
        0 <= i < store.jobs@.len(),
        store.jobs@[i].artifact_path@ == inventory@[k].path@,
    ensures
        r matches Ok(list) && list@.len() == inventory@.len() && (
        list@[k].classification is Reclaimable <==> store.jobs@[i].state is Completed) && (
        list@[k].classification is Reclaimable ==> list@[k].expected_sha256 == Some(
            store.jobs@[i].sha256,
        )),
{
    law_only_completed_uploads_are_released(*store, inventory@[k].path@);
    assert(store.records_path(inventory@[k].path@, i));
}

/// A capture whose job is not completed when it is about to go stays, whatever it was
/// classified as before; and so does one that the ledger does not know.
pub proof fn law_unfinished_upload_keeps_its_file<P: RetentionPlatform>(
    store: &UploadStore,
    candidate: &RetentionCandidate,
    platform: &P,
    r: Result<RetentionDeletionOutcome, String>,
)
    requires
        call_ensures(
            <UploadStore as FinalRetentionAuthority<P>>::delete_if_still_authorized,
            (store, candidate, platform),
            r,
        ),
        store.wf(),
        forall|k: int|
            0 <= k < store.jobs@.len() && (#[trigger] store.jobs@[k]).artifact_path@
                == candidate.path@ ==> store.jobs@[k].state !is Completed,
    ensures
        r matches Ok(outcome) && outcome is Protected,
{
    law_only_completed_uploads_are_released(*store, candidate.path@);
    assert(!ledger_authorization(*store, candidate.path@).reclaims()) by {
        assert forall|k: int| #[trigger]
            store.records_path(candidate.path@, k) implies store.jobs@[k].state
            != UploadState::Completed by {}
    }
}

/// A completed capture goes as the platform can delete exactly the recorded file, as
/// long as it was classified as that file; otherwise it stays.
pub proof fn law_completed_upload_goes_as_recorded<P: RetentionPlatform>(
    store: &UploadStore,
    candidate: &RetentionCandidate,
    platform: &P,
    i: int,
    r: Result<RetentionDeletionOutcome, String>,
)
    requires
        call_ensures(
            <UploadStore as FinalRetentionAuthority<P>>::delete_if_still_authorized,
            (store, candidate, platform),
            r,
        ),
        store.wf(),
        0 <= i < store.jobs@.len(),
        store.jobs@[i].artifact_path@ == candidate.path@,
        store.jobs@[i].state is Completed,
    ensures
        ({
            let job = store.jobs@[i];
            let given = candidate.authorization;
            let same = given.classification is Reclaimable && given.expected_file_size_bytes == Some(
                job.file_size,
            ) && (given.expected_sha256 matches Some(digest) && digest@ == job.sha256@);
            &&& !same ==> r == Ok::<RetentionDeletionOutcome, String>(
                RetentionDeletionOutcome::Protected,
            )
            &&& same ==> exists|expectation: RetentionAuthorization, result: Result<
                ExactDeleteOutcome,
                String,
            >|
                {
                    &&& #[trigger] sweep::removes(platform, candidate, expectation, result)
                    &&& expectation.expected_file_size_bytes == Some(job.file_size)
                    &&& expectation.expected_sha256 == Some(job.sha256)
                    &&& result is Err <==> r is Err
                    &&& result matches Ok(done) ==> (r matches Ok(told) && (told is Deleted <==> done
                        is Deleted) && told !is Protected)
                }
        }),
{
    law_only_completed_uploads_are_released(*store, candidate.path@);
    assert(store.records_path(candidate.path@, i));
}

} // verus!
