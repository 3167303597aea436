//! Reconciling a capture directory with the upload ledger: every generated frame
//! that a crash kept from the ledger is recorded, once.

use vstd::prelude::*;

use crate::order;
use crate::upload_artifact;
use crate::upload_artifact::{EntryClass, ReconcileEntry, ReconcileResult};
use crate::upload_record;
use crate::upload_record::UploadStoreError;
use crate::upload_store;
use crate::upload_store::{
    ArtifactValues, RecordArtifactResult, RecordDisposition, UploadStore,
};

verus! {

broadcast use vstd::string::group_string_axioms;

/// What reading the artifacts of a reconciliation came to, in the order of their
/// paths.
pub type ArtifactReadings = Vec<Result<ArtifactValues, UploadStoreError>>;

/// The paths that a reconciliation has to read, in the order in which it does.
pub open spec fn paths_to_read(store: UploadStore, entries: Seq<ReconcileEntry>) -> Seq<String> {
    order::ascending(upload_artifact::unrecorded_paths(store, entries, entries.len() as int))
}

/// Whether the artifact at `i` was read and recorded.
pub open spec fn is_step(
    stores: Seq<UploadStore>,
    results: Seq<RecordArtifactResult>,
    readings: Seq<Result<ArtifactValues, UploadStoreError>>,
    at: u64,
    i: int,
) -> bool {
    readings[i] matches Ok(values) && upload_store::is_recording(
        stores[i],
        stores[i + 1],
        values,
        at,
        Ok(results[i]),
    )
}

/// The recordings of a reconciliation, one after the other: `stores` holds the
/// ledger before each of them and after the last.
pub open spec fn are_recordings(
    stores: Seq<UploadStore>,
    results: Seq<RecordArtifactResult>,
    readings: Seq<Result<ArtifactValues, UploadStoreError>>,
    at: u64,
) -> bool {
    &&& stores.len() == results.len() + 1
    &&& results.len() <= readings.len()
    &&& forall|i: int|
        0 <= i < results.len() ==> #[trigger] is_step(stores, results, readings, at, i)
}

/// How many of the first `n` recordings came out in this way.
pub open spec fn tally(
    results: Seq<RecordArtifactResult>,
    disposition: RecordDisposition,
    n: int,
) -> nat
    decreases n,
{
    if n <= 0 {
        0
    } else {
        tally(results, disposition, n - 1) + if results[n - 1].disposition == disposition {
            1nat
        } else {
            0nat
        }
    }
}

/// Why a reconciliation stops before anything is recorded, if it does.
pub open spec fn is_scan_fault(
    store: UploadStore,
    entries: Seq<ReconcileEntry>,
    at: u64,
    error: UploadStoreError,
) -> bool {
    if !upload_record::fits_i64(at) {
        error == UploadStoreError::TimestampOutOfRange(at)
    } else {
        exists|i: int|
            {
                &&& 0 <= i < entries.len()
                &&& upload_artifact::entry_fault(store, #[trigger] entries[i]) == Some(error)
                &&& forall|j: int|
                    0 <= j < i ==> upload_artifact::entry_fault(store, #[trigger] entries[j])
                        is None
            }
    }
}

/// Whether nothing stops a reconciliation before it records.
pub open spec fn scans_clean(store: UploadStore, entries: Seq<ReconcileEntry>, at: u64) -> bool {
    &&& upload_record::fits_i64(at)
    &&& forall|i: int|
        0 <= i < entries.len() ==> upload_artifact::entry_fault(store, #[trigger] entries[i])
            is None
}

/// Whether these recordings account for how a reconciliation came out.
pub open spec fn accounts_for(
    stores: Seq<UploadStore>,
    results: Seq<RecordArtifactResult>,
    before: UploadStore,
    after: UploadStore,
    entries: Seq<ReconcileEntry>,
    readings: Seq<Result<ArtifactValues, UploadStoreError>>,
    at: u64,
    r: Result<ReconcileResult, UploadStoreError>,
) -> bool {
    let n = entries.len() as int;
    let k = results.len() as int;
    &&& are_recordings(stores, results, readings, at)
    &&& stores[0] == before
    &&& match r {
        Ok(counts) => {
            &&& stores[k] == after
            &&& k == readings.len()
            &&& counts.examined == n
            &&& counts.eligible == upload_artifact::recorded_entries(before, entries, n) + k
            &&& counts.inserted == tally(results, RecordDisposition::Inserted, k)
            &&& counts.already_recorded == upload_artifact::recorded_entries(before, entries, n)
                + tally(results, RecordDisposition::AlreadyRecorded, k)
        },
        Err(error) => {
            &&& k < readings.len()
            &&& match readings[k] {
                Ok(values) => upload_store::is_recording(stores[k], after, values, at, Err(error)),
                Err(failure) => stores[k] == after && error == failure,
            }
        },
    }
}

/// Whether a reconciliation came out as it has to: an entry that cannot be judged
/// stops it before anything is recorded, and otherwise the artifacts are recorded
/// in order up to the first that fails.
pub open spec fn is_reconciliation(
    before: UploadStore,
    after: UploadStore,
    entries: Seq<ReconcileEntry>,
    readings: Seq<Result<ArtifactValues, UploadStoreError>>,
    at: u64,
    r: Result<ReconcileResult, UploadStoreError>,
) -> bool {
    if scans_clean(before, entries, at) {
        exists|stores: Seq<UploadStore>, results: Seq<RecordArtifactResult>| #[trigger]
            accounts_for(stores, results, before, after, entries, readings, at, r)
    } else {
        &&& after == before
        &&& r matches Err(error) && is_scan_fault(before, entries, at, error)
    }
}

impl UploadStore {
    /// Record what the capture directory holds and the ledger does not. The
    /// artifacts were read in the order in which a scan of these entries lists
    /// their paths.
    pub fn reconcile_capture_directory(
        &mut self,
        entries: &Vec<ReconcileEntry>,
        readings: ArtifactReadings,
        recorded_at_unix_ms: u64,
    ) -> (r: Result<ReconcileResult, UploadStoreError>)
        requires
            old(self).wf(),
            scans_clean(*old(self), entries@, recorded_at_unix_ms) ==> readings@.len()
                == paths_to_read(*old(self), entries@).len(),
        ensures
            final(self).wf(),
            old(self).history_kept(*final(self)),
            old(self).agrees() ==> final(self).agrees(),
            is_reconciliation(
                *old(self),
                *final(self),
                entries@,
                readings@,
                recorded_at_unix_ms,
                r,
            ),
            r matches Ok(counts) ==> counts.eligible == counts.inserted + counts.already_recorded,
    {
        let ghost before = *self;
        let ghost all = readings@;
        let ghost n = entries@.len() as int;
        let scan = self.scan_capture_directory(entries, recorded_at_unix_ms)?;
        let mut counts = scan.result;
        proof {
            order::law_ascending_keeps_all(
                upload_artifact::unrecorded_paths(before, entries@, n),
            );
        }
        let ghost mut stores = seq![before];
        let ghost mut results = Seq::<RecordArtifactResult>::empty();
        for reading in it: readings
            invariant
                before == *old(self),
                it.seq() == all,
                all.len() == paths_to_read(before, entries@).len(),
                scans_clean(before, entries@, recorded_at_unix_ms),
                self.wf(),
                before.history_kept(*self),
                before.agrees() ==> self.agrees(),
                n == entries@.len(),
                results.len() == it.index(),
                are_recordings(stores, results, all, recorded_at_unix_ms),
                stores[0] == before,
                stores[results.len() as int] == *self,
                counts.examined == n,
                counts.eligible == upload_artifact::recorded_entries(before, entries@, n)
                    + all.len(),
                counts.inserted == tally(
                    results,
                    RecordDisposition::Inserted,
                    results.len() as int,
                ),
                counts.already_recorded == upload_artifact::recorded_entries(before, entries@, n)
                    + tally(results, RecordDisposition::AlreadyRecorded, results.len() as int),
                counts.inserted + counts.already_recorded == counts.eligible - all.len()
                    + results.len(),
        {
            let ghost k = results.len() as int;
            let ghost step = *self;
            assert(reading == all[k]);
            match reading {
                Ok(values) => {
                    match self.record_artifact(values, recorded_at_unix_ms) {
                        Ok(recorded) => {
                            proof {
                                let next = results.push(recorded);
                                lemma_tally_prefix(
                                    results,
                                    recorded,
                                    RecordDisposition::Inserted,
                                    k,
                                );
                                lemma_tally_prefix(
                                    results,
                                    recorded,
                                    RecordDisposition::AlreadyRecorded,
                                    k,
                                );
                                let prior = stores;
                                stores = stores.push(*self);
                                assert(are_recordings(stores, next, all, recorded_at_unix_ms)) by {
                                    assert forall|i: int| 0 <= i < next.len() implies #[trigger]
                                        is_step(stores, next, all, recorded_at_unix_ms, i) by {
                                        if i < k {
                                            assert(is_step(
                                                prior,
                                                results,
                                                all,
                                                recorded_at_unix_ms,
                                                i,
                                            ));
                                        }
                                    }
                                }
                                results = next;
                                lemma_kept_twice(before, step, *self);
                            }
                            let disposition = recorded.disposition;
                            counts.count(disposition)?;
                        },
                        Err(error) => {
                            proof {
                                lemma_kept_twice(before, step, *self);
                                let r = Err::<ReconcileResult, UploadStoreError>(error);
                                assert(accounts_for(
                                    stores,
                                    results,
                                    before,
                                    *self,
                                    entries@,
                                    all,
                                    recorded_at_unix_ms,
                                    r,
                                ));
                            }
                            return Err(error);
                        },
                    }
                },
                Err(failure) => {
                    proof {
                        let r = Err::<ReconcileResult, UploadStoreError>(failure);
                        assert(accounts_for(
                            stores,
                            results,
                            before,
                            *self,
                            entries@,
                            all,
                            recorded_at_unix_ms,
                            r,
                        ));
                    }
                    return Err(failure);
                },
            }
        }
        proof {
            let r = Ok::<ReconcileResult, UploadStoreError>(counts);
            assert(accounts_for(
                stores,
                results,
                before,
                *self,
                entries@,
                all,
                recorded_at_unix_ms,
                r,
            ));
        }
        Ok(counts)
    }
}

proof fn lemma_tally_prefix(
    results: Seq<RecordArtifactResult>,
    next: RecordArtifactResult,
    disposition: RecordDisposition,
    n: int,
)
    requires
        n <= results.len(),
    ensures
        tally(results.push(next), disposition, n) == tally(results, disposition, n),
    decreases n,
{
    if n > 0 {
        lemma_tally_prefix(results, next, disposition, n - 1);
        assert(results.push(next)[n - 1] == results[n - 1]);
    }
}

proof fn lemma_kept_twice(first: UploadStore, second: UploadStore, third: UploadStore)
    requires
        first.history_kept(second),
        second.history_kept(third),
    ensures
        first.history_kept(third),
{
    assert forall|i: int| 0 <= i < first.jobs@.len() implies {
        &&& (#[trigger] third.jobs@[i]).same_identity(first.jobs@[i])
        &&& third.jobs@[i].attempt_count >= first.jobs@[i].attempt_count
        &&& !first.jobs@[i].state.live() ==> third.jobs@[i] == first.jobs@[i]
    } by {
        assert(second.jobs@[i].same_identity(first.jobs@[i]));
    }
}

/// Whether these are the artifacts that a reconciliation of these entries reads,
/// where reading a path gives `read` of it.
pub open spec fn are_readings(
    readings: Seq<Result<ArtifactValues, UploadStoreError>>,
    store: UploadStore,
    entries: Seq<ReconcileEntry>,
    read: spec_fn(String) -> Result<ArtifactValues, UploadStoreError>,
) -> bool {
    let paths = paths_to_read(store, entries);
    &&& readings.len() == paths.len()
    &&& forall|i: int| 0 <= i < paths.len() ==> #[trigger] readings[i] == read(paths[i])
}

/// Whether no artifact was read from a path that the directory lists as something
/// other than a regular file.
pub open spec fn reads_only_files(
    readings: Seq<Result<ArtifactValues, UploadStoreError>>,
    entries: Seq<ReconcileEntry>,
) -> bool {
    forall|i: int, j: int|
        0 <= i < readings.len() && 0 <= j < entries.len() && entries[j].kind is Other ==> (
        #[trigger] readings[i] matches Ok(values) ==> values.artifact_path@
            != #[trigger] entries[j].path@)
}

/// Reconciling an unchanged directory again records nothing: whatever the first
/// reconciliation recorded or found recorded, the second finds recorded, and the
/// ledger stays as it is.
pub proof fn law_second_reconciliation_inserts_nothing(
    first: UploadStore,
    second: UploadStore,
    third: UploadStore,
    entries: Seq<ReconcileEntry>,
    read: spec_fn(String) -> Result<ArtifactValues, UploadStoreError>,
    readings: Seq<Result<ArtifactValues, UploadStoreError>>,
    readings_again: Seq<Result<ArtifactValues, UploadStoreError>>,
    at: u64,
    again_at: u64,
    counts: ReconcileResult,
    r: Result<ReconcileResult, UploadStoreError>,
)
    requires
        first.wf(),
        second.wf(),
        are_readings(readings, first, entries, read),
        reads_only_files(readings, entries),
        is_reconciliation(first, second, entries, readings, at, Ok(counts)),
        are_readings(readings_again, second, entries, read),
        is_reconciliation(second, third, entries, readings_again, again_at, r),
        upload_record::fits_i64(again_at),
    ensures
        counts.eligible == counts.inserted + counts.already_recorded,
        r matches Ok(again) && {
            &&& again.examined == counts.examined
            &&& again.eligible == counts.eligible
            &&& again.inserted == 0
            &&& again.already_recorded == counts.inserted + counts.already_recorded
        },
        third == second,
{
    let n = entries.len() as int;
    let (stores, results) = choose|stores: Seq<UploadStore>, results: Seq<RecordArtifactResult>|
     #[trigger]
        accounts_for(stores, results, first, second, entries, readings, at, Ok(counts));
    let k = results.len() as int;
    lemma_tally_whole(results, k);
    lemma_recordings_known(stores, results, readings, at, k);
    assert forall|i: int| 0 <= i < n implies {
        &&& upload_artifact::entry_fault(second, #[trigger] entries[i]) is None
        &&& eligible(second, entries[i]) == eligible(first, entries[i])
        &&& upload_artifact::entry_class(second, entries[i]) == EntryClass::Unrecorded
            ==> upload_artifact::entry_class(first, entries[i]) == EntryClass::Unrecorded
    } by {
        let path = entries[i].path@;
        assert(upload_artifact::entry_fault(first, entries[i]) is None);
        first.lemma_one_job_for_path(path);
        second.lemma_one_job_for_path(path);
        if first.knows(path) {
            if eligible(first, entries[i]) {
                let at = choose|at: int| first.records_path(path, at);
                assert(is_handed_out(first, path, at));
                assert(hands_out(first, path));
            }
        } else if second.knows(path) {
            let j = choose|j: int| 0 <= j < k && #[trigger] reads_path(readings, j, path);
            assert(readings[j] is Ok);
            assert(hands_out(second, path));
        }
        if hands_out(second, path) {
            let at = choose|at: int| #[trigger] is_handed_out(second, path, at);
            assert(second.records_path(path, at));
        }
    }
    lemma_eligible_count(first, second, entries, n);
    let unread = upload_artifact::unrecorded_paths(second, entries, n);
    order::law_ascending_keeps_all(unread);
    order::law_ascending_keeps_all(upload_artifact::unrecorded_paths(first, entries, n));
    assert forall|i: int| 0 <= i < readings_again.len() implies {
        &&& #[trigger] readings_again[i] is Ok
        &&& hands_out(second, readings_again[i]->Ok_0.artifact_path@)
        &&& upload_record::fits_i64(readings_again[i]->Ok_0.file_size)
    } by {
        let path = paths_to_read(second, entries)[i];
        lemma_same_members(paths_to_read(second, entries), unread, path);
        lemma_unrecorded_member(second, entries, n, path);
        let e = choose|e: int|
            0 <= e < n && #[trigger] is_unrecorded(second, entries[e]) && entries[e].path == path;
        assert(is_unrecorded(first, entries[e]));
        lemma_unrecorded_member(first, entries, n, path);
        lemma_same_members(
            paths_to_read(first, entries),
            upload_artifact::unrecorded_paths(first, entries, n),
            path,
        );
        let j = choose|j: int|
            0 <= j < paths_to_read(first, entries).len() && paths_to_read(first, entries)[j]
                == path;
        assert(readings[j] == read(path));
        assert(readings_again[i] == read(path));
        assert(is_step(stores, results, readings, at, j));
        assert(reads_path(readings, j, readings[j]->Ok_0.artifact_path@));
    }
    let (stores2, results2) = choose|
        stores2: Seq<UploadStore>,
        results2: Seq<RecordArtifactResult>,
    | #[trigger]
        accounts_for(
            stores2,
            results2,
            second,
            third,
            entries,
            readings_again,
            again_at,
            r,
        );
    assert forall|i: int| 0 <= i < readings_again.len() implies second.knows(
        (#[trigger] readings_again[i])->Ok_0.artifact_path@,
    ) by {
        let path = readings_again[i]->Ok_0.artifact_path@;
        let at = choose|at: int| #[trigger] is_handed_out(second, path, at);
        assert(second.records_path(path, at));
    }
    let k2 = results2.len() as int;
    lemma_nothing_new(stores2, results2, readings_again, again_at, k2);
    if r is Err {
        let path = readings_again[k2]->Ok_0.artifact_path@;
        second.lemma_one_job_for_path(path);
        let at = choose|at: int| #[trigger] is_handed_out(second, path, at);
        assert(second.records_path(path, at));
    }
}

/// Whether the job at `at` stands for a path and has a number that is handed out.
spec fn is_handed_out(store: UploadStore, path: Seq<char>, at: int) -> bool {
    store.records_path(path, at) && store.jobs@[at].job_id.0 > 0
}

spec fn hands_out(store: UploadStore, path: Seq<char>) -> bool {
    exists|at: int| #[trigger] is_handed_out(store, path, at)
}

spec fn is_unrecorded(store: UploadStore, entry: ReconcileEntry) -> bool {
    upload_artifact::entry_class(store, entry) == EntryClass::Unrecorded
}

spec fn eligible(store: UploadStore, entry: ReconcileEntry) -> bool {
    is_unrecorded(store, entry) || upload_artifact::entry_class(store, entry)
        == EntryClass::Recorded
}

spec fn reads_path(
    readings: Seq<Result<ArtifactValues, UploadStoreError>>,
    j: int,
    path: Seq<char>,
) -> bool {
    readings[j] matches Ok(values) && values.artifact_path@ == path
}

proof fn lemma_tally_whole(results: Seq<RecordArtifactResult>, n: int)
    requires
        0 <= n <= results.len(),
    ensures
        tally(results, RecordDisposition::Inserted, n) + tally(
            results,
            RecordDisposition::AlreadyRecorded,
            n,
        ) == n,
    decreases n,
{
    if n > 0 {
        lemma_tally_whole(results, n - 1);
    }
}

/// What the first `k` recordings did to the paths that the ledger knows.
proof fn lemma_recordings_known(
    stores: Seq<UploadStore>,
    results: Seq<RecordArtifactResult>,
    readings: Seq<Result<ArtifactValues, UploadStoreError>>,
    at: u64,
    k: int,
)
    requires
        are_recordings(stores, results, readings, at),
        0 <= k <= results.len(),
    ensures
        stores[k].activation_at_unix_ms == stores[0].activation_at_unix_ms,
        forall|path: Seq<char>| #[trigger] stores[0].knows(path) ==> stores[k].knows(path),
        forall|path: Seq<char>| #[trigger]
            hands_out(stores[0], path) ==> hands_out(stores[k], path),
        forall|j: int, path: Seq<char>|
            0 <= j < k && #[trigger] reads_path(readings, j, path) ==> hands_out(stores[k], path)
                && upload_record::fits_i64(readings[j]->Ok_0.file_size),
        forall|path: Seq<char>| #[trigger]
            stores[k].knows(path) ==> stores[0].knows(path) || exists|j: int|
                0 <= j < k && #[trigger] reads_path(readings, j, path),
    decreases k,
{
    if k > 0 {
        lemma_recordings_known(stores, results, readings, at, k - 1);
        assert(is_step(stores, results, readings, at, k - 1));
        let (before, after) = (stores[k - 1], stores[k]);
        let values = readings[k - 1]->Ok_0;
        assert forall|path: Seq<char>| #[trigger] before.knows(path) implies after.knows(path) by {
            let i = choose|i: int| #[trigger] before.records_path(path, i);
            assert(after.records_path(path, i));
        }
        assert forall|path: Seq<char>| #[trigger] hands_out(before, path) implies hands_out(
            after,
            path,
        ) by {
            let i = choose|i: int| #[trigger] is_handed_out(before, path, i);
            assert(is_handed_out(after, path, i));
        }
        assert(hands_out(after, values.artifact_path@)) by {
            if before.knows(values.artifact_path@) {
                let i = choose|i: int| #[trigger]
                    before.records_path(values.artifact_path@, i)
                        && Ok::<RecordArtifactResult, UploadStoreError>(results[k - 1])
                        == upload_store::numbered_result(
                        before.jobs@[i].job_id,
                        RecordDisposition::AlreadyRecorded,
                    );
                assert(is_handed_out(after, values.artifact_path@, i));
            } else {
                assert(is_handed_out(
                    after,
                    values.artifact_path@,
                    before.jobs@.len() as int,
                ));
            }
        }
        assert forall|path: Seq<char>| #[trigger] after.knows(path) implies stores[0].knows(
            path,
        ) || exists|j: int| 0 <= j < k && #[trigger] reads_path(readings, j, path) by {
            let i = choose|i: int| #[trigger] after.records_path(path, i);
            if i < before.jobs@.len() {
                assert(before.records_path(path, i));
                assert(before.knows(path));
            } else {
                assert(reads_path(readings, k - 1, path));
            }
        }
    }
}

/// Recordings of artifacts that the ledger knows change nothing.
proof fn lemma_nothing_new(
    stores: Seq<UploadStore>,
    results: Seq<RecordArtifactResult>,
    readings: Seq<Result<ArtifactValues, UploadStoreError>>,
    at: u64,
    k: int,
)
    requires
        are_recordings(stores, results, readings, at),
        0 <= k <= results.len(),
        forall|i: int|
            0 <= i < readings.len() ==> {
                &&& #[trigger] readings[i] is Ok
                &&& stores[0].knows(readings[i]->Ok_0.artifact_path@)
            },
    ensures
        stores[k] == stores[0],
        tally(results, RecordDisposition::Inserted, k) == 0,
        tally(results, RecordDisposition::AlreadyRecorded, k) == k,
    decreases k,
{
    if k > 0 {
        lemma_nothing_new(stores, results, readings, at, k - 1);
        assert(is_step(stores, results, readings, at, k - 1));
        let path = readings[k - 1]->Ok_0.artifact_path@;
        let i = choose|i: int| #[trigger] stores[0].records_path(path, i);
        assert(stores[k - 1].records_path(path, i));
    }
}

proof fn lemma_eligible_count(
    first: UploadStore,
    second: UploadStore,
    entries: Seq<ReconcileEntry>,
    n: int,
)
    requires
        0 <= n <= entries.len(),
        forall|i: int|
            0 <= i < n ==> eligible(second, #[trigger] entries[i]) == eligible(first, entries[i]),
    ensures
        upload_artifact::recorded_entries(second, entries, n) + upload_artifact::unrecorded_paths(
            second,
            entries,
            n,
        ).len() == upload_artifact::recorded_entries(first, entries, n)
            + upload_artifact::unrecorded_paths(first, entries, n).len(),
    decreases n,
{
    if n > 0 {
        lemma_eligible_count(first, second, entries, n - 1);
        assert(eligible(second, entries[n - 1]) == eligible(first, entries[n - 1]));
    }
}

proof fn lemma_unrecorded_member(
    store: UploadStore,
    entries: Seq<ReconcileEntry>,
    n: int,
    path: String,
)
    requires
        0 <= n <= entries.len(),
    ensures
        upload_artifact::unrecorded_paths(store, entries, n).contains(path) <==> exists|e: int|
            0 <= e < n && #[trigger] is_unrecorded(store, entries[e]) && entries[e].path == path,
    decreases n,
{
    if n > 0 {
        lemma_unrecorded_member(store, entries, n - 1, path);
        let before = upload_artifact::unrecorded_paths(store, entries, n - 1);
        let all = upload_artifact::unrecorded_paths(store, entries, n);
        if is_unrecorded(store, entries[n - 1]) {
            assert(all == before.push(entries[n - 1].path));
            assert(all.last() == entries[n - 1].path);
            assert forall|x: String| before.contains(x) implies all.contains(x) by {
                let i = choose|i: int| 0 <= i < before.len() && before[i] == x;
                assert(all[i] == x);
            }
        }
    }
}

proof fn lemma_same_members(a: Seq<String>, b: Seq<String>, x: String)
    requires
        a.to_multiset() == b.to_multiset(),
    ensures
        a.contains(x) <==> b.contains(x),
{
    broadcast use vstd::seq_lib::group_to_multiset_ensures;

    assert(a.contains(x) <==> a.to_multiset().contains(x));
    assert(b.contains(x) <==> b.to_multiset().contains(x));
}

/// Each recording that inserts adds one job, and no other does.
proof fn lemma_inserted_jobs(
    stores: Seq<UploadStore>,
    results: Seq<RecordArtifactResult>,
    readings: Seq<Result<ArtifactValues, UploadStoreError>>,
    at: u64,
    k: int,
)
    requires
        are_recordings(stores, results, readings, at),
        0 <= k <= results.len(),
    ensures
        stores[k].jobs@.len() == stores[0].jobs@.len() + tally(
            results,
            RecordDisposition::Inserted,
            k,
        ),
    decreases k,
{
    if k > 0 {
        lemma_inserted_jobs(stores, results, readings, at, k - 1);
        assert(is_step(stores, results, readings, at, k - 1));
        let (before, after) = (stores[k - 1], stores[k]);
        let values = readings[k - 1]->Ok_0;
        if before.knows(values.artifact_path@) {
            let i = choose|i: int| #[trigger]
                before.records_path(values.artifact_path@, i) && Ok::<
                    RecordArtifactResult,
                    UploadStoreError,
                >(results[k - 1]) == upload_store::numbered_result(
                    before.jobs@[i].job_id,
                    RecordDisposition::AlreadyRecorded,
                );
            assert(results[k - 1].disposition == RecordDisposition::AlreadyRecorded);
        } else {
            assert(results[k - 1].disposition == RecordDisposition::Inserted);
            assert(after.jobs@.len() == before.jobs@.len() + 1);
        }
    }
}

/// A reconciliation that succeeds has read every artifact, leaves a job for each of
/// them, adds as many jobs as it says, and adds none for any other path. One that is
/// dated out of range changes nothing.
pub proof fn law_reconciled_artifacts_have_jobs(
    entries: &Vec<ReconcileEntry>,
    readings: ArtifactReadings,
    recorded_at_unix_ms: u64,
    r: Result<ReconcileResult, UploadStoreError>,
    j: int,
)
    ensures
        forall|s: &mut UploadStore|
            #[trigger] call_ensures(
                UploadStore::reconcile_capture_directory,
                (s, entries, readings, recorded_at_unix_ms),
                r,
            ) && s.wf() ==> {
                &&& recorded_at_unix_ms > i64::MAX ==> r is Err && *final(s) == *s
                &&& r matches Ok(counts) ==> {
                    &&& counts.examined == entries@.len()
                    &&& counts.eligible == counts.inserted + counts.already_recorded
                    &&& final(s).jobs@.len() == s.jobs@.len() + counts.inserted
                    &&& 0 <= j < readings@.len() ==> readings@[j] is Ok
                        && upload_artifact::has_job_for(
                        *final(s),
                        readings@[j]->Ok_0.artifact_path@,
                    )
                    &&& readings@.len() == 0 ==> counts.inserted == 0
                }
            },
{
    assert forall|s: &mut UploadStore|
        #[trigger] call_ensures(
            UploadStore::reconcile_capture_directory,
            (s, entries, readings, recorded_at_unix_ms),
            r,
        ) && s.wf() && r is Ok implies {
        let counts = r->Ok_0;
        &&& counts.examined == entries@.len()
        &&& counts.eligible == counts.inserted + counts.already_recorded
        &&& final(s).jobs@.len() == s.jobs@.len() + counts.inserted
        &&& 0 <= j < readings@.len() ==> readings@[j] is Ok && upload_artifact::has_job_for(
            *final(s),
            readings@[j]->Ok_0.artifact_path@,
        )
        &&& readings@.len() == 0 ==> counts.inserted == 0
    } by {
        let (stores, results) = choose|
            stores: Seq<UploadStore>,
            results: Seq<RecordArtifactResult>,
        | #[trigger]
            accounts_for(
                stores,
                results,
                *s,
                *final(s),
                entries@,
                readings@,
                recorded_at_unix_ms,
                r,
            );
        let k = results.len() as int;
        lemma_inserted_jobs(stores, results, readings@, recorded_at_unix_ms, k);
        lemma_recordings_known(stores, results, readings@, recorded_at_unix_ms, k);
        if 0 <= j < readings@.len() {
            assert(is_step(stores, results, readings@, recorded_at_unix_ms, j));
            let path = readings@[j]->Ok_0.artifact_path@;
            assert(reads_path(readings@, j, path));
            let at = choose|at: int| #[trigger] is_handed_out(*final(s), path, at);
            assert(final(s).jobs@[at].artifact_path@ == path);
        }
    }
}

} // verus!
