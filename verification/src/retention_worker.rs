//! The retention worker's edges: which directory entries are managed, when an
//! opened file may be deleted, how wake-ups coalesce, and when the worker stops.

use std::sync::atomic::{AtomicBool, Ordering};
use std::sync::mpsc::{SyncSender, TrySendError};
use std::sync::Arc;

use vstd::prelude::*;

use crate::digest;
use crate::digest::hash_bytes;
use crate::flag;
use crate::order;
use crate::path;
use crate::retention::{RetentionAuthorization, RetentionCandidate};
use crate::sweep::{ExactDeleteOutcome, ManagedArtifact};
use crate::text;
use crate::text::{push_decimal, same_bytes};

verus! {

broadcast use vstd::string::group_string_axioms;

pub const RETENTION_WAKE_CAPACITY: usize = 1;

/// Seconds between two sweeps that nothing asked for.
pub const DEFAULT_SWEEP_INTERVAL_SECONDS: u64 = 60;

/// What a directory entry is, without following symbolic links.
#[derive(Debug, PartialEq, Eq)]
pub enum EntryKind {
    /// A regular file that is no reparse point, with its size.
    RegularFile(u64),
    /// A directory, a link, a reparse point or anything else.
    Other,
    /// The entry vanished while it was inspected.
    Vanished,
    /// Inspecting the entry failed in this operation, for this reason.
    Unreadable { operation: String, source: String },
}

/// An entry of the capture directory. Its name is absent where it is not Unicode.
#[derive(Debug, PartialEq, Eq)]
pub struct DirectoryEntry {
    pub path: String,
    pub file_name: Option<String>,
    pub kind: EntryKind,
}

pub open spec fn failed_operation(operation: Seq<char>, path: Seq<char>, source: Seq<char>) -> Seq<
    char,
> {
    operation + " failed for "@ + path + ": "@ + source
}

/// The managed artifacts among the first `n` entries, where `times` holds the
/// capture time that each name stands for, if it is a generated one; or the
/// failure to inspect an entry with a generated name.
pub open spec fn managed(
    entries: Seq<DirectoryEntry>,
    times: Seq<Option<u64>>,
    n: int,
) -> Result<Seq<ManagedArtifact>, Seq<char>>
    decreases n,
{
    if n <= 0 {
        Ok(Seq::empty())
    } else {
        let entry = entries[n - 1];
        match (managed(entries, times, n - 1), times[n - 1]) {
            (Ok(before), Some(captured_at_unix_ms)) => match entry.kind {
                EntryKind::RegularFile(file_size_bytes) => Ok(
                    before.push(
                        ManagedArtifact {
                            path: entry.path,
                            captured_at_unix_ms,
                            file_size_bytes,
                        },
                    ),
                ),
                EntryKind::Unreadable { operation, source } => Err(
                    failed_operation(operation@, entry.path@, source@),
                ),
                EntryKind::Other | EntryKind::Vanished => Ok(before),
            },
            (before, _) => before,
        }
    }
}

/// Whether a parser of generated names can have read this from an entry's name.
/// A name that is not Unicode stands for no time.
pub open spec fn reads_name<F: Fn(&str) -> Option<u64>>(
    parse_generated_name: F,
    entry: DirectoryEntry,
    time: Option<u64>,
) -> bool {
    match entry.file_name {
        Some(name) => exists|text: &str|
            text@ == name@ && #[trigger] call_ensures(parse_generated_name, (text,), time),
        None => time is None,
    }
}

/// Whether these are the times of the first entries' names.
pub open spec fn reads_names<F: Fn(&str) -> Option<u64>>(
    parse_generated_name: F,
    entries: Seq<DirectoryEntry>,
    times: Seq<Option<u64>>,
) -> bool {
    &&& times.len() <= entries.len()
    &&& forall|i: int|
        0 <= i < times.len() ==> reads_name(
            parse_generated_name,
            #[trigger] entries[i],
            times[i],
        )
}

/// The inventory of a capture directory: its regular files whose names the
/// parser accepts, in the order of their paths. Entries that vanished are passed
/// over; one with an accepted name that cannot be inspected fails the inventory.
pub fn inventory_capture_directory<F: Fn(&str) -> Option<u64>>(
    entries: &Vec<DirectoryEntry>,
    parse_generated_name: F,
) -> (r: Result<Vec<ManagedArtifact>, String>)
    requires
        forall|name: &str| call_requires(parse_generated_name, (name,)),
    ensures
        exists|times: Seq<Option<u64>>|
            {
                &&& #[trigger] reads_names(parse_generated_name, entries@, times)
                &&& match r {
                    Ok(inventory) => {
                        &&& times.len() == entries@.len()
                        &&& managed(entries@, times, times.len() as int) matches Ok(artifacts)
                        &&& inventory@ == by_path(artifacts)
                    },
                    Err(error) => managed(entries@, times, times.len() as int)
                        == Err::<Seq<ManagedArtifact>, Seq<char>>(error@),
                }
            },
{
    let mut artifacts: Vec<ManagedArtifact> = Vec::new();
    let mut at: usize = 0;
    let ghost mut times: Seq<Option<u64>> = Seq::empty();
    while at < entries.len()
        invariant
            at <= entries.len(),
            forall|name: &str| call_requires(parse_generated_name, (name,)),
            times.len() == at,
            reads_names(parse_generated_name, entries@, times),
            managed(entries@, times, at as int) == Ok::<Seq<ManagedArtifact>, Seq<char>>(
                artifacts@,
            ),
        decreases entries.len() - at,
    {
        let entry = &entries[at];
        let time: Option<u64> = match &entry.file_name {
            Some(name) => {
                let text = name.as_str();
                let time: Option<u64> = parse_generated_name(text);
                assert(call_ensures(parse_generated_name, (text,), time));
                time
            },
            None => None,
        };
        let ghost before = times;
        proof {
            times = times.push(time);
            lemma_managed_prefix(entries@, before, times, at as int);
            assert forall|i: int| 0 <= i < times.len() implies reads_name(
                parse_generated_name,
                #[trigger] entries@[i],
                times[i],
            ) by {
                if i < before.len() {
                    assert(times[i] == before[i]);
                }
            }
            assert(reads_names(parse_generated_name, entries@, times));
        }
        if let Some(captured_at_unix_ms) = time {
            match &entry.kind {
                EntryKind::RegularFile(file_size_bytes) => {
                    artifacts.push(
                        ManagedArtifact {
                            path: entry.path.clone(),
                            captured_at_unix_ms,
                            file_size_bytes: *file_size_bytes,
                        },
                    );
                },
                EntryKind::Unreadable { operation, source } => {
                    let mut error = String::new();
                    error.append(operation.as_str());
                    error.append(" failed for ");
                    error.append(entry.path.as_str());
                    error.append(": ");
                    error.append(source.as_str());
                    assert(error@ =~= failed_operation(operation@, entry.path@, source@));
                    assert(managed(entries@, times, times.len() as int) == Err::<
                        Seq<ManagedArtifact>,
                        Seq<char>,
                    >(error@));
                    return Err(error);
                },
                EntryKind::Other | EntryKind::Vanished => {},
            }
        }
        at = at + 1;
    }
    Ok(sort_inventory(artifacts))
}

proof fn lemma_managed_prefix(
    entries: Seq<DirectoryEntry>,
    times: Seq<Option<u64>>,
    more: Seq<Option<u64>>,
    n: int,
)
    requires
        n <= times.len() <= more.len(),
        forall|i: int| 0 <= i < n ==> times[i] == more[i],
    ensures
        managed(entries, times, n) == managed(entries, more, n),
    decreases n,
{
    if n > 0 {
        lemma_managed_prefix(entries, times, more, n - 1);
    }
}

/// Every inventoried artifact is a regular file of the directory, under its own
/// path and size, with a name that stands for its capture time.
pub proof fn law_inventory_is_of_the_directory(
    entries: Seq<DirectoryEntry>,
    times: Seq<Option<u64>>,
    artifacts: Seq<ManagedArtifact>,
    n: int,
    k: int,
)
    requires
        0 <= n <= entries.len(),
        n <= times.len(),
        managed(entries, times, n) == Ok::<Seq<ManagedArtifact>, Seq<char>>(artifacts),
        0 <= k < artifacts.len(),
    ensures
        exists|i: int|
            {
                &&& 0 <= i < n
                &&& artifacts[k].path == (#[trigger] entries[i]).path
                &&& times[i] == Some(artifacts[k].captured_at_unix_ms)
                &&& entries[i].kind == EntryKind::RegularFile(artifacts[k].file_size_bytes)
            },
    decreases n,
{
    if n > 0 {
        let entry = entries[n - 1];
        match managed(entries, times, n - 1) {
            Ok(before) => {
                if k < before.len() {
                    law_inventory_is_of_the_directory(entries, times, before, n - 1, k);
                    assert(artifacts[k] == before[k]);
                } else {
                    assert(artifacts[k].path == entry.path);
                }
            },
            Err(_) => {},
        }
    }
}

/// An artifact placed behind every path that is not greater.
pub open spec fn path_placed(sorted: Seq<ManagedArtifact>, x: ManagedArtifact) -> Seq<
    ManagedArtifact,
>
    decreases sorted.len(),
{
    if sorted.len() == 0 {
        seq![x]
    } else if path_le(sorted.last(), x) {
        sorted.push(x)
    } else {
        path_placed(sorted.drop_last(), x).push(sorted.last())
    }
}

pub open spec fn path_le(a: ManagedArtifact, b: ManagedArtifact) -> bool {
    order::path_le(a.path@, b.path@)
}

/// Artifacts in the order of their paths.
pub open spec fn by_path(s: Seq<ManagedArtifact>) -> Seq<ManagedArtifact>
    decreases s.len(),
{
    if s.len() == 0 {
        s
    } else {
        path_placed(by_path(s.drop_last()), s.last())
    }
}

/// Ordering by path neither loses nor adds an artifact.
pub proof fn law_by_path_keeps_all(s: Seq<ManagedArtifact>)
    ensures
        by_path(s).to_multiset() == s.to_multiset(),
        by_path(s).len() == s.len(),
    decreases s.len(),
{
    broadcast use vstd::seq_lib::group_to_multiset_ensures;

    if s.len() > 0 {
        law_by_path_keeps_all(s.drop_last());
        lemma_path_placed(by_path(s.drop_last()), s.last());
        assert(s =~= s.drop_last().push(s.last()));
    }
}

proof fn lemma_path_placed(sorted: Seq<ManagedArtifact>, x: ManagedArtifact)
    ensures
        path_placed(sorted, x).to_multiset() == sorted.to_multiset().insert(x),
        path_placed(sorted, x).len() == sorted.len() + 1,
    decreases sorted.len(),
{
    broadcast use vstd::seq_lib::group_to_multiset_ensures;

    if sorted.len() == 0 {
        assert(path_placed(sorted, x) =~= sorted.push(x));
    } else if !path_le(sorted.last(), x) {
        lemma_path_placed(sorted.drop_last(), x);
        assert(sorted =~= sorted.drop_last().push(sorted.last()));
        assert(path_placed(sorted, x).to_multiset() =~= sorted.to_multiset().insert(x));
    }
}

fn place_by_path(sorted: &mut Vec<ManagedArtifact>, x: ManagedArtifact)
    ensures
        final(sorted)@ == path_placed(old(sorted)@, x),
{
    let mut at: usize = sorted.len();
    proof {
        assert(sorted@.take(at as int) =~= sorted@);
        assert(path_placed(sorted@, x) =~= path_placed(sorted@.take(at as int), x) + sorted@.skip(
            at as int,
        ));
    }
    while at > 0 && !order::check_path_le(sorted[at - 1].path.as_str(), x.path.as_str())
        invariant
            at <= sorted.len(),
            sorted@ == old(sorted)@,
            path_placed(sorted@, x) == path_placed(sorted@.take(at as int), x) + sorted@.skip(
                at as int,
            ),
        decreases at,
    {
        proof {
            let head = sorted@.take(at as int);
            assert(head.last() == sorted@[at - 1]);
            assert(head.drop_last() =~= sorted@.take(at - 1));
            assert(path_placed(head.drop_last(), x).push(head.last()) + sorted@.skip(at as int)
                =~= path_placed(sorted@.take(at - 1), x) + sorted@.skip(at - 1));
        }
        at = at - 1;
    }
    proof {
        let head = sorted@.take(at as int);
        if at > 0 {
            assert(head.last() == sorted@[at - 1]);
        }
        assert(path_placed(head, x) =~= head.push(x));
        assert(head.push(x) + sorted@.skip(at as int) =~= sorted@.insert(at as int, x));
    }
    sorted.insert(at, x);
}

/// Put an inventory in the order of its paths.
fn sort_inventory(inventory: Vec<ManagedArtifact>) -> (r: Vec<ManagedArtifact>)
    ensures
        r@ == by_path(inventory@),
{
    let mut sorted: Vec<ManagedArtifact> = Vec::new();
    let ghost all = inventory@;
    for artifact in it: inventory
        invariant
            it.seq() == all,
            sorted@ == by_path(all.take(it.index() as int)),
    {
        proof {
            assert(all.take(it.index() + 1).drop_last() =~= all.take(it.index() as int));
        }
        place_by_path(&mut sorted, artifact);
    }
    assert(all.take(all.len() as int) =~= all);
    sorted
}

/// What an opened file handle shows before its file is deleted.
#[derive(Clone, Copy, Debug, PartialEq, Eq)]
pub struct OpenedFile {
    pub is_file: bool,
    pub is_reparse_point: bool,
    pub size: u64,
}

/// What came of opening an artifact in order to delete it.
#[derive(Debug, PartialEq, Eq)]
pub enum OpenedArtifact {
    /// This platform cannot hold a file while its identity is checked.
    Unsupported,
    Absent,
    /// The artifact could not be opened, for this reason.
    Unopened(String),
    /// The opened handle could not be asked, for this reason.
    Unknown(String),
    File(OpenedFile),
}

/// What to do about an artifact that may be deleted.
#[derive(Clone, Copy, Debug, PartialEq, Eq, Structural)]
pub enum DeleteStep {
    /// Delete the file that is open.
    Delete,
    /// There is nothing to delete.
    Finish(ExactDeleteOutcome),
}

/// Why an artifact was not deleted.
#[derive(Debug)]
pub enum RetentionDeleteError {
    UnsupportedPlatform,
    UnsafeArtifact { path: String },
    IdentityChanged { path: String, reason: String },
    Io { operation: String, path: String, source: String },
}

impl RetentionDeleteError {
    pub open spec fn text(self) -> Seq<char> {
        match self {
            RetentionDeleteError::UnsupportedPlatform =>
                "safe artifact deletion is unsupported on this platform"@,
            RetentionDeleteError::UnsafeArtifact { path } =>
                "refusing to delete a non-regular or reparse-point artifact: "@ + path@,
            RetentionDeleteError::IdentityChanged { path, reason } => "artifact identity changed at "@
                + path@ + ": "@ + reason@,
            RetentionDeleteError::Io { operation, path, source } => operation@ + " failed for "@
                + path@ + ": "@ + source@,
        }
    }

    pub fn message(&self) -> (r: String)
        ensures
            r@ == self.text(),
    {
        let mut text = String::new();
        match self {
            RetentionDeleteError::UnsupportedPlatform => {
                text.append("safe artifact deletion is unsupported on this platform");
            },
            RetentionDeleteError::UnsafeArtifact { path } => {
                text.append("refusing to delete a non-regular or reparse-point artifact: ");
                text.append(path.as_str());
            },
            RetentionDeleteError::IdentityChanged { path, reason } => {
                text.append("artifact identity changed at ");
                text.append(path.as_str());
                text.append(": ");
                text.append(reason.as_str());
            },
            RetentionDeleteError::Io { operation, path, source } => {
                text.append(operation.as_str());
                text.append(" failed for ");
                text.append(path.as_str());
                text.append(": ");
                text.append(source.as_str());
            },
        }
        assert(text@ =~= self.text());
        text
    }
}

pub open spec fn inventory_size_reason(inventory: u64, opened: u64) -> Seq<char> {
    "inventory size was "@ + text::decimal(inventory as nat) + " bytes but the opened file is "@
        + text::decimal(opened as nat) + " bytes"@
}

pub open spec fn authorized_size_reason(authorized: u64, opened: u64) -> Seq<char> {
    "authorized size was "@ + text::decimal(authorized as nat) + " bytes but the opened file is "@
        + text::decimal(opened as nat) + " bytes"@
}

/// Why an opened file is not the one that was authorized, if it is not: `None`
/// of a reason means that it is no regular file.
pub open spec fn refusal(
    candidate: RetentionCandidate,
    expectation: RetentionAuthorization,
    opened: OpenedFile,
    contents: Seq<u8>,
) -> Option<Option<Seq<char>>> {
    if !opened.is_file || opened.is_reparse_point {
        Some(None)
    } else if opened.size != candidate.file_size_bytes {
        Some(Some(inventory_size_reason(candidate.file_size_bytes, opened.size)))
    } else if expectation.expected_file_size_bytes matches Some(expected) && expected
        != opened.size {
        Some(
            Some(
                authorized_size_reason(
                    expectation.expected_file_size_bytes->0,
                    opened.size,
                ),
            ),
        )
    } else if expectation.expected_sha256 matches Some(expected) && expected@
        != digest::sha256_digest(contents) {
        Some(Some("SHA-256 digest no longer matches the authorized artifact"@))
    } else {
        None
    }
}

/// Whether the contents of an opened file are read: a digest is expected, and the
/// file is a regular one of the inventoried and authorized size.
pub fn wants_contents(
    candidate: &RetentionCandidate,
    expectation: RetentionAuthorization,
    opened: OpenedFile,
) -> (r: bool)
    ensures
        r == (expectation.expected_sha256 is Some && refusal(
            *candidate,
            RetentionAuthorization { expected_sha256: None, ..expectation },
            opened,
            Seq::empty(),
        ) is None),
{
    let size_expected = match expectation.expected_file_size_bytes {
        Some(expected) => opened.size == expected,
        None => true,
    };
    opened.is_file && !opened.is_reparse_point && opened.size == candidate.file_size_bytes
        && size_expected && expectation.expected_sha256.is_some()
}

/// Contents that are not read do not change what happens to a file.
pub proof fn law_unread_contents_decide_nothing(
    candidate: RetentionCandidate,
    expectation: RetentionAuthorization,
    opened: OpenedFile,
    a: Seq<u8>,
    b: Seq<u8>,
)
    requires
        expectation.expected_sha256 is None || refusal(
            candidate,
            RetentionAuthorization { expected_sha256: None, ..expectation },
            opened,
            Seq::empty(),
        ) is Some,
    ensures
        refusal(candidate, expectation, opened, a) == refusal(candidate, expectation, opened, b),
{
}

/// Whether deleting an opened artifact is decided as it has to be.
pub open spec fn is_delete_decision(
    r: Result<DeleteStep, RetentionDeleteError>,
    candidate: RetentionCandidate,
    expectation: RetentionAuthorization,
    opened: OpenedArtifact,
    contents: Seq<u8>,
) -> bool {
    match opened {
        OpenedArtifact::Unsupported => r matches Err(RetentionDeleteError::UnsupportedPlatform),
        OpenedArtifact::Absent => r == Ok::<DeleteStep, RetentionDeleteError>(
            DeleteStep::Finish(ExactDeleteOutcome::AlreadyAbsent),
        ),
        OpenedArtifact::Unopened(why) => r matches Err(
            RetentionDeleteError::Io { operation, path, source },
        ) && operation@ == "open artifact without following reparse points"@ && path
            == candidate.path && source == why,
        OpenedArtifact::Unknown(why) => r matches Err(
            RetentionDeleteError::Io { operation, path, source },
        ) && operation@ == "read opened artifact metadata"@ && path == candidate.path && source
            == why,
        OpenedArtifact::File(file) => match refusal(candidate, expectation, file, contents) {
            None => r == Ok::<DeleteStep, RetentionDeleteError>(DeleteStep::Delete),
            Some(None) => r matches Err(RetentionDeleteError::UnsafeArtifact { path }) && path
                == candidate.path,
            Some(Some(why)) => r matches Err(RetentionDeleteError::IdentityChanged { path, reason })
                && path == candidate.path && reason@ == why,
        },
    }
}

/// Decide what to do about an artifact that was to be opened: only a regular file
/// of the inventoried and authorized size, whose contents have the authorized
/// digest, is deleted. The contents matter only where a digest is expected.
pub fn check_exact_delete(
    candidate: &RetentionCandidate,
    expectation: RetentionAuthorization,
    opened: OpenedArtifact,
    contents: &[u8],
) -> (r: Result<DeleteStep, RetentionDeleteError>)
    ensures
        is_delete_decision(r, *candidate, expectation, opened, contents@),
{
    let file = match opened {
        OpenedArtifact::Unsupported => {
            return Err(RetentionDeleteError::UnsupportedPlatform);
        },
        OpenedArtifact::Absent => {
            return Ok(DeleteStep::Finish(ExactDeleteOutcome::AlreadyAbsent));
        },
        OpenedArtifact::Unopened(source) => {
            return Err(
                RetentionDeleteError::Io {
                    operation: "open artifact without following reparse points".to_owned(),
                    path: candidate.path.clone(),
                    source,
                },
            );
        },
        OpenedArtifact::Unknown(source) => {
            return Err(
                RetentionDeleteError::Io {
                    operation: "read opened artifact metadata".to_owned(),
                    path: candidate.path.clone(),
                    source,
                },
            );
        },
        OpenedArtifact::File(file) => file,
    };
    match check_opened_file(candidate, expectation, file, contents) {
        Ok(()) => Ok(DeleteStep::Delete),
        Err(error) => Err(error),
    }
}

fn check_opened_file(
    candidate: &RetentionCandidate,
    expectation: RetentionAuthorization,
    opened: OpenedFile,
    contents: &[u8],
) -> (r: Result<(), RetentionDeleteError>)
    ensures
        match refusal(*candidate, expectation, opened, contents@) {
            None => r is Ok,
            Some(None) => r matches Err(RetentionDeleteError::UnsafeArtifact { path }) && path
                == candidate.path,
            Some(Some(why)) => r matches Err(RetentionDeleteError::IdentityChanged { path, reason })
                && path == candidate.path && reason@ == why,
        },
{
    if !opened.is_file || opened.is_reparse_point {
        return Err(RetentionDeleteError::UnsafeArtifact { path: candidate.path.clone() });
    }
    if opened.size != candidate.file_size_bytes {
        let mut reason = String::new();
        reason.append("inventory size was ");
        push_decimal(&mut reason, candidate.file_size_bytes);
        reason.append(" bytes but the opened file is ");
        push_decimal(&mut reason, opened.size);
        reason.append(" bytes");
        assert(reason@ =~= inventory_size_reason(candidate.file_size_bytes, opened.size));
        return Err(
            RetentionDeleteError::IdentityChanged { path: candidate.path.clone(), reason },
        );
    }
    if let Some(expected_size) = expectation.expected_file_size_bytes {
        if opened.size != expected_size {
            let mut reason = String::new();
            reason.append("authorized size was ");
            push_decimal(&mut reason, expected_size);
            reason.append(" bytes but the opened file is ");
            push_decimal(&mut reason, opened.size);
            reason.append(" bytes");
            assert(reason@ =~= authorized_size_reason(expected_size, opened.size));
            return Err(
                RetentionDeleteError::IdentityChanged { path: candidate.path.clone(), reason },
            );
        }
    }
    if let Some(expected_sha256) = expectation.expected_sha256 {
        let actual_sha256 = hash_bytes(contents);
        if !same_bytes(actual_sha256.as_slice(), expected_sha256.as_slice()) {
            return Err(
                RetentionDeleteError::IdentityChanged {
                    path: candidate.path.clone(),
                    reason: "SHA-256 digest no longer matches the authorized artifact".to_owned(),
                },
            );
        }
    }
    Ok(())
}

/// Nothing but the authorized artifact is deleted: a permitted deletion has the
/// inventoried size, every expected size, and every expected digest.
pub proof fn law_only_the_authorized_file_goes(
    candidate: RetentionCandidate,
    expectation: RetentionAuthorization,
    opened: OpenedFile,
    contents: Seq<u8>,
)
    requires
        refusal(candidate, expectation, opened, contents) is None,
    ensures
        opened.is_file,
        !opened.is_reparse_point,
        opened.size == candidate.file_size_bytes,
        expectation.expected_file_size_bytes matches Some(expected) ==> opened.size == expected,
        expectation.expected_sha256 matches Some(expected) ==> digest::sha256_digest(contents)
            == expected@,
{
}

#[verifier::external_type_specification]
#[verifier::external_body]
#[verifier::reject_recursive_types(T)]
pub struct ExSyncSender<T>(SyncSender<T>);

/// `SyncSender::clone` makes a second handle on the same channel. Nothing is
/// claimed of a channel's contents, so nothing is claimed of the handle.
pub assume_specification<T>[ <SyncSender<T> as Clone>::clone ](sender: &SyncSender<T>) -> SyncSender<
    T,
>;

/// What came of handing a wake-up to a bounded channel.
#[derive(Clone, Copy, Debug, PartialEq, Eq, Structural)]
pub enum WakeSend {
    Sent,
    Full,
    Disconnected,
}

/// `SyncSender::try_send` without blocking: whether the wake-up was queued, the
/// channel was full, or its receiver is gone. Which of them holds depends on
/// what other threads did, and is not claimed.
#[verifier::external_body]
fn try_send_wake(sender: &SyncSender<()>) -> (r: WakeSend)
{
    match sender.try_send(()) {
        Ok(()) => WakeSend::Sent,
        Err(TrySendError::Full(())) => WakeSend::Full,
        Err(TrySendError::Disconnected(())) => WakeSend::Disconnected,
    }
}

/// Whether this came of handing a wake-up to the channel.
pub closed spec fn woken(sender: SyncSender<()>, send: WakeSend) -> bool {
    call_ensures(try_send_wake, (&sender,), send)
}

/// Hand a wake-up to a bounded channel without waiting for room.
pub fn send_wake(sender: &SyncSender<()>) -> (r: WakeSend)
    ensures
        woken(*sender, r),
{
    try_send_wake(sender)
}

#[derive(Clone, Copy, Debug, PartialEq, Eq, Structural)]
pub enum RetentionWakeResult {
    Queued,
    Coalesced,
    Stopped,
}

/// What a wake-up that was handed to the one-slot channel is answered.
pub open spec fn wake_answer(send: WakeSend) -> RetentionWakeResult {
    match send {
        WakeSend::Sent => RetentionWakeResult::Queued,
        WakeSend::Full => RetentionWakeResult::Coalesced,
        WakeSend::Disconnected => RetentionWakeResult::Stopped,
    }
}

/// The answer to a wake-up that was handed to the one-slot channel. A full
/// channel means that an equivalent sweep is already pending.
pub fn wake_result(send: WakeSend) -> (r: RetentionWakeResult)
    ensures
        r == wake_answer(send),
{
    match send {
        WakeSend::Sent => RetentionWakeResult::Queued,
        WakeSend::Full => RetentionWakeResult::Coalesced,
        WakeSend::Disconnected => RetentionWakeResult::Stopped,
    }
}

/// Scheduled capture is suspended while a byte limit is unmet, and when the
/// worker is no longer available to enforce retention.
pub fn suspends_capture(blocked: bool, stopped: bool) -> (r: bool)
    ensures
        r == (blocked || stopped),
{
    blocked || stopped
}

/// The capture side's handle on the retention worker.
#[derive(Debug)]
pub struct RetentionSink {
    pub wake_sender: SyncSender<()>,
    pub stop: Arc<AtomicBool>,
    pub capture_suspended: Arc<AtomicBool>,
}

impl Clone for RetentionSink {
    fn clone(&self) -> (r: Self)
        ensures
            cloned(self.wake_sender, r.wake_sender),
            r.stop == self.stop,
            r.capture_suspended == self.capture_suspended,
    {
        RetentionSink {
            wake_sender: self.wake_sender.clone(),
            stop: self.stop.clone(),
            capture_suspended: self.capture_suspended.clone(),
        }
    }
}

impl RetentionSink {
    pub fn is_stopped(&self) -> (r: bool)
        ensures
            flag::loaded(self.stop, r),
    {
        self.stop.load(Ordering::Acquire)
    }

    /// True when the latest completed sweep found unsatisfied byte pressure,
    /// or when the worker is no longer available to enforce retention.
    pub fn capture_suspended(&self) -> (r: bool)
        ensures
            exists|blocked: bool, stopped: bool| #[trigger]
                flag::loaded(self.capture_suspended, blocked) && #[trigger] flag::loaded(
                    self.stop,
                    stopped,
                ) && r == (blocked || stopped),
    {
        let blocked = self.capture_suspended.load(Ordering::Acquire);
        let stopped = self.stop.load(Ordering::Acquire);
        assert(flag::loaded(self.capture_suspended, blocked));
        assert(flag::loaded(self.stop, stopped));
        suspends_capture(blocked, stopped)
    }

    /// Nonblocking and bounded: a full one-slot queue means an equivalent
    /// sweep is already pending, so additional capture notifications coalesce.
    /// A worker that cannot be reached is marked as stopped.
    pub fn try_wake(&self) -> (r: RetentionWakeResult)
        ensures
            ({
                ||| flag::loaded(self.stop, true) && r == RetentionWakeResult::Stopped
                ||| flag::loaded(self.stop, false) && exists|send: WakeSend| #[trigger]
                    woken(self.wake_sender, send) && r == wake_answer(send) && (send
                        == WakeSend::Disconnected ==> flag::stored(self.stop, true))
            }),
    {
        let stopped = self.stop.load(Ordering::Acquire);
        assert(flag::loaded(self.stop, stopped));
        if stopped {
            return RetentionWakeResult::Stopped;
        }
        let send = send_wake(&self.wake_sender);
        let result = wake_result(send);
        if result == RetentionWakeResult::Stopped {
            self.stop.store(true, Ordering::Release);
        }
        result
    }
}

/// What the worker found when it waited for a wake-up.
#[derive(Clone, Copy, Debug, PartialEq, Eq, Structural)]
pub enum WakeEvent {
    Woken,
    TimedOut,
    Disconnected,
}

/// What the worker does next.
#[derive(Clone, Copy, Debug, PartialEq, Eq, Structural)]
pub enum RetentionStep {
    Wait,
    Sweep,
    Exit,
}

/// A wake-up or an elapsed interval asks for a sweep; a worker that nobody can
/// reach any more exits.
pub fn after_wake(event: WakeEvent) -> (r: RetentionStep)
    ensures
        r == (if event == WakeEvent::Disconnected {
            RetentionStep::Exit
        } else {
            RetentionStep::Sweep
        }),
{
    match event {
        WakeEvent::Woken | WakeEvent::TimedOut => RetentionStep::Sweep,
        WakeEvent::Disconnected => RetentionStep::Exit,
    }
}

/// A stop that arrives during a sweep can follow the writer's final publication,
/// so one more sweep follows it. A sweep that began after the stop is the last.
pub fn after_sweep(stopping_before_sweep: bool, stopping_now: bool) -> (r: RetentionStep)
    ensures
        r == (if !stopping_now {
            RetentionStep::Wait
        } else if stopping_before_sweep {
            RetentionStep::Exit
        } else {
            RetentionStep::Sweep
        }),
{
    if !stopping_now {
        RetentionStep::Wait
    } else if stopping_before_sweep {
        RetentionStep::Exit
    } else {
        RetentionStep::Sweep
    }
}

proof fn lemma_same_artifacts(a: Seq<ManagedArtifact>, b: Seq<ManagedArtifact>, k: int)
    requires
        a.to_multiset() == b.to_multiset(),
        0 <= k < a.len(),
    ensures
        b.contains(a[k]),
{
    broadcast use vstd::seq_lib::group_to_multiset_ensures;

    assert(a.contains(a[k]));
    assert(a.to_multiset().count(a[k]) > 0);
}

/// Every regular file with a generated name among the first entries is managed.
proof fn lemma_regular_files_are_managed(
    entries: Seq<DirectoryEntry>,
    times: Seq<Option<u64>>,
    artifacts: Seq<ManagedArtifact>,
    n: int,
    i: int,
)
    requires
        0 <= i < n <= entries.len(),
        n <= times.len(),
        managed(entries, times, n) == Ok::<Seq<ManagedArtifact>, Seq<char>>(artifacts),
        entries[i].kind is RegularFile,
        times[i] is Some,
    ensures
        artifacts.contains(
            (ManagedArtifact {
                path: entries[i].path,
                captured_at_unix_ms: times[i]->0,
                file_size_bytes: entries[i].kind->RegularFile_0,
            }),
        ),
    decreases n,
{
    let x = ManagedArtifact {
        path: entries[i].path,
        captured_at_unix_ms: times[i]->0,
        file_size_bytes: entries[i].kind->RegularFile_0,
    };
    let before = managed(entries, times, n - 1)->Ok_0;
    if i == n - 1 {
        assert(artifacts.last() == x);
    } else {
        lemma_regular_files_are_managed(entries, times, before, n - 1, i);
        let at = choose|at: int| 0 <= at < before.len() && before[at] == x;
        assert(artifacts[at] == x);
    }
}

/// Whether a parser takes an entry's name for a generated one of this time, whatever
/// it can answer.
pub open spec fn names_a_capture<F: Fn(&str) -> Option<u64>>(
    parse_generated_name: F,
    entry: DirectoryEntry,
    captured_at_unix_ms: u64,
) -> bool {
    &&& entry.file_name is Some
    &&& forall|text: &str, time: Option<u64>|
        text@ == entry.file_name->0@ && #[trigger] call_ensures(parse_generated_name, (text,), time)
            ==> time == Some(captured_at_unix_ms)
}

/// An inventory holds each regular file with a generated name, with its path, time and
/// size.
pub proof fn law_inventory_holds_each_capture<F: Fn(&str) -> Option<u64>>(
    entries: &Vec<DirectoryEntry>,
    parse_generated_name: F,
    inventory: Vec<ManagedArtifact>,
    i: int,
    captured_at_unix_ms: u64,
)
    requires
        call_ensures(
            inventory_capture_directory::<F>,
            (entries, parse_generated_name),
            Ok(inventory),
        ),
        0 <= i < entries@.len(),
        entries@[i].kind is RegularFile,
        names_a_capture(parse_generated_name, entries@[i], captured_at_unix_ms),
    ensures
        exists|k: int|
            {
                &&& 0 <= k < inventory@.len()
                &&& (#[trigger] inventory@[k]).path == entries@[i].path
                &&& inventory@[k].captured_at_unix_ms == captured_at_unix_ms
                &&& entries@[i].kind == EntryKind::RegularFile(inventory@[k].file_size_bytes)
            },
{
    let times = choose|times: Seq<Option<u64>>|
        {
            &&& #[trigger] reads_names(parse_generated_name, entries@, times)
            &&& times.len() == entries@.len()
            &&& managed(entries@, times, times.len() as int) matches Ok(artifacts)
            &&& inventory@ == by_path(artifacts)
        };
    let n = times.len() as int;
    let artifacts = managed(entries@, times, n)->Ok_0;
    assert(reads_name(parse_generated_name, entries@[i], times[i]));
    assert(times[i] == Some(captured_at_unix_ms));
    lemma_regular_files_are_managed(entries@, times, artifacts, n, i);
    let x = ManagedArtifact {
        path: entries@[i].path,
        captured_at_unix_ms,
        file_size_bytes: entries@[i].kind->RegularFile_0,
    };
    let at = choose|at: int| 0 <= at < artifacts.len() && artifacts[at] == x;
    law_by_path_keeps_all(artifacts);
    lemma_same_artifacts(artifacts, inventory@, at);
    let k = choose|k: int| 0 <= k < inventory@.len() && inventory@[k] == x;
    assert(inventory@[k].path == entries@[i].path);
}

/// An inventory holds nothing but regular files of the directory whose names the parser
/// can have accepted.
pub proof fn law_inventory_holds_only_captures<F: Fn(&str) -> Option<u64>>(
    entries: &Vec<DirectoryEntry>,
    parse_generated_name: F,
    inventory: Vec<ManagedArtifact>,
    k: int,
)
    requires
        call_ensures(
            inventory_capture_directory::<F>,
            (entries, parse_generated_name),
            Ok(inventory),
        ),
        0 <= k < inventory@.len(),
    ensures
        exists|i: int|
            {
                &&& 0 <= i < entries@.len()
                &&& (#[trigger] entries@[i]).path == inventory@[k].path
                &&& entries@[i].kind == EntryKind::RegularFile(inventory@[k].file_size_bytes)
                &&& entries@[i].file_name matches Some(name) && exists|text: &str|
                    text@ == name@ && #[trigger] call_ensures(
                        parse_generated_name,
                        (text,),
                        Some(inventory@[k].captured_at_unix_ms),
                    )
            },
{
    let times = choose|times: Seq<Option<u64>>|
        {
            &&& #[trigger] reads_names(parse_generated_name, entries@, times)
            &&& times.len() == entries@.len()
            &&& managed(entries@, times, times.len() as int) matches Ok(artifacts)
            &&& inventory@ == by_path(artifacts)
        };
    let n = times.len() as int;
    let artifacts = managed(entries@, times, n)->Ok_0;
    law_by_path_keeps_all(artifacts);
    lemma_same_artifacts(inventory@, artifacts, k);
    let at = choose|at: int| 0 <= at < artifacts.len() && artifacts[at] == inventory@[k];
    law_inventory_is_of_the_directory(entries@, times, artifacts, n, at);
    let i = choose|i: int|
        {
            &&& 0 <= i < n
            &&& artifacts[at].path == (#[trigger] entries@[i]).path
            &&& times[i] == Some(artifacts[at].captured_at_unix_ms)
            &&& entries@[i].kind == EntryKind::RegularFile(artifacts[at].file_size_bytes)
        };
    assert(reads_name(parse_generated_name, entries@[i], times[i]));
}

/// An opened artifact is deleted exactly where it is a regular file, no reparse point,
/// of the inventoried size, of the authorized size and with the authorized digest, as
/// far as these are given.
pub proof fn law_exactly_the_authorized_file_is_deleted(
    candidate: &RetentionCandidate,
    expectation: RetentionAuthorization,
    opened: OpenedArtifact,
    contents: &[u8],
    r: Result<DeleteStep, RetentionDeleteError>,
)
    requires
        call_ensures(check_exact_delete, (candidate, expectation, opened, contents), r),
    ensures
        r == Ok::<DeleteStep, RetentionDeleteError>(DeleteStep::Delete) <==> {
            &&& opened matches OpenedArtifact::File(file)
            &&& file.is_file
            &&& !file.is_reparse_point
            &&& file.size == candidate.file_size_bytes
            &&& expectation.expected_file_size_bytes is None
                || expectation.expected_file_size_bytes->0 == file.size
            &&& expectation.expected_sha256 is None || expectation.expected_sha256->0@
                == digest::sha256_digest(contents@)
        },
        opened is Absent <==> r == Ok::<DeleteStep, RetentionDeleteError>(
            DeleteStep::Finish(ExactDeleteOutcome::AlreadyAbsent),
        ),
        opened is Unsupported <==> r matches Err(RetentionDeleteError::UnsupportedPlatform),
        opened is Unopened || opened is Unknown <==> r matches Err(
            RetentionDeleteError::Io { .. },
        ),
        r matches Err(RetentionDeleteError::UnsafeArtifact { path }) ==> path == candidate.path && (
        opened matches OpenedArtifact::File(file) && (!file.is_file || file.is_reparse_point)),
        r matches Err(RetentionDeleteError::IdentityChanged { path, .. }) ==> path
            == candidate.path,
        !(r matches Ok(DeleteStep::Finish(ExactDeleteOutcome::Deleted))),
{
}

/// Contents are read exactly where a digest is expected and the file is a regular one
/// of the right size.
pub proof fn law_contents_are_read_for_a_digest(
    candidate: &RetentionCandidate,
    expectation: RetentionAuthorization,
    opened: OpenedFile,
    r: bool,
)
    requires
        call_ensures(wants_contents, (candidate, expectation, opened), r),
    ensures
        r <==> {
            &&& expectation.expected_sha256 is Some
            &&& opened.is_file
            &&& !opened.is_reparse_point
            &&& opened.size == candidate.file_size_bytes
            &&& expectation.expected_file_size_bytes is None
                || expectation.expected_file_size_bytes->0 == opened.size
        },
{
}

/// A wake-up is queued where there was room, joins the one that waits where there was
/// none, and finds the worker stopped where nobody receives it.
pub proof fn law_wake_up_is_answered(send: WakeSend, r: RetentionWakeResult)
    requires
        call_ensures(wake_result, (send,), r),
    ensures
        r is Queued <==> send is Sent,
        r is Coalesced <==> send is Full,
        r is Stopped <==> send is Disconnected,
{
}

/// Capture goes on only where no limit is unmet and the worker is there.
pub proof fn law_capture_needs_an_unblocked_worker(blocked: bool, stopped: bool, r: bool)
    requires
        call_ensures(suspends_capture, (blocked, stopped), r),
    ensures
        !r <==> !blocked && !stopped,
{
}

/// A handle lets capture go on only where it found neither flag set, and a wake-up that
/// it queued was sent while the worker had not stopped.
pub proof fn law_handle_reads_both_flags(
    sink: &RetentionSink,
    suspended: bool,
    woke: RetentionWakeResult,
)
    requires
        call_ensures(RetentionSink::capture_suspended, (sink,), suspended),
        call_ensures(RetentionSink::try_wake, (sink,), woke),
    ensures
        !suspended ==> flag::loaded(sink.stop, false) && flag::loaded(
            sink.capture_suspended,
            false,
        ),
        suspended ==> flag::loaded(sink.stop, true) || flag::loaded(sink.capture_suspended, true),
        woke is Queued ==> flag::loaded(sink.stop, false) && woken(
            sink.wake_sender,
            WakeSend::Sent,
        ),
        woke is Coalesced ==> flag::loaded(sink.stop, false) && woken(
            sink.wake_sender,
            WakeSend::Full,
        ),
        woke is Stopped ==> flag::loaded(sink.stop, true) || flag::stored(sink.stop, true),
{
}

/// The worker sweeps on every wake-up and after every interval, and leaves when nobody
/// can reach it.
pub proof fn law_worker_sweeps_when_woken(event: WakeEvent, r: RetentionStep)
    requires
        call_ensures(after_wake, (event,), r),
    ensures
        r is Exit <==> event is Disconnected,
        r is Sweep <==> event is Woken || event is TimedOut,
{
}

/// A stopping worker leaves only after a sweep that began when it was already stopping.
pub proof fn law_last_sweep_follows_the_stop(
    stopping_before_sweep: bool,
    stopping_now: bool,
    r: RetentionStep,
)
    requires
        call_ensures(after_sweep, (stopping_before_sweep, stopping_now), r),
    ensures
        r is Exit <==> stopping_before_sweep && stopping_now,
        r is Sweep <==> stopping_now && !stopping_before_sweep,
        r is Wait <==> !stopping_now,
{
}

/// An artifact that was not deleted says why.
pub proof fn law_kept_artifact_says_why(error: &RetentionDeleteError, r: String)
    requires
        call_ensures(RetentionDeleteError::message, (error,), r),
    ensures
        *error matches RetentionDeleteError::UnsupportedPlatform ==> r@ == "safe artifact deletion is unsupported on this platform"@,
        *error matches RetentionDeleteError::UnsafeArtifact { path } ==> r@ == "refusing to delete a non-regular or reparse-point artifact: "@ + path@,
        *error matches RetentionDeleteError::IdentityChanged { path, reason } ==> r@ == "artifact identity changed at "@ + path@ + ": "@ + reason@,
        *error matches RetentionDeleteError::Io { operation, path, source } ==> r@ == operation@ + " failed for "@ + path@ + ": "@ + source@,
{
}

/// Whether each artifact's path comes before every later one, or equals it.
pub open spec fn is_in_path_order(s: Seq<ManagedArtifact>) -> bool {
    forall|i: int, j: int| 0 <= i < j < s.len() ==> path_le(#[trigger] s[i], #[trigger] s[j])
}

proof fn lemma_placed_in_order(sorted: Seq<ManagedArtifact>, x: ManagedArtifact)
    requires
        is_in_path_order(sorted),
    ensures
        is_in_path_order(path_placed(sorted, x)),
        forall|i: int|
            0 <= i < path_placed(sorted, x).len() ==> sorted.contains(
                #[trigger] path_placed(sorted, x)[i],
            ) || path_placed(sorted, x)[i] == x,
    decreases sorted.len(),
{
    let placed = path_placed(sorted, x);
    if sorted.len() > 0 {
        let last = sorted.last();
        if path_le(last, x) {
            assert forall|i: int, j: int| 0 <= i < j < placed.len() implies path_le(
                #[trigger] placed[i],
                #[trigger] placed[j],
            ) by {
                if j == sorted.len() && i < sorted.len() - 1 {
                    assert(path_le(sorted[i], sorted[sorted.len() - 1]));
                    order::lemma_codes_le_transitive(
                        path::path_key(sorted[i].path@),
                        path::path_key(last.path@),
                        path::path_key(x.path@),
                    );
                }
            }
            assert forall|i: int| 0 <= i < placed.len() implies sorted.contains(
                #[trigger] placed[i],
            ) || placed[i] == x by {
                if i < sorted.len() {
                    assert(sorted[i] == placed[i]);
                }
            }
        } else {
            let rest = sorted.drop_last();
            assert forall|i: int, j: int| 0 <= i < j < rest.len() implies path_le(
                #[trigger] rest[i],
                #[trigger] rest[j],
            ) by {
                assert(path_le(sorted[i], sorted[j]));
            }
            lemma_placed_in_order(rest, x);
            let before = path_placed(rest, x);
            order::lemma_codes_le_total(
                path::path_key(last.path@),
                path::path_key(x.path@),
            );
            assert forall|i: int| 0 <= i < before.len() implies path_le(
                #[trigger] before[i],
                last,
            ) by {
                if before[i] != x {
                    let at = choose|at: int| 0 <= at < rest.len() && rest[at] == before[i];
                    assert(path_le(sorted[at], sorted[sorted.len() - 1]));
                }
            }
            assert forall|i: int, j: int| 0 <= i < j < placed.len() implies path_le(
                #[trigger] placed[i],
                #[trigger] placed[j],
            ) by {
                if j == placed.len() - 1 {
                    assert(placed[i] == before[i]);
                } else {
                    assert(placed[i] == before[i] && placed[j] == before[j]);
                }
            }
            assert forall|i: int| 0 <= i < placed.len() implies sorted.contains(
                #[trigger] placed[i],
            ) || placed[i] == x by {
                if i < before.len() {
                    assert(placed[i] == before[i]);
                    if before[i] != x {
                        let at = choose|at: int| 0 <= at < rest.len() && rest[at] == before[i];
                        assert(sorted[at] == placed[i]);
                    }
                } else {
                    assert(sorted[sorted.len() - 1] == placed[i]);
                }
            }
        }
    }
}

proof fn lemma_by_path_in_order(s: Seq<ManagedArtifact>)
    ensures
        is_in_path_order(by_path(s)),
    decreases s.len(),
{
    if s.len() > 0 {
        lemma_by_path_in_order(s.drop_last());
        lemma_placed_in_order(by_path(s.drop_last()), s.last());
    }
}

/// An inventory is in the order of its paths.
pub proof fn law_inventory_is_in_path_order<F: Fn(&str) -> Option<u64>>(
    entries: &Vec<DirectoryEntry>,
    parse_generated_name: F,
    inventory: Vec<ManagedArtifact>,
    i: int,
    j: int,
)
    requires
        call_ensures(
            inventory_capture_directory::<F>,
            (entries, parse_generated_name),
            Ok(inventory),
        ),
        0 <= i < j < inventory@.len(),
    ensures
        order::path_le(inventory@[i].path@, inventory@[j].path@),
{
    let times = choose|times: Seq<Option<u64>>|
        {
            &&& #[trigger] reads_names(parse_generated_name, entries@, times)
            &&& times.len() == entries@.len()
            &&& managed(entries@, times, times.len() as int) matches Ok(artifacts)
            &&& inventory@ == by_path(artifacts)
        };
    let artifacts = managed(entries@, times, times.len() as int)->Ok_0;
    lemma_by_path_in_order(artifacts);
    assert(path_le(inventory@[i], inventory@[j]));
}

/// An entry with a generated name that cannot be inspected fails the inventory, and so
/// nothing else does.
pub proof fn law_unreadable_capture_fails_the_inventory<F: Fn(&str) -> Option<u64>>(
    entries: &Vec<DirectoryEntry>,
    parse_generated_name: F,
    r: Result<Vec<ManagedArtifact>, String>,
    i: int,
    captured_at_unix_ms: u64,
)
    requires
        call_ensures(inventory_capture_directory::<F>, (entries, parse_generated_name), r),
        0 <= i < entries@.len(),
        names_a_capture(parse_generated_name, entries@[i], captured_at_unix_ms),
    ensures
        entries@[i].kind is Unreadable ==> r is Err,
        (forall|k: int| 0 <= k < entries@.len() ==> (#[trigger] entries@[k]).kind !is Unreadable)
            ==> r is Ok,
{
    let times = choose|times: Seq<Option<u64>>|
        {
            &&& #[trigger] reads_names(parse_generated_name, entries@, times)
            &&& match r {
                Ok(inventory) => {
                    &&& times.len() == entries@.len()
                    &&& managed(entries@, times, times.len() as int) matches Ok(artifacts)
                    &&& inventory@ == by_path(artifacts)
                },
                Err(error) => managed(entries@, times, times.len() as int) == Err::<
                    Seq<ManagedArtifact>,
                    Seq<char>,
                >(error@),
            }
        };
    let n = times.len() as int;
    if r is Ok && entries@[i].kind is Unreadable {
        assert(reads_name(parse_generated_name, entries@[i], times[i]));
        assert(times[i] == Some(captured_at_unix_ms));
        lemma_unreadable_fails(entries@, times, n, i);
    }
    if forall|k: int| 0 <= k < entries@.len() ==> (#[trigger] entries@[k]).kind !is Unreadable {
        lemma_readable_succeeds(entries@, times, n);
    }
}

proof fn lemma_unreadable_fails(
    entries: Seq<DirectoryEntry>,
    times: Seq<Option<u64>>,
    n: int,
    i: int,
)
    requires
        0 <= i < n <= entries.len(),
        n <= times.len(),
        entries[i].kind is Unreadable,
        times[i] is Some,
    ensures
        managed(entries, times, n) is Err,
    decreases n,
{
    if i < n - 1 {
        lemma_unreadable_fails(entries, times, n - 1, i);
    }
}

proof fn lemma_readable_succeeds(entries: Seq<DirectoryEntry>, times: Seq<Option<u64>>, n: int)
    requires
        n <= entries.len(),
        n <= times.len(),
        forall|k: int| 0 <= k < entries.len() ==> (#[trigger] entries[k]).kind !is Unreadable,
    ensures
        managed(entries, times, n) is Ok,
    decreases n,
{
    if n > 0 {
        lemma_readable_succeeds(entries, times, n - 1);
        assert(entries[n - 1].kind !is Unreadable);
    }
}

} // verus!
