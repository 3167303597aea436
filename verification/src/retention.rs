//! Retention of captured artifacts: which of them a sweep may delete, and what
//! a completed sweep reports.

use vstd::prelude::*;

use crate::number;
use crate::number::saturating_mul_u64;
use crate::order;
use crate::path;

verus! {

broadcast use vstd::string::group_string_axioms;

pub const MILLIS_PER_DAY: u64 = 86_400_000;

/// Limits on the captures that are kept. A limit that is `None` does not apply.
#[derive(Clone, Copy, Debug, PartialEq, Eq)]
pub struct RetentionPolicy {
    pub max_age_ms: Option<u64>,
    pub max_managed_bytes: Option<u64>,
    pub min_free_bytes: Option<u64>,
    pub keep_latest: bool,
}

/// The retention settings of a capture configuration.
#[derive(Clone, Copy, Debug, PartialEq, Eq)]
pub struct CaptureRetentionConfig {
    pub retention_days: u32,
    pub retention_max_bytes: Option<u64>,
    pub retention_min_free_bytes: Option<u64>,
    pub keep_latest: bool,
}

impl RetentionPolicy {
    pub open spec fn limits_bytes(self) -> bool {
        self.max_managed_bytes is Some || self.min_free_bytes is Some
    }

    /// Zero days disable the age rule.
    pub fn from_capture_config(config: &CaptureRetentionConfig) -> (r: Self)
        ensures
            r.max_age_ms == (if config.retention_days == 0 {
                None
            } else {
                Some((config.retention_days * 86_400_000) as u64)
            }),
            r.max_managed_bytes == config.retention_max_bytes,
            r.min_free_bytes == config.retention_min_free_bytes,
            r.keep_latest == config.keep_latest,
    {
        Self {
            max_age_ms: if config.retention_days != 0 {
                Some(saturating_mul_u64(config.retention_days as u64, MILLIS_PER_DAY))
            } else {
                None
            },
            max_managed_bytes: config.retention_max_bytes,
            min_free_bytes: config.retention_min_free_bytes,
            keep_latest: config.keep_latest,
        }
    }

    pub fn is_enabled(self) -> (r: bool)
        ensures
            r == (self.max_age_ms is Some || self.limits_bytes()),
    {
        self.max_age_ms.is_some() || self.has_byte_quota()
    }

    pub fn needs_free_space(self) -> (r: bool)
        ensures
            r == self.min_free_bytes is Some,
    {
        self.min_free_bytes.is_some()
    }

    pub fn has_byte_quota(self) -> (r: bool)
        ensures
            r == self.limits_bytes(),
    {
        self.max_managed_bytes.is_some() || self.min_free_bytes.is_some()
    }
}

#[derive(Clone, Copy, Debug, PartialEq, Eq, Structural)]
pub enum RetentionClassification {
    Reclaimable,
    Protected,
}

/// The ledger's classification and, for a completed row, its durable content
/// identity. Unknown, crash-gap, pending, retrying, active, and permanently
/// failed artifacts are classified as protected.
#[derive(Clone, Copy, Debug, PartialEq, Eq)]
pub struct RetentionAuthorization {
    pub classification: RetentionClassification,
    pub expected_file_size_bytes: Option<u64>,
    pub expected_sha256: Option<[u8; 32]>,
}

impl RetentionAuthorization {
    pub open spec fn reclaims(self) -> bool {
        self.classification == RetentionClassification::Reclaimable
    }

    /// What protects an artifact, whatever its identity.
    pub open spec fn protection() -> Self {
        RetentionAuthorization {
            classification: RetentionClassification::Protected,
            expected_file_size_bytes: None,
            expected_sha256: None,
        }
    }

    pub fn protected() -> (r: Self)
        ensures
            r == Self::protection(),
    {
        Self {
            classification: RetentionClassification::Protected,
            expected_file_size_bytes: None,
            expected_sha256: None,
        }
    }

    pub fn reclaimable(
        expected_file_size_bytes: Option<u64>,
        expected_sha256: Option<[u8; 32]>,
    ) -> (r: Self)
        ensures
            r.classification == RetentionClassification::Reclaimable,
            r.expected_file_size_bytes == expected_file_size_bytes,
            r.expected_sha256 == expected_sha256,
    {
        Self {
            classification: RetentionClassification::Reclaimable,
            expected_file_size_bytes,
            expected_sha256,
        }
    }

    pub fn is_reclaimable(self) -> (r: bool)
        ensures
            r == self.reclaims(),
    {
        self.classification == RetentionClassification::Reclaimable
    }
}

/// A managed artifact with its authorization. The path names a direct child of
/// the capture directory, so paths compare like file names.
#[derive(Debug, PartialEq, Eq)]
pub struct RetentionCandidate {
    pub path: String,
    pub captured_at_unix_ms: u64,
    pub file_size_bytes: u64,
    pub authorization: RetentionAuthorization,
}

impl Clone for RetentionCandidate {
    fn clone(&self) -> (r: Self)
        ensures
            r == *self,
    {
        RetentionCandidate {
            path: self.path.clone(),
            captured_at_unix_ms: self.captured_at_unix_ms,
            file_size_bytes: self.file_size_bytes,
            authorization: self.authorization,
        }
    }
}

impl RetentionCandidate {
    pub open spec fn reclaims(self) -> bool {
        self.authorization.reclaims()
    }

    /// This candidate, protected.
    pub open spec fn shielded(self) -> Self {
        RetentionCandidate { authorization: RetentionAuthorization::protection(), ..self }
    }

    pub fn is_reclaimable(&self) -> (r: bool)
        ensures
            r == self.reclaims(),
    {
        self.authorization.is_reclaimable()
    }

    pub fn protect(&mut self)
        ensures
            *final(self) == old(self).shielded(),
    {
        self.authorization = RetentionAuthorization::protected();
    }
}

/// Whether both byte targets hold. An unknown free space meets no minimum.
pub open spec fn quotas_hold(policy: RetentionPolicy, managed: int, free: Option<u64>) -> bool {
    &&& policy.max_managed_bytes matches Some(maximum) ==> managed <= maximum
    &&& policy.min_free_bytes matches Some(minimum) ==> free matches Some(bytes) && bytes >= minimum
}

/// Whether every byte target that can be measured holds. A failed free-space
/// probe must be surfaced as blocked, but must not cause a blind sweep of every
/// otherwise eligible file.
pub open spec fn known_quotas_hold(
    policy: RetentionPolicy,
    managed: int,
    free: Option<u64>,
) -> bool {
    &&& policy.max_managed_bytes matches Some(maximum) ==> managed <= maximum
    &&& policy.min_free_bytes matches Some(minimum) ==> free matches Some(bytes) ==> bytes
        >= minimum
}

pub fn quotas_satisfied(
    policy: RetentionPolicy,
    projected_managed_bytes: u64,
    projected_free_bytes: Option<u64>,
) -> (r: bool)
    ensures
        r == quotas_hold(policy, projected_managed_bytes as int, projected_free_bytes),
{
    let managed_ok = match policy.max_managed_bytes {
        Some(maximum) => projected_managed_bytes <= maximum,
        None => true,
    };
    let free_ok = match policy.min_free_bytes {
        Some(minimum) => match projected_free_bytes {
            Some(free) => free >= minimum,
            None => false,
        },
        None => true,
    };
    managed_ok && free_ok
}

fn known_quotas_satisfied(
    policy: RetentionPolicy,
    projected_managed_bytes: u64,
    projected_free_bytes: Option<u64>,
) -> (r: bool)
    ensures
        r == known_quotas_hold(policy, projected_managed_bytes as int, projected_free_bytes),
{
    let managed_ok = match policy.max_managed_bytes {
        Some(maximum) => projected_managed_bytes <= maximum,
        None => true,
    };
    let free_ok = match (policy.min_free_bytes, projected_free_bytes) {
        (Some(minimum), Some(free)) => free >= minimum,
        _ => true,
    };
    managed_ok && free_ok
}

/// Whether one candidate is at least as old as another: captured earlier, or at
/// the same time under a path that is not greater.
pub open spec fn not_newer(a: RetentionCandidate, b: RetentionCandidate) -> bool {
    ||| a.captured_at_unix_ms < b.captured_at_unix_ms
    ||| a.captured_at_unix_ms == b.captured_at_unix_ms && order::path_le(a.path@, b.path@)
}

/// Whether no two candidates have the same path.
pub open spec fn distinct_paths(s: Seq<RetentionCandidate>) -> bool {
    forall|i: int, j: int|
        0 <= i < j < s.len() ==> path::path_key((#[trigger] s[i]).path@) != path::path_key(
            (#[trigger] s[j]).path@,
        )
}

/// A candidate placed behind everything that is not newer.
pub open spec fn placed(sorted: Seq<RetentionCandidate>, x: RetentionCandidate) -> Seq<
    RetentionCandidate,
>
    decreases sorted.len(),
{
    if sorted.len() == 0 {
        seq![x]
    } else if not_newer(sorted.last(), x) {
        sorted.push(x)
    } else {
        placed(sorted.drop_last(), x).push(sorted.last())
    }
}

/// Candidates from oldest to newest; equally old ones keep their order.
pub open spec fn by_age(s: Seq<RetentionCandidate>) -> Seq<RetentionCandidate>
    decreases s.len(),
{
    if s.len() == 0 {
        s
    } else {
        placed(by_age(s.drop_last()), s.last())
    }
}

pub open spec fn is_by_age(s: Seq<RetentionCandidate>) -> bool {
    forall|i: int, j: int| 0 <= i < j < s.len() ==> not_newer(#[trigger] s[i], #[trigger] s[j])
}

proof fn lemma_not_newer_transitive(
    a: RetentionCandidate,
    b: RetentionCandidate,
    c: RetentionCandidate,
)
    requires
        not_newer(a, b),
        not_newer(b, c),
    ensures
        not_newer(a, c),
{
    if a.captured_at_unix_ms == b.captured_at_unix_ms && b.captured_at_unix_ms
        == c.captured_at_unix_ms {
        order::lemma_codes_le_transitive(
            path::path_key(a.path@),
            path::path_key(b.path@),
            path::path_key(c.path@),
        );
    }
}

proof fn lemma_placed(sorted: Seq<RetentionCandidate>, x: RetentionCandidate)
    requires
        is_by_age(sorted),
    ensures
        is_by_age(placed(sorted, x)),
        placed(sorted, x).to_multiset() == sorted.to_multiset().insert(x),
        placed(sorted, x).len() == sorted.len() + 1,
    decreases sorted.len(),
{
    broadcast use vstd::seq_lib::group_to_multiset_ensures;

    let r = placed(sorted, x);
    if sorted.len() == 0 {
        assert(r =~= sorted.push(x));
    } else if not_newer(sorted.last(), x) {
        assert forall|i: int, j: int| 0 <= i < j < r.len() implies not_newer(
            #[trigger] r[i],
            #[trigger] r[j],
        ) by {
            if j == sorted.len() && i < sorted.len() - 1 {
                assert(not_newer(sorted[i], sorted[sorted.len() - 1]));
                lemma_not_newer_transitive(r[i], sorted.last(), x);
            }
        }
    } else {
        let init = sorted.drop_last();
        let last = sorted.last();
        assert(is_by_age(init));
        lemma_placed(init, x);
        assert(sorted =~= init.push(last));
        let inner = placed(init, x);
        order::lemma_codes_le_total(path::path_key(last.path@), path::path_key(x.path@));
        assert(not_newer(x, last));
        assert forall|i: int, j: int| 0 <= i < j < r.len() implies not_newer(
            #[trigger] r[i],
            #[trigger] r[j],
        ) by {
            if j == inner.len() {
                assert(inner.contains(inner[i]));
                assert(inner.to_multiset().count(inner[i]) > 0);
                if inner[i] != x {
                    assert(init.to_multiset().count(inner[i]) > 0);
                    assert(init.contains(inner[i]));
                    let k = choose|k: int| 0 <= k < init.len() && init[k] == inner[i];
                    assert(not_newer(sorted[k], sorted[sorted.len() - 1]));
                }
            } else {
                assert(not_newer(inner[i], inner[j]));
            }
        }
        assert(r.to_multiset() =~= sorted.to_multiset().insert(x));
    }
}

/// Ordering by age permutes the candidates and puts none before an older one.
pub proof fn law_by_age_orders_all(s: Seq<RetentionCandidate>)
    ensures
        is_by_age(by_age(s)),
        by_age(s).to_multiset() == s.to_multiset(),
        by_age(s).len() == s.len(),
    decreases s.len(),
{
    broadcast use vstd::seq_lib::group_to_multiset_ensures;

    if s.len() > 0 {
        law_by_age_orders_all(s.drop_last());
        lemma_placed(by_age(s.drop_last()), s.last());
        assert(s =~= s.drop_last().push(s.last()));
    }
}

fn check_not_newer(a: &RetentionCandidate, b: &RetentionCandidate) -> (r: bool)
    ensures
        r == not_newer(*a, *b),
{
    if a.captured_at_unix_ms != b.captured_at_unix_ms {
        a.captured_at_unix_ms < b.captured_at_unix_ms
    } else {
        order::check_path_le(a.path.as_str(), b.path.as_str())
    }
}

fn place(sorted: &mut Vec<RetentionCandidate>, x: RetentionCandidate)
    ensures
        final(sorted)@ == placed(old(sorted)@, x),
{
    let mut at: usize = sorted.len();
    proof {
        assert(sorted@.take(at as int) =~= sorted@);
        assert(sorted@.skip(at as int) =~= Seq::<RetentionCandidate>::empty());
        assert(placed(sorted@, x) =~= placed(sorted@.take(at as int), x) + sorted@.skip(at as int));
    }
    while at > 0 && !check_not_newer(&sorted[at - 1], &x)
        invariant
            at <= sorted.len(),
            sorted@ == old(sorted)@,
            placed(sorted@, x) == placed(sorted@.take(at as int), x) + sorted@.skip(at as int),
        decreases at,
    {
        proof {
            let head = sorted@.take(at as int);
            assert(head.last() == sorted@[at - 1]);
            assert(head.drop_last() =~= sorted@.take(at - 1));
            assert(placed(head.drop_last(), x).push(head.last()) + sorted@.skip(at as int)
                =~= placed(sorted@.take(at - 1), x) + sorted@.skip(at - 1));
        }
        at = at - 1;
    }
    proof {
        let head = sorted@.take(at as int);
        if at > 0 {
            assert(head.last() == sorted@[at - 1]);
        }
        assert(placed(head, x) =~= head.push(x));
        assert(head.push(x) + sorted@.skip(at as int) =~= sorted@.insert(at as int, x));
    }
    sorted.insert(at, x);
}

fn sort_by_age(candidates: Vec<RetentionCandidate>) -> (r: Vec<RetentionCandidate>)
    ensures
        r@ == by_age(candidates@),
{
    let mut sorted: Vec<RetentionCandidate> = Vec::new();
    let ghost all = candidates@;
    for candidate in it: candidates
        invariant
            it.seq() == all,
            sorted@ == by_age(all.take(it.index() as int)),
    {
        proof {
            assert(all.take(it.index() + 1).drop_last() =~= all.take(it.index() as int));
        }
        place(&mut sorted, candidate);
    }
    assert(all.take(all.len() as int) =~= all);
    sorted
}

pub open spec fn saturating_total(s: Seq<RetentionCandidate>) -> int
    decreases s.len(),
{
    if s.len() == 0 {
        0
    } else {
        number::saturated_u64(saturating_total(s.drop_last()) + s.last().file_size_bytes)
    }
}

/// The bytes of the candidates that satisfy a condition on their index.
pub open spec fn saturating_total_where(
    s: Seq<RetentionCandidate>,
    chosen: spec_fn(int) -> bool,
) -> int
    decreases s.len(),
{
    if s.len() == 0 {
        0
    } else {
        let before = saturating_total_where(s.drop_last(), chosen);
        if chosen(s.len() - 1) {
            number::saturated_u64(before + s.last().file_size_bytes)
        } else {
            before
        }
    }
}

/// The candidates in the order in which a plan considers them, the newest one
/// protected if the policy always keeps it.
pub open spec fn considered(policy: RetentionPolicy, candidates: Seq<RetentionCandidate>) -> Seq<
    RetentionCandidate,
> {
    let sorted = by_age(candidates);
    if policy.keep_latest && sorted.len() > 0 {
        sorted.update(sorted.len() - 1, sorted.last().shielded())
    } else {
        sorted
    }
}

/// Whether the age rule selects a candidate.
pub open spec fn aged_out(policy: RetentionPolicy, now: u64, candidate: RetentionCandidate) -> bool {
    &&& candidate.reclaims()
    &&& policy.max_age_ms matches Some(max_age)
    &&& candidate.captured_at_unix_ms <= number::saturated_u64(now - max_age)
}

pub open spec fn protected_total(c: Seq<RetentionCandidate>) -> int {
    saturating_total_where(c, |i: int| !c[i].reclaims())
}

pub open spec fn aged_total(policy: RetentionPolicy, now: u64, c: Seq<RetentionCandidate>) -> int {
    saturating_total_where(c, |i: int| aged_out(policy, now, c[i]))
}

/// Free space once this many bytes have been reclaimed.
pub open spec fn free_after(free: Option<u64>, reclaimed: int) -> Option<u64> {
    match free {
        Some(bytes) => Some(number::saturated_u64(bytes + reclaimed) as u64),
        None => None,
    }
}

/// Managed bytes once this many bytes have been reclaimed.
pub open spec fn managed_after(c: Seq<RetentionCandidate>, reclaimed: int) -> int {
    number::saturated_u64(saturating_total(c) - reclaimed)
}

/// Bytes that are planned to be reclaimed before the candidate at `i` is
/// considered for the byte limits: all that the age rule selects, and what the
/// limits took from older candidates.
pub open spec fn planned_before(
    policy: RetentionPolicy,
    now: u64,
    free: Option<u64>,
    c: Seq<RetentionCandidate>,
    i: int,
) -> int
    decreases i,
{
    if i <= 0 {
        aged_total(policy, now, c)
    } else {
        let planned = planned_before(policy, now, free, c, i - 1);
        if !aged_out(policy, now, c[i - 1]) && c[i - 1].reclaims() && !known_quotas_hold(
            policy,
            managed_after(c, planned),
            free_after(free, planned),
        ) {
            number::saturated_u64(planned + c[i - 1].file_size_bytes)
        } else {
            planned
        }
    }
}

/// Whether a plan deletes the candidate at `i`: the age rule selects it, or the
/// byte limits still do not hold once every older eligible candidate is gone.
pub open spec fn selected(
    policy: RetentionPolicy,
    now: u64,
    free: Option<u64>,
    c: Seq<RetentionCandidate>,
    i: int,
) -> bool {
    let planned = planned_before(policy, now, free, c, i);
    aged_out(policy, now, c[i]) || (c[i].reclaims() && !known_quotas_hold(
        policy,
        managed_after(c, planned),
        free_after(free, planned),
    ))
}

/// The selected ones of the first `n` candidates.
pub open spec fn selection(
    policy: RetentionPolicy,
    now: u64,
    free: Option<u64>,
    c: Seq<RetentionCandidate>,
    n: int,
) -> Seq<RetentionCandidate>
    decreases n,
{
    if n <= 0 {
        Seq::empty()
    } else {
        let before = selection(policy, now, free, c, n - 1);
        if selected(policy, now, free, c, n - 1) {
            before.push(c[n - 1])
        } else {
            before
        }
    }
}

/// What one sweep intends to delete, and the bytes before and after.
#[derive(Debug)]
pub struct RetentionPlan {
    pub deletions: Vec<RetentionCandidate>,
    pub managed_bytes: u64,
    pub protected_bytes: u64,
    pub reclaimable_bytes: u64,
    pub planned_reclaim_bytes: u64,
    pub projected_managed_bytes: u64,
    pub projected_free_bytes: Option<u64>,
    /// True when every eligible artifact could be removed and a byte quota
    /// would still be violated. Callers must surface/suspend instead of
    /// deleting protected recovery data.
    pub quota_blocked: bool,
}

impl RetentionPlan {
    /// Whether this is the plan for these candidates.
    pub open spec fn is_plan_for(
        self,
        policy: RetentionPolicy,
        now: u64,
        free: Option<u64>,
        candidates: Seq<RetentionCandidate>,
    ) -> bool {
        let c = considered(policy, candidates);
        let n = c.len() as int;
        let planned = planned_before(policy, now, free, c, n);
        &&& self.deletions@ == selection(policy, now, free, c, n)
        &&& self.managed_bytes == saturating_total(c)
        &&& self.protected_bytes == protected_total(c)
        &&& self.reclaimable_bytes == number::saturated_u64(
            saturating_total(c) - protected_total(c),
        )
        &&& self.planned_reclaim_bytes == planned
        &&& self.projected_managed_bytes == managed_after(c, planned)
        &&& self.projected_free_bytes == free_after(free, planned)
        &&& self.quota_blocked == !quotas_hold(
            policy,
            managed_after(c, planned),
            free_after(free, planned),
        )
    }
}

/// Once the measurable limits hold, they keep holding as more is reclaimed.
proof fn lemma_quotas_stay(
    policy: RetentionPolicy,
    free: Option<u64>,
    c: Seq<RetentionCandidate>,
    planned: int,
    more: int,
)
    requires
        0 <= planned <= more,
        known_quotas_hold(policy, managed_after(c, planned), free_after(free, planned)),
    ensures
        known_quotas_hold(policy, managed_after(c, more), free_after(free, more)),
{
}

proof fn lemma_planned_bounds(
    policy: RetentionPolicy,
    now: u64,
    free: Option<u64>,
    c: Seq<RetentionCandidate>,
    i: int,
)
    ensures
        0 <= planned_before(policy, now, free, c, i) <= u64::MAX,
        i > 0 ==> planned_before(policy, now, free, c, i - 1) <= planned_before(
            policy,
            now,
            free,
            c,
            i,
        ),
    decreases i,
{
    if i <= 0 {
        lemma_total_where_bounds(c, |k: int| aged_out(policy, now, c[k]));
    } else {
        lemma_planned_bounds(policy, now, free, c, i - 1);
    }
}

proof fn lemma_total_where_bounds(s: Seq<RetentionCandidate>, chosen: spec_fn(int) -> bool)
    ensures
        0 <= saturating_total_where(s, chosen) <= u64::MAX,
    decreases s.len(),
{
    if s.len() > 0 {
        lemma_total_where_bounds(s.drop_last(), chosen);
    }
}

proof fn lemma_total_where_prefix(
    s: Seq<RetentionCandidate>,
    chosen: spec_fn(int) -> bool,
    n: int,
)
    requires
        0 <= n < s.len(),
    ensures
        s.take(n + 1).drop_last() == s.take(n),
        s.take(n + 1).last() == s[n],
        s.take(s.len() as int) == s,
{
    assert(s.take(n + 1).drop_last() =~= s.take(n));
    assert(s.take(s.len() as int) =~= s);
}

/// Choose what to delete: everything that the age rule selects, and then the
/// oldest eligible artifacts until the measurable byte limits hold. Protected
/// artifacts are never chosen.
pub fn plan_retention(
    policy: RetentionPolicy,
    now_unix_ms: u64,
    free_bytes: Option<u64>,
    candidates: Vec<RetentionCandidate>,
) -> (plan: RetentionPlan)
    ensures
        plan.is_plan_for(policy, now_unix_ms, free_bytes, candidates@),
{
    let ghost all = candidates@;
    let mut sorted = sort_by_age(candidates);
    if policy.keep_latest && sorted.len() > 0 {
        let last: usize = sorted.len() - 1;
        let mut latest = sorted[last].clone();
        latest.protect();
        sorted.set(last, latest);
    }
    let ghost c = considered(policy, all);
    assert(sorted@ =~= c);
    let totals = total_bytes(policy, now_unix_ms, &sorted);
    let managed_bytes: u64 = totals.0;
    let protected_bytes: u64 = totals.1;
    let mut planned: u64 = totals.2;
    let mut deletions: Vec<RetentionCandidate> = Vec::new();
    let mut i: usize = 0;
    while i < sorted.len()
        invariant
            i <= sorted.len(),
            sorted@ == c,
            managed_bytes == saturating_total(c),
            planned == planned_before(policy, now_unix_ms, free_bytes, c, i as int),
            deletions@ == selection(policy, now_unix_ms, free_bytes, c, i as int),
        decreases sorted.len() - i,
    {
        let candidate = &sorted[i];
        let aged = is_aged_out(policy, now_unix_ms, candidate);
        let projected_free: Option<u64> = match free_bytes {
            Some(bytes) => Some(bytes.saturating_add(planned)),
            None => None,
        };
        if aged {
            deletions.push(candidate.clone());
        } else if candidate.is_reclaimable() && !known_quotas_satisfied(
            policy,
            managed_bytes.saturating_sub(planned),
            projected_free,
        ) {
            deletions.push(candidate.clone());
            planned = planned.saturating_add(candidate.file_size_bytes);
        }
        i = i + 1;
    }
    let projected_managed_bytes: u64 = managed_bytes.saturating_sub(planned);
    let projected_free_bytes: Option<u64> = match free_bytes {
        Some(bytes) => Some(bytes.saturating_add(planned)),
        None => None,
    };
    let quota_blocked = !quotas_satisfied(policy, projected_managed_bytes, projected_free_bytes);
    RetentionPlan {
        deletions,
        managed_bytes,
        protected_bytes,
        reclaimable_bytes: managed_bytes.saturating_sub(protected_bytes),
        planned_reclaim_bytes: planned,
        projected_managed_bytes,
        projected_free_bytes,
        quota_blocked,
    }
}

fn is_aged_out(policy: RetentionPolicy, now_unix_ms: u64, candidate: &RetentionCandidate) -> (r:
    bool)
    ensures
        r == aged_out(policy, now_unix_ms, *candidate),
{
    match policy.max_age_ms {
        Some(max_age_ms) => candidate.is_reclaimable() && candidate.captured_at_unix_ms
            <= now_unix_ms.saturating_sub(max_age_ms),
        None => false,
    }
}

/// Managed bytes, protected bytes, and the bytes that the age rule selects.
fn total_bytes(
    policy: RetentionPolicy,
    now_unix_ms: u64,
    candidates: &Vec<RetentionCandidate>,
) -> (r: (u64, u64, u64))
    ensures
        r.0 == saturating_total(candidates@),
        r.1 == protected_total(candidates@),
        r.2 == aged_total(policy, now_unix_ms, candidates@),
{
    let ghost c = candidates@;
    let ghost kept = |k: int| !c[k].reclaims();
    let ghost aged = |k: int| aged_out(policy, now_unix_ms, c[k]);
    let mut managed: u64 = 0;
    let mut protected: u64 = 0;
    let mut expired: u64 = 0;
    let mut i: usize = 0;
    while i < candidates.len()
        invariant
            i <= candidates.len(),
            candidates@ == c,
            kept == (|k: int| !c[k].reclaims()),
            aged == (|k: int| aged_out(policy, now_unix_ms, c[k])),
            managed == saturating_total(c.take(i as int)),
            protected == saturating_total_where(c.take(i as int), kept),
            expired == saturating_total_where(c.take(i as int), aged),
        decreases candidates.len() - i,
    {
        proof {
            lemma_total_where_prefix(c, kept, i as int);
        }
        let size: u64 = candidates[i].file_size_bytes;
        managed = managed.saturating_add(size);
        if !candidates[i].is_reclaimable() {
            protected = protected.saturating_add(size);
        }
        if is_aged_out(policy, now_unix_ms, &candidates[i]) {
            expired = expired.saturating_add(size);
        }
        i = i + 1;
    }
    assert(c.take(i as int) =~= c);
    (managed, protected, expired)
}

proof fn lemma_selection_member(
    policy: RetentionPolicy,
    now: u64,
    free: Option<u64>,
    c: Seq<RetentionCandidate>,
    n: int,
    x: RetentionCandidate,
) -> (k: int)
    requires
        selection(policy, now, free, c, n).contains(x),
    ensures
        0 <= k < n,
        selected(policy, now, free, c, k),
        c[k] == x,
    decreases n,
{
    let s = selection(policy, now, free, c, n);
    let at = choose|at: int| 0 <= at < s.len() && s[at] == x;
    let before = selection(policy, now, free, c, n - 1);
    if selected(policy, now, free, c, n - 1) && at == before.len() {
        n - 1
    } else {
        assert(before[at] == x);
        lemma_selection_member(policy, now, free, c, n - 1, x)
    }
}

/// A plan deletes only artifacts from its inventory that are authorized as
/// reclaimable: protected data is never deleted, whatever the limits ask.
pub proof fn law_plan_never_deletes_protected(
    plan: RetentionPlan,
    policy: RetentionPolicy,
    now: u64,
    free: Option<u64>,
    candidates: Seq<RetentionCandidate>,
    x: RetentionCandidate,
)
    requires
        plan.is_plan_for(policy, now, free, candidates),
        plan.deletions@.contains(x),
    ensures
        x.reclaims(),
        candidates.contains(x),
{
    let c = considered(policy, candidates);
    let sorted = by_age(candidates);
    let k = lemma_selection_member(policy, now, free, c, c.len() as int, x);
    law_by_age_orders_all(candidates);
    assert(sorted[k] == x);
    lemma_same_members(sorted, candidates, k);
}

proof fn lemma_same_members(a: Seq<RetentionCandidate>, b: Seq<RetentionCandidate>, k: int)
    requires
        a.to_multiset() == b.to_multiset(),
        0 <= k < a.len(),
    ensures
        b.contains(a[k]),
{
    broadcast use vstd::seq_lib::group_to_multiset_ensures;

    assert(a.contains(a[k]));
    assert(a.to_multiset().count(a[k]) > 0);
}

/// With `keep_latest`, the newest managed image outlives every rule.
pub proof fn law_plan_keeps_latest(
    plan: RetentionPlan,
    policy: RetentionPolicy,
    now: u64,
    free: Option<u64>,
    candidates: Seq<RetentionCandidate>,
    newest: RetentionCandidate,
)
    requires
        plan.is_plan_for(policy, now, free, candidates),
        policy.keep_latest,
        candidates.contains(newest),
        forall|i: int| 0 <= i < candidates.len() ==> not_newer(#[trigger] candidates[i], newest),
        distinct_paths(candidates),
    ensures
        !plan.deletions@.contains(newest),
{
    if plan.deletions@.contains(newest) {
        let c = considered(policy, candidates);
        let sorted = by_age(candidates);
        let n = c.len() as int;
        let k = lemma_selection_member(policy, now, free, c, n, newest);
        law_by_age_orders_all(candidates);
        assert(k < n - 1);
        assert(sorted[k] == newest);
        let last = sorted[n - 1];
        assert(not_newer(sorted[k], sorted[n - 1]));
        lemma_same_members(sorted, candidates, n - 1);
        assert(candidates.contains(last));
        order::lemma_codes_le_antisymmetric(
            path::path_key(newest.path@),
            path::path_key(last.path@),
        );
        lemma_distinct_paths(candidates, newest, last);
        assert(last == newest);
        lemma_no_copies(sorted, candidates, k, n - 1);
    }
}

proof fn lemma_distinct_paths(
    s: Seq<RetentionCandidate>,
    x: RetentionCandidate,
    y: RetentionCandidate,
)
    requires
        s.contains(x),
        s.contains(y),
        path::path_key(x.path@) == path::path_key(y.path@),
        distinct_paths(s),
    ensures
        x == y,
{
    let i = choose|i: int| 0 <= i < s.len() && s[i] == x;
    let j = choose|j: int| 0 <= j < s.len() && s[j] == y;
    if i < j {
        assert(path::path_key(s[i].path@) != path::path_key(s[j].path@));
    } else if j < i {
        assert(path::path_key(s[j].path@) != path::path_key(s[i].path@));
    }
}

proof fn lemma_no_copies(
    a: Seq<RetentionCandidate>,
    b: Seq<RetentionCandidate>,
    i: int,
    j: int,
)
    requires
        a.to_multiset() == b.to_multiset(),
        0 <= i < j < a.len(),
        distinct_paths(b),
    ensures
        a[i] != a[j],
{
    broadcast use vstd::seq_lib::group_to_multiset_ensures;

    if a[i] == a[j] {
        let x = a[i];
        let rest = a.remove(j);
        assert(a.to_multiset().remove(x) =~= rest.to_multiset()) by {
            assert(a =~= rest.insert(j, x));
        }
        assert(rest[i] == x);
        assert(rest.contains(x));
        assert(a.to_multiset().count(x) >= 2);
        assert(b.contains(x));
        let at = choose|at: int| 0 <= at < b.len() && b[at] == x;
        let others = b.remove(at);
        assert(b.to_multiset().remove(x) =~= others.to_multiset()) by {
            assert(b =~= others.insert(at, x));
        }
        assert(others.to_multiset().count(x) >= 1);
        assert(others.contains(x));
        let again = choose|again: int| 0 <= again < others.len() && others[again] == x;
        if again < at {
            assert(b[again] == x);
            assert(path::path_key(b[again].path@) != path::path_key(b[at].path@));
        } else {
            assert(b[again + 1] == x);
            assert(path::path_key(b[at].path@) != path::path_key(b[again + 1].path@));
        }
    }
}

proof fn lemma_planned_monotone(
    policy: RetentionPolicy,
    now: u64,
    free: Option<u64>,
    c: Seq<RetentionCandidate>,
    i: int,
    j: int,
)
    requires
        0 <= i <= j,
    ensures
        0 <= planned_before(policy, now, free, c, i) <= planned_before(policy, now, free, c, j),
    decreases j - i,
{
    lemma_planned_bounds(policy, now, free, c, j);
    if i < j {
        lemma_planned_monotone(policy, now, free, c, i, j - 1);
    }
}

/// The byte limits reclaim oldest first: if they take a candidate, every older
/// eligible candidate is deleted as well, and the limits did not hold before.
pub proof fn law_limits_reclaim_oldest_first(
    policy: RetentionPolicy,
    now: u64,
    free: Option<u64>,
    c: Seq<RetentionCandidate>,
    i: int,
    j: int,
)
    requires
        0 <= i < j < c.len(),
        selected(policy, now, free, c, j),
        !aged_out(policy, now, c[j]),
        c[i].reclaims(),
    ensures
        selected(policy, now, free, c, i),
        ({
            let planned = planned_before(policy, now, free, c, j);
            !known_quotas_hold(policy, managed_after(c, planned), free_after(free, planned))
        }),
{
    lemma_planned_monotone(policy, now, free, c, i, j);
    let early = planned_before(policy, now, free, c, i);
    if known_quotas_hold(policy, managed_after(c, early), free_after(free, early)) {
        lemma_quotas_stay(policy, free, c, early, planned_before(policy, now, free, c, j));
    }
}

/// A plan meets every measurable byte limit, or deletes all that is eligible.
pub proof fn law_plan_meets_limits_or_exhausts(
    policy: RetentionPolicy,
    now: u64,
    free: Option<u64>,
    c: Seq<RetentionCandidate>,
    i: int,
)
    requires
        0 <= i < c.len(),
        c[i].reclaims(),
        ({
            let planned = planned_before(policy, now, free, c, c.len() as int);
            !known_quotas_hold(policy, managed_after(c, planned), free_after(free, planned))
        }),
    ensures
        selected(policy, now, free, c, i),
{
    let n = c.len() as int;
    lemma_planned_monotone(policy, now, free, c, i, n);
    let early = planned_before(policy, now, free, c, i);
    if known_quotas_hold(policy, managed_after(c, early), free_after(free, early)) {
        lemma_quotas_stay(policy, free, c, early, planned_before(policy, now, free, c, n));
    }
}

/// A blocked plan has given up everything eligible, unless it is blocked only
/// because the free space could not be measured.
pub proof fn law_blocked_plan_is_exhausted(
    plan: RetentionPlan,
    policy: RetentionPolicy,
    now: u64,
    free: Option<u64>,
    candidates: Seq<RetentionCandidate>,
    i: int,
)
    requires
        plan.is_plan_for(policy, now, free, candidates),
        plan.quota_blocked,
        policy.min_free_bytes is None || free is Some,
        0 <= i < considered(policy, candidates).len(),
        considered(policy, candidates)[i].reclaims(),
    ensures
        selected(policy, now, free, considered(policy, candidates), i),
{
    law_plan_meets_limits_or_exhausts(policy, now, free, considered(policy, candidates), i);
}

/// Without a free-space measurement, a minimum free space is never met, and no
/// artifact is deleted on its account.
pub proof fn law_unmeasured_free_space_fails_closed(
    plan: RetentionPlan,
    policy: RetentionPolicy,
    now: u64,
    candidates: Seq<RetentionCandidate>,
    x: RetentionCandidate,
)
    requires
        plan.is_plan_for(policy, now, None, candidates),
        policy.min_free_bytes is Some,
    ensures
        plan.quota_blocked,
        policy.max_managed_bytes is None && plan.deletions@.contains(x) ==> aged_out(policy, now, x),
{
    if policy.max_managed_bytes is None && plan.deletions@.contains(x) {
        let c = considered(policy, candidates);
        let k = lemma_selection_member(policy, now, None, c, c.len() as int, x);
    }
}

/// The exact number of bytes of some candidates.
pub open spec fn exact_total(s: Seq<RetentionCandidate>) -> int
    decreases s.len(),
{
    if s.len() == 0 {
        0
    } else {
        exact_total(s.drop_last()) + s.last().file_size_bytes
    }
}

pub open spec fn exact_total_where(
    s: Seq<RetentionCandidate>,
    chosen: spec_fn(int) -> bool,
) -> int
    decreases s.len(),
{
    if s.len() == 0 {
        0
    } else {
        exact_total_where(s.drop_last(), chosen) + if chosen(s.len() - 1) {
            s.last().file_size_bytes as int
        } else {
            0
        }
    }
}

proof fn lemma_exact_totals(s: Seq<RetentionCandidate>, chosen: spec_fn(int) -> bool)
    requires
        exact_total(s) <= u64::MAX,
    ensures
        saturating_total(s) == exact_total(s),
        saturating_total_where(s, chosen) == exact_total_where(s, chosen),
        0 <= exact_total_where(s, chosen) <= exact_total(s),
    decreases s.len(),
{
    if s.len() > 0 {
        lemma_exact_total_nonneg(s.drop_last());
        lemma_exact_totals(s.drop_last(), chosen);
    }
}

proof fn lemma_exact_total_nonneg(s: Seq<RetentionCandidate>)
    ensures
        exact_total(s) >= 0,
    decreases s.len(),
{
    if s.len() > 0 {
        lemma_exact_total_nonneg(s.drop_last());
    }
}

proof fn lemma_complement(
    s: Seq<RetentionCandidate>,
    chosen: spec_fn(int) -> bool,
    other: spec_fn(int) -> bool,
)
    requires
        forall|i: int| 0 <= i < s.len() ==> #[trigger] chosen(i) != other(i),
    ensures
        exact_total_where(s, chosen) + exact_total_where(s, other) == exact_total(s),
    decreases s.len(),
{
    if s.len() > 0 {
        lemma_complement(s.drop_last(), chosen, other);
        assert(chosen(s.len() - 1) != other(s.len() - 1));
    }
}

/// As long as the sizes add up within a `u64`, a plan's bytes balance: managed
/// bytes are protected or reclaimable, and nothing else.
pub proof fn law_plan_bytes_balance(
    plan: RetentionPlan,
    policy: RetentionPolicy,
    now: u64,
    free: Option<u64>,
    candidates: Seq<RetentionCandidate>,
)
    requires
        plan.is_plan_for(policy, now, free, candidates),
        exact_total(considered(policy, candidates)) <= u64::MAX,
    ensures
        plan.managed_bytes == plan.protected_bytes + plan.reclaimable_bytes,
        plan.reclaimable_bytes == exact_total_where(
            considered(policy, candidates),
            |i: int| considered(policy, candidates)[i].reclaims(),
        ),
{
    let c = considered(policy, candidates);
    let kept = |i: int| !c[i].reclaims();
    let eligible = |i: int| c[i].reclaims();
    lemma_exact_totals(c, kept);
    lemma_complement(c, kept, eligible);
}

/// Whether no two candidates are equally old: captured at the same time under the
/// same path.
pub open spec fn ages_apart(s: Seq<RetentionCandidate>) -> bool {
    forall|i: int, j: int|
        0 <= i < j < s.len() ==> (#[trigger] s[i]).captured_at_unix_ms != (
        #[trigger] s[j]).captured_at_unix_ms || path::path_key(s[i].path@) != path::path_key(
            s[j].path@,
        )
}

proof fn lemma_one_age_one_candidate(
    s: Seq<RetentionCandidate>,
    x: RetentionCandidate,
    y: RetentionCandidate,
)
    requires
        ages_apart(s),
        s.contains(x),
        s.contains(y),
        not_newer(x, y),
        not_newer(y, x),
    ensures
        x == y,
{
    order::lemma_codes_le_antisymmetric(path::path_key(x.path@), path::path_key(y.path@));
    let i = choose|i: int| 0 <= i < s.len() && s[i] == x;
    let j = choose|j: int| 0 <= j < s.len() && s[j] == y;
    if i < j {
        assert(s[i].captured_at_unix_ms != s[j].captured_at_unix_ms || path::path_key(s[i].path@)
            != path::path_key(s[j].path@));
    } else if j < i {
        assert(s[j].captured_at_unix_ms != s[i].captured_at_unix_ms || path::path_key(s[j].path@)
            != path::path_key(s[i].path@));
    }
}

proof fn lemma_not_newer_reflexive(x: RetentionCandidate)
    ensures
        not_newer(x, x),
{
    order::lemma_codes_le_total(path::path_key(x.path@), path::path_key(x.path@));
}

/// There is one order by age of candidates of which no two are equally old.
proof fn lemma_one_order(
    a: Seq<RetentionCandidate>,
    b: Seq<RetentionCandidate>,
    s: Seq<RetentionCandidate>,
)
    requires
        is_by_age(a),
        is_by_age(b),
        a.to_multiset() == b.to_multiset(),
        forall|i: int| 0 <= i < a.len() ==> s.contains(#[trigger] a[i]),
        ages_apart(s),
    ensures
        a == b,
    decreases a.len(),
{
    broadcast use vstd::seq_lib::group_to_multiset_ensures;

    assert(a.len() == a.to_multiset().len());
    assert(b.len() == b.to_multiset().len());
    if a.len() > 0 {
        let x = a.last();
        let y = b.last();
        lemma_same_members(a, b, a.len() - 1);
        lemma_same_members(b, a, b.len() - 1);
        let j = choose|j: int| 0 <= j < b.len() && b[j] == x;
        let i = choose|i: int| 0 <= i < a.len() && a[i] == y;
        lemma_not_newer_reflexive(x);
        assert(not_newer(x, y)) by {
            if j < b.len() - 1 {
                assert(not_newer(b[j], b[b.len() - 1]));
            }
        }
        assert(not_newer(y, x)) by {
            if i < a.len() - 1 {
                assert(not_newer(a[i], a[a.len() - 1]));
            }
        }
        assert(s.contains(a[i]));
        assert(s.contains(a[a.len() - 1]));
        lemma_one_age_one_candidate(s, x, y);
        let a_rest = a.drop_last();
        let b_rest = b.drop_last();
        assert(a =~= a_rest.push(x));
        assert(b =~= b_rest.push(x));
        assert(a_rest.to_multiset() =~= a.to_multiset().remove(x));
        assert(b_rest.to_multiset() =~= b.to_multiset().remove(x));
        assert forall|k: int| 0 <= k < a_rest.len() implies s.contains(#[trigger] a_rest[k]) by {
            assert(s.contains(a[k]));
        }
        lemma_one_order(a_rest, b_rest, s);
    } else {
        assert(a =~= b);
    }
}

proof fn lemma_members_of_sorted(s: Seq<RetentionCandidate>)
    ensures
        forall|i: int| 0 <= i < by_age(s).len() ==> s.contains(#[trigger] by_age(s)[i]),
{
    law_by_age_orders_all(s);
    assert forall|i: int| 0 <= i < by_age(s).len() implies s.contains(#[trigger] by_age(s)[i]) by {
        lemma_same_members(by_age(s), s, i);
    }
}

/// A plan does not depend on the order in which its candidates are listed, where
/// no two of them have both the same time and the same path.
pub proof fn law_plan_ignores_listing_order(
    first: RetentionPlan,
    second: RetentionPlan,
    policy: RetentionPolicy,
    now: u64,
    free: Option<u64>,
    candidates: Seq<RetentionCandidate>,
    permuted: Seq<RetentionCandidate>,
)
    requires
        first.is_plan_for(policy, now, free, candidates),
        second.is_plan_for(policy, now, free, permuted),
        permuted.to_multiset() == candidates.to_multiset(),
        ages_apart(candidates),
    ensures
        second.deletions@ == first.deletions@,
        second == (RetentionPlan { deletions: second.deletions, ..first }),
{
    law_by_age_orders_all(candidates);
    law_by_age_orders_all(permuted);
    lemma_members_of_sorted(candidates);
    lemma_one_order(by_age(candidates), by_age(permuted), candidates);
}

/// Those of the first `n` elements of `s` that a plan for `c` does not select.
pub open spec fn unselected(
    policy: RetentionPolicy,
    now: u64,
    free: Option<u64>,
    c: Seq<RetentionCandidate>,
    s: Seq<RetentionCandidate>,
    n: int,
) -> Seq<RetentionCandidate>
    decreases n,
{
    if n <= 0 {
        Seq::empty()
    } else {
        let before = unselected(policy, now, free, c, s, n - 1);
        if selected(policy, now, free, c, n - 1) {
            before
        } else {
            before.push(s[n - 1])
        }
    }
}

/// The bytes that the byte limits take among the first `n` candidates.
spec fn taken_total(
    policy: RetentionPolicy,
    now: u64,
    free: Option<u64>,
    c: Seq<RetentionCandidate>,
    n: int,
) -> int
    decreases n,
{
    if n <= 0 {
        0
    } else {
        taken_total(policy, now, free, c, n - 1) + if selected(policy, now, free, c, n - 1)
            && !aged_out(policy, now, c[n - 1]) {
            c[n - 1].file_size_bytes as int
        } else {
            0
        }
    }
}

/// What a plan selects of the first `n` candidates and what it leaves are all of
/// their bytes, and the protected bytes are left.
proof fn lemma_plan_splits_bytes(
    policy: RetentionPolicy,
    now: u64,
    free: Option<u64>,
    c: Seq<RetentionCandidate>,
    n: int,
)
    requires
        0 <= n <= c.len(),
    ensures
        ({
            let rest = unselected(policy, now, free, c, c, n);
            let aged = exact_total_where(c.take(n), |i: int| aged_out(policy, now, c[i]));
            let taken = taken_total(policy, now, free, c, n);
            &&& 0 <= aged
            &&& 0 <= taken
            &&& exact_total(c.take(n)) == exact_total(rest) + aged + taken
            &&& exact_total_where(rest, |i: int| !rest[i].reclaims()) == exact_total_where(
                c.take(n),
                |i: int| !c[i].reclaims(),
            )
        }),
    decreases n,
{
    let rest = unselected(policy, now, free, c, c, n);
    let aged = |i: int| aged_out(policy, now, c[i]);
    let kept = |i: int| !c[i].reclaims();
    let rest_kept = |i: int| !rest[i].reclaims();
    if n == 0 {
        assert(c.take(0) =~= Seq::<RetentionCandidate>::empty());
        assert(rest =~= Seq::<RetentionCandidate>::empty());
    } else {
        lemma_plan_splits_bytes(policy, now, free, c, n - 1);
        assert(c.take(n).drop_last() =~= c.take(n - 1));
        assert(c.take(n).last() == c[n - 1]);
        let before = unselected(policy, now, free, c, c, n - 1);
        let before_kept = |i: int| !before[i].reclaims();
        if !selected(policy, now, free, c, n - 1) {
            assert(rest.drop_last() =~= before);
            lemma_where_agrees(before, rest_kept, before_kept);
        }
    }
}

proof fn lemma_where_agrees(
    s: Seq<RetentionCandidate>,
    p: spec_fn(int) -> bool,
    q: spec_fn(int) -> bool,
)
    requires
        forall|i: int| 0 <= i < s.len() ==> #[trigger] p(i) == q(i),
    ensures
        exact_total_where(s, p) == exact_total_where(s, q),
    decreases s.len(),
{
    if s.len() > 0 {
        lemma_where_agrees(s.drop_last(), p, q);
        assert(p(s.len() - 1) == q(s.len() - 1));
    }
}

/// Without overflow, a plan's bytes are those of what it selects.
proof fn lemma_planned_is_selected(
    policy: RetentionPolicy,
    now: u64,
    free: Option<u64>,
    c: Seq<RetentionCandidate>,
    i: int,
)
    requires
        0 <= i <= c.len(),
        exact_total(c) <= u64::MAX,
    ensures
        planned_before(policy, now, free, c, i) == aged_total(policy, now, c) + taken_total(
            policy,
            now,
            free,
            c,
            i,
        ),
        aged_total(policy, now, c) + taken_total(policy, now, free, c, i) <= exact_total(c),
    decreases i,
{
    let n = c.len() as int;
    let aged = |k: int| aged_out(policy, now, c[k]);
    lemma_exact_totals(c, aged);
    lemma_plan_splits_bytes(policy, now, free, c, n);
    assert(c.take(n) =~= c);
    lemma_exact_total_nonneg(unselected(policy, now, free, c, c, n));
    lemma_taken_grows(policy, now, free, c, i, n);
    if i > 0 {
        lemma_planned_is_selected(policy, now, free, c, i - 1);
        lemma_planned_bounds(policy, now, free, c, i - 1);
        let before = planned_before(policy, now, free, c, i - 1);
        let takes = !aged_out(policy, now, c[i - 1]) && c[i - 1].reclaims() && !known_quotas_hold(
            policy,
            managed_after(c, before),
            free_after(free, before),
        );
        assert(takes == (selected(policy, now, free, c, i - 1) && !aged_out(
            policy,
            now,
            c[i - 1],
        )));
    } else {
        assert(taken_total(policy, now, free, c, i) == 0);
    }
}

proof fn lemma_taken_grows(
    policy: RetentionPolicy,
    now: u64,
    free: Option<u64>,
    c: Seq<RetentionCandidate>,
    i: int,
    j: int,
)
    requires
        0 <= i <= j,
    ensures
        taken_total(policy, now, free, c, i) <= taken_total(policy, now, free, c, j),
    decreases j - i,
{
    if i < j {
        lemma_taken_grows(policy, now, free, c, i, j - 1);
    }
}

/// What a plan leaves is in the order in which it was.
proof fn lemma_unselected_member(
    policy: RetentionPolicy,
    now: u64,
    free: Option<u64>,
    c: Seq<RetentionCandidate>,
    s: Seq<RetentionCandidate>,
    n: int,
    k: int,
) -> (at: int)
    requires
        0 <= n <= s.len(),
        0 <= k < unselected(policy, now, free, c, s, n).len(),
    ensures
        k <= at < n,
        !selected(policy, now, free, c, at),
        unselected(policy, now, free, c, s, n)[k] == s[at],
    decreases n,
{
    lemma_unselected_bound(policy, now, free, c, s, n);
    let before = unselected(policy, now, free, c, s, n - 1);
    lemma_unselected_bound(policy, now, free, c, s, n - 1);
    if k < before.len() {
        lemma_unselected_member(policy, now, free, c, s, n - 1, k)
    } else {
        n - 1
    }
}

proof fn lemma_unselected_bound(
    policy: RetentionPolicy,
    now: u64,
    free: Option<u64>,
    c: Seq<RetentionCandidate>,
    s: Seq<RetentionCandidate>,
    n: int,
)
    ensures
        unselected(policy, now, free, c, s, n).len() <= if n <= 0 {
            0
        } else {
            n
        },
    decreases n,
{
    if n > 0 {
        lemma_unselected_bound(policy, now, free, c, s, n - 1);
    }
}

proof fn lemma_unselected_sorted(
    policy: RetentionPolicy,
    now: u64,
    free: Option<u64>,
    c: Seq<RetentionCandidate>,
    s: Seq<RetentionCandidate>,
    n: int,
)
    requires
        is_by_age(s),
        0 <= n <= s.len(),
    ensures
        is_by_age(unselected(policy, now, free, c, s, n)),
    decreases n,
{
    if n > 0 {
        lemma_unselected_sorted(policy, now, free, c, s, n - 1);
        let before = unselected(policy, now, free, c, s, n - 1);
        let rest = unselected(policy, now, free, c, s, n);
        assert forall|i: int, j: int| 0 <= i < j < rest.len() implies not_newer(
            #[trigger] rest[i],
            #[trigger] rest[j],
        ) by {
            if j < before.len() {
                assert(not_newer(before[i], before[j]));
            } else {
                let at = lemma_unselected_member(policy, now, free, c, s, n - 1, i);
                assert(not_newer(s[at], s[n - 1]));
            }
        }
    }
}

proof fn lemma_selection_splits(
    policy: RetentionPolicy,
    now: u64,
    free: Option<u64>,
    c: Seq<RetentionCandidate>,
    s: Seq<RetentionCandidate>,
    n: int,
)
    requires
        0 <= n <= s.len(),
        forall|i: int|
            0 <= i < n && #[trigger] selected(policy, now, free, c, i) ==> c[i] == s[i],
    ensures
        s.take(n).to_multiset() == unselected(policy, now, free, c, s, n).to_multiset().add(
            selection(policy, now, free, c, n).to_multiset(),
        ),
    decreases n,
{
    broadcast use vstd::seq_lib::group_to_multiset_ensures;

    if n == 0 {
        assert(s.take(0) =~= Seq::<RetentionCandidate>::empty());
        assert(s.take(0).to_multiset() =~= unselected(
            policy,
            now,
            free,
            c,
            s,
            0,
        ).to_multiset().add(selection(policy, now, free, c, 0).to_multiset()));
    } else {
        lemma_selection_splits(policy, now, free, c, s, n - 1);
        assert(s.take(n) =~= s.take(n - 1).push(s[n - 1]));
        let rest = unselected(policy, now, free, c, s, n);
        let gone = selection(policy, now, free, c, n);
        assert(s.take(n).to_multiset() =~= rest.to_multiset().add(gone.to_multiset()));
    }
}

/// What a plan for the considered candidates leaves is what the next plan
/// considers.
proof fn lemma_next_considered(
    policy: RetentionPolicy,
    now: u64,
    free: Option<u64>,
    candidates: Seq<RetentionCandidate>,
    left: Seq<RetentionCandidate>,
)
    requires
        distinct_paths(candidates),
        ({
            let c = considered(policy, candidates);
            candidates.to_multiset() == left.to_multiset().add(
                selection(policy, now, free, c, c.len() as int).to_multiset(),
            )
        }),
    ensures
        ({
            let c = considered(policy, candidates);
            considered(policy, left) == unselected(policy, now, free, c, c, c.len() as int)
        }),
{
    broadcast use vstd::seq_lib::group_to_multiset_ensures;

    let c = considered(policy, candidates);
    let s = by_age(candidates);
    let n = c.len() as int;
    law_by_age_orders_all(candidates);
    law_by_age_orders_all(left);
    lemma_members_of_sorted(candidates);
    assert(s.take(n) =~= s);
    lemma_selection_splits(policy, now, free, c, s, n);
    let rest = unselected(policy, now, free, c, s, n);
    let gone = selection(policy, now, free, c, n);
    assert(rest.to_multiset() =~= s.to_multiset().sub(gone.to_multiset()));
    assert(left.to_multiset() =~= candidates.to_multiset().sub(gone.to_multiset()));
    lemma_unselected_sorted(policy, now, free, c, s, n);
    assert(ages_apart(candidates)) by {
        assert forall|i: int, j: int| 0 <= i < j < candidates.len() implies (
        #[trigger] candidates[i]).captured_at_unix_ms != (
        #[trigger] candidates[j]).captured_at_unix_ms || path::path_key(candidates[i].path@)
            != path::path_key(candidates[j].path@) by {
            assert(path::path_key(candidates[i].path@) != path::path_key(candidates[j].path@));
        }
    }
    assert forall|k: int| 0 <= k < rest.len() implies candidates.contains(#[trigger] rest[k]) by {
        let at = lemma_unselected_member(policy, now, free, c, s, n, k);
        assert(candidates.contains(s[at]));
    }
    lemma_one_order(rest, by_age(left), candidates);
    lemma_unselected_shielded(policy, now, free, c, s, n);
    assert(considered(policy, left) =~= unselected(policy, now, free, c, c, n));
}

/// Shielding the newest candidate before or after the selected ones go is the
/// same, where the newest is not selected.
proof fn lemma_unselected_shielded(
    policy: RetentionPolicy,
    now: u64,
    free: Option<u64>,
    c: Seq<RetentionCandidate>,
    s: Seq<RetentionCandidate>,
    n: int,
)
    requires
        n == s.len(),
        c == (if policy.keep_latest && s.len() > 0 {
            s.update(s.len() - 1, s.last().shielded())
        } else {
            s
        }),
    ensures
        ({
            let rest = unselected(policy, now, free, c, s, n);
            unselected(policy, now, free, c, c, n) == (if policy.keep_latest && rest.len() > 0 {
                rest.update(rest.len() - 1, rest.last().shielded())
            } else {
                rest
            })
        }),
{
    if policy.keep_latest && n > 0 {
        lemma_unselected_agree(policy, now, free, c, s, n - 1);
        assert(!selected(policy, now, free, c, n - 1));
        let rest = unselected(policy, now, free, c, s, n);
        assert(unselected(policy, now, free, c, c, n) =~= rest.update(
            rest.len() - 1,
            rest.last().shielded(),
        ));
    } else {
        lemma_unselected_agree(policy, now, free, c, s, n);
    }
}

proof fn lemma_unselected_agree(
    policy: RetentionPolicy,
    now: u64,
    free: Option<u64>,
    c: Seq<RetentionCandidate>,
    s: Seq<RetentionCandidate>,
    n: int,
)
    requires
        forall|i: int| 0 <= i < n ==> #[trigger] c[i] == s[i],
    ensures
        unselected(policy, now, free, c, c, n) == unselected(policy, now, free, c, s, n),
    decreases n,
{
    if n > 0 {
        lemma_unselected_agree(policy, now, free, c, s, n - 1);
    }
}

/// A plan for candidates of which none is due selects nothing.
proof fn lemma_nothing_due(
    policy: RetentionPolicy,
    now: u64,
    free: Option<u64>,
    c: Seq<RetentionCandidate>,
    n: int,
)
    requires
        0 <= n <= c.len(),
        forall|i: int| 0 <= i < c.len() ==> !aged_out(policy, now, #[trigger] c[i]),
        known_quotas_hold(policy, managed_after(c, 0), free_after(free, 0)) || forall|i: int|
            0 <= i < c.len() ==> !(#[trigger] c[i]).reclaims(),
    ensures
        planned_before(policy, now, free, c, n) == 0,
        selection(policy, now, free, c, n) == Seq::<RetentionCandidate>::empty(),
    decreases n,
{
    if n == 0 {
        let aged = |i: int| aged_out(policy, now, c[i]);
        assert forall|i: int| 0 <= i < c.len() implies !#[trigger] aged(i) by {
            assert(!aged_out(policy, now, c[i]));
        }
        lemma_total_of_none(c, aged);
    } else {
        lemma_nothing_due(policy, now, free, c, n - 1);
        assert(!aged_out(policy, now, c[n - 1]));
    }
}

proof fn lemma_total_of_none(s: Seq<RetentionCandidate>, chosen: spec_fn(int) -> bool)
    requires
        forall|i: int| 0 <= i < s.len() ==> !#[trigger] chosen(i),
    ensures
        saturating_total_where(s, chosen) == 0,
    decreases s.len(),
{
    if s.len() > 0 {
        lemma_total_of_none(s.drop_last(), chosen);
        assert(!chosen(s.len() - 1));
    }
}

/// Planning is idempotent: once the planned deletions are done, planning again at
/// the same time selects nothing, stays blocked exactly where it was, and finds
/// the managed bytes that were projected and the same protected bytes.
pub proof fn law_planning_again_selects_nothing(
    first: RetentionPlan,
    second: RetentionPlan,
    policy: RetentionPolicy,
    now: u64,
    free: Option<u64>,
    candidates: Seq<RetentionCandidate>,
    left: Seq<RetentionCandidate>,
)
    requires
        first.is_plan_for(policy, now, free, candidates),
        distinct_paths(candidates),
        exact_total(candidates) <= u64::MAX,
        candidates.to_multiset() == left.to_multiset().add(first.deletions@.to_multiset()),
        second.is_plan_for(policy, now, first.projected_free_bytes, left),
    ensures
        second.deletions@.len() == 0,
        second.quota_blocked == first.quota_blocked,
        second.managed_bytes == first.projected_managed_bytes,
        second.protected_bytes == first.protected_bytes,
{
    let c = considered(policy, candidates);
    let n = c.len() as int;
    let d = considered(policy, left);
    let planned = planned_before(policy, now, free, c, n);
    lemma_next_considered(policy, now, free, candidates, left);
    lemma_considered_total(policy, candidates);
    lemma_planned_is_selected(policy, now, free, c, n);
    lemma_plan_splits_bytes(policy, now, free, c, n);
    assert(c.take(n) =~= c);
    let aged = |i: int| aged_out(policy, now, c[i]);
    lemma_exact_totals(c, aged);
    let kept = |i: int| !c[i].reclaims();
    lemma_exact_totals(c, kept);
    let left_kept = |i: int| !d[i].reclaims();
    lemma_exact_total_nonneg(d);
    lemma_exact_totals(d, left_kept);
    assert(saturating_total(d) == managed_after(c, planned));
    assert forall|i: int| 0 <= i < d.len() implies !aged_out(policy, now, #[trigger] d[i]) by {
        let at = lemma_unselected_member(policy, now, free, c, c, n, i);
        assert(!selected(policy, now, free, c, at));
    }
    if !known_quotas_hold(policy, managed_after(c, planned), free_after(free, planned)) {
        assert forall|i: int| 0 <= i < d.len() implies !(#[trigger] d[i]).reclaims() by {
            let at = lemma_unselected_member(policy, now, free, c, c, n, i);
            if c[at].reclaims() {
                law_plan_meets_limits_or_exhausts(policy, now, free, c, at);
            }
        }
    }
    lemma_nothing_due(policy, now, first.projected_free_bytes, d, d.len() as int);
}

proof fn lemma_considered_total(policy: RetentionPolicy, candidates: Seq<RetentionCandidate>)
    ensures
        exact_total(considered(policy, candidates)) == exact_total(candidates),
{
    law_by_age_orders_all(candidates);
    let s = by_age(candidates);
    let c = considered(policy, candidates);
    lemma_total_of_permutation(s, candidates);
    if policy.keep_latest && s.len() > 0 {
        assert(c.drop_last() =~= s.drop_last());
    }
}

proof fn lemma_total_of_permutation(a: Seq<RetentionCandidate>, b: Seq<RetentionCandidate>)
    requires
        a.to_multiset() == b.to_multiset(),
    ensures
        exact_total(a) == exact_total(b),
    decreases a.len(),
{
    broadcast use vstd::seq_lib::group_to_multiset_ensures;

    assert(a.len() == a.to_multiset().len());
    assert(b.len() == b.to_multiset().len());
    if a.len() > 0 {
        let x = a.last();
        lemma_same_members(a, b, a.len() - 1);
        let at = choose|at: int| 0 <= at < b.len() && b[at] == x;
        let rest = b.remove(at);
        assert(a =~= a.drop_last().push(x));
        assert(b =~= rest.insert(at, x));
        assert(a.drop_last().to_multiset() =~= a.to_multiset().remove(x));
        assert(rest.to_multiset() =~= b.to_multiset().remove(x));
        lemma_total_of_permutation(a.drop_last(), rest);
        lemma_total_of_insert(rest, at, x);
    }
}

proof fn lemma_total_of_insert(s: Seq<RetentionCandidate>, at: int, x: RetentionCandidate)
    requires
        0 <= at <= s.len(),
    ensures
        exact_total(s.insert(at, x)) == exact_total(s) + x.file_size_bytes,
    decreases s.len(),
{
    let longer = s.insert(at, x);
    if at == s.len() {
        assert(longer.drop_last() =~= s);
    } else {
        assert(longer.drop_last() =~= s.drop_last().insert(at, x));
        assert(longer.last() == s.last());
        lemma_total_of_insert(s.drop_last(), at, x);
    }
}

proof fn lemma_selected_is_in_selection(
    policy: RetentionPolicy,
    now: u64,
    free: Option<u64>,
    c: Seq<RetentionCandidate>,
    n: int,
    k: int,
)
    requires
        0 <= k < n,
        selected(policy, now, free, c, k),
    ensures
        selection(policy, now, free, c, n).contains(c[k]),
    decreases n,
{
    let all = selection(policy, now, free, c, n);
    let before = selection(policy, now, free, c, n - 1);
    if k == n - 1 {
        assert(all.last() == c[k]);
    } else {
        lemma_selected_is_in_selection(policy, now, free, c, n - 1, k);
        let at = choose|at: int| 0 <= at < before.len() && before[at] == c[k];
        assert(all[at] == c[k]);
    }
}

/// Whether a candidate may go: the ledger released it, and it is not the newest one
/// that the policy keeps, because a later one is there.
pub open spec fn may_go(
    policy: RetentionPolicy,
    candidates: Seq<RetentionCandidate>,
    i: int,
) -> bool {
    &&& 0 <= i < candidates.len()
    &&& candidates[i].authorization.classification is Reclaimable
    &&& !policy.keep_latest || exists|j: int|
        0 <= j < candidates.len() && (#[trigger] candidates[j]).captured_at_unix_ms
            > candidates[i].captured_at_unix_ms
}

/// A candidate that may go is considered as it is.
proof fn lemma_considered_as_is(
    policy: RetentionPolicy,
    candidates: Seq<RetentionCandidate>,
    i: int,
) -> (k: int)
    requires
        may_go(policy, candidates, i),
    ensures
        0 <= k < considered(policy, candidates).len(),
        considered(policy, candidates)[k] == candidates[i],
{
    let sorted = by_age(candidates);
    let c = considered(policy, candidates);
    law_by_age_orders_all(candidates);
    lemma_same_members(candidates, sorted, i);
    let k = choose|k: int| 0 <= k < sorted.len() && sorted[k] == candidates[i];
    if policy.keep_latest && k == sorted.len() - 1 {
        let j = choose|j: int|
            0 <= j < candidates.len() && (#[trigger] candidates[j]).captured_at_unix_ms
                > candidates[i].captured_at_unix_ms;
        lemma_same_members(candidates, sorted, j);
        let m = choose|m: int| 0 <= m < sorted.len() && sorted[m] == candidates[j];
        assert(m < k);
        assert(not_newer(sorted[m], sorted[k]));
    }
    k
}

pub proof fn lemma_expired_is_planned(
    plan: RetentionPlan,
    policy: RetentionPolicy,
    now: u64,
    free: Option<u64>,
    candidates: Seq<RetentionCandidate>,
    max_age: u64,
    i: int,
)
    requires
        plan.is_plan_for(policy, now, free, candidates),
        policy.max_age_ms == Some(max_age),
        may_go(policy, candidates, i),
        candidates[i].captured_at_unix_ms + max_age <= now,
    ensures
        plan.deletions@.contains(candidates[i]),
{
    let c = considered(policy, candidates);
    let k = lemma_considered_as_is(policy, candidates, i);
    assert(aged_out(policy, now, c[k]));
    assert(selected(policy, now, free, c, k));
    lemma_selected_is_in_selection(policy, now, free, c, c.len() as int, k);
}

/// What is too old goes, whatever the byte limits are and whatever room there is: a
/// released capture that was taken no later than the greatest age ago.
pub proof fn law_expired_captures_go(
    policy: RetentionPolicy,
    now: u64,
    free: Option<u64>,
    candidates: Vec<RetentionCandidate>,
    max_age: u64,
    i: int,
    plan: RetentionPlan,
)
    requires
        call_ensures(plan_retention, (policy, now, free, candidates), plan),
        policy.max_age_ms == Some(max_age),
        may_go(policy, candidates@, i),
        candidates@[i].captured_at_unix_ms + max_age <= now,
    ensures
        plan.deletions@.contains(candidates@[i]),
{
    lemma_expired_is_planned(plan, policy, now, free, candidates@, max_age, i);
}

/// Whether some bytes and some free space break a limit that can be measured.
pub open spec fn breaks_a_limit(policy: RetentionPolicy, managed: int, free: Option<int>) -> bool {
    ||| policy.max_managed_bytes is Some && managed > policy.max_managed_bytes->0
    ||| policy.min_free_bytes is Some && free is Some && free->0 < policy.min_free_bytes->0
}

/// What a capture is too young for the age rule.
pub open spec fn is_young(policy: RetentionPolicy, now: u64, x: RetentionCandidate) -> bool {
    &&& x.captured_at_unix_ms > 0
    &&& policy.max_age_ms is None || x.captured_at_unix_ms + policy.max_age_ms->0 > now
}

pub open spec fn free_space(free: Option<u64>) -> Option<int> {
    match free {
        Some(bytes) => Some(bytes as int),
        None => None,
    }
}

/// A capture that is not too old goes only where a byte limit is broken.
pub proof fn law_young_captures_go_only_for_room(
    policy: RetentionPolicy,
    now: u64,
    free: Option<u64>,
    candidates: Vec<RetentionCandidate>,
    x: RetentionCandidate,
    plan: RetentionPlan,
)
    requires
        call_ensures(plan_retention, (policy, now, free, candidates), plan),
        plan.deletions@.contains(x),
        is_young(policy, now, x),
        exact_total(candidates@) <= u64::MAX,
    ensures
        breaks_a_limit(policy, exact_total(candidates@), free_space(free)),
{
    let c = considered(policy, candidates@);
    let n = c.len() as int;
    let k = lemma_selection_member(policy, now, free, c, n, x);
    assert(!aged_out(policy, now, c[k]));
    let planned = planned_before(policy, now, free, c, k);
    lemma_planned_bounds(policy, now, free, c, k);
    lemma_considered_total(policy, candidates@);
    lemma_exact_totals(c, |i: int| true);
    if !breaks_a_limit(policy, exact_total(candidates@), free_space(free)) {
        assert(known_quotas_hold(policy, managed_after(c, 0), free_after(free, 0)));
        lemma_quotas_stay(policy, free, c, 0, planned);
    }
}

/// The last one that a plan selects, and what was planned before it.
proof fn lemma_last_selected(
    policy: RetentionPolicy,
    now: u64,
    free: Option<u64>,
    c: Seq<RetentionCandidate>,
    n: int,
) -> (k: int)
    requires
        0 <= n <= c.len(),
        selection(policy, now, free, c, n).len() > 0,
    ensures
        0 <= k < n,
        selected(policy, now, free, c, k),
        selection(policy, now, free, c, n).last() == c[k],
        planned_before(policy, now, free, c, n) == planned_before(policy, now, free, c, k + 1),
    decreases n,
{
    if selected(policy, now, free, c, n - 1) {
        n - 1
    } else {
        let k = lemma_last_selected(policy, now, free, c, n - 1);
        assert(planned_before(policy, now, free, c, n) == planned_before(
            policy,
            now,
            free,
            c,
            n - 1,
        ));
        k
    }
}

/// Nothing goes needlessly: were the last capture that is deleted for room kept, a
/// byte limit would still be broken.
pub proof fn law_no_capture_goes_needlessly(
    policy: RetentionPolicy,
    now: u64,
    free: Option<u64>,
    candidates: Vec<RetentionCandidate>,
    plan: RetentionPlan,
)
    requires
        call_ensures(plan_retention, (policy, now, free, candidates), plan),
        plan.deletions@.len() > 0,
        is_young(policy, now, plan.deletions@.last()),
        exact_total(candidates@) <= u64::MAX,
        free matches Some(bytes) ==> bytes + exact_total(candidates@) <= u64::MAX,
    ensures
        breaks_a_limit(
            policy,
            plan.projected_managed_bytes + plan.deletions@.last().file_size_bytes,
            match plan.projected_free_bytes {
                Some(bytes) => Some(bytes - plan.deletions@.last().file_size_bytes),
                None => None,
            },
        ),
{
    let c = considered(policy, candidates@);
    let n = c.len() as int;
    let k = lemma_last_selected(policy, now, free, c, n);
    let x = c[k];
    assert(!aged_out(policy, now, x));
    lemma_considered_total(policy, candidates@);
    lemma_exact_totals(c, |i: int| true);
    lemma_planned_is_selected(policy, now, free, c, k);
    lemma_planned_is_selected(policy, now, free, c, k + 1);
    lemma_planned_is_selected(policy, now, free, c, n);
    lemma_planned_bounds(policy, now, free, c, k);
    let before = planned_before(policy, now, free, c, k);
    let after = planned_before(policy, now, free, c, k + 1);
    assert(taken_total(policy, now, free, c, k + 1) == taken_total(policy, now, free, c, k)
        + x.file_size_bytes);
    assert(after == before + x.file_size_bytes);
    assert(!known_quotas_hold(policy, managed_after(c, before), free_after(free, before)));
}

/// A plan that leaves a measurable byte limit broken has given up all that may go.
pub proof fn law_room_is_made_while_anything_may_go(
    policy: RetentionPolicy,
    now: u64,
    free: Option<u64>,
    candidates: Vec<RetentionCandidate>,
    i: int,
    plan: RetentionPlan,
)
    requires
        call_ensures(plan_retention, (policy, now, free, candidates), plan),
        breaks_a_limit(
            policy,
            plan.projected_managed_bytes as int,
            free_space(plan.projected_free_bytes),
        ),
        may_go(policy, candidates@, i),
    ensures
        plan.deletions@.contains(candidates@[i]),
{
    let c = considered(policy, candidates@);
    let n = c.len() as int;
    let k = lemma_considered_as_is(policy, candidates@, i);
    let planned = planned_before(policy, now, free, c, n);
    assert(!known_quotas_hold(policy, managed_after(c, planned), free_after(free, planned)));
    law_plan_meets_limits_or_exhausts(policy, now, free, c, k);
    lemma_selected_is_in_selection(policy, now, free, c, n, k);
}

proof fn lemma_selection_total(
    policy: RetentionPolicy,
    now: u64,
    free: Option<u64>,
    c: Seq<RetentionCandidate>,
    n: int,
)
    requires
        0 <= n <= c.len(),
    ensures
        exact_total(selection(policy, now, free, c, n)) == exact_total_where(
            c.take(n),
            |i: int| aged_out(policy, now, c[i]),
        ) + taken_total(policy, now, free, c, n),
    decreases n,
{
    let aged = |i: int| aged_out(policy, now, c[i]);
    if n > 0 {
        lemma_selection_total(policy, now, free, c, n - 1);
        assert(c.take(n).drop_last() =~= c.take(n - 1));
        assert(c.take(n).last() == c[n - 1]);
        let before = selection(policy, now, free, c, n - 1);
        if selected(policy, now, free, c, n - 1) {
            assert(before.push(c[n - 1]).drop_last() =~= before);
        }
    }
}

/// A plan's figures are those of its captures: what is managed is all of them, what is
/// reclaimed is what is deleted, and what is projected is the difference. It is
/// blocked exactly where a limit stays broken or the free space that a limit asks for
/// was not measured.
pub proof fn law_plan_figures_are_of_its_captures(
    policy: RetentionPolicy,
    now: u64,
    free: Option<u64>,
    candidates: Vec<RetentionCandidate>,
    plan: RetentionPlan,
)
    requires
        call_ensures(plan_retention, (policy, now, free, candidates), plan),
        exact_total(candidates@) <= u64::MAX,
        free matches Some(bytes) ==> bytes + exact_total(candidates@) <= u64::MAX,
    ensures
        plan.managed_bytes == exact_total(candidates@),
        plan.planned_reclaim_bytes == exact_total(plan.deletions@),
        plan.projected_managed_bytes == plan.managed_bytes - plan.planned_reclaim_bytes,
        plan.reclaimable_bytes == plan.managed_bytes - plan.protected_bytes,
        plan.planned_reclaim_bytes <= plan.reclaimable_bytes,
        free is None <==> plan.projected_free_bytes is None,
        free matches Some(bytes) ==> plan.projected_free_bytes == Some(
            (bytes + plan.planned_reclaim_bytes) as u64,
        ),
        plan.quota_blocked <==> breaks_a_limit(
            policy,
            plan.projected_managed_bytes as int,
            free_space(plan.projected_free_bytes),
        ) || (policy.min_free_bytes is Some && free is None),
{
    let c = considered(policy, candidates@);
    let n = c.len() as int;
    let aged = |i: int| aged_out(policy, now, c[i]);
    let protected = |i: int| !c[i].reclaims();
    lemma_considered_total(policy, candidates@);
    lemma_exact_totals(c, aged);
    lemma_exact_totals(c, protected);
    lemma_planned_is_selected(policy, now, free, c, n);
    lemma_selection_total(policy, now, free, c, n);
    lemma_plan_splits_bytes(policy, now, free, c, n);
    assert(c.take(n) =~= c);
    let rest = unselected(policy, now, free, c, c, n);
    let kept = |i: int| !rest[i].reclaims();
    lemma_exact_total_nonneg(rest);
    lemma_where_bound(rest, kept);
    lemma_planned_bounds(policy, now, free, c, n);
}

proof fn lemma_where_bound(s: Seq<RetentionCandidate>, chosen: spec_fn(int) -> bool)
    ensures
        0 <= exact_total_where(s, chosen) <= exact_total(s),
    decreases s.len(),
{
    if s.len() > 0 {
        lemma_where_bound(s.drop_last(), chosen);
    }
}

proof fn lemma_selection_in_order(
    policy: RetentionPolicy,
    now: u64,
    free: Option<u64>,
    c: Seq<RetentionCandidate>,
    n: int,
)
    requires
        0 <= n <= c.len(),
        forall|i: int, j: int|
            0 <= i < j < c.len() ==> (#[trigger] c[i]).captured_at_unix_ms <= (
            #[trigger] c[j]).captured_at_unix_ms,
    ensures
        forall|i: int, j: int|
            0 <= i < j < selection(policy, now, free, c, n).len() ==> (#[trigger] selection(
                policy,
                now,
                free,
                c,
                n,
            )[i]).captured_at_unix_ms <= (#[trigger] selection(
                policy,
                now,
                free,
                c,
                n,
            )[j]).captured_at_unix_ms,
        forall|i: int|
            0 <= i < selection(policy, now, free, c, n).len() ==> exists|k: int|
                0 <= k < n && c[k] == #[trigger] selection(policy, now, free, c, n)[i],
    decreases n,
{
    if n > 0 {
        lemma_selection_in_order(policy, now, free, c, n - 1);
        let all = selection(policy, now, free, c, n);
        let before = selection(policy, now, free, c, n - 1);
        assert forall|i: int| 0 <= i < all.len() implies exists|k: int|
            0 <= k < n && c[k] == #[trigger] all[i] by {
            if i < before.len() {
                assert(all[i] == before[i]);
                let k = choose|k: int| 0 <= k < n - 1 && c[k] == before[i];
                assert(c[k] == all[i]);
            } else {
                assert(c[n - 1] == all[i]);
            }
        }
        assert forall|i: int, j: int| 0 <= i < j < all.len() implies (
        #[trigger] all[i]).captured_at_unix_ms <= (#[trigger] all[j]).captured_at_unix_ms by {
            assert(all[i] == before[i]);
            let k = choose|k: int| 0 <= k < n - 1 && c[k] == before[i];
            if j < before.len() {
                assert(all[j] == before[j]);
            } else {
                assert(all[j] == c[n - 1]);
            }
        }
    }
}

/// A plan deletes captures of its inventory that the ledger released, the oldest
/// first.
pub proof fn law_released_captures_go_oldest_first(
    policy: RetentionPolicy,
    now: u64,
    free: Option<u64>,
    candidates: Vec<RetentionCandidate>,
    i: int,
    j: int,
    plan: RetentionPlan,
)
    requires
        call_ensures(plan_retention, (policy, now, free, candidates), plan),
        0 <= i < plan.deletions@.len(),
    ensures
        plan.deletions@[i].authorization.classification is Reclaimable,
        candidates@.contains(plan.deletions@[i]),
        i < j < plan.deletions@.len() ==> plan.deletions@[i].captured_at_unix_ms
            <= plan.deletions@[j].captured_at_unix_ms,
{
    let c = considered(policy, candidates@);
    let sorted = by_age(candidates@);
    law_by_age_orders_all(candidates@);
    assert forall|a: int, b: int| 0 <= a < b < c.len() implies (
    #[trigger] c[a]).captured_at_unix_ms <= (#[trigger] c[b]).captured_at_unix_ms by {
        assert(not_newer(sorted[a], sorted[b]));
    }
    lemma_selection_in_order(policy, now, free, c, c.len() as int);
    assert(plan.deletions@.contains(plan.deletions@[i]));
    law_plan_never_deletes_protected(
        plan,
        policy,
        now,
        free,
        candidates@,
        plan.deletions@[i],
    );
}

/// With `keep_latest`, the capture that was taken after all others stays, whatever the
/// rules ask for.
pub proof fn law_latest_capture_stays(
    policy: RetentionPolicy,
    now: u64,
    free: Option<u64>,
    candidates: Vec<RetentionCandidate>,
    i: int,
    plan: RetentionPlan,
)
    requires
        call_ensures(plan_retention, (policy, now, free, candidates), plan),
        policy.keep_latest,
        0 <= i < candidates@.len(),
        forall|j: int|
            0 <= j < candidates@.len() && j != i ==> (#[trigger] candidates@[j]).captured_at_unix_ms
                < candidates@[i].captured_at_unix_ms,
    ensures
        !plan.deletions@.contains(candidates@[i]),
{
    let x = candidates@[i];
    if plan.deletions@.contains(x) {
        let c = considered(policy, candidates@);
        let sorted = by_age(candidates@);
        let n = c.len() as int;
        let k = lemma_selection_member(policy, now, free, c, n, x);
        law_by_age_orders_all(candidates@);
        assert(k < n - 1);
        assert(sorted[k] == x);
        assert(not_newer(sorted[k], sorted[n - 1]));
        lemma_same_members(sorted, candidates@, n - 1);
        let m = choose|m: int| 0 <= m < candidates@.len() && candidates@[m] == sorted[n - 1];
        assert(m == i);
        lemma_count_of_latest(candidates@, i);
        lemma_two_places(sorted, k, n - 1);
        assert(sorted.to_multiset().count(x) >= 2);
    }
}

proof fn lemma_count_of_latest(s: Seq<RetentionCandidate>, i: int)
    requires
        0 <= i < s.len(),
        forall|j: int| 0 <= j < s.len() && j != i ==> #[trigger] s[j] != s[i],
    ensures
        s.to_multiset().count(s[i]) == 1,
{
    broadcast use vstd::seq_lib::group_to_multiset_ensures;

    let rest = s.remove(i);
    assert(s =~= rest.insert(i, s[i]));
    assert(!rest.contains(s[i])) by {
        if rest.contains(s[i]) {
            let j = choose|j: int| 0 <= j < rest.len() && rest[j] == s[i];
            if j < i {
                assert(s[j] == rest[j]);
            } else {
                assert(s[j + 1] == rest[j]);
            }
        }
    }
    assert(rest.to_multiset() =~= s.to_multiset().remove(s[i]));
    assert(rest.to_multiset().count(s[i]) == 0);
    assert(s.contains(s[i]));
}

proof fn lemma_two_places(s: Seq<RetentionCandidate>, a: int, b: int)
    requires
        0 <= a < b < s.len(),
        s[a] == s[b],
    ensures
        s.to_multiset().count(s[a]) >= 2,
{
    broadcast use vstd::seq_lib::group_to_multiset_ensures;

    let rest = s.remove(b);
    assert(rest[a] == s[a]);
    assert(rest.contains(s[a]));
    assert(rest.to_multiset().count(s[a]) > 0);
    assert(rest.to_multiset() =~= s.to_multiset().remove(s[b]));
    assert(s.contains(s[a]));
    assert(s.to_multiset().count(s[a]) > 0);
}

/// Zero days switch the age rule off, and every other limit is the configured one.
pub proof fn law_policy_is_what_was_configured(
    config: &CaptureRetentionConfig,
    r: RetentionPolicy,
)
    requires
        call_ensures(RetentionPolicy::from_capture_config, (config,), r),
    ensures
        r.max_age_ms is None <==> config.retention_days == 0,
        r.max_age_ms matches Some(age) ==> age == config.retention_days * 24 * 60 * 60 * 1_000,
        r.max_managed_bytes == config.retention_max_bytes,
        r.min_free_bytes == config.retention_min_free_bytes,
        r.keep_latest == config.keep_latest,
{
}

/// Retention runs where any limit is set, asks for the free space where a limit
/// depends on it, and can block where a limit is on bytes.
pub proof fn law_limits_switch_retention_on(
    policy: RetentionPolicy,
    enabled: bool,
    measured: bool,
    limited: bool,
)
    requires
        call_ensures(RetentionPolicy::is_enabled, (policy,), enabled),
        call_ensures(RetentionPolicy::needs_free_space, (policy,), measured),
        call_ensures(RetentionPolicy::has_byte_quota, (policy,), limited),
    ensures
        enabled <==> policy.max_age_ms is Some || policy.max_managed_bytes is Some
            || policy.min_free_bytes is Some,
        measured <==> policy.min_free_bytes is Some,
        limited <==> policy.max_managed_bytes is Some || policy.min_free_bytes is Some,
{
}

/// Limits hold where the managed bytes are few enough and enough space is known to be
/// free.
pub proof fn law_limits_hold_where_room_is_known(
    policy: RetentionPolicy,
    managed: u64,
    free: Option<u64>,
    r: bool,
)
    requires
        call_ensures(quotas_satisfied, (policy, managed, free), r),
    ensures
        r <==> !breaks_a_limit(policy, managed as int, free_space(free)) && (
        policy.min_free_bytes is Some ==> free is Some),
{
}

/// What is protected is not reclaimable, and what is released is, with what it is
/// expected to be.
pub proof fn law_authorization_says_what_it_allows(
    size: Option<u64>,
    sha256: Option<[u8; 32]>,
    kept: RetentionAuthorization,
    released: RetentionAuthorization,
)
    requires
        call_ensures(RetentionAuthorization::protected, (), kept),
        call_ensures(RetentionAuthorization::reclaimable, (size, sha256), released),
    ensures
        kept.classification is Protected,
        released.classification is Reclaimable,
        released.expected_file_size_bytes == size,
        released.expected_sha256 == sha256,
{
}

proof fn lemma_selection_in_full_order(
    policy: RetentionPolicy,
    now: u64,
    free: Option<u64>,
    c: Seq<RetentionCandidate>,
    n: int,
    i: int,
    j: int,
)
    requires
        0 <= n <= c.len(),
        forall|a: int, b: int|
            0 <= a < b < c.len() ==> not_newer(#[trigger] c[a], #[trigger] c[b]),
        0 <= i < j < selection(policy, now, free, c, n).len(),
    ensures
        not_newer(
            selection(policy, now, free, c, n)[i],
            selection(policy, now, free, c, n)[j],
        ),
    decreases n,
{
    let all = selection(policy, now, free, c, n);
    let before = selection(policy, now, free, c, n - 1);
    if j < before.len() {
        lemma_selection_in_full_order(policy, now, free, c, n - 1, i, j);
        assert(all[i] == before[i] && all[j] == before[j]);
    } else {
        assert(all[i] == before[i]);
        assert(all[j] == c[n - 1]);
        assert(before.contains(before[i]));
        let k = lemma_selection_member(policy, now, free, c, n - 1, before[i]);
        assert(not_newer(c[k], c[n - 1]));
    }
}

/// Of captures of the same moment, those with the lesser path go first.
pub proof fn law_captures_of_a_moment_go_by_path(
    policy: RetentionPolicy,
    now: u64,
    free: Option<u64>,
    candidates: Vec<RetentionCandidate>,
    i: int,
    j: int,
    plan: RetentionPlan,
)
    requires
        call_ensures(plan_retention, (policy, now, free, candidates), plan),
        0 <= i < j < plan.deletions@.len(),
        plan.deletions@[i].captured_at_unix_ms == plan.deletions@[j].captured_at_unix_ms,
    ensures
        order::path_le(plan.deletions@[i].path@, plan.deletions@[j].path@),
{
    let sorted = by_age(candidates@);
    let c = considered(policy, candidates@);
    law_by_age_orders_all(candidates@);
    assert forall|a: int, b: int| 0 <= a < b < c.len() implies not_newer(
        #[trigger] c[a],
        #[trigger] c[b],
    ) by {
        assert(not_newer(sorted[a], sorted[b]));
    }
    lemma_selection_in_full_order(policy, now, free, c, c.len() as int, i, j);
}

/// A candidate is reclaimable exactly where its authorization releases it, and protecting
/// it leaves it as it was but for that.
pub proof fn law_protected_candidate_is_not_reclaimable(
    authorization: RetentionAuthorization,
    candidate: &RetentionCandidate,
    r: bool,
    s: bool,
)
    requires
        call_ensures(RetentionAuthorization::is_reclaimable, (authorization,), r),
        call_ensures(RetentionCandidate::is_reclaimable, (candidate,), s),
    ensures
        r <==> authorization.classification is Reclaimable,
        s <==> candidate.authorization.classification is Reclaimable,
        forall|c: &mut RetentionCandidate| #[trigger]
            call_ensures(RetentionCandidate::protect, (c,), ()) ==> {
                &&& final(c).authorization.classification is Protected
                &&& final(c).authorization.expected_file_size_bytes is None
                &&& final(c).authorization.expected_sha256 is None
                &&& final(c).path == c.path
                &&& final(c).file_size_bytes == c.file_size_bytes
                &&& final(c).captured_at_unix_ms == c.captured_at_unix_ms
            },
{
}

} // verus!
