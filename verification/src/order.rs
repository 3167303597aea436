//! Lexicographic order of codes, and of paths by their components.

use vstd::prelude::*;

use crate::path;

verus! {

/// Whether `a` comes before `b` in a dictionary of codes, or equals it.
pub open spec fn codes_le(a: Seq<u16>, b: Seq<u16>) -> bool
    decreases a.len(),
{
    if a.len() == 0 {
        true
    } else if b.len() == 0 {
        false
    } else if a[0] != b[0] {
        a[0] < b[0]
    } else {
        codes_le(a.skip(1), b.skip(1))
    }
}

pub proof fn lemma_codes_le_total(a: Seq<u16>, b: Seq<u16>)
    ensures
        codes_le(a, b) || codes_le(b, a),
    decreases a.len(),
{
    if a.len() > 0 && b.len() > 0 && a[0] == b[0] {
        lemma_codes_le_total(a.skip(1), b.skip(1));
    }
}

pub proof fn lemma_codes_le_transitive(a: Seq<u16>, b: Seq<u16>, c: Seq<u16>)
    requires
        codes_le(a, b),
        codes_le(b, c),
    ensures
        codes_le(a, c),
    decreases a.len(),
{
    if a.len() > 0 && b.len() > 0 && c.len() > 0 && a[0] == b[0] && b[0] == c[0] {
        lemma_codes_le_transitive(a.skip(1), b.skip(1), c.skip(1));
    }
}

pub proof fn lemma_codes_le_antisymmetric(a: Seq<u16>, b: Seq<u16>)
    requires
        codes_le(a, b),
        codes_le(b, a),
    ensures
        a == b,
    decreases a.len(),
{
    if a.len() > 0 && b.len() > 0 && a[0] == b[0] {
        lemma_codes_le_antisymmetric(a.skip(1), b.skip(1));
        assert(a =~= seq![a[0]] + a.skip(1));
        assert(b =~= seq![b[0]] + b.skip(1));
    } else {
        assert(a =~= b);
    }
}

/// Compare two codes.
pub fn check_codes_le(a: &[u16], b: &[u16]) -> (r: bool)
    ensures
        r == codes_le(a@, b@),
{
    let mut i: usize = 0;
    proof {
        assert(a@.skip(0) =~= a@);
        assert(b@.skip(0) =~= b@);
    }
    while i < a.len() && i < b.len()
        invariant
            i <= a.len(),
            i <= b.len(),
            codes_le(a@, b@) == codes_le(a@.skip(i as int), b@.skip(i as int)),
        decreases a.len() - i,
    {
        if a[i] != b[i] {
            return a[i] < b[i];
        }
        proof {
            assert(a@.skip(i as int).skip(1) =~= a@.skip(i + 1));
            assert(b@.skip(i as int).skip(1) =~= b@.skip(i + 1));
        }
        i = i + 1;
    }
    i >= a.len()
}

/// Whether a path comes before another, component by component, or equals it.
pub open spec fn path_le(a: Seq<char>, b: Seq<char>) -> bool {
    codes_le(path::path_key(a), path::path_key(b))
}

/// Compare two paths by their components.
pub fn check_path_le(a: &str, b: &str) -> (r: bool)
    ensures
        r == path_le(a@, b@),
{
    let a_key = path::key_of(a);
    let b_key = path::key_of(b);
    check_codes_le(a_key.as_slice(), b_key.as_slice())
}

/// A path placed behind every path that is not greater.
pub open spec fn path_placed(sorted: Seq<String>, x: String) -> Seq<String>
    decreases sorted.len(),
{
    if sorted.len() == 0 {
        seq![x]
    } else if path_le(sorted.last()@, x@) {
        sorted.push(x)
    } else {
        path_placed(sorted.drop_last(), x).push(sorted.last())
    }
}

/// Paths in ascending order.
pub open spec fn ascending(s: Seq<String>) -> Seq<String>
    decreases s.len(),
{
    if s.len() == 0 {
        s
    } else {
        path_placed(ascending(s.drop_last()), s.last())
    }
}

/// Sorting paths neither loses nor adds one.
pub proof fn law_ascending_keeps_all(s: Seq<String>)
    ensures
        ascending(s).to_multiset() == s.to_multiset(),
        ascending(s).len() == s.len(),
    decreases s.len(),
{
    broadcast use vstd::seq_lib::group_to_multiset_ensures;

    if s.len() > 0 {
        law_ascending_keeps_all(s.drop_last());
        lemma_path_placed(ascending(s.drop_last()), s.last());
        assert(s =~= s.drop_last().push(s.last()));
    }
}

proof fn lemma_path_placed(sorted: Seq<String>, x: String)
    ensures
        path_placed(sorted, x).to_multiset() == sorted.to_multiset().insert(x),
        path_placed(sorted, x).len() == sorted.len() + 1,
    decreases sorted.len(),
{
    broadcast use vstd::seq_lib::group_to_multiset_ensures;

    if sorted.len() == 0 {
        assert(path_placed(sorted, x) =~= sorted.push(x));
    } else if !path_le(sorted.last()@, x@) {
        lemma_path_placed(sorted.drop_last(), x);
        assert(sorted =~= sorted.drop_last().push(sorted.last()));
        assert(path_placed(sorted, x).to_multiset() =~= sorted.to_multiset().insert(x));
    }
}

fn place_path(sorted: &mut Vec<String>, x: String)
    ensures
        final(sorted)@ == path_placed(old(sorted)@, x),
{
    let mut at: usize = sorted.len();
    proof {
        assert(sorted@.take(at as int) =~= sorted@);
        assert(path_placed(sorted@, x) =~= path_placed(sorted@.take(at as int), x) + sorted@.skip(
            at as int,
        ));
    }
    while at > 0 && !check_path_le(sorted[at - 1].as_str(), x.as_str())
        invariant
            at <= sorted.len(),
            sorted@ == old(sorted)@,
            path_placed(sorted@, x) == path_placed(sorted@.take(at as int), x) + sorted@.skip(
                at as int,
            ),
        decreases at,
    {
        proof {
            let head = sorted@.take(at as int);
            assert(head.last() == sorted@[at - 1]);
            assert(head.drop_last() =~= sorted@.take(at - 1));
            assert(path_placed(head.drop_last(), x).push(head.last()) + sorted@.skip(at as int)
                =~= path_placed(sorted@.take(at - 1), x) + sorted@.skip(at - 1));
        }
        at = at - 1;
    }
    proof {
        let head = sorted@.take(at as int);
        if at > 0 {
            assert(head.last() == sorted@[at - 1]);
        }
        assert(path_placed(head, x) =~= head.push(x));
        assert(head.push(x) + sorted@.skip(at as int) =~= sorted@.insert(at as int, x));
    }
    sorted.insert(at, x);
}

/// Sort paths.
pub fn sort_paths(paths: Vec<String>) -> (r: Vec<String>)
    ensures
        r@ == ascending(paths@),
{
    let mut sorted: Vec<String> = Vec::new();
    let ghost all = paths@;
    for next in it: paths
        invariant
            it.seq() == all,
            sorted@ == ascending(all.take(it.index() as int)),
    {
        proof {
            assert(all.take(it.index() + 1).drop_last() =~= all.take(it.index() as int));
        }
        place_path(&mut sorted, next);
    }
    assert(all.take(all.len() as int) =~= all);
    sorted
}

/// Codes are in order where the first place at which they differ has the smaller one
/// first, or where one only goes on behind the other.
pub proof fn law_first_difference_decides(a: &[u16], b: &[u16], r: bool, k: int)
    requires
        call_ensures(check_codes_le, (a, b), r),
        0 <= k <= a@.len(),
        k <= b@.len(),
        a@.take(k) == b@.take(k),
    ensures
        k == a@.len() ==> r,
        k == b@.len() && k < a@.len() ==> !r,
        k < a@.len() && k < b@.len() && a@[k] < b@[k] ==> r,
        k < a@.len() && k < b@.len() && a@[k] > b@[k] ==> !r,
{
    lemma_common_codes(a@, b@, k);
}

proof fn lemma_common_codes(a: Seq<u16>, b: Seq<u16>, k: int)
    requires
        0 <= k <= a.len(),
        k <= b.len(),
        a.take(k) == b.take(k),
    ensures
        codes_le(a, b) == codes_le(a.skip(k), b.skip(k)),
    decreases k,
{
    if k > 0 {
        assert(a[0] == a.take(k)[0]);
        assert(b[0] == b.take(k)[0]);
        assert(a.skip(1).take(k - 1) =~= a.take(k).skip(1));
        assert(b.skip(1).take(k - 1) =~= b.take(k).skip(1));
        lemma_common_codes(a.skip(1), b.skip(1), k - 1);
        assert(a.skip(1).skip(k - 1) =~= a.skip(k));
        assert(b.skip(1).skip(k - 1) =~= b.skip(k));
    } else {
        assert(a.skip(0) =~= a);
        assert(b.skip(0) =~= b);
    }
}

/// Whether each path comes before every later one, or equals it.
pub open spec fn is_ascending(s: Seq<String>) -> bool {
    forall|i: int, j: int|
        0 <= i < j < s.len() ==> path_le((#[trigger] s[i])@, (#[trigger] s[j])@)
}

proof fn lemma_placed_ascending(sorted: Seq<String>, x: String)
    requires
        is_ascending(sorted),
    ensures
        is_ascending(path_placed(sorted, x)),
        forall|i: int|
            0 <= i < path_placed(sorted, x).len() ==> sorted.contains(
                #[trigger] path_placed(sorted, x)[i],
            ) || path_placed(sorted, x)[i] == x,
    decreases sorted.len(),
{
    let placed = path_placed(sorted, x);
    if sorted.len() > 0 {
        let last = sorted.last();
        if path_le(last@, x@) {
            assert forall|i: int, j: int| 0 <= i < j < placed.len() implies path_le(
                (#[trigger] placed[i])@,
                (#[trigger] placed[j])@,
            ) by {
                if j == sorted.len() && i < sorted.len() - 1 {
                    assert(path_le(sorted[i]@, sorted[sorted.len() - 1]@));
                    lemma_codes_le_transitive(
                        path::path_key(sorted[i]@),
                        path::path_key(last@),
                        path::path_key(x@),
                    );
                }
            }
            assert forall|i: int| 0 <= i < placed.len() implies sorted.contains(
                #[trigger] placed[i],
            ) || placed[i] == x by {
                if i < sorted.len() {
                    assert(sorted[i] == placed[i]);
                }
            }
        } else {
            let rest = sorted.drop_last();
            assert forall|i: int, j: int| 0 <= i < j < rest.len() implies path_le(
                (#[trigger] rest[i])@,
                (#[trigger] rest[j])@,
            ) by {
                assert(path_le(sorted[i]@, sorted[j]@));
            }
            lemma_placed_ascending(rest, x);
            let before = path_placed(rest, x);
            lemma_codes_le_total(path::path_key(last@), path::path_key(x@));
            assert forall|i: int| 0 <= i < before.len() implies path_le(
                (#[trigger] before[i])@,
                last@,
            ) by {
                if before[i] != x {
                    let at = choose|at: int| 0 <= at < rest.len() && rest[at] == before[i];
                    assert(path_le(sorted[at]@, sorted[sorted.len() - 1]@));
                }
            }
            assert forall|i: int, j: int| 0 <= i < j < placed.len() implies path_le(
                (#[trigger] placed[i])@,
                (#[trigger] placed[j])@,
            ) by {
                if j == placed.len() - 1 {
                    assert(placed[i] == before[i]);
                } else {
                    assert(placed[i] == before[i] && placed[j] == before[j]);
                }
            }
            assert forall|i: int| 0 <= i < placed.len() implies sorted.contains(
                #[trigger] placed[i],
            ) || placed[i] == x by {
                if i < before.len() {
                    assert(placed[i] == before[i]);
                    if before[i] != x {
                        let at = choose|at: int| 0 <= at < rest.len() && rest[at] == before[i];
                        assert(sorted[at] == placed[i]);
                    }
                } else {
                    assert(sorted[sorted.len() - 1] == placed[i]);
                }
            }
        }
    }
}

pub proof fn lemma_ascending(s: Seq<String>)
    ensures
        is_ascending(ascending(s)),
    decreases s.len(),
{
    if s.len() > 0 {
        lemma_ascending(s.drop_last());
        lemma_placed_ascending(ascending(s.drop_last()), s.last());
    }
}

/// Sorted paths are the same paths, each before those that are greater.
pub proof fn law_sorted_paths_ascend(paths: Vec<String>, r: Vec<String>, i: int, j: int)
    requires
        call_ensures(sort_paths, (paths,), r),
    ensures
        r@.to_multiset() == paths@.to_multiset(),
        0 <= i < j < r@.len() ==> path_le(r@[i]@, r@[j]@),
{
    law_ascending_keeps_all(paths@);
    lemma_ascending(paths@);
}

} // verus!
