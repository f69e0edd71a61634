use vstd::prelude::*;

use crate::lwwmap::lww_merge;
use crate::lwwmap::lww_removed;
use crate::store::MapModel;

verus! {

/// Merging a map with an identical one changes nothing: the
/// last-writer-wins merge is idempotent.
pub proof fn lemma_merge_idempotent(m: MapModel)
    ensures
        lww_merge(m, m) == m,
{
    assert(lww_merge(m, m) =~= m);
}

/// Merging a map whose keys are all new is a plain union: every remote
/// element is adopted verbatim and every local element is kept.
pub proof fn lemma_merge_disjoint_union(a: MapModel, b: MapModel)
    requires
        a.dom().disjoint(b.dom()),
    ensures
        lww_merge(a, b).dom() == a.dom() + b.dom(),
        forall|k: Seq<char>| #[trigger] b.contains_key(k) ==> lww_merge(a, b)[k] == b[k],
        forall|k: Seq<char>| #[trigger] a.contains_key(k) ==> lww_merge(a, b)[k] == a[k],
{
    assert(lww_merge(a, b).dom() =~= a.dom() + b.dom());
    assert forall|k: Seq<char>| #[trigger] b.contains_key(k) implies lww_merge(a, b)[k]
        == b[k] by {
        assert(!(a.dom().contains(k) && b.dom().contains(k)));
    }
    assert forall|k: Seq<char>| #[trigger] a.contains_key(k) implies lww_merge(a, b)[k]
        == a[k] by {
        assert(!(a.dom().contains(k) && b.dom().contains(k)));
    }
}

/// After a mutual exchange the replicas agree. Merging `b` with the
/// already-merged side changes nothing more, provided no key carries the
/// same timestamp on both sides with different elements; and wherever the
/// timestamps differ, the element with the strictly greater one is the one
/// that survives.
pub proof fn lemma_mutual_merge_converges(a: MapModel, b: MapModel)
    requires
        forall|k: Seq<char>| a.contains_key(k) && #[trigger] b.contains_key(k) && a[k].1
            == b[k].1 ==> a[k] == b[k],
    ensures
        lww_merge(b, lww_merge(a, b)) == lww_merge(a, b),
        forall|k: Seq<char>| a.contains_key(k) && #[trigger] b.contains_key(k) && a[k].1 < b[k].1
            ==> lww_merge(a, b)[k] == b[k],
        forall|k: Seq<char>| a.contains_key(k) && #[trigger] b.contains_key(k) && b[k].1 < a[k].1
            ==> lww_merge(a, b)[k] == a[k],
{
    assert(lww_merge(b, lww_merge(a, b)) =~= lww_merge(a, b));
}

/// Writing a key twice leaves the second write: the element read back
/// holds the second value under the second, strictly later, timestamp.
pub proof fn lemma_insert_overwrite(
    m: MapModel,
    k: Seq<char>,
    v1: Seq<char>,
    t1: i64,
    v2: Seq<char>,
    t2: i64,
)
    requires
        t1 < t2,
    ensures
        m.insert(k, (v1, t1)).insert(k, (v2, t2))[k] == (v2, t2),
        m.insert(k, (v1, t1)).insert(k, (v2, t2))[k].1 > t1,
{
}

/// A removal keeps the value and advances the timestamp, and it shields
/// the key: a remote element written at or before the removal's timestamp
/// cannot displace the removed record in a merge.
pub proof fn lemma_remove_preserves_value(m: MapModel, b: MapModel, k: Seq<char>, ts: i64)
    requires
        m.contains_key(k),
        m[k].1 < ts,
        b.contains_key(k) ==> b[k].1 <= ts,
    ensures
        lww_removed(m, k, ts)[k].0 == m[k].0,
        lww_removed(m, k, ts)[k].1 == ts,
        lww_removed(m, k, ts)[k].1 > m[k].1,
        lww_merge(lww_removed(m, k, ts), b)[k] == lww_removed(m, k, ts)[k],
{
}

} // verus!
