//! What holds of the engine across calls and of every input.

use vstd::prelude::*;
use crate::clock::rfc3339_millis;
use crate::engine::{
    EngineModel, receive, receive_all, entry_for, upsert, evict, fresh, other_origin, path_conflict,
    batches_conflict, ops_conflict, expired, temporal_conflict,
};
use crate::model::BatchModel;

verus! {

/// However many batches of the engine's own origin arrive, none is
/// forwarded and the engine's state does not change.
pub proof fn lemma_own_batches_never_forwarded(e: EngineModel, bs: Seq<BatchModel>)
    requires
        forall|i: int| 0 <= i < bs.len() ==> #[trigger] bs[i].source_id == e.local_id,
    ensures
        receive_all(e, bs) == (e, Seq::<BatchModel>::empty()),
    decreases bs.len(),
{
    if bs.len() > 0 {
        assert(bs[0].source_id == e.local_id);
        lemma_own_batches_never_forwarded(e, bs.drop_first());
    }
}

/// A batch that shares a path with a pending batch of another origin, where
/// one of the two operations on it sets or removes the node, is in path
/// conflict.
pub proof fn lemma_set_or_remove_conflicts(a: BatchModel, b: BatchModel, i: int, j: int)
    requires
        a.source_id != b.source_id,
        0 <= i < b.operations.len(),
        0 <= j < a.operations.len(),
        b.operations[i].path() is Some,
        b.operations[i].path() == a.operations[j].path(),
        b.operations[i] is SetNode || b.operations[i] is Remove || a.operations[j] is SetNode
            || a.operations[j] is Remove,
    ensures
        path_conflict(seq![a], b),
{
    assert(ops_conflict(b.operations[i], a.operations[j]));
    assert(batches_conflict(b.operations, seq![a][0].operations));
}

/// Two insertions at the same path, from two origins, are not in conflict.
pub proof fn lemma_inserts_do_not_conflict(a: BatchModel, b: BatchModel)
    requires
        a.source_id != b.source_id,
        a.operations.len() == 1,
        b.operations.len() == 1,
        a.operations[0] is Insert,
        b.operations[0] is Insert,
        a.operations[0].path() == b.operations[0].path(),
    ensures
        !path_conflict(seq![a], b),
{
    assert(!ops_conflict(b.operations[0], a.operations[0]));
}

/// A batch stored and then swept once it has outlived the sweep's maximum
/// age (`now` and the stamp in milliseconds, `max_age` in seconds) is gone
/// from the store.
pub proof fn lemma_evicted_after_max_age(
    s: Seq<BatchModel>,
    b: BatchModel,
    t: i64,
    now: int,
    max_age: int,
)
    requires
        rfc3339_millis(b.timestamp) == Some(t),
        now - t > max_age * 1000,
    ensures
        entry_for(evict(upsert(s, b), now, max_age), b.source_id) is None,
{
    let u = upsert(s, b);
    let r = evict(u, now, max_age);
    let f = s.filter(other_origin(b.source_id));
    assert forall|k: int| 0 <= k < r.len() implies #[trigger] r[k].source_id != b.source_id by {
        u.lemma_filter_pred(fresh(now, max_age), k);
        assert(r.contains(r[k]));
        u.lemma_filter_contains_rev(fresh(now, max_age), r[k]);
        let m = choose|m: int| 0 <= m < u.len() && u[m] == r[k];
        if m < f.len() {
            s.lemma_filter_pred(other_origin(b.source_id), m);
        } else {
            assert(u[m] == b);
            assert(expired(b.timestamp, now, max_age));
        }
    }
}

/// A stale batch from an origin that has no pending batch is forwarded: there
/// is nothing of that origin to compare it with.
pub proof fn lemma_stale_batch_of_new_origin_forwarded(e: EngineModel, b: BatchModel)
    requires
        b.source_id != e.local_id,
        entry_for(e.pending, b.source_id) is None,
    ensures
        receive(e, b).1 == Some(b),
{
}

/// A foreign batch is dropped only when it is stale and its origin has a
/// pending batch.
pub proof fn lemma_dropped_only_against_own_origin(e: EngineModel, b: BatchModel)
    requires
        b.source_id != e.local_id,
        receive(e, b).1 is None,
    ensures
        temporal_conflict(e, b),
        entry_for(e.pending, b.source_id) is Some,
{
}

} // verus!
