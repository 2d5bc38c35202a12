//! The replication engine: the loop guard, conflict detection and
//! resolution, and the store of pending batches with its sweep.

use vstd::prelude::*;
use vstd::utf8::encode_utf8;
use crate::clock::{rfc3339_millis, parse_instant_millis};
use crate::codec::{CodecError, batch_of, batch_json, decode_batch, encode_batch};
use crate::json::Json;
use crate::model::{DDSBoardChangeData, BatchModel, Operation, OperationModel, operations_view, clone_operations};

verus! {

/// Byte-wise order of two byte strings: `a` comes strictly before `b`.
pub open spec fn bytes_lt(a: Seq<u8>, b: Seq<u8>) -> bool
    decreases a.len(),
{
    if a.len() == 0 {
        b.len() > 0
    } else if b.len() == 0 {
        false
    } else if a[0] != b[0] {
        a[0] < b[0]
    } else {
        bytes_lt(a.drop_first(), b.drop_first())
    }
}

/// The order of texts: that of their UTF-8 bytes.
pub open spec fn text_lt(a: Seq<char>, b: Seq<char>) -> bool {
    bytes_lt(encode_utf8(a), encode_utf8(b))
}

pub open spec fn text_le(a: Seq<char>, b: Seq<char>) -> bool {
    a == b || text_lt(a, b)
}

/// Whether `a` comes strictly before `b` in the order of texts.
pub fn text_less(a: &String, b: &String) -> (r: bool)
    ensures
        r == text_lt(a@, b@),
{
    let x = a.as_str().as_bytes();
    let y = b.as_str().as_bytes();
    let ghost xs = x@;
    let ghost ys = y@;
    proof {
        assert(xs.subrange(0, xs.len() as int) =~= xs);
        assert(ys.subrange(0, ys.len() as int) =~= ys);
    }
    let mut i: usize = 0;
    while i < x.len() && i < y.len()
        invariant
            i <= xs.len(),
            i <= ys.len(),
            xs == x@,
            ys == y@,
            xs == encode_utf8(a@),
            ys == encode_utf8(b@),
            bytes_lt(xs, ys) == bytes_lt(
                xs.subrange(i as int, xs.len() as int),
                ys.subrange(i as int, ys.len() as int),
            ),
        decreases xs.len() - i,
    {
        let ghost xr = xs.subrange(i as int, xs.len() as int);
        let ghost yr = ys.subrange(i as int, ys.len() as int);
        assert(xr[0] == xs[i as int]);
        assert(yr[0] == ys[i as int]);
        if x[i] != y[i] {
            return x[i] < y[i];
        }
        assert(xr.drop_first() =~= xs.subrange(i + 1, xs.len() as int));
        assert(yr.drop_first() =~= ys.subrange(i + 1, ys.len() as int));
        i = i + 1;
    }
    i < y.len()
}

/// At most one pending batch per origin.
pub open spec fn distinct_origins(s: Seq<BatchModel>) -> bool {
    forall|i: int, j: int|
        0 <= i < s.len() && 0 <= j < s.len() && i != j ==> s[i].source_id != s[j].source_id
}

/// The pending batch of origin `sid`, if there is one.
pub open spec fn entry_for(s: Seq<BatchModel>, sid: Seq<char>) -> Option<BatchModel> {
    if exists|i: int| 0 <= i < s.len() && s[i].source_id == sid {
        Some(s[choose|i: int| 0 <= i < s.len() && s[i].source_id == sid])
    } else {
        None
    }
}

/// Holds of a pending batch of another origin than `sid`.
pub open spec fn other_origin(sid: Seq<char>) -> spec_fn(BatchModel) -> bool {
    |x: BatchModel| x.source_id != sid
}

/// The store after `b` replaced any entry of its origin.
pub open spec fn upsert(s: Seq<BatchModel>, b: BatchModel) -> Seq<BatchModel> {
    s.filter(other_origin(b.source_id)).push(b)
}

/// Replacing conflicting entries keeps origins distinct.
pub proof fn lemma_replace_distinct(s: Seq<BatchModel>, b: BatchModel)
    requires
        distinct_origins(s),
    ensures
        distinct_origins(replace_conflicting(s, b)),
{
    let p = survives(b);
    lemma_filter_distinct(s, p);
    let t = s.filter(p);
    assert forall|i: int| 0 <= i < t.len() implies t[i].source_id != b.source_id by {
        s.lemma_filter_pred(p, i);
    }
}

/// Evicting keeps origins distinct.
pub proof fn lemma_evict_distinct(s: Seq<BatchModel>, now: int, max_age: int)
    requires
        distinct_origins(s),
    ensures
        distinct_origins(evict(s, now, max_age)),
{
    lemma_filter_distinct(s, fresh(now, max_age));
}

/// Two operations conflict when they address the same path and are not
/// both insertions.
pub open spec fn ops_conflict(a: OperationModel, b: OperationModel) -> bool {
    match (a.path(), b.path()) {
        (Some(p), Some(q)) => p == q && !(a is Insert && b is Insert),
        _ => false,
    }
}

/// Some operation of `incoming` conflicts with some operation of `pending`.
pub open spec fn batches_conflict(incoming: Seq<OperationModel>, pending: Seq<OperationModel>) -> bool {
    exists|i: int, j: int|
        0 <= i < incoming.len() && 0 <= j < pending.len() && ops_conflict(
            #[trigger] incoming[i],
            #[trigger] pending[j],
        )
}

/// The path conflict: `b` conflicts with some pending batch.
pub open spec fn path_conflict(s: Seq<BatchModel>, b: BatchModel) -> bool {
    exists|k: int| 0 <= k < s.len() && batches_conflict(b.operations, #[trigger] s[k].operations)
}

/// Holds of a pending batch that survives the arrival of `b` on a path
/// conflict: one of another origin that does not conflict with it.
pub open spec fn survives(b: BatchModel) -> spec_fn(BatchModel) -> bool {
    |x: BatchModel| x.source_id != b.source_id && !batches_conflict(b.operations, x.operations)
}

/// The store after `b` took the place of the entries it conflicts with.
pub open spec fn replace_conflicting(s: Seq<BatchModel>, b: BatchModel) -> Seq<BatchModel> {
    s.filter(survives(b)).push(b)
}

/// Filtering keeps origins distinct.
pub proof fn lemma_filter_distinct(s: Seq<BatchModel>, p: spec_fn(BatchModel) -> bool)
    requires
        distinct_origins(s),
    ensures
        distinct_origins(s.filter(p)),
        forall|i: int| 0 <= i < s.filter(p).len() ==> s.contains(#[trigger] s.filter(p)[i]),
    decreases s.len(),
{
    reveal(Seq::filter);
    if s.len() > 0 {
        let d = s.drop_last();
        assert(distinct_origins(d));
        lemma_filter_distinct(d, p);
        let t = d.filter(p);
        assert forall|i: int| 0 <= i < t.len() implies s.contains(#[trigger] t[i]) by {
            assert(d.contains(t[i]));
            let k = choose|k: int| 0 <= k < d.len() && d[k] == t[i];
            assert(s[k] == t[i]);
        }
        if p(s.last()) {
            assert(s.filter(p) == t.push(s.last()));
            assert forall|i: int| 0 <= i < t.len() implies t[i].source_id != s.last().source_id by {
                assert(d.contains(t[i]));
                let k = choose|k: int| 0 <= k < d.len() && d[k] == t[i];
                assert(s[k] == t[i]);
            }
            assert forall|i: int| 0 <= i < s.filter(p).len() implies s.contains(#[trigger] s.filter(p)[i]) by {
                if i < t.len() {
                    assert(s.filter(p)[i] == t[i]);
                } else {
                    assert(s[s.len() - 1] == s.filter(p)[i]);
                }
            }
        } else {
            assert(s.filter(p) == t);
        }
    }
}

/// An entry of the store, by its position.
pub proof fn lemma_entry_for(s: Seq<BatchModel>, i: int)
    requires
        distinct_origins(s),
        0 <= i < s.len(),
    ensures
        entry_for(s, s[i].source_id) == Some(s[i]),
{
    let sid = s[i].source_id;
    assert(exists|k: int| 0 <= k < s.len() && s[k].source_id == sid);
    let k = choose|k: int| 0 <= k < s.len() && s[k].source_id == sid;
    assert(k == i);
}

/// An upsert keeps origins distinct.
pub proof fn lemma_upsert_distinct(s: Seq<BatchModel>, b: BatchModel)
    requires
        distinct_origins(s),
    ensures
        distinct_origins(upsert(s, b)),
        entry_for(upsert(s, b), b.source_id) == Some(b),
{
    let p = |x: BatchModel| x.source_id != b.source_id;
    lemma_filter_distinct(s, p);
    let t = s.filter(p);
    let u = upsert(s, b);
    assert forall|i: int| 0 <= i < t.len() implies t[i].source_id != b.source_id by {
        s.lemma_filter_pred(p, i);
    }
    assert(distinct_origins(u));
    lemma_entry_for(u, u.len() - 1);
}

/// The path that an operation addresses.
fn path_of(op: &Operation) -> (r: Option<&Vec<u64>>)
    ensures
        match r {
            Some(p) => op@.path() == Some(p@),
            None => op@.path() is None,
        },
{
    match op {
        Operation::Insert(o) => Some(&o.path),
        Operation::Remove(o) => Some(&o.path),
        Operation::SetNode(o) => Some(&o.path),
        Operation::Generic(_) => None,
    }
}

/// Whether two paths are equal.
pub fn same_path(a: &Vec<u64>, b: &Vec<u64>) -> (r: bool)
    ensures
        r == (a@ == b@),
{
    if a.len() != b.len() {
        return false;
    }
    let mut i: usize = 0;
    while i < a.len()
        invariant
            i <= a.len(),
            a.len() == b.len(),
            forall|k: int| 0 <= k < i ==> a@[k] == b@[k],
        decreases a.len() - i,
    {
        if a[i] != b[i] {
            return false;
        }
        i = i + 1;
    }
    assert(a@ =~= b@);
    true
}

/// Whether some operation of `incoming` conflicts with some of `pending`.
fn operation_lists_conflict(incoming: &Vec<Operation>, pending: &Vec<Operation>) -> (r: bool)
    ensures
        r == batches_conflict(operations_view(incoming@), operations_view(pending@)),
{
    let ghost a = operations_view(incoming@);
    let ghost b = operations_view(pending@);
    let mut i: usize = 0;
    while i < incoming.len()
        invariant
            i <= incoming.len(),
            a == operations_view(incoming@),
            b == operations_view(pending@),
            forall|x: int, y: int| 0 <= x < i && 0 <= y < b.len() ==> !ops_conflict(#[trigger] a[x], #[trigger] b[y]),
        decreases incoming.len() - i,
    {
        let mut j: usize = 0;
        while j < pending.len()
            invariant
                i < incoming.len(),
                j <= pending.len(),
                a == operations_view(incoming@),
                b == operations_view(pending@),
                forall|x: int, y: int| 0 <= x < i && 0 <= y < b.len() ==> !ops_conflict(#[trigger] a[x], #[trigger] b[y]),
                forall|y: int| 0 <= y < j ==> !ops_conflict(a[i as int], #[trigger] b[y]),
            decreases pending.len() - j,
        {
            if operations_conflict(&incoming[i], &pending[j]) {
                assert(ops_conflict(a[i as int], b[j as int]));
                return true;
            }
            j = j + 1;
        }
        i = i + 1;
    }
    false
}

/// Whether two operations conflict: they address the same path and are not
/// both insertions.
pub fn operations_conflict(op1: &Operation, op2: &Operation) -> (r: bool)
    ensures
        r == ops_conflict(op1@, op2@),
{
    let both_inserts = match (op1, op2) {
        (Operation::Insert(_), Operation::Insert(_)) => true,
        _ => false,
    };
    match (path_of(op1), path_of(op2)) {
        (Some(p), Some(q)) => !both_inserts && same_path(p, q),
        _ => false,
    }
}

/// A pending batch stamped `ts` has outlived `max_age` seconds at `now`
/// (milliseconds since the Unix epoch): its stamp names an instant more than
/// `max_age` seconds before `now`.
pub open spec fn expired(ts: Seq<char>, now: int, max_age: int) -> bool {
    match rfc3339_millis(ts) {
        Some(t) => now - t > max_age * 1000,
        None => false,
    }
}

/// Holds of a pending batch that a sweep at `now` keeps.
pub open spec fn fresh(now: int, max_age: int) -> spec_fn(BatchModel) -> bool {
    |x: BatchModel| !expired(x.timestamp, now, max_age)
}

/// The store after a sweep at `now`.
pub open spec fn evict(s: Seq<BatchModel>, now: int, max_age: int) -> Seq<BatchModel> {
    s.filter(fresh(now, max_age))
}

/// Whether a stamp read as `parsed` (milliseconds since the Unix epoch, or
/// `None` where it names no instant) has outlived `max_age` seconds at `now`
/// (milliseconds since the Unix epoch).
pub fn is_expired(parsed: Option<i64>, now: i64, max_age: i64) -> (r: bool)
    ensures
        r == match parsed {
            Some(t) => now - t > max_age * 1000,
            None => false,
        },
{
    match parsed {
        Some(t) => (now as i128) - (t as i128) > (max_age as i128) * 1000,
        None => false,
    }
}

/// The state of the engine: its own origin, the watermark, and the pending
/// batches.
pub struct EngineModel {
    pub local_id: Seq<char>,
    pub watermark: Option<Seq<char>>,
    pub pending: Seq<BatchModel>,
}

/// The temporal conflict: `b` is stamped no later than the watermark.
pub open spec fn temporal_conflict(e: EngineModel, b: BatchModel) -> bool {
    match e.watermark {
        Some(w) => text_le(b.timestamp, w),
        None => false,
    }
}

/// The decision on a foreign batch `b`: the next state, and the batch that
/// is forwarded, if any.
pub open spec fn resolve(e: EngineModel, b: BatchModel) -> (EngineModel, Option<BatchModel>) {
    if temporal_conflict(e, b) && entry_for(e.pending, b.source_id) is Some {
        let p = entry_for(e.pending, b.source_id)->Some_0;
        if text_lt(b.timestamp, p.timestamp) {
            (EngineModel { pending: upsert(e.pending, b), ..e }, Some(b))
        } else {
            (e, None)
        }
    } else if path_conflict(e.pending, b) {
        (EngineModel { pending: replace_conflicting(e.pending, b), ..e }, Some(b))
    } else {
        (EngineModel { watermark: Some(b.timestamp), pending: upsert(e.pending, b), ..e }, Some(b))
    }
}

/// The decision on any batch `b`: one of this engine's own origin is
/// dropped and changes nothing; any other is resolved.
pub open spec fn receive(e: EngineModel, b: BatchModel) -> (EngineModel, Option<BatchModel>) {
    if b.source_id == e.local_id {
        (e, None)
    } else {
        resolve(e, b)
    }
}

/// The batch that process `local_id` publishes for `operations`, stamped
/// `timestamp`: the edits alone, without the document's state.
pub open spec fn published(local_id: Seq<char>, operations: Seq<OperationModel>, timestamp: Seq<char>) -> BatchModel {
    BatchModel { operations, timestamp, source_id: local_id, children: None, viewport: None }
}

/// The state after `bs` arrived in order at an engine in state `e`, and the
/// batches that were forwarded, in order.
pub open spec fn receive_all(e: EngineModel, bs: Seq<BatchModel>) -> (EngineModel, Seq<BatchModel>)
    decreases bs.len(),
{
    if bs.len() == 0 {
        (e, seq![])
    } else {
        let (e1, f) = receive(e, bs[0]);
        let (e2, fs) = receive_all(e1, bs.drop_first());
        (e2, match f {
            Some(x) => seq![x] + fs,
            None => fs,
        })
    }
}

pub open spec fn batches_view(s: Seq<DDSBoardChangeData>) -> Seq<BatchModel> {
    s.map_values(|b: DDSBoardChangeData| b@)
}

/// A copy of the batches of `v` that `p` holds of, in their order.
fn keep_marked(
    v: &Vec<DDSBoardChangeData>,
    mask: &Vec<bool>,
    Ghost(p): Ghost<spec_fn(BatchModel) -> bool>,
) -> (r: Vec<DDSBoardChangeData>)
    requires
        mask@.len() == v@.len(),
        forall|i: int| 0 <= i < v@.len() ==> mask@[i] == p(#[trigger] v@[i]@),
    ensures
        batches_view(r@) == batches_view(v@).filter(p),
{
    let ghost s = batches_view(v@);
    let mut r: Vec<DDSBoardChangeData> = Vec::new();
    let mut i: usize = 0;
    while i < v.len()
        invariant
            i <= v@.len(),
            mask@.len() == v@.len(),
            s == batches_view(v@),
            forall|i: int| 0 <= i < v@.len() ==> mask@[i] == p(#[trigger] v@[i]@),
            batches_view(r@) == s.subrange(0, i as int).filter(p),
        decreases v.len() - i,
    {
        let ghost r0 = r@;
        if mask[i] {
            r.push(v[i].deep_clone());
            assert(batches_view(r@) =~= batches_view(r0).push(v@[i as int]@));
        }
        proof {
            assert(s.subrange(0, i + 1) =~= s.subrange(0, i as int).push(s[i as int]));
            s.subrange(0, i as int).lemma_filter_push(s[i as int], p);
        }
        i = i + 1;
    }
    assert(s.subrange(0, v@.len() as int) =~= s);
    r
}

/// The replication engine of one process.
pub struct DDSManager {
    local_id: String,
    last_operation_timestamp: Option<String>,
    pending_operations: Vec<DDSBoardChangeData>,
}

impl DDSManager {
    pub closed spec fn view(&self) -> EngineModel {
        EngineModel {
            local_id: self.local_id@,
            watermark: match &self.last_operation_timestamp {
                Some(w) => Some(w@),
                None => None,
            },
            pending: batches_view(self.pending_operations@),
        }
    }

    /// At most one pending batch per origin.
    pub open spec fn wf(&self) -> bool {
        distinct_origins(self@.pending)
    }

    /// An engine of the process `local_id`, with no watermark and no
    /// pending batch.
    pub fn new(local_id: String) -> (r: DDSManager)
        ensures
            r.wf(),
            r@ == (EngineModel { local_id: local_id@, watermark: None, pending: seq![] }),
    {
        let r = DDSManager {
            local_id,
            last_operation_timestamp: None,
            pending_operations: Vec::new(),
        };
        assert(batches_view(r.pending_operations@) =~= seq![]);
        r
    }

    /// The position of the pending batch of origin `sid`.
    fn find_pending(&self, sid: &String) -> (r: Option<usize>)
        requires
            self.wf(),
        ensures
            match r {
                Some(i) => i < self@.pending.len() && self@.pending[i as int].source_id == sid@
                    && entry_for(self@.pending, sid@) == Some(self@.pending[i as int]),
                None => entry_for(self@.pending, sid@) is None,
            },
    {
        let mut i: usize = 0;
        while i < self.pending_operations.len()
            invariant
                i <= self.pending_operations@.len(),
                self.wf(),
                forall|k: int| 0 <= k < i ==> #[trigger] self@.pending[k].source_id != sid@,
            decreases self.pending_operations.len() - i,
        {
            if self.pending_operations[i].source_id == *sid {
                proof {
                    lemma_entry_for(self@.pending, i as int);
                }
                return Some(i);
            }
            i = i + 1;
        }
        None
    }

    /// Stores `b` in place of any pending batch of its origin.
    fn upsert_pending(&mut self, b: &DDSBoardChangeData)
        requires
            old(self).wf(),
        ensures
            final(self).wf(),
            final(self)@ == (EngineModel { pending: upsert(old(self)@.pending, b@), ..old(self)@ }),
    {
        let ghost p = other_origin(b@.source_id);
        assert(forall|x: BatchModel| #[trigger] p(x) == (x.source_id != b@.source_id));
        let mut mask: Vec<bool> = Vec::new();
        let mut i: usize = 0;
        while i < self.pending_operations.len()
            invariant
                i <= self.pending_operations@.len(),
                mask@.len() == i,
                forall|x: BatchModel| #[trigger] p(x) == (x.source_id != b@.source_id),
                forall|k: int| 0 <= k < i ==> mask@[k] == p(#[trigger] self.pending_operations@[k]@),
            decreases self.pending_operations.len() - i,
        {
            let same = self.pending_operations[i].source_id == b.source_id;
            assert(p(self.pending_operations@[i as int]@) == !same);
            mask.push(!same);
            i = i + 1;
        }
        let mut kept = keep_marked(&self.pending_operations, &mask, Ghost(p));
        kept.push(b.deep_clone());
        proof {
            lemma_upsert_distinct(self@.pending, b@);
            assert(batches_view(kept@) =~= upsert(self@.pending, b@));
        }
        self.pending_operations = kept;
    }

    /// Whether `incoming` conflicts in path with some pending batch.
    pub fn has_path_conflicts(&self, incoming: &DDSBoardChangeData) -> (r: bool)
        ensures
            r == path_conflict(self@.pending, incoming@),
    {
        let mut k: usize = 0;
        while k < self.pending_operations.len()
            invariant
                k <= self.pending_operations@.len(),
                forall|x: int|
                    0 <= x < k ==> !batches_conflict(incoming@.operations, #[trigger] self@.pending[x].operations),
            decreases self.pending_operations.len() - k,
        {
            if operation_lists_conflict(&incoming.operations, &self.pending_operations[k].operations) {
                assert(batches_conflict(incoming@.operations, self@.pending[k as int].operations));
                return true;
            }
            k = k + 1;
        }
        false
    }

    /// Resolves a path conflict by last writer wins: `incoming` takes the
    /// place of the pending batches it conflicts with, and of its origin's,
    /// and is returned unchanged.
    pub fn merge_conflicting_operations(&mut self, incoming: DDSBoardChangeData) -> (r: DDSBoardChangeData)
        requires
            old(self).wf(),
        ensures
            final(self).wf(),
            final(self)@ == (EngineModel { pending: replace_conflicting(old(self)@.pending, incoming@), ..old(self)@ }),
            r == incoming,
    {
        let ghost p = survives(incoming@);
        assert(forall|x: BatchModel| #[trigger] p(x) == (x.source_id != incoming@.source_id
            && !batches_conflict(incoming@.operations, x.operations)));
        let mut mask: Vec<bool> = Vec::new();
        let mut i: usize = 0;
        while i < self.pending_operations.len()
            invariant
                i <= self.pending_operations@.len(),
                mask@.len() == i,
                forall|x: BatchModel| #[trigger] p(x) == (x.source_id != incoming@.source_id
                    && !batches_conflict(incoming@.operations, x.operations)),
                forall|k: int| 0 <= k < i ==> mask@[k] == p(#[trigger] self.pending_operations@[k]@),
            decreases self.pending_operations.len() - i,
        {
            let same = self.pending_operations[i].source_id == incoming.source_id;
            let clash = operation_lists_conflict(&incoming.operations, &self.pending_operations[i].operations);
            assert(p(self.pending_operations@[i as int]@) == (!same && !clash));
            mask.push(!same && !clash);
            i = i + 1;
        }
        let mut kept = keep_marked(&self.pending_operations, &mask, Ghost(p));
        kept.push(incoming.deep_clone());
        proof {
            lemma_replace_distinct(self@.pending, incoming@);
            assert(batches_view(kept@) =~= replace_conflicting(self@.pending, incoming@));
        }
        self.pending_operations = kept;
        incoming
    }

    /// Decides on a foreign batch: forwards it or drops it, and keeps the
    /// watermark and the pending batches as [`resolve`] says.
    pub fn resolve_conflicts(&mut self, incoming: DDSBoardChangeData) -> (r: Option<DDSBoardChangeData>)
        requires
            old(self).wf(),
        ensures
            final(self).wf(),
            final(self)@ == resolve(old(self)@, incoming@).0,
            match r {
                Some(b) => b == incoming && resolve(old(self)@, incoming@).1 == Some(incoming@),
                None => resolve(old(self)@, incoming@).1 is None,
            },
    {
        let temporal = match &self.last_operation_timestamp {
            Some(w) => incoming.timestamp == *w || text_less(&incoming.timestamp, w),
            None => false,
        };
        if temporal {
            match self.find_pending(&incoming.source_id) {
                Some(i) => {
                    if text_less(&incoming.timestamp, &self.pending_operations[i].timestamp) {
                        self.upsert_pending(&incoming);
                        return Some(incoming);
                    } else {
                        return None;
                    }
                },
                None => {},
            }
        }
        if self.has_path_conflicts(&incoming) {
            let merged = self.merge_conflicting_operations(incoming);
            return Some(merged);
        }
        self.last_operation_timestamp = Some(incoming.timestamp.clone());
        self.upsert_pending(&incoming);
        Some(incoming)
    }

    /// The loop guard: whether `b` comes from this engine's own process.
    pub fn is_own_batch(&self, b: &DDSBoardChangeData) -> (r: bool)
        ensures
            r == (b@.source_id == self@.local_id),
    {
        b.source_id == self.local_id
    }

    /// Decides on any received batch: one of this process's own origin is
    /// dropped before anything else; any other is resolved.
    pub fn receive_batch(&mut self, incoming: DDSBoardChangeData) -> (r: Option<DDSBoardChangeData>)
        requires
            old(self).wf(),
        ensures
            final(self).wf(),
            final(self)@ == receive(old(self)@, incoming@).0,
            match r {
                Some(b) => b == incoming && receive(old(self)@, incoming@).1 == Some(incoming@),
                None => receive(old(self)@, incoming@).1 is None,
            },
    {
        if self.is_own_batch(&incoming) {
            return None;
        }
        self.resolve_conflicts(incoming)
    }

    /// Removes the pending batches that have outlived `max_age` seconds at
    /// `now` (milliseconds since the Unix epoch).
    pub fn evict_expired(&mut self, now: i64, max_age: i64)
        requires
            old(self).wf(),
        ensures
            final(self).wf(),
            final(self)@ == (EngineModel { pending: evict(old(self)@.pending, now as int, max_age as int), ..old(self)@ }),
    {
        let ghost p = fresh(now as int, max_age as int);
        assert(forall|x: BatchModel| #[trigger] p(x) == !expired(x.timestamp, now as int, max_age as int));
        let mut mask: Vec<bool> = Vec::new();
        let mut i: usize = 0;
        while i < self.pending_operations.len()
            invariant
                i <= self.pending_operations@.len(),
                mask@.len() == i,
                forall|x: BatchModel| #[trigger] p(x) == !expired(x.timestamp, now as int, max_age as int),
                forall|k: int| 0 <= k < i ==> mask@[k] == p(#[trigger] self.pending_operations@[k]@),
            decreases self.pending_operations.len() - i,
        {
            let parsed = parse_instant_millis(&self.pending_operations[i].timestamp);
            let old_enough = is_expired(parsed, now, max_age);
            assert(p(self.pending_operations@[i as int]@) == !old_enough);
            mask.push(!old_enough);
            i = i + 1;
        }
        let kept = keep_marked(&self.pending_operations, &mask, Ghost(p));
        proof {
            lemma_evict_distinct(self@.pending, now as int, max_age as int);
        }
        self.pending_operations = kept;
    }

    /// The periodic sweep: removes the pending batches that have outlived
    /// `max_age_seconds` at `now` (milliseconds since the Unix epoch, read by
    /// the caller from its clock).
    pub fn cleanup_pending_operations(&mut self, now: i64, max_age_seconds: i64)
        requires
            old(self).wf(),
        ensures
            final(self).wf(),
            final(self)@ == (EngineModel {
                pending: evict(old(self)@.pending, now as int, max_age_seconds as int),
                ..old(self)@
            }),
    {
        self.evict_expired(now, max_age_seconds);
    }

    /// Decides on `batches`, in order, as [`receive_batch`](Self::receive_batch)
    /// does on each; returns those forwarded, in order.
    pub fn receive_batches(&mut self, batches: Vec<DDSBoardChangeData>) -> (r: Vec<DDSBoardChangeData>)
        requires
            old(self).wf(),
        ensures
            final(self).wf(),
            (final(self)@, batches_view(r@)) == receive_all(old(self)@, batches_view(batches@)),
    {
        let ghost all = batches_view(batches@);
        let ghost start = self@;
        let mut rest = batches;
        let mut forwarded: Vec<DDSBoardChangeData> = Vec::new();
        let ghost mut i: int = 0;
        proof {
            assert(all.subrange(0, all.len() as int) =~= all);
            assert(batches_view(forwarded@) =~= Seq::<BatchModel>::empty());
        }
        while rest.len() > 0
            invariant
                self.wf(),
                0 <= i <= all.len(),
                batches_view(rest@) == all.subrange(i, all.len() as int),
                receive_all(start, all) == (receive_all(self@, batches_view(rest@)).0,
                    batches_view(forwarded@) + receive_all(self@, batches_view(rest@)).1),
            decreases rest.len(),
        {
            let ghost e0 = self@;
            let ghost tail = batches_view(rest@);
            let ghost f0 = batches_view(forwarded@);
            let b = rest.remove(0);
            proof {
                assert(batches_view(rest@) =~= tail.drop_first());
                assert(tail[0] == b@);
            }
            let out = self.receive_batch(b);
            match out {
                Some(x) => {
                    forwarded.push(x);
                    proof {
                        assert(batches_view(forwarded@) =~= f0.push(tail[0]));
                        assert(f0 + (seq![tail[0]] + receive_all(self@, tail.drop_first()).1) =~= f0.push(tail[0])
                            + receive_all(self@, tail.drop_first()).1);
                    }
                },
                None => {},
            }
            proof {
                i = i + 1;
                assert(all.subrange(i, all.len() as int) =~= tail.drop_first());
            }
        }
        proof {
            assert(batches_view(rest@) =~= Seq::<BatchModel>::empty());
            assert(batches_view(forwarded@) + Seq::<BatchModel>::empty() =~= batches_view(forwarded@));
        }
        forwarded
    }

    /// Decides on what one poll of the transport gave: nothing, or a
    /// message. A message that is not the wire form of a batch is
    /// `MalformedPayload` and changes nothing; a batch is dropped if it is
    /// this process's own, else resolved.
    pub fn try_receive_board_change(&mut self, message: Option<&Json>) -> (r: Result<Option<DDSBoardChangeData>, CodecError>)
        requires
            old(self).wf(),
        ensures
            final(self).wf(),
            match message {
                None => r == Ok::<Option<DDSBoardChangeData>, CodecError>(None) && final(self)@ == old(self)@,
                Some(j) => match batch_of(j@) {
                    None => r == Err::<Option<DDSBoardChangeData>, CodecError>(CodecError::MalformedPayload)
                        && final(self)@ == old(self)@,
                    Some(b) => final(self)@ == receive(old(self)@, b).0 && match r {
                        Ok(Some(x)) => receive(old(self)@, b).1 == Some(x@),
                        Ok(None) => receive(old(self)@, b).1 is None,
                        Err(_) => false,
                    },
                },
            },
    {
        match message {
            None => Ok(None),
            Some(j) => match decode_batch(j) {
                Ok(b) => Ok(self.receive_batch(b)),
                Err(e) => Err(e),
            },
        }
    }

    /// The batch that this process publishes for `operations`, stamped
    /// `timestamp`: the edits alone, without the document's state.
    pub fn outgoing_batch(&self, operations: &Vec<Operation>, timestamp: String) -> (r: DDSBoardChangeData)
        ensures
            r@ == published(self@.local_id, operations_view(operations@), timestamp@),
    {
        DDSBoardChangeData {
            operations: clone_operations(operations),
            timestamp,
            source_id: self.local_id.clone(),
            children: None,
            viewport: None,
        }
    }

    /// The wire form of the batch that this process publishes for
    /// `operations`, stamped `timestamp` (the time of publishing, read by the
    /// caller from its clock).
    pub fn publish_board_change(&self, operations: &Vec<Operation>, timestamp: String) -> (r: Json)
        ensures
            r@ == batch_json(published(self@.local_id, operations_view(operations@), timestamp@)),
    {
        let b = self.outgoing_batch(operations, timestamp);
        encode_batch(&b)
    }

    /// This process's own origin.
    pub fn local_id(&self) -> (r: &String)
        ensures
            r@ == self@.local_id,
    {
        &self.local_id
    }

    /// The watermark: the stamp of the last batch accepted without conflict.
    pub fn watermark(&self) -> (r: Option<&String>)
        ensures
            match r {
                Some(w) => self@.watermark == Some(w@),
                None => self@.watermark is None,
            },
    {
        match &self.last_operation_timestamp {
            Some(w) => Some(w),
            None => None,
        }
    }

    /// The number of pending batches.
    pub fn pending_count(&self) -> (r: usize)
        ensures
            r == self@.pending.len(),
    {
        self.pending_operations.len()
    }

    /// The pending batch of origin `source_id`.
    pub fn pending_for(&self, source_id: &String) -> (r: Option<&DDSBoardChangeData>)
        requires
            self.wf(),
        ensures
            match r {
                Some(b) => entry_for(self@.pending, source_id@) == Some(b@),
                None => entry_for(self@.pending, source_id@) is None,
            },
    {
        match self.find_pending(source_id) {
            Some(i) => Some(&self.pending_operations[i]),
            None => None,
        }
    }
}

} // verus!
