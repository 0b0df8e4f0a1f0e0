//! What staged operations do to the documents of an index, and the laws of
//! batch application: replays converge, a removal clears an identity, and a
//! batch becomes visible to readers all at once.

use crate::change::{batch_ops, record_document, record_ops, DocumentKind, Operation, OpView, RecordView};
use crate::document::DocView;
use vstd::prelude::*;

verus! {

/// The documents of `idx` whose identity is not `id`, in order.
pub open spec fn without_identity(idx: Seq<DocView>, id: Seq<char>) -> Seq<DocView>
    decreases idx.len(),
{
    if idx.len() == 0 {
        idx
    } else {
        let rest = without_identity(idx.drop_last(), id);
        if idx.last().identity == id {
            rest
        } else {
            rest.push(idx.last())
        }
    }
}

/// How many documents of `idx` have identity `id`.
pub open spec fn identity_count(idx: Seq<DocView>, id: Seq<char>) -> nat
    decreases idx.len(),
{
    if idx.len() == 0 {
        0
    } else {
        identity_count(idx.drop_last(), id) + if idx.last().identity == id {
            1nat
        } else {
            0nat
        }
    }
}

/// The documents after one staged operation takes effect.
pub open spec fn apply_op(idx: Seq<DocView>, op: OpView) -> Seq<DocView> {
    match op {
        OpView::Add(d) => idx.push(d),
        OpView::DeleteIdentity(id) => without_identity(idx, id),
    }
}

/// The documents after a sequence of operations takes effect, in order.
pub open spec fn apply_ops(idx: Seq<DocView>, ops: Seq<OpView>) -> Seq<DocView>
    decreases ops.len(),
{
    if ops.len() == 0 {
        idx
    } else {
        apply_ops(apply_op(idx, ops[0]), ops.drop_first())
    }
}

/// The committed documents after one batch is planned, staged and committed.
pub open spec fn apply_batch(kind: DocumentKind, idx: Seq<DocView>, batch: Seq<RecordView>) -> Seq<DocView> {
    apply_ops(idx, batch_ops(kind, batch))
}

/// An index store: the committed documents, which readers see, and the
/// operations staged since the last commit, which they do not.
pub struct StoreState {
    pub committed: Seq<DocView>,
    pub staged: Seq<OpView>,
}

pub open spec fn stage(s: StoreState, op: OpView) -> StoreState {
    StoreState { committed: s.committed, staged: s.staged.push(op) }
}

pub open spec fn stage_all(s: StoreState, ops: Seq<OpView>) -> StoreState
    decreases ops.len(),
{
    if ops.len() == 0 {
        s
    } else {
        stage(stage_all(s, ops.drop_last()), ops.last())
    }
}

pub open spec fn commit(s: StoreState) -> StoreState {
    StoreState { committed: apply_ops(s.committed, s.staged), staged: seq![] }
}

/// What a reader that reloads now sees.
pub open spec fn snapshot(s: StoreState) -> Seq<DocView> {
    s.committed
}

proof fn lemma_without_identity_twice(idx: Seq<DocView>, id: Seq<char>)
    ensures
        without_identity(without_identity(idx, id), id) == without_identity(idx, id),
    decreases idx.len(),
{
    if idx.len() > 0 {
        lemma_without_identity_twice(idx.drop_last(), id);
        let rest = without_identity(idx.drop_last(), id);
        if idx.last().identity != id {
            let p = rest.push(idx.last());
            assert(p.drop_last() =~= rest);
        }
    }
}

proof fn lemma_without_identity_count(idx: Seq<DocView>, id: Seq<char>)
    ensures
        identity_count(without_identity(idx, id), id) == 0,
    decreases idx.len(),
{
    if idx.len() > 0 {
        lemma_without_identity_count(idx.drop_last(), id);
        let rest = without_identity(idx.drop_last(), id);
        if idx.last().identity != id {
            assert(rest.push(idx.last()).drop_last() =~= rest);
        }
    }
}

proof fn lemma_without_identity_after_add(idx: Seq<DocView>, d: DocView)
    ensures
        without_identity(idx.push(d), d.identity) == without_identity(idx, d.identity),
{
    assert(idx.push(d).drop_last() =~= idx);
}

proof fn lemma_apply_two(idx: Seq<DocView>, a: OpView, b: OpView)
    ensures
        apply_ops(idx, seq![a, b]) == apply_op(apply_op(idx, a), b),
{
    assert(seq![a, b].drop_first() =~= seq![b]);
    lemma_apply_one(apply_op(idx, a), b);
}

proof fn lemma_apply_one(idx: Seq<DocView>, a: OpView)
    ensures
        apply_ops(idx, seq![a]) == apply_op(idx, a),
{
    assert(seq![a].drop_first() =~= Seq::<OpView>::empty());
    assert(apply_ops(apply_op(idx, a), Seq::<OpView>::empty()) == apply_op(idx, a));
}

proof fn lemma_single_batch(kind: DocumentKind, r: RecordView)
    ensures
        batch_ops(kind, seq![r]) == record_ops(kind, r),
{
    assert(seq![r].drop_last() =~= Seq::<RecordView>::empty());
    assert(batch_ops(kind, Seq::<RecordView>::empty()) == Seq::<OpView>::empty());
    assert(Seq::<OpView>::empty() + record_ops(kind, r) =~= record_ops(kind, r));
}

/// Applying an insert or a modification, in a batch of its own, leaves the
/// other documents and exactly one document with the record's identity:
/// the one it decodes to.
proof fn lemma_upsert_effect(kind: DocumentKind, idx: Seq<DocView>, r: RecordView)
    requires
        r.operation == Operation::Insert || r.operation == Operation::Modify,
        record_document(kind, r) is Some,
    ensures
        apply_batch(kind, idx, seq![r]) == without_identity(idx, record_document(kind, r).unwrap().identity).push(
            record_document(kind, r).unwrap(),
        ),
{
    let d = record_document(kind, r).unwrap();
    lemma_single_batch(kind, r);
    lemma_apply_two(idx, OpView::DeleteIdentity(d.identity), OpView::Add(d));
}

/// A replayed insert or modification converges: applying the same record
/// again, in a second batch, changes nothing, and the index then holds
/// exactly one document with the record's identity, the one it decodes to.
pub proof fn lemma_replay_converges(kind: DocumentKind, idx: Seq<DocView>, r: RecordView)
    requires
        r.operation == Operation::Insert || r.operation == Operation::Modify,
        record_document(kind, r) is Some,
    ensures
        apply_batch(kind, apply_batch(kind, idx, seq![r]), seq![r]) == apply_batch(kind, idx, seq![r]),
        identity_count(apply_batch(kind, idx, seq![r]), record_document(kind, r).unwrap().identity) == 1,
        apply_batch(kind, idx, seq![r]).last() == record_document(kind, r).unwrap(),
{
    let d = record_document(kind, r).unwrap();
    let once = apply_batch(kind, idx, seq![r]);
    lemma_upsert_effect(kind, idx, r);
    lemma_upsert_effect(kind, once, r);
    let base = without_identity(idx, d.identity);
    lemma_without_identity_after_add(base, d);
    lemma_without_identity_twice(idx, d.identity);
    lemma_without_identity_count(idx, d.identity);
    assert(once.drop_last() =~= base);
}

/// Insert, then modify, then remove one identity, each in a batch of its
/// own: no document with that identity is left, and the others are as
/// they were.
pub proof fn lemma_insert_modify_remove_clears(
    kind: DocumentKind,
    idx: Seq<DocView>,
    ins: RecordView,
    upd: RecordView,
    rem: RecordView,
)
    requires
        ins.operation == Operation::Insert,
        upd.operation == Operation::Modify,
        rem.operation == Operation::Remove,
        record_document(kind, ins) is Some,
        record_document(kind, upd) is Some,
        record_document(kind, rem) is Some,
        record_document(kind, upd).unwrap().identity == record_document(kind, ins).unwrap().identity,
        record_document(kind, rem).unwrap().identity == record_document(kind, ins).unwrap().identity,
    ensures
        ({
            let id = record_document(kind, ins).unwrap().identity;
            let last = apply_batch(
                kind,
                apply_batch(kind, apply_batch(kind, idx, seq![ins]), seq![upd]),
                seq![rem],
            );
            &&& last == without_identity(idx, id)
            &&& identity_count(last, id) == 0
        }),
{
    let id = record_document(kind, ins).unwrap().identity;
    let d1 = record_document(kind, ins).unwrap();
    let d2 = record_document(kind, upd).unwrap();
    let s1 = apply_batch(kind, idx, seq![ins]);
    lemma_upsert_effect(kind, idx, ins);
    let s2 = apply_batch(kind, s1, seq![upd]);
    lemma_upsert_effect(kind, s1, upd);
    lemma_without_identity_after_add(without_identity(idx, id), d1);
    lemma_without_identity_twice(idx, id);
    lemma_single_batch(kind, rem);
    lemma_apply_one(s2, OpView::DeleteIdentity(id));
    lemma_without_identity_after_add(without_identity(idx, id), d2);
    lemma_without_identity_count(idx, id);
}

proof fn lemma_staging_keeps_committed(s: StoreState, ops: Seq<OpView>)
    ensures
        stage_all(s, ops).committed == s.committed,
        stage_all(s, ops).staged == s.staged + ops,
    decreases ops.len(),
{
    if ops.len() > 0 {
        lemma_staging_keeps_committed(s, ops.drop_last());
        assert(s.staged + ops =~= (s.staged + ops.drop_last()).push(ops.last()));
    }
}

/// A batch is visible all at once: while any part of its operations is
/// staged, a reader sees exactly what was committed before; once the batch
/// commits, a reader sees every one of its effects.
pub proof fn lemma_batch_atomic(kind: DocumentKind, s: StoreState, batch: Seq<RecordView>)
    requires
        s.staged.len() == 0,
    ensures
        forall|k: int|
            0 <= k <= batch_ops(kind, batch).len() ==> #[trigger] snapshot(
                stage_all(s, batch_ops(kind, batch).take(k)),
            ) == snapshot(s),
        snapshot(commit(stage_all(s, batch_ops(kind, batch)))) == apply_batch(kind, snapshot(s), batch),
{
    let ops = batch_ops(kind, batch);
    assert forall|k: int| 0 <= k <= ops.len() implies #[trigger] snapshot(stage_all(s, ops.take(k))) == snapshot(s) by {
        lemma_staging_keeps_committed(s, ops.take(k));
    }
    lemma_staging_keeps_committed(s, ops);
    assert(s.staged + ops =~= ops);
}

} // verus!
