//! Facts about replaying operations.
use vstd::prelude::*;

use crate::model::{DocState, Ops, accepts, overruns, replay, state_wf, step};

verus! {

/// Once a prefix of the operations overruns the text, the whole list does.
pub proof fn lemma_failure_persists(start: DocState, ops: Seq<Ops>, k: int)
    requires
        0 <= k <= ops.len(),
        replay(start, ops.take(k)) is None,
    ensures
        replay(start, ops) is None,
    decreases ops.len() - k,
{
    if k == ops.len() {
        assert(ops.take(k) =~= ops);
    } else {
        assert(ops.drop_last().take(k) =~= ops.take(k));
        lemma_failure_persists(start, ops.drop_last(), k);
    }
}

/// A step from a state whose cursor is within its text keeps it so.
pub proof fn lemma_step_wf(s: DocState, op: Ops)
    requires
        state_wf(s),
    ensures
        step(s, op) matches Some(t) ==> state_wf(t),
{
}

/// Every state that a replay from a well-formed state reaches is well-formed.
pub proof fn lemma_replay_wf(start: DocState, ops: Seq<Ops>)
    requires
        state_wf(start),
    ensures
        replay(start, ops) matches Some(t) ==> state_wf(t),
    decreases ops.len(),
{
    if ops.len() > 0 {
        lemma_replay_wf(start, ops.drop_last());
        if let Some(s) = replay(start, ops.drop_last()) {
            lemma_step_wf(s, ops.last());
        }
    }
}

/// The empty transformation takes every document to itself.
pub proof fn lemma_identity(d: DocState)
    ensures
        accepts(d, d, Seq::<Ops>::empty()),
{
}

/// A `Skip` or `Delete` that overruns the text at its point in the replay
/// makes the whole transformation invalid, whatever follows it and whatever
/// the target document is.
pub proof fn lemma_overrun_rejects(before: DocState, after: DocState, ops: Seq<Ops>, k: int)
    requires
        0 <= k < ops.len(),
        replay(before, ops.take(k)) matches Some(s) && overruns(s, ops[k]),
    ensures
        !accepts(before, after, ops),
{
    assert(ops.take(k + 1).drop_last() =~= ops.take(k));
    assert(ops.take(k + 1).last() == ops[k]);
    lemma_failure_persists(before, ops, k + 1);
}

/// A transformation accepted towards one target is rejected towards any
/// target that differs from it in text or in cursor.
pub proof fn lemma_exactness(before: DocState, after: DocState, other: DocState, ops: Seq<Ops>)
    requires
        accepts(before, after, ops),
        other.0 != after.0 || other.1 != after.1,
    ensures
        !accepts(before, other, ops),
{
}

/// The order of operations matters: two operations taken in one order can
/// be accepted where the same two in the other order are rejected.
pub proof fn lemma_order_matters()
    ensures
        exists|before: DocState, after: DocState, x: Ops, y: Ops|
            accepts(before, after, seq![x, y]) && !accepts(before, after, seq![y, x]),
{
    let before: DocState = (seq![1u8, 2u8], 0);
    let after: DocState = (seq![1u8], 1);
    let x = Ops::Skip(1);
    let y = Ops::Delete(1);
    assert(seq![x, y].drop_last() =~= seq![x]);
    assert(seq![x].drop_last() =~= Seq::<Ops>::empty());
    assert(seq![y, x].drop_last() =~= seq![y]);
    assert(seq![y].drop_last() =~= Seq::<Ops>::empty());
    assert(before.0.take(1) + before.0.skip(2) =~= after.0);
    assert(before.0.take(0) + before.0.skip(1) =~= seq![2u8]);
    assert(seq![2u8] != after.0) by {
        assert(seq![2u8][0] != after.0[0]);
    }
    let mid: DocState = (before.0, 1);
    assert(replay(before, Seq::<Ops>::empty()) == Some(before));
    assert(replay(before, seq![x]) == Some(mid));
    assert(replay(before, seq![x, y]) == Some(after));
    let other: DocState = (seq![2u8], 0);
    assert(replay(before, seq![y]) == Some(other));
    assert(replay(before, seq![y, x]) == Some((other.0, 1nat)));
    assert(accepts(before, after, seq![x, y]) && !accepts(before, after, seq![y, x]));
}

/// An `Insert` after any successful replay succeeds as well.
pub proof fn lemma_insert_never_overruns(start: DocState, ops: Seq<Ops>, s: String)
    requires
        replay(start, ops) is Some,
    ensures
        replay(start, ops.push(Ops::Insert(s))) is Some,
{
    assert(ops.push(Ops::Insert(s)).drop_last() =~= ops);
}

/// A replay fails only at a `Skip` or `Delete` that overruns the text of the
/// state reached by the operations before it.
pub proof fn lemma_failure_has_cause(start: DocState, ops: Seq<Ops>)
    requires
        replay(start, ops) is None,
    ensures
        exists|k: int|
            0 <= k < ops.len() && (replay(start, ops.take(k)) matches Some(s) && overruns(
                s,
                #[trigger] ops[k],
            )) && (ops[k] is Skip || ops[k] is Delete),
    decreases ops.len(),
{
    let last = (ops.len() - 1) as int;
    assert(ops.take(last) =~= ops.drop_last());
    if replay(start, ops.drop_last()) is None {
        lemma_failure_has_cause(start, ops.drop_last());
        let k = choose|k: int|
            0 <= k < ops.drop_last().len() && (replay(start, ops.drop_last().take(k)) matches Some(
                s,
            ) && overruns(s, #[trigger] ops.drop_last()[k])) && (ops.drop_last()[k] is Skip
                || ops.drop_last()[k] is Delete);
        assert(ops.drop_last().take(k) =~= ops.take(k));
        assert(ops.drop_last()[k] == ops[k]);
    } else {
        assert(ops[last] == ops.last());
    }
}

} // verus!
