//! Replaying a transformation on a working document.
use vstd::prelude::*;

use crate::model::{Doc, Ops, Transformation, accepts, insert_bytes, overruns, replay, step};
use crate::bytes::{bytes_equal, push_range};
use crate::laws::lemma_failure_persists;

verus! {

/// Replays `trans` on `stale` and reports whether it ends exactly at `latest`.
///
/// Each operation updates `stale` in turn. The first `Skip` or `Delete` that
/// would carry the cursor past the end of the text stops the replay with
/// `false`, leaving `stale` as the operations before it made it.
pub fn is_valid(stale: &mut Doc, latest: &Doc, trans: &Transformation) -> (r: bool)
    requires
        old(stale).wf(),
    ensures
        r == accepts(old(stale)@, latest@, trans.ops@),
        final(stale).wf(),
        match replay(old(stale)@, trans.ops@) {
            Some(s) => final(stale)@ == s,
            None => exists|k: int|
                0 <= k < trans.ops@.len() && replay(old(stale)@, trans.ops@.take(k)) == Some(
                    final(stale)@,
                ) && overruns(final(stale)@, #[trigger] trans.ops@[k]),
        },
{
    let ghost start = stale@;
    let ghost ops = trans.ops@;
    let n = trans.ops.len();
    let mut i: usize = 0;
    assert(ops.take(0) =~= Seq::<Ops>::empty());
    while i < n
        invariant
            0 <= i <= n == ops.len(),
            ops == trans.ops@,
            start == old(stale)@,
            stale.wf(),
            replay(start, ops.take(i as int)) == Some(stale@),
        decreases n - i,
    {
        let ghost here = stale@;
        assert(ops.take(i + 1).drop_last() =~= ops.take(i as int));
        assert(ops.take(i + 1).last() == ops[i as int]);
        match &trans.ops[i] {
            Ops::Insert(s) => {
                let ins = s.as_str().as_bytes();
                let mut fresh: Vec<u8> = Vec::new();
                push_range(&mut fresh, stale.text.as_slice(), 0, stale.cursor);
                push_range(&mut fresh, ins, 0, ins.len());
                push_range(&mut fresh, stale.text.as_slice(), stale.cursor, stale.text.len());
                // The spliced text's length fits in usize, and so does the new cursor.
                let total = fresh.len();
                assert(ins@ =~= insert_bytes(s));
                assert(ins@.subrange(0, ins@.len() as int) =~= ins@);
                stale.text = fresh;
                stale.cursor = stale.cursor + ins.len();
                assert(step(here, ops[i as int]) == Some(stale@));
            },
            Ops::Skip(k) => {
                if *k > stale.text.len() - stale.cursor {
                    assert(replay(start, ops.take(i + 1)) is None);
                    proof {
                        lemma_failure_persists(start, ops, i + 1);
                        assert(overruns(stale@, ops[i as int]));
                        assert(!accepts(start, latest@, ops));
                    }
                    return false;
                }
                stale.cursor = stale.cursor + *k;
                assert(step(here, ops[i as int]) == Some(stale@));
            },
            Ops::Delete(k) => {
                if *k > stale.text.len() - stale.cursor {
                    assert(replay(start, ops.take(i + 1)) is None);
                    proof {
                        lemma_failure_persists(start, ops, i + 1);
                        assert(overruns(stale@, ops[i as int]));
                        assert(!accepts(start, latest@, ops));
                    }
                    return false;
                }
                let mut fresh: Vec<u8> = Vec::new();
                push_range(&mut fresh, stale.text.as_slice(), 0, stale.cursor);
                push_range(
                    &mut fresh,
                    stale.text.as_slice(),
                    stale.cursor + *k,
                    stale.text.len(),
                );
                stale.text = fresh;
                assert(step(here, ops[i as int]) == Some(stale@));
            },
        }
        i = i + 1;
    }
    assert(ops.take(n as int) =~= ops);
    bytes_equal(stale.text.as_slice(), latest.text.as_slice()) && stale.cursor == latest.cursor
}

/// Whether `transform`, replayed on a copy of `before`, ends exactly at `after`.
///
/// Neither document is changed.
pub fn validate(before: &Doc, after: &Doc, transform: &Transformation) -> (r: bool)
    requires
        before.wf(),
    ensures
        r == accepts(before@, after@, transform.ops@),
{
    let mut text: Vec<u8> = Vec::new();
    push_range(&mut text, before.text.as_slice(), 0, before.text.len());
    assert(before.text@.subrange(0, before.text@.len() as int) =~= before.text@);
    let mut stale = Doc { text, cursor: before.cursor };
    is_valid(&mut stale, after, transform)
}

} // verus!
