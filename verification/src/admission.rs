//! Admission of withdraw attempts: one attempt per deposit is let through,
//! and the next one only after the retry delay has passed.

use crate::env::{Timestamp, NANOS_PER_SECOND};
use std::collections::HashMap;
use vstd::prelude::*;

verus! {

broadcast use vstd::std_specs::hash::group_hash_axioms;

/// Whether an attempt at `now` comes more than `retry_delay` seconds after
/// the accepted attempt at `last`.
pub open spec fn cooled_down(last: Timestamp, retry_delay: u64, now: Timestamp) -> bool {
    last.nanos + retry_delay * NANOS_PER_SECOND < now.nanos
}

/// Whether an attempt on the deposit `id` at `now` is accepted: no attempt on
/// it was accepted before, or the last one has cooled down.
pub open spec fn admissible(
    records: Map<u32, Timestamp>,
    id: u32,
    retry_delay: u64,
    now: Timestamp,
) -> bool {
    records.contains_key(id) ==> cooled_down(records[id], retry_delay, now)
}

/// The records after an attempt on the deposit `id` at `now`: an accepted
/// attempt is recorded, a suppressed one leaves no trace.
pub open spec fn record(
    records: Map<u32, Timestamp>,
    id: u32,
    retry_delay: u64,
    now: Timestamp,
) -> Map<u32, Timestamp> {
    if admissible(records, id, retry_delay, now) {
        records.insert(id, now)
    } else {
        records
    }
}

/// The records after attempts at `now` on the deposits `ids`, one after the
/// other.
pub open spec fn records_after(
    records: Map<u32, Timestamp>,
    ids: Seq<u32>,
    retry_delay: u64,
    now: Timestamp,
) -> Map<u32, Timestamp>
    decreases ids.len(),
{
    if ids.len() == 0 {
        records
    } else {
        record(
            records_after(records, ids.drop_last(), retry_delay, now),
            ids.last(),
            retry_delay,
            now,
        )
    }
}

/// The positions in `ids` of the attempts that are accepted when attempts at
/// `now` are made on the deposits `ids`, one after the other: each attempt is
/// judged against the records that the attempts before it have left.
pub open spec fn accepted(
    records: Map<u32, Timestamp>,
    ids: Seq<u32>,
    retry_delay: u64,
    now: Timestamp,
) -> Seq<int>
    decreases ids.len(),
{
    if ids.len() == 0 {
        Seq::empty()
    } else {
        let before = ids.drop_last();
        let earlier = accepted(records, before, retry_delay, now);
        if admissible(records_after(records, before, retry_delay, now), ids.last(), retry_delay, now) {
            earlier.push(ids.len() - 1)
        } else {
            earlier
        }
    }
}

/// Positions in a list, as mathematical integers.
pub open spec fn as_ints(positions: Seq<usize>) -> Seq<int> {
    Seq::new(positions.len(), |i: int| positions[i] as int)
}

/// The items of a list at the positions given, in the order of the
/// positions.
pub open spec fn picked<T>(items: Seq<T>, positions: Seq<int>) -> Seq<T> {
    Seq::new(positions.len(), |k: int| items[positions[k]])
}

/// Decides whether the accepted attempt at `last` has cooled down at `now`.
pub fn is_cooled_down(last: Timestamp, retry_delay: u64, now: Timestamp) -> (b: bool)
    ensures
        b == cooled_down(last, retry_delay, now),
{
    let due: u128 = last.nanos as u128 + retry_delay as u128 * (NANOS_PER_SECOND as u128);
    due < now.nanos as u128
}

/// Makes one attempt on the deposit `id` at `now`: says whether it is
/// accepted, and records it if it is.
pub fn try_admit(
    records: &mut HashMap<u32, Timestamp>,
    id: u32,
    retry_delay: u64,
    now: Timestamp,
) -> (admitted: bool)
    ensures
        admitted == admissible(old(records)@, id, retry_delay, now),
        final(records)@ == record(old(records)@, id, retry_delay, now),
{
    let admitted = match records.get(&id) {
        Some(last) => is_cooled_down(*last, retry_delay, now),
        None => true,
    };
    if admitted {
        records.insert(id, now);
    }
    admitted
}

/// Makes attempts at `now` on the deposits `ids`, one after the other:
/// returns the positions of the accepted ones, in rising order, and records
/// them.
pub fn admit_batch(
    records: &mut HashMap<u32, Timestamp>,
    ids: &Vec<u32>,
    retry_delay: u64,
    now: Timestamp,
) -> (positions: Vec<usize>)
    ensures
        as_ints(positions@) == accepted(old(records)@, ids@, retry_delay, now),
        final(records)@ == records_after(old(records)@, ids@, retry_delay, now),
        forall|k: int| 0 <= k < positions.len() ==> positions[k] < ids.len(),
        forall|j: int, k: int| 0 <= j < k < positions.len() ==> positions[j] < positions[k],
{
    let ghost before = records@;
    let mut positions: Vec<usize> = Vec::new();
    let mut i: usize = 0;
    assert(ids@.take(0) =~= Seq::<u32>::empty());
    assert(as_ints(positions@) =~= Seq::<int>::empty());
    while i < ids.len()
        invariant
            0 <= i <= ids.len(),
            records@ == records_after(before, ids@.take(i as int), retry_delay, now),
            as_ints(positions@) == accepted(before, ids@.take(i as int), retry_delay, now),
        decreases ids.len() - i,
    {
        let ghost earlier = positions@;
        let admitted = try_admit(records, ids[i], retry_delay, now);
        proof {
            assert(ids@.take(i + 1).drop_last() =~= ids@.take(i as int));
            assert(ids@.take(i + 1).last() == ids@[i as int]);
        }
        if admitted {
            positions.push(i);
            assert(as_ints(positions@) =~= as_ints(earlier).push(i as int));
        }
        i = i + 1;
    }
    proof {
        assert(ids@.take(i as int) =~= ids@);
        lemma_accepted_in_order(before, ids@, retry_delay, now);
        assert forall|k: int| 0 <= k < positions.len() implies positions[k] < ids.len() by {
            assert(as_ints(positions@)[k] == positions[k]);
        }
        assert forall|j: int, k: int| 0 <= j < k < positions.len() implies positions[j]
            < positions[k] by {
            assert(as_ints(positions@)[j] == positions[j]);
            assert(as_ints(positions@)[k] == positions[k]);
        }
    }
    positions
}

/// Copies the items of a list at the positions given, in the order of the
/// positions.
pub fn pick<T: Copy>(items: &Vec<T>, positions: &Vec<usize>) -> (chosen: Vec<T>)
    requires
        forall|k: int| 0 <= k < positions.len() ==> positions[k] < items.len(),
    ensures
        chosen@ == picked(items@, as_ints(positions@)),
{
    let mut chosen: Vec<T> = Vec::new();
    let mut k: usize = 0;
    while k < positions.len()
        invariant
            0 <= k <= positions.len(),
            forall|j: int| 0 <= j < positions.len() ==> positions[j] < items.len(),
            chosen@ == picked(items@, as_ints(positions@)).take(k as int),
        decreases positions.len() - k,
    {
        chosen.push(items[positions[k]]);
        assert(chosen@ =~= picked(items@, as_ints(positions@)).take(k + 1));
        k = k + 1;
    }
    assert(chosen@ =~= picked(items@, as_ints(positions@)));
    chosen
}

/// Order is kept: the accepted positions are positions of the list, and
/// they rise, so the accepted attempts stand in the order in which they were
/// submitted, whichever attempts between them are suppressed.
pub proof fn lemma_accepted_in_order(
    records: Map<u32, Timestamp>,
    ids: Seq<u32>,
    retry_delay: u64,
    now: Timestamp,
)
    ensures
        accepted(records, ids, retry_delay, now).len() <= ids.len(),
        forall|k: int|
            0 <= k < accepted(records, ids, retry_delay, now).len() ==> 0 <= (#[trigger] accepted(
                records,
                ids,
                retry_delay,
                now,
            )[k]) < ids.len(),
        forall|j: int, k: int|
            0 <= j < k < accepted(records, ids, retry_delay, now).len() ==> accepted(
                records,
                ids,
                retry_delay,
                now,
            )[j] < accepted(records, ids, retry_delay, now)[k],
    decreases ids.len(),
{
    if ids.len() > 0 {
        lemma_accepted_in_order(records, ids.drop_last(), retry_delay, now);
    }
}

/// A position is accepted exactly if the attempt at it is admissible against
/// the records that the attempts before it have left.
pub proof fn lemma_accepted_positions(
    records: Map<u32, Timestamp>,
    ids: Seq<u32>,
    retry_delay: u64,
    now: Timestamp,
    p: int,
)
    requires
        0 <= p < ids.len(),
    ensures
        accepted(records, ids, retry_delay, now).contains(p) <==> admissible(
            records_after(records, ids.take(p), retry_delay, now),
            ids[p],
            retry_delay,
            now,
        ),
    decreases ids.len(),
{
    let before = ids.drop_last();
    let earlier = accepted(records, before, retry_delay, now);
    let all = accepted(records, ids, retry_delay, now);
    lemma_accepted_in_order(records, before, retry_delay, now);
    if p == ids.len() - 1 {
        assert(ids.take(p) =~= before);
        if admissible(records_after(records, before, retry_delay, now), ids.last(), retry_delay, now) {
            assert(all[all.len() - 1] == p);
        }
    } else {
        lemma_accepted_positions(records, before, retry_delay, now, p);
        assert(before.take(p) =~= ids.take(p));
        if earlier.contains(p) {
            let k = choose|k: int| 0 <= k < earlier.len() && earlier[k] == p;
            assert(all[k] == p);
        }
    }
}

/// What a batch leaves on record for one deposit: where the batch names the
/// deposit and an attempt on it was admissible when the batch came in, the
/// time of the batch; else what was on record before.
pub proof fn lemma_records_after_at(
    records: Map<u32, Timestamp>,
    ids: Seq<u32>,
    retry_delay: u64,
    now: Timestamp,
    id: u32,
)
    ensures
        ids.contains(id) && admissible(records, id, retry_delay, now) ==> {
            &&& records_after(records, ids, retry_delay, now).contains_key(id)
            &&& records_after(records, ids, retry_delay, now)[id] == now
        },
        !(ids.contains(id) && admissible(records, id, retry_delay, now)) ==> {
            &&& records_after(records, ids, retry_delay, now).contains_key(id)
                == records.contains_key(id)
            &&& records.contains_key(id) ==> records_after(records, ids, retry_delay, now)[id]
                == records[id]
        },
    decreases ids.len(),
{
    if ids.len() > 0 {
        let before = ids.drop_last();
        lemma_records_after_at(records, before, retry_delay, now, id);
        lemma_records_after_at(records, before, retry_delay, now, ids.last());
        assert(retry_delay * NANOS_PER_SECOND >= 0);
        if before.contains(id) {
            let j = choose|j: int| 0 <= j < before.len() && before[j] == id;
            assert(ids[j] == id);
        }
        if ids.contains(id) && !before.contains(id) {
            let j = choose|j: int| 0 <= j < ids.len() && ids[j] == id;
            if j < ids.len() - 1 {
                assert(before[j] == id);
            }
            assert(ids.last() == id);
        }
        if ids.last() == id {
            assert(ids[ids.len() - 1] == id);
        }
    }
}

/// An attempt of a batch is accepted exactly if an attempt on its deposit
/// was admissible when the batch came in and no attempt before it in the
/// batch names the same deposit: of several attempts on one deposit in a
/// batch only the first can pass.
pub proof fn lemma_accepted_is_first_admissible(
    records: Map<u32, Timestamp>,
    ids: Seq<u32>,
    retry_delay: u64,
    now: Timestamp,
    p: int,
)
    requires
        0 <= p < ids.len(),
    ensures
        accepted(records, ids, retry_delay, now).contains(p) <==> {
            &&& admissible(records, ids[p], retry_delay, now)
            &&& forall|j: int| 0 <= j < p ==> ids[j] != ids[p]
        },
{
    let before = ids.take(p);
    lemma_accepted_positions(records, ids, retry_delay, now, p);
    lemma_records_after_at(records, before, retry_delay, now, ids[p]);
    assert(retry_delay * NANOS_PER_SECOND >= 0);
    if before.contains(ids[p]) {
        let j = choose|j: int| 0 <= j < before.len() && before[j] == ids[p];
        assert(ids[j] == ids[p]);
    } else {
        assert forall|j: int| 0 <= j < p implies ids[j] != ids[p] by {
            assert(before[j] == ids[j]);
        }
    }
}

/// Where every attempt of a batch is still cooling down, none is accepted
/// and the records stay as they are; and only there is none accepted.
pub proof fn lemma_all_pending(
    records: Map<u32, Timestamp>,
    ids: Seq<u32>,
    retry_delay: u64,
    now: Timestamp,
)
    ensures
        (forall|i: int| 0 <= i < ids.len() ==> !admissible(records, #[trigger] ids[i], retry_delay, now))
            <==> accepted(records, ids, retry_delay, now).len() == 0,
        accepted(records, ids, retry_delay, now).len() == 0 ==> records_after(
            records,
            ids,
            retry_delay,
            now,
        ) == records,
    decreases ids.len(),
{
    if ids.len() > 0 {
        let before = ids.drop_last();
        lemma_all_pending(records, before, retry_delay, now);
        if accepted(records, ids, retry_delay, now).len() == 0 {
            assert(accepted(records, before, retry_delay, now).len() == 0);
            assert forall|i: int| 0 <= i < ids.len() implies !admissible(
                records,
                #[trigger] ids[i],
                retry_delay,
                now,
            ) by {
                if i < ids.len() - 1 {
                    assert(before[i] == ids[i]);
                }
            }
        }
        if forall|i: int| 0 <= i < ids.len() ==> !admissible(records, #[trigger] ids[i], retry_delay, now) {
            assert forall|i: int| 0 <= i < before.len() implies !admissible(
                records,
                #[trigger] before[i],
                retry_delay,
                now,
            ) by {
                assert(before[i] == ids[i]);
            }
            assert(!admissible(records, ids[ids.len() - 1], retry_delay, now));
        }
    }
}

/// Debounce: after an accepted attempt on a deposit at `first`, an attempt
/// on it at `second` is suppressed, and changes nothing, as long as `second`
/// is no more than `retry_delay` seconds after `first`; once more than
/// `retry_delay` seconds have passed it is accepted again.
pub proof fn lemma_debounce(
    records: Map<u32, Timestamp>,
    id: u32,
    retry_delay: u64,
    first: Timestamp,
    second: Timestamp,
)
    requires
        admissible(records, id, retry_delay, first),
    ensures
        accepted(records, seq![id], retry_delay, first) == seq![0int],
        records_after(records, seq![id], retry_delay, first) == records.insert(id, first),
        second.nanos <= first.nanos + retry_delay * NANOS_PER_SECOND ==> {
            &&& accepted(records.insert(id, first), seq![id], retry_delay, second) == Seq::<
                int,
            >::empty()
            &&& records_after(records.insert(id, first), seq![id], retry_delay, second)
                == records.insert(id, first)
        },
        second.nanos > first.nanos + retry_delay * NANOS_PER_SECOND ==> {
            &&& accepted(records.insert(id, first), seq![id], retry_delay, second) == seq![0int]
            &&& records_after(records.insert(id, first), seq![id], retry_delay, second)
                == records.insert(id, second)
        },
{
    let one = seq![id];
    let then = records.insert(id, first);
    assert(one.drop_last() =~= Seq::<u32>::empty());
    assert(one.last() == id);
    assert(records_after(records, one.drop_last(), retry_delay, first) == records);
    assert(records_after(then, one.drop_last(), retry_delay, second) == then);
    assert(accepted(records, one.drop_last(), retry_delay, first) =~= Seq::<int>::empty());
    assert(accepted(then, one.drop_last(), retry_delay, second) =~= Seq::<int>::empty());
    assert(accepted(records, one, retry_delay, first) =~= seq![0int]);
    if second.nanos > first.nanos + retry_delay * NANOS_PER_SECOND {
        assert(accepted(then, one, retry_delay, second) =~= seq![0int]);
        assert(then.insert(id, second) =~= records.insert(id, second));
    } else {
        assert(accepted(then, one, retry_delay, second) =~= Seq::<int>::empty());
    }
}

} // verus!
