//! Sums and counts per asset pair over a series of signals.

use vstd::prelude::*;
use crate::arith::{saturated, saturating_add};
use crate::signal_registry::export::average_roi;
use crate::signal_registry::types::Signal;

verus! {

/// Some signal is for `pair`.
pub open spec fn pair_occurs(chosen: Seq<Signal>, pair: Seq<char>) -> bool {
    exists|k: int| 0 <= k < chosen.len() && (#[trigger] chosen[k]).asset_pair@ == pair
}

/// Number of signals for `pair`.
pub open spec fn pair_count(chosen: Seq<Signal>, pair: Seq<char>) -> int
    decreases chosen.len(),
{
    if chosen.len() == 0 {
        0
    } else {
        pair_count(chosen.drop_last(), pair) + if chosen.last().asset_pair@ == pair {
            1int
        } else {
            0int
        }
    }
}

/// Sum of the average returns of the signals for `pair`, saturated after
/// each addition.
pub open spec fn pair_roi(chosen: Seq<Signal>, pair: Seq<char>) -> int
    decreases chosen.len(),
{
    if chosen.len() == 0 {
        0
    } else if chosen.last().asset_pair@ == pair {
        saturated(pair_roi(chosen.drop_last(), pair) + average_roi(chosen.last()))
    } else {
        pair_roi(chosen.drop_last(), pair)
    }
}

/// A pair's count never exceeds the number of signals; a pair that does not
/// occur has count and sum zero.
pub proof fn lemma_pair_counts(chosen: Seq<Signal>, pair: Seq<char>)
    ensures
        0 <= pair_count(chosen, pair) <= chosen.len(),
        pair_occurs(chosen, pair) <==> pair_count(chosen, pair) > 0,
        !pair_occurs(chosen, pair) ==> pair_roi(chosen, pair) == 0,
    decreases chosen.len(),
{
    if chosen.len() > 0 {
        let front = chosen.drop_last();
        lemma_pair_counts(front, pair);
        if pair_occurs(front, pair) {
            let k = choose|k: int| 0 <= k < front.len() && (#[trigger] front[k]).asset_pair@ == pair;
            assert(chosen[k].asset_pair@ == pair);
        }
        if pair_occurs(chosen, pair) && !pair_occurs(front, pair) {
            let k = choose|k: int|
                0 <= k < chosen.len() && (#[trigger] chosen[k]).asset_pair@ == pair;
            if k < front.len() {
                assert(front[k].asset_pair@ == pair);
            }
        }
        if chosen.last().asset_pair@ == pair {
            assert(chosen[chosen.len() - 1].asset_pair@ == pair);
        }
    }
}

/// What is kept for one asset pair while the signals are read.
#[derive(Debug)]
pub struct PairStat {
    pub pair: String,
    pub roi_sum: i128,
    pub count: u32,
}

/// The entries of `stats` are the pairs of `seen`, each once, with their
/// sums and counts.
pub open spec fn tracks(stats: Seq<PairStat>, seen: Seq<Signal>) -> bool {
    &&& forall|i: int|
        0 <= i < stats.len() ==> {
            &&& pair_occurs(seen, (#[trigger] stats[i]).pair@)
            &&& stats[i].roi_sum == pair_roi(seen, stats[i].pair@)
            &&& stats[i].count == pair_count(seen, stats[i].pair@)
        }
    &&& forall|i: int, j: int|
        0 <= i < stats.len() && 0 <= j < stats.len() && i != j ==> (#[trigger] stats[i]).pair@ != (
        #[trigger] stats[j]).pair@
    &&& forall|k: int|
        0 <= k < seen.len() ==> has_stat(stats, (#[trigger] seen[k]).asset_pair@)
}

/// Some entry of `stats` is for `pair`.
pub open spec fn has_stat(stats: Seq<PairStat>, pair: Seq<char>) -> bool {
    exists|i: int| 0 <= i < stats.len() && (#[trigger] stats[i]).pair@ == pair
}

/// Finds the entry for `pair`.
pub(crate) fn find_stat(stats: &Vec<PairStat>, pair: &String) -> (r: Option<usize>)
    ensures
        r is Some <==> has_stat(stats@, pair@),
        r matches Some(i) ==> i < stats@.len() && stats@[i as int].pair@ == pair@,
{
    let mut i: usize = 0;
    while i < stats.len()
        invariant
            i <= stats@.len(),
            forall|j: int| 0 <= j < i ==> (#[trigger] stats@[j]).pair@ != pair@,
        decreases stats@.len() - i,
    {
        if stats[i].pair == *pair {
            return Some(i);
        }
        i = i + 1;
    }
    None
}

/// Notes one more signal in the entries.
pub(crate) fn note_signal(stats: &mut Vec<PairStat>, signal: &Signal, roi: i128, Ghost(seen): Ghost<Seq<Signal>>)
    requires
        tracks(old(stats)@, seen),
        roi == average_roi(*signal),
        seen.len() < u32::MAX,
    ensures
        tracks(final(stats)@, seen.push(*signal)),
{
    let ghost next = seen.push(*signal);
    let ghost pair = signal.asset_pair@;
    proof {
        assert(next.drop_last() =~= seen);
        assert(next[seen.len() as int].asset_pair@ == pair);
        lemma_pair_counts(seen, pair);
        assert forall|q: Seq<char>| pair_occurs(seen, q) implies pair_occurs(next, q) by {
            let k = choose|k: int| 0 <= k < seen.len() && (#[trigger] seen[k]).asset_pair@ == q;
            assert(next[k].asset_pair@ == q);
        }
    }
    match find_stat(stats, &signal.asset_pair) {
        Some(i) => {
            let entry = &mut stats[i];
            entry.roi_sum = saturating_add(entry.roi_sum, roi);
            entry.count = entry.count + 1;
            proof {
                assert forall|j: int| 0 <= j < stats@.len() implies {
                    &&& pair_occurs(next, (#[trigger] stats@[j]).pair@)
                    &&& stats@[j].roi_sum == pair_roi(next, stats@[j].pair@)
                    &&& stats@[j].count == pair_count(next, stats@[j].pair@)
                } by {
                    assert(stats@[j].pair@ == old(stats)@[j].pair@);
                    assert(pair_occurs(seen, old(stats)@[j].pair@));
                }
                assert forall|a: int, b: int|
                    0 <= a < stats@.len() && 0 <= b < stats@.len() && a != b implies (
                #[trigger] stats@[a]).pair@ != (#[trigger] stats@[b]).pair@ by {
                    assert(stats@[a].pair@ == old(stats)@[a].pair@);
                    assert(stats@[b].pair@ == old(stats)@[b].pair@);
                }
                assert forall|k: int| 0 <= k < next.len() implies has_stat(
                    stats@,
                    (#[trigger] next[k]).asset_pair@,
                ) by {
                    if k < seen.len() {
                        assert(next[k] == seen[k]);
                        let w = choose|w: int|
                            0 <= w < old(stats)@.len() && (#[trigger] old(stats)@[w]).pair@
                                == seen[k].asset_pair@;
                        assert(stats@[w].pair@ == old(stats)@[w].pair@);
                    } else {
                        assert(stats@[i as int].pair@ == pair);
                    }
                }
            }
        },
        None => {
            proof {
                if pair_occurs(seen, pair) {
                    let k = choose|k: int|
                        0 <= k < seen.len() && (#[trigger] seen[k]).asset_pair@ == pair;
                    assert(has_stat(old(stats)@, seen[k].asset_pair@));
                }
            }
            stats.push(
                PairStat {
                    pair: signal.asset_pair.clone(),
                    roi_sum: saturating_add(0, roi),
                    count: 1,
                },
            );
            proof {
                let n = old(stats)@.len() as int;
                assert forall|j: int| 0 <= j < stats@.len() implies {
                    &&& pair_occurs(next, (#[trigger] stats@[j]).pair@)
                    &&& stats@[j].roi_sum == pair_roi(next, stats@[j].pair@)
                    &&& stats@[j].count == pair_count(next, stats@[j].pair@)
                } by {
                    if j < n {
                        assert(stats@[j] == old(stats)@[j]);
                        assert(pair_occurs(seen, old(stats)@[j].pair@));
                        assert(old(stats)@[j].pair@ != pair);
                    }
                }
                assert forall|a: int, b: int|
                    0 <= a < stats@.len() && 0 <= b < stats@.len() && a != b implies (
                #[trigger] stats@[a]).pair@ != (#[trigger] stats@[b]).pair@ by {
                    if a < n {
                        assert(stats@[a] == old(stats)@[a]);
                    }
                    if b < n {
                        assert(stats@[b] == old(stats)@[b]);
                    }
                }
                assert forall|k: int| 0 <= k < next.len() implies has_stat(
                    stats@,
                    (#[trigger] next[k]).asset_pair@,
                ) by {
                    if k < seen.len() {
                        assert(next[k] == seen[k]);
                        let w = choose|w: int|
                            0 <= w < old(stats)@.len() && (#[trigger] old(stats)@[w]).pair@
                                == seen[k].asset_pair@;
                        assert(stats@[w] == old(stats)@[w]);
                    } else {
                        assert(stats@[n].pair@ == pair);
                    }
                }
            }
        },
    }
}

} // verus!
