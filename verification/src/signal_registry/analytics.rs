//! Analytics over the signals of a provider and over all recent signals.

use vstd::prelude::*;
use crate::address::Address;
use crate::arith::{div_by_positive, div_toward_zero, saturated, saturating_add};
use crate::signal_registry::export::average_roi;
use crate::signal_registry::pair_stats::{
    note_signal, pair_count, pair_occurs, pair_roi, tracks, PairStat,
};
use crate::signal_registry::summary::{lifetime, lifetime_total, roi_total};
use crate::signal_registry::types::{Signal, SignalStatus};
use crate::text::{
    comes_before, lemma_text_before_asymmetric, lemma_text_before_irreflexive,
    lemma_text_before_total, lemma_text_before_transitive, text_before,
};

verus! {

/// Fewest signals with which a provider gets analytics.
pub const MIN_SIGNALS_FOR_ANALYTICS: u32 = 10;

/// 24 hours in seconds.
pub const HOURS_24: u64 = 86400;

/// Number of asset pairs in a list of trending assets.
pub const TRENDING_LIMIT: usize = 10;

/// The analytics of one provider.
#[derive(Clone, Debug)]
pub struct ProviderAnalytics {
    pub provider: Address,
    pub total_signals: u32,
    pub avg_roi: i128,
    pub best_asset_pair: String,
    pub best_time_of_day: u32,
    pub win_streak: u32,
    pub avg_signal_lifetime: u64,
    pub follower_growth_rate: i128,
}

/// The analytics of all providers together.
#[derive(Clone, Debug)]
pub struct GlobalAnalytics {
    pub total_signals_24h: u32,
    pub most_traded_pairs: Vec<(String, u32)>,
    pub avg_success_rate: u32,
    pub total_volume_24h: i128,
}

// ----- selection -----

/// The signals of `provider`, in order.
pub open spec fn signals_of(signals: Seq<Signal>, provider: Address) -> Seq<Signal>
    decreases signals.len(),
{
    if signals.len() == 0 {
        Seq::empty()
    } else if signals.last().provider == provider {
        signals_of(signals.drop_last(), provider).push(signals.last())
    } else {
        signals_of(signals.drop_last(), provider)
    }
}

/// The signals that were traded at least once, in order.
pub open spec fn executed_of(signals: Seq<Signal>) -> Seq<Signal>
    decreases signals.len(),
{
    if signals.len() == 0 {
        Seq::empty()
    } else if signals.last().executions > 0 {
        executed_of(signals.drop_last()).push(signals.last())
    } else {
        executed_of(signals.drop_last())
    }
}

/// The signals created at `cutoff` or later, in order.
pub open spec fn recent_of(signals: Seq<Signal>, cutoff: u64) -> Seq<Signal>
    decreases signals.len(),
{
    if signals.len() == 0 {
        Seq::empty()
    } else if signals.last().timestamp >= cutoff {
        recent_of(signals.drop_last(), cutoff).push(signals.last())
    } else {
        recent_of(signals.drop_last(), cutoff)
    }
}

/// A selection is no longer than what it was selected from.
proof fn lemma_selection_len(signals: Seq<Signal>, provider: Address, cutoff: u64)
    ensures
        signals_of(signals, provider).len() <= signals.len(),
        executed_of(signals).len() <= signals.len(),
        recent_of(signals, cutoff).len() <= signals.len(),
    decreases signals.len(),
{
    if signals.len() > 0 {
        lemma_selection_len(signals.drop_last(), provider, cutoff);
    }
}

/// A copy of `signal`.
fn copy_signal(signal: &Signal) -> (copy: Signal)
    ensures
        copy == *signal,
{
    Signal {
        id: signal.id,
        provider: signal.provider,
        asset_pair: signal.asset_pair.clone(),
        action: signal.action,
        price: signal.price,
        rationale: signal.rationale.clone(),
        timestamp: signal.timestamp,
        expiry: signal.expiry,
        status: signal.status,
        executions: signal.executions,
        total_roi: signal.total_roi,
        total_volume: signal.total_volume,
    }
}

/// The signals of `provider`, in order.
pub fn get_provider_signals(signals: &Vec<Signal>, provider: &Address) -> (own: Vec<Signal>)
    ensures
        own@ == signals_of(signals@, *provider),
{
    let n = signals.len();
    let mut own: Vec<Signal> = Vec::new();
    let mut i: usize = 0;
    while i < n
        invariant
            n == signals@.len(),
            i <= n,
            own@ == signals_of(signals@.take(i as int), *provider),
        decreases n - i,
    {
        proof {
            assert(signals@.take(i + 1).drop_last() =~= signals@.take(i as int));
        }
        if signals[i].provider == *provider {
            own.push(copy_signal(&signals[i]));
        }
        i = i + 1;
    }
    assert(signals@.take(n as int) =~= signals@);
    own
}

// ----- averages -----

/// Number of signals that were traded at least once.
pub open spec fn executed_count(signals: Seq<Signal>) -> int
    decreases signals.len(),
{
    if signals.len() == 0 {
        0
    } else {
        executed_count(signals.drop_last()) + if signals.last().executions > 0 {
            1int
        } else {
            0int
        }
    }
}

/// The mean of the average returns of the traded signals, rounded toward
/// zero; zero if none was traded.
pub open spec fn mean_roi(signals: Seq<Signal>) -> int {
    if executed_count(signals) > 0 {
        div_toward_zero(roi_total(signals), executed_count(signals))
    } else {
        0
    }
}

/// The mean lifetime of the signals; zero if there are none.
pub open spec fn mean_lifetime(signals: Seq<Signal>) -> int {
    if signals.len() > 0 {
        lifetime_total(signals) / (signals.len() as int)
    } else {
        0
    }
}

/// The average return of the trades on a signal.
fn signal_roi(signal: &Signal) -> (r: i128)
    ensures
        r == average_roi(*signal),
{
    if signal.executions > 0 {
        div_by_positive(signal.total_roi, signal.executions as i128)
    } else {
        0
    }
}

/// The mean of the average returns of the traded signals.
pub fn calculate_avg_roi(signals: &Vec<Signal>) -> (avg: i128)
    requires
        signals@.len() <= u32::MAX,
    ensures
        avg == mean_roi(signals@),
{
    let n = signals.len();
    let mut total: i128 = 0;
    let mut count: u32 = 0;
    let mut i: usize = 0;
    while i < n
        invariant
            n == signals@.len(),
            n <= u32::MAX,
            i <= n,
            total == roi_total(signals@.take(i as int)),
            count == executed_count(signals@.take(i as int)),
            count <= i,
        decreases n - i,
    {
        proof {
            assert(signals@.take(i + 1).drop_last() =~= signals@.take(i as int));
        }
        if signals[i].executions > 0 {
            total = saturating_add(total, signal_roi(&signals[i]));
            count = count + 1;
        }
        i = i + 1;
    }
    assert(signals@.take(n as int) =~= signals@);
    if count > 0 {
        div_by_positive(total, count as i128)
    } else {
        0
    }
}

/// The mean lifetime of the signals.
pub fn calculate_avg_lifetime(signals: &Vec<Signal>) -> (avg: u64)
    ensures
        avg == mean_lifetime(signals@),
{
    let n = signals.len();
    if n == 0 {
        return 0;
    }
    let mut total: u64 = 0;
    let mut i: usize = 0;
    while i < n
        invariant
            n == signals@.len(),
            i <= n,
            total == lifetime_total(signals@.take(i as int)),
        decreases n - i,
    {
        proof {
            assert(signals@.take(i + 1).drop_last() =~= signals@.take(i as int));
        }
        let age: u64 = if signals[i].expiry >= signals[i].timestamp {
            signals[i].expiry - signals[i].timestamp
        } else {
            0
        };
        total = if age > u64::MAX - total {
            u64::MAX
        } else {
            total + age
        };
        i = i + 1;
    }
    assert(signals@.take(n as int) =~= signals@);
    total / (n as u64)
}

/// The growth of a provider's following: its current size.
pub fn calculate_follower_growth(follower_count: u32) -> (growth: i128)
    ensures
        growth == follower_count,
{
    follower_count as i128
}

// ----- streaks -----

/// The number of successes at the end of the series since the last
/// failure; signals that are neither do not count and do not interrupt.
pub open spec fn running_streak(signals: Seq<Signal>) -> int
    decreases signals.len(),
{
    if signals.len() == 0 {
        0
    } else if signals.last().status == SignalStatus::Successful {
        running_streak(signals.drop_last()) + 1
    } else if signals.last().status == SignalStatus::Failed {
        0
    } else {
        running_streak(signals.drop_last())
    }
}

/// The longest run of successes without a failure in between.
pub open spec fn longest_streak(signals: Seq<Signal>) -> int
    decreases signals.len(),
{
    if signals.len() == 0 {
        0
    } else if running_streak(signals) > longest_streak(signals.drop_last()) {
        running_streak(signals)
    } else {
        longest_streak(signals.drop_last())
    }
}

/// No streak is longer than the series.
proof fn lemma_streaks(signals: Seq<Signal>)
    ensures
        0 <= running_streak(signals) <= signals.len(),
        0 <= longest_streak(signals) <= signals.len(),
    decreases signals.len(),
{
    if signals.len() > 0 {
        lemma_streaks(signals.drop_last());
    }
}

/// The longest run of successful signals without a failed one in between.
pub fn calculate_win_streak(signals: &Vec<Signal>) -> (best: u32)
    requires
        signals@.len() <= u32::MAX,
    ensures
        best == longest_streak(signals@),
{
    let n = signals.len();
    let mut streak: u32 = 0;
    let mut max_streak: u32 = 0;
    let mut i: usize = 0;
    while i < n
        invariant
            n == signals@.len(),
            n <= u32::MAX,
            i <= n,
            streak == running_streak(signals@.take(i as int)),
            max_streak == longest_streak(signals@.take(i as int)),
        decreases n - i,
    {
        proof {
            assert(signals@.take(i + 1).drop_last() =~= signals@.take(i as int));
            lemma_streaks(signals@.take(i as int));
        }
        if signals[i].status == SignalStatus::Successful {
            streak = streak + 1;
            if streak > max_streak {
                max_streak = streak;
            }
        } else if signals[i].status == SignalStatus::Failed {
            streak = 0;
        }
        i = i + 1;
    }
    assert(signals@.take(n as int) =~= signals@);
    max_streak
}

// ----- best asset pair -----

/// `pair` was traded and its sum of average returns is above the lowest
/// number.
pub open spec fn pair_eligible(executed: Seq<Signal>, pair: Seq<char>) -> bool {
    pair_occurs(executed, pair) && pair_roi(executed, pair) > i128::MIN
}

/// Some pair is eligible.
pub open spec fn some_pair_eligible(executed: Seq<Signal>) -> bool {
    exists|k: int|
        0 <= k < executed.len() && pair_eligible(executed, (#[trigger] executed[k]).asset_pair@)
}

/// `pair` has the highest sum of average returns among the eligible pairs;
/// among pairs with the same sum it is the first in the order of texts.
pub open spec fn is_top_pair(executed: Seq<Signal>, pair: Seq<char>) -> bool {
    &&& pair_eligible(executed, pair)
    &&& forall|k: int|
        0 <= k < executed.len() ==> {
            let other = (#[trigger] executed[k]).asset_pair@;
            !pair_eligible(executed, other) || pair_roi(executed, other) < pair_roi(
                executed,
                pair,
            ) || (pair_roi(executed, other) == pair_roi(executed, pair) && !text_before(
                other,
                pair,
            ))
        }
}

/// `best` names the top pair of the traded signals, or is empty if no pair
/// is eligible.
pub open spec fn names_best_pair(signals: Seq<Signal>, best: Seq<char>) -> bool {
    if some_pair_eligible(executed_of(signals)) {
        is_top_pair(executed_of(signals), best)
    } else {
        best == Seq::<char>::empty()
    }
}

/// `a` is a better choice for the top pair than `b`, or the same, or `b`
/// is not eligible.
spec fn tops(a: PairStat, b: PairStat) -> bool {
    b.roi_sum == i128::MIN || b.roi_sum < a.roi_sum || (b.roi_sum == a.roi_sum && !text_before(
        b.pair@,
        a.pair@,
    ))
}

/// The asset pair with the highest sum of average returns over the traded
/// signals, or the empty text.
pub fn find_best_asset_pair(signals: &Vec<Signal>) -> (best: String)
    requires
        signals@.len() <= u32::MAX,
    ensures
        names_best_pair(signals@, best@),
{
    let n = signals.len();
    let ghost executed = executed_of(signals@);
    let mut stats: Vec<PairStat> = Vec::new();
    let mut i: usize = 0;
    while i < n
        invariant
            n == signals@.len(),
            n <= u32::MAX,
            i <= n,
            tracks(stats@, executed_of(signals@.take(i as int))),
        decreases n - i,
    {
        proof {
            assert(signals@.take(i + 1).drop_last() =~= signals@.take(i as int));
            lemma_selection_len(signals@.take(i as int), signals@[0].provider, 0);
        }
        if signals[i].executions > 0 {
            let roi = signal_roi(&signals[i]);
            note_signal(
                &mut stats,
                &signals[i],
                roi,
                Ghost(executed_of(signals@.take(i as int))),
            );
        }
        i = i + 1;
    }
    assert(signals@.take(n as int) =~= signals@);
    let mut best: Option<usize> = None;
    let mut j: usize = 0;
    while j < stats.len()
        invariant
            j <= stats@.len(),
            tracks(stats@, executed),
            best matches Some(b) ==> b < j && stats@[b as int].roi_sum > i128::MIN,
            best matches Some(b) ==> forall|k: int|
                0 <= k < j ==> tops(stats@[b as int], #[trigger] stats@[k]),
            best is None ==> forall|k: int|
                0 <= k < j ==> (#[trigger] stats@[k]).roi_sum == i128::MIN,
        decreases stats@.len() - j,
    {
        proof {
            lemma_text_before_irreflexive(stats@[j as int].pair@);
        }
        if stats[j].roi_sum > i128::MIN {
            match best {
                None => {
                    best = Some(j);
                },
                Some(b) => {
                    if stats[j].roi_sum > stats[b].roi_sum || (stats[j].roi_sum
                        == stats[b].roi_sum && comes_before(
                        stats[j].pair.as_str(),
                        stats[b].pair.as_str(),
                    )) {
                        proof {
                            let old_best = stats@[b as int];
                            let new_best = stats@[j as int];
                            if new_best.roi_sum == old_best.roi_sum {
                                lemma_text_before_asymmetric(new_best.pair@, old_best.pair@);
                            }
                            assert forall|k: int| 0 <= k <= j implies tops(
                                new_best,
                                #[trigger] stats@[k],
                            ) by {
                                if k < j {
                                    assert(tops(old_best, stats@[k]));
                                    if new_best.roi_sum == old_best.roi_sum && text_before(
                                        stats@[k].pair@,
                                        new_best.pair@,
                                    ) {
                                        lemma_text_before_transitive(
                                            stats@[k].pair@,
                                            new_best.pair@,
                                            old_best.pair@,
                                        );
                                    }
                                }
                            }
                        }
                        best = Some(j);
                    }
                },
            }
        }
        j = j + 1;
    }
    match best {
        Some(b) => {
            proof {
                let top = stats@[b as int];
                assert forall|k: int| 0 <= k < executed.len() implies {
                    let other = (#[trigger] executed[k]).asset_pair@;
                    !pair_eligible(executed, other) || pair_roi(executed, other) < pair_roi(
                        executed,
                        top.pair@,
                    ) || (pair_roi(executed, other) == pair_roi(executed, top.pair@)
                        && !text_before(other, top.pair@))
                } by {
                    let w = choose|w: int|
                        0 <= w < stats@.len() && (#[trigger] stats@[w]).pair@
                            == executed[k].asset_pair@;
                    assert(tops(top, stats@[w]));
                }
                let at = choose|at: int|
                    0 <= at < executed.len() && (#[trigger] executed[at]).asset_pair@ == top.pair@;
                assert(pair_eligible(executed, executed[at].asset_pair@));
            }
            stats[b].pair.clone()
        },
        None => {
            proof {
                if some_pair_eligible(executed) {
                    let k = choose|k: int|
                        0 <= k < executed.len() && pair_eligible(
                            executed,
                            (#[trigger] executed[k]).asset_pair@,
                        );
                    let w = choose|w: int|
                        0 <= w < stats@.len() && (#[trigger] stats@[w]).pair@
                            == executed[k].asset_pair@;
                    assert(stats@[w].roi_sum == i128::MIN);
                }
            }
            String::new()
        },
    }
}

// ----- best time of day -----

/// The hour of the day at which a signal was created, from 0 to 23.
pub open spec fn hour_of(signal: Signal) -> int {
    (signal.timestamp % HOURS_24) as int / 3600
}

/// The signal was traded and created in hour `hour`.
pub open spec fn counts_for_hour(signal: Signal, hour: int) -> bool {
    signal.executions > 0 && hour_of(signal) == hour
}

/// Sum of the average returns of the traded signals of `hour`, saturated
/// after each addition.
pub open spec fn hour_roi(signals: Seq<Signal>, hour: int) -> int
    decreases signals.len(),
{
    if signals.len() == 0 {
        0
    } else if counts_for_hour(signals.last(), hour) {
        saturated(hour_roi(signals.drop_last(), hour) + average_roi(signals.last()))
    } else {
        hour_roi(signals.drop_last(), hour)
    }
}

/// Number of traded signals of `hour`.
pub open spec fn hour_count(signals: Seq<Signal>, hour: int) -> int
    decreases signals.len(),
{
    if signals.len() == 0 {
        0
    } else {
        hour_count(signals.drop_last(), hour) + if counts_for_hour(signals.last(), hour) {
            1int
        } else {
            0int
        }
    }
}

/// The mean of the average returns of the traded signals of `hour`.
pub open spec fn hour_average(signals: Seq<Signal>, hour: int) -> int {
    div_toward_zero(hour_roi(signals, hour), hour_count(signals, hour))
}

/// Signals were traded in `hour` and their mean is above the lowest number.
pub open spec fn hour_eligible(signals: Seq<Signal>, hour: int) -> bool {
    hour_count(signals, hour) > 0 && hour_average(signals, hour) > i128::MIN
}

/// `hour` has the highest mean among the eligible hours and is the earliest
/// hour that has it; or no hour is eligible and `hour` is 0.
pub open spec fn is_best_hour(signals: Seq<Signal>, hour: int) -> bool {
    &&& 0 <= hour < 24
    &&& forall|g: int| 0 <= g < 24 ==> !hour_eligible(signals, g) || hour_eligible(signals, hour)
    &&& hour_eligible(signals, hour) ==> forall|g: int|
        0 <= g < 24 && #[trigger] hour_eligible(signals, g) ==> hour_average(signals, g)
            < hour_average(signals, hour) || (hour_average(signals, g) == hour_average(
            signals,
            hour,
        ) && g >= hour)
    &&& !hour_eligible(signals, hour) ==> hour == 0
}

/// Hour counts stay within the number of signals.
proof fn lemma_hour_count(signals: Seq<Signal>, hour: int)
    ensures
        0 <= hour_count(signals, hour) <= signals.len(),
        i128::MIN <= hour_roi(signals, hour) <= i128::MAX,
    decreases signals.len(),
{
    if signals.len() > 0 {
        lemma_hour_count(signals.drop_last(), hour);
    }
}

/// The hour of the day whose traded signals have the best mean return.
pub fn find_best_time_of_day(signals: &Vec<Signal>) -> (best_hour: u32)
    requires
        signals@.len() <= u32::MAX,
    ensures
        is_best_hour(signals@, best_hour as int),
{
    let n = signals.len();
    let mut sums: [i128; 24] = [0i128; 24];
    let mut counts: [u32; 24] = [0u32; 24];
    let mut i: usize = 0;
    while i < n
        invariant
            n == signals@.len(),
            n <= u32::MAX,
            i <= n,
            forall|h: int|
                0 <= h < 24 ==> (#[trigger] sums@[h]) == hour_roi(signals@.take(i as int), h),
            forall|h: int|
                0 <= h < 24 ==> (#[trigger] counts@[h]) == hour_count(signals@.take(i as int), h),
        decreases n - i,
    {
        proof {
            assert(signals@.take(i + 1).drop_last() =~= signals@.take(i as int));
            assert forall|h: int| 0 <= h < 24 implies hour_count(signals@.take(i as int), h)
                <= i by {
                lemma_hour_count(signals@.take(i as int), h);
            }
        }
        if signals[i].executions > 0 {
            let hour = ((signals[i].timestamp % HOURS_24) / 3600) as usize;
            let roi = signal_roi(&signals[i]);
            let sum = saturating_add(sums[hour], roi);
            let count = counts[hour] + 1;
            sums[hour] = sum;
            counts[hour] = count;
        }
        i = i + 1;
    }
    assert(signals@.take(n as int) =~= signals@);
    let mut best_hour: u32 = 0;
    let mut best_avg: i128 = i128::MIN;
    let mut h: usize = 0;
    while h < 24
        invariant
            h <= 24,
            best_hour < 24,
            forall|g: int| 0 <= g < 24 ==> (#[trigger] sums@[g]) == hour_roi(signals@, g),
            forall|g: int| 0 <= g < 24 ==> (#[trigger] counts@[g]) == hour_count(signals@, g),
            best_avg > i128::MIN ==> best_hour < h && hour_eligible(signals@, best_hour as int)
                && best_avg == hour_average(signals@, best_hour as int),
            best_avg == i128::MIN ==> best_hour == 0 && forall|g: int|
                0 <= g < h ==> !#[trigger] hour_eligible(signals@, g),
            best_avg > i128::MIN ==> forall|g: int|
                0 <= g < h && #[trigger] hour_eligible(signals@, g) ==> hour_average(signals@, g)
                    < best_avg || (hour_average(signals@, g) == best_avg && g >= best_hour),
        decreases 24 - h,
    {
        if counts[h] > 0 {
            let avg = div_by_positive(sums[h], counts[h] as i128);
            if avg > best_avg {
                best_avg = avg;
                best_hour = h as u32;
            }
        }
        h = h + 1;
    }
    best_hour
}

// ----- trending assets -----

/// A pair with `count_a` signals trends before one with `count_b`: it has
/// more signals, or as many and comes first in the order of texts.
pub open spec fn trends_before(count_a: int, pair_a: Seq<char>, count_b: int, pair_b: Seq<char>) -> bool {
    count_a > count_b || (count_a == count_b && text_before(pair_a, pair_b))
}

/// `pair` is in the list.
pub open spec fn listed(list: Seq<(String, u32)>, pair: Seq<char>) -> bool {
    exists|i: int| 0 <= i < list.len() && (#[trigger] list[i]).0@ == pair
}

/// `list` holds the up to ten asset pairs with the most signals among
/// `recent`, each with its number of signals, the pair with the most first.
pub open spec fn is_trending(recent: Seq<Signal>, list: Seq<(String, u32)>) -> bool {
    &&& list.len() <= TRENDING_LIMIT
    &&& forall|i: int|
        0 <= i < list.len() ==> pair_occurs(recent, (#[trigger] list[i]).0@) && list[i].1
            == pair_count(recent, list[i].0@)
    &&& forall|i: int, j: int|
        0 <= i < j < list.len() ==> trends_before(
            (#[trigger] list[i]).1 as int,
            list[i].0@,
            (#[trigger] list[j]).1 as int,
            list[j].0@,
        )
    &&& forall|k: int|
        0 <= k < recent.len() ==> listed(list, (#[trigger] recent[k]).asset_pair@) || (list.len()
            == TRENDING_LIMIT && trends_before(
            list[TRENDING_LIMIT - 1].1 as int,
            list[TRENDING_LIMIT - 1].0@,
            pair_count(recent, recent[k].asset_pair@),
            recent[k].asset_pair@,
        ))
}

/// The start of the window of `window_hours` hours that ends at `now`.
pub open spec fn window_start(now: u64, window_hours: u64) -> u64 {
    if now >= window_hours * 3600 {
        (now - window_hours * 3600) as u64
    } else {
        0
    }
}

/// One entry trends before another.
spec fn stat_trends_before(a: PairStat, b: PairStat) -> bool {
    trends_before(a.count as int, a.pair@, b.count as int, b.pair@)
}

/// Position `w` occurs in `order`.
spec fn holds_position(order: Seq<usize>, w: int) -> bool {
    exists|a: int| 0 <= a < order.len() && #[trigger] order[a] == w
}

/// Whether one entry trends before another.
fn stat_before(a: &PairStat, b: &PairStat) -> (r: bool)
    ensures
        r == stat_trends_before(*a, *b),
{
    a.count > b.count || (a.count == b.count && comes_before(a.pair.as_str(), b.pair.as_str()))
}

/// Positions of the entries of `stats` in trending order.
fn trending_order(stats: &Vec<PairStat>) -> (order: Vec<usize>)
    requires
        forall|i: int, j: int|
            0 <= i < stats@.len() && 0 <= j < stats@.len() && i != j ==> (
            #[trigger] stats@[i]).pair@ != (#[trigger] stats@[j]).pair@,
    ensures
        order@.len() == stats@.len(),
        forall|a: int| 0 <= a < order@.len() ==> (#[trigger] order@[a]) < stats@.len(),
        forall|w: int| 0 <= w < stats@.len() ==> #[trigger] holds_position(order@, w),
        forall|a: int, b: int|
            0 <= a < b < order@.len() ==> stat_trends_before(
                stats@[(#[trigger] order@[a]) as int],
                stats@[(#[trigger] order@[b]) as int],
            ),
{
    let n = stats.len();
    let mut order: Vec<usize> = Vec::new();
    let mut m: usize = 0;
    while m < n
        invariant
            n == stats@.len(),
            m <= n,
            order@.len() == m,
            forall|i: int, j: int|
                0 <= i < stats@.len() && 0 <= j < stats@.len() && i != j ==> (
                #[trigger] stats@[i]).pair@ != (#[trigger] stats@[j]).pair@,
            forall|a: int| 0 <= a < order@.len() ==> (#[trigger] order@[a]) < m,
            forall|w: int| 0 <= w < m ==> #[trigger] holds_position(order@, w),
            forall|a: int, b: int|
                0 <= a < b < order@.len() ==> stat_trends_before(
                    stats@[(#[trigger] order@[a]) as int],
                    stats@[(#[trigger] order@[b]) as int],
                ),
        decreases n - m,
    {
        let mut at: usize = order.len();
        while at > 0 && stat_before(&stats[m], &stats[order[at - 1]])
            invariant
                at <= order@.len(),
                order@.len() == m,
                m < stats@.len(),
                forall|a: int| 0 <= a < order@.len() ==> (#[trigger] order@[a]) < m,
                forall|k: int|
                    at <= k < order@.len() ==> stat_trends_before(
                        stats@[m as int],
                        stats@[(#[trigger] order@[k]) as int],
                    ),
            decreases at,
        {
            at = at - 1;
        }
        let ghost before = order@;
        order.insert(at, m);
        proof {
            let entry = stats@[m as int];
            assert forall|a: int, b: int| 0 <= a < b < order@.len() implies stat_trends_before(
                stats@[(#[trigger] order@[a]) as int],
                stats@[(#[trigger] order@[b]) as int],
            ) by {
                let ia = if a < at {
                    a
                } else {
                    a - 1
                };
                let ib = if b < at {
                    b
                } else {
                    b - 1
                };
                if a == at {
                    assert(order@[b] == before[ib]);
                } else if b == at {
                    assert(order@[a] == before[a]);
                    let last = stats@[before[at - 1] as int];
                    assert(!stat_trends_before(entry, last));
                    assert(before[at - 1] < m);
                    lemma_text_before_total(last.pair@, entry.pair@);
                    assert(stat_trends_before(last, entry));
                    if a < at - 1 {
                        let earlier = stats@[before[a] as int];
                        assert(stat_trends_before(earlier, last));
                        if earlier.count == last.count && last.count == entry.count {
                            lemma_text_before_transitive(earlier.pair@, last.pair@, entry.pair@);
                        }
                    }
                } else {
                    assert(order@[a] == before[ia]);
                    assert(order@[b] == before[ib]);
                }
            }
            assert forall|w: int| 0 <= w < m + 1 implies #[trigger] holds_position(
                order@,
                w,
            ) by {
                if w == m {
                    assert(order@[at as int] == m);
                } else {
                    assert(holds_position(before, w));
                    let a = choose|a: int| 0 <= a < before.len() && #[trigger] before[a] == w;
                    if a < at {
                        assert(order@[a] == w);
                    } else {
                        assert(order@[a + 1] == w);
                    }
                }
            }
            assert forall|a: int| 0 <= a < order@.len() implies (#[trigger] order@[a]) < m + 1 by {
                if a < at {
                    assert(order@[a] == before[a]);
                } else if a > at {
                    assert(order@[a] == before[a - 1]);
                }
            }
        }
        m = m + 1;
    }
    order
}

/// The up to ten asset pairs with the most signals in the `window_hours`
/// hours before `now`, each with its number of signals, the pair with the
/// most first.
pub fn get_trending_assets(signals: &Vec<Signal>, window_hours: u64, now: u64) -> (trending: Vec<
    (String, u32),
>)
    requires
        signals@.len() <= u32::MAX,
        window_hours * 3600 <= u64::MAX,
    ensures
        is_trending(recent_of(signals@, window_start(now, window_hours)), trending@),
{
    let span = window_hours * 3600;
    let cutoff: u64 = if now >= span {
        now - span
    } else {
        0
    };
    let ghost recent = recent_of(signals@, cutoff);
    let n = signals.len();
    let mut stats: Vec<PairStat> = Vec::new();
    let mut i: usize = 0;
    while i < n
        invariant
            n == signals@.len(),
            n <= u32::MAX,
            i <= n,
            tracks(stats@, recent_of(signals@.take(i as int), cutoff)),
        decreases n - i,
    {
        proof {
            assert(signals@.take(i + 1).drop_last() =~= signals@.take(i as int));
            lemma_selection_len(signals@.take(i as int), signals@[0].provider, cutoff);
        }
        if signals[i].timestamp >= cutoff {
            let roi = signal_roi(&signals[i]);
            note_signal(
                &mut stats,
                &signals[i],
                roi,
                Ghost(recent_of(signals@.take(i as int), cutoff)),
            );
        }
        i = i + 1;
    }
    assert(signals@.take(n as int) =~= signals@);
    let order = trending_order(&stats);
    let take: usize = if order.len() < TRENDING_LIMIT {
        order.len()
    } else {
        TRENDING_LIMIT
    };
    let mut trending: Vec<(String, u32)> = Vec::new();
    let mut k: usize = 0;
    while k < take
        invariant
            take <= order@.len(),
            take <= TRENDING_LIMIT,
            k <= take,
            trending@.len() == k,
            order@.len() == stats@.len(),
            forall|a: int| 0 <= a < order@.len() ==> (#[trigger] order@[a]) < stats@.len(),
            forall|a: int|
                0 <= a < k ==> (#[trigger] trending@[a]).0@ == stats@[order@[a] as int].pair@
                    && trending@[a].1 == stats@[order@[a] as int].count,
        decreases take - k,
    {
        let entry = &stats[order[k]];
        trending.push((entry.pair.clone(), entry.count));
        k = k + 1;
    }
    proof {
        assert forall|a: int| 0 <= a < trending@.len() implies pair_occurs(
            recent,
            (#[trigger] trending@[a]).0@,
        ) && trending@[a].1 == pair_count(recent, trending@[a].0@) by {
            let w = order@[a] as int;
            assert(pair_occurs(recent, stats@[w].pair@));
        }
        assert forall|a: int, b: int| 0 <= a < b < trending@.len() implies trends_before(
            (#[trigger] trending@[a]).1 as int,
            trending@[a].0@,
            (#[trigger] trending@[b]).1 as int,
            trending@[b].0@,
        ) by {
            assert(stat_trends_before(stats@[order@[a] as int], stats@[order@[b] as int]));
        }
        assert forall|j: int| 0 <= j < recent.len() implies listed(
            trending@,
            (#[trigger] recent[j]).asset_pair@,
        ) || (trending@.len() == TRENDING_LIMIT && trends_before(
            trending@[TRENDING_LIMIT - 1].1 as int,
            trending@[TRENDING_LIMIT - 1].0@,
            pair_count(recent, recent[j].asset_pair@),
            recent[j].asset_pair@,
        )) by {
            let w = choose|w: int|
                0 <= w < stats@.len() && (#[trigger] stats@[w]).pair@ == recent[j].asset_pair@;
            assert(holds_position(order@, w));
            let a = choose|a: int| 0 <= a < order@.len() && #[trigger] order@[a] == w;
            if a < take {
                assert(trending@[a].0@ == recent[j].asset_pair@);
            } else {
                assert(stat_trends_before(
                    stats@[order@[TRENDING_LIMIT - 1] as int],
                    stats@[order@[a] as int],
                ));
            }
        }
    }
    trending
}

// ----- all providers together -----

/// Number of signals with a final outcome.
pub open spec fn settled_count(signals: Seq<Signal>) -> int
    decreases signals.len(),
{
    if signals.len() == 0 {
        0
    } else {
        settled_count(signals.drop_last()) + if signals.last().status == SignalStatus::Successful
            || signals.last().status == SignalStatus::Failed {
            1int
        } else {
            0int
        }
    }
}

/// Number of successful signals.
pub open spec fn success_count(signals: Seq<Signal>) -> int
    decreases signals.len(),
{
    if signals.len() == 0 {
        0
    } else {
        success_count(signals.drop_last()) + if signals.last().status == SignalStatus::Successful {
            1int
        } else {
            0int
        }
    }
}

/// Sum of the volumes of the signals, saturated after each addition.
pub open spec fn volume_sum(signals: Seq<Signal>) -> int
    decreases signals.len(),
{
    if signals.len() == 0 {
        0
    } else {
        saturated(volume_sum(signals.drop_last()) + signals.last().total_volume)
    }
}

/// The share of successful signals among the settled ones in basis points;
/// zero if none is settled.
pub open spec fn success_rate(signals: Seq<Signal>) -> int {
    if settled_count(signals) > 0 {
        success_count(signals) * 10_000 / settled_count(signals)
    } else {
        0
    }
}

/// The figures in `analytics` are those of `signals` at time `now`.
pub open spec fn analyses_all(analytics: GlobalAnalytics, signals: Seq<Signal>, now: u64) -> bool {
    &&& analytics.total_signals_24h == recent_of(signals, window_start(now, 24)).len()
    &&& analytics.total_volume_24h == volume_sum(recent_of(signals, window_start(now, 24)))
    &&& analytics.avg_success_rate == success_rate(signals)
    &&& is_trending(recent_of(signals, window_start(now, 24)), analytics.most_traded_pairs@)
}

/// Successes are among the settled, and the settled among all.
proof fn lemma_settled(signals: Seq<Signal>)
    ensures
        0 <= success_count(signals) <= settled_count(signals) <= signals.len(),
    decreases signals.len(),
{
    if signals.len() > 0 {
        lemma_settled(signals.drop_last());
    }
}

/// Analytics over all signals: the number and volume of the signals of the
/// last 24 hours, the pairs traded most in that time, and the share of
/// successful signals among all settled ones.
pub fn calculate_global_analytics(signals: &Vec<Signal>, now: u64) -> (analytics: GlobalAnalytics)
    requires
        signals@.len() * 10_000 <= u32::MAX,
    ensures
        analyses_all(analytics, signals@, now),
{
    let cutoff: u64 = if now >= HOURS_24 {
        now - HOURS_24
    } else {
        0
    };
    let n = signals.len();
    let mut total_signals_24h: u32 = 0;
    let mut total_volume_24h: i128 = 0;
    let mut successful: u32 = 0;
    let mut terminal: u32 = 0;
    let mut i: usize = 0;
    while i < n
        invariant
            n == signals@.len(),
            n * 10_000 <= u32::MAX,
            i <= n,
            total_signals_24h == recent_of(signals@.take(i as int), cutoff).len(),
            total_volume_24h == volume_sum(recent_of(signals@.take(i as int), cutoff)),
            successful == success_count(signals@.take(i as int)),
            terminal == settled_count(signals@.take(i as int)),
        decreases n - i,
    {
        proof {
            assert(signals@.take(i + 1).drop_last() =~= signals@.take(i as int));
            lemma_selection_len(signals@.take(i as int), signals@[0].provider, cutoff);
            lemma_settled(signals@.take(i as int));
            let earlier = recent_of(signals@.take(i as int), cutoff);
            assert(earlier.push(signals@[i as int]).drop_last() =~= earlier);
        }
        let signal = &signals[i];
        if signal.timestamp >= cutoff {
            total_signals_24h = total_signals_24h + 1;
            total_volume_24h = saturating_add(total_volume_24h, signal.total_volume);
        }
        if signal.status == SignalStatus::Successful || signal.status == SignalStatus::Failed {
            terminal = terminal + 1;
            if signal.status == SignalStatus::Successful {
                successful = successful + 1;
            }
        }
        i = i + 1;
    }
    proof {
        assert(signals@.take(n as int) =~= signals@);
        lemma_settled(signals@);
    }
    let avg_success_rate: u32 = if terminal > 0 {
        (successful * 10000) / terminal
    } else {
        0
    };
    GlobalAnalytics {
        total_signals_24h,
        most_traded_pairs: get_trending_assets(signals, 24, now),
        avg_success_rate,
        total_volume_24h,
    }
}

// ----- one provider -----

/// The figures in `analytics` are those of the signals `own` of `provider`.
pub open spec fn analyses(
    analytics: ProviderAnalytics,
    own: Seq<Signal>,
    provider: Address,
    follower_count: u32,
) -> bool {
    &&& analytics.provider == provider
    &&& analytics.total_signals == own.len()
    &&& analytics.avg_roi == mean_roi(own)
    &&& names_best_pair(own, analytics.best_asset_pair@)
    &&& is_best_hour(own, analytics.best_time_of_day as int)
    &&& analytics.win_streak == longest_streak(own)
    &&& analytics.avg_signal_lifetime == mean_lifetime(own)
    &&& analytics.follower_growth_rate == follower_count
}

/// The analytics of `provider`, who has `follower_count` followers, or
/// `None` for a provider with fewer than ten signals.
pub fn calculate_provider_analytics(signals: &Vec<Signal>, provider: &Address, follower_count: u32) -> (r:
    Option<ProviderAnalytics>)
    requires
        signals@.len() <= u32::MAX,
    ensures
        r is Some <==> signals_of(signals@, *provider).len() >= MIN_SIGNALS_FOR_ANALYTICS,
        r matches Some(analytics) ==> analyses(
            analytics,
            signals_of(signals@, *provider),
            *provider,
            follower_count,
        ),
{
    let own = get_provider_signals(signals, provider);
    proof {
        lemma_selection_len(signals@, *provider, 0);
    }
    let total = own.len() as u32;
    if total < MIN_SIGNALS_FOR_ANALYTICS {
        return None;
    }
    let avg_roi = calculate_avg_roi(&own);
    let best_asset_pair = find_best_asset_pair(&own);
    let best_time_of_day = find_best_time_of_day(&own);
    let win_streak = calculate_win_streak(&own);
    let avg_signal_lifetime = calculate_avg_lifetime(&own);
    let follower_growth_rate = calculate_follower_growth(follower_count);
    Some(
        ProviderAnalytics {
            provider: *provider,
            total_signals: total,
            avg_roi,
            best_asset_pair,
            best_time_of_day,
            win_streak,
            avg_signal_lifetime,
            follower_growth_rate,
        },
    )
}

} // verus!
