//! Performance figures of a provider, and their export.

use vstd::prelude::*;
use vstd::string::StringExecFns;
use vstd::utf8::encode_utf8;
use crate::address::Address;
use crate::arith::{div_by_positive, div_toward_zero, saturated, saturating_add};
use crate::signal_registry::export::{
    average_roi, bps_to_pct_str, collect_provider_signals, csv_escape, csv_text, decimal,
    digit_char, export_signals_csv, export_signals_json, export_trades_csv, export_trades_json,
    get_provider_trades, i128_to_str, json_escape, json_text, percent_text, provider_trades,
    push_str, selected_signals, signals_csv, signals_json, trades_csv, trades_json, u32_to_str,
    u64_to_str, DateRange, ExportEntity, ExportError, ExportFormat, MAX_EXPORT_RECORDS,
};
use crate::signal_registry::pair_stats::{
    has_stat, lemma_pair_counts, note_signal, pair_count, pair_occurs, pair_roi, tracks, PairStat,
};
use crate::signal_registry::types::{Signal, SignalStatus, TradeRecord};
use crate::text::{
    comes_before, lemma_text_before_asymmetric, lemma_text_before_irreflexive,
    lemma_text_before_transitive, text_before,
};

verus! {

/// The figures of one provider over a period.
#[derive(Debug)]
pub struct PerformanceSummary {
    pub total_signals: u32,
    pub successful_signals: u32,
    pub failed_signals: u32,
    /// Share of successful signals in basis points.
    pub success_rate_bps: u32,
    /// Sum of the signals' average returns in basis points.
    pub total_roi_bps: i128,
    pub total_volume: i128,
    pub total_trades: u32,
    /// The asset pair with the best average return, or "N/A".
    pub best_pair: String,
    /// The asset pair with the worst average return, or "N/A".
    pub worst_pair: String,
    pub avg_signal_lifetime_secs: u64,
}

/// The signals of `provider` from the period, in order, as far as one
/// export holds them.
pub open spec fn chosen_signals(signals: Seq<Signal>, provider: Address, date_range: Option<DateRange>) -> Seq<
    Signal,
> {
    let positions = selected_signals(signals, provider, date_range);
    Seq::new(positions.len(), |k: int| signals[positions[k]])
}

/// Number of signals with the given status.
pub open spec fn count_with_status(chosen: Seq<Signal>, status: SignalStatus) -> int
    decreases chosen.len(),
{
    if chosen.len() == 0 {
        0
    } else {
        count_with_status(chosen.drop_last(), status) + if chosen.last().status == status {
            1int
        } else {
            0int
        }
    }
}

/// Sum of the signals' average returns, saturated after each addition.
pub open spec fn roi_total(chosen: Seq<Signal>) -> int
    decreases chosen.len(),
{
    if chosen.len() == 0 {
        0
    } else {
        saturated(roi_total(chosen.drop_last()) + average_roi(chosen.last()))
    }
}

/// Sum of the signals' volumes, saturated after each addition.
pub open spec fn volume_total(chosen: Seq<Signal>) -> int
    decreases chosen.len(),
{
    if chosen.len() == 0 {
        0
    } else {
        saturated(volume_total(chosen.drop_last()) + chosen.last().total_volume)
    }
}

/// Time from a signal's creation to its expiry; zero if it expires before.
pub open spec fn lifetime(signal: Signal) -> int {
    if signal.expiry >= signal.timestamp {
        signal.expiry - signal.timestamp
    } else {
        0
    }
}

/// `x`, or the largest number, whichever is smaller.
pub open spec fn capped(x: int, largest: int) -> int {
    if x > largest {
        largest
    } else {
        x
    }
}

/// Sum of the signals' lifetimes, capped after each addition.
pub open spec fn lifetime_total(chosen: Seq<Signal>) -> int
    decreases chosen.len(),
{
    if chosen.len() == 0 {
        0
    } else {
        capped(lifetime_total(chosen.drop_last()) + lifetime(chosen.last()), u64::MAX as int)
    }
}

/// Number of trades on the signals, capped after each addition.
pub open spec fn trades_total(chosen: Seq<Signal>) -> int
    decreases chosen.len(),
{
    if chosen.len() == 0 {
        0
    } else {
        capped(trades_total(chosen.drop_last()) + chosen.last().executions, u32::MAX as int)
    }
}

/// The average return of the signals for `pair`, rounded toward zero.
pub open spec fn pair_average(chosen: Seq<Signal>, pair: Seq<char>) -> int {
    div_toward_zero(pair_roi(chosen, pair), pair_count(chosen, pair))
}

/// `pair` has the best average return; among pairs with the same average
/// it is the first in the order of texts.
pub open spec fn is_best_pair(chosen: Seq<Signal>, pair: Seq<char>) -> bool {
    &&& pair_occurs(chosen, pair)
    &&& forall|k: int|
        0 <= k < chosen.len() ==> {
            let other = (#[trigger] chosen[k]).asset_pair@;
            pair_average(chosen, other) < pair_average(chosen, pair) || (pair_average(
                chosen,
                other,
            ) == pair_average(chosen, pair) && !text_before(other, pair))
        }
}

/// `pair` has the worst average return; among pairs with the same average
/// it is the first in the order of texts.
pub open spec fn is_worst_pair(chosen: Seq<Signal>, pair: Seq<char>) -> bool {
    &&& pair_occurs(chosen, pair)
    &&& forall|k: int|
        0 <= k < chosen.len() ==> {
            let other = (#[trigger] chosen[k]).asset_pair@;
            pair_average(chosen, other) > pair_average(chosen, pair) || (pair_average(
                chosen,
                other,
            ) == pair_average(chosen, pair) && !text_before(other, pair))
        }
}

/// The figures in `summary` are those of the signals `chosen`.
pub open spec fn summarises(summary: PerformanceSummary, chosen: Seq<Signal>) -> bool {
    &&& summary.total_signals == chosen.len()
    &&& summary.successful_signals == count_with_status(chosen, SignalStatus::Successful)
    &&& summary.failed_signals == count_with_status(chosen, SignalStatus::Failed)
    &&& summary.success_rate_bps == if chosen.len() > 0 {
        count_with_status(chosen, SignalStatus::Successful) * 10_000 / (chosen.len() as int)
    } else {
        0
    }
    &&& summary.total_roi_bps == roi_total(chosen)
    &&& summary.total_volume == volume_total(chosen)
    &&& summary.total_trades == trades_total(chosen)
    &&& summary.avg_signal_lifetime_secs == if chosen.len() > 0 {
        lifetime_total(chosen) / (chosen.len() as int)
    } else {
        0
    }
    &&& chosen.len() == 0 ==> summary.best_pair@ == "N/A"@ && summary.worst_pair@ == "N/A"@
    &&& chosen.len() > 0 ==> is_best_pair(chosen, summary.best_pair@) && is_worst_pair(
        chosen,
        summary.worst_pair@,
    )
}

/// Counts never exceed the number of signals, and capped sums stay within
/// their caps.
proof fn lemma_counts(chosen: Seq<Signal>, status: SignalStatus)
    ensures
        0 <= count_with_status(chosen, status) <= chosen.len(),
        0 <= lifetime_total(chosen) <= u64::MAX,
        0 <= trades_total(chosen) <= u32::MAX,
    decreases chosen.len(),
{
    if chosen.len() > 0 {
        lemma_counts(chosen.drop_last(), status);
    }
}

/// The average return that an entry stands for.
spec fn stat_average(stat: PairStat) -> int {
    div_toward_zero(stat.roi_sum as int, stat.count as int)
}

/// `a` is a better choice for the best pair than `b`, or the same.
spec fn at_least_as_good(a: PairStat, b: PairStat) -> bool {
    stat_average(b) < stat_average(a) || (stat_average(b) == stat_average(a) && !text_before(
        b.pair@,
        a.pair@,
    ))
}

/// `a` is a better choice for the worst pair than `b`, or the same.
spec fn at_least_as_bad(a: PairStat, b: PairStat) -> bool {
    stat_average(b) > stat_average(a) || (stat_average(b) == stat_average(a) && !text_before(
        b.pair@,
        a.pair@,
    ))
}

/// The entry that is the best choice, and the one that is the worst.
fn pick_extremes(stats: &Vec<PairStat>) -> (r: (usize, usize))
    requires
        stats@.len() > 0,
        forall|i: int| 0 <= i < stats@.len() ==> (#[trigger] stats@[i]).count > 0,
    ensures
        r.0 < stats@.len(),
        r.1 < stats@.len(),
        forall|j: int|
            0 <= j < stats@.len() ==> at_least_as_good(stats@[r.0 as int], #[trigger] stats@[j]),
        forall|j: int|
            0 <= j < stats@.len() ==> at_least_as_bad(stats@[r.1 as int], #[trigger] stats@[j]),
{
    let mut best: usize = 0;
    let mut worst: usize = 0;
    let mut i: usize = 1;
    proof {
        lemma_text_before_irreflexive(stats@[0].pair@);
    }
    while i < stats.len()
        invariant
            1 <= i <= stats@.len(),
            best < i,
            worst < i,
            forall|j: int| 0 <= j < stats@.len() ==> (#[trigger] stats@[j]).count > 0,
            forall|j: int|
                0 <= j < i ==> at_least_as_good(stats@[best as int], #[trigger] stats@[j]),
            forall|j: int|
                0 <= j < i ==> at_least_as_bad(stats@[worst as int], #[trigger] stats@[j]),
        decreases stats@.len() - i,
    {
        let here = div_by_positive(stats[i].roi_sum, stats[i].count as i128);
        let top = div_by_positive(stats[best].roi_sum, stats[best].count as i128);
        let bottom = div_by_positive(stats[worst].roi_sum, stats[worst].count as i128);
        proof {
            lemma_text_before_irreflexive(stats@[i as int].pair@);
        }
        if here > top || (here == top && comes_before(
            stats[i].pair.as_str(),
            stats[best].pair.as_str(),
        )) {
            proof {
                let old_best = stats@[best as int];
                let new_best = stats@[i as int];
                if here == top {
                    lemma_text_before_asymmetric(new_best.pair@, old_best.pair@);
                }
                assert forall|j: int| 0 <= j <= i implies at_least_as_good(
                    new_best,
                    #[trigger] stats@[j],
                ) by {
                    if j < i {
                        assert(at_least_as_good(old_best, stats@[j]));
                        if here == top && text_before(stats@[j].pair@, new_best.pair@) {
                            lemma_text_before_transitive(
                                stats@[j].pair@,
                                new_best.pair@,
                                old_best.pair@,
                            );
                        }
                    }
                }
            }
            best = i;
        }
        if here < bottom || (here == bottom && comes_before(
            stats[i].pair.as_str(),
            stats[worst].pair.as_str(),
        )) {
            proof {
                let old_worst = stats@[worst as int];
                let new_worst = stats@[i as int];
                if here == bottom {
                    lemma_text_before_asymmetric(new_worst.pair@, old_worst.pair@);
                }
                assert forall|j: int| 0 <= j <= i implies at_least_as_bad(
                    new_worst,
                    #[trigger] stats@[j],
                ) by {
                    if j < i {
                        assert(at_least_as_bad(old_worst, stats@[j]));
                        if here == bottom && text_before(stats@[j].pair@, new_worst.pair@) {
                            lemma_text_before_transitive(
                                stats@[j].pair@,
                                new_worst.pair@,
                                old_worst.pair@,
                            );
                        }
                    }
                }
            }
            worst = i;
        }
        i = i + 1;
    }
    (best, worst)
}

/// The figures of `provider` over the period: counts by outcome, sums of
/// returns, volumes and trades, the average lifetime of a signal, and the
/// asset pairs with the best and the worst average return.
pub fn calculate_performance_summary(signals: &Vec<Signal>, provider: &Address, date_range: Option<
    DateRange,
>) -> (summary: PerformanceSummary)
    ensures
        summarises(summary, chosen_signals(signals@, *provider, date_range)),
{
    let found = collect_provider_signals(signals, provider, date_range);
    let ghost chosen = chosen_signals(signals@, *provider, date_range);
    let total = found.len();
    let mut successful_signals: u32 = 0;
    let mut failed_signals: u32 = 0;
    let mut total_roi_bps: i128 = 0;
    let mut total_volume: i128 = 0;
    let mut total_lifetime_secs: u64 = 0;
    let mut total_trades: u32 = 0;
    let mut stats: Vec<PairStat> = Vec::new();
    let mut k: usize = 0;
    proof {
        assert(chosen.take(0) =~= Seq::<Signal>::empty());
    }
    while k < total
        invariant
            total == found@.len(),
            total == chosen.len(),
            total <= MAX_EXPORT_RECORDS,
            k <= total,
            forall|j: int|
                0 <= j < found@.len() ==> (#[trigger] found@[j]) < signals@.len()
                    && signals@[found@[j] as int] == chosen[j],
            successful_signals == count_with_status(chosen.take(k as int), SignalStatus::Successful),
            failed_signals == count_with_status(chosen.take(k as int), SignalStatus::Failed),
            total_roi_bps == roi_total(chosen.take(k as int)),
            total_volume == volume_total(chosen.take(k as int)),
            total_lifetime_secs == lifetime_total(chosen.take(k as int)),
            total_trades == trades_total(chosen.take(k as int)),
            tracks(stats@, chosen.take(k as int)),
        decreases total - k,
    {
        let signal = &signals[found[k]];
        proof {
            assert(chosen.take(k + 1).drop_last() =~= chosen.take(k as int));
            assert(chosen.take(k + 1) =~= chosen.take(k as int).push(*signal));
            lemma_counts(chosen.take(k as int), SignalStatus::Successful);
            lemma_counts(chosen.take(k as int), SignalStatus::Failed);
        }
        if signal.status == SignalStatus::Successful {
            successful_signals = successful_signals + 1;
        }
        if signal.status == SignalStatus::Failed {
            failed_signals = failed_signals + 1;
        }
        let roi = if signal.executions > 0 {
            div_by_positive(signal.total_roi, signal.executions as i128)
        } else {
            0
        };
        total_roi_bps = saturating_add(total_roi_bps, roi);
        total_volume = saturating_add(total_volume, signal.total_volume);
        let age: u64 = if signal.expiry >= signal.timestamp {
            signal.expiry - signal.timestamp
        } else {
            0
        };
        total_lifetime_secs = if age > u64::MAX - total_lifetime_secs {
            u64::MAX
        } else {
            total_lifetime_secs + age
        };
        total_trades = if signal.executions > u32::MAX - total_trades {
            u32::MAX
        } else {
            total_trades + signal.executions
        };
        note_signal(&mut stats, signal, roi, Ghost(chosen.take(k as int)));
        k = k + 1;
    }
    proof {
        assert(chosen.take(total as int) =~= chosen);
        lemma_counts(chosen, SignalStatus::Successful);
    }
    let total_signals = total as u32;
    let success_rate_bps: u32 = if total_signals > 0 {
        successful_signals * 10_000 / total_signals
    } else {
        0
    };
    let avg_signal_lifetime_secs: u64 = if total_signals > 0 {
        total_lifetime_secs / (total_signals as u64)
    } else {
        0
    };
    let (best_pair, worst_pair) = if stats.len() > 0 {
        proof {
            assert forall|i: int| 0 <= i < stats@.len() implies (#[trigger] stats@[i]).count > 0 by {
                lemma_pair_counts(chosen, stats@[i].pair@);
            }
        }
        let (best, worst) = pick_extremes(&stats);
        proof {
            let top = stats@[best as int];
            let low = stats@[worst as int];
            assert forall|j: int| 0 <= j < chosen.len() implies {
                let other = (#[trigger] chosen[j]).asset_pair@;
                pair_average(chosen, other) < pair_average(chosen, top.pair@) || (pair_average(
                    chosen,
                    other,
                ) == pair_average(chosen, top.pair@) && !text_before(other, top.pair@))
            } by {
                let w = choose|w: int|
                    0 <= w < stats@.len() && (#[trigger] stats@[w]).pair@ == chosen[j].asset_pair@;
                assert(at_least_as_good(top, stats@[w]));
            }
            assert forall|j: int| 0 <= j < chosen.len() implies {
                let other = (#[trigger] chosen[j]).asset_pair@;
                pair_average(chosen, other) > pair_average(chosen, low.pair@) || (pair_average(
                    chosen,
                    other,
                ) == pair_average(chosen, low.pair@) && !text_before(other, low.pair@))
            } by {
                let w = choose|w: int|
                    0 <= w < stats@.len() && (#[trigger] stats@[w]).pair@ == chosen[j].asset_pair@;
                assert(at_least_as_bad(low, stats@[w]));
            }
        }
        (stats[best].pair.clone(), stats[worst].pair.clone())
    } else {
        proof {
            if chosen.len() > 0 {
                assert(has_stat(stats@, chosen[0].asset_pair@));
            }
        }
        (String::from_str("N/A"), String::from_str("N/A"))
    };
    PerformanceSummary {
        total_signals,
        successful_signals,
        failed_signals,
        success_rate_bps,
        total_roi_bps,
        total_volume,
        total_trades,
        best_pair,
        worst_pair,
        avg_signal_lifetime_secs,
    }
}

// ----- export of the figures -----

/// A rate in basis points as a percentage with two decimals, such as
/// `66.67%` for 6667.
pub open spec fn rate_text(rate_bps: u32) -> Seq<char> {
    decimal(rate_bps as int / 100) + seq![
        '.',
        digit_char(rate_bps as int % 100 / 10),
        digit_char(rate_bps as int % 10),
        '%',
    ]
}

/// The figures as a JSON object.
pub open spec fn performance_json(summary: PerformanceSummary) -> Seq<char> {
    "{\"total_signals\":"@ + decimal(summary.total_signals as int) + ",\"successful_signals\":"@
        + decimal(summary.successful_signals as int) + ",\"failed_signals\":"@ + decimal(
        summary.failed_signals as int,
    ) + ",\"success_rate\":\""@ + rate_text(summary.success_rate_bps) + "\",\"total_roi_bps\":"@
        + decimal(summary.total_roi_bps as int) + ",\"total_roi_pct\":\""@ + percent_text(
        summary.total_roi_bps as int,
    ) + "\",\"total_volume\":"@ + decimal(summary.total_volume as int) + ",\"total_trades\":"@
        + decimal(summary.total_trades as int) + ",\"best_pair\":\""@ + json_text(
        summary.best_pair@,
    ) + "\",\"worst_pair\":\""@ + json_text(summary.worst_pair@)
        + "\",\"avg_signal_lifetime_hours\":"@ + decimal(
        summary.avg_signal_lifetime_secs as int / 3600,
    ) + "}"@
}

/// The figures as CSV: a header line and one line per figure.
pub open spec fn performance_csv(summary: PerformanceSummary) -> Seq<char> {
    "metric,value\n"@ + "total_signals,"@ + decimal(summary.total_signals as int) + "\n"@
        + "successful_signals,"@ + decimal(summary.successful_signals as int) + "\n"@
        + "failed_signals,"@ + decimal(summary.failed_signals as int) + "\n"@ + "success_rate,"@
        + rate_text(summary.success_rate_bps) + "\n"@ + "total_roi_bps,"@ + decimal(
        summary.total_roi_bps as int,
    ) + "\n"@ + "total_roi_pct,"@ + percent_text(summary.total_roi_bps as int) + "\n"@
        + "total_volume,"@ + decimal(summary.total_volume as int) + "\n"@ + "total_trades,"@
        + decimal(summary.total_trades as int) + "\n"@ + "best_pair,"@ + csv_text(
        summary.best_pair@,
    ) + "\n"@ + "worst_pair,"@ + csv_text(summary.worst_pair@) + "\n"@
        + "avg_signal_lifetime_hours,"@ + decimal(summary.avg_signal_lifetime_secs as int / 3600)
        + "\n"@
}

/// The portfolio of a provider as a JSON object: the number of signals and
/// of active signals, the number of trades on the provider's signals, and
/// the sums of volumes and average returns.
pub open spec fn portfolio_json(chosen: Seq<Signal>, trades: int) -> Seq<char> {
    "{\"total_signals\":"@ + decimal(chosen.len() as int) + ",\"active_signals\":"@ + decimal(
        count_with_status(chosen, SignalStatus::Active),
    ) + ",\"total_trades\":"@ + decimal(trades) + ",\"total_volume\":"@ + decimal(
        volume_total(chosen),
    ) + ",\"total_roi_bps\":"@ + decimal(roi_total(chosen)) + ",\"total_roi_pct\":\""@
        + percent_text(roi_total(chosen)) + "\"}"@
}

/// The text form of a rate.
fn rate_str(rate_bps: u32) -> (text: String)
    ensures
        text@ == rate_text(rate_bps),
{
    proof {
        reveal_strlit(".");
        reveal_strlit("%");
    }
    let mut text = u32_to_str(rate_bps / 100);
    text.append(".");
    text.append(u32_to_str(rate_bps % 100 / 10).as_str());
    text.append(u32_to_str(rate_bps % 10).as_str());
    text.append("%");
    assert(text@ =~= rate_text(rate_bps));
    text
}

/// The bytes of `text`.
fn text_bytes(text: &String) -> (bytes: Vec<u8>)
    ensures
        bytes@ == encode_utf8(text@),
{
    let mut bytes: Vec<u8> = Vec::new();
    push_str(&mut bytes, text.as_str());
    assert(bytes@ =~= encode_utf8(text@));
    bytes
}

/// Writes figures as a JSON object.
pub fn performance_to_json(s: &PerformanceSummary) -> (bytes: Vec<u8>)
    ensures
        bytes@ == encode_utf8(performance_json(*s)),
{
    let mut out = String::from_str("{\"total_signals\":");
    out.append(u32_to_str(s.total_signals).as_str());
    out.append(",\"successful_signals\":");
    out.append(u32_to_str(s.successful_signals).as_str());
    out.append(",\"failed_signals\":");
    out.append(u32_to_str(s.failed_signals).as_str());
    out.append(",\"success_rate\":\"");
    out.append(rate_str(s.success_rate_bps).as_str());
    out.append("\",\"total_roi_bps\":");
    out.append(i128_to_str(s.total_roi_bps).as_str());
    out.append(",\"total_roi_pct\":\"");
    out.append(bps_to_pct_str(s.total_roi_bps).as_str());
    out.append("\",\"total_volume\":");
    out.append(i128_to_str(s.total_volume).as_str());
    out.append(",\"total_trades\":");
    out.append(u32_to_str(s.total_trades).as_str());
    out.append(",\"best_pair\":\"");
    out.append(json_escape(s.best_pair.as_str()).as_str());
    out.append("\",\"worst_pair\":\"");
    out.append(json_escape(s.worst_pair.as_str()).as_str());
    out.append("\",\"avg_signal_lifetime_hours\":");
    out.append(u64_to_str(s.avg_signal_lifetime_secs / 3600).as_str());
    out.append("}");
    text_bytes(&out)
}

/// Writes figures as CSV.
pub fn performance_to_csv(s: &PerformanceSummary) -> (bytes: Vec<u8>)
    ensures
        bytes@ == encode_utf8(performance_csv(*s)),
{
    let mut out = String::from_str("metric,value\n");
    out.append("total_signals,");
    out.append(u32_to_str(s.total_signals).as_str());
    out.append("\n");
    out.append("successful_signals,");
    out.append(u32_to_str(s.successful_signals).as_str());
    out.append("\n");
    out.append("failed_signals,");
    out.append(u32_to_str(s.failed_signals).as_str());
    out.append("\n");
    out.append("success_rate,");
    out.append(rate_str(s.success_rate_bps).as_str());
    out.append("\n");
    out.append("total_roi_bps,");
    out.append(i128_to_str(s.total_roi_bps).as_str());
    out.append("\n");
    out.append("total_roi_pct,");
    out.append(bps_to_pct_str(s.total_roi_bps).as_str());
    out.append("\n");
    out.append("total_volume,");
    out.append(i128_to_str(s.total_volume).as_str());
    out.append("\n");
    out.append("total_trades,");
    out.append(u32_to_str(s.total_trades).as_str());
    out.append("\n");
    out.append("best_pair,");
    out.append(csv_escape(s.best_pair.as_str()).as_str());
    out.append("\n");
    out.append("worst_pair,");
    out.append(csv_escape(s.worst_pair.as_str()).as_str());
    out.append("\n");
    out.append("avg_signal_lifetime_hours,");
    out.append(u64_to_str(s.avg_signal_lifetime_secs / 3600).as_str());
    out.append("\n");
    text_bytes(&out)
}

/// Exports the figures of `provider` over the period as a JSON object.
pub fn export_performance_json(signals: &Vec<Signal>, provider: &Address, date_range: Option<
    DateRange,
>) -> (r: Result<Vec<u8>, ExportError>)
    ensures
        r matches Ok(bytes) && exists|summary: PerformanceSummary|
            summarises(summary, chosen_signals(signals@, *provider, date_range)) && bytes@
                == encode_utf8(performance_json(summary)),
{
    let summary = calculate_performance_summary(signals, provider, date_range);
    Ok(performance_to_json(&summary))
}

/// Exports the figures of `provider` over the period as CSV.
pub fn export_performance_csv(signals: &Vec<Signal>, provider: &Address, date_range: Option<
    DateRange,
>) -> (r: Result<Vec<u8>, ExportError>)
    ensures
        r matches Ok(bytes) && exists|summary: PerformanceSummary|
            summarises(summary, chosen_signals(signals@, *provider, date_range)) && bytes@
                == encode_utf8(performance_csv(summary)),
{
    let summary = calculate_performance_summary(signals, provider, date_range);
    Ok(performance_to_csv(&summary))
}

/// Exports the portfolio of `provider` as a JSON object. Signals are taken
/// from the period, trades from all time.
pub fn export_portfolio_json(
    signals: &Vec<Signal>,
    trades: &Vec<TradeRecord>,
    provider: &Address,
    date_range: Option<DateRange>,
) -> (r: Result<Vec<u8>, ExportError>)
    ensures
        r matches Ok(bytes) && bytes@ == encode_utf8(
            portfolio_json(
                chosen_signals(signals@, *provider, date_range),
                (provider_trades(trades@, signals@, *provider).len() as u32) as int,
            ),
        ),
{
    let found = collect_provider_signals(signals, provider, date_range);
    let own_trades = get_provider_trades(trades, signals, provider);
    let ghost chosen = chosen_signals(signals@, *provider, date_range);
    let mut total_volume: i128 = 0;
    let mut total_roi_bps: i128 = 0;
    let mut active_signals: u32 = 0;
    let mut k: usize = 0;
    proof {
        assert(chosen.take(0) =~= Seq::<Signal>::empty());
    }
    while k < found.len()
        invariant
            found@.len() == chosen.len(),
            found@.len() <= MAX_EXPORT_RECORDS,
            k <= found@.len(),
            forall|j: int|
                0 <= j < found@.len() ==> (#[trigger] found@[j]) < signals@.len()
                    && signals@[found@[j] as int] == chosen[j],
            active_signals == count_with_status(chosen.take(k as int), SignalStatus::Active),
            total_roi_bps == roi_total(chosen.take(k as int)),
            total_volume == volume_total(chosen.take(k as int)),
        decreases found@.len() - k,
    {
        let signal = &signals[found[k]];
        proof {
            assert(chosen.take(k + 1).drop_last() =~= chosen.take(k as int));
            lemma_counts(chosen.take(k as int), SignalStatus::Active);
        }
        let roi = if signal.executions > 0 {
            div_by_positive(signal.total_roi, signal.executions as i128)
        } else {
            0
        };
        total_roi_bps = saturating_add(total_roi_bps, roi);
        total_volume = saturating_add(total_volume, signal.total_volume);
        if signal.status == SignalStatus::Active {
            active_signals = active_signals + 1;
        }
        k = k + 1;
    }
    proof {
        assert(chosen.take(found@.len() as int) =~= chosen);
    }
    let total_trades = #[verifier::truncate] (own_trades.len() as u32);
    let mut out = String::from_str("{\"total_signals\":");
    out.append(u64_to_str(found.len() as u64).as_str());
    out.append(",\"active_signals\":");
    out.append(u32_to_str(active_signals).as_str());
    out.append(",\"total_trades\":");
    out.append(u32_to_str(total_trades).as_str());
    out.append(",\"total_volume\":");
    out.append(i128_to_str(total_volume).as_str());
    out.append(",\"total_roi_bps\":");
    out.append(i128_to_str(total_roi_bps).as_str());
    out.append(",\"total_roi_pct\":\"");
    out.append(bps_to_pct_str(total_roi_bps).as_str());
    out.append("\"}");
    Ok(text_bytes(&out))
}

/// Exports what `entity` names about `requester` in the given format. The
/// requester is the provider for signals, performance and portfolio, and
/// the executor for trades. A portfolio is written as JSON in either format.
pub fn export_data(
    signals: &Vec<Signal>,
    trades: &Vec<TradeRecord>,
    requester: &Address,
    entity: ExportEntity,
    format: ExportFormat,
    date_range: Option<DateRange>,
) -> (r: Result<Vec<u8>, ExportError>)
    ensures
        r matches Ok(bytes) && match (entity, format) {
            (ExportEntity::Signals, ExportFormat::Csv) => bytes@ == encode_utf8(
                signals_csv(signals@, *requester, date_range),
            ),
            (ExportEntity::Signals, ExportFormat::Json) => bytes@ == encode_utf8(
                signals_json(signals@, *requester, date_range),
            ),
            (ExportEntity::Trades, ExportFormat::Csv) => bytes@ == encode_utf8(
                trades_csv(trades@, signals@, *requester, date_range),
            ),
            (ExportEntity::Trades, ExportFormat::Json) => bytes@ == encode_utf8(
                trades_json(trades@, signals@, *requester, date_range),
            ),
            (ExportEntity::Performance, ExportFormat::Csv) => exists|summary: PerformanceSummary|
                summarises(summary, chosen_signals(signals@, *requester, date_range)) && bytes@
                    == encode_utf8(performance_csv(summary)),
            (ExportEntity::Performance, ExportFormat::Json) => exists|summary: PerformanceSummary|
                summarises(summary, chosen_signals(signals@, *requester, date_range)) && bytes@
                    == encode_utf8(performance_json(summary)),
            (ExportEntity::Portfolio, _) => bytes@ == encode_utf8(
                portfolio_json(
                    chosen_signals(signals@, *requester, date_range),
                    (provider_trades(trades@, signals@, *requester).len() as u32) as int,
                ),
            ),
        },
{
    match entity {
        ExportEntity::Signals => match format {
            ExportFormat::Csv => export_signals_csv(signals, requester, date_range),
            ExportFormat::Json => export_signals_json(signals, requester, date_range),
        },
        ExportEntity::Trades => match format {
            ExportFormat::Csv => export_trades_csv(trades, signals, requester, date_range),
            ExportFormat::Json => export_trades_json(trades, signals, requester, date_range),
        },
        ExportEntity::Performance => match format {
            ExportFormat::Csv => export_performance_csv(signals, requester, date_range),
            ExportFormat::Json => export_performance_json(signals, requester, date_range),
        },
        ExportEntity::Portfolio => export_portfolio_json(signals, trades, requester, date_range),
    }
}

} // verus!
