//! Export of signals, trades and performance figures as CSV or JSON text.

use vstd::prelude::*;
use vstd::string::{StrSliceExecFns, StringExecFns};
use vstd::utf8::encode_utf8;
use crate::address::Address;
use crate::arith::{div_by_positive, div_toward_zero};
use crate::arith::fits;
use crate::signal_registry::types::{
    Signal, SignalAction, SignalStatus, TradeExecution, TradeRecord,
};
use crate::text::contains_char;

verus! {

/// Largest number of records in one export.
pub const MAX_EXPORT_RECORDS: u32 = 500;

/// 7 days in seconds.
pub const PRESET_7_DAYS: u64 = 604_800;

/// 30 days in seconds.
pub const PRESET_30_DAYS: u64 = 2_592_000;

/// 365 days in seconds.
pub const PRESET_365_DAYS: u64 = 31_536_000;

/// The text form of an export.
#[derive(Clone, Copy, Debug, PartialEq, Eq, Structural)]
pub enum ExportFormat {
    Csv,
    Json,
}

/// What an export is about.
#[derive(Clone, Copy, Debug, PartialEq, Eq, Structural)]
pub enum ExportEntity {
    Signals,
    Trades,
    Performance,
    Portfolio,
}

/// Why an export was refused.
#[derive(Clone, Copy, Debug, PartialEq, Eq, Structural)]
pub enum ExportError {
    /// The format code is neither 0 (CSV) nor 1 (JSON).
    UnsupportedFormat,
}

/// First and last second of a period, both included.
pub type DateRange = (u64, u64);

// ----- numbers as text -----

/// The character of a decimal digit.
pub open spec fn digit_char(d: int) -> char {
    if d == 0 {
        '0'
    } else if d == 1 {
        '1'
    } else if d == 2 {
        '2'
    } else if d == 3 {
        '3'
    } else if d == 4 {
        '4'
    } else if d == 5 {
        '5'
    } else if d == 6 {
        '6'
    } else if d == 7 {
        '7'
    } else if d == 8 {
        '8'
    } else {
        '9'
    }
}

/// The decimal digits of a natural number, without leading zeros.
pub open spec fn decimal_digits(n: nat) -> Seq<char>
    decreases n,
{
    if n < 10 {
        seq![digit_char(n as int)]
    } else {
        decimal_digits(n / 10).push(digit_char((n % 10) as int))
    }
}

/// The decimal form of an integer, with a minus sign if it is negative.
pub open spec fn decimal(n: int) -> Seq<char> {
    if n < 0 {
        seq!['-'] + decimal_digits((-n) as nat)
    } else {
        decimal_digits(n as nat)
    }
}

/// A basis-point figure as a signed percentage with two decimals, such as
/// `+5.00%` for 500 and `-0.07%` for -7.
pub open spec fn percent_text(bps: int) -> Seq<char> {
    let sign = if bps >= 0 {
        '+'
    } else {
        '-'
    };
    let magnitude: nat = if bps >= 0 {
        bps as nat
    } else {
        (-bps) as nat
    };
    seq![sign] + decimal_digits(magnitude / 100) + seq![
        '.',
        digit_char((magnitude % 100 / 10) as int),
        digit_char((magnitude % 10) as int),
        '%',
    ]
}

/// The text of a decimal digit.
fn digit_str(d: u8) -> (text: &'static str)
    requires
        d < 10,
    ensures
        text@ == seq![digit_char(d as int)],
{
    proof {
        reveal_strlit("0");
        reveal_strlit("1");
        reveal_strlit("2");
        reveal_strlit("3");
        reveal_strlit("4");
        reveal_strlit("5");
        reveal_strlit("6");
        reveal_strlit("7");
        reveal_strlit("8");
        reveal_strlit("9");
    }
    let text = match d {
        0 => "0",
        1 => "1",
        2 => "2",
        3 => "3",
        4 => "4",
        5 => "5",
        6 => "6",
        7 => "7",
        8 => "8",
        _ => "9",
    };
    assert(text@ =~= seq![digit_char(d as int)]);
    text
}

/// Appends the decimal digits of `n`.
fn push_digits(out: &mut String, n: u128)
    ensures
        final(out)@ == old(out)@ + decimal_digits(n as nat),
    decreases n,
{
    if n >= 10 {
        push_digits(out, n / 10);
    }
    out.append(digit_str((n % 10) as u8));
    assert(out@ =~= old(out)@ + decimal_digits(n as nat));
}

/// The magnitude of `v`.
fn magnitude(v: i128) -> (m: u128)
    ensures
        m == if v < 0 {
            -(v as int)
        } else {
            v as int
        },
{
    if v < 0 {
        (-(v + 1)) as u128 + 1
    } else {
        v as u128
    }
}

/// The decimal form of `v`.
pub fn i128_to_str(v: i128) -> (text: String)
    ensures
        text@ == decimal(v as int),
{
    let mut text = String::new();
    if v < 0 {
        proof {
            reveal_strlit("-");
        }
        text.append("-");
    }
    push_digits(&mut text, magnitude(v));
    assert(text@ =~= decimal(v as int));
    text
}

/// The decimal form of `v`.
pub fn u64_to_str(v: u64) -> (text: String)
    ensures
        text@ == decimal(v as int),
{
    let mut text = String::new();
    push_digits(&mut text, v as u128);
    assert(text@ =~= decimal(v as int));
    text
}

/// The decimal form of `v`.
pub fn u32_to_str(v: u32) -> (text: String)
    ensures
        text@ == decimal(v as int),
{
    let mut text = String::new();
    push_digits(&mut text, v as u128);
    assert(text@ =~= decimal(v as int));
    text
}

/// Formats a basis-point figure as a signed percentage with two decimals.
pub fn bps_to_pct_str(bps: i128) -> (text: String)
    ensures
        text@ == percent_text(bps as int),
{
    proof {
        reveal_strlit("+");
        reveal_strlit("-");
        reveal_strlit(".");
        reveal_strlit("%");
    }
    let abs = magnitude(bps);
    let whole = abs / 100;
    let frac = abs % 100;
    let mut text = String::new();
    if bps >= 0 {
        text.append("+");
    } else {
        text.append("-");
    }
    push_digits(&mut text, whole);
    text.append(".");
    text.append(digit_str((frac / 10) as u8));
    text.append(digit_str((frac % 10) as u8));
    text.append("%");
    assert(text@ =~= percent_text(bps as int));
    text
}

// ----- names -----

/// The name of a signal status.
pub open spec fn status_text(status: SignalStatus) -> Seq<char> {
    match status {
        SignalStatus::Pending => "Pending"@,
        SignalStatus::Active => "Active"@,
        SignalStatus::Executed => "Executed"@,
        SignalStatus::Expired => "Expired"@,
        SignalStatus::Successful => "Successful"@,
        SignalStatus::Failed => "Failed"@,
    }
}

/// The name of a signal action.
pub open spec fn action_text(action: SignalAction) -> Seq<char> {
    match action {
        SignalAction::Buy => "BUY"@,
        SignalAction::Sell => "SELL"@,
    }
}

/// The name of a signal status.
pub fn signal_status_str(status: &SignalStatus) -> (text: &'static str)
    ensures
        text@ == status_text(*status),
{
    match status {
        SignalStatus::Pending => "Pending",
        SignalStatus::Active => "Active",
        SignalStatus::Executed => "Executed",
        SignalStatus::Expired => "Expired",
        SignalStatus::Successful => "Successful",
        SignalStatus::Failed => "Failed",
    }
}

/// The name of a signal action.
pub fn signal_action_str(action: &SignalAction) -> (text: &'static str)
    ensures
        text@ == action_text(*action),
{
    match action {
        SignalAction::Buy => "BUY",
        SignalAction::Sell => "SELL",
    }
}

// ----- escaping -----

/// `text` with every occurrence of `mark` preceded by `prefix`.
pub open spec fn prefixed(text: Seq<char>, mark: char, prefix: char) -> Seq<char>
    decreases text.len(),
{
    if text.len() == 0 {
        Seq::empty()
    } else if text.last() == mark {
        prefixed(text.drop_last(), mark, prefix).push(prefix).push(mark)
    } else {
        prefixed(text.drop_last(), mark, prefix).push(text.last())
    }
}

/// A CSV field needs quotes when it holds a comma, a quote or a line break.
pub open spec fn needs_quotes(text: Seq<char>) -> bool {
    text.contains(',') || text.contains('"') || text.contains('\n')
}

/// A field as it stands in a CSV line: as it is, or between quotes with
/// each quote doubled.
pub open spec fn csv_text(text: Seq<char>) -> Seq<char> {
    if needs_quotes(text) {
        seq!['"'] + prefixed(text, '"', '"') + seq!['"']
    } else {
        text
    }
}

/// A text as it stands inside a JSON string: each quote behind a backslash.
pub open spec fn json_text(text: Seq<char>) -> Seq<char> {
    prefixed(text, '"', '\\')
}

/// Appends `text` with `prefix` put before every quote.
fn push_prefixed(out: &mut String, text: &str, prefix: &'static str, prefix_char: char)
    requires
        prefix@ == seq![prefix_char],
    ensures
        final(out)@ == old(out)@ + prefixed(text@, '"', prefix_char),
{
    let n = text.unicode_len();
    let mut i: usize = 0;
    assert(text@.take(0) =~= Seq::<char>::empty());
    while i < n
        invariant
            n == text@.len(),
            i <= n,
            prefix@ == seq![prefix_char],
            out@ == old(out)@ + prefixed(text@.take(i as int), '"', prefix_char),
        decreases n - i,
    {
        let c = text.get_char(i);
        proof {
            assert(text@.take(i + 1).drop_last() =~= text@.take(i as int));
            assert(text@.take(i + 1).last() == c);
        }
        let ghost before = out@;
        if c == '"' {
            out.append(prefix);
        }
        out.append(text.substring_char(i, i + 1));
        proof {
            assert(text@.subrange(i as int, i + 1) =~= seq![c]);
            assert(out@ =~= old(out)@ + prefixed(text@.take(i + 1), '"', prefix_char));
        }
        i = i + 1;
    }
    assert(text@.take(n as int) =~= text@);
}

/// Escapes a field for a CSV line.
pub fn csv_escape(s: &str) -> (text: String)
    ensures
        text@ == csv_text(s@),
{
    if contains_char(s, ',') || contains_char(s, '"') || contains_char(s, '\n') {
        proof {
            reveal_strlit("\"");
            assert("\""@ =~= seq!['"']);
        }
        let mut out = String::new();
        out.append("\"");
        push_prefixed(&mut out, s, "\"", '"');
        out.append("\"");
        assert(out@ =~= csv_text(s@));
        out
    } else {
        String::from_str(s)
    }
}

/// Escapes a text for a JSON string.
pub fn json_escape(s: &str) -> (text: String)
    ensures
        text@ == json_text(s@),
{
    proof {
        reveal_strlit("\\");
        assert("\\"@ =~= seq!['\\']);
    }
    let mut out = String::new();
    push_prefixed(&mut out, s, "\\", '\\');
    assert(out@ =~= json_text(s@));
    out
}

/// Appends the bytes of `s` to `buf`.
pub fn push_str(buf: &mut Vec<u8>, s: &str)
    ensures
        final(buf)@ == old(buf)@ + encode_utf8(s@),
{
    buf.extend_from_slice(s.as_bytes());
}

impl ExportFormat {
    /// The format with the given code: 0 is CSV, 1 is JSON.
    pub fn from_code(code: u32) -> (r: Result<ExportFormat, ExportError>)
        ensures
            r == if code == 0 {
                Ok::<ExportFormat, ExportError>(ExportFormat::Csv)
            } else if code == 1 {
                Ok(ExportFormat::Json)
            } else {
                Err(ExportError::UnsupportedFormat)
            },
    {
        if code == 0 {
            Ok(ExportFormat::Csv)
        } else if code == 1 {
            Ok(ExportFormat::Json)
        } else {
            Err(ExportError::UnsupportedFormat)
        }
    }
}

// ----- selection -----

/// `timestamp` lies in the period, if there is one.
pub open spec fn in_range(timestamp: u64, date_range: Option<DateRange>) -> bool {
    match date_range {
        Some((start, end)) => start <= timestamp <= end,
        None => true,
    }
}

/// The signal is by `provider` and from the period.
pub open spec fn signal_selected(signal: Signal, provider: Address, date_range: Option<DateRange>) -> bool {
    signal.provider == provider && in_range(signal.timestamp, date_range)
}

/// Positions of the signals of `provider` from the period, in order, as far
/// as one export holds them.
pub open spec fn selected_signals(
    signals: Seq<Signal>,
    provider: Address,
    date_range: Option<DateRange>,
) -> Seq<int>
    decreases signals.len(),
{
    if signals.len() == 0 {
        Seq::empty()
    } else {
        let earlier = selected_signals(signals.drop_last(), provider, date_range);
        if earlier.len() < MAX_EXPORT_RECORDS && signal_selected(
            signals.last(),
            provider,
            date_range,
        ) {
            earlier.push(signals.len() - 1)
        } else {
            earlier
        }
    }
}

/// The average return of the trades on a signal in basis points, rounded
/// toward zero; zero for a signal without trades.
pub open spec fn average_roi(signal: Signal) -> int {
    if signal.executions > 0 {
        div_toward_zero(signal.total_roi as int, signal.executions as int)
    } else {
        0
    }
}

/// Whether `timestamp` lies in the period, if there is one.
fn within(timestamp: u64, date_range: Option<DateRange>) -> (r: bool)
    ensures
        r == in_range(timestamp, date_range),
{
    match date_range {
        Some((start, end)) => start <= timestamp && timestamp <= end,
        None => true,
    }
}

/// Positions of the signals of `provider` from the period, in order, at
/// most 500 of them.
pub fn collect_provider_signals(signals: &Vec<Signal>, provider: &Address, date_range: Option<
    DateRange,
>) -> (found: Vec<usize>)
    ensures
        found@.len() == selected_signals(signals@, *provider, date_range).len(),
        found@.len() <= MAX_EXPORT_RECORDS,
        forall|k: int|
            0 <= k < found@.len() ==> (#[trigger] found@[k]) == selected_signals(
                signals@,
                *provider,
                date_range,
            )[k],
        forall|k: int| 0 <= k < found@.len() ==> (#[trigger] found@[k]) < signals@.len(),
{
    let n = signals.len();
    let mut found: Vec<usize> = Vec::new();
    let mut i: usize = 0;
    while i < n
        invariant
            n == signals@.len(),
            i <= n,
            found@.len() == selected_signals(signals@.take(i as int), *provider, date_range).len(),
            found@.len() <= MAX_EXPORT_RECORDS,
            forall|k: int|
                0 <= k < found@.len() ==> (#[trigger] found@[k]) == selected_signals(
                    signals@.take(i as int),
                    *provider,
                    date_range,
                )[k],
            forall|k: int| 0 <= k < found@.len() ==> (#[trigger] found@[k]) < i,
        decreases n - i,
    {
        proof {
            assert(signals@.take(i + 1).drop_last() =~= signals@.take(i as int));
        }
        let signal = &signals[i];
        if found.len() < MAX_EXPORT_RECORDS as usize && signal.provider == *provider && within(
            signal.timestamp,
            date_range,
        ) {
            found.push(i);
        }
        i = i + 1;
    }
    assert(signals@.take(n as int) =~= signals@);
    found
}

/// The average return of the trades on a signal.
fn avg_roi(signal: &Signal) -> (r: i128)
    ensures
        r == average_roi(*signal),
{
    if signal.executions > 0 {
        div_by_positive(signal.total_roi, signal.executions as i128)
    } else {
        0
    }
}

// ----- signals -----

/// The first line of a signal export in CSV.
pub open spec fn signal_csv_header() -> Seq<char> {
    "signal_id,timestamp,asset_pair,action,price,rationale,executions,total_roi,status\n"@
}

/// `prefix` followed by the line of one signal in CSV.
pub open spec fn signal_csv_row(prefix: Seq<char>, signal: Signal) -> Seq<char> {
    prefix + decimal(signal.id as int) + ","@ + decimal(signal.timestamp as int) + ","@ + csv_text(
        signal.asset_pair@,
    ) + ","@ + action_text(signal.action) + ","@ + decimal(signal.price as int) + ","@ + csv_text(
        signal.rationale@,
    ) + ","@ + decimal(signal.executions as int) + ","@ + percent_text(average_roi(signal)) + ","@
        + status_text(signal.status) + "\n"@
}

/// `prefix` followed by the lines of the signals at `positions` in CSV.
pub open spec fn signal_csv_rows(prefix: Seq<char>, signals: Seq<Signal>, positions: Seq<int>) -> Seq<
    char,
>
    decreases positions.len(),
{
    if positions.len() == 0 {
        prefix
    } else {
        signal_csv_row(
            signal_csv_rows(prefix, signals, positions.drop_last()),
            signals[positions.last()],
        )
    }
}

/// `prefix` followed by the object of one signal in JSON.
pub open spec fn signal_json(prefix: Seq<char>, signal: Signal) -> Seq<char> {
    prefix + "{\"signal_id\":"@ + decimal(signal.id as int) + ",\"timestamp\":"@ + decimal(
        signal.timestamp as int,
    ) + ",\"asset_pair\":\""@ + json_text(signal.asset_pair@) + "\",\"action\":\""@ + action_text(
        signal.action,
    ) + "\",\"price\":"@ + decimal(signal.price as int) + ",\"rationale\":\""@ + json_text(
        signal.rationale@,
    ) + "\",\"executions\":"@ + decimal(signal.executions as int) + ",\"avg_roi_bps\":"@ + decimal(
        average_roi(signal),
    ) + ",\"total_roi_pct\":\""@ + percent_text(average_roi(signal)) + "\",\"status\":\""@
        + status_text(signal.status) + "\"}"@
}

/// `prefix` followed by the objects of the signals at `positions` in JSON,
/// with commas between them.
pub open spec fn signal_json_items(prefix: Seq<char>, signals: Seq<Signal>, positions: Seq<int>) -> Seq<
    char,
>
    decreases positions.len(),
{
    if positions.len() == 0 {
        prefix
    } else if positions.len() == 1 {
        signal_json(prefix, signals[positions.last()])
    } else {
        signal_json(
            signal_json_items(prefix, signals, positions.drop_last()) + ","@,
            signals[positions.last()],
        )
    }
}

/// The signal export of `provider` for the period in CSV: a header line and
/// one line per signal.
pub open spec fn signals_csv(signals: Seq<Signal>, provider: Address, date_range: Option<DateRange>) -> Seq<
    char,
> {
    signal_csv_rows(
        signal_csv_header(),
        signals,
        selected_signals(signals, provider, date_range),
    )
}

/// The signal export of `provider` for the period in JSON: an array with
/// one object per signal.
pub open spec fn signals_json(signals: Seq<Signal>, provider: Address, date_range: Option<DateRange>) -> Seq<
    char,
> {
    signal_json_items("["@, signals, selected_signals(signals, provider, date_range)) + "]"@
}

/// Appends the CSV line of `signal`.
fn push_signal_csv_row(out: &mut String, signal: &Signal)
    ensures
        final(out)@ == signal_csv_row(old(out)@, *signal),
{
    out.append(u64_to_str(signal.id).as_str());
    out.append(",");
    out.append(u64_to_str(signal.timestamp).as_str());
    out.append(",");
    out.append(csv_escape(signal.asset_pair.as_str()).as_str());
    out.append(",");
    out.append(signal_action_str(&signal.action));
    out.append(",");
    out.append(i128_to_str(signal.price).as_str());
    out.append(",");
    out.append(csv_escape(signal.rationale.as_str()).as_str());
    out.append(",");
    out.append(u32_to_str(signal.executions).as_str());
    out.append(",");
    out.append(bps_to_pct_str(avg_roi(signal)).as_str());
    out.append(",");
    out.append(signal_status_str(&signal.status));
    out.append("\n");
}

/// Appends the JSON object of `signal`.
fn push_signal_json(out: &mut String, signal: &Signal)
    ensures
        final(out)@ == signal_json(old(out)@, *signal),
{
    let roi = avg_roi(signal);
    out.append("{\"signal_id\":");
    out.append(u64_to_str(signal.id).as_str());
    out.append(",\"timestamp\":");
    out.append(u64_to_str(signal.timestamp).as_str());
    out.append(",\"asset_pair\":\"");
    out.append(json_escape(signal.asset_pair.as_str()).as_str());
    out.append("\",\"action\":\"");
    out.append(signal_action_str(&signal.action));
    out.append("\",\"price\":");
    out.append(i128_to_str(signal.price).as_str());
    out.append(",\"rationale\":\"");
    out.append(json_escape(signal.rationale.as_str()).as_str());
    out.append("\",\"executions\":");
    out.append(u32_to_str(signal.executions).as_str());
    out.append(",\"avg_roi_bps\":");
    out.append(i128_to_str(roi).as_str());
    out.append(",\"total_roi_pct\":\"");
    out.append(bps_to_pct_str(roi).as_str());
    out.append("\",\"status\":\"");
    out.append(signal_status_str(&signal.status));
    out.append("\"}");
}

/// The bytes of `text`.
fn into_bytes(text: &String) -> (bytes: Vec<u8>)
    ensures
        bytes@ == encode_utf8(text@),
{
    let mut bytes: Vec<u8> = Vec::new();
    push_str(&mut bytes, text.as_str());
    assert(bytes@ =~= encode_utf8(text@));
    bytes
}

/// Exports the signals of `provider` from the period as CSV: a header line
/// and one line per signal.
pub fn export_signals_csv(signals: &Vec<Signal>, provider: &Address, date_range: Option<DateRange>) -> (r:
    Result<Vec<u8>, ExportError>)
    ensures
        r matches Ok(bytes) && bytes@ == encode_utf8(signals_csv(signals@, *provider, date_range)),
{
    let found = collect_provider_signals(signals, provider, date_range);
    let ghost positions = selected_signals(signals@, *provider, date_range);
    let mut out = String::from_str(
        "signal_id,timestamp,asset_pair,action,price,rationale,executions,total_roi,status\n",
    );
    let mut k: usize = 0;
    assert(positions.take(0) =~= Seq::<int>::empty());
    while k < found.len()
        invariant
            k <= found@.len(),
            found@.len() == positions.len(),
            forall|j: int| 0 <= j < found@.len() ==> (#[trigger] found@[j]) == positions[j],
            forall|j: int| 0 <= j < found@.len() ==> (#[trigger] found@[j]) < signals@.len(),
            out@ == signal_csv_rows(signal_csv_header(), signals@, positions.take(k as int)),
        decreases found@.len() - k,
    {
        proof {
            assert(positions.take(k + 1).drop_last() =~= positions.take(k as int));
        }
        push_signal_csv_row(&mut out, &signals[found[k]]);
        k = k + 1;
    }
    assert(positions.take(found@.len() as int) =~= positions);
    Ok(into_bytes(&out))
}

/// Exports the signals of `provider` from the period as a JSON array.
pub fn export_signals_json(signals: &Vec<Signal>, provider: &Address, date_range: Option<DateRange>) -> (r:
    Result<Vec<u8>, ExportError>)
    ensures
        r matches Ok(bytes) && bytes@ == encode_utf8(signals_json(signals@, *provider, date_range)),
{
    let found = collect_provider_signals(signals, provider, date_range);
    let ghost positions = selected_signals(signals@, *provider, date_range);
    let mut out = String::from_str("[");
    let mut k: usize = 0;
    assert(positions.take(0) =~= Seq::<int>::empty());
    while k < found.len()
        invariant
            k <= found@.len(),
            found@.len() == positions.len(),
            forall|j: int| 0 <= j < found@.len() ==> (#[trigger] found@[j]) == positions[j],
            forall|j: int| 0 <= j < found@.len() ==> (#[trigger] found@[j]) < signals@.len(),
            out@ == signal_json_items("["@, signals@, positions.take(k as int)),
        decreases found@.len() - k,
    {
        proof {
            assert(positions.take(k + 1).drop_last() =~= positions.take(k as int));
        }
        if k > 0 {
            out.append(",");
        }
        push_signal_json(&mut out, &signals[found[k]]);
        k = k + 1;
    }
    assert(positions.take(found@.len() as int) =~= positions);
    out.append("]");
    Ok(into_bytes(&out))
}

// ----- trades -----

/// Position of the first signal with identifier `id`, or the number of
/// signals if there is none.
pub open spec fn signal_index(signals: Seq<Signal>, id: u64) -> int
    decreases signals.len(),
{
    if signals.len() == 0 {
        0
    } else {
        let earlier = signal_index(signals.drop_last(), id);
        if earlier < signals.len() - 1 {
            earlier
        } else if signals.last().id == id {
            signals.len() - 1
        } else {
            signals.len() as int
        }
    }
}

/// A signal with identifier `id` exists.
pub open spec fn has_signal(signals: Seq<Signal>, id: u64) -> bool {
    signal_index(signals, id) < signals.len()
}

/// A signal found among the first signals is the one found among all.
proof fn lemma_signal_index_prefix(signals: Seq<Signal>, id: u64, n: int)
    requires
        0 <= n <= signals.len(),
        signal_index(signals.take(n), id) < n,
    ensures
        signal_index(signals, id) == signal_index(signals.take(n), id),
    decreases signals.len(),
{
    if n < signals.len() {
        assert(signals.drop_last().take(n) =~= signals.take(n));
        lemma_signal_index_prefix(signals.drop_last(), id, n);
    } else {
        assert(signals.take(n) =~= signals);
    }
}

/// Finds the first signal with identifier `id`.
pub fn find_signal(signals: &Vec<Signal>, id: u64) -> (r: Option<usize>)
    ensures
        r is Some <==> has_signal(signals@, id),
        r matches Some(i) ==> i == signal_index(signals@, id) && i < signals@.len(),
{
    let n = signals.len();
    let mut i: usize = 0;
    while i < n
        invariant
            n == signals@.len(),
            i <= n,
            signal_index(signals@.take(i as int), id) == i,
        decreases n - i,
    {
        proof {
            assert(signals@.take(i + 1).drop_last() =~= signals@.take(i as int));
        }
        if signals[i].id == id {
            proof {
                lemma_signal_index_prefix(signals@, id, i + 1);
            }
            return Some(i);
        }
        i = i + 1;
    }
    assert(signals@.take(n as int) =~= signals@);
    None
}

/// The trades made by `executor`, in order.
pub open spec fn executor_trades(trades: Seq<TradeRecord>, executor: Address) -> Seq<TradeExecution>
    decreases trades.len(),
{
    if trades.len() == 0 {
        Seq::empty()
    } else if trades.last().trade.executor == executor {
        executor_trades(trades.drop_last(), executor).push(trades.last().trade)
    } else {
        executor_trades(trades.drop_last(), executor)
    }
}

/// The trades on signals of `provider`, in order.
pub open spec fn provider_trades(trades: Seq<TradeRecord>, signals: Seq<Signal>, provider: Address) -> Seq<
    TradeExecution,
>
    decreases trades.len(),
{
    if trades.len() == 0 {
        Seq::empty()
    } else {
        let last = trades.last().trade;
        if has_signal(signals, last.signal_id) && signals[signal_index(
            signals,
            last.signal_id,
        )].provider == provider {
            provider_trades(trades.drop_last(), signals, provider).push(last)
        } else {
            provider_trades(trades.drop_last(), signals, provider)
        }
    }
}

/// The trade is by `executor`, from the period, and on a signal that
/// exists.
pub open spec fn trade_selected(
    record: TradeRecord,
    signals: Seq<Signal>,
    executor: Address,
    date_range: Option<DateRange>,
) -> bool {
    record.trade.executor == executor && in_range(record.trade.timestamp, date_range)
        && has_signal(signals, record.trade.signal_id)
}

/// Positions of the trades of `executor` from the period, in order, as far
/// as one export holds them.
pub open spec fn selected_trades(
    trades: Seq<TradeRecord>,
    signals: Seq<Signal>,
    executor: Address,
    date_range: Option<DateRange>,
) -> Seq<int>
    decreases trades.len(),
{
    if trades.len() == 0 {
        Seq::empty()
    } else {
        let earlier = selected_trades(trades.drop_last(), signals, executor, date_range);
        if earlier.len() < MAX_EXPORT_RECORDS && trade_selected(
            trades.last(),
            signals,
            executor,
            date_range,
        ) {
            earlier.push(trades.len() - 1)
        } else {
            earlier
        }
    }
}

/// Profit or loss of a trade: volume times return over 10 000, rounded
/// toward zero. A product that cannot be represented counts as the largest
/// number.
pub open spec fn profit_and_loss(trade: TradeExecution) -> int {
    if fits(trade.volume * trade.roi) {
        div_toward_zero(trade.volume * trade.roi, 10_000)
    } else {
        div_toward_zero(i128::MAX as int, 10_000)
    }
}

/// The asset pair of the signal that a trade followed.
pub open spec fn traded_pair(signals: Seq<Signal>, record: TradeRecord) -> Seq<char> {
    signals[signal_index(signals, record.trade.signal_id)].asset_pair@
}

/// The first line of a trade export in CSV.
pub open spec fn trade_csv_header() -> Seq<char> {
    "trade_id,timestamp,signal_id,asset_pair,volume,entry_price,exit_price,roi_bps,pnl\n"@
}

/// `prefix` followed by the line of one trade in CSV.
pub open spec fn trade_csv_row(prefix: Seq<char>, record: TradeRecord, pair: Seq<char>) -> Seq<char> {
    prefix + decimal(record.trade_id as int) + ","@ + decimal(record.trade.timestamp as int) + ","@
        + decimal(record.trade.signal_id as int) + ","@ + csv_text(pair) + ","@ + decimal(
        record.trade.volume as int,
    ) + ","@ + decimal(record.trade.entry_price as int) + ","@ + decimal(
        record.trade.exit_price as int,
    ) + ","@ + decimal(record.trade.roi as int) + ","@ + decimal(profit_and_loss(record.trade))
        + "\n"@
}

/// `prefix` followed by the object of one trade in JSON.
pub open spec fn trade_json(prefix: Seq<char>, record: TradeRecord, pair: Seq<char>) -> Seq<char> {
    prefix + "{\"trade_id\":"@ + decimal(record.trade_id as int) + ",\"timestamp\":"@ + decimal(
        record.trade.timestamp as int,
    ) + ",\"signal_id\":"@ + decimal(record.trade.signal_id as int) + ",\"asset_pair\":\""@
        + json_text(pair) + "\",\"volume\":"@ + decimal(record.trade.volume as int)
        + ",\"entry_price\":"@ + decimal(record.trade.entry_price as int) + ",\"exit_price\":"@
        + decimal(record.trade.exit_price as int) + ",\"roi_bps\":"@ + decimal(
        record.trade.roi as int,
    ) + ",\"roi_pct\":\""@ + percent_text(record.trade.roi as int) + "\",\"pnl\":"@ + decimal(
        profit_and_loss(record.trade),
    ) + "}"@
}

/// `prefix` followed by the lines of the trades at `positions` in CSV.
pub open spec fn trade_csv_rows(
    prefix: Seq<char>,
    trades: Seq<TradeRecord>,
    signals: Seq<Signal>,
    positions: Seq<int>,
) -> Seq<char>
    decreases positions.len(),
{
    if positions.len() == 0 {
        prefix
    } else {
        trade_csv_row(
            trade_csv_rows(prefix, trades, signals, positions.drop_last()),
            trades[positions.last()],
            traded_pair(signals, trades[positions.last()]),
        )
    }
}

/// `prefix` followed by the objects of the trades at `positions` in JSON,
/// with commas between them.
pub open spec fn trade_json_items(
    prefix: Seq<char>,
    trades: Seq<TradeRecord>,
    signals: Seq<Signal>,
    positions: Seq<int>,
) -> Seq<char>
    decreases positions.len(),
{
    if positions.len() == 0 {
        prefix
    } else if positions.len() == 1 {
        trade_json(
            prefix,
            trades[positions.last()],
            traded_pair(signals, trades[positions.last()]),
        )
    } else {
        trade_json(
            trade_json_items(prefix, trades, signals, positions.drop_last()) + ","@,
            trades[positions.last()],
            traded_pair(signals, trades[positions.last()]),
        )
    }
}

/// The trade export of `executor` for the period in CSV: a header line and
/// one line per trade.
pub open spec fn trades_csv(
    trades: Seq<TradeRecord>,
    signals: Seq<Signal>,
    executor: Address,
    date_range: Option<DateRange>,
) -> Seq<char> {
    trade_csv_rows(
        trade_csv_header(),
        trades,
        signals,
        selected_trades(trades, signals, executor, date_range),
    )
}

/// The trade export of `executor` for the period in JSON: an array with
/// one object per trade.
pub open spec fn trades_json(
    trades: Seq<TradeRecord>,
    signals: Seq<Signal>,
    executor: Address,
    date_range: Option<DateRange>,
) -> Seq<char> {
    trade_json_items(
        "["@,
        trades,
        signals,
        selected_trades(trades, signals, executor, date_range),
    ) + "]"@
}

/// All trades made by `executor`.
pub fn get_executor_trades(trades: &Vec<TradeRecord>, executor: &Address) -> (found: Vec<
    TradeExecution,
>)
    ensures
        found@ == executor_trades(trades@, *executor),
{
    let n = trades.len();
    let mut found: Vec<TradeExecution> = Vec::new();
    let mut i: usize = 0;
    while i < n
        invariant
            n == trades@.len(),
            i <= n,
            found@ == executor_trades(trades@.take(i as int), *executor),
        decreases n - i,
    {
        proof {
            assert(trades@.take(i + 1).drop_last() =~= trades@.take(i as int));
        }
        if trades[i].trade.executor == *executor {
            found.push(trades[i].trade);
        }
        i = i + 1;
    }
    assert(trades@.take(n as int) =~= trades@);
    found
}

/// All trades on signals of `provider`.
pub fn get_provider_trades(trades: &Vec<TradeRecord>, signals: &Vec<Signal>, provider: &Address) -> (found:
    Vec<TradeExecution>)
    ensures
        found@ == provider_trades(trades@, signals@, *provider),
{
    let n = trades.len();
    let mut found: Vec<TradeExecution> = Vec::new();
    let mut i: usize = 0;
    while i < n
        invariant
            n == trades@.len(),
            i <= n,
            found@ == provider_trades(trades@.take(i as int), signals@, *provider),
        decreases n - i,
    {
        proof {
            assert(trades@.take(i + 1).drop_last() =~= trades@.take(i as int));
        }
        match find_signal(signals, trades[i].trade.signal_id) {
            Some(at) => {
                if signals[at].provider == *provider {
                    found.push(trades[i].trade);
                }
            },
            None => {},
        }
        i = i + 1;
    }
    assert(trades@.take(n as int) =~= trades@);
    found
}

/// Positions of the trades of `executor` from the period, in order, at most
/// 500 of them.
pub fn collect_trades(
    trades: &Vec<TradeRecord>,
    signals: &Vec<Signal>,
    executor: &Address,
    date_range: Option<DateRange>,
) -> (found: Vec<usize>)
    ensures
        found@.len() == selected_trades(trades@, signals@, *executor, date_range).len(),
        found@.len() <= MAX_EXPORT_RECORDS,
        forall|k: int|
            0 <= k < found@.len() ==> (#[trigger] found@[k]) == selected_trades(
                trades@,
                signals@,
                *executor,
                date_range,
            )[k],
        forall|k: int|
            0 <= k < found@.len() ==> (#[trigger] found@[k]) < trades@.len() && has_signal(
                signals@,
                trades@[found@[k] as int].trade.signal_id,
            ),
{
    let n = trades.len();
    let mut found: Vec<usize> = Vec::new();
    let mut i: usize = 0;
    while i < n
        invariant
            n == trades@.len(),
            i <= n,
            found@.len() == selected_trades(
                trades@.take(i as int),
                signals@,
                *executor,
                date_range,
            ).len(),
            found@.len() <= MAX_EXPORT_RECORDS,
            forall|k: int|
                0 <= k < found@.len() ==> (#[trigger] found@[k]) == selected_trades(
                    trades@.take(i as int),
                    signals@,
                    *executor,
                    date_range,
                )[k],
            forall|k: int|
                0 <= k < found@.len() ==> (#[trigger] found@[k]) < i && has_signal(
                    signals@,
                    trades@[found@[k] as int].trade.signal_id,
                ),
        decreases n - i,
    {
        proof {
            assert(trades@.take(i + 1).drop_last() =~= trades@.take(i as int));
        }
        let trade = &trades[i].trade;
        if found.len() < MAX_EXPORT_RECORDS as usize && trade.executor == *executor && within(
            trade.timestamp,
            date_range,
        ) && find_signal(signals, trade.signal_id).is_some() {
            found.push(i);
        }
        i = i + 1;
    }
    assert(trades@.take(n as int) =~= trades@);
    found
}

/// Profit or loss of a trade.
fn pnl(trade: &TradeExecution) -> (r: i128)
    ensures
        r == profit_and_loss(*trade),
{
    let product = match trade.volume.checked_mul(trade.roi) {
        Some(product) => product,
        None => i128::MAX,
    };
    div_by_positive(product, 10_000)
}

/// Appends the CSV line of a trade on a signal for `pair`.
fn push_trade_csv_row(out: &mut String, record: &TradeRecord, pair: &str)
    ensures
        final(out)@ == trade_csv_row(old(out)@, *record, pair@),
{
    out.append(u64_to_str(record.trade_id).as_str());
    out.append(",");
    out.append(u64_to_str(record.trade.timestamp).as_str());
    out.append(",");
    out.append(u64_to_str(record.trade.signal_id).as_str());
    out.append(",");
    out.append(csv_escape(pair).as_str());
    out.append(",");
    out.append(i128_to_str(record.trade.volume).as_str());
    out.append(",");
    out.append(i128_to_str(record.trade.entry_price).as_str());
    out.append(",");
    out.append(i128_to_str(record.trade.exit_price).as_str());
    out.append(",");
    out.append(i128_to_str(record.trade.roi).as_str());
    out.append(",");
    out.append(i128_to_str(pnl(&record.trade)).as_str());
    out.append("\n");
}

/// Appends the JSON object of a trade on a signal for `pair`.
fn push_trade_json(out: &mut String, record: &TradeRecord, pair: &str)
    ensures
        final(out)@ == trade_json(old(out)@, *record, pair@),
{
    out.append("{\"trade_id\":");
    out.append(u64_to_str(record.trade_id).as_str());
    out.append(",\"timestamp\":");
    out.append(u64_to_str(record.trade.timestamp).as_str());
    out.append(",\"signal_id\":");
    out.append(u64_to_str(record.trade.signal_id).as_str());
    out.append(",\"asset_pair\":\"");
    out.append(json_escape(pair).as_str());
    out.append("\",\"volume\":");
    out.append(i128_to_str(record.trade.volume).as_str());
    out.append(",\"entry_price\":");
    out.append(i128_to_str(record.trade.entry_price).as_str());
    out.append(",\"exit_price\":");
    out.append(i128_to_str(record.trade.exit_price).as_str());
    out.append(",\"roi_bps\":");
    out.append(i128_to_str(record.trade.roi).as_str());
    out.append(",\"roi_pct\":\"");
    out.append(bps_to_pct_str(record.trade.roi).as_str());
    out.append("\",\"pnl\":");
    out.append(i128_to_str(pnl(&record.trade)).as_str());
    out.append("}");
}

/// Exports the trades of `executor` from the period as CSV: a header line
/// and one line per trade.
pub fn export_trades_csv(
    trades: &Vec<TradeRecord>,
    signals: &Vec<Signal>,
    executor: &Address,
    date_range: Option<DateRange>,
) -> (r: Result<Vec<u8>, ExportError>)
    ensures
        r matches Ok(bytes) && bytes@ == encode_utf8(
            trades_csv(trades@, signals@, *executor, date_range),
        ),
{
    let found = collect_trades(trades, signals, executor, date_range);
    let ghost positions = selected_trades(trades@, signals@, *executor, date_range);
    let mut out = String::from_str(
        "trade_id,timestamp,signal_id,asset_pair,volume,entry_price,exit_price,roi_bps,pnl\n",
    );
    let mut k: usize = 0;
    assert(positions.take(0) =~= Seq::<int>::empty());
    while k < found.len()
        invariant
            k <= found@.len(),
            found@.len() == positions.len(),
            forall|j: int| 0 <= j < found@.len() ==> (#[trigger] found@[j]) == positions[j],
            forall|j: int|
                0 <= j < found@.len() ==> (#[trigger] found@[j]) < trades@.len() && has_signal(
                    signals@,
                    trades@[found@[j] as int].trade.signal_id,
                ),
            out@ == trade_csv_rows(
                trade_csv_header(),
                trades@,
                signals@,
                positions.take(k as int),
            ),
        decreases found@.len() - k,
    {
        proof {
            assert(positions.take(k + 1).drop_last() =~= positions.take(k as int));
        }
        let record = &trades[found[k]];
        match find_signal(signals, record.trade.signal_id) {
            Some(at) => {
                push_trade_csv_row(&mut out, record, signals[at].asset_pair.as_str());
            },
            None => {},
        }
        k = k + 1;
    }
    assert(positions.take(found@.len() as int) =~= positions);
    Ok(into_bytes(&out))
}

/// Exports the trades of `executor` from the period as a JSON array.
pub fn export_trades_json(
    trades: &Vec<TradeRecord>,
    signals: &Vec<Signal>,
    executor: &Address,
    date_range: Option<DateRange>,
) -> (r: Result<Vec<u8>, ExportError>)
    ensures
        r matches Ok(bytes) && bytes@ == encode_utf8(
            trades_json(trades@, signals@, *executor, date_range),
        ),
{
    let found = collect_trades(trades, signals, executor, date_range);
    let ghost positions = selected_trades(trades@, signals@, *executor, date_range);
    let mut out = String::from_str("[");
    let mut k: usize = 0;
    assert(positions.take(0) =~= Seq::<int>::empty());
    while k < found.len()
        invariant
            k <= found@.len(),
            found@.len() == positions.len(),
            forall|j: int| 0 <= j < found@.len() ==> (#[trigger] found@[j]) == positions[j],
            forall|j: int|
                0 <= j < found@.len() ==> (#[trigger] found@[j]) < trades@.len() && has_signal(
                    signals@,
                    trades@[found@[j] as int].trade.signal_id,
                ),
            out@ == trade_json_items("["@, trades@, signals@, positions.take(k as int)),
        decreases found@.len() - k,
    {
        proof {
            assert(positions.take(k + 1).drop_last() =~= positions.take(k as int));
        }
        if k > 0 {
            out.append(",");
        }
        let record = &trades[found[k]];
        match find_signal(signals, record.trade.signal_id) {
            Some(at) => {
                push_trade_json(&mut out, record, signals[at].asset_pair.as_str());
            },
            None => {},
        }
        k = k + 1;
    }
    assert(positions.take(found@.len() as int) =~= positions);
    out.append("]");
    Ok(into_bytes(&out))
}

} // verus!
