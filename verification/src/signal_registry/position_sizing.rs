//! Position sizing from volatility and provider statistics.
//!
//! Sizes, rates and volatilities are integers; rates and volatilities are in
//! basis points, 10 000 of which make a whole.

use vstd::prelude::*;
use crate::address::Address;
use crate::address_map::AddressMap;
use crate::arith::{
    div_by_positive, div_toward_zero, fits, lemma_product_sign, saturated, saturating_add,
    saturating_mul,
};
use crate::auto_trade::error::AutoTradeError;
use crate::signal_registry::price_history::PriceHistory;

verus! {

/// Volatility assumed when the price history is too short, in basis points.
pub const DEFAULT_VOLATILITY_BPS: i128 = 2000;

/// Target volatility used when the configuration names none.
pub const DEFAULT_TARGET_VOLATILITY_BPS: i128 = 500;

/// Smallest position size.
pub const MIN_POSITION_SIZE: i128 = 1;

/// Fewest price observations that give a volatility estimate.
pub const MIN_PRICE_HISTORY: usize = 2;

/// Volatility assumed when the estimate is zero.
pub const MAX_VOLATILITY_BPS: i128 = 10_000;

/// Default Kelly multiplier (half Kelly), out of 100.
pub const DEFAULT_KELLY_MULTIPLIER: u32 = 50;

/// Largest value of a setting that is given in basis points.
pub const MAX_BPS: u32 = 10_000;

/// Largest Kelly multiplier.
pub const MAX_KELLY_MULTIPLIER: u32 = 100;

/// How position sizes are calculated.
#[derive(Clone, Copy, Debug, PartialEq, Eq, Structural)]
pub enum SizingMethod {
    /// Risk budget divided by volatility.
    FixedPercentage,
    /// Fractional Kelly criterion from the provider's statistics.
    Kelly,
    /// A base allocation scaled to a target volatility.
    VolatilityScaled,
}

/// A user's position-sizing settings.
#[derive(Clone, Copy, Debug, PartialEq, Eq, Structural)]
pub struct PositionSizingConfig {
    /// Which sizing method to use.
    pub method: SizingMethod,
    /// Risk budget per trade in basis points.
    pub risk_per_trade_bps: u32,
    /// Largest position as a share of the portfolio, in basis points.
    pub max_position_pct_bps: u32,
    /// Kelly multiplier, out of 100.
    pub kelly_multiplier: u32,
    /// Target volatility for `VolatilityScaled`, in basis points.
    pub target_volatility_bps: u32,
    /// Base allocation for `VolatilityScaled`, in basis points.
    pub base_position_pct_bps: u32,
}

/// The settings of a user who has chosen none.
pub open spec fn default_sizing_config() -> PositionSizingConfig {
    PositionSizingConfig {
        method: SizingMethod::FixedPercentage,
        risk_per_trade_bps: 200,
        max_position_pct_bps: 2000,
        kelly_multiplier: DEFAULT_KELLY_MULTIPLIER,
        target_volatility_bps: 500,
        base_position_pct_bps: 1000,
    }
}

impl Default for PositionSizingConfig {
    fn default() -> (config: PositionSizingConfig)
        ensures
            config == default_sizing_config(),
    {
        PositionSizingConfig {
            method: SizingMethod::FixedPercentage,
            risk_per_trade_bps: 200,
            max_position_pct_bps: 2000,
            kelly_multiplier: DEFAULT_KELLY_MULTIPLIER,
            target_volatility_bps: 500,
            base_position_pct_bps: 1000,
        }
    }
}

/// A sizing recommendation with what it was derived from.
#[derive(Clone, Copy, Debug, PartialEq, Eq, Structural)]
pub struct SizingRecommendation {
    /// Recommended position size after all adjustments.
    pub recommended_size: i128,
    /// Largest size that the portfolio limit allows.
    pub max_size: i128,
    /// Volatility used in the calculation, in basis points.
    pub volatility_bps: i128,
    /// Portfolio value at the time of calculation.
    pub portfolio_value: i128,
    /// Whether the recommended size was cut down to `max_size`.
    pub was_capped: bool,
}

/// Keys under which a host stores the sizing records.
#[derive(Clone, Copy, Debug)]
pub enum SizingDataKey {
    UserSizingConfig(Address),
    /// Price by asset and slot.
    PriceHistory(u32, u32),
    /// Number of prices stored for an asset.
    PriceHistoryLen(u32),
    /// Next slot to write for an asset.
    PriceHistoryHead(u32),
}

/// The settings are within their ranges.
pub open spec fn sizing_config_valid(config: PositionSizingConfig) -> bool {
    config.max_position_pct_bps <= MAX_BPS && config.kelly_multiplier <= MAX_KELLY_MULTIPLIER
        && config.risk_per_trade_bps <= MAX_BPS
}

/// Accepts settings that are within their ranges and refuses all others
/// with `InvalidSizingConfig`.
pub fn validate_sizing_config(config: &PositionSizingConfig) -> (r: Result<(), AutoTradeError>)
    ensures
        r is Ok <==> sizing_config_valid(*config),
        r is Err ==> r == Err::<(), AutoTradeError>(AutoTradeError::InvalidSizingConfig),
{
    if config.max_position_pct_bps > MAX_BPS {
        return Err(AutoTradeError::InvalidSizingConfig);
    }
    if config.kelly_multiplier > MAX_KELLY_MULTIPLIER {
        return Err(AutoTradeError::InvalidSizingConfig);
    }
    if config.risk_per_trade_bps > MAX_BPS {
        return Err(AutoTradeError::InvalidSizingConfig);
    }
    Ok(())
}

/// The settings on record for `user`, or the default settings.
pub open spec fn config_on_record(configs: Map<Address, PositionSizingConfig>, user: Address) -> PositionSizingConfig {
    if configs.dom().contains(user) {
        configs[user]
    } else {
        default_sizing_config()
    }
}

/// The sizing settings of `user`; the default settings for a user who has
/// chosen none.
pub fn get_sizing_config(configs: &AddressMap<PositionSizingConfig>, user: &Address) -> (config:
    PositionSizingConfig)
    requires
        configs.wf(),
    ensures
        config == config_on_record(configs@, *user),
{
    match configs.get(user) {
        Some(config) => *config,
        None => PositionSizingConfig::default(),
    }
}

/// Records the sizing settings of `user`. Only settings within their ranges
/// may be recorded.
pub fn set_sizing_config(configs: &mut AddressMap<PositionSizingConfig>, user: &Address, config: &PositionSizingConfig)
    requires
        old(configs).wf(),
        sizing_config_valid(*config),
    ensures
        final(configs).wf(),
        final(configs)@ == old(configs)@.insert(*user, *config),
{
    configs.set(*user, *config);
}

/// `r` is the integer square root of `n`: the largest number whose square
/// does not exceed `n`.
pub open spec fn is_sqrt_of(r: int, n: int) -> bool {
    0 <= r && r * r <= n && n < (r + 1) * (r + 1)
}

/// The integer square root of `n`; zero for numbers that are not positive.
pub open spec fn sqrt_floor(n: int) -> int {
    if n <= 0 {
        0
    } else {
        choose|r: int| is_sqrt_of(r, n)
    }
}

/// A number has one integer square root.
pub proof fn lemma_sqrt_unique(r: int, n: int)
    requires
        n > 0,
        is_sqrt_of(r, n),
    ensures
        r == sqrt_floor(n),
{
    let c = sqrt_floor(n);
    assert(is_sqrt_of(c, n));
    assert(r == c) by (nonlinear_arith)
        requires
            0 <= r,
            r * r <= n,
            n < (r + 1) * (r + 1),
            0 <= c,
            c * c <= n,
            n < (c + 1) * (c + 1),
    ;
}

/// One step of the Babylonian iteration never falls below the square root.
proof fn lemma_babylonian_step(n: int, x: int, q: int, t: int)
    requires
        n >= 0,
        x > 0,
        q == n / x,
        t == (x + q) / 2,
    ensures
        q >= 0,
        t >= 0,
        n < (t + 1) * (t + 1),
{
    assert(q >= 0 && x * q <= n && n < x * (q + 1)) by (nonlinear_arith)
        requires
            n >= 0,
            x > 0,
            q == n / x,
    ;
    assert(2 * (t + 1) >= x + q + 1 && t >= 0);
    let d = x - q;
    assert((x + q + 1) * (x + q + 1) == 4 * (x * (q + 1)) + (d - 1) * (d - 1)) by (nonlinear_arith)
        requires
            d == x - q,
    ;
    assert((d - 1) * (d - 1) >= 0) by (nonlinear_arith);
    assert(4 * ((t + 1) * (t + 1)) >= (x + q + 1) * (x + q + 1)) by (nonlinear_arith)
        requires
            2 * (t + 1) >= x + q + 1,
            x + q + 1 >= 0,
    ;
}

/// Integer square root by the Babylonian method. Numbers that are not
/// positive have root zero.
pub fn isqrt(n: i128) -> (r: i128)
    ensures
        r == sqrt_floor(n as int),
        n > 0 ==> is_sqrt_of(r as int, n as int),
{
    if n <= 0 {
        return 0;
    }
    let mut x: i128 = n;
    let mut y: i128 = n / 2 + n % 2;
    proof {
        assert(n < (n + 1) * (n + 1)) by (nonlinear_arith)
            requires
                n > 0,
        ;
        assert(y >= 1 && 2 * y >= n);
        assert(n < (y + 1) * (y + 1)) by (nonlinear_arith)
            requires
                2 * y >= n,
                y >= 1,
                n > 0,
        ;
    }
    while y < x
        invariant
            n > 0,
            0 < y,
            0 < x <= n,
            n < (x + 1) * (x + 1),
            n < (y + 1) * (y + 1),
            y >= x ==> x * x <= n,
        decreases x,
    {
        x = y;
        let q: i128 = n / x;
        proof {
            lemma_babylonian_step(n as int, x as int, q as int, (x + q) / 2);
            assert(q <= n) by (nonlinear_arith)
                requires
                    q == n / x,
                    x >= 1,
                    n > 0,
            ;
        }
        let next: i128 = x / 2 + q / 2 + (x % 2 + q % 2) / 2;
        assert(next == (x + q) / 2);
        proof {
            if next >= x {
                assert(q >= x);
                assert(x * x <= n) by (nonlinear_arith)
                    requires
                        q >= x,
                        q == n / x,
                        x > 0,
                        n > 0,
                ;
            } else {
                assert(next > 0) by {
                    if next == 0 {
                        assert(n < 1);
                    }
                }
            }
        }
        y = next;
    }
    proof {
        lemma_sqrt_unique(x as int, n as int);
    }
    x
}

/// The Kelly numerator: expected gain minus expected loss, in basis points
/// squared.
pub open spec fn kelly_numerator(win_rate_bps: int, avg_win_bps: int, avg_loss_bps: int) -> int {
    win_rate_bps * avg_win_bps - (10_000 - win_rate_bps) * avg_loss_bps
}

/// The Kelly fraction in basis points: the numerator divided by the average
/// win, rounded down and kept between 0 and 10 000; zero where the average
/// win or the numerator is not positive.
pub open spec fn kelly_fraction(win_rate_bps: int, avg_win_bps: int, avg_loss_bps: int) -> int {
    let numerator = kelly_numerator(win_rate_bps, avg_win_bps, avg_loss_bps);
    if avg_win_bps <= 0 || numerator <= 0 {
        0
    } else if numerator / avg_win_bps > 10_000 {
        10_000
    } else {
        numerator / avg_win_bps
    }
}

/// Every intermediate value of the Kelly formula fits the machine integer.
pub open spec fn kelly_fits(win_rate_bps: int, avg_win_bps: int, avg_loss_bps: int) -> bool {
    &&& i128::MIN <= 10_000 - win_rate_bps <= i128::MAX
    &&& i128::MIN <= win_rate_bps * avg_win_bps <= i128::MAX
    &&& i128::MIN <= (10_000 - win_rate_bps) * avg_loss_bps <= i128::MAX
    &&& i128::MIN <= kelly_numerator(win_rate_bps, avg_win_bps, avg_loss_bps) <= i128::MAX
}

/// The Kelly fraction of a provider with the given win rate, average win
/// and average loss (a magnitude), all in basis points.
pub fn calculate_kelly_fraction(win_rate_bps: i128, avg_win_bps: i128, avg_loss_bps: i128) -> (r:
    i128)
    requires
        avg_win_bps > 0 ==> kelly_fits(win_rate_bps as int, avg_win_bps as int, avg_loss_bps as int),
    ensures
        r == kelly_fraction(win_rate_bps as int, avg_win_bps as int, avg_loss_bps as int),
        0 <= r <= 10_000,
{
    if avg_win_bps <= 0 {
        return 0;
    }
    let loss_rate_bps = 10_000 - win_rate_bps;
    let numerator = win_rate_bps * avg_win_bps - loss_rate_bps * avg_loss_bps;
    if numerator <= 0 {
        return 0;
    }
    let kelly = numerator / avg_win_bps;
    assert(kelly >= 0) by (nonlinear_arith)
        requires
            kelly == numerator as int / avg_win_bps as int,
            numerator > 0,
            avg_win_bps > 0,
    ;
    if kelly > 10_000 {
        10_000
    } else {
        kelly
    }
}

/// The Kelly fraction where every intermediate value fits the machine
/// integer, and `None` where one does not.
pub fn checked_kelly_fraction(win_rate_bps: i128, avg_win_bps: i128, avg_loss_bps: i128) -> (r:
    Option<i128>)
    ensures
        r is Some <==> avg_win_bps <= 0 || kelly_fits(
            win_rate_bps as int,
            avg_win_bps as int,
            avg_loss_bps as int,
        ),
        r matches Some(k) ==> k == kelly_fraction(
            win_rate_bps as int,
            avg_win_bps as int,
            avg_loss_bps as int,
        ),
{
    if avg_win_bps <= 0 {
        return Some(0);
    }
    let loss_rate_bps = 10_000i128.checked_sub(win_rate_bps)?;
    let gain = win_rate_bps.checked_mul(avg_win_bps)?;
    let loss = loss_rate_bps.checked_mul(avg_loss_bps)?;
    gain.checked_sub(loss)?;
    Some(calculate_kelly_fraction(win_rate_bps, avg_win_bps, avg_loss_bps))
}

// ----- volatility -----

/// The return from `prev` to `curr` in basis points, rounded toward zero;
/// `None` where the difference or its scaling cannot be represented.
pub open spec fn bps_return(prev: i128, curr: i128) -> Option<i128> {
    if fits(curr - prev) && fits((curr - prev) * 10_000) && fits(
        div_toward_zero((curr - prev) * 10_000, prev as int),
    ) {
        Some(div_toward_zero((curr - prev) * 10_000, prev as int) as i128)
    } else {
        None
    }
}

/// The returns between consecutive prices, skipping those that start from a
/// price of zero; `None` where one of them cannot be represented.
pub open spec fn returns_of(prices: Seq<i128>) -> Option<Seq<i128>>
    decreases prices.len(),
{
    if prices.len() < 2 {
        Some(Seq::empty())
    } else {
        match returns_of(prices.drop_last()) {
            None => None,
            Some(earlier) => {
                let prev = prices[prices.len() - 2];
                let curr = prices[prices.len() - 1];
                if prev == 0 {
                    Some(earlier)
                } else {
                    match bps_return(prev, curr) {
                        None => None,
                        Some(r) => Some(earlier.push(r)),
                    }
                }
            },
        }
    }
}

/// The sum of `items`, saturated after each addition.
pub open spec fn saturating_sum(items: Seq<i128>) -> int
    decreases items.len(),
{
    if items.len() == 0 {
        0
    } else {
        saturated(saturating_sum(items.drop_last()) + items.last())
    }
}

/// The sum of the squared distances of `items` from `mean`, saturated after
/// each addition; `None` where a distance or its square cannot be
/// represented.
pub open spec fn squared_deviations(items: Seq<i128>, mean: int) -> Option<int>
    decreases items.len(),
{
    if items.len() == 0 {
        Some(0)
    } else {
        let diff = items.last() - mean;
        match squared_deviations(items.drop_last(), mean) {
            None => None,
            Some(earlier) => if fits(diff) && fits(diff * diff) {
                Some(saturated(earlier + diff * diff))
            } else {
                None
            },
        }
    }
}

/// The volatility of a price series in basis points: the integer square
/// root of the variance of its returns. A series with fewer than two prices
/// or without a return has the default volatility. `None` where an
/// intermediate value cannot be represented.
pub open spec fn volatility_of(prices: Seq<i128>) -> Option<int> {
    if prices.len() < MIN_PRICE_HISTORY {
        Some(DEFAULT_VOLATILITY_BPS as int)
    } else {
        match returns_of(prices) {
            None => None,
            Some(moves) => if moves.len() == 0 {
                Some(DEFAULT_VOLATILITY_BPS as int)
            } else {
                let mean = div_toward_zero(saturating_sum(moves), moves.len() as int);
                match squared_deviations(moves, mean) {
                    None => None,
                    Some(total) => Some(sqrt_floor(total / (moves.len() as int))),
                }
            },
        }
    }
}

/// Returns that cannot be computed for the first prices cannot be computed
/// for all of them.
proof fn lemma_returns_prefix(prices: Seq<i128>, n: int)
    requires
        0 <= n <= prices.len(),
        returns_of(prices.take(n)) is None,
    ensures
        returns_of(prices) is None,
    decreases prices.len(),
{
    if n < prices.len() {
        assert(prices.drop_last().take(n) =~= prices.take(n));
        lemma_returns_prefix(prices.drop_last(), n);
    } else {
        assert(prices.take(n) =~= prices);
    }
}

/// Deviations that cannot be computed for the first items cannot be
/// computed for all of them.
proof fn lemma_deviations_prefix(items: Seq<i128>, mean: int, n: int)
    requires
        0 <= n <= items.len(),
        squared_deviations(items.take(n), mean) is None,
    ensures
        squared_deviations(items, mean) is None,
    decreases items.len(),
{
    if n < items.len() {
        assert(items.drop_last().take(n) =~= items.take(n));
        lemma_deviations_prefix(items.drop_last(), mean, n);
    } else {
        assert(items.take(n) =~= items);
    }
}

/// The returns between consecutive prices.
fn compute_returns(prices: &Vec<i128>) -> (r: Option<Vec<i128>>)
    ensures
        match r {
            Some(moves) => returns_of(prices@) == Some(moves@),
            None => returns_of(prices@) is None,
        },
{
    let n = prices.len();
    let mut moves: Vec<i128> = Vec::new();
    if n < 2 {
        return Some(moves);
    }
    let mut i: usize = 1;
    assert(returns_of(prices@.take(1)) == Some(Seq::<i128>::empty()));
    while i < n
        invariant
            n == prices@.len(),
            1 <= i <= n,
            returns_of(prices@.take(i as int)) == Some(moves@),
        decreases n - i,
    {
        let prev = prices[i - 1];
        let curr = prices[i];
        proof {
            assert(prices@.take(i + 1).drop_last() =~= prices@.take(i as int));
        }
        if prev != 0 {
            let step = match curr.checked_sub(prev) {
                Some(diff) => match diff.checked_mul(10_000) {
                    Some(scaled) => scaled.checked_div(prev),
                    None => None,
                },
                None => None,
            };
            match step {
                Some(ret) => {
                    moves.push(ret);
                },
                None => {
                    proof {
                        lemma_returns_prefix(prices@, i + 1);
                    }
                    return None;
                },
            }
        }
        i = i + 1;
    }
    assert(prices@.take(n as int) =~= prices@);
    Some(moves)
}

/// The volatility of a price series in basis points, or `None` where an
/// intermediate value cannot be represented.
pub fn checked_volatility(prices: &Vec<i128>) -> (r: Option<i128>)
    ensures
        match r {
            Some(vol) => volatility_of(prices@) == Some(vol as int),
            None => volatility_of(prices@) is None,
        },
        r matches Some(vol) ==> vol >= 0,
{
    if prices.len() < MIN_PRICE_HISTORY {
        return Some(DEFAULT_VOLATILITY_BPS);
    }
    let moves = compute_returns(prices)?;
    let count = moves.len();
    if count == 0 {
        return Some(DEFAULT_VOLATILITY_BPS);
    }
    let r_len: i128 = count as i128;
    let mut sum: i128 = 0;
    let mut i: usize = 0;
    while i < count
        invariant
            count == moves@.len(),
            i <= count,
            sum == saturating_sum(moves@.take(i as int)),
        decreases count - i,
    {
        proof {
            assert(moves@.take(i + 1).drop_last() =~= moves@.take(i as int));
        }
        sum = saturating_add(sum, moves[i]);
        i = i + 1;
    }
    assert(moves@.take(count as int) =~= moves@);
    let mean: i128 = div_by_positive(sum, r_len);
    let mut variance_sum: i128 = 0;
    let mut i: usize = 0;
    while i < count
        invariant
            count == moves@.len(),
            i <= count,
            count > 0,
            prices@.len() >= MIN_PRICE_HISTORY,
            returns_of(prices@) == Some(moves@),
            mean == div_toward_zero(saturating_sum(moves@), count as int),
            variance_sum >= 0,
            squared_deviations(moves@.take(i as int), mean as int) == Some(variance_sum as int),
        decreases count - i,
    {
        proof {
            assert(moves@.take(i + 1).drop_last() =~= moves@.take(i as int));
        }
        let square = match moves[i].checked_sub(mean) {
            Some(diff) => {
                assert(diff * diff >= 0) by (nonlinear_arith);
                diff.checked_mul(diff)
            },
            None => None,
        };
        match square {
            Some(square) => {
                variance_sum = saturating_add(variance_sum, square);
            },
            None => {
                proof {
                    lemma_deviations_prefix(moves@, mean as int, i + 1);
                }
                return None;
            },
        }
        i = i + 1;
    }
    assert(moves@.take(count as int) =~= moves@);
    let variance = variance_sum / r_len;
    Some(isqrt(variance))
}

/// The volatility of the most recent `window_slots + 1` prices in
/// `history`, in basis points.
pub fn calculate_volatility(history: &PriceHistory, window_slots: u32) -> (vol: i128)
    requires
        history.wf(),
        window_slots < u32::MAX,
        volatility_of(
            crate::signal_registry::price_history::keep_last(history@, window_slots + 1),
        ) is Some,
    ensures
        Some(vol as int) == volatility_of(
            crate::signal_registry::price_history::keep_last(history@, window_slots + 1),
        ),
        vol >= 0,
{
    let prices = history.get_price_history(window_slots + 1);
    match checked_volatility(&prices) {
        Some(vol) => vol,
        // Excluded by the precondition.
        None => 0,
    }
}

// ----- position size -----

/// The volatility that sizing works with: the estimate, or the largest
/// volatility where the estimate is zero.
pub open spec fn effective_volatility(raw: i128) -> i128 {
    if raw == 0 {
        MAX_VOLATILITY_BPS
    } else {
        raw
    }
}

/// The larger of two numbers.
pub open spec fn larger(a: int, b: int) -> int {
    if a >= b {
        a
    } else {
        b
    }
}

/// The smaller of two numbers.
pub open spec fn smaller(a: int, b: int) -> int {
    if a <= b {
        a
    } else {
        b
    }
}

/// The size that the configured method gives before any bound is applied.
pub open spec fn raw_size(
    config: PositionSizingConfig,
    portfolio_value: i128,
    volatility_bps: i128,
    win_rate_bps: i128,
    avg_win_bps: i128,
    avg_loss_bps: i128,
) -> int {
    match config.method {
        SizingMethod::FixedPercentage => saturated(portfolio_value * config.risk_per_trade_bps)
            / (volatility_bps as int),
        SizingMethod::Kelly => {
            let kelly = kelly_fraction(win_rate_bps as int, avg_win_bps as int, avg_loss_bps as int);
            if kelly == 0 {
                MIN_POSITION_SIZE as int
            } else {
                saturated(saturated(portfolio_value * kelly) * config.kelly_multiplier)
                    / 1_000_000
            }
        },
        SizingMethod::VolatilityScaled => {
            let target: int = if config.target_volatility_bps == 0 {
                DEFAULT_TARGET_VOLATILITY_BPS as int
            } else {
                config.target_volatility_bps as int
            };
            let base = saturated(portfolio_value * config.base_position_pct_bps) / 10_000;
            saturated(base * target) / (volatility_bps as int)
        },
    }
}

/// The largest size allowed: the lower of the sizing limit (in basis points
/// of the portfolio) and the risk limit (in percent of the portfolio), but
/// at least the minimum size.
pub open spec fn max_size(
    config: PositionSizingConfig,
    portfolio_value: i128,
    risk_max_position_pct: u32,
) -> int {
    larger(
        smaller(
            saturated(portfolio_value * config.max_position_pct_bps) / 10_000,
            saturated(portfolio_value * risk_max_position_pct) / 100,
        ),
        MIN_POSITION_SIZE as int,
    )
}

/// The recommendation for a portfolio that is not negative: the raw size,
/// raised to the minimum size and cut down to the largest size allowed.
pub open spec fn recommendation(
    config: PositionSizingConfig,
    portfolio_value: i128,
    risk_max_position_pct: u32,
    raw_volatility: i128,
    win_rate_bps: i128,
    avg_win_bps: i128,
    avg_loss_bps: i128,
) -> SizingRecommendation {
    let volatility_bps = effective_volatility(raw_volatility);
    let sized = larger(
        raw_size(config, portfolio_value, volatility_bps, win_rate_bps, avg_win_bps, avg_loss_bps),
        MIN_POSITION_SIZE as int,
    );
    let limit = max_size(config, portfolio_value, risk_max_position_pct);
    SizingRecommendation {
        recommended_size: smaller(sized, limit) as i128,
        max_size: limit as i128,
        volatility_bps,
        portfolio_value,
        was_capped: sized > limit,
    }
}

/// Recommends a position size for a portfolio worth `portfolio_value` under
/// the user's sizing settings, the risk limit `risk_max_position_pct` (in
/// percent of the portfolio), the volatility estimate `raw_volatility` of
/// the asset and the provider's statistics.
pub fn calculate_position_size(
    config: &PositionSizingConfig,
    portfolio_value: i128,
    risk_max_position_pct: u32,
    raw_volatility: i128,
    win_rate_bps: i128,
    avg_win_bps: i128,
    avg_loss_bps: i128,
) -> (r: Result<SizingRecommendation, AutoTradeError>)
    requires
        portfolio_value >= 0,
        raw_volatility >= 0,
        config.method == SizingMethod::Kelly && avg_win_bps > 0 ==> kelly_fits(
            win_rate_bps as int,
            avg_win_bps as int,
            avg_loss_bps as int,
        ),
    ensures
        r == Ok::<SizingRecommendation, AutoTradeError>(
            recommendation(
                *config,
                portfolio_value,
                risk_max_position_pct,
                raw_volatility,
                win_rate_bps,
                avg_win_bps,
                avg_loss_bps,
            ),
        ),
        r matches Ok(rec) ==> MIN_POSITION_SIZE <= rec.recommended_size <= rec.max_size,
{
    let volatility_bps = if raw_volatility == 0 {
        MAX_VOLATILITY_BPS
    } else {
        raw_volatility
    };
    let raw = match config.method {
        SizingMethod::FixedPercentage => {
            let budget = saturating_mul(portfolio_value, config.risk_per_trade_bps as i128);
            proof {
                lemma_product_sign(portfolio_value as int, config.risk_per_trade_bps as int);
            }
            budget / volatility_bps
        },
        SizingMethod::Kelly => {
            let kelly = calculate_kelly_fraction(win_rate_bps, avg_win_bps, avg_loss_bps);
            if kelly == 0 {
                MIN_POSITION_SIZE
            } else {
                let scaled = saturating_mul(portfolio_value, kelly);
                proof {
                    lemma_product_sign(portfolio_value as int, kelly as int);
                    lemma_product_sign(scaled as int, config.kelly_multiplier as int);
                }
                saturating_mul(scaled, config.kelly_multiplier as i128) / 1_000_000
            }
        },
        SizingMethod::VolatilityScaled => {
            let target: u32 = if config.target_volatility_bps == 0 {
                500
            } else {
                config.target_volatility_bps
            };
            let allocation = saturating_mul(portfolio_value, config.base_position_pct_bps as i128);
            proof {
                lemma_product_sign(portfolio_value as int, config.base_position_pct_bps as int);
            }
            let base = allocation / 10_000;
            proof {
                lemma_product_sign(base as int, target as int);
            }
            saturating_mul(base, target as i128) / volatility_bps
        },
    };
    let sized = if raw >= MIN_POSITION_SIZE {
        raw
    } else {
        MIN_POSITION_SIZE
    };
    proof {
        lemma_product_sign(portfolio_value as int, config.max_position_pct_bps as int);
        lemma_product_sign(portfolio_value as int, risk_max_position_pct as int);
    }
    let max_by_sizing = saturating_mul(portfolio_value, config.max_position_pct_bps as i128)
        / 10_000;
    let max_by_risk = saturating_mul(portfolio_value, risk_max_position_pct as i128) / 100;
    let lower = if max_by_sizing <= max_by_risk {
        max_by_sizing
    } else {
        max_by_risk
    };
    let limit = if lower >= MIN_POSITION_SIZE {
        lower
    } else {
        MIN_POSITION_SIZE
    };
    let (recommended_size, was_capped) = if sized > limit {
        (limit, true)
    } else {
        (sized, false)
    };
    Ok(
        SizingRecommendation {
            recommended_size,
            max_size: limit,
            volatility_bps,
            portfolio_value,
            was_capped,
        },
    )
}

/// The size to trade: the recommendation, cut down to the available balance
/// but never below the minimum size.
pub fn get_position_size_for_trade(
    config: &PositionSizingConfig,
    portfolio_value: i128,
    risk_max_position_pct: u32,
    raw_volatility: i128,
    win_rate_bps: i128,
    avg_win_bps: i128,
    avg_loss_bps: i128,
    available_balance: i128,
) -> (r: Result<i128, AutoTradeError>)
    requires
        portfolio_value >= 0,
        raw_volatility >= 0,
        config.method == SizingMethod::Kelly && avg_win_bps > 0 ==> kelly_fits(
            win_rate_bps as int,
            avg_win_bps as int,
            avg_loss_bps as int,
        ),
    ensures
        r == Ok::<i128, AutoTradeError>(
            larger(
                smaller(
                    recommendation(
                        *config,
                        portfolio_value,
                        risk_max_position_pct,
                        raw_volatility,
                        win_rate_bps,
                        avg_win_bps,
                        avg_loss_bps,
                    ).recommended_size as int,
                    available_balance as int,
                ),
                MIN_POSITION_SIZE as int,
            ) as i128,
        ),
{
    let rec = match calculate_position_size(
        config,
        portfolio_value,
        risk_max_position_pct,
        raw_volatility,
        win_rate_bps,
        avg_win_bps,
        avg_loss_bps,
    ) {
        Ok(rec) => rec,
        Err(e) => {
            return Err(e);
        },
    };
    let capped = if rec.recommended_size <= available_balance {
        rec.recommended_size
    } else {
        available_balance
    };
    let size = if capped >= MIN_POSITION_SIZE {
        capped
    } else {
        MIN_POSITION_SIZE
    };
    Ok(size)
}

} // verus!
