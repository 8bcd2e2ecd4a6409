//! Summary statistics of a candle series: period return, annualized
//! volatility, maximum drawdown and average volume.

use vstd::prelude::*;
use crate::chart::Candle;
use crate::chart::YahooMeta;
use crate::number::Arithmetic;
use crate::number::Number;
use crate::number::hundred;
use crate::number::one;
use crate::number::total;
use crate::number::trading_days;
use crate::number::zero;
use crate::text::text_or_missing;

verus! {

/// Computed quantitative statistics derived from a price series.
#[derive(Debug, Clone)]
pub struct FinanceStats {
    pub symbol: String,
    pub currency: String,
    pub exchange: String,
    pub latest_close: Number,
    pub period_start_close: Number,
    pub period_return_pct: Number,
    pub annualized_volatility_pct: Number,
    pub max_drawdown_pct: Number,
    pub fifty_two_week_high: Option<Number>,
    pub fifty_two_week_low: Option<Number>,
    pub avg_daily_volume: i64,
    pub num_observations: usize,
}

/// The mathematical counterpart of [`FinanceStats`].
pub struct StatsView {
    pub symbol: Seq<char>,
    pub currency: Seq<char>,
    pub exchange: Seq<char>,
    pub latest_close: Number,
    pub period_start_close: Number,
    pub period_return_pct: Number,
    pub annualized_volatility_pct: Number,
    pub max_drawdown_pct: Number,
    pub fifty_two_week_high: Option<Number>,
    pub fifty_two_week_low: Option<Number>,
    pub avg_daily_volume: int,
    pub num_observations: nat,
}

impl View for FinanceStats {
    type V = StatsView;

    open spec fn view(&self) -> StatsView {
        StatsView {
            symbol: self.symbol@,
            currency: self.currency@,
            exchange: self.exchange@,
            latest_close: self.latest_close,
            period_start_close: self.period_start_close,
            period_return_pct: self.period_return_pct,
            annualized_volatility_pct: self.annualized_volatility_pct,
            max_drawdown_pct: self.max_drawdown_pct,
            fifty_two_week_high: self.fifty_two_week_high,
            fifty_two_week_low: self.fifty_two_week_low,
            avg_daily_volume: self.avg_daily_volume as int,
            num_observations: self.num_observations as nat,
        }
    }
}

/// Optional statistics by their view.
pub open spec fn opt_stats_view(stats: Option<FinanceStats>) -> Option<StatsView> {
    match stats {
        Some(s) => Some(s@),
        None => None,
    }
}

/// The closing prices of a series.
pub open spec fn closes(candles: Seq<crate::chart::CandleView>) -> Seq<Number> {
    candles.map_values(|c: crate::chart::CandleView| c.close)
}

/// How far `last` lies above `first`, in percent; 0 where `first` is 0.
pub open spec fn period_return<A: Arithmetic>(first: Number, last: Number) -> Number {
    if first.level_with(zero()) {
        zero()
    } else {
        crate::number::times::<A>(
            crate::number::minus::<A>(crate::number::divide::<A>(last, first), one()),
            hundred(),
        )
    }
}

/// The logarithm of the ratio between two prices.
pub open spec fn log_return<A: Arithmetic>(previous: Number, current: Number) -> Number {
    crate::number::ln::<A>(crate::number::divide::<A>(current, previous))
}

/// The log returns between neighbouring prices that are both positive.
pub open spec fn log_returns<A: Arithmetic>(prices: Seq<Number>) -> Seq<Number>
    decreases prices.len(),
{
    if prices.len() < 2 {
        Seq::empty()
    } else {
        let before = log_returns::<A>(prices.drop_last());
        let previous = prices[prices.len() - 2];
        if previous.positive() && prices.last().positive() {
            before.push(log_return::<A>(previous, prices.last()))
        } else {
            before
        }
    }
}

/// The mean of numbers.
pub open spec fn mean<A: Arithmetic>(values: Seq<Number>) -> Number {
    crate::number::divide::<A>(
        crate::number::sum::<A>(values),
        crate::number::from_count::<A>(values.len()),
    )
}

/// The squared distances of numbers from a centre.
pub open spec fn squared_deviations<A: Arithmetic>(values: Seq<Number>, centre: Number) -> Seq<
    Number,
> {
    values.map_values(
        |v: Number| crate::number::square::<A>(crate::number::minus::<A>(v, centre)),
    )
}

/// The sample variance of numbers.
pub open spec fn sample_variance<A: Arithmetic>(values: Seq<Number>) -> Number {
    crate::number::divide::<A>(
        crate::number::sum::<A>(squared_deviations::<A>(values, mean::<A>(values))),
        crate::number::minus::<A>(crate::number::from_count::<A>(values.len()), one()),
    )
}

/// The standard deviation of daily returns over a trading year, in percent; 0
/// for fewer than two returns.
pub open spec fn annualized_volatility<A: Arithmetic>(gains: Seq<Number>) -> Number {
    if gains.len() > 1 {
        crate::number::times::<A>(
            crate::number::times::<A>(
                crate::number::sqrt::<A>(sample_variance::<A>(gains)),
                crate::number::sqrt::<A>(trading_days()),
            ),
            hundred(),
        )
    } else {
        zero()
    }
}

/// The highest of a start price and the first prices.
pub open spec fn peak(prices: Seq<Number>, n: int) -> Number
    decreases n,
{
    if n <= 0 {
        prices[0]
    } else if peak(prices, n - 1).below(prices[n - 1]) {
        prices[n - 1]
    } else {
        peak(prices, n - 1)
    }
}

/// How far a price lies below a peak, in percent.
pub open spec fn drawdown<A: Arithmetic>(price: Number, top: Number) -> Number {
    crate::number::times::<A>(
        crate::number::minus::<A>(crate::number::divide::<A>(price, top), one()),
        hundred(),
    )
}

/// The deepest drawdown among the first prices, each against the peak so far.
pub open spec fn max_drawdown<A: Arithmetic>(prices: Seq<Number>, n: int) -> Number
    decreases n,
{
    if n <= 0 {
        zero()
    } else {
        let before = max_drawdown::<A>(prices, n - 1);
        let current = drawdown::<A>(prices[n - 1], peak(prices, n));
        if current.below(before) {
            current
        } else {
            before
        }
    }
}

/// The volume traded over a series.
pub open spec fn volume_sum(candles: Seq<crate::chart::CandleView>) -> int
    decreases candles.len(),
{
    if candles.len() == 0 {
        0
    } else {
        volume_sum(candles.drop_last()) + candles.last().volume
    }
}

/// The volumes can be added up, candle by candle, in 64 bits.
pub open spec fn volumes_add_up(candles: Seq<crate::chart::CandleView>) -> bool {
    forall|n: int|
        0 <= n <= candles.len() ==> i64::MIN <= volume_sum(#[trigger] candles.take(n)) <= i64::MAX
}

/// A quotient without its fraction.
pub open spec fn truncated_quotient(a: int, b: int) -> int {
    if a < 0 {
        -((-a) / b)
    } else {
        a / b
    }
}

/// The statistics of a series, with the operations of `A`.
pub open spec fn series_stats<A: Arithmetic>(
    symbol: Seq<char>,
    meta: crate::chart::MetaView,
    candles: Seq<crate::chart::CandleView>,
) -> Option<StatsView> {
    if candles.len() == 0 {
        None
    } else {
        let prices = closes(candles);
        Some(
            StatsView {
                symbol,
                currency: crate::text::or_missing(meta.currency),
                exchange: crate::text::or_missing(meta.exchange_name),
                latest_close: prices.last(),
                period_start_close: prices[0],
                period_return_pct: period_return::<A>(prices[0], prices.last()),
                annualized_volatility_pct: annualized_volatility::<A>(log_returns::<A>(prices)),
                max_drawdown_pct: max_drawdown::<A>(prices, prices.len() as int),
                fifty_two_week_high: meta.fifty_two_week_high,
                fifty_two_week_low: meta.fifty_two_week_low,
                avg_daily_volume: truncated_quotient(
                    volume_sum(candles),
                    candles.len() as int,
                ),
                num_observations: candles.len(),
            },
        )
    }
}

/// What the statistics of a series hold whatever the operations of `A` give:
/// all that is read from the series, and no gain as a drawdown.
pub open spec fn read_from_series(
    stats: StatsView,
    symbol: Seq<char>,
    meta: crate::chart::MetaView,
    candles: Seq<crate::chart::CandleView>,
) -> bool {
    &&& candles.len() > 0
    &&& stats.symbol == symbol
    &&& stats.currency == crate::text::or_missing(meta.currency)
    &&& stats.exchange == crate::text::or_missing(meta.exchange_name)
    &&& stats.latest_close == candles.last().close
    &&& stats.period_start_close == candles[0].close
    &&& stats.fifty_two_week_high == meta.fifty_two_week_high
    &&& stats.fifty_two_week_low == meta.fifty_two_week_low
    &&& stats.avg_daily_volume == truncated_quotient(volume_sum(candles), candles.len() as int)
    &&& stats.num_observations == candles.len()
    &&& !stats.max_drawdown_pct.positive()
}

/// The closing prices of a series.
fn close_prices(candles: &Vec<Candle>) -> (r: Vec<Number>)
    ensures
        r@ == closes(crate::chart::candle_views(candles@)),
{
    let mut prices: Vec<Number> = Vec::new();
    for i in 0..candles.len()
        invariant
            prices@ == closes(crate::chart::candle_views(candles@)).take(i as int),
    {
        prices.push(candles[i].close);
        assert(prices@ =~= closes(crate::chart::candle_views(candles@)).take(i + 1));
    }
    assert(closes(crate::chart::candle_views(candles@)).take(candles@.len() as int) =~= closes(
        crate::chart::candle_views(candles@),
    ));
    prices
}

/// The log returns between neighbouring prices that are both positive.
fn compute_log_returns<A: Arithmetic>(prices: &Vec<Number>) -> (r: Vec<Number>)
    ensures
        repeatable_returns::<A>(prices@, r@),
{
    let mut gains: Vec<Number> = Vec::new();
    if prices.len() == 0 {
        return gains;
    }
    for i in 1..prices.len()
        invariant
            prices@.len() > 0,
            repeatable_returns::<A>(prices@.take(i as int), gains@),
    {
        assert(prices@.take(i + 1).drop_last() =~= prices@.take(i as int));
        if prices[i - 1].is_positive() && prices[i].is_positive() {
            gains.push(A::ln(A::divide(prices[i], prices[i - 1])));
        }
    }
    assert(prices@.take(prices@.len() as int) =~= prices@);
    gains
}

/// The returns are those of the prices, where `A` is repeatable.
spec fn repeatable_returns<A: Arithmetic>(prices: Seq<Number>, gains: Seq<Number>) -> bool {
    crate::number::repeatable::<A>() ==> gains == log_returns::<A>(prices)
}

/// The standard deviation of daily returns over a trading year, in percent.
fn compute_volatility<A: Arithmetic>(gains: &Vec<Number>) -> (r: Number)
    ensures
        crate::number::repeatable::<A>() ==> r == annualized_volatility::<A>(gains@),
{
    if gains.len() > 1 {
        let count = A::from_count(gains.len() as u128);
        let centre = A::divide(total::<A>(gains), count);
        let mut squares: Vec<Number> = Vec::new();
        let ghost all = squared_deviations::<A>(gains@, mean::<A>(gains@));
        for i in 0..gains.len()
            invariant
                all == squared_deviations::<A>(gains@, mean::<A>(gains@)),
                crate::number::repeatable::<A>() ==> centre == mean::<A>(gains@),
                squares@.len() == i,
                crate::number::repeatable::<A>() ==> squares@ == all.take(i as int),
        {
            let deviation = A::minus(gains[i], centre);
            squares.push(A::square(deviation));
            assert(crate::number::repeatable::<A>() ==> squares@ =~= all.take(i + 1));
        }
        assert(all.take(gains@.len() as int) =~= all);
        let spread = total::<A>(&squares);
        let variance = A::divide(spread, A::minus(A::from_count(gains.len() as u128), one()));
        A::times(A::times(A::sqrt(variance), A::sqrt(trading_days())), hundred())
    } else {
        zero()
    }
}

/// The deepest drawdown of a series, in percent.
fn compute_max_drawdown<A: Arithmetic>(prices: &Vec<Number>) -> (r: Number)
    requires
        prices@.len() > 0,
    ensures
        crate::number::repeatable::<A>() ==> r == max_drawdown::<A>(
            prices@,
            prices@.len() as int,
        ),
        !r.positive(),
{
    let mut top = prices[0];
    let mut deepest = zero();
    for i in 0..prices.len()
        invariant
            prices@.len() > 0,
            top == peak(prices@, i as int),
            crate::number::repeatable::<A>() ==> deepest == max_drawdown::<A>(prices@, i as int),
            !deepest.positive(),
    {
        let price = prices[i];
        if top.is_below(price) {
            top = price;
        }
        let current = A::times(A::minus(A::divide(price, top), one()), hundred());
        if current.is_below(deepest) {
            deepest = current;
        }
    }
    deepest
}

/// Whether the volumes of a series can be added up in 64 bits.
pub fn check_volumes(candles: &Vec<Candle>) -> (r: bool)
    ensures
        r == volumes_add_up(crate::chart::candle_views(candles@)),
{
    let ghost all = crate::chart::candle_views(candles@);
    let mut sum: i64 = 0;
    proof {
        assert(all.take(0) =~= Seq::<crate::chart::CandleView>::empty());
    }
    for i in 0..candles.len()
        invariant
            all == crate::chart::candle_views(candles@),
            sum == volume_sum(all.take(i as int)),
            forall|n: int|
                0 <= n <= i ==> i64::MIN <= volume_sum(#[trigger] all.take(n)) <= i64::MAX,
    {
        assert(all.take(i + 1).drop_last() =~= all.take(i as int));
        assert(all.take(i + 1).last() == candles@[i as int]@);
        match sum.checked_add(candles[i].volume) {
            Some(s) => {
                sum = s;
            },
            None => {
                return false;
            },
        }
    }
    true
}

/// The average volume of a series, without its fraction.
fn compute_average_volume(candles: &Vec<Candle>) -> (r: i64)
    requires
        candles@.len() > 0,
        volumes_add_up(crate::chart::candle_views(candles@)),
    ensures
        r == truncated_quotient(
            volume_sum(crate::chart::candle_views(candles@)),
            candles@.len() as int,
        ),
{
    let ghost all = crate::chart::candle_views(candles@);
    let mut sum: i64 = 0;
    proof {
        assert(all.take(0) =~= Seq::<crate::chart::CandleView>::empty());
    }
    for i in 0..candles.len()
        invariant
            all == crate::chart::candle_views(candles@),
            volumes_add_up(all),
            sum == volume_sum(all.take(i as int)),
    {
        assert(all.take(i + 1).drop_last() =~= all.take(i as int));
        assert(all.take(i + 1).last() == candles@[i as int]@);
        assert(i64::MIN <= volume_sum(all.take(i + 1)) <= i64::MAX);
        sum = sum + candles[i].volume;
    }
    assert(all.take(candles@.len() as int) =~= all);
    let len: u128 = candles.len() as u128;
    if sum < 0 {
        let size: u128 = (-(sum as i128)) as u128;
        let quotient: u128 = size / len;
        assert(quotient <= size) by (nonlinear_arith)
            requires
                quotient == size / len,
                len > 0,
        ;
        (-(quotient as i128)) as i64
    } else {
        let size: u128 = sum as u128;
        let quotient: u128 = size / len;
        assert(quotient <= size) by (nonlinear_arith)
            requires
                quotient == size / len,
                len > 0,
        ;
        quotient as i64
    }
}

/// Summary statistics of a candle series; none for an empty one.
pub(crate) fn stats_of<A: Arithmetic>(
    symbol: &str,
    meta: &YahooMeta,
    candles: &Vec<Candle>,
) -> (r: Option<FinanceStats>)
    requires
        volumes_add_up(crate::chart::candle_views(candles@)),
    ensures
        r is None <==> candles@.len() == 0,
        r matches Some(stats) ==> read_from_series(
            stats@,
            symbol@,
            meta@,
            crate::chart::candle_views(candles@),
        ),
        crate::number::repeatable::<A>() ==> opt_stats_view(r) == series_stats::<A>(
            symbol@,
            meta@,
            crate::chart::candle_views(candles@),
        ),
{
    if candles.len() == 0 {
        return None;
    }
    let prices = close_prices(candles);
    let latest_close = prices[prices.len() - 1];
    let period_start_close = prices[0];
    let period_return_pct = if !period_start_close.is_level_with(zero()) {
        A::times(A::minus(A::divide(latest_close, period_start_close), one()), hundred())
    } else {
        zero()
    };
    let gains = compute_log_returns::<A>(&prices);
    let annualized_volatility_pct = compute_volatility::<A>(&gains);
    let max_drawdown_pct = compute_max_drawdown::<A>(&prices);
    let avg_daily_volume = compute_average_volume(candles);
    Some(
        FinanceStats {
            symbol: symbol.to_owned(),
            currency: text_or_missing(&meta.currency),
            exchange: text_or_missing(&meta.exchange_name),
            latest_close,
            period_start_close,
            period_return_pct,
            annualized_volatility_pct,
            max_drawdown_pct,
            fifty_two_week_high: meta.fifty_two_week_high,
            fifty_two_week_low: meta.fifty_two_week_low,
            avg_daily_volume,
            num_observations: candles.len(),
        },
    )
}

/// The peak is one of the prices, and none of those so far lies above it.
pub proof fn law_peak_is_the_highest_price(prices: Seq<Number>, n: int)
    requires
        0 < n <= prices.len(),
    ensures
        exists|i: int| 0 <= i < n && #[trigger] prices[i] == peak(prices, n),
        forall|i: int| 0 <= i < n ==> !peak(prices, n).below(#[trigger] prices[i]),
    decreases n,
{
    if n > 1 {
        law_peak_is_the_highest_price(prices, n - 1);
        let before = peak(prices, n - 1);
        if before.below(prices[n - 1]) {
            assert(prices[n - 1] == peak(prices, n));
        } else {
            let i = choose|i: int| 0 <= i < n - 1 && #[trigger] prices[i] == before;
            assert(prices[i] == peak(prices, n));
        }
    } else {
        assert(peak(prices, 0) == prices[0]);
        assert(prices[0] == peak(prices, 1));
    }
}

/// A drawdown is never a gain, and looking further never makes it shallower.
pub proof fn law_drawdown_only_deepens<A: Arithmetic>(prices: Seq<Number>, n: int)
    ensures
        !max_drawdown::<A>(prices, n).positive(),
        !max_drawdown::<A>(prices, n - 1).below(max_drawdown::<A>(prices, n)),
    decreases n,
{
    if n > 0 {
        law_drawdown_only_deepens::<A>(prices, n - 1);
    }
}

/// The maximum drawdown is the deepest of all: no price fell further below the
/// peak before it, and where it is not 0, it is how far some price lies below an
/// earlier one.
pub proof fn law_max_drawdown_is_the_deepest<A: Arithmetic>(prices: Seq<Number>, n: int)
    requires
        0 <= n <= prices.len(),
    ensures
        !max_drawdown::<A>(prices, n).spec_is_nan(),
        forall|j: int|
            0 <= j < n ==> !(#[trigger] drawdown::<A>(prices[j], peak(prices, j + 1))).below(
                max_drawdown::<A>(prices, n),
            ),
        max_drawdown::<A>(prices, n) == zero() || exists|i: int, j: int|
            0 <= i <= j < n && max_drawdown::<A>(prices, n) == #[trigger] drawdown::<A>(
                prices[j],
                prices[i],
            ),
    decreases n,
{
    if n > 0 {
        law_max_drawdown_is_the_deepest::<A>(prices, n - 1);
        law_peak_is_the_highest_price(prices, n);
        let before = max_drawdown::<A>(prices, n - 1);
        let now = max_drawdown::<A>(prices, n);
        let current = drawdown::<A>(prices[n - 1], peak(prices, n));
        assert forall|j: int| 0 <= j < n implies !(#[trigger] drawdown::<A>(
            prices[j],
            peak(prices, j + 1),
        )).below(now) by {
            if j < n - 1 {
                assert(!drawdown::<A>(prices[j], peak(prices, j + 1)).below(before));
            }
        }
        if current.below(before) {
            let i = choose|i: int| 0 <= i < n && #[trigger] prices[i] == peak(prices, n);
            assert(now == drawdown::<A>(prices[n - 1], prices[i]));
        } else if before != zero() {
            let (i, j) = choose|i: int, j: int|
                0 <= i <= j < n - 1 && before == #[trigger] drawdown::<A>(prices[j], prices[i]);
            assert(now == drawdown::<A>(prices[j], prices[i]));
        }
    }
}

} // verus!
