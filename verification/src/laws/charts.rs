//! Charts and candles, and what the views of values show of them.

use vstd::prelude::*;
use crate::number::Number;

verus! {

/// A column has an entry at a row.
pub open spec fn entry<T>(column: Option<Vec<Option<T>>>, row: int, value: T) -> bool {
    column matches Some(entries) && 0 <= row < entries@.len() && entries@[row] == Some(value)
}

/// A column has no entry at a row.
pub open spec fn no_entry<T>(column: Option<Vec<Option<T>>>, row: int) -> bool {
    column matches Some(entries) ==> !(0 <= row < entries@.len()) || entries@[row] is None
}

/// A row with an entry in each of the columns open, high, low and close.
pub open spec fn complete(quote: crate::chart::YahooQuoteIndicators, row: int) -> bool {
    !no_entry(quote.open, row) && !no_entry(quote.high, row) && !no_entry(quote.low, row)
        && !no_entry(quote.close, row)
}

/// The candle stands for a row: its open, high, low and close are the entries of
/// the columns of these names, its volume that of the volume column or 0, and its
/// date that of the timestamp.
pub open spec fn stands_for_row(
    candle: crate::chart::CandleView,
    quote: crate::chart::YahooQuoteIndicators,
    ts: i64,
    row: int,
) -> bool {
    &&& entry(quote.open, row, candle.open)
    &&& entry(quote.high, row, candle.high)
    &&& entry(quote.low, row, candle.low)
    &&& entry(quote.close, row, candle.close)
    &&& no_entry(quote.volume, row) ==> candle.volume == 0
    &&& !no_entry(quote.volume, row) ==> i64::MIN <= candle.volume <= i64::MAX && entry(
        quote.volume,
        row,
        candle.volume as i64,
    )
    &&& candle.date == crate::calendar::timestamp_text(ts as int)
}

/// A chart without timestamps or columns has no candles.
pub proof fn law_no_rows_no_candles(result: crate::chart::YahooChartResult)
    requires
        result.timestamp is None || result.indicators.quote@.len() == 0,
    ensures
        crate::chart::chart_candles(result).len() == 0,
{
}

/// The candles of a chart stand for its complete rows, in the order of the rows:
/// each complete row, whatever its place, has one candle, field by field, and no
/// other row has any.
pub proof fn law_candles_stand_for_complete_rows(
    result: crate::chart::YahooChartResult,
    timestamps: Vec<i64>,
) -> (rows: Seq<int>)
    requires
        result.timestamp == Some(timestamps),
        result.indicators.quote@.len() > 0,
    ensures
        rows.len() == crate::chart::chart_candles(result).len(),
        forall|k: int, l: int|
            0 <= k < l < rows.len() ==> #[trigger] rows[k] < #[trigger] rows[l],
        forall|row: int|
            rows.contains(row) <==> 0 <= row < timestamps@.len() && #[trigger] complete(
                result.indicators.quote@[0],
                row,
            ),
        forall|k: int|
            0 <= k < rows.len() ==> stands_for_row(
                #[trigger] crate::chart::chart_candles(result)[k],
                result.indicators.quote@[0],
                timestamps@[rows[k]],
                rows[k],
            ),
{
    let quote = result.indicators.quote@[0];
    let n = timestamps@.len() as int;
    let rows = crate::chart::complete_rows(quote, timestamps@, n);
    crate::chart::law_candles_are_the_complete_rows(quote, timestamps@, n);
    assert forall|row: int| rows.contains(row) <==> 0 <= row < n && #[trigger] complete(
        quote,
        row,
    ) by {
        if rows.contains(row) {
            let k = choose|k: int| 0 <= k < rows.len() && rows[k] == row;
            assert(0 <= rows[k] < n);
        }
        if 0 <= row < n {
            assert(crate::chart::row_candle(quote, timestamps@[row], row) is Some <==> complete(
                quote,
                row,
            ));
        }
    }
    rows
}

/// Views of market data hold the fields of their values under the same names.
pub proof fn law_market_views_are_faithful(
    c: crate::chart::Candle,
    m: crate::chart::YahooMeta,
    s: crate::stats::FinanceStats,
    b: crate::basket::SymbolSeries,
)
    ensures
        c@.date == c.date@ && c@.open == c.open && c@.high == c.high && c@.low == c.low
            && c@.close == c.close && c@.volume == c.volume,
        m@.regular_market_price == m.regular_market_price && m@.previous_close == m.previous_close
            && m@.fifty_two_week_high == m.fifty_two_week_high && m@.fifty_two_week_low
            == m.fifty_two_week_low,
        m.currency matches Some(t) ==> m@.currency == Some(t@),
        m.currency is None ==> m@.currency is None,
        m.exchange_name matches Some(t) ==> m@.exchange_name == Some(t@),
        m.exchange_name is None ==> m@.exchange_name is None,
        m.long_name matches Some(t) ==> m@.long_name == Some(t@),
        m.long_name is None ==> m@.long_name is None,
        m.short_name matches Some(t) ==> m@.short_name == Some(t@),
        m.short_name is None ==> m@.short_name is None,
        s@.symbol == s.symbol@ && s@.currency == s.currency@ && s@.exchange == s.exchange@,
        s@.latest_close == s.latest_close && s@.period_start_close == s.period_start_close
            && s@.period_return_pct == s.period_return_pct && s@.annualized_volatility_pct
            == s.annualized_volatility_pct && s@.max_drawdown_pct == s.max_drawdown_pct,
        s@.fifty_two_week_high == s.fifty_two_week_high && s@.fifty_two_week_low
            == s.fifty_two_week_low && s@.avg_daily_volume == s.avg_daily_volume
            && s@.num_observations == s.num_observations,
        b@.symbol == b.symbol@,
        b@.candles.len() == b.candles@.len(),
        forall|i: int| 0 <= i < b.candles@.len() ==> #[trigger] b@.candles[i] == b.candles@[i]@,
        b.stats matches Some(t) ==> b@.stats == Some(t@),
        b.stats is None ==> b@.stats is None,
        b.error matches Some(t) ==> b@.error == Some(t@),
        b.error is None ==> b@.error is None,
{
}

/// The view of a summary holds its fields under the same names.
pub proof fn law_summary_view_is_faithful(s: crate::portfolio_analytics::PortfolioRiskSummary)
    ensures
        s@.symbols.len() == s.symbols@.len(),
        forall|i: int| 0 <= i < s.symbols@.len() ==> #[trigger] s@.symbols[i] == s.symbols@[i]@,
        s@.excluded_symbols.len() == s.excluded_symbols@.len(),
        forall|i: int|
            0 <= i < s.excluded_symbols@.len() ==> #[trigger] s@.excluded_symbols[i]
                == s.excluded_symbols@[i]@,
        s@.correlation_matrix.len() == s.correlation_matrix@.len(),
        forall|i: int|
            0 <= i < s.correlation_matrix@.len() ==> #[trigger] s@.correlation_matrix[i]
                == s.correlation_matrix@[i]@,
        s@.equal_weight == s.equal_weight,
        s@.avg_pairwise_correlation == s.avg_pairwise_correlation,
        s@.equal_weighted_volatility_pct == s.equal_weighted_volatility_pct,
        s@.weighted_avg_individual_volatility_pct == s.weighted_avg_individual_volatility_pct,
        s@.diversification_ratio == s.diversification_ratio,
        s@.aligned_observations == s.aligned_observations,
{
}

/// Views of lists hold the views of their members, in order.
pub proof fn law_list_views_are_faithful(
    candles: Seq<crate::chart::Candle>,
    series: Seq<crate::basket::SymbolSeries>,
    rows: Seq<Vec<Number>>,
    names: Seq<String>,
)
    ensures
        crate::chart::candle_views(candles) == Seq::new(candles.len(), |i: int| candles[i]@),
        crate::basket::series_views(series) == Seq::new(series.len(), |i: int| series[i]@),
        crate::correlation::rows(rows) == Seq::new(rows.len(), |i: int| rows[i]@),
        crate::text::texts(names) == Seq::new(names.len(), |i: int| names[i]@),
{
    assert(crate::chart::candle_views(candles) =~= Seq::new(candles.len(), |i: int| candles[i]@));
    assert(crate::basket::series_views(series) =~= Seq::new(series.len(), |i: int| series[i]@));
    assert(crate::correlation::rows(rows) =~= Seq::new(rows.len(), |i: int| rows[i]@));
    assert(crate::text::texts(names) =~= Seq::new(names.len(), |i: int| names[i]@));
}

/// A basket has one series for each symbol, in order: of a lookup that
/// delivered, the chart's candles and their statistics, and of one that failed,
/// nothing but the error in words.
pub proof fn law_basket_tells_of_each_symbol<A: crate::number::Arithmetic>(
    symbols: Seq<Seq<char>>,
    fetched: Seq<Result<crate::chart::YahooChartResult, crate::transport::FinanceError>>,
    i: int,
)
    requires
        0 <= i < symbols.len(),
    ensures
        ({
            let s = crate::basket::basket::<A>(symbols, fetched)[i];
            &&& crate::basket::basket::<A>(symbols, fetched).len() == symbols.len()
            &&& s.symbol == symbols[i]
            &&& fetched[i] matches Ok(result) ==> {
                &&& s.candles == crate::chart::chart_candles(result)
                &&& s.stats == crate::stats::series_stats::<A>(
                    symbols[i],
                    result.meta@,
                    crate::chart::chart_candles(result),
                )
                &&& s.error is None
            }
            &&& fetched[i] matches Err(e) ==> {
                &&& s.candles.len() == 0
                &&& s.stats is None
                &&& s.error == Some(e@.message())
            }
        }),
{
}

/// A timestamp is written as the date of its day in UTC, the year in at least
/// four digits, and month and day in two; a timestamp whose day lies in no year
/// that can be represented is written as the bare number.
pub proof fn law_timestamps_are_written_as_dates(ts: int, y: int, m: int, d: int)
    ensures
        1 <= m <= 12 && 1 <= d <= crate::outside::month_length(y, m) && -262143 <= y <= 262142
            && crate::outside::day_number(y, m, d) == ts / 86400 + 719163
            ==> crate::calendar::timestamp_text(ts) == crate::outside::year_text(y) + "-"@
            + crate::outside::zero_padded(m as nat, 2) + "-"@ + crate::outside::zero_padded(
            d as nat,
            2,
        ),
        ts < -8334601228800 || ts > 8210266876799 ==> crate::calendar::timestamp_text(ts)
            == crate::text::signed_decimal(ts),
{
    if crate::calendar::dates_timestamp(ts, y, m, d) {
        crate::calendar::law_timestamp_is_written_as_its_date(ts, y, m, d);
    }
    crate::calendar::law_timestamps_in_range_have_a_date(ts);
}

} // verus!
