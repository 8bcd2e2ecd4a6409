//! The `multi_symbol_snapshot` tool: a basket of symbols side by side.

use vstd::prelude::*;
use crate::chart::Candle;
use crate::chart::YahooChartResult;
use crate::finance::YahooFinanceTool;
use crate::finance::choose_text;
use crate::number::Arithmetic;
use crate::stats::FinanceStats;
use crate::text::count_text;
use crate::transport::FinanceError;
use crate::transport::HostFetch;

verus! {

/// Input arguments of the tool.
#[derive(Debug)]
pub struct MultiSymbolArgs {
    /// List of ticker symbols to compare, e.g. ["AAPL", "RELIANCE.NS", "PETR4.SA"].
    pub symbols: Vec<String>,
    /// Historical lookback window: 1d, 5d, 1mo, 3mo, 6mo, 1y, 2y, 5y, 10y, ytd, max.
    pub range: Option<String>,
    /// Candle interval: 1m, 5m, 15m, 1d, 1wk, 1mo.
    pub interval: Option<String>,
}

/// One symbol of a basket: its candles and statistics, or what went wrong.
#[derive(Debug, Clone)]
pub struct SymbolSeries {
    pub symbol: String,
    pub candles: Vec<Candle>,
    pub stats: Option<FinanceStats>,
    pub error: Option<String>,
}

/// The mathematical counterpart of [`SymbolSeries`].
pub struct SeriesView {
    pub symbol: Seq<char>,
    pub candles: Seq<crate::chart::CandleView>,
    pub stats: Option<crate::stats::StatsView>,
    pub error: Option<Seq<char>>,
}

impl View for SymbolSeries {
    type V = SeriesView;

    open spec fn view(&self) -> SeriesView {
        SeriesView {
            symbol: self.symbol@,
            candles: crate::chart::candle_views(self.candles@),
            stats: crate::stats::opt_stats_view(self.stats),
            error: crate::text::opt_text(self.error),
        }
    }
}

/// The series that a list holds.
pub open spec fn series_views(series: Seq<SymbolSeries>) -> Seq<SeriesView> {
    series.map_values(|s: SymbolSeries| s@)
}

/// The multi-symbol snapshot tool.
#[derive(Debug, Clone)]
pub struct MultiSymbolTool {
    pub inner: YahooFinanceTool,
}

/// What the lookup of one symbol contributes to a basket.
pub open spec fn series_of<A: Arithmetic>(
    symbol: Seq<char>,
    fetched: Result<YahooChartResult, FinanceError>,
) -> SeriesView {
    match fetched {
        Ok(result) => SeriesView {
            symbol,
            candles: crate::chart::chart_candles(result),
            stats: crate::stats::series_stats::<A>(
                symbol,
                result.meta@,
                crate::chart::chart_candles(result),
            ),
            error: None,
        },
        Err(e) => SeriesView {
            symbol,
            candles: Seq::empty(),
            stats: None,
            error: Some(e@.message()),
        },
    }
}

/// The basket that the lookups of symbols come to, symbol by symbol.
pub open spec fn basket<A: Arithmetic>(
    symbols: Seq<Seq<char>>,
    fetched: Seq<Result<YahooChartResult, FinanceError>>,
) -> Seq<SeriesView> {
    Seq::new(symbols.len(), |i: int| series_of::<A>(symbols[i], fetched[i]))
}

/// A lookup that brought no candle, so nothing to compute with.
pub open spec fn candleless(fetched: Result<YahooChartResult, FinanceError>) -> bool {
    fetched matches Ok(result) ==> crate::chart::chart_candles(result).len() == 0
}

/// What a series holds whatever the operations on its prices give.
pub open spec fn tells_of(
    series: SeriesView,
    symbol: Seq<char>,
    fetched: Result<YahooChartResult, FinanceError>,
) -> bool {
    &&& series.symbol == symbol
    &&& match fetched {
        Ok(result) => {
            &&& series.candles == crate::chart::chart_candles(result)
            &&& series.error is None
            &&& series.stats is Some <==> series.candles.len() > 0
            &&& series.stats matches Some(stats) ==> crate::stats::read_from_series(
                stats,
                symbol,
                result.meta@,
                series.candles,
            )
        },
        Err(e) => {
            &&& series.candles.len() == 0
            &&& series.stats is None
            &&& series.error == Some(e@.message())
        },
    }
}

/// One symbol in the comparison table.
pub open spec fn snapshot_row<A: Arithmetic>(s: SeriesView) -> Seq<char> {
    match s.stats {
        Some(stats) => "| "@ + s.symbol + " | "@ + stats.currency + " | "@
            + crate::number::fixed2::<A>(stats.latest_close) + " | "@ + crate::number::fixed2::<A>(
            stats.period_return_pct,
        ) + " | "@ + crate::number::fixed2::<A>(stats.annualized_volatility_pct) + " | "@
            + crate::number::fixed2::<A>(stats.max_drawdown_pct) + " |\n"@,
        None => match s.error {
            Some(e) => "| "@ + s.symbol + " | - | - | - | - | error: "@ + e + " |\n"@,
            None => "| "@ + s.symbol + " | - | - | - | - | no data |\n"@,
        },
    }
}

/// The rows of the comparison table.
pub open spec fn snapshot_rows<A: Arithmetic>(series: Seq<SeriesView>) -> Seq<char>
    decreases series.len(),
{
    if series.len() == 0 {
        Seq::empty()
    } else {
        snapshot_rows::<A>(series.drop_last()) + snapshot_row::<A>(series.last())
    }
}

/// The comparison table of a basket of `count` symbols.
pub open spec fn snapshot<A: Arithmetic>(
    count: nat,
    range: Seq<char>,
    interval: Seq<char>,
    series: Seq<SeriesView>,
) -> Seq<char> {
    "## Portfolio Snapshot ("@ + crate::text::decimal(count) + " symbols, range="@ + range
        + ", interval="@ + interval + ")\n\n"@
        + "| Symbol | Currency | Latest Close | Period Return % | Ann. Volatility % | Max Drawdown % |\n"@
        + "|---|---|---|---|---|---|\n"@ + snapshot_rows::<A>(series)
}

/// What the lookup of one symbol contributes to a basket.
fn series_from<A: Arithmetic>(
    symbol: &String,
    fetched: &Result<YahooChartResult, FinanceError>,
) -> (r: SymbolSeries)
    requires
        *fetched matches Ok(result) ==> crate::stats::volumes_add_up(
            crate::chart::chart_candles(result),
        ),
    ensures
        tells_of(r@, symbol@, *fetched),
        crate::number::repeatable::<A>() || candleless(*fetched) ==> r@ == series_of::<A>(
            symbol@,
            *fetched,
        ),
{
    match fetched {
        Ok(result) => {
            let candles = YahooFinanceTool::build_candles(result);
            let stats = YahooFinanceTool::compute_stats::<A>(
                symbol.as_str(),
                &result.meta,
                &candles,
            );
            SymbolSeries { symbol: symbol.clone(), candles, stats, error: None }
        },
        Err(e) => {
            let candles: Vec<Candle> = Vec::new();
            assert(crate::chart::candle_views(candles@) =~= Seq::<
                crate::chart::CandleView,
            >::empty());
            SymbolSeries {
                symbol: symbol.clone(),
                candles,
                stats: None,
                error: Some(e.message()),
            }
        },
    }
}

fn snapshot_row_text<A: Arithmetic>(s: &SymbolSeries) -> (r: String)
    ensures
        crate::number::repeatable::<A>() || s.stats is None ==> r@ == snapshot_row::<A>(s@),
{
    let mut out = "| ".to_owned();
    out.append(s.symbol.as_str());
    match (&s.stats, &s.error) {
        (Some(stats), _) => {
            out.append(" | ");
            out.append(stats.currency.as_str());
            out.append(" | ");
            out.append(A::fixed2(stats.latest_close).as_str());
            out.append(" | ");
            out.append(A::fixed2(stats.period_return_pct).as_str());
            out.append(" | ");
            out.append(A::fixed2(stats.annualized_volatility_pct).as_str());
            out.append(" | ");
            out.append(A::fixed2(stats.max_drawdown_pct).as_str());
            out.append(" |\n");
        },
        (None, Some(e)) => {
            out.append(" | - | - | - | - | error: ");
            out.append(e.as_str());
            out.append(" |\n");
        },
        (None, None) => {
            out.append(" | - | - | - | - | no data |\n");
        },
    }
    out
}

impl MultiSymbolTool {
    /// A tool with the given default range and interval.
    pub fn new(default_range: &str, default_interval: &str) -> (r: MultiSymbolTool)
        ensures
            r.inner.default_range@ == default_range@,
            r.inner.default_interval@ == default_interval@,
    {
        MultiSymbolTool { inner: YahooFinanceTool::new(default_range, default_interval) }
    }

    /// Begins the lookups behind a basket, one for each symbol in order.
    pub fn fetches(
        &self,
        symbols: &Vec<String>,
        range: Option<&str>,
        interval: Option<&str>,
    ) -> (r: Vec<HostFetch<YahooChartResult>>)
        ensures
            r@.len() == symbols@.len(),
            forall|i: int|
                0 <= i < symbols@.len() ==> #[trigger] r@[i]@ == crate::finance::chart_fetch(
                    symbols@[i]@,
                    crate::finance::or_default(range, self.inner.default_range@),
                    crate::finance::or_default(interval, self.inner.default_interval@),
                ),
    {
        let mut out: Vec<HostFetch<YahooChartResult>> = Vec::new();
        for i in 0..symbols.len()
            invariant
                out@.len() == i,
                forall|j: int|
                    0 <= j < i ==> #[trigger] out@[j]@ == crate::finance::chart_fetch(
                        symbols@[j]@,
                        crate::finance::or_default(range, self.inner.default_range@),
                        crate::finance::or_default(interval, self.inner.default_interval@),
                    ),
        {
            out.push(self.inner.fetch_for_report(symbols[i].as_str(), range, interval));
        }
        out
    }

    /// The basket that the lookups of `symbols` came to, symbol by symbol: a
    /// failed lookup becomes a series with an error, and the others stand.
    pub fn fetch_basket<A: Arithmetic>(
        &self,
        symbols: &Vec<String>,
        fetched: &Vec<Result<YahooChartResult, FinanceError>>,
    ) -> (r: Vec<SymbolSeries>)
        requires
            symbols@.len() == fetched@.len(),
            forall|i: int|
                0 <= i < fetched@.len() ==> (#[trigger] fetched@[i] matches Ok(result)
                    ==> crate::stats::volumes_add_up(crate::chart::chart_candles(result))),
        ensures
            r@.len() == symbols@.len(),
            forall|i: int|
                0 <= i < symbols@.len() ==> tells_of(#[trigger] r@[i]@, symbols@[i]@, fetched@[i]),
            forall|i: int|
                0 <= i < symbols@.len() && candleless(fetched@[i]) ==> #[trigger] r@[i]@
                    == series_of::<A>(symbols@[i]@, fetched@[i]),
            crate::number::repeatable::<A>() ==> series_views(r@) == basket::<A>(
                crate::text::texts(symbols@),
                fetched@,
            ),
    {
        let mut out: Vec<SymbolSeries> = Vec::new();
        for i in 0..symbols.len()
            invariant
                out@.len() == i,
                symbols@.len() == fetched@.len(),
                forall|j: int|
                    0 <= j < fetched@.len() ==> (#[trigger] fetched@[j] matches Ok(result)
                        ==> crate::stats::volumes_add_up(crate::chart::chart_candles(result))),
                forall|j: int|
                    0 <= j < i ==> tells_of(#[trigger] out@[j]@, symbols@[j]@, fetched@[j]),
                forall|j: int|
                    0 <= j < i && candleless(fetched@[j]) ==> #[trigger] out@[j]@ == series_of::<A>(
                        symbols@[j]@,
                        fetched@[j],
                    ),
                crate::number::repeatable::<A>() ==> forall|j: int|
                    0 <= j < i ==> #[trigger] out@[j]@ == series_of::<A>(
                        symbols@[j]@,
                        fetched@[j],
                    ),
        {
            out.push(series_from::<A>(&symbols[i], &fetched[i]));
        }
        assert(crate::number::repeatable::<A>() ==> series_views(out@) =~= basket::<A>(
            crate::text::texts(symbols@),
            fetched@,
        ));
        out
    }

    /// The comparison table of a basket.
    pub fn get_report<A: Arithmetic>(
        &self,
        symbols: &Vec<String>,
        range: Option<&str>,
        interval: Option<&str>,
        series: &Vec<SymbolSeries>,
    ) -> (r: String)
        ensures
            crate::number::repeatable::<A>() || (forall|i: int|
                0 <= i < series@.len() ==> (#[trigger] series@[i]).stats is None) ==> r@
                == snapshot::<A>(
                symbols@.len(),
                crate::finance::or_default(range, self.inner.default_range@),
                crate::finance::or_default(interval, self.inner.default_interval@),
                series_views(series@),
            ),
    {
        let range = choose_text(range, &self.inner.default_range);
        let interval = choose_text(interval, &self.inner.default_interval);
        let mut out = "## Portfolio Snapshot (".to_owned();
        out.append(count_text(symbols.len()).as_str());
        out.append(" symbols, range=");
        out.append(range.as_str());
        out.append(", interval=");
        out.append(interval.as_str());
        out.append(")\n\n");
        out.append(
            "| Symbol | Currency | Latest Close | Period Return % | Ann. Volatility % | Max Drawdown % |\n",
        );
        out.append("|---|---|---|---|---|---|\n");
        let ghost head = out@;
        let ghost all = series_views(series@);
        let ghost exact = crate::number::repeatable::<A>() || (forall|i: int|
            0 <= i < series@.len() ==> (#[trigger] series@[i]).stats is None);
        assert(all.take(0) =~= Seq::<SeriesView>::empty());
        assert(out@ =~= head + snapshot_rows::<A>(all.take(0)));
        for i in 0..series.len()
            invariant
                all == series_views(series@),
                exact ==> crate::number::repeatable::<A>() || (forall|j: int|
                    0 <= j < series@.len() ==> (#[trigger] series@[j]).stats is None),
                exact ==> out@ == head + snapshot_rows::<A>(
                    all.take(i as int),
                ),
        {
            assert(all.take(i + 1).drop_last() =~= all.take(i as int));
            assert(all.take(i + 1).last() == series@[i as int]@);
            out.append(snapshot_row_text::<A>(&series[i]).as_str());
            assert(exact ==> out@ =~= head + (snapshot_rows::<A>(
                all.take(i as int),
            ) + snapshot_row::<A>(series@[i as int]@)));
        }
        assert(all.take(series@.len() as int) =~= all);
        out
    }
}

/// What becomes of a symbol depends on its own lookup alone: a failure of one
/// leaves the others as they are.
pub proof fn law_symbols_of_a_basket_are_independent<A: Arithmetic>(
    symbols: Seq<Seq<char>>,
    fetched: Seq<Result<YahooChartResult, FinanceError>>,
    others: Seq<Result<YahooChartResult, FinanceError>>,
    i: int,
)
    requires
        0 <= i < symbols.len(),
        fetched[i] == others[i],
    ensures
        basket::<A>(symbols, fetched).len() == symbols.len(),
        basket::<A>(symbols, fetched)[i].symbol == symbols[i],
        basket::<A>(symbols, fetched)[i] == basket::<A>(symbols, others)[i],
{
}

/// A basket has an error where the lookup failed, and only there.
pub proof fn law_errors_mark_failed_lookups<A: Arithmetic>(
    symbols: Seq<Seq<char>>,
    fetched: Seq<Result<YahooChartResult, FinanceError>>,
    i: int,
)
    requires
        0 <= i < symbols.len(),
    ensures
        basket::<A>(symbols, fetched)[i].error is Some <==> fetched[i] is Err,
{
}

} // verus!
