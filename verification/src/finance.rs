//! The `yahoo_finance` tool: price history of one symbol with statistics.

use vstd::prelude::*;
use crate::chart::Candle;
use crate::chart::YahooChartResult;
use crate::chart::YahooMeta;
use crate::chart::candles_of;
use crate::number::Arithmetic;
use crate::number::Number;
use crate::outside::percent_encode;
use crate::stats::FinanceStats;
use crate::stats::check_volumes;
use crate::stats::stats_of;
use crate::text::count_text;
use crate::text::signed_text;
use crate::text::text_or_missing;
use crate::transport::Endpoint;
use crate::transport::FinanceError;
use crate::transport::HostFetch;

verus! {

/// The host that is asked first.
pub const FIRST_HOST: &'static str = "query1.finance.yahoo.com";

/// The host that is asked where the first one does not deliver.
pub const SECOND_HOST: &'static str = "query2.finance.yahoo.com";

/// Input arguments of the tool.
#[derive(Debug)]
pub struct FinanceArgs {
    /// Ticker symbol as listed on Yahoo Finance, e.g. "AAPL", "RELIANCE.NS", "PETR4.SA".
    pub symbol: String,
    /// Historical lookback window: 1d, 5d, 1mo, 3mo, 6mo, 1y, 2y, 5y, 10y, ytd, max.
    pub range: Option<String>,
    /// Candle interval: 1m, 5m, 15m, 1d, 1wk, 1mo.
    pub interval: Option<String>,
}

/// The Yahoo Finance price history tool.
#[derive(Debug, Clone)]
pub struct YahooFinanceTool {
    /// Lookback range where the caller names none.
    pub default_range: String,
    /// Candle interval where the caller names none.
    pub default_interval: String,
}

/// The URL of a chart on a host.
pub open spec fn chart_url(
    host: Seq<char>,
    symbol: Seq<char>,
    range: Seq<char>,
    interval: Seq<char>,
) -> Seq<char> {
    "https://"@ + host + "/v8/finance/chart/"@ + crate::outside::percent_encoded(symbol)
        + "?range="@ + crate::outside::percent_encoded(range) + "&interval="@
        + crate::outside::percent_encoded(interval) + "&includePrePost=false"@
}

/// Where a chart is to be had: on the first host, then on the second.
pub open spec fn chart_endpoints(
    symbol: Seq<char>,
    range: Seq<char>,
    interval: Seq<char>,
) -> Seq<crate::transport::EndpointView> {
    seq![
        crate::transport::EndpointView {
            host: FIRST_HOST@,
            url: chart_url(FIRST_HOST@, symbol, range, interval),
        },
        crate::transport::EndpointView {
            host: SECOND_HOST@,
            url: chart_url(SECOND_HOST@, symbol, range, interval),
        },
    ]
}

/// The lookup of a chart, with nobody asked yet.
pub open spec fn chart_fetch(
    symbol: Seq<char>,
    range: Seq<char>,
    interval: Seq<char>,
) -> crate::transport::HostFetchView<YahooChartResult> {
    crate::transport::fresh_fetch(symbol, chart_endpoints(symbol, range, interval))
}

/// What the caller names, or else the default.
pub open spec fn or_default(choice: Option<&str>, default: Seq<char>) -> Seq<char> {
    match choice {
        Some(s) => s@,
        None => default,
    }
}

/// An optional number with two digits behind the point, or `N/A`.
pub open spec fn opt_fixed2<A: Arithmetic>(v: Option<Number>) -> Seq<char> {
    match v {
        Some(x) => crate::number::fixed2::<A>(x),
        None => "N/A"@,
    }
}

/// The name of what a chart shows: the long name, else the short one, else the symbol.
pub open spec fn display_name(symbol: Seq<char>, meta: crate::chart::MetaView) -> Seq<char> {
    match meta.long_name {
        Some(name) => name,
        None => match meta.short_name {
            Some(name) => name,
            None => symbol,
        },
    }
}

/// The head of the report: name and quote.
pub open spec fn report_head<A: Arithmetic>(
    symbol: Seq<char>,
    meta: crate::chart::MetaView,
) -> Seq<char> {
    "## Yahoo Finance Data: "@ + display_name(symbol, meta) + " ("@ + symbol + ")\n\n"@
        + "- **Exchange**: "@ + crate::text::or_missing(meta.exchange_name)
        + "\n- **Currency**: "@ + crate::text::or_missing(meta.currency)
        + "\n- **Latest Price**: "@ + opt_fixed2::<A>(meta.regular_market_price)
        + "\n- **Previous Close**: "@ + opt_fixed2::<A>(meta.previous_close)
        + "\n- **52-Week Range**: "@ + opt_fixed2::<A>(meta.fifty_two_week_low) + " – "@
        + opt_fixed2::<A>(meta.fifty_two_week_high) + "\n\n"@
}

/// The statistics in the report.
pub open spec fn report_stats<A: Arithmetic>(stats: crate::stats::StatsView) -> Seq<char> {
    "### Quantitative Summary ("@ + crate::text::decimal(stats.num_observations)
        + " observations)\n- Period Return: "@ + crate::number::fixed2::<A>(
        stats.period_return_pct,
    ) + "%\n- Annualized Volatility: "@ + crate::number::fixed2::<A>(
        stats.annualized_volatility_pct,
    ) + "%\n- Max Drawdown: "@ + crate::number::fixed2::<A>(stats.max_drawdown_pct)
        + "%\n- Avg Daily Volume: "@ + crate::text::signed_decimal(stats.avg_daily_volume)
        + "\n\n"@
}

/// One candle in the report.
pub open spec fn report_row<A: Arithmetic>(c: crate::chart::CandleView) -> Seq<char> {
    "| "@ + c.date + " | "@ + crate::number::fixed2::<A>(c.open) + " | "@
        + crate::number::fixed2::<A>(c.high) + " | "@ + crate::number::fixed2::<A>(c.low)
        + " | "@ + crate::number::fixed2::<A>(c.close) + " | "@
        + crate::text::signed_decimal(c.volume) + " |\n"@
}

/// Candles in the report, one row each.
pub open spec fn report_rows<A: Arithmetic>(candles: Seq<crate::chart::CandleView>) -> Seq<char>
    decreases candles.len(),
{
    if candles.len() == 0 {
        Seq::empty()
    } else {
        report_rows::<A>(candles.drop_last()) + report_row::<A>(candles.last())
    }
}

/// The last ten candles, or all where there are fewer.
pub open spec fn recent(candles: Seq<crate::chart::CandleView>) -> Seq<crate::chart::CandleView> {
    if candles.len() <= 10 {
        candles
    } else {
        candles.skip(candles.len() - 10)
    }
}

/// The candles in the report.
pub open spec fn report_candles<A: Arithmetic>(
    candles: Seq<crate::chart::CandleView>,
) -> Seq<char> {
    if candles.len() == 0 {
        "_No historical candle data was returned for this range/interval._\n"@
    } else {
        "### Recent Candles (most recent last)\n\n"@
            + "| Date | Open | High | Low | Close | Volume |\n|---|---|---|---|---|---|\n"@
            + report_rows::<A>(recent(candles))
    }
}

/// The markdown report on a chart.
pub open spec fn finance_report<A: Arithmetic>(
    symbol: Seq<char>,
    meta: crate::chart::MetaView,
    candles: Seq<crate::chart::CandleView>,
    stats: Option<crate::stats::StatsView>,
) -> Seq<char> {
    report_head::<A>(symbol, meta) + (match stats {
        Some(s) => report_stats::<A>(s),
        None => Seq::empty(),
    }) + report_candles::<A>(candles)
}

/// A quote without prices.
pub open spec fn quoteless(meta: crate::chart::MetaView) -> bool {
    &&& meta.regular_market_price is None
    &&& meta.previous_close is None
    &&& meta.fifty_two_week_low is None
    &&& meta.fifty_two_week_high is None
}

/// A chart whose report renders no number: no prices in the quote, and no candles.
pub open spec fn numberless(result: YahooChartResult) -> bool {
    quoteless(result.meta@) && crate::chart::chart_candles(result).len() == 0
}

/// The report on what a lookup delivered: candles, statistics and all.
pub open spec fn chart_report<A: Arithmetic>(
    symbol: Seq<char>,
    result: YahooChartResult,
) -> Seq<char> {
    let candles = crate::chart::chart_candles(result);
    finance_report::<A>(
        symbol,
        result.meta@,
        candles,
        crate::stats::series_stats::<A>(symbol, result.meta@, candles),
    )
}

/// An optional number with two digits behind the point, or `N/A`.
pub fn opt_fixed2_text<A: Arithmetic>(v: Option<Number>) -> (r: String)
    ensures
        crate::number::repeatable::<A>() || v is None ==> r@ == opt_fixed2::<A>(v),
{
    match v {
        Some(x) => A::fixed2(x),
        None => "N/A".to_owned(),
    }
}

/// What the caller names, or else the default.
pub fn choose_text(choice: Option<&str>, default: &String) -> (r: String)
    ensures
        r@ == or_default(choice, default@),
{
    match choice {
        Some(s) => s.to_owned(),
        None => default.clone(),
    }
}

fn head_text<A: Arithmetic>(symbol: &str, meta: &YahooMeta) -> (r: String)
    ensures
        crate::number::repeatable::<A>() || quoteless(meta@) ==> r@ == report_head::<A>(
            symbol@,
            meta@,
        ),
{
    let name = match &meta.long_name {
        Some(name) => name.clone(),
        None => match &meta.short_name {
            Some(name) => name.clone(),
            None => symbol.to_owned(),
        },
    };
    let mut out = "## Yahoo Finance Data: ".to_owned();
    out.append(name.as_str());
    out.append(" (");
    out.append(symbol);
    out.append(")\n\n");
    out.append("- **Exchange**: ");
    out.append(text_or_missing(&meta.exchange_name).as_str());
    out.append("\n- **Currency**: ");
    out.append(text_or_missing(&meta.currency).as_str());
    out.append("\n- **Latest Price**: ");
    out.append(opt_fixed2_text::<A>(meta.regular_market_price).as_str());
    out.append("\n- **Previous Close**: ");
    out.append(opt_fixed2_text::<A>(meta.previous_close).as_str());
    out.append("\n- **52-Week Range**: ");
    out.append(opt_fixed2_text::<A>(meta.fifty_two_week_low).as_str());
    out.append(" – ");
    out.append(opt_fixed2_text::<A>(meta.fifty_two_week_high).as_str());
    out.append("\n\n");
    out
}

fn stats_text<A: Arithmetic>(stats: &FinanceStats) -> (r: String)
    ensures
        crate::number::repeatable::<A>() ==> r@ == report_stats::<A>(stats@),
{
    let mut out = "### Quantitative Summary (".to_owned();
    out.append(count_text(stats.num_observations).as_str());
    out.append(" observations)\n- Period Return: ");
    out.append(A::fixed2(stats.period_return_pct).as_str());
    out.append("%\n- Annualized Volatility: ");
    out.append(A::fixed2(stats.annualized_volatility_pct).as_str());
    out.append("%\n- Max Drawdown: ");
    out.append(A::fixed2(stats.max_drawdown_pct).as_str());
    out.append("%\n- Avg Daily Volume: ");
    out.append(signed_text(stats.avg_daily_volume).as_str());
    out.append("\n\n");
    out
}

fn row_text<A: Arithmetic>(c: &Candle) -> (r: String)
    ensures
        crate::number::repeatable::<A>() ==> r@ == report_row::<A>(c@),
{
    let mut out = "| ".to_owned();
    out.append(c.date.as_str());
    out.append(" | ");
    out.append(A::fixed2(c.open).as_str());
    out.append(" | ");
    out.append(A::fixed2(c.high).as_str());
    out.append(" | ");
    out.append(A::fixed2(c.low).as_str());
    out.append(" | ");
    out.append(A::fixed2(c.close).as_str());
    out.append(" | ");
    out.append(signed_text(c.volume).as_str());
    out.append(" |\n");
    out
}

fn candles_text<A: Arithmetic>(candles: &Vec<Candle>) -> (r: String)
    ensures
        crate::number::repeatable::<A>() || candles@.len() == 0 ==> r@ == report_candles::<A>(
            crate::chart::candle_views(candles@),
        ),
{
    let ghost all = crate::chart::candle_views(candles@);
    if candles.len() == 0 {
        return "_No historical candle data was returned for this range/interval._\n".to_owned();
    }
    let mut out = "### Recent Candles (most recent last)\n\n".to_owned();
    out.append("| Date | Open | High | Low | Close | Volume |\n|---|---|---|---|---|---|\n");
    let ghost head = out@;
    let from: usize = if candles.len() <= 10 {
        0
    } else {
        candles.len() - 10
    };
    assert(all.subrange(from as int, from as int) =~= Seq::<crate::chart::CandleView>::empty());
    assert(out@ =~= head + report_rows::<A>(all.subrange(from as int, from as int)));
    for i in from..candles.len()
        invariant
            all == crate::chart::candle_views(candles@),
            crate::number::repeatable::<A>() ==> out@ == head + report_rows::<A>(
                all.subrange(from as int, i as int),
            ),
    {
        assert(all.subrange(from as int, i + 1).drop_last() =~= all.subrange(
            from as int,
            i as int,
        ));
        assert(all.subrange(from as int, i + 1).last() == candles@[i as int]@);
        let ghost before = out@;
        out.append(row_text::<A>(&candles[i]).as_str());
        assert(crate::number::repeatable::<A>() ==> out@ =~= head + (report_rows::<A>(
            all.subrange(from as int, i as int),
        ) + report_row::<A>(candles@[i as int]@)));
    }
    assert(all.subrange(from as int, candles@.len() as int) =~= recent(all));
    out
}

/// Renders quote, statistics and recent candles as a markdown report.
pub fn format_finance_report<A: Arithmetic>(
    symbol: &str,
    meta: &YahooMeta,
    candles: &Vec<Candle>,
    stats: &Option<FinanceStats>,
) -> (r: String)
    ensures
        crate::number::repeatable::<A>() || (quoteless(meta@) && *stats is None && candles@.len()
            == 0) ==> r@ == finance_report::<A>(
            symbol@,
            meta@,
            crate::chart::candle_views(candles@),
            crate::stats::opt_stats_view(*stats),
        ),
{
    let mut out = head_text::<A>(symbol, meta);
    let ghost head = out@;
    if let Some(s) = stats {
        out.append(stats_text::<A>(s).as_str());
    } else {
        assert(head + Seq::<char>::empty() =~= head);
    }
    out.append(candles_text::<A>(candles).as_str());
    out
}

fn chart_endpoint(host: &str, symbol: &str, range: &str, interval: &str) -> (r: Endpoint)
    ensures
        r@ == (crate::transport::EndpointView {
            host: host@,
            url: chart_url(host@, symbol@, range@, interval@),
        }),
{
    let mut url = "https://".to_owned();
    url.append(host);
    url.append("/v8/finance/chart/");
    url.append(percent_encode(symbol).as_str());
    url.append("?range=");
    url.append(percent_encode(range).as_str());
    url.append("&interval=");
    url.append(percent_encode(interval).as_str());
    url.append("&includePrePost=false");
    Endpoint { host: host.to_owned(), url }
}

/// Whether the volumes of a chart can be added up in 64 bits, as its statistics ask.
pub fn check_chart_volumes(result: &YahooChartResult) -> (r: bool)
    ensures
        r == crate::stats::volumes_add_up(crate::chart::chart_candles(*result)),
{
    check_volumes(&candles_of(result))
}

impl YahooFinanceTool {
    /// A tool with the given default range and interval.
    pub fn new(default_range: &str, default_interval: &str) -> (r: YahooFinanceTool)
        ensures
            r.default_range@ == default_range@,
            r.default_interval@ == default_interval@,
    {
        YahooFinanceTool {
            default_range: default_range.to_owned(),
            default_interval: default_interval.to_owned(),
        }
    }

    /// Begins the lookup of a chart: the first host is asked, and the second
    /// where the first one does not deliver.
    pub fn fetch_chart(&self, symbol: &str, range: &str, interval: &str) -> (r: HostFetch<
        YahooChartResult,
    >)
        ensures
            r@ == chart_fetch(symbol@, range@, interval@),
    {
        let mut endpoints: Vec<Endpoint> = Vec::new();
        endpoints.push(chart_endpoint(FIRST_HOST, symbol, range, interval));
        endpoints.push(chart_endpoint(SECOND_HOST, symbol, range, interval));
        assert(endpoints@.map_values(|e: Endpoint| e@) =~= chart_endpoints(
            symbol@,
            range@,
            interval@,
        ));
        HostFetch::start(symbol, endpoints)
    }

    /// Begins the lookup behind a report, with the defaults for what is not named.
    pub fn fetch_for_report(
        &self,
        symbol: &str,
        range: Option<&str>,
        interval: Option<&str>,
    ) -> (r: HostFetch<YahooChartResult>)
        ensures
            r@ == chart_fetch(
                symbol@,
                or_default(range, self.default_range@),
                or_default(interval, self.default_interval@),
            ),
    {
        let range = choose_text(range, &self.default_range);
        let interval = choose_text(interval, &self.default_interval);
        self.fetch_chart(symbol, range.as_str(), interval.as_str())
    }

    /// The candles of a chart: one for each row that has open, high, low and
    /// close, in the chart's order.
    pub fn build_candles(result: &YahooChartResult) -> (r: Vec<Candle>)
        ensures
            crate::chart::candle_views(r@) == crate::chart::chart_candles(*result),
    {
        candles_of(result)
    }

    /// Summary statistics of a candle series; none for an empty one.
    pub fn compute_stats<A: Arithmetic>(
        symbol: &str,
        meta: &YahooMeta,
        candles: &Vec<Candle>,
    ) -> (r: Option<FinanceStats>)
        requires
            crate::stats::volumes_add_up(crate::chart::candle_views(candles@)),
        ensures
            r is None <==> candles@.len() == 0,
            r matches Some(stats) ==> crate::stats::read_from_series(
                stats@,
                symbol@,
                meta@,
                crate::chart::candle_views(candles@),
            ),
            crate::number::repeatable::<A>() ==> crate::stats::opt_stats_view(r)
                == crate::stats::series_stats::<A>(
                symbol@,
                meta@,
                crate::chart::candle_views(candles@),
            ),
    {
        stats_of::<A>(symbol, meta, candles)
    }

    /// The report on what the lookup of `symbol` came to.
    pub fn get_report<A: Arithmetic>(
        &self,
        symbol: &str,
        fetched: Result<YahooChartResult, FinanceError>,
    ) -> (r: Result<String, FinanceError>)
        requires
            fetched matches Ok(result) ==> crate::stats::volumes_add_up(
                crate::chart::chart_candles(result),
            ),
        ensures
            r is Ok <==> fetched is Ok,
            fetched matches Err(e) ==> r == Err::<String, FinanceError>(e),
            fetched matches Ok(result) ==> (crate::number::repeatable::<A>() || numberless(result)
                ==> r->Ok_0@ == chart_report::<A>(symbol@, result)),
    {
        match fetched {
            Ok(result) => {
                let candles = Self::build_candles(&result);
                let stats = Self::compute_stats::<A>(symbol, &result.meta, &candles);
                Ok(format_finance_report::<A>(symbol, &result.meta, &candles, &stats))
            },
            Err(e) => Err(e),
        }
    }
}

/// A character that a URL takes as it stands, or the percent sign.
pub open spec fn url_safe(c: char) -> bool {
    ||| '0' <= c && c <= '9'
    ||| 'A' <= c && c <= 'Z'
    ||| 'a' <= c && c <= 'z'
    ||| c == '-'
    ||| c == '.'
    ||| c == '_'
    ||| c == '~'
    ||| c == '%'
}

proof fn lemma_percent_bytes_safe(bytes: Seq<u8>)
    ensures
        forall|i: int|
            0 <= i < crate::outside::percent_bytes(bytes).len() ==> url_safe(
                #[trigger] crate::outside::percent_bytes(bytes)[i],
            ),
    decreases bytes.len(),
{
    if bytes.len() > 0 {
        lemma_percent_bytes_safe(bytes.drop_last());
        let before = crate::outside::percent_bytes(bytes.drop_last());
        let unit = crate::outside::percent_byte(bytes.last());
        assert forall|i: int| 0 <= i < unit.len() implies url_safe(#[trigger] unit[i]) by {}
        assert forall|i: int| 0 <= i < (before + unit).len() implies url_safe(
            #[trigger] (before + unit)[i],
        ) by {
            if i < before.len() {
                assert(url_safe(before[i]));
            } else {
                assert(url_safe(unit[i - before.len()]));
            }
        }
    }
}

/// Whatever a caller names, its encoded form holds no character that ends a
/// path or a parameter of a URL, so a request asks for what it names and
/// nothing else.
pub proof fn law_encoded_text_is_url_safe(text: Seq<char>)
    ensures
        forall|i: int|
            0 <= i < crate::outside::percent_encoded(text).len() ==> url_safe(
                #[trigger] crate::outside::percent_encoded(text)[i],
            ),
{
    lemma_percent_bytes_safe(vstd::utf8::encode_utf8(text));
}

} // verus!
