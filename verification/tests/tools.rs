use quant_research_agent::agent::ResearchAgent;
use quant_research_agent::basket::MultiSymbolTool;
use quant_research_agent::chart::YahooChartResult;
use quant_research_agent::chart::YahooIndicators;
use quant_research_agent::chart::YahooMeta;
use quant_research_agent::chart::YahooQuoteIndicators;
use quant_research_agent::config::Config;
use quant_research_agent::finance::check_chart_volumes;
use quant_research_agent::finance::YahooFinanceTool;
use quant_research_agent::fundamentals::AssetProfile;
use quant_research_agent::fundamentals::CrumbReply;
use quant_research_agent::fundamentals::DefaultKeyStatistics;
use quant_research_agent::fundamentals::FinancialData;
use quant_research_agent::fundamentals::QuoteSummaryResult;
use quant_research_agent::fundamentals::RawFmtNumber;
use quant_research_agent::fundamentals::SummaryDetail;
use quant_research_agent::fundamentals::YahooFundamentalsTool;
use quant_research_agent::fx::FxRateTool;
use quant_research_agent::number::Arithmetic;
use quant_research_agent::number::Number;
use quant_research_agent::number::Single;
use quant_research_agent::search::SearchArgs;
use quant_research_agent::search::SearchError;
use quant_research_agent::search::SearchReply;
use quant_research_agent::search::TavilyResponse;
use quant_research_agent::search::TavilyResult;
use quant_research_agent::search::WebSearchTool;
use quant_research_agent::transport::Body;
use quant_research_agent::transport::Envelope;
use quant_research_agent::transport::FinanceError;
use quant_research_agent::transport::HostFetch;
use quant_research_agent::transport::HostReply;
use quant_research_agent::transport::YahooApiError;

struct Floats;

impl Arithmetic for Floats {
    fn plus(a: Number, b: Number) -> Number {
        number(float(a) + float(b))
    }

    fn minus(a: Number, b: Number) -> Number {
        number(float(a) - float(b))
    }

    fn times(a: Number, b: Number) -> Number {
        number(float(a) * float(b))
    }

    fn divide(a: Number, b: Number) -> Number {
        number(float(a) / float(b))
    }

    fn ln(a: Number) -> Number {
        number(float(a).ln())
    }

    fn sqrt(a: Number) -> Number {
        number(float(a).sqrt())
    }

    fn square(a: Number) -> Number {
        number(float(a).powi(2))
    }

    fn from_count(n: u128) -> Number {
        number(n as f64)
    }

    fn fixed2(a: Number) -> String {
        format!("{:.2}", float(a))
    }

    fn parse_single(text: &str) -> Option<Single> {
        text.parse::<f32>().ok().map(|x| Single { bits: x.to_bits() })
    }
}

fn number(x: f64) -> Number {
    Number { bits: x.to_bits() }
}

fn float(x: Number) -> f64 {
    f64::from_bits(x.bits)
}

#[test]
fn test_web_search_tool_creation() {
    let tool = WebSearchTool::new("test-key", 5);
    assert_eq!(tool.max_results, 5);
}

fn search_answer(code: u16, status: &str, body: Result<TavilyResponse, String>) -> SearchReply {
    SearchReply::Answered { code, status: status.to_string(), body }
}

fn two_pages() -> TavilyResponse {
    TavilyResponse {
        results: vec![
            TavilyResult {
                title: "One".to_string(),
                url: "https://one".to_string(),
                content: "first".to_string(),
                score: number(0.875),
            },
            TavilyResult {
                title: "Two".to_string(),
                url: "https://two".to_string(),
                content: "second".to_string(),
                score: number(0.5),
            },
        ],
        answer: None,
    }
}

#[test]
fn search_posts_what_was_asked() {
    let request = WebSearchTool::new("key", 3).request("rust").unwrap();
    assert_eq!(request.api_key, "key");
    assert_eq!(request.query, "rust");
    assert_eq!(request.search_depth, "advanced");
    assert_eq!(request.max_results, 3);
    assert!(request.include_answer);
    assert!(matches!(
        WebSearchTool::new("", 3).request("rust"),
        Err(SearchError::MissingApiKey)
    ));
}

#[test]
fn search_keeps_the_pages_in_order() {
    let tool = WebSearchTool::new("key", 3);
    let pages = tool.search("q", search_answer(200, "200 OK", Ok(two_pages()))).unwrap();
    assert_eq!(pages.len(), 2);
    assert_eq!(pages[0].title, "One");
    assert_eq!(pages[0].url, "https://one");
    assert_eq!(pages[0].content, "first");
    assert_eq!(pages[0].score, number(0.875));
    assert_eq!(pages[1].title, "Two");
}

#[test]
fn search_listing_shows_relevance() {
    let tool = WebSearchTool::new("key", 3);
    let args = SearchArgs { query: "rust".to_string() };
    let text = tool.call::<Floats>(&args, search_answer(200, "200 OK", Ok(two_pages()))).unwrap();
    assert_eq!(
        text,
        format!(
            "## Search Results: rust\n\n1. **One** (relevance: {:.2})\n   first\n   URL: \
             https://one\n\n2. **Two** (relevance: 0.50)\n   second\n   URL: https://two\n",
            0.875
        )
    );
}

#[test]
fn search_errors_are_put_in_words() {
    let tool = WebSearchTool::new("key", 3);
    let message = |reply: SearchReply| tool.search("q", reply).unwrap_err().message();
    assert_eq!(
        message(SearchReply::SendFailed("timeout".to_string())),
        "Network error: timeout"
    );
    assert_eq!(
        message(search_answer(401, "401 Unauthorized", Ok(two_pages()))),
        "Tavily API request failed: HTTP 401 Unauthorized"
    );
    assert_eq!(
        message(search_answer(200, "200 OK", Err("bad json".to_string()))),
        "Tavily API request failed: bad json"
    );
    let nothing = TavilyResponse { results: vec![], answer: Some("a".to_string()) };
    assert_eq!(
        message(search_answer(200, "200 OK", Ok(nothing))),
        "No results returned for query: q"
    );
    assert_eq!(
        WebSearchTool::new("", 3)
            .search("q", search_answer(200, "200 OK", Ok(two_pages())))
            .unwrap_err()
            .message(),
        "TAVILY_API_KEY is not set"
    );
}

fn meta() -> YahooMeta {
    YahooMeta {
        currency: Some("USD".to_string()),
        symbol: None,
        exchange_name: None,
        instrument_type: None,
        regular_market_price: Some(number(108.0)),
        previous_close: None,
        fifty_two_week_high: Some(number(120.5)),
        fifty_two_week_low: Some(number(80.25)),
        regular_market_time: None,
        long_name: None,
        short_name: Some("Test Corp".to_string()),
    }
}

fn column(prices: &[f64]) -> Option<Vec<Option<Number>>> {
    Some(prices.iter().map(|p| Some(number(*p))).collect())
}

fn chart(prices: &[f64], volumes: &[i64]) -> YahooChartResult {
    YahooChartResult {
        meta: meta(),
        timestamp: Some((0..prices.len()).map(|i| i as i64 * 86400).collect()),
        indicators: YahooIndicators {
            quote: vec![YahooQuoteIndicators {
                open: column(prices),
                high: column(prices),
                low: column(prices),
                close: column(prices),
                volume: Some(volumes.iter().map(|v| Some(*v)).collect()),
            }],
        },
    }
}

fn parsed<T>(result: Option<Vec<T>>, error: Option<YahooApiError>) -> HostReply<T> {
    HostReply::Answered {
        code: 200,
        status: "200 OK".to_string(),
        body: Body::Parsed(Envelope { result, error }),
    }
}

fn answer<T>(code: u16, status: &str, body: Body<T>) -> HostReply<T> {
    HostReply::Answered { code, status: status.to_string(), body }
}

fn ask(tool: &YahooFinanceTool) -> HostFetch<YahooChartResult> {
    tool.fetch_chart("AAPL", "3mo", "1d")
}

#[test]
fn chart_urls_are_encoded() {
    let tool = YahooFinanceTool::new("3mo", "1d");
    let fetch = tool.fetch_chart("BRK B/é&~", "1?", "=");
    assert_eq!(
        fetch.next_request().unwrap(),
        "https://query1.finance.yahoo.com/v8/finance/chart/BRK%20B%2F%C3%A9%26~?range=1%3F&\
         interval=%3D&includePrePost=false"
    );
    let fetch = tool.fetch_for_report("RELIANCE.NS", None, Some("1wk"));
    assert_eq!(
        fetch.next_request().unwrap(),
        "https://query1.finance.yahoo.com/v8/finance/chart/RELIANCE.NS?range=3mo&interval=1wk&\
         includePrePost=false"
    );
}

#[test]
fn every_byte_is_encoded_as_it_should_be() {
    let tool = YahooFinanceTool::new("3mo", "1d");
    for c in (0u8..128).map(|b| b as char) {
        let url = tool.fetch_chart(&c.to_string(), "r", "i").next_request().unwrap();
        let encoded = if c.is_ascii_alphanumeric() || matches!(c, '-' | '_' | '.' | '~') {
            c.to_string()
        } else {
            format!("%{:02X}", c as u32)
        };
        assert_eq!(
            url,
            format!(
                "https://query1.finance.yahoo.com/v8/finance/chart/{encoded}?range=r&interval=i&\
                 includePrePost=false"
            )
        );
    }
}

#[test]
fn the_second_host_is_asked_where_the_first_fails() {
    let tool = YahooFinanceTool::new("3mo", "1d");
    let mut fetch = ask(&tool);
    fetch.on_reply(HostReply::SendFailed("reset".to_string()));
    assert_eq!(
        fetch.next_request().unwrap(),
        "https://query2.finance.yahoo.com/v8/finance/chart/AAPL?range=3mo&interval=1d&\
         includePrePost=false"
    );
    fetch.on_reply(parsed(Some(vec![chart(&[1.0], &[1]), chart(&[2.0], &[1])]), None));
    assert_eq!(fetch.next_request(), None);
    let result = fetch.finish().unwrap();
    assert_eq!(YahooFinanceTool::build_candles(&result)[0].close, number(2.0));
}

#[test]
fn the_first_delivery_ends_the_lookup() {
    let tool = YahooFinanceTool::new("3mo", "1d");
    let mut fetch = ask(&tool);
    fetch.on_reply(parsed(Some(vec![chart(&[3.0], &[1])]), None));
    assert_eq!(fetch.next_request(), None);
    assert!(fetch.finish().is_ok());
}

#[test]
fn the_last_failure_is_reported() {
    let tool = YahooFinanceTool::new("3mo", "1d");
    let mut fetch = ask(&tool);
    fetch.on_reply(answer(429, "429 Too Many Requests", Body::Unreadable(String::new())));
    fetch.on_reply(answer(503, "503 Service Unavailable", Body::Unreadable(String::new())));
    assert_eq!(fetch.next_request(), None);
    assert_eq!(
        fetch.finish().unwrap_err().message(),
        "Failed to fetch data from Yahoo Finance: HTTP 503 Service Unavailable from \
         query2.finance.yahoo.com"
    );
}

fn failure(reply: HostReply<YahooChartResult>) -> String {
    let tool = YahooFinanceTool::new("3mo", "1d");
    let mut fetch = ask(&tool);
    fetch.on_reply(reply);
    fetch.finish().unwrap_err().message()
}

#[test]
fn each_failure_has_its_words() {
    assert_eq!(failure(HostReply::SendFailed("reset".to_string())), "Network error: reset");
    assert_eq!(
        failure(answer(429, "429 Too Many Requests", Body::Malformed("x".to_string()))),
        "Rate limited by Yahoo Finance, please wait"
    );
    assert_eq!(
        failure(answer(404, "404 Not Found", Body::Malformed("x".to_string()))),
        "Failed to fetch data from Yahoo Finance: HTTP 404 Not Found from query1.finance.yahoo.com"
    );
    assert_eq!(
        failure(answer(200, "200 OK", Body::Unreadable("cut off".to_string()))),
        "Network error: cut off"
    );
    assert_eq!(
        failure(answer(204, "204 No Content", Body::Malformed("eof".to_string()))),
        "Failed to parse Yahoo Finance response: eof"
    );
    assert_eq!(
        failure(parsed(
            Some(vec![chart(&[1.0], &[1])]),
            Some(YahooApiError { code: None, description: Some("delisted".to_string()) })
        )),
        "Symbol not found or no data returned for: delisted"
    );
    assert_eq!(
        failure(parsed(None, Some(YahooApiError { code: None, description: None }))),
        "Symbol not found or no data returned for: AAPL"
    );
    assert_eq!(failure(parsed(None, None)), "Symbol not found or no data returned for: AAPL");
    assert_eq!(
        failure(parsed(Some(vec![]), None)),
        "Symbol not found or no data returned for: AAPL"
    );
}

#[test]
fn a_lookup_that_asked_nobody_fails() {
    let fetch: HostFetch<YahooChartResult> = HostFetch::start("X", vec![]);
    assert_eq!(fetch.next_request(), None);
    assert_eq!(
        fetch.finish().unwrap_err().message(),
        "Failed to fetch data from Yahoo Finance: All Yahoo Finance hosts failed"
    );
}

#[test]
fn incomplete_rows_leave_no_candle() {
    let mut result = chart(&[1.0, 2.0, 3.0, 4.0], &[10, 20]);
    let quote = &mut result.indicators.quote[0];
    quote.high.as_mut().unwrap()[1] = None;
    quote.low.as_mut().unwrap().truncate(3);
    let candles = YahooFinanceTool::build_candles(&result);
    assert_eq!(candles.len(), 2);
    assert_eq!(candles[0].date, "1970-01-01");
    assert_eq!(candles[0].close, number(1.0));
    assert_eq!(candles[0].volume, 10);
    assert_eq!(candles[1].date, "1970-01-03");
    assert_eq!(candles[1].close, number(3.0));
    assert_eq!(candles[1].volume, 0);
}

#[test]
fn charts_without_rows_or_columns_have_no_candles() {
    let mut result = chart(&[1.0], &[1]);
    result.indicators.quote[0].open = None;
    assert!(YahooFinanceTool::build_candles(&result).is_empty());
    result.indicators.quote.clear();
    assert!(YahooFinanceTool::build_candles(&result).is_empty());
    result.timestamp = None;
    assert!(YahooFinanceTool::build_candles(&result).is_empty());
}

const PRICES: [f64; 6] = [100.0, 102.0, 101.0, 105.0, 103.0, 108.0];

#[test]
fn statistics_follow_the_formulas() {
    let result = chart(&PRICES, &[10, 20, 30, 40, 50, 61]);
    let candles = YahooFinanceTool::build_candles(&result);
    let stats =
        YahooFinanceTool::compute_stats::<Floats>("TST", &result.meta, &candles).unwrap();
    assert_eq!(stats.symbol, "TST");
    assert_eq!(stats.currency, "USD");
    assert_eq!(stats.exchange, "N/A");
    assert_eq!(float(stats.latest_close), 108.0);
    assert_eq!(float(stats.period_start_close), 100.0);
    assert_eq!(float(stats.period_return_pct), (108.0 / 100.0 - 1.0) * 100.0);

    let gains: Vec<f64> = (1..6).map(|i| (PRICES[i] / PRICES[i - 1]).ln()).collect();
    let mean = gains.iter().fold(0.0, |s, g| s + g) / 5.0;
    let variance =
        gains.iter().map(|g| (g - mean).powi(2)).fold(0.0, |s, d| s + d) / (5.0 - 1.0);
    assert_eq!(
        float(stats.annualized_volatility_pct),
        variance.sqrt() * (252.0_f64).sqrt() * 100.0
    );
    assert_eq!(float(stats.max_drawdown_pct), (103.0 / 105.0 - 1.0) * 100.0);
    assert_eq!(stats.fifty_two_week_high, Some(number(120.5)));
    assert_eq!(stats.fifty_two_week_low, Some(number(80.25)));
    assert_eq!(stats.avg_daily_volume, 211 / 6);
    assert_eq!(stats.num_observations, 6);
}

fn stats_for(prices: &[f64], volumes: &[i64]) -> quant_research_agent::stats::FinanceStats {
    let result = chart(prices, volumes);
    let candles = YahooFinanceTool::build_candles(&result);
    YahooFinanceTool::compute_stats::<Floats>("X", &result.meta, &candles).unwrap()
}

#[test]
fn statistics_of_degenerate_series() {
    let stats = stats_for(&[5.0], &[7]);
    assert_eq!(float(stats.period_return_pct), 0.0);
    assert_eq!(float(stats.annualized_volatility_pct), 0.0);
    assert_eq!(float(stats.max_drawdown_pct), 0.0);
    assert_eq!(stats.avg_daily_volume, 7);
    let stats = stats_for(&[0.0, 4.0, 2.0], &[-7, 0, 0]);
    assert_eq!(float(stats.period_return_pct), 0.0);
    assert_eq!(float(stats.annualized_volatility_pct), 0.0);
    assert_eq!(float(stats.max_drawdown_pct), -50.0);
    assert_eq!(stats.avg_daily_volume, -7 / 3);
    let stats = stats_for(&[1.0, 2.0, 4.0], &[0, 0, 0]);
    assert_eq!(float(stats.max_drawdown_pct), 0.0);
}

#[test]
fn statistics_do_not_depend_on_the_unit() {
    let volumes = [10, 20, 30, 40, 50, 61];
    let plain = stats_for(&PRICES, &volumes);
    for factor in [4.0, 0.125] {
        let prices: Vec<f64> = PRICES.iter().map(|p| factor * p).collect();
        let scaled = stats_for(&prices, &volumes);
        assert_eq!(scaled.period_return_pct, plain.period_return_pct);
        assert_eq!(scaled.annualized_volatility_pct, plain.annualized_volatility_pct);
        assert_eq!(scaled.max_drawdown_pct, plain.max_drawdown_pct);
        assert_eq!(scaled.avg_daily_volume, plain.avg_daily_volume);
        assert_eq!(scaled.num_observations, plain.num_observations);
        assert_eq!(float(scaled.latest_close), factor * 108.0);
        assert_eq!(float(scaled.period_start_close), factor * 100.0);
    }
}

#[test]
fn an_empty_series_has_no_statistics() {
    assert!(YahooFinanceTool::compute_stats::<Floats>("X", &meta(), &vec![]).is_none());
}

#[test]
fn volumes_that_overflow_are_noticed() {
    assert!(check_chart_volumes(&chart(&[1.0, 1.0], &[i64::MAX, 0])));
    assert!(!check_chart_volumes(&chart(&[1.0, 1.0], &[i64::MAX, 1])));
    assert!(!check_chart_volumes(&chart(&[1.0, 1.0, 1.0], &[i64::MIN, -1, 1])));
    assert!(check_chart_volumes(&chart(&[], &[])));
}

#[test]
fn report_on_a_chart() {
    let tool = YahooFinanceTool::new("3mo", "1d");
    let text = tool.get_report::<Floats>("TST", Ok(chart(&[100.0, 110.0], &[10, 20]))).unwrap();
    let expected = "## Yahoo Finance Data: Test Corp (TST)\n\n\
        - **Exchange**: N/A\n- **Currency**: USD\n- **Latest Price**: 108.00\n\
        - **Previous Close**: N/A\n- **52-Week Range**: 80.25 – 120.50\n\n\
        ### Quantitative Summary (2 observations)\n- Period Return: 10.00%\n\
        - Annualized Volatility: 0.00%\n- Max Drawdown: 0.00%\n- Avg Daily Volume: 15\n\n\
        ### Recent Candles (most recent last)\n\n\
        | Date | Open | High | Low | Close | Volume |\n|---|---|---|---|---|---|\n\
        | 1970-01-01 | 100.00 | 100.00 | 100.00 | 100.00 | 10 |\n\
        | 1970-01-02 | 110.00 | 110.00 | 110.00 | 110.00 | 20 |\n";
    assert_eq!(text, expected);
}

#[test]
fn report_shows_the_last_ten_candles() {
    let prices: Vec<f64> = (1..=12).map(|i| i as f64).collect();
    let tool = YahooFinanceTool::new("3mo", "1d");
    let text = tool.get_report::<Floats>("TST", Ok(chart(&prices, &[]))).unwrap();
    assert_eq!(text.matches("| 1970-01-").count(), 10);
    assert!(!text.contains("1970-01-02"));
    assert!(text.contains("| 1970-01-03 |"));
    assert!(text.ends_with("| 1970-01-12 | 12.00 | 12.00 | 12.00 | 12.00 | 0 |\n"));
}

#[test]
fn report_without_candles() {
    let mut result = chart(&[], &[]);
    result.meta.long_name = Some("Long Name".to_string());
    let tool = YahooFinanceTool::new("3mo", "1d");
    let text = tool.get_report::<Floats>("TST", Ok(result)).unwrap();
    assert!(text.starts_with("## Yahoo Finance Data: Long Name (TST)\n\n"));
    assert!(text.ends_with(
        "120.50\n\n_No historical candle data was returned for this range/interval._\n"
    ));
    let mut result = chart(&[], &[]);
    result.meta.short_name = None;
    let text = tool.get_report::<Floats>("TST", Ok(result)).unwrap();
    assert!(text.starts_with("## Yahoo Finance Data: TST (TST)\n\n"));
}

#[test]
fn a_failed_lookup_has_no_report() {
    let tool = YahooFinanceTool::new("3mo", "1d");
    let r = tool.get_report::<Floats>("TST", Err(FinanceError::RateLimited));
    assert!(matches!(r, Err(FinanceError::RateLimited)));
}

#[test]
fn pairs_are_trimmed_and_in_upper_case() {
    assert_eq!(FxRateTool::pair_symbol("USD", "INR"), "USDINR=X");
    assert_eq!(FxRateTool::pair_symbol(" usd\t", "\u{3000}inr\n"), "USDINR=X");
    assert_eq!(FxRateTool::pair_symbol("straße", ""), "STRASSE=X");
}

#[test]
fn every_ascii_letter_has_its_upper_case() {
    for c in (0u8..128).map(|b| b as char).filter(|c| !c.is_whitespace()) {
        assert_eq!(
            FxRateTool::pair_symbol(&c.to_string(), "x"),
            format!("{}X=X", c.to_ascii_uppercase())
        );
    }
}

#[test]
fn drawdown_is_the_deepest_fall() {
    let prices = [10.0, 12.0, 9.0, 15.0, 12.0, 14.0];
    let deepest = float(stats_for(&prices, &[]).max_drawdown_pct);
    assert_eq!(deepest, (9.0 / 12.0 - 1.0) * 100.0);
    for j in 0..prices.len() {
        for i in 0..=j {
            assert!(deepest <= (prices[j] / prices[i] - 1.0) * 100.0);
        }
    }
}

#[test]
fn pair_lookup_asks_for_the_pair() {
    let fetch = FxRateTool::new().fetch_pair("usd", " inr");
    assert_eq!(
        fetch.next_request().unwrap(),
        "https://query1.finance.yahoo.com/v8/finance/chart/USDINR%3DX?range=5d&interval=1d&\
         includePrePost=false"
    );
}

#[test]
fn report_on_a_pair() {
    let tool = FxRateTool::new();
    let result = || chart(&[83.0, 84.0], &[0, 0]);
    let inner = tool.inner.get_report::<Floats>("USDINR=X", Ok(result())).unwrap();
    assert_eq!(
        tool.get_report::<Floats>("usd ", "inr", Ok(result())).unwrap(),
        format!("**FX Pair**: USD  → INR\n\n{inner}")
    );
    assert!(tool.get_report::<Floats>("a", "b", Err(FinanceError::RateLimited)).is_err());
}

fn figure(text: &str) -> Option<RawFmtNumber> {
    Some(RawFmtNumber { raw: Some(number(1.0)), fmt: Some(text.to_string()) })
}

#[test]
fn figures_prefer_their_written_form() {
    assert_eq!(RawFmtNumber::display::<Floats>(&figure("2.45T")), "2.45T");
    let raw = Some(RawFmtNumber { raw: Some(number(13.25)), fmt: None });
    assert_eq!(RawFmtNumber::display::<Floats>(&raw), "13.25");
    let neither = Some(RawFmtNumber { raw: None, fmt: None });
    assert_eq!(RawFmtNumber::display::<Floats>(&neither), "N/A");
    assert_eq!(RawFmtNumber::display::<Floats>(&None), "N/A");
}

#[test]
fn report_on_fundamentals() {
    let result = QuoteSummaryResult {
        summary_detail: Some(SummaryDetail {
            market_cap: figure("a"),
            trailing_pe: figure("b"),
            forward_pe: figure("c"),
            dividend_yield: figure("d"),
            beta: figure("e"),
            average_volume: figure("unused"),
        }),
        default_key_statistics: Some(DefaultKeyStatistics {
            profit_margins: figure("f"),
            peg_ratio: figure("g"),
            price_to_book: figure("h"),
            shares_outstanding: figure("unused"),
        }),
        financial_data: Some(FinancialData {
            total_revenue: figure("i"),
            total_debt: figure("j"),
            total_cash: figure("k"),
            debt_to_equity: figure("l"),
            return_on_equity: figure("m"),
            current_ratio: figure("n"),
            gross_margins: figure("o"),
            operating_margins: figure("p"),
            revenue_growth: figure("q"),
            recommendation_key: Some("buy".to_string()),
        }),
        asset_profile: Some(AssetProfile {
            sector: Some("Tech".to_string()),
            industry: None,
            country: Some("India".to_string()),
            full_time_employees: Some(1234),
        }),
    };
    let expected = "## Fundamentals: TST\n\n\
        - **Sector**: Tech\n- **Industry**: N/A\n- **Country**: India\n- **Employees**: 1234\n\n\
        ### Valuation\n- Market Cap: a\n- Trailing P/E: b\n- Forward P/E: c\n- PEG Ratio: g\n\
        - Price/Book: h\n- Dividend Yield: d\n- Beta: e\n\n\
        ### Profitability & Leverage\n- Profit Margin: f\n- Operating Margin: p\n\
        - Gross Margin: o\n- Return on Equity: m\n- Revenue Growth (YoY): q\n- Debt/Equity: l\n\
        - Current Ratio: n\n- Total Revenue: i\n- Total Debt: j\n- Total Cash: k\n\
        - Analyst Recommendation: buy\n";
    let tool = YahooFundamentalsTool::new();
    assert_eq!(tool.get_report::<Floats>("TST", Ok(result)).unwrap(), expected);
}

#[test]
fn report_on_missing_fundamentals() {
    let result = QuoteSummaryResult {
        summary_detail: None,
        default_key_statistics: None,
        financial_data: None,
        asset_profile: None,
    };
    let text = YahooFundamentalsTool::format_report::<Floats>("TST", &result);
    assert!(text.starts_with("## Fundamentals: TST\n\n### Valuation\n- Market Cap: N/A\n"));
    assert_eq!(text.matches("N/A").count(), 18);
}

fn crumb(code: u16, status: &str, body: Result<&str, &str>) -> CrumbReply {
    CrumbReply::Answered {
        code,
        status: status.to_string(),
        body: body.map(|s| s.to_string()).map_err(|e| e.to_string()),
    }
}

#[test]
fn fundamentals_urls_carry_the_crumb() {
    let tool = YahooFundamentalsTool::new();
    let mut fetch =
        tool.fetch_fundamentals("PETR4.SA", crumb(200, "200 OK", Ok(" a/b.c\n"))).unwrap();
    assert_eq!(
        fetch.next_request().unwrap(),
        "https://query1.finance.yahoo.com/v10/finance/quoteSummary/PETR4.SA?modules=summaryDetail,\
         defaultKeyStatistics,financialData,assetProfile&crumb=a%2Fb.c"
    );
    fetch.on_reply(HostReply::SendFailed("reset".to_string()));
    assert_eq!(
        fetch.next_request().unwrap(),
        "https://query2.finance.yahoo.com/v10/finance/quoteSummary/PETR4.SA?modules=summaryDetail,\
         defaultKeyStatistics,financialData,assetProfile&crumb=a%2Fb.c"
    );
}

#[test]
fn without_a_crumb_nobody_is_asked() {
    let tool = YahooFundamentalsTool::new();
    let message = |reply: CrumbReply| tool.fetch_fundamentals("X", reply).unwrap_err().message();
    assert_eq!(message(CrumbReply::SendFailed("reset".to_string())), "Network error: reset");
    assert_eq!(
        message(crumb(401, "401 Unauthorized", Ok("abc"))),
        "Failed to fetch data from Yahoo Finance: Failed to fetch Yahoo crumb token: HTTP 401 \
         Unauthorized"
    );
    assert_eq!(message(crumb(200, "200 OK", Err("cut off"))), "Network error: cut off");
    assert_eq!(
        message(crumb(200, "200 OK", Ok(" \n"))),
        "Failed to fetch data from Yahoo Finance: Yahoo returned an empty crumb token"
    );
}

#[test]
fn a_failed_symbol_leaves_the_others() {
    let tool = MultiSymbolTool::new("3mo", "1d");
    let symbols = vec!["A".to_string(), "B".to_string(), "C".to_string()];
    let fetched =
        vec![Ok(chart(&[100.0, 110.0], &[1, 2])), Err(FinanceError::RateLimited), Ok(chart(&[], &[]))];
    let series = tool.fetch_basket::<Floats>(&symbols, &fetched);
    assert_eq!(series.len(), 3);
    assert_eq!(series[0].symbol, "A");
    assert_eq!(series[0].candles.len(), 2);
    assert!(series[0].stats.is_some());
    assert_eq!(series[0].error, None);
    assert_eq!(series[1].symbol, "B");
    assert!(series[1].candles.is_empty());
    assert!(series[1].stats.is_none());
    assert_eq!(
        series[1].error,
        Some("Rate limited by Yahoo Finance, please wait".to_string())
    );
    assert!(series[2].stats.is_none());
    assert_eq!(series[2].error, None);

    let expected = "## Portfolio Snapshot (3 symbols, range=3mo, interval=1wk)\n\n\
        | Symbol | Currency | Latest Close | Period Return % | Ann. Volatility % | Max Drawdown % \
        |\n|---|---|---|---|---|---|\n\
        | A | USD | 110.00 | 10.00 | 0.00 | 0.00 |\n\
        | B | - | - | - | - | error: Rate limited by Yahoo Finance, please wait |\n\
        | C | - | - | - | - | no data |\n";
    assert_eq!(tool.get_report::<Floats>(&symbols, None, Some("1wk"), &series), expected);
}

#[test]
fn basket_lookups_ask_for_each_symbol() {
    let tool = MultiSymbolTool::new("3mo", "1d");
    let fetches = tool.fetches(&vec!["A".to_string(), "B".to_string()], Some("1y"), None);
    let urls: Vec<String> = fetches.iter().map(|f| f.next_request().unwrap()).collect();
    assert_eq!(
        urls,
        vec![
            "https://query1.finance.yahoo.com/v8/finance/chart/A?range=1y&interval=1d&includePrePost=false",
            "https://query1.finance.yahoo.com/v8/finance/chart/B?range=1y&interval=1d&includePrePost=false",
        ]
    );
}

#[test]
fn agent_lookups_label_their_failures() {
    let agent = ResearchAgent::new(Config::default());
    assert_eq!(
        agent.analyze_symbol::<Floats>("X", Err(FinanceError::ParseFailed("eof".to_string()))),
        Err("Yahoo Finance lookup failed: Failed to parse Yahoo Finance response: eof".to_string())
    );
    assert_eq!(
        agent.get_fundamentals::<Floats>("X", Err(FinanceError::RateLimited)),
        Err("Yahoo Finance fundamentals lookup failed: Rate limited by Yahoo Finance, please wait"
            .to_string())
    );
    assert_eq!(
        agent.get_fx_rate::<Floats>(
            "a",
            "b",
            Err(FinanceError::SymbolNotFound("AB=X".to_string()))
        ),
        Err("FX rate lookup failed: Symbol not found or no data returned for: AB=X".to_string())
    );
}

#[test]
fn agent_lookups_pass_reports_on() {
    let agent = ResearchAgent::new(Config::default());
    let result = || chart(&[1.0, 2.0], &[1, 1]);
    assert_eq!(
        agent.analyze_symbol::<Floats>("X", Ok(result())).unwrap(),
        agent.finance_tool.get_report::<Floats>("X", Ok(result())).unwrap()
    );
    assert_eq!(
        agent.get_fx_rate::<Floats>("usd", "inr", Ok(result())).unwrap(),
        agent.fx_tool.get_report::<Floats>("usd", "inr", Ok(result())).unwrap()
    );
    let symbols = vec!["X".to_string()];
    let fetched = vec![Ok(result())];
    let series = agent.multi_tool.fetch_basket::<Floats>(&symbols, &fetched);
    assert_eq!(
        agent.get_portfolio_snapshot::<Floats>(&symbols, &fetched).unwrap(),
        agent.multi_tool.get_report::<Floats>(&symbols, None, None, &series)
    );
}
