//! The `yahoo_fundamentals` tool: valuation, margins, leverage and sector of a
//! company.

use vstd::prelude::*;
use crate::finance::FIRST_HOST;
use crate::finance::SECOND_HOST;
use crate::finance::opt_fixed2_text;
use crate::number::Arithmetic;
use crate::number::Number;
use crate::outside::percent_encode;
use crate::text::signed_text;
use crate::text::text_or_missing;
use crate::text::trim_text;
use crate::transport::Endpoint;
use crate::transport::FinanceError;
use crate::transport::HostFetch;
use crate::transport::is_success;

verus! {

/// Visited first, for the cookies that the crumb is tied to.
pub const COOKIE_URL: &'static str = "https://fc.yahoo.com";

/// Where the crumb is to be had.
pub const CRUMB_URL: &'static str = "https://query2.finance.yahoo.com/v1/test/getcrumb";

/// A figure, as a number and as Yahoo Finance writes it.
#[derive(Debug, Clone)]
pub struct RawFmtNumber {
    pub raw: Option<Number>,
    pub fmt: Option<String>,
}

/// A figure in words: as Yahoo Finance writes it, else the number with two
/// digits behind the point, else `N/A`.
pub open spec fn shown<A: Arithmetic>(figure: Option<RawFmtNumber>) -> Seq<char> {
    match figure {
        Some(v) => match v.fmt {
            Some(text) => text@,
            None => crate::finance::opt_fixed2::<A>(v.raw),
        },
        None => "N/A"@,
    }
}

/// A figure that is shown without rendering a number: it is missing, or Yahoo
/// Finance wrote it out.
pub open spec fn written(figure: Option<RawFmtNumber>) -> bool {
    figure matches Some(v) ==> v.fmt is Some || v.raw is None
}

impl RawFmtNumber {
    /// A figure in words.
    pub fn display<A: Arithmetic>(figure: &Option<RawFmtNumber>) -> (r: String)
        ensures
            crate::number::repeatable::<A>() || written(*figure) ==> r@ == shown::<A>(*figure),
    {
        match figure {
            Some(v) => match &v.fmt {
                Some(text) => text.clone(),
                None => opt_fixed2_text::<A>(v.raw),
            },
            None => "N/A".to_owned(),
        }
    }
}

/// Valuation and trading figures.
#[derive(Debug)]
pub struct SummaryDetail {
    pub market_cap: Option<RawFmtNumber>,
    pub trailing_pe: Option<RawFmtNumber>,
    pub forward_pe: Option<RawFmtNumber>,
    pub dividend_yield: Option<RawFmtNumber>,
    pub beta: Option<RawFmtNumber>,
    pub average_volume: Option<RawFmtNumber>,
}

/// Key statistics.
#[derive(Debug)]
pub struct DefaultKeyStatistics {
    pub profit_margins: Option<RawFmtNumber>,
    pub peg_ratio: Option<RawFmtNumber>,
    pub price_to_book: Option<RawFmtNumber>,
    pub shares_outstanding: Option<RawFmtNumber>,
}

/// Figures from the accounts.
#[derive(Debug)]
pub struct FinancialData {
    pub total_revenue: Option<RawFmtNumber>,
    pub total_debt: Option<RawFmtNumber>,
    pub total_cash: Option<RawFmtNumber>,
    pub debt_to_equity: Option<RawFmtNumber>,
    pub return_on_equity: Option<RawFmtNumber>,
    pub current_ratio: Option<RawFmtNumber>,
    pub gross_margins: Option<RawFmtNumber>,
    pub operating_margins: Option<RawFmtNumber>,
    pub revenue_growth: Option<RawFmtNumber>,
    pub recommendation_key: Option<String>,
}

/// What the company does, and where.
#[derive(Debug)]
pub struct AssetProfile {
    pub sector: Option<String>,
    pub industry: Option<String>,
    pub country: Option<String>,
    pub full_time_employees: Option<i64>,
}

/// The fundamentals of a company, as far as Yahoo Finance has them.
#[derive(Debug)]
pub struct QuoteSummaryResult {
    pub summary_detail: Option<SummaryDetail>,
    pub default_key_statistics: Option<DefaultKeyStatistics>,
    pub financial_data: Option<FinancialData>,
    pub asset_profile: Option<AssetProfile>,
}

/// Input arguments of the tool.
#[derive(Debug)]
pub struct FundamentalsArgs {
    /// Ticker symbol, e.g. "AAPL", "RELIANCE.NS", "PETR4.SA".
    pub symbol: String,
}

/// The fundamentals tool.
#[derive(Debug, Clone, Default)]
pub struct YahooFundamentalsTool;

/// What came back when the crumb was asked for.
#[derive(Debug)]
pub enum CrumbReply {
    /// No answer arrived.
    SendFailed(String),
    /// An answer with a status code, the status in words, and the body as far
    /// as it could be read. Where the status is not a success the body is of no
    /// account.
    Answered { code: u16, status: String, body: Result<String, String> },
}

/// The crumb that a reply holds, without whitespace around it.
pub open spec fn crumb_verdict(reply: CrumbReply) -> Result<
    Seq<char>,
    crate::transport::FinanceErrorView,
> {
    match reply {
        CrumbReply::SendFailed(e) => Err(crate::transport::FinanceErrorView::NetworkError(e@)),
        CrumbReply::Answered { code, status, body } => if !crate::transport::success_code(code) {
            Err(
                crate::transport::FinanceErrorView::RequestFailed(
                    "Failed to fetch Yahoo crumb token: HTTP "@ + status@,
                ),
            )
        } else {
            match body {
                Err(e) => Err(crate::transport::FinanceErrorView::NetworkError(e@)),
                Ok(text) => if crate::text::trimmed(text@).len() == 0 {
                    Err(
                        crate::transport::FinanceErrorView::RequestFailed(
                            "Yahoo returned an empty crumb token"@,
                        ),
                    )
                } else {
                    Ok(crate::text::trimmed(text@))
                },
            }
        },
    }
}

/// The URL of a company's fundamentals on a host.
pub open spec fn fundamentals_url(
    host: Seq<char>,
    symbol: Seq<char>,
    crumb: Seq<char>,
) -> Seq<char> {
    "https://"@ + host + "/v10/finance/quoteSummary/"@ + crate::outside::percent_encoded(symbol)
        + "?modules=summaryDetail,defaultKeyStatistics,financialData,assetProfile&crumb="@
        + crate::outside::percent_encoded(crumb)
}

/// Where fundamentals are to be had: on the first host, then on the second.
pub open spec fn fundamentals_endpoints(symbol: Seq<char>, crumb: Seq<char>) -> Seq<
    crate::transport::EndpointView,
> {
    seq![
        crate::transport::EndpointView {
            host: FIRST_HOST@,
            url: fundamentals_url(FIRST_HOST@, symbol, crumb),
        },
        crate::transport::EndpointView {
            host: SECOND_HOST@,
            url: fundamentals_url(SECOND_HOST@, symbol, crumb),
        },
    ]
}

/// The profile in the report.
pub open spec fn profile_part(profile: AssetProfile) -> Seq<char> {
    "- **Sector**: "@ + crate::text::or_missing(crate::text::opt_text(profile.sector))
        + "\n- **Industry**: "@ + crate::text::or_missing(crate::text::opt_text(profile.industry))
        + "\n- **Country**: "@ + crate::text::or_missing(crate::text::opt_text(profile.country))
        + "\n- **Employees**: "@ + (match profile.full_time_employees {
        Some(n) => crate::text::signed_decimal(n as int),
        None => "N/A"@,
    }) + "\n\n"@
}

/// The details, each missing where there are none.
pub open spec fn detail_or_none(detail: Option<SummaryDetail>) -> SummaryDetail {
    match detail {
        Some(d) => d,
        None => SummaryDetail {
            market_cap: None,
            trailing_pe: None,
            forward_pe: None,
            dividend_yield: None,
            beta: None,
            average_volume: None,
        },
    }
}

/// The statistics, each missing where there are none.
pub open spec fn statistics_or_none(
    statistics: Option<DefaultKeyStatistics>,
) -> DefaultKeyStatistics {
    match statistics {
        Some(s) => s,
        None => DefaultKeyStatistics {
            profit_margins: None,
            peg_ratio: None,
            price_to_book: None,
            shares_outstanding: None,
        },
    }
}

/// The accounts, each figure missing where there are none.
pub open spec fn accounts_or_none(accounts: Option<FinancialData>) -> FinancialData {
    match accounts {
        Some(a) => a,
        None => FinancialData {
            total_revenue: None,
            total_debt: None,
            total_cash: None,
            debt_to_equity: None,
            return_on_equity: None,
            current_ratio: None,
            gross_margins: None,
            operating_margins: None,
            revenue_growth: None,
            recommendation_key: None,
        },
    }
}

/// The valuation in the report.
pub open spec fn valuation_part<A: Arithmetic>(
    d: SummaryDetail,
    s: DefaultKeyStatistics,
) -> Seq<char> {
    "### Valuation\n"@ + "- Market Cap: "@ + shown::<A>(d.market_cap) + "\n- Trailing P/E: "@
        + shown::<A>(d.trailing_pe) + "\n- Forward P/E: "@ + shown::<A>(d.forward_pe)
        + "\n- PEG Ratio: "@ + shown::<A>(s.peg_ratio) + "\n- Price/Book: "@ + shown::<A>(
        s.price_to_book,
    ) + "\n- Dividend Yield: "@ + shown::<A>(d.dividend_yield) + "\n- Beta: "@ + shown::<A>(d.beta)
        + "\n\n"@
}

/// Profitability and leverage in the report.
pub open spec fn leverage_part<A: Arithmetic>(s: DefaultKeyStatistics, f: FinancialData) -> Seq<
    char,
> {
    "### Profitability & Leverage\n"@ + "- Profit Margin: "@ + shown::<A>(s.profit_margins)
        + "\n- Operating Margin: "@ + shown::<A>(f.operating_margins) + "\n- Gross Margin: "@
        + shown::<A>(f.gross_margins) + "\n- Return on Equity: "@ + shown::<A>(f.return_on_equity)
        + "\n- Revenue Growth (YoY): "@ + shown::<A>(f.revenue_growth) + "\n- Debt/Equity: "@
        + shown::<A>(f.debt_to_equity) + "\n- Current Ratio: "@ + shown::<A>(f.current_ratio)
        + "\n- Total Revenue: "@ + shown::<A>(f.total_revenue) + "\n- Total Debt: "@ + shown::<A>(
        f.total_debt,
    ) + "\n- Total Cash: "@ + shown::<A>(f.total_cash) + "\n- Analyst Recommendation: "@
        + crate::text::or_missing(crate::text::opt_text(f.recommendation_key)) + "\n"@
}

/// All figures of the valuation are missing or written out.
pub open spec fn valuation_written(d: SummaryDetail, s: DefaultKeyStatistics) -> bool {
    &&& written(d.market_cap)
    &&& written(d.trailing_pe)
    &&& written(d.forward_pe)
    &&& written(s.peg_ratio)
    &&& written(s.price_to_book)
    &&& written(d.dividend_yield)
    &&& written(d.beta)
}

/// All figures of profitability and leverage are missing or written out.
pub open spec fn leverage_written(s: DefaultKeyStatistics, f: FinancialData) -> bool {
    &&& written(s.profit_margins)
    &&& written(f.operating_margins)
    &&& written(f.gross_margins)
    &&& written(f.return_on_equity)
    &&& written(f.revenue_growth)
    &&& written(f.debt_to_equity)
    &&& written(f.current_ratio)
    &&& written(f.total_revenue)
    &&& written(f.total_debt)
    &&& written(f.total_cash)
}

/// All figures of the report are missing or written out, so that no number has
/// to be rendered.
pub open spec fn all_written(result: QuoteSummaryResult) -> bool {
    let statistics = statistics_or_none(result.default_key_statistics);
    &&& valuation_written(detail_or_none(result.summary_detail), statistics)
    &&& leverage_written(statistics, accounts_or_none(result.financial_data))
}

/// The markdown report on a company's fundamentals.
pub open spec fn fundamentals_report<A: Arithmetic>(
    symbol: Seq<char>,
    result: QuoteSummaryResult,
) -> Seq<char> {
    let detail = detail_or_none(result.summary_detail);
    let statistics = statistics_or_none(result.default_key_statistics);
    let accounts = accounts_or_none(result.financial_data);
    "## Fundamentals: "@ + symbol + "\n\n"@ + (match result.asset_profile {
        Some(profile) => profile_part(profile),
        None => Seq::empty(),
    }) + valuation_part::<A>(detail, statistics) + leverage_part::<A>(statistics, accounts)
}

/// The crumb that a reply holds, without whitespace around it.
pub fn read_crumb(reply: CrumbReply) -> (r: Result<String, FinanceError>)
    ensures
        match crumb_verdict(reply) {
            Ok(crumb) => r is Ok && r->Ok_0@ == crumb,
            Err(e) => r is Err && r->Err_0@ == e,
        },
{
    match reply {
        CrumbReply::SendFailed(e) => Err(FinanceError::NetworkError(e)),
        CrumbReply::Answered { code, status, body } => {
            if !is_success(code) {
                let text = "Failed to fetch Yahoo crumb token: HTTP ".to_owned().concat(
                    status.as_str(),
                );
                return Err(FinanceError::RequestFailed(text));
            }
            match body {
                Err(e) => Err(FinanceError::NetworkError(e)),
                Ok(text) => {
                    let crumb = trim_text(text.as_str());
                    if crumb.as_str().is_empty() {
                        return Err(
                            FinanceError::RequestFailed(
                                "Yahoo returned an empty crumb token".to_owned(),
                            ),
                        );
                    }
                    Ok(crumb)
                },
            }
        },
    }
}

fn fundamentals_endpoint(host: &str, symbol: &str, crumb: &str) -> (r: Endpoint)
    ensures
        r@ == (crate::transport::EndpointView {
            host: host@,
            url: fundamentals_url(host@, symbol@, crumb@),
        }),
{
    let mut url = "https://".to_owned();
    url.append(host);
    url.append("/v10/finance/quoteSummary/");
    url.append(percent_encode(symbol).as_str());
    url.append("?modules=summaryDetail,defaultKeyStatistics,financialData,assetProfile&crumb=");
    url.append(percent_encode(crumb).as_str());
    Endpoint { host: host.to_owned(), url }
}

fn profile_text(profile: &AssetProfile) -> (r: String)
    ensures
        r@ == profile_part(*profile),
{
    let employees = match profile.full_time_employees {
        Some(n) => signed_text(n),
        None => "N/A".to_owned(),
    };
    let mut out = "- **Sector**: ".to_owned();
    out.append(text_or_missing(&profile.sector).as_str());
    out.append("\n- **Industry**: ");
    out.append(text_or_missing(&profile.industry).as_str());
    out.append("\n- **Country**: ");
    out.append(text_or_missing(&profile.country).as_str());
    out.append("\n- **Employees**: ");
    out.append(employees.as_str());
    out.append("\n\n");
    out
}

fn valuation_text<A: Arithmetic>(d: &SummaryDetail, s: &DefaultKeyStatistics) -> (r: String)
    ensures
        crate::number::repeatable::<A>() || valuation_written(*d, *s) ==> r@ == valuation_part::<A>(
            *d,
            *s,
        ),
{
    let mut out = "### Valuation\n".to_owned();
    out.append("- Market Cap: ");
    out.append(RawFmtNumber::display::<A>(&d.market_cap).as_str());
    out.append("\n- Trailing P/E: ");
    out.append(RawFmtNumber::display::<A>(&d.trailing_pe).as_str());
    out.append("\n- Forward P/E: ");
    out.append(RawFmtNumber::display::<A>(&d.forward_pe).as_str());
    out.append("\n- PEG Ratio: ");
    out.append(RawFmtNumber::display::<A>(&s.peg_ratio).as_str());
    out.append("\n- Price/Book: ");
    out.append(RawFmtNumber::display::<A>(&s.price_to_book).as_str());
    out.append("\n- Dividend Yield: ");
    out.append(RawFmtNumber::display::<A>(&d.dividend_yield).as_str());
    out.append("\n- Beta: ");
    out.append(RawFmtNumber::display::<A>(&d.beta).as_str());
    out.append("\n\n");
    out
}

fn leverage_text<A: Arithmetic>(s: &DefaultKeyStatistics, f: &FinancialData) -> (r: String)
    ensures
        crate::number::repeatable::<A>() || leverage_written(*s, *f) ==> r@ == leverage_part::<A>(
            *s,
            *f,
        ),
{
    let mut out = "### Profitability & Leverage\n".to_owned();
    out.append("- Profit Margin: ");
    out.append(RawFmtNumber::display::<A>(&s.profit_margins).as_str());
    out.append("\n- Operating Margin: ");
    out.append(RawFmtNumber::display::<A>(&f.operating_margins).as_str());
    out.append("\n- Gross Margin: ");
    out.append(RawFmtNumber::display::<A>(&f.gross_margins).as_str());
    out.append("\n- Return on Equity: ");
    out.append(RawFmtNumber::display::<A>(&f.return_on_equity).as_str());
    out.append("\n- Revenue Growth (YoY): ");
    out.append(RawFmtNumber::display::<A>(&f.revenue_growth).as_str());
    out.append("\n- Debt/Equity: ");
    out.append(RawFmtNumber::display::<A>(&f.debt_to_equity).as_str());
    out.append("\n- Current Ratio: ");
    out.append(RawFmtNumber::display::<A>(&f.current_ratio).as_str());
    out.append("\n- Total Revenue: ");
    out.append(RawFmtNumber::display::<A>(&f.total_revenue).as_str());
    out.append("\n- Total Debt: ");
    out.append(RawFmtNumber::display::<A>(&f.total_debt).as_str());
    out.append("\n- Total Cash: ");
    out.append(RawFmtNumber::display::<A>(&f.total_cash).as_str());
    out.append("\n- Analyst Recommendation: ");
    out.append(text_or_missing(&f.recommendation_key).as_str());
    out.append("\n");
    out
}

impl YahooFundamentalsTool {
    /// The tool.
    pub fn new() -> (r: YahooFundamentalsTool)
        ensures
            r == YahooFundamentalsTool,
    {
        YahooFundamentalsTool
    }

    /// Begins the lookup of fundamentals with the crumb that was replied: the
    /// first host is asked, and the second where the first one does not deliver.
    pub fn fetch_fundamentals(&self, symbol: &str, reply: CrumbReply) -> (r: Result<
        HostFetch<QuoteSummaryResult>,
        FinanceError,
    >)
        ensures
            match crumb_verdict(reply) {
                Ok(crumb) => r is Ok && r->Ok_0@ == crate::transport::fresh_fetch::<
                    QuoteSummaryResult,
                >(symbol@, fundamentals_endpoints(symbol@, crumb)),
                Err(e) => r is Err && r->Err_0@ == e,
            },
    {
        match read_crumb(reply) {
            Ok(crumb) => {
                let mut endpoints: Vec<Endpoint> = Vec::new();
                endpoints.push(fundamentals_endpoint(FIRST_HOST, symbol, crumb.as_str()));
                endpoints.push(fundamentals_endpoint(SECOND_HOST, symbol, crumb.as_str()));
                assert(endpoints@.map_values(|e: Endpoint| e@) =~= fundamentals_endpoints(
                    symbol@,
                    crumb@,
                ));
                Ok(HostFetch::start(symbol, endpoints))
            },
            Err(e) => Err(e),
        }
    }

    /// Renders fundamentals as a markdown report.
    pub fn format_report<A: Arithmetic>(symbol: &str, result: &QuoteSummaryResult) -> (r: String)
        ensures
            crate::number::repeatable::<A>() || all_written(*result) ==> r@
                == fundamentals_report::<A>(symbol@, *result),
    {
        let no_detail = SummaryDetail {
            market_cap: None,
            trailing_pe: None,
            forward_pe: None,
            dividend_yield: None,
            beta: None,
            average_volume: None,
        };
        let no_statistics = DefaultKeyStatistics {
            profit_margins: None,
            peg_ratio: None,
            price_to_book: None,
            shares_outstanding: None,
        };
        let no_accounts = FinancialData {
            total_revenue: None,
            total_debt: None,
            total_cash: None,
            debt_to_equity: None,
            return_on_equity: None,
            current_ratio: None,
            gross_margins: None,
            operating_margins: None,
            revenue_growth: None,
            recommendation_key: None,
        };
        let detail = match &result.summary_detail {
            Some(d) => d,
            None => &no_detail,
        };
        let statistics = match &result.default_key_statistics {
            Some(s) => s,
            None => &no_statistics,
        };
        let accounts = match &result.financial_data {
            Some(f) => f,
            None => &no_accounts,
        };
        let mut out = "## Fundamentals: ".to_owned();
        out.append(symbol);
        out.append("\n\n");
        let ghost head = out@;
        if let Some(profile) = &result.asset_profile {
            out.append(profile_text(profile).as_str());
        } else {
            assert(head + Seq::<char>::empty() =~= head);
        }
        out.append(valuation_text::<A>(detail, statistics).as_str());
        out.append(leverage_text::<A>(statistics, accounts).as_str());
        out
    }

    /// The report on what the lookup of `symbol` came to.
    pub fn get_report<A: Arithmetic>(
        &self,
        symbol: &str,
        fetched: Result<QuoteSummaryResult, FinanceError>,
    ) -> (r: Result<String, FinanceError>)
        ensures
            r is Ok <==> fetched is Ok,
            fetched matches Err(e) ==> r == Err::<String, FinanceError>(e),
            fetched matches Ok(result) ==> (crate::number::repeatable::<A>() || all_written(result)
                ==> r->Ok_0@ == fundamentals_report::<A>(symbol@, result)),
    {
        match fetched {
            Ok(result) => Ok(Self::format_report::<A>(symbol, &result)),
            Err(e) => Err(e),
        }
    }
}

} // verus!
