//! Fundamentals, risk summaries and search listings: which value stands behind
//! which label, and what is listed.

use vstd::prelude::*;
use crate::number::Arithmetic;
use crate::number::Number;

verus! {

/// A figure of a section, `N/A` where it or the section is missing.
pub open spec fn figure<A: Arithmetic>(
    section: bool,
    figure: Option<crate::fundamentals::RawFmtNumber>,
) -> Seq<char> {
    if section {
        crate::laws::reports::figure_or_na::<A>(figure)
    } else {
        "N/A"@
    }
}

/// What analysts recommend, or `N/A`.
pub open spec fn recommendation(result: crate::fundamentals::QuoteSummaryResult) -> Seq<char> {
    if result.financial_data is Some {
        crate::laws::reports::string_or_na(result.financial_data->0.recommendation_key)
    } else {
        "N/A"@
    }
}

/// How many people a company employs, or `N/A`.
pub open spec fn employees(profile: crate::fundamentals::AssetProfile) -> Seq<char> {
    if profile.full_time_employees is Some {
        crate::text::signed_decimal(profile.full_time_employees->0 as int)
    } else {
        "N/A"@
    }
}

/// A report on fundamentals shows each figure of the valuation behind the label
/// of its own, `N/A` where it or its section is missing.
#[verifier::rlimit(60)]
pub proof fn law_fundamentals_show_the_valuation<A: Arithmetic>(
    symbol: Seq<char>,
    result: crate::fundamentals::QuoteSummaryResult,
)
    ensures
        ({
            let text = crate::fundamentals::fundamentals_report::<A>(symbol, result);
            &&& crate::laws::texts::shows(text, "## Fundamentals: "@, symbol, "\n\n"@)
            &&& crate::laws::texts::shows(
                text,
                "- Market Cap: "@,
                figure::<A>(result.summary_detail is Some, result.summary_detail->0.market_cap),
                "\n- Trailing P/E: "@,
            )
            &&& crate::laws::texts::shows(
                text,
                "\n- Trailing P/E: "@,
                figure::<A>(result.summary_detail is Some, result.summary_detail->0.trailing_pe),
                "\n- Forward P/E: "@,
            )
            &&& crate::laws::texts::shows(
                text,
                "\n- Forward P/E: "@,
                figure::<A>(result.summary_detail is Some, result.summary_detail->0.forward_pe),
                "\n- PEG Ratio: "@,
            )
            &&& crate::laws::texts::shows(
                text,
                "\n- PEG Ratio: "@,
                figure::<A>(result.default_key_statistics is Some, result.default_key_statistics->0.peg_ratio),
                "\n- Price/Book: "@,
            )
            &&& crate::laws::texts::shows(
                text,
                "\n- Price/Book: "@,
                figure::<A>(result.default_key_statistics is Some, result.default_key_statistics->0.price_to_book),
                "\n- Dividend Yield: "@,
            )
            &&& crate::laws::texts::shows(
                text,
                "\n- Dividend Yield: "@,
                figure::<A>(result.summary_detail is Some, result.summary_detail->0.dividend_yield),
                "\n- Beta: "@,
            )
            &&& crate::laws::texts::shows(
                text,
                "\n- Beta: "@,
                figure::<A>(result.summary_detail is Some, result.summary_detail->0.beta),
                "\n\n"@,
            )
        }),
{
    broadcast use {
        crate::laws::texts::lemma_shows_first,
        crate::laws::texts::lemma_shows_here,
        crate::laws::texts::lemma_shows_more,
    };

    let d = crate::fundamentals::detail_or_none(result.summary_detail);
    let s = crate::fundamentals::statistics_or_none(result.default_key_statistics);
    let f = crate::fundamentals::accounts_or_none(result.financial_data);
    let front = "## Fundamentals: "@ + symbol + "\n\n"@ + (match result.asset_profile {
        Some(profile) => crate::fundamentals::profile_part(profile),
        None => Seq::empty(),
    });
    let part = crate::fundamentals::valuation_part::<A>(d, s);
    assert(crate::fundamentals::fundamentals_report::<A>(symbol, result) == front + part
        + crate::fundamentals::leverage_part::<A>(s, f));
    assert(crate::laws::texts::shows(
        part,
        "- Market Cap: "@,
        figure::<A>(result.summary_detail is Some, result.summary_detail->0.market_cap),
        "\n- Trailing P/E: "@,
    ));
    crate::laws::texts::lemma_shows_behind(
        front,
        part,
        "- Market Cap: "@,
        figure::<A>(result.summary_detail is Some, result.summary_detail->0.market_cap),
        "\n- Trailing P/E: "@,
    );
    assert(crate::laws::texts::shows(
        part,
        "\n- Trailing P/E: "@,
        figure::<A>(result.summary_detail is Some, result.summary_detail->0.trailing_pe),
        "\n- Forward P/E: "@,
    ));
    crate::laws::texts::lemma_shows_behind(
        front,
        part,
        "\n- Trailing P/E: "@,
        figure::<A>(result.summary_detail is Some, result.summary_detail->0.trailing_pe),
        "\n- Forward P/E: "@,
    );
    assert(crate::laws::texts::shows(
        part,
        "\n- Forward P/E: "@,
        figure::<A>(result.summary_detail is Some, result.summary_detail->0.forward_pe),
        "\n- PEG Ratio: "@,
    ));
    crate::laws::texts::lemma_shows_behind(
        front,
        part,
        "\n- Forward P/E: "@,
        figure::<A>(result.summary_detail is Some, result.summary_detail->0.forward_pe),
        "\n- PEG Ratio: "@,
    );
    assert(crate::laws::texts::shows(
        part,
        "\n- PEG Ratio: "@,
        figure::<A>(result.default_key_statistics is Some, result.default_key_statistics->0.peg_ratio),
        "\n- Price/Book: "@,
    ));
    crate::laws::texts::lemma_shows_behind(
        front,
        part,
        "\n- PEG Ratio: "@,
        figure::<A>(result.default_key_statistics is Some, result.default_key_statistics->0.peg_ratio),
        "\n- Price/Book: "@,
    );
    assert(crate::laws::texts::shows(
        part,
        "\n- Price/Book: "@,
        figure::<A>(result.default_key_statistics is Some, result.default_key_statistics->0.price_to_book),
        "\n- Dividend Yield: "@,
    ));
    crate::laws::texts::lemma_shows_behind(
        front,
        part,
        "\n- Price/Book: "@,
        figure::<A>(result.default_key_statistics is Some, result.default_key_statistics->0.price_to_book),
        "\n- Dividend Yield: "@,
    );
    assert(crate::laws::texts::shows(
        part,
        "\n- Dividend Yield: "@,
        figure::<A>(result.summary_detail is Some, result.summary_detail->0.dividend_yield),
        "\n- Beta: "@,
    ));
    crate::laws::texts::lemma_shows_behind(
        front,
        part,
        "\n- Dividend Yield: "@,
        figure::<A>(result.summary_detail is Some, result.summary_detail->0.dividend_yield),
        "\n- Beta: "@,
    );
    assert(crate::laws::texts::shows(
        part,
        "\n- Beta: "@,
        figure::<A>(result.summary_detail is Some, result.summary_detail->0.beta),
        "\n\n"@,
    ));
    crate::laws::texts::lemma_shows_behind(
        front,
        part,
        "\n- Beta: "@,
        figure::<A>(result.summary_detail is Some, result.summary_detail->0.beta),
        "\n\n"@,
    );
}

/// A report on fundamentals shows each figure of profitability and leverage
/// behind the label of its own, `N/A` where it or its section is missing.
#[verifier::rlimit(60)]
pub proof fn law_fundamentals_show_profitability_and_leverage<A: Arithmetic>(
    symbol: Seq<char>,
    result: crate::fundamentals::QuoteSummaryResult,
)
    ensures
        ({
            let text = crate::fundamentals::fundamentals_report::<A>(symbol, result);
            &&& crate::laws::texts::shows(
                text,
                "- Profit Margin: "@,
                figure::<A>(result.default_key_statistics is Some, result.default_key_statistics->0.profit_margins),
                "\n- Operating Margin: "@,
            )
            &&& crate::laws::texts::shows(
                text,
                "\n- Operating Margin: "@,
                figure::<A>(result.financial_data is Some, result.financial_data->0.operating_margins),
                "\n- Gross Margin: "@,
            )
            &&& crate::laws::texts::shows(
                text,
                "\n- Gross Margin: "@,
                figure::<A>(result.financial_data is Some, result.financial_data->0.gross_margins),
                "\n- Return on Equity: "@,
            )
            &&& crate::laws::texts::shows(
                text,
                "\n- Return on Equity: "@,
                figure::<A>(result.financial_data is Some, result.financial_data->0.return_on_equity),
                "\n- Revenue Growth (YoY): "@,
            )
            &&& crate::laws::texts::shows(
                text,
                "\n- Revenue Growth (YoY): "@,
                figure::<A>(result.financial_data is Some, result.financial_data->0.revenue_growth),
                "\n- Debt/Equity: "@,
            )
            &&& crate::laws::texts::shows(
                text,
                "\n- Debt/Equity: "@,
                figure::<A>(result.financial_data is Some, result.financial_data->0.debt_to_equity),
                "\n- Current Ratio: "@,
            )
            &&& crate::laws::texts::shows(
                text,
                "\n- Current Ratio: "@,
                figure::<A>(result.financial_data is Some, result.financial_data->0.current_ratio),
                "\n- Total Revenue: "@,
            )
            &&& crate::laws::texts::shows(
                text,
                "\n- Total Revenue: "@,
                figure::<A>(result.financial_data is Some, result.financial_data->0.total_revenue),
                "\n- Total Debt: "@,
            )
            &&& crate::laws::texts::shows(
                text,
                "\n- Total Debt: "@,
                figure::<A>(result.financial_data is Some, result.financial_data->0.total_debt),
                "\n- Total Cash: "@,
            )
            &&& crate::laws::texts::shows(
                text,
                "\n- Total Cash: "@,
                figure::<A>(result.financial_data is Some, result.financial_data->0.total_cash),
                "\n- Analyst Recommendation: "@,
            )
            &&& crate::laws::texts::shows(
                text,
                "\n- Analyst Recommendation: "@,
                recommendation(result),
                "\n"@,
            )
        }),
{
    broadcast use {
        crate::laws::texts::lemma_shows_first,
        crate::laws::texts::lemma_shows_here,
        crate::laws::texts::lemma_shows_more,
    };

    let d = crate::fundamentals::detail_or_none(result.summary_detail);
    let s = crate::fundamentals::statistics_or_none(result.default_key_statistics);
    let f = crate::fundamentals::accounts_or_none(result.financial_data);
    let front = "## Fundamentals: "@ + symbol + "\n\n"@ + (match result.asset_profile {
        Some(profile) => crate::fundamentals::profile_part(profile),
        None => Seq::empty(),
    }) + crate::fundamentals::valuation_part::<A>(d, s);
    let part = crate::fundamentals::leverage_part::<A>(s, f);
    assert(crate::fundamentals::fundamentals_report::<A>(symbol, result) == front + part);
    assert(crate::laws::texts::shows(
        part,
        "- Profit Margin: "@,
        figure::<A>(result.default_key_statistics is Some, result.default_key_statistics->0.profit_margins),
        "\n- Operating Margin: "@,
    ));
    crate::laws::texts::lemma_shows_behind(
        front,
        part,
        "- Profit Margin: "@,
        figure::<A>(result.default_key_statistics is Some, result.default_key_statistics->0.profit_margins),
        "\n- Operating Margin: "@,
    );
    assert(crate::laws::texts::shows(
        part,
        "\n- Operating Margin: "@,
        figure::<A>(result.financial_data is Some, result.financial_data->0.operating_margins),
        "\n- Gross Margin: "@,
    ));
    crate::laws::texts::lemma_shows_behind(
        front,
        part,
        "\n- Operating Margin: "@,
        figure::<A>(result.financial_data is Some, result.financial_data->0.operating_margins),
        "\n- Gross Margin: "@,
    );
    assert(crate::laws::texts::shows(
        part,
        "\n- Gross Margin: "@,
        figure::<A>(result.financial_data is Some, result.financial_data->0.gross_margins),
        "\n- Return on Equity: "@,
    ));
    crate::laws::texts::lemma_shows_behind(
        front,
        part,
        "\n- Gross Margin: "@,
        figure::<A>(result.financial_data is Some, result.financial_data->0.gross_margins),
        "\n- Return on Equity: "@,
    );
    assert(crate::laws::texts::shows(
        part,
        "\n- Return on Equity: "@,
        figure::<A>(result.financial_data is Some, result.financial_data->0.return_on_equity),
        "\n- Revenue Growth (YoY): "@,
    ));
    crate::laws::texts::lemma_shows_behind(
        front,
        part,
        "\n- Return on Equity: "@,
        figure::<A>(result.financial_data is Some, result.financial_data->0.return_on_equity),
        "\n- Revenue Growth (YoY): "@,
    );
    assert(crate::laws::texts::shows(
        part,
        "\n- Revenue Growth (YoY): "@,
        figure::<A>(result.financial_data is Some, result.financial_data->0.revenue_growth),
        "\n- Debt/Equity: "@,
    ));
    crate::laws::texts::lemma_shows_behind(
        front,
        part,
        "\n- Revenue Growth (YoY): "@,
        figure::<A>(result.financial_data is Some, result.financial_data->0.revenue_growth),
        "\n- Debt/Equity: "@,
    );
    assert(crate::laws::texts::shows(
        part,
        "\n- Debt/Equity: "@,
        figure::<A>(result.financial_data is Some, result.financial_data->0.debt_to_equity),
        "\n- Current Ratio: "@,
    ));
    crate::laws::texts::lemma_shows_behind(
        front,
        part,
        "\n- Debt/Equity: "@,
        figure::<A>(result.financial_data is Some, result.financial_data->0.debt_to_equity),
        "\n- Current Ratio: "@,
    );
    assert(crate::laws::texts::shows(
        part,
        "\n- Current Ratio: "@,
        figure::<A>(result.financial_data is Some, result.financial_data->0.current_ratio),
        "\n- Total Revenue: "@,
    ));
    crate::laws::texts::lemma_shows_behind(
        front,
        part,
        "\n- Current Ratio: "@,
        figure::<A>(result.financial_data is Some, result.financial_data->0.current_ratio),
        "\n- Total Revenue: "@,
    );
    assert(crate::laws::texts::shows(
        part,
        "\n- Total Revenue: "@,
        figure::<A>(result.financial_data is Some, result.financial_data->0.total_revenue),
        "\n- Total Debt: "@,
    ));
    crate::laws::texts::lemma_shows_behind(
        front,
        part,
        "\n- Total Revenue: "@,
        figure::<A>(result.financial_data is Some, result.financial_data->0.total_revenue),
        "\n- Total Debt: "@,
    );
    assert(crate::laws::texts::shows(
        part,
        "\n- Total Debt: "@,
        figure::<A>(result.financial_data is Some, result.financial_data->0.total_debt),
        "\n- Total Cash: "@,
    ));
    crate::laws::texts::lemma_shows_behind(
        front,
        part,
        "\n- Total Debt: "@,
        figure::<A>(result.financial_data is Some, result.financial_data->0.total_debt),
        "\n- Total Cash: "@,
    );
    assert(crate::laws::texts::shows(
        part,
        "\n- Total Cash: "@,
        figure::<A>(result.financial_data is Some, result.financial_data->0.total_cash),
        "\n- Analyst Recommendation: "@,
    ));
    crate::laws::texts::lemma_shows_behind(
        front,
        part,
        "\n- Total Cash: "@,
        figure::<A>(result.financial_data is Some, result.financial_data->0.total_cash),
        "\n- Analyst Recommendation: "@,
    );
    assert(crate::laws::texts::shows(
        part,
        "\n- Analyst Recommendation: "@,
        recommendation(result),
        "\n"@,
    ));
    crate::laws::texts::lemma_shows_behind(
        front,
        part,
        "\n- Analyst Recommendation: "@,
        recommendation(result),
        "\n"@,
    );
}

/// A report on fundamentals shows the profile of the company, where there is one.
#[verifier::rlimit(60)]
pub proof fn law_fundamentals_show_the_profile<A: Arithmetic>(
    symbol: Seq<char>,
    result: crate::fundamentals::QuoteSummaryResult,
    profile: crate::fundamentals::AssetProfile,
)
    requires
        result.asset_profile == Some(profile),
    ensures
        ({
            let text = crate::fundamentals::fundamentals_report::<A>(symbol, result);
            &&& crate::laws::texts::shows(
                text,
                "- **Sector**: "@,
                crate::laws::reports::string_or_na(profile.sector),
                "\n- **Industry**: "@,
            )
            &&& crate::laws::texts::shows(
                text,
                "\n- **Industry**: "@,
                crate::laws::reports::string_or_na(profile.industry),
                "\n- **Country**: "@,
            )
            &&& crate::laws::texts::shows(
                text,
                "\n- **Country**: "@,
                crate::laws::reports::string_or_na(profile.country),
                "\n- **Employees**: "@,
            )
            &&& crate::laws::texts::shows(
                text,
                "\n- **Employees**: "@,
                employees(profile),
                "\n\n"@,
            )
        }),
{
    broadcast use {
        crate::laws::texts::lemma_shows_first,
        crate::laws::texts::lemma_shows_here,
        crate::laws::texts::lemma_shows_more,
    };

    let d = crate::fundamentals::detail_or_none(result.summary_detail);
    let s = crate::fundamentals::statistics_or_none(result.default_key_statistics);
    let f = crate::fundamentals::accounts_or_none(result.financial_data);
    let front = "## Fundamentals: "@ + symbol + "\n\n"@;
    let part = crate::fundamentals::profile_part(profile);
    assert(crate::fundamentals::fundamentals_report::<A>(symbol, result) == front + part
        + crate::fundamentals::valuation_part::<A>(d, s) + crate::fundamentals::leverage_part::<A>(
        s,
        f,
    ));
    assert(crate::laws::texts::shows(
        part,
        "- **Sector**: "@,
        crate::laws::reports::string_or_na(profile.sector),
        "\n- **Industry**: "@,
    ));
    crate::laws::texts::lemma_shows_behind(
        front,
        part,
        "- **Sector**: "@,
        crate::laws::reports::string_or_na(profile.sector),
        "\n- **Industry**: "@,
    );
    assert(crate::laws::texts::shows(
        part,
        "\n- **Industry**: "@,
        crate::laws::reports::string_or_na(profile.industry),
        "\n- **Country**: "@,
    ));
    crate::laws::texts::lemma_shows_behind(
        front,
        part,
        "\n- **Industry**: "@,
        crate::laws::reports::string_or_na(profile.industry),
        "\n- **Country**: "@,
    );
    assert(crate::laws::texts::shows(
        part,
        "\n- **Country**: "@,
        crate::laws::reports::string_or_na(profile.country),
        "\n- **Employees**: "@,
    ));
    crate::laws::texts::lemma_shows_behind(
        front,
        part,
        "\n- **Country**: "@,
        crate::laws::reports::string_or_na(profile.country),
        "\n- **Employees**: "@,
    );
    assert(crate::laws::texts::shows(part, "\n- **Employees**: "@, employees(profile), "\n\n"@));
    crate::laws::texts::lemma_shows_behind(
        front,
        part,
        "\n- **Employees**: "@,
        employees(profile),
        "\n\n"@,
    );
}

/// A summary shows each of its figures behind the label of its own, and heads
/// the matrix with the symbols.
#[verifier::rlimit(60)]
pub proof fn law_summary_shows_its_figures<A: Arithmetic>(
    summary: crate::portfolio_analytics::SummaryView,
)
    ensures
        ({
            let text = summary.markdown::<A>();
            &&& crate::laws::texts::shows(
                text,
                "**Symbols** ("@,
                crate::text::decimal(summary.aligned_observations),
                " aligned trading days): "@,
            )
            &&& crate::laws::texts::shows(
                text,
                " aligned trading days): "@,
                crate::text::joined(summary.symbols, ", "@),
                "\n\n"@,
            )
            &&& crate::laws::texts::shows(
                text,
                "- Equal-weighted portfolio annualized volatility: "@,
                crate::number::fixed2::<A>(summary.equal_weighted_volatility_pct),
                "%\n- Weighted avg. of individual volatilities (no diversification): "@,
            )
            &&& crate::laws::texts::shows(
                text,
                "%\n- Weighted avg. of individual volatilities (no diversification): "@,
                crate::number::fixed2::<A>(summary.weighted_avg_individual_volatility_pct),
                "%\n- Diversification ratio: "@,
            )
            &&& crate::laws::texts::shows(
                text,
                "%\n- Diversification ratio: "@,
                crate::number::fixed2::<A>(summary.diversification_ratio),
                " (>1 means diversification is reducing risk)\n- Average pairwise correlation: "@,
            )
            &&& crate::laws::texts::shows(
                text,
                " (>1 means diversification is reducing risk)\n- Average pairwise correlation: "@,
                crate::number::fixed2::<A>(summary.avg_pairwise_correlation),
                "\n\n"@,
            )
            &&& crate::laws::texts::shows(
                text,
                "| | "@,
                crate::text::joined(summary.symbols, " | "@),
                " |\n"@,
            )
            &&& crate::laws::texts::shows(
                text,
                "|---|"@,
                crate::text::repeated("---|"@, summary.symbols.len()),
                "\n"@,
            )
        }),
{
    broadcast use {
        crate::laws::texts::lemma_shows_first,
        crate::laws::texts::lemma_shows_here,
        crate::laws::texts::lemma_shows_more,
    };

}

/// The row of a symbol in a summary: the symbol, then each of its correlations
/// in order.
pub open spec fn correlation_row<A: Arithmetic>(symbol: Seq<char>, row: Seq<Number>) -> Seq<char> {
    "| "@ + symbol + " | "@ + crate::text::joined(
        Seq::new(row.len(), |j: int| crate::number::fixed2::<A>(row[j])),
        " | "@,
    ) + " |\n"@
}

proof fn lemma_matrix_rows<A: Arithmetic>(
    symbols: Seq<Seq<char>>,
    matrix: Seq<Seq<Number>>,
    n: int,
)
    requires
        0 <= n,
    ensures
        crate::portfolio_analytics::matrix_rows::<A>(symbols, matrix, n)
            == crate::laws::reports::stacked(
            Seq::new(n as nat, |i: int| correlation_row::<A>(symbols[i], matrix[i])),
        ),
    decreases n,
{
    let rows = Seq::new(n as nat, |i: int| correlation_row::<A>(symbols[i], matrix[i]));
    if n > 0 {
        lemma_matrix_rows::<A>(symbols, matrix, n - 1);
        let before = Seq::new(
            (n - 1) as nat,
            |i: int| correlation_row::<A>(symbols[i], matrix[i]),
        );
        let row = matrix[n - 1];
        assert(crate::portfolio_analytics::fixed2_list::<A>(row) =~= Seq::new(
            row.len(),
            |j: int| crate::number::fixed2::<A>(row[j]),
        ));
        let last = correlation_row::<A>(symbols[n - 1], row);
        assert(rows =~= before.push(last));
        assert(rows.drop_last() =~= before);
    }
}

/// A summary ends with the matrix, one row for each symbol and in each row one
/// cell for each correlation, and with the symbols that were left out where
/// there are any.
pub proof fn law_summary_ends_with_the_matrix<A: Arithmetic>(
    summary: crate::portfolio_analytics::SummaryView,
)
    ensures
        summary.excluded_symbols.len() == 0 ==> crate::laws::texts::ends_with(
            summary.markdown::<A>(),
            crate::laws::reports::stacked(
                Seq::new(
                    summary.symbols.len(),
                    |i: int|
                        correlation_row::<A>(summary.symbols[i], summary.correlation_matrix[i]),
                ),
            ),
        ),
        summary.excluded_symbols.len() > 0 ==> crate::laws::texts::ends_with(
            summary.markdown::<A>(),
            crate::laws::reports::stacked(
                Seq::new(
                    summary.symbols.len(),
                    |i: int|
                        correlation_row::<A>(summary.symbols[i], summary.correlation_matrix[i]),
                ),
            ) + "\n_Excluded from correlation analysis (insufficient/errored data): "@
                + crate::text::joined(summary.excluded_symbols, ", "@) + "_\n"@,
        ),
{
    lemma_matrix_rows::<A>(
        summary.symbols,
        summary.correlation_matrix,
        summary.symbols.len() as int,
    );
    let head = summary.markdown_head::<A>();
    let rows = crate::laws::reports::stacked(
        Seq::new(
            summary.symbols.len(),
            |i: int| correlation_row::<A>(summary.symbols[i], summary.correlation_matrix[i]),
        ),
    );
    assert(summary.markdown::<A>() == head + rows + summary.markdown_tail());
    if summary.excluded_symbols.len() == 0 {
        assert(summary.markdown::<A>() =~= head + rows);
    } else {
        assert(summary.markdown::<A>() =~= head + (rows
            + "\n_Excluded from correlation analysis (insufficient/errored data): "@
            + crate::text::joined(summary.excluded_symbols, ", "@) + "_\n"@));
    }
}

/// The risk figures in words are those of the summary, and a fixed sentence
/// where there is none.
pub proof fn law_risk_text_is_that_of_the_summary<A: Arithmetic>(
    series: Seq<crate::basket::SeriesView>,
)
    ensures
        crate::portfolio_analytics::risk_summary::<A>(series) matches Some(summary)
            ==> crate::orchestrator::risk_text::<A>(series) == summary.markdown::<A>(),
        crate::portfolio_analytics::risk_summary::<A>(series) is None
            ==> crate::orchestrator::risk_text::<A>(series)
            == crate::orchestrator::NO_RISK_FIGURES@,
{
}

/// A listing has an entry for each page, in order and numbered from one.
pub proof fn law_listings_have_an_entry_for_each_page<A: Arithmetic>(
    query: Seq<char>,
    pages: Seq<crate::search::PageView>,
)
    ensures
        crate::search::search_listing::<A>(query, pages) == "## Search Results: "@ + query
            + "\n\n"@ + crate::text::joined(
            Seq::new(
                pages.len(),
                |i: int| crate::search::page_entry::<A>((i + 1) as nat, pages[i]),
            ),
            "\n"@,
        ),
        pages.len() > 0 ==> crate::agent::quick_listing(query, pages) == "## Search Results\n\n"@
            + crate::text::joined(
            Seq::new(pages.len(), |i: int| crate::agent::quick_entry((i + 1) as nat, pages[i])),
            "\n"@,
        ),
        pages.len() == 0 ==> crate::agent::quick_listing(query, pages)
            == "No results found for: "@ + query,
{
    assert(crate::search::page_entries::<A>(pages) =~= Seq::new(
        pages.len(),
        |i: int| crate::search::page_entry::<A>((i + 1) as nat, pages[i]),
    ));
    assert(crate::agent::quick_entries(pages) =~= Seq::new(
        pages.len(),
        |i: int| crate::agent::quick_entry((i + 1) as nat, pages[i]),
    ));
}

/// An entry starts with its number and shows title, relevance, content and
/// address of the page, each behind the label of its own.
pub proof fn law_entries_show_their_page<A: Arithmetic>(
    number: nat,
    page: crate::search::PageView,
)
    ensures
        ({
            let text = crate::search::page_entry::<A>(number, page);
            &&& crate::text::decimal(number).is_prefix_of(text)
            &&& crate::laws::texts::shows(text, ". **"@, page.title, "** (relevance: "@)
            &&& crate::laws::texts::shows(
                text,
                "** (relevance: "@,
                crate::number::fixed2::<A>(page.score),
                ")\n   "@,
            )
            &&& crate::laws::texts::shows(text, ")\n   "@, page.content, "\n   URL: "@)
            &&& crate::laws::texts::shows(text, "\n   URL: "@, page.url, "\n"@)
        }),
        ({
            let text = crate::agent::quick_entry(number, page);
            &&& crate::text::decimal(number).is_prefix_of(text)
            &&& crate::laws::texts::shows(text, ". **"@, page.title, "**\n   "@)
            &&& crate::laws::texts::shows(text, "**\n   "@, page.content, "\n   URL: "@)
            &&& crate::laws::texts::shows(text, "\n   URL: "@, page.url, "\n"@)
        }),
{
    broadcast use {
        crate::laws::texts::lemma_shows_first,
        crate::laws::texts::lemma_shows_here,
        crate::laws::texts::lemma_shows_more,
    };

    assert(crate::text::decimal(number).is_prefix_of(
        crate::search::page_entry::<A>(number, page),
    ));
    assert(crate::text::decimal(number).is_prefix_of(crate::agent::quick_entry(number, page)));
}

} // verus!
