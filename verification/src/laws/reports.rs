//! Reports and listings: which value stands behind which label, and which rows
//! a table has.

use vstd::prelude::*;
use crate::chart::YahooChartResult;
use crate::number::Arithmetic;
use crate::number::Number;

verus! {

/// A text, or `N/A`.
pub open spec fn or_na(text: Option<Seq<char>>) -> Seq<char> {
    if text is Some {
        text->0
    } else {
        "N/A"@
    }
}

/// A number with two digits behind the point, or `N/A`.
pub open spec fn number_or_na<A: Arithmetic>(x: Option<Number>) -> Seq<char> {
    if x is Some {
        crate::number::fixed2::<A>(x->0)
    } else {
        "N/A"@
    }
}

/// A string, or `N/A`.
pub open spec fn string_or_na(text: Option<String>) -> Seq<char> {
    if text is Some {
        text->0@
    } else {
        "N/A"@
    }
}

/// A figure as it was written, else as a number, else `N/A`.
pub open spec fn figure_or_na<A: Arithmetic>(
    figure: Option<crate::fundamentals::RawFmtNumber>,
) -> Seq<char> {
    if figure is Some && figure->0.fmt is Some {
        figure->0.fmt->0@
    } else if figure is Some && figure->0.raw is Some {
        crate::number::fixed2::<A>(figure->0.raw->0)
    } else {
        "N/A"@
    }
}

/// Rows one below the other.
pub open spec fn stacked(rows: Seq<Seq<char>>) -> Seq<char> {
    rows.fold_left(Seq::empty(), |t: Seq<char>, row: Seq<char>| t + row)
}

/// Six cells of a table, between bars.
pub open spec fn cells(
    first: Seq<char>,
    second: Seq<char>,
    third: Seq<char>,
    fourth: Seq<char>,
    fifth: Seq<char>,
    sixth: Seq<char>,
) -> Seq<char> {
    "| "@ + first + " | "@ + second + " | "@ + third + " | "@ + fourth + " | "@ + fifth + " | "@
        + sixth + " |\n"@
}

proof fn lemma_stacked_push(rows: Seq<Seq<char>>, row: Seq<char>)
    ensures
        stacked(rows.push(row)) == stacked(rows) + row,
{
    assert(rows.push(row).drop_last() =~= rows);
}

/// A missing number is `N/A`, any other has two digits behind the point; a
/// figure that was written out stands as it was.
pub proof fn law_missing_figures_are_marked<A: Arithmetic>(
    x: Option<Number>,
    figure: Option<crate::fundamentals::RawFmtNumber>,
)
    ensures
        crate::finance::opt_fixed2::<A>(x) == number_or_na::<A>(x),
        crate::fundamentals::shown::<A>(figure) == figure_or_na::<A>(figure),
{
}

/// A report names what the chart is of, and shows each price of the quote
/// behind the label of its own.
#[verifier::rlimit(50)]
pub proof fn law_report_shows_the_quote<A: Arithmetic>(
    symbol: Seq<char>,
    meta: crate::chart::MetaView,
    candles: Seq<crate::chart::CandleView>,
    stats: Option<crate::stats::StatsView>,
)
    ensures
        ({
            let text = crate::finance::finance_report::<A>(symbol, meta, candles, stats);
            let name = if meta.long_name is Some {
                meta.long_name->0
            } else if meta.short_name is Some {
                meta.short_name->0
            } else {
                symbol
            };
            &&& crate::laws::texts::shows(text, "## Yahoo Finance Data: "@, name, " ("@)
            &&& crate::laws::texts::shows(text, " ("@, symbol, ")\n\n"@)
            &&& crate::laws::texts::shows(
                text,
                "- **Exchange**: "@,
                or_na(meta.exchange_name),
                "\n- **Currency**: "@,
            )
            &&& crate::laws::texts::shows(
                text,
                "\n- **Currency**: "@,
                or_na(meta.currency),
                "\n- **Latest Price**: "@,
            )
            &&& crate::laws::texts::shows(
                text,
                "\n- **Latest Price**: "@,
                number_or_na::<A>(meta.regular_market_price),
                "\n- **Previous Close**: "@,
            )
            &&& crate::laws::texts::shows(
                text,
                "\n- **Previous Close**: "@,
                number_or_na::<A>(meta.previous_close),
                "\n- **52-Week Range**: "@,
            )
            &&& crate::laws::texts::shows(
                text,
                "\n- **52-Week Range**: "@,
                number_or_na::<A>(meta.fifty_two_week_low),
                " – "@,
            )
            &&& crate::laws::texts::shows(
                text,
                " – "@,
                number_or_na::<A>(meta.fifty_two_week_high),
                "\n\n"@,
            )
        }),
{
    broadcast use {
        crate::laws::texts::lemma_shows_first,
        crate::laws::texts::lemma_shows_here,
        crate::laws::texts::lemma_shows_more,
    };

}

/// A report shows each statistic behind the label of its own.
#[verifier::rlimit(50)]
pub proof fn law_report_shows_the_statistics<A: Arithmetic>(
    symbol: Seq<char>,
    meta: crate::chart::MetaView,
    candles: Seq<crate::chart::CandleView>,
    stats: crate::stats::StatsView,
)
    ensures
        ({
            let text = crate::finance::finance_report::<A>(symbol, meta, candles, Some(stats));
            &&& crate::laws::texts::shows(
                text,
                "### Quantitative Summary ("@,
                crate::text::decimal(stats.num_observations),
                " observations)\n- Period Return: "@,
            )
            &&& crate::laws::texts::shows(
                text,
                " observations)\n- Period Return: "@,
                crate::number::fixed2::<A>(stats.period_return_pct),
                "%\n- Annualized Volatility: "@,
            )
            &&& crate::laws::texts::shows(
                text,
                "%\n- Annualized Volatility: "@,
                crate::number::fixed2::<A>(stats.annualized_volatility_pct),
                "%\n- Max Drawdown: "@,
            )
            &&& crate::laws::texts::shows(
                text,
                "%\n- Max Drawdown: "@,
                crate::number::fixed2::<A>(stats.max_drawdown_pct),
                "%\n- Avg Daily Volume: "@,
            )
            &&& crate::laws::texts::shows(
                text,
                "%\n- Avg Daily Volume: "@,
                crate::text::signed_decimal(stats.avg_daily_volume),
                "\n\n"@,
            )
        }),
{
    broadcast use {
        crate::laws::texts::lemma_shows_first,
        crate::laws::texts::lemma_shows_here,
        crate::laws::texts::lemma_shows_more,
    };

    let head = crate::finance::report_head::<A>(symbol, meta);
    let part = crate::finance::report_stats::<A>(stats);
    let text = crate::finance::finance_report::<A>(symbol, meta, candles, Some(stats));
    assert(text == head + part + crate::finance::report_candles::<A>(candles));
    let labels = seq![
        "### Quantitative Summary ("@,
        " observations)\n- Period Return: "@,
        "%\n- Annualized Volatility: "@,
        "%\n- Max Drawdown: "@,
        "%\n- Avg Daily Volume: "@,
        "\n\n"@,
    ];
    let values = seq![
        crate::text::decimal(stats.num_observations),
        crate::number::fixed2::<A>(stats.period_return_pct),
        crate::number::fixed2::<A>(stats.annualized_volatility_pct),
        crate::number::fixed2::<A>(stats.max_drawdown_pct),
        crate::text::signed_decimal(stats.avg_daily_volume),
    ];
    assert(crate::laws::texts::shows(part, labels[0], values[0], labels[1]));
    assert(crate::laws::texts::shows(part, labels[1], values[1], labels[2]));
    assert(crate::laws::texts::shows(part, labels[2], values[2], labels[3]));
    assert(crate::laws::texts::shows(part, labels[3], values[3], labels[4]));
    assert(crate::laws::texts::shows(part, labels[4], values[4], labels[5]));
    crate::laws::texts::lemma_shows_behind(head, part, labels[0], values[0], labels[1]);
    crate::laws::texts::lemma_shows_behind(head, part, labels[1], values[1], labels[2]);
    crate::laws::texts::lemma_shows_behind(head, part, labels[2], values[2], labels[3]);
    crate::laws::texts::lemma_shows_behind(head, part, labels[3], values[3], labels[4]);
    crate::laws::texts::lemma_shows_behind(head, part, labels[4], values[4], labels[5]);
}

proof fn lemma_report_rows<A: Arithmetic>(candles: Seq<crate::chart::CandleView>)
    ensures
        crate::finance::report_rows::<A>(candles) == stacked(
            Seq::new(candles.len(), |i: int| candle_cells::<A>(candles[i])),
        ),
    decreases candles.len(),
{
    let rows = Seq::new(candles.len(), |i: int| candle_cells::<A>(candles[i]));
    if candles.len() > 0 {
        let front = candles.drop_last();
        lemma_report_rows::<A>(front);
        let before = Seq::new(front.len(), |i: int| candle_cells::<A>(front[i]));
        assert(rows =~= before.push(candle_cells::<A>(candles.last())));
        lemma_stacked_push(before, candle_cells::<A>(candles.last()));
    }
}

/// The cells of a candle, in the order of the headings.
pub open spec fn candle_cells<A: Arithmetic>(c: crate::chart::CandleView) -> Seq<char> {
    cells(
        c.date,
        crate::number::fixed2::<A>(c.open),
        crate::number::fixed2::<A>(c.high),
        crate::number::fixed2::<A>(c.low),
        crate::number::fixed2::<A>(c.close),
        crate::text::signed_decimal(c.volume),
    )
}

/// A report ends with a table of the last ten candles, or of all where there
/// are fewer, the oldest first: date, open, high, low, close and volume under
/// the headings of these names.
pub proof fn law_report_ends_with_the_last_ten_candles<A: Arithmetic>(
    symbol: Seq<char>,
    meta: crate::chart::MetaView,
    candles: Seq<crate::chart::CandleView>,
    stats: Option<crate::stats::StatsView>,
    count: nat,
)
    requires
        candles.len() > 0,
        count <= candles.len(),
        count == 10 || (count < 10 && count == candles.len()),
    ensures
        crate::laws::texts::ends_with(
            crate::finance::finance_report::<A>(symbol, meta, candles, stats),
            "### Recent Candles (most recent last)\n\n"@
                + "| Date | Open | High | Low | Close | Volume |\n|---|---|---|---|---|---|\n"@
                + stacked(
                Seq::new(count, |i: int| candle_cells::<A>(candles[candles.len() - count + i])),
            ),
        ),
{
    let last = crate::finance::recent(candles);
    lemma_report_rows::<A>(last);
    assert(Seq::new(last.len(), |i: int| candle_cells::<A>(last[i])) =~= Seq::new(
        count,
        |i: int| candle_cells::<A>(candles[candles.len() - count + i]),
    ));
    let front = crate::finance::report_head::<A>(symbol, meta) + (match stats {
        Some(s) => crate::finance::report_stats::<A>(s),
        None => Seq::empty(),
    });
    assert(crate::finance::finance_report::<A>(symbol, meta, candles, stats) == front
        + crate::finance::report_candles::<A>(candles));
}

/// Where there are no candles a report ends by saying so.
pub proof fn law_report_says_that_there_are_no_candles<A: Arithmetic>(
    symbol: Seq<char>,
    meta: crate::chart::MetaView,
    candles: Seq<crate::chart::CandleView>,
    stats: Option<crate::stats::StatsView>,
)
    requires
        candles.len() == 0,
    ensures
        crate::laws::texts::ends_with(
            crate::finance::finance_report::<A>(symbol, meta, candles, stats),
            "_No historical candle data was returned for this range/interval._\n"@,
        ),
{
    let front = crate::finance::report_head::<A>(symbol, meta) + (match stats {
        Some(s) => crate::finance::report_stats::<A>(s),
        None => Seq::empty(),
    });
    assert(crate::finance::finance_report::<A>(symbol, meta, candles, stats) == front
        + "_No historical candle data was returned for this range/interval._\n"@);
}

/// The report on a chart is that on its quote, its candles and their statistics.
pub proof fn law_chart_report_is_of_the_chart<A: Arithmetic>(
    symbol: Seq<char>,
    result: YahooChartResult,
)
    ensures
        crate::finance::chart_report::<A>(symbol, result) == crate::finance::finance_report::<A>(
            symbol,
            result.meta@,
            crate::chart::chart_candles(result),
            crate::stats::series_stats::<A>(
                symbol,
                result.meta@,
                crate::chart::chart_candles(result),
            ),
        ),
        crate::finance::numberless(result) <==> {
            &&& result.meta.regular_market_price is None
            &&& result.meta.previous_close is None
            &&& result.meta.fifty_two_week_low is None
            &&& result.meta.fifty_two_week_high is None
            &&& crate::chart::chart_candles(result).len() == 0
        },
{
}

/// One symbol in the comparison: its figures under the headings symbol,
/// currency, latest close, period return, volatility and drawdown, or what went
/// wrong.
pub proof fn law_snapshot_row_follows_the_headings<A: Arithmetic>(s: crate::basket::SeriesView)
    ensures
        s.stats matches Some(stats) ==> crate::basket::snapshot_row::<A>(s) == cells(
            s.symbol,
            stats.currency,
            crate::number::fixed2::<A>(stats.latest_close),
            crate::number::fixed2::<A>(stats.period_return_pct),
            crate::number::fixed2::<A>(stats.annualized_volatility_pct),
            crate::number::fixed2::<A>(stats.max_drawdown_pct),
        ),
        s.stats is None && s.error is Some ==> crate::basket::snapshot_row::<A>(s) == cells(
            s.symbol,
            "-"@,
            "-"@,
            "-"@,
            "-"@,
            "error: "@ + s.error->0,
        ),
        s.stats is None && s.error is None ==> crate::basket::snapshot_row::<A>(s) == cells(
            s.symbol,
            "-"@,
            "-"@,
            "-"@,
            "-"@,
            "no data"@,
        ),
{
    reveal_strlit(" | - | - | - | - | error: ");
    reveal_strlit(" | - | - | - | - | no data |\n");
    reveal_strlit(" | ");
    reveal_strlit("| ");
    reveal_strlit(" |\n");
    reveal_strlit("-");
    reveal_strlit("error: ");
    reveal_strlit("no data");
    let dashes = " | "@ + "-"@ + " | "@ + "-"@ + " | "@ + "-"@ + " | "@ + "-"@ + " | "@;
    assert(dashes + "error: "@ =~= " | - | - | - | - | error: "@);
    assert(dashes + "no data"@ + " |\n"@ =~= " | - | - | - | - | no data |\n"@);
    if s.stats is None {
        let start = "| "@ + s.symbol;
        if s.error is Some {
            let e = s.error->0;
            assert(start + (dashes + "error: "@) + e + " |\n"@ =~= cells(
                s.symbol,
                "-"@,
                "-"@,
                "-"@,
                "-"@,
                "error: "@ + e,
            ));
        } else {
            assert(start + (dashes + "no data"@ + " |\n"@) =~= cells(
                s.symbol,
                "-"@,
                "-"@,
                "-"@,
                "-"@,
                "no data"@,
            ));
        }
    }
}

proof fn lemma_snapshot_rows<A: Arithmetic>(series: Seq<crate::basket::SeriesView>)
    ensures
        crate::basket::snapshot_rows::<A>(series) == stacked(
            Seq::new(series.len(), |i: int| crate::basket::snapshot_row::<A>(series[i])),
        ),
    decreases series.len(),
{
    let rows = Seq::new(series.len(), |i: int| crate::basket::snapshot_row::<A>(series[i]));
    if series.len() > 0 {
        let front = series.drop_last();
        lemma_snapshot_rows::<A>(front);
        let before = Seq::new(front.len(), |i: int| crate::basket::snapshot_row::<A>(front[i]));
        assert(rows =~= before.push(crate::basket::snapshot_row::<A>(series.last())));
        lemma_stacked_push(before, crate::basket::snapshot_row::<A>(series.last()));
    }
}

/// A comparison says how many symbols it is of and over which range and
/// interval, and has a row for each series, in order, below its headings.
pub proof fn law_snapshot_has_a_row_for_each_series<A: Arithmetic>(
    count: nat,
    range: Seq<char>,
    interval: Seq<char>,
    series: Seq<crate::basket::SeriesView>,
)
    ensures
        ({
            let text = crate::basket::snapshot::<A>(count, range, interval, series);
            &&& crate::laws::texts::shows(
                text,
                "## Portfolio Snapshot ("@,
                crate::text::decimal(count),
                " symbols, range="@,
            )
            &&& crate::laws::texts::shows(text, " symbols, range="@, range, ", interval="@)
            &&& crate::laws::texts::shows(text, ", interval="@, interval, ")\n\n"@)
        }),
        crate::laws::texts::ends_with(
            crate::basket::snapshot::<A>(count, range, interval, series),
            "| Symbol | Currency | Latest Close | Period Return % | Ann. Volatility % | Max Drawdown % |\n"@
                + "|---|---|---|---|---|---|\n"@ + stacked(
                Seq::new(series.len(), |i: int| crate::basket::snapshot_row::<A>(series[i])),
            ),
        ),
{
    broadcast use {
        crate::laws::texts::lemma_shows_first,
        crate::laws::texts::lemma_shows_here,
        crate::laws::texts::lemma_shows_more,
    };

    lemma_snapshot_rows::<A>(series);
    let front = "## Portfolio Snapshot ("@ + crate::text::decimal(count) + " symbols, range="@
        + range + ", interval="@ + interval + ")\n\n"@;
    assert(crate::basket::snapshot::<A>(count, range, interval, series) =~= front + (
    "| Symbol | Currency | Latest Close | Period Return % | Ann. Volatility % | Max Drawdown % |\n"@
        + "|---|---|---|---|---|---|\n"@ + stacked(
        Seq::new(series.len(), |i: int| crate::basket::snapshot_row::<A>(series[i])),
    )));
}

/// A pair of currencies has the symbol of both codes, in upper case and without
/// whitespace around them, and its report names both in front of the chart's.
pub proof fn law_pairs_name_both_currencies(
    from_currency: Seq<char>,
    to_currency: Seq<char>,
    report: Seq<char>,
)
    ensures
        crate::fx::pair(from_currency, to_currency) == crate::outside::uppercase(
            crate::text::trimmed(from_currency),
        ) + crate::outside::uppercase(crate::text::trimmed(to_currency)) + "=X"@,
        crate::laws::texts::shows(
            crate::fx::fx_report(from_currency, to_currency, report),
            "**FX Pair**: "@,
            crate::outside::uppercase(from_currency),
            " → "@,
        ),
        crate::laws::texts::shows(
            crate::fx::fx_report(from_currency, to_currency, report),
            " → "@,
            crate::outside::uppercase(to_currency),
            "\n\n"@,
        ),
        crate::laws::texts::ends_with(
            crate::fx::fx_report(from_currency, to_currency, report),
            "\n\n"@ + report,
        ),
{
    broadcast use {
        crate::laws::texts::lemma_shows_first,
        crate::laws::texts::lemma_shows_here,
        crate::laws::texts::lemma_shows_more,
    };

    let front = "**FX Pair**: "@ + crate::outside::uppercase(from_currency) + " → "@
        + crate::outside::uppercase(to_currency);
    assert(crate::fx::fx_report(from_currency, to_currency, report) =~= front + ("\n\n"@
        + report));
}

} // verus!
