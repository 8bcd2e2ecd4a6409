//! Which series enter the analysis of a basket, on which dates, and what comes out.

use vstd::prelude::*;
use crate::number::Arithmetic;
use crate::number::Number;
use crate::number::hundred;
use crate::number::one;
use crate::number::zero;

verus! {

/// On day `c` the series has a return: it and the day before closed at a
/// positive price.
pub open spec fn has_return(candles: Seq<crate::chart::CandleView>, c: int) -> bool {
    1 <= c < candles.len() && candles[c - 1].close.positive() && candles[c].close.positive()
}

/// `r` is the log return of a series on a date: that of the last candle of the
/// date that has one, over the candle just before it.
pub open spec fn return_on<A: Arithmetic>(
    candles: Seq<crate::chart::CandleView>,
    d: Seq<char>,
    r: Number,
) -> bool {
    exists|c: int|
        {
            &&& #[trigger] has_return(candles, c)
            &&& candles[c].date == d
            &&& r == crate::number::ln::<A>(
                crate::number::divide::<A>(candles[c].close, candles[c - 1].close),
            )
            &&& forall|l: int|
                c < l && #[trigger] has_return(candles, l) ==> candles[l].date != d
        }
}

/// A series has a return on a date.
pub open spec fn trades_on(candles: Seq<crate::chart::CandleView>, d: Seq<char>) -> bool {
    exists|c: int| #[trigger] has_return(candles, c) && candles[c].date == d
}

/// The dates with a return are those of the candles that have one.
pub proof fn law_return_dates_are_those_of_the_candles(
    candles: Seq<crate::chart::CandleView>,
    d: Seq<char>,
)
    ensures
        crate::alignment::return_dates(candles).contains(d) <==> trades_on(candles, d),
    decreases candles.len(),
{
    if candles.len() >= 2 {
        let front = candles.drop_last();
        let last = candles.len() - 1;
        law_return_dates_are_those_of_the_candles(front, d);
        if trades_on(front, d) {
            let c = choose|c: int| #[trigger] has_return(front, c) && front[c].date == d;
            assert(has_return(candles, c));
        }
        if trades_on(candles, d) {
            let c = choose|c: int| #[trigger] has_return(candles, c) && candles[c].date == d;
            if c < last {
                assert(has_return(front, c));
            }
        }
        if has_return(candles, last) && candles[last].date == d {
            assert(trades_on(candles, d));
        }
    }
}

/// The return kept for a date is the log return of the series on that very date.
pub proof fn law_returns_belong_to_their_date<A: Arithmetic>(
    candles: Seq<crate::chart::CandleView>,
    d: Seq<char>,
    r: Number,
)
    ensures
        crate::alignment::daily_returns::<A>(candles).dom().contains(d) <==> trades_on(candles, d),
        trades_on(candles, d) ==> (return_on::<A>(candles, d, r) <==> r
            == crate::alignment::daily_returns::<A>(candles)[d]),
    decreases candles.len(),
{
    let map = crate::alignment::daily_returns::<A>(candles);
    crate::alignment::law_return_dates_do_not_depend_on_the_arithmetic::<A>(candles);
    law_return_dates_are_those_of_the_candles(candles, d);
    if candles.len() >= 2 {
        let front = candles.drop_last();
        let last = candles.len() - 1;
        law_returns_belong_to_their_date::<A>(front, d, r);
        law_return_dates_are_those_of_the_candles(front, d);
        crate::alignment::law_return_dates_do_not_depend_on_the_arithmetic::<A>(front);
        assert forall|c: int| c < last implies #[trigger] has_return(candles, c) == has_return(
            front,
            c,
        ) by {}
        if has_return(candles, last) && candles[last].date == d {
            if return_on::<A>(candles, d, r) {
                let c = choose|c: int|
                    {
                        &&& #[trigger] has_return(candles, c)
                        &&& candles[c].date == d
                        &&& r == crate::number::ln::<A>(
                            crate::number::divide::<A>(candles[c].close, candles[c - 1].close),
                        )
                        &&& forall|l: int|
                            c < l && #[trigger] has_return(candles, l) ==> candles[l].date != d
                    };
                assert(c == last);
            }
            if r == map[d] {
                assert(has_return(candles, last));
                assert(return_on::<A>(candles, d, r));
            }
        } else if trades_on(candles, d) {
            assert(trades_on(front, d));
            assert(map[d] == crate::alignment::daily_returns::<A>(front)[d]);
            if return_on::<A>(candles, d, r) {
                let c = choose|c: int|
                    {
                        &&& #[trigger] has_return(candles, c)
                        &&& candles[c].date == d
                        &&& r == crate::number::ln::<A>(
                            crate::number::divide::<A>(candles[c].close, candles[c - 1].close),
                        )
                        &&& forall|l: int|
                            c < l && #[trigger] has_return(candles, l) ==> candles[l].date != d
                    };
                assert(has_return(front, c));
                assert forall|l: int| c < l && #[trigger] has_return(front, l) implies front[l].date
                    != d by {
                    assert(has_return(candles, l));
                }
                assert(return_on::<A>(front, d, r));
            }
            if return_on::<A>(front, d, r) {
                let c = choose|c: int|
                    {
                        &&& #[trigger] has_return(front, c)
                        &&& front[c].date == d
                        &&& r == crate::number::ln::<A>(
                            crate::number::divide::<A>(front[c].close, front[c - 1].close),
                        )
                        &&& forall|l: int|
                            c < l && #[trigger] has_return(front, l) ==> front[l].date != d
                    };
                assert(has_return(candles, c));
                assert forall|l: int|
                    c < l && #[trigger] has_return(candles, l) implies candles[l].date != d by {
                    if l < last {
                        assert(has_return(front, l));
                    }
                }
                assert(return_on::<A>(candles, d, r));
            }
        }
    }
}

/// Dates in strictly ascending order: exactly those on which every one of the
/// series has a return.
pub open spec fn shared_dates(
    list: Seq<crate::basket::SeriesView>,
    dates: Seq<Seq<char>>,
) -> bool {
    &&& forall|i: int, j: int|
        0 <= i < j < dates.len() ==> #[trigger] crate::text::precedes(dates[i], dates[j])
    &&& forall|d: Seq<char>| #[trigger]
        dates.contains(d) <==> forall|i: int|
            0 <= i < list.len() ==> trades_on((#[trigger] list[i]).candles, d)
}

/// The shared dates of series are the dates on which all of them have a return.
pub proof fn law_aligned_dates_are_shared_by_all(
    list: Seq<crate::basket::SeriesView>,
    dates: Seq<Seq<char>>,
)
    requires
        list.len() > 0,
    ensures
        shared_dates(list, dates) <==> dates == crate::portfolio_analytics::aligned_dates(list),
{
    let listed = crate::portfolio_analytics::aligned_dates(list);
    crate::portfolio_analytics::law_aligned_dates_are_the_shared_ones(list);
    assert forall|d: Seq<char>| crate::portfolio_analytics::traded_by_all(list, d) <==> forall|
        i: int,
    |
        0 <= i < list.len() ==> trades_on((#[trigger] list[i]).candles, d) by {
        assert forall|i: int| 0 <= i < list.len() implies crate::alignment::return_dates(
            (#[trigger] list[i]).candles,
        ).contains(d) == trades_on(list[i].candles, d) by {
            law_return_dates_are_those_of_the_candles(list[i].candles, d);
        }
    }
    assert(shared_dates(list, listed));
    if shared_dates(list, dates) {
        assert forall|d: Seq<char>| dates.contains(d) <==> listed.contains(d) by {
            assert(crate::portfolio_analytics::traded_by_all(list, d) <==> forall|i: int|
                0 <= i < list.len() ==> trades_on((#[trigger] list[i]).candles, d));
        }
        crate::alignment::lemma_ascending_unique(dates, listed);
    }
}

/// The rows that are compared hold, for each shared date, the return of each
/// series on that very date.
pub proof fn law_rows_are_aligned_date_by_date<A: Arithmetic>(
    list: Seq<crate::basket::SeriesView>,
    dates: Seq<Seq<char>>,
    i: int,
    k: int,
)
    requires
        shared_dates(list, dates),
        0 <= i < list.len(),
        0 <= k < dates.len(),
    ensures
        crate::portfolio_analytics::aligned_returns::<A>(list, dates).len() == list.len(),
        crate::portfolio_analytics::aligned_returns::<A>(list, dates)[i].len() == dates.len(),
        return_on::<A>(
            list[i].candles,
            dates[k],
            crate::portfolio_analytics::aligned_returns::<A>(list, dates)[i][k],
        ),
{
    assert(dates.contains(dates[k]));
    assert(trades_on(list[i].candles, dates[k]));
    law_returns_belong_to_their_date::<A>(
        list[i].candles,
        dates[k],
        crate::portfolio_analytics::aligned_returns::<A>(list, dates)[i][k],
    );
}

/// Each entry of the correlation matrix compares two series date by date: where
/// `rows` holds, for each of the ranked series, its return on each shared date,
/// the entry of two different series is the coefficient of their rows.
pub proof fn law_series_are_compared_date_by_date<A: Arithmetic>(
    series: Seq<crate::basket::SeriesView>,
    dates: Seq<Seq<char>>,
    rows: Seq<Seq<Number>>,
    i: int,
    j: int,
)
    requires
        crate::portfolio_analytics::risk_summary::<A>(series) is Some,
        shared_dates(crate::portfolio_analytics::ranked(series), dates),
        rows.len() == crate::portfolio_analytics::ranked(series).len(),
        forall|l: int| 0 <= l < rows.len() ==> (#[trigger] rows[l]).len() == dates.len(),
        forall|l: int, k: int|
            0 <= l < rows.len() && 0 <= k < dates.len() ==> return_on::<A>(
                crate::portfolio_analytics::ranked(series)[l].candles,
                dates[k],
                #[trigger] rows[l][k],
            ),
        0 <= i < rows.len(),
        0 <= j < rows.len(),
    ensures
        ({
            let summary = crate::portfolio_analytics::risk_summary::<A>(series)->0;
            &&& summary.aligned_observations == dates.len()
            &&& summary.correlation_matrix.len() == rows.len()
            &&& summary.correlation_matrix[i].len() == rows.len()
            &&& summary.correlation_matrix[i][j] == if i == j {
                one()
            } else {
                crate::correlation::pearson::<A>(rows[i], rows[j])
            }
        }),
{
    let list = crate::portfolio_analytics::ranked(series);
    law_aligned_dates_are_shared_by_all(list, dates);
    let aligned = crate::portfolio_analytics::aligned_returns::<A>(list, dates);
    assert forall|l: int| 0 <= l < rows.len() implies rows[l] == aligned[l] by {
        assert(rows[l].len() == dates.len());
        assert forall|k: int| 0 <= k < dates.len() implies rows[l][k] == aligned[l][k] by {
            assert(dates.contains(dates[k]));
            assert(trades_on(list[l].candles, dates[k]));
            assert(return_on::<A>(list[l].candles, dates[k], rows[l][k]));
            law_returns_belong_to_their_date::<A>(list[l].candles, dates[k], rows[l][k]);
        }
        assert(rows[l] =~= aligned[l]);
    }
    crate::laws::figures::law_matrix_pairs_every_series::<A>(aligned, i, j);
}

/// There is a summary exactly where at least two series can be used, each with
/// statistics, without an error and of at least five candles, and they have at
/// least five dates in common.
pub proof fn law_summary_needs_two_series_and_five_dates<A: Arithmetic>(
    series: Seq<crate::basket::SeriesView>,
    dates: Seq<Seq<char>>,
)
    requires
        shared_dates(crate::portfolio_analytics::ranked(series), dates),
    ensures
        crate::portfolio_analytics::risk_summary::<A>(series) is Some
            <==> crate::portfolio_analytics::ranked(series).len() >= 2 && dates.len() >= 5,
        crate::portfolio_analytics::analysable(series)
            <==> crate::portfolio_analytics::risk_summary::<A>(series) is Some,
{
    if crate::portfolio_analytics::ranked(series).len() > 0 {
        law_aligned_dates_are_shared_by_all(crate::portfolio_analytics::ranked(series), dates);
    }
}

/// The series is left out of the analysis.
pub open spec fn left_out(s: crate::basket::SeriesView) -> bool {
    s.error is Some || s.stats is None || s.candles.len() < 5
}

proof fn lemma_placed_filter(
    list: Seq<crate::basket::SeriesView>,
    s: crate::basket::SeriesView,
    symbol: Seq<char>,
    named: spec_fn(crate::basket::SeriesView) -> bool,
)
    requires
        forall|x: crate::basket::SeriesView| #[trigger] named(x) == (x.symbol == symbol),
    ensures
        crate::portfolio_analytics::placed(list, s).filter(named) == (if s.symbol == symbol {
            list.filter(named).push(s)
        } else {
            list.filter(named)
        }),
    decreases list.len(),
{
    reveal(Seq::filter);
    if list.len() == 0 || !crate::text::precedes(s.symbol, list.last().symbol) {
        assert(list.push(s).drop_last() =~= list);
    } else {
        let rest = crate::portfolio_analytics::placed(list.drop_last(), s);
        lemma_placed_filter(list.drop_last(), s, symbol, named);
        crate::text::lemma_precedes_irreflexive(s.symbol);
        assert(rest.push(list.last()).drop_last() =~= rest);
    }
}

proof fn lemma_ranked_filter(
    series: Seq<crate::basket::SeriesView>,
    symbol: Seq<char>,
    named: spec_fn(crate::basket::SeriesView) -> bool,
    kept: spec_fn(crate::basket::SeriesView) -> bool,
)
    requires
        forall|x: crate::basket::SeriesView| #[trigger] named(x) == (x.symbol == symbol),
        forall|x: crate::basket::SeriesView| #[trigger]
            kept(x) == (!left_out(x) && x.symbol == symbol),
    ensures
        crate::portfolio_analytics::ranked(series).filter(named) == series.filter(kept),
    decreases series.len(),
{
    reveal(Seq::filter);
    if series.len() > 0 {
        lemma_ranked_filter(series.drop_last(), symbol, named, kept);
        let last = series.last();
        assert(kept(last) == (!left_out(last) && last.symbol == symbol));
        if crate::portfolio_analytics::usable(last) {
            lemma_placed_filter(
                crate::portfolio_analytics::ranked(series.drop_last()),
                last,
                symbol,
                named,
            );
        }
    }
}

/// The analysis takes the series that are not left out, in ascending order of
/// their symbols; of each symbol it takes all of them, in the basket's order.
/// The symbols of those left out are listed in the basket's order.
pub proof fn law_ranking_is_a_stable_sort<A: Arithmetic>(
    series: Seq<crate::basket::SeriesView>,
    symbol: Seq<char>,
)
    ensures
        ({
            let list = crate::portfolio_analytics::ranked(series);
            &&& list.filter(|s: crate::basket::SeriesView| s.symbol == symbol) == series.filter(
                |s: crate::basket::SeriesView| !left_out(s) && s.symbol == symbol,
            )
            &&& forall|i: int, j: int|
                0 <= i < j < list.len() ==> list[i].symbol == list[j].symbol
                    || #[trigger] crate::text::precedes(list[i].symbol, list[j].symbol)
            &&& crate::portfolio_analytics::excluded(series) == series.filter(
                |s: crate::basket::SeriesView| left_out(s),
            ).map_values(|s: crate::basket::SeriesView| s.symbol)
            &&& crate::portfolio_analytics::risk_summary::<A>(series) matches Some(summary) ==> {
                &&& summary.symbols == list.map_values(|s: crate::basket::SeriesView| s.symbol)
                &&& summary.excluded_symbols == crate::portfolio_analytics::excluded(series)
            }
        }),
{
    let list = crate::portfolio_analytics::ranked(series);
    let named = |s: crate::basket::SeriesView| s.symbol == symbol;
    let kept = |s: crate::basket::SeriesView| !left_out(s) && s.symbol == symbol;
    lemma_ranked_filter(series, symbol, named, kept);
    crate::portfolio_analytics::law_ranking_sorts_the_usable_series(series);
    assert forall|i: int, j: int| 0 <= i < j < list.len() implies list[i].symbol == list[j].symbol
        || #[trigger] crate::text::precedes(list[i].symbol, list[j].symbol) by {
        assert(!crate::text::precedes(list[j].symbol, list[i].symbol));
        crate::text::lemma_precedes_total(list[i].symbol, list[j].symbol);
    }
    lemma_excluded_filter(
        series,
        |s: crate::basket::SeriesView| left_out(s),
        |s: crate::basket::SeriesView| s.symbol,
    );
    if crate::portfolio_analytics::risk_summary::<A>(series) is Some {
        assert(crate::portfolio_analytics::symbols_of(list) =~= list.map_values(
            |s: crate::basket::SeriesView| s.symbol,
        ));
    }
}

proof fn lemma_excluded_filter(
    series: Seq<crate::basket::SeriesView>,
    out: spec_fn(crate::basket::SeriesView) -> bool,
    symbol: spec_fn(crate::basket::SeriesView) -> Seq<char>,
)
    requires
        forall|x: crate::basket::SeriesView| #[trigger] out(x) == left_out(x),
        forall|x: crate::basket::SeriesView| #[trigger] symbol(x) == x.symbol,
    ensures
        crate::portfolio_analytics::excluded(series) == series.filter(out).map_values(symbol),
    decreases series.len(),
{
    reveal(Seq::filter);
    if series.len() > 0 {
        lemma_excluded_filter(series.drop_last(), out, symbol);
        let last = series.last();
        assert(out(last) == left_out(last));
    }
    assert(crate::portfolio_analytics::excluded(series) =~= series.filter(out).map_values(symbol));
}

/// The figures of a summary: with `n` series, weight `1/n` each, and `v` their
/// volatilities as fractions, the portfolio's volatility is the root of the
/// variance over all pairs, in percent; the average volatility is the mean of
/// `v`, in percent; and the ratio is the average over the portfolio's.
pub proof fn law_summary_figures<A: Arithmetic>(
    series: Seq<crate::basket::SeriesView>,
    pairs: nat,
)
    requires
        crate::portfolio_analytics::risk_summary::<A>(series) is Some,
        2 * pairs == crate::portfolio_analytics::ranked(series).len() * (
        crate::portfolio_analytics::ranked(series).len() - 1),
    ensures
        ({
            let list = crate::portfolio_analytics::ranked(series);
            let summary = crate::portfolio_analytics::risk_summary::<A>(series)->0;
            let matrix = summary.correlation_matrix;
            let count = crate::number::from_count::<A>(list.len());
            let w = summary.equal_weight;
            let v = Seq::new(
                list.len(),
                |i: int|
                    crate::number::divide::<A>(
                        list[i].stats->0.annualized_volatility_pct,
                        hundred(),
                    ),
            );
            let variance = Seq::new(
                list.len(),
                |i: int|
                    Seq::new(
                        list.len(),
                        |j: int|
                            crate::number::times::<A>(
                                crate::number::times::<A>(
                                    crate::number::times::<A>(
                                        crate::number::times::<A>(w, w),
                                        v[i],
                                    ),
                                    v[j],
                                ),
                                matrix[i][j],
                            ),
                    ),
            ).fold_left(
                zero(),
                |s: Number, row: Seq<Number>|
                    row.fold_left(s, |t: Number, x: Number| crate::number::plus::<A>(t, x)),
            );
            let portfolio = summary.equal_weighted_volatility_pct;
            let average = summary.weighted_avg_individual_volatility_pct;
            &&& w == crate::number::divide::<A>(one(), count)
            &&& portfolio == crate::number::times::<A>(
                crate::number::sqrt::<A>(
                    if variance.positive() {
                        variance
                    } else {
                        zero()
                    },
                ),
                hundred(),
            )
            &&& average == crate::number::times::<A>(
                crate::number::divide::<A>(
                    v.fold_left(
                        zero(),
                        |t: Number, x: Number| crate::number::plus::<A>(t, x),
                    ),
                    count,
                ),
                hundred(),
            )
            &&& summary.diversification_ratio == (if portfolio.positive() {
                crate::number::divide::<A>(average, portfolio)
            } else {
                one()
            })
            &&& summary.avg_pairwise_correlation == crate::number::divide::<A>(
                Seq::new(matrix.len(), |i: int| matrix[i].skip(i + 1)).fold_left(
                    zero(),
                    |s: Number, row: Seq<Number>|
                        row.fold_left(s, |t: Number, x: Number| crate::number::plus::<A>(t, x)),
                ),
                crate::number::from_count::<A>(pairs),
            )
        }),
{
    let list = crate::portfolio_analytics::ranked(series);
    let n = list.len() as int;
    let summary = crate::portfolio_analytics::risk_summary::<A>(series)->0;
    let matrix = summary.correlation_matrix;
    let w = summary.equal_weight;
    let v = Seq::new(
        list.len(),
        |i: int|
            crate::number::divide::<A>(list[i].stats->0.annualized_volatility_pct, hundred()),
    );
    assert(v =~= crate::portfolio_analytics::volatilities::<A>(list));
    assert(crate::laws::figures::square_matrix(matrix));
    crate::laws::figures::law_variance_weighs_every_pair_by_its_correlation::<A>(w, v, matrix);
    crate::laws::figures::lemma_sum_fold::<A>(
        v,
        |t: Number, x: Number| crate::number::plus::<A>(t, x),
    );
    assert(pairs > 0) by (nonlinear_arith)
        requires
            n >= 2,
            2 * pairs == n * (n - 1),
    ;
    crate::laws::figures::law_average_correlation_counts_every_pair::<A>(matrix, pairs);
}

/// With fewer than two series that can be used there is nothing to summarise.
pub proof fn law_one_series_is_not_summarised<A: Arithmetic>(
    series: Seq<crate::basket::SeriesView>,
)
    requires
        crate::portfolio_analytics::ranked(series).len() < 2,
    ensures
        crate::portfolio_analytics::risk_summary::<A>(series) is None,
        !crate::portfolio_analytics::analysable(series),
{
}

/// A series can be used unless it is left out.
pub proof fn law_series_are_used_unless_left_out(s: crate::basket::SeriesView)
    ensures
        crate::portfolio_analytics::usable(s) <==> !left_out(s),
{
}

/// A list ascends where each text precedes every later one; a date is shared
/// where every map has it.
pub proof fn law_shared_dates_are_in_every_map(
    list: Seq<Seq<char>>,
    maps: Seq<Map<Seq<char>, Number>>,
    d: Seq<char>,
)
    ensures
        crate::alignment::ascending(list) <==> forall|i: int, j: int|
            0 <= i < j < list.len() ==> #[trigger] crate::text::precedes(list[i], list[j]),
        crate::alignment::shared_by(maps, d) <==> forall|i: int|
            0 <= i < maps.len() ==> (#[trigger] maps[i]).dom().contains(d),
{
}

} // verus!
