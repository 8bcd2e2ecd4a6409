//! Risk metrics of a basket: pairwise correlation of daily returns, volatility
//! of the equally weighted portfolio, and what diversification brings.

use vstd::prelude::*;
use crate::alignment::ReturnMap;
use crate::alignment::daily_log_returns;
use crate::alignment::shared_dates;
use crate::basket::SymbolSeries;
use crate::correlation::average_correlation;
use crate::correlation::correlation_matrix;
use crate::correlation::equal_weight_variance;
use crate::number::Arithmetic;
use crate::number::Number;
use crate::number::hundred;
use crate::number::one;
use crate::number::total;
use crate::number::zero;
use crate::text::count_text;
use crate::text::join_texts;
use crate::text::repeat_text;
use crate::text::text_precedes;

verus! {

/// Minimum number of price points a symbol needs to be included.
pub const MIN_CANDLES: usize = 5;

/// Minimum number of overlapping trading days required to trust correlations.
pub const MIN_ALIGNED_DAYS: usize = 5;

/// Aggregate risk metrics for a basket of symbols.
#[derive(Debug, Clone)]
pub struct PortfolioRiskSummary {
    /// Symbols that had enough data to be included in the analysis.
    pub symbols: Vec<String>,
    /// Equal weight assigned to each included symbol (1/n).
    pub equal_weight: Number,
    /// Average of all off-diagonal pairwise correlations.
    pub avg_pairwise_correlation: Number,
    /// Full symbol x symbol Pearson correlation matrix (of daily log returns).
    pub correlation_matrix: Vec<Vec<Number>>,
    /// Annualized volatility of an equal-weighted portfolio of all included symbols.
    pub equal_weighted_volatility_pct: Number,
    /// Equal-weighted average of each symbol's own annualized volatility.
    pub weighted_avg_individual_volatility_pct: Number,
    /// The average individual volatility over the portfolio's volatility.
    pub diversification_ratio: Number,
    /// Number of overlapping trading days used to compute correlations.
    pub aligned_observations: usize,
    /// Symbols excluded for insufficient or errored data.
    pub excluded_symbols: Vec<String>,
}

/// The mathematical counterpart of [`PortfolioRiskSummary`].
pub struct SummaryView {
    pub symbols: Seq<Seq<char>>,
    pub equal_weight: Number,
    pub avg_pairwise_correlation: Number,
    pub correlation_matrix: Seq<Seq<Number>>,
    pub equal_weighted_volatility_pct: Number,
    pub weighted_avg_individual_volatility_pct: Number,
    pub diversification_ratio: Number,
    pub aligned_observations: nat,
    pub excluded_symbols: Seq<Seq<char>>,
}

impl View for PortfolioRiskSummary {
    type V = SummaryView;

    open spec fn view(&self) -> SummaryView {
        SummaryView {
            symbols: crate::text::texts(self.symbols@),
            equal_weight: self.equal_weight,
            avg_pairwise_correlation: self.avg_pairwise_correlation,
            correlation_matrix: crate::correlation::rows(self.correlation_matrix@),
            equal_weighted_volatility_pct: self.equal_weighted_volatility_pct,
            weighted_avg_individual_volatility_pct: self.weighted_avg_individual_volatility_pct,
            diversification_ratio: self.diversification_ratio,
            aligned_observations: self.aligned_observations as nat,
            excluded_symbols: crate::text::texts(self.excluded_symbols@),
        }
    }
}

/// A series that the analysis can use: no error, statistics, and enough candles.
pub open spec fn usable(s: crate::basket::SeriesView) -> bool {
    s.error is None && s.stats is Some && s.candles.len() >= MIN_CANDLES
}

/// A list with a series put in its place by symbol, behind its equals.
pub open spec fn placed(
    list: Seq<crate::basket::SeriesView>,
    s: crate::basket::SeriesView,
) -> Seq<crate::basket::SeriesView>
    decreases list.len(),
{
    if list.len() == 0 || !crate::text::precedes(s.symbol, list.last().symbol) {
        list.push(s)
    } else {
        placed(list.drop_last(), s).push(list.last())
    }
}

/// The usable series of a basket in the order of their symbols; those of equal
/// symbol stay in the basket's order.
pub open spec fn ranked(series: Seq<crate::basket::SeriesView>) -> Seq<crate::basket::SeriesView>
    decreases series.len(),
{
    if series.len() == 0 {
        Seq::empty()
    } else {
        let before = ranked(series.drop_last());
        if usable(series.last()) {
            placed(before, series.last())
        } else {
            before
        }
    }
}

/// The symbols of the other series, in the basket's order.
pub open spec fn excluded(series: Seq<crate::basket::SeriesView>) -> Seq<Seq<char>>
    decreases series.len(),
{
    if series.len() == 0 {
        Seq::empty()
    } else {
        let before = excluded(series.drop_last());
        if usable(series.last()) {
            before
        } else {
            before.push(series.last().symbol)
        }
    }
}

/// The symbols of a list of series.
pub open spec fn symbols_of(list: Seq<crate::basket::SeriesView>) -> Seq<Seq<char>> {
    list.map_values(|s: crate::basket::SeriesView| s.symbol)
}

/// All of the series have a return on the date.
pub open spec fn traded_by_all(list: Seq<crate::basket::SeriesView>, d: Seq<char>) -> bool {
    forall|i: int|
        0 <= i < list.len() ==> crate::alignment::return_dates(
            (#[trigger] list[i]).candles,
        ).contains(d)
}

/// The dates are those on which all of the series have a return, ascending.
pub open spec fn lists_shared_dates(
    dates: Seq<Seq<char>>,
    list: Seq<crate::basket::SeriesView>,
) -> bool {
    &&& crate::alignment::ascending(dates)
    &&& forall|d: Seq<char>| #[trigger] dates.contains(d) <==> traded_by_all(list, d)
}

/// The dates on which all of the series have a return, ascending.
pub open spec fn aligned_dates(list: Seq<crate::basket::SeriesView>) -> Seq<Seq<char>> {
    choose|dates: Seq<Seq<char>>| lists_shared_dates(dates, list)
}

/// The daily returns of each series over the dates.
pub open spec fn aligned_returns<A: Arithmetic>(
    list: Seq<crate::basket::SeriesView>,
    dates: Seq<Seq<char>>,
) -> Seq<Seq<Number>> {
    list.map_values(
        |s: crate::basket::SeriesView|
            dates.map_values(
                |d: Seq<char>| crate::alignment::daily_returns::<A>(s.candles)[d],
            ),
    )
}

/// The volatility of each series as a fraction.
pub open spec fn volatilities<A: Arithmetic>(list: Seq<crate::basket::SeriesView>) -> Seq<Number> {
    list.map_values(
        |s: crate::basket::SeriesView|
            crate::number::divide::<A>(s.stats->0.annualized_volatility_pct, hundred()),
    )
}

/// The larger of a number and 0.
pub open spec fn not_below_zero(x: Number) -> Number {
    if x.positive() {
        x
    } else {
        zero()
    }
}

/// The volatility of the portfolio in percent.
pub open spec fn portfolio_volatility<A: Arithmetic>(variance: Number) -> Number {
    crate::number::times::<A>(
        crate::number::sqrt::<A>(not_below_zero(variance)),
        hundred(),
    )
}

/// The average volatility over the portfolio's; 1 where the portfolio has none.
pub open spec fn diversification<A: Arithmetic>(average: Number, portfolio: Number) -> Number {
    if portfolio.positive() {
        crate::number::divide::<A>(average, portfolio)
    } else {
        one()
    }
}

/// There is enough to analyse: two usable series and enough shared dates.
pub open spec fn analysable(series: Seq<crate::basket::SeriesView>) -> bool {
    ranked(series).len() >= 2 && aligned_dates(ranked(series)).len() >= MIN_ALIGNED_DAYS
}

/// The risk summary of a basket, with the operations of `A`.
pub open spec fn risk_summary<A: Arithmetic>(series: Seq<crate::basket::SeriesView>) -> Option<
    SummaryView,
> {
    if !analysable(series) {
        None
    } else {
        let list = ranked(series);
        let dates = aligned_dates(list);
        let matrix = crate::correlation::correlations::<A>(aligned_returns::<A>(list, dates));
        let weight = crate::number::divide::<A>(
            one(),
            crate::number::from_count::<A>(list.len()),
        );
        let vols = volatilities::<A>(list);
        let portfolio = portfolio_volatility::<A>(
            crate::correlation::portfolio_variance::<A>(weight, vols, matrix),
        );
        let average = crate::number::times::<A>(crate::stats::mean::<A>(vols), hundred());
        Some(
            SummaryView {
                symbols: symbols_of(list),
                equal_weight: weight,
                avg_pairwise_correlation: crate::correlation::average_pair::<A>(matrix),
                correlation_matrix: matrix,
                equal_weighted_volatility_pct: portfolio,
                weighted_avg_individual_volatility_pct: average,
                diversification_ratio: diversification::<A>(average, portfolio),
                aligned_observations: dates.len(),
                excluded_symbols: excluded(series),
            },
        )
    }
}

/// What a summary holds whatever the operations of `A` give.
pub open spec fn summarises(
    summary: SummaryView,
    series: Seq<crate::basket::SeriesView>,
) -> bool {
    &&& summary.symbols == symbols_of(ranked(series))
    &&& summary.excluded_symbols == excluded(series)
    &&& summary.aligned_observations == aligned_dates(ranked(series)).len()
    &&& summary.correlation_matrix.len() == summary.symbols.len()
    &&& crate::correlation::unit_diagonal(summary.correlation_matrix)
}

/// The series behind a list of references.
spec fn referred(list: Seq<&SymbolSeries>) -> Seq<crate::basket::SeriesView> {
    list.map_values(|s: &SymbolSeries| s@)
}

/// Whether the analysis can use a series.
pub fn is_usable(s: &SymbolSeries) -> (r: bool)
    ensures
        r == usable(s@),
{
    s.error.is_none() && s.stats.is_some() && s.candles.len() >= MIN_CANDLES
}

/// Putting a series behind the last member that it does not precede places it.
proof fn lemma_placed(
    list: Seq<crate::basket::SeriesView>,
    s: crate::basket::SeriesView,
    at: int,
)
    requires
        0 <= at <= list.len(),
        forall|k: int|
            at <= k < list.len() ==> crate::text::precedes(s.symbol, (#[trigger] list[k]).symbol),
        at > 0 ==> !crate::text::precedes(s.symbol, list[at - 1].symbol),
    ensures
        placed(list, s) == list.insert(at, s),
    decreases list.len() - at,
{
    if at == list.len() {
        assert(list.push(s) =~= list.insert(at, s));
    } else {
        assert(crate::text::precedes(s.symbol, list[list.len() - 1].symbol));
        lemma_placed(list.drop_last(), s, at);
        assert(list.drop_last().insert(at, s).push(list.last()) =~= list.insert(at, s));
    }
}

/// Every member of the ranking is usable.
pub proof fn lemma_ranked_usable(series: Seq<crate::basket::SeriesView>)
    ensures
        forall|i: int| 0 <= i < ranked(series).len() ==> usable(#[trigger] ranked(series)[i]),
    decreases series.len(),
{
    if series.len() > 0 {
        lemma_ranked_usable(series.drop_last());
        if usable(series.last()) {
            lemma_placed_usable(ranked(series.drop_last()), series.last());
        }
    }
}

proof fn lemma_placed_usable(
    list: Seq<crate::basket::SeriesView>,
    s: crate::basket::SeriesView,
)
    requires
        usable(s),
        forall|i: int| 0 <= i < list.len() ==> usable(#[trigger] list[i]),
    ensures
        forall|i: int| 0 <= i < placed(list, s).len() ==> usable(#[trigger] placed(list, s)[i]),
    decreases list.len(),
{
    if !(list.len() == 0 || !crate::text::precedes(s.symbol, list.last().symbol)) {
        lemma_placed_usable(list.drop_last(), s);
        let rest = placed(list.drop_last(), s);
        assert forall|i: int| 0 <= i < placed(list, s).len() implies usable(
            #[trigger] placed(list, s)[i],
        ) by {
            if i < rest.len() {
                assert(usable(rest[i]));
            } else {
                assert(usable(list[list.len() - 1]));
            }
        }
    }
}

/// The usable series of a basket in the order of their symbols.
fn rank_usable<'a>(series: &'a Vec<SymbolSeries>) -> (r: Vec<&'a SymbolSeries>)
    ensures
        referred(r@) == ranked(crate::basket::series_views(series@)),
{
    let ghost all = crate::basket::series_views(series@);
    let mut list: Vec<&SymbolSeries> = Vec::new();
    assert(all.take(0) =~= Seq::<crate::basket::SeriesView>::empty());
    assert(referred(list@) =~= ranked(all.take(0)));
    for i in 0..series.len()
        invariant
            all == crate::basket::series_views(series@),
            referred(list@) == ranked(all.take(i as int)),
    {
        let s = &series[i];
        assert(all.take(i + 1).drop_last() =~= all.take(i as int));
        assert(all.take(i + 1).last() == s@);
        if is_usable(s) {
            let ghost before = referred(list@);
            let mut at: usize = list.len();
            while at > 0 && text_precedes(s.symbol.as_str(), list[at - 1].symbol.as_str())
                invariant
                    at <= list@.len(),
                    before == referred(list@),
                    forall|k: int|
                        at <= k < before.len() ==> crate::text::precedes(
                            s@.symbol,
                            (#[trigger] before[k]).symbol,
                        ),
                decreases at,
            {
                at = at - 1;
            }
            list.insert(at, s);
            proof {
                lemma_placed(before, s@, at as int);
                assert(referred(list@) =~= before.insert(at as int, s@));
            }
        }
    }
    assert(all.take(series@.len() as int) =~= all);
    list
}

/// The symbols of the series that the analysis cannot use.
fn list_excluded(series: &Vec<SymbolSeries>) -> (r: Vec<String>)
    ensures
        crate::text::texts(r@) == excluded(crate::basket::series_views(series@)),
{
    let ghost all = crate::basket::series_views(series@);
    let mut out: Vec<String> = Vec::new();
    assert(all.take(0) =~= Seq::<crate::basket::SeriesView>::empty());
    assert(crate::text::texts(out@) =~= excluded(all.take(0)));
    for i in 0..series.len()
        invariant
            all == crate::basket::series_views(series@),
            crate::text::texts(out@) == excluded(all.take(i as int)),
    {
        assert(all.take(i + 1).drop_last() =~= all.take(i as int));
        assert(all.take(i + 1).last() == series@[i as int]@);
        if !is_usable(&series[i]) {
            let ghost before = crate::text::texts(out@);
            out.push(series[i].symbol.clone());
            assert(crate::text::texts(out@) =~= before.push(series@[i as int]@.symbol));
        }
    }
    assert(all.take(series@.len() as int) =~= all);
    out
}

/// The symbols of a list of series.
fn list_symbols(list: &Vec<&SymbolSeries>) -> (r: Vec<String>)
    ensures
        crate::text::texts(r@) == symbols_of(referred(list@)),
{
    let ghost want = symbols_of(referred(list@));
    let mut out: Vec<String> = Vec::new();
    for i in 0..list.len()
        invariant
            want == symbols_of(referred(list@)),
            crate::text::texts(out@) == want.take(i as int),
    {
        let symbol = list[i].symbol.clone();
        let ghost before = crate::text::texts(out@);
        out.push(symbol);
        assert(crate::text::texts(out@) =~= before.push(want[i as int]));
        assert(crate::text::texts(out@) =~= want.take(i + 1));
    }
    assert(want.take(list@.len() as int) =~= want);
    out
}

/// The daily returns of each series.
fn return_maps<A: Arithmetic>(list: &Vec<&SymbolSeries>) -> (r: Vec<ReturnMap>)
    ensures
        r@.len() == list@.len(),
        forall|i: int|
            0 <= i < r@.len() ==> (#[trigger] r@[i])@.dom()
                == crate::alignment::return_dates(referred(list@)[i].candles),
        crate::number::repeatable::<A>() ==> forall|i: int|
            0 <= i < r@.len() ==> (#[trigger] r@[i])@ == crate::alignment::daily_returns::<A>(
                referred(list@)[i].candles,
            ),
{
    let mut out: Vec<ReturnMap> = Vec::new();
    for i in 0..list.len()
        invariant
            out@.len() == i,
            forall|k: int|
                0 <= k < i ==> (#[trigger] out@[k])@.dom()
                == crate::alignment::return_dates(referred(list@)[k].candles),
            crate::number::repeatable::<A>() ==> forall|k: int|
                0 <= k < i ==> (#[trigger] out@[k])@ == crate::alignment::daily_returns::<A>(
                    referred(list@)[k].candles,
                ),
    {
        out.push(daily_log_returns::<A>(&list[i].candles));
    }
    out
}

/// The values of a map over dates that it has.
fn values_over(map: &ReturnMap, dates: &Vec<String>) -> (r: Vec<Number>)
    ensures
        r@.len() == dates@.len(),
        forall|k: int|
            0 <= k < dates@.len() && map@.dom().contains(dates@[k]@) ==> #[trigger] r@[k]
                == map@[dates@[k]@],
{
    let mut out: Vec<Number> = Vec::new();
    for i in 0..dates.len()
        invariant
            out@.len() == i,
            forall|k: int|
                0 <= k < i && map@.dom().contains(dates@[k]@) ==> #[trigger] out@[k]
                    == map@[dates@[k]@],
    {
        let value = match map.get(&dates[i]) {
            Some(v) => v,
            None => zero(),
        };
        out.push(value);
    }
    out
}

/// The daily returns of each series over the shared dates.
fn returns_matrix<A: Arithmetic>(
    maps: &Vec<ReturnMap>,
    dates: &Vec<String>,
    Ghost(list): Ghost<Seq<crate::basket::SeriesView>>,
) -> (r: Vec<Vec<Number>>)
    requires
        maps@.len() == list.len(),
        forall|i: int|
            0 <= i < maps@.len() ==> (#[trigger] maps@[i])@.dom()
                == crate::alignment::return_dates(list[i].candles),
        crate::number::repeatable::<A>() ==> forall|i: int|
            0 <= i < maps@.len() ==> (#[trigger] maps@[i])@ == crate::alignment::daily_returns::<
                A,
            >(list[i].candles),
        forall|d: Seq<char>|
            crate::text::texts(dates@).contains(d) ==> traded_by_all(list, d),
    ensures
        r@.len() == list.len(),
        forall|k: int| 0 <= k < r@.len() ==> (#[trigger] r@[k])@.len() == dates@.len(),
        crate::number::repeatable::<A>() ==> crate::correlation::rows(r@) == aligned_returns::<A>(
            list,
            crate::text::texts(dates@),
        ),
{
    let ghost want = aligned_returns::<A>(list, crate::text::texts(dates@));
    let mut out: Vec<Vec<Number>> = Vec::new();
    for i in 0..maps.len()
        invariant
            want == aligned_returns::<A>(list, crate::text::texts(dates@)),
            maps@.len() == list.len(),
            forall|k: int|
                0 <= k < maps@.len() ==> (#[trigger] maps@[k])@.dom()
                == crate::alignment::return_dates(list[k].candles),
            crate::number::repeatable::<A>() ==> forall|k: int|
                0 <= k < maps@.len() ==> (#[trigger] maps@[k])@
                    == crate::alignment::daily_returns::<A>(list[k].candles),
            forall|d: Seq<char>|
                crate::text::texts(dates@).contains(d) ==> traded_by_all(list, d),
            out@.len() == i,
            forall|k: int| 0 <= k < out@.len() ==> (#[trigger] out@[k])@.len() == dates@.len(),
            crate::number::repeatable::<A>() ==> crate::correlation::rows(out@) == want.take(
                i as int,
            ),
    {
        assert(maps@[i as int]@.dom() == crate::alignment::return_dates(list[i as int].candles));
        let row = values_over(&maps[i], dates);
        proof {
            assert forall|k: int| 0 <= k < dates@.len() implies maps@[i as int]@.dom().contains(
                #[trigger] dates@[k]@,
            ) by {
                assert(crate::text::texts(dates@)[k] == dates@[k]@);
                assert(crate::text::texts(dates@).contains(dates@[k]@));
                assert(traded_by_all(list, dates@[k]@));
                assert(crate::alignment::return_dates(list[i as int].candles).contains(
                    dates@[k]@,
                ));
            }
            if crate::number::repeatable::<A>() {
                assert(row@ =~= want[i as int]);
            }
        }
        out.push(row);
        assert(crate::number::repeatable::<A>() ==> crate::correlation::rows(out@) =~= want.take(
            i + 1,
        ));
    }
    assert(want.take(list.len() as int) =~= want);
    out
}

/// The volatility of each series as a fraction.
fn list_volatilities<A: Arithmetic>(list: &Vec<&SymbolSeries>) -> (r: Vec<Number>)
    requires
        forall|i: int| 0 <= i < list@.len() ==> usable(#[trigger] referred(list@)[i]),
    ensures
        r@.len() == list@.len(),
        crate::number::repeatable::<A>() ==> r@ == volatilities::<A>(referred(list@)),
{
    let ghost want = volatilities::<A>(referred(list@));
    let mut out: Vec<Number> = Vec::new();
    for i in 0..list.len()
        invariant
            want == volatilities::<A>(referred(list@)),
            forall|k: int| 0 <= k < list@.len() ==> usable(#[trigger] referred(list@)[k]),
            out@.len() == i,
            crate::number::repeatable::<A>() ==> out@ == want.take(i as int),
    {
        assert(usable(referred(list@)[i as int]));
        let volatility = match &list[i].stats {
            Some(stats) => A::divide(stats.annualized_volatility_pct, hundred()),
            None => zero(),
        };
        out.push(volatility);
        assert(crate::number::repeatable::<A>() ==> out@ =~= want.take(i + 1));
    }
    assert(want.take(list@.len() as int) =~= want);
    out
}

/// Computes the risk summary of a basket.
///
/// There is none where fewer than two symbols have usable data, or where their
/// trading calendars do not overlap enough.
pub fn compute_risk_summary<A: Arithmetic>(series: &Vec<SymbolSeries>) -> (r: Option<
    PortfolioRiskSummary,
>)
    ensures
        r is Some <==> analysable(crate::basket::series_views(series@)),
        r matches Some(summary) ==> summarises(
            summary@,
            crate::basket::series_views(series@),
        ),
        crate::number::repeatable::<A>() ==> (match r {
            Some(summary) => Some(summary@),
            None => None,
        }) == risk_summary::<A>(crate::basket::series_views(series@)),
{
    let ghost all = crate::basket::series_views(series@);
    let list = rank_usable(series);
    let excluded_symbols = list_excluded(series);
    if list.len() < 2 {
        return None;
    }
    let ghost chosen = referred(list@);
    let maps = return_maps::<A>(&list);
    let dates = shared_dates(&maps);
    proof {
        let found = crate::text::texts(dates@);
        let views = crate::alignment::map_views(maps@);
        assert forall|d: Seq<char>| #[trigger] found.contains(d) <==> traded_by_all(chosen, d) by {
            if traded_by_all(chosen, d) {
                assert forall|i: int| 0 <= i < views.len() implies (
                #[trigger] views[i]).dom().contains(d) by {
                    assert(maps@[i]@.dom() == views[i].dom());
                    assert(crate::alignment::return_dates(chosen[i].candles).contains(d));
                }
                assert(crate::alignment::shared_by(views, d));
            }
            if crate::alignment::shared_by(views, d) {
                assert forall|i: int| 0 <= i < chosen.len() implies crate::alignment::return_dates(
                    (#[trigger] chosen[i]).candles,
                ).contains(d) by {
                    assert(maps@[i]@.dom() == views[i].dom());
                    assert(views[i].dom().contains(d));
                }
            }
        }
        assert(lists_shared_dates(found, chosen));
        let listed = aligned_dates(chosen);
        assert(lists_shared_dates(listed, chosen));
        crate::alignment::lemma_ascending_unique(found, listed);
    }
    if dates.len() < MIN_ALIGNED_DAYS {
        return None;
    }
    proof {
        lemma_ranked_usable(all);
    }
    let aligned = returns_matrix::<A>(&maps, &dates, Ghost(chosen));
    let matrix = correlation_matrix::<A>(&aligned);
    let n = list.len();
    proof {
        assert forall|k: int| 0 <= k < matrix@.len() implies (#[trigger] matrix@[k])@.len()
            == matrix@.len() by {
            assert(crate::correlation::rows(matrix@)[k].len() == matrix@.len());
        }
    }
    let avg_pairwise_correlation = average_correlation::<A>(&matrix);
    let equal_weight = A::divide(one(), A::from_count(n as u128));
    let vols = list_volatilities::<A>(&list);
    let variance = equal_weight_variance::<A>(equal_weight, &vols, &matrix);
    let floored = if variance.is_positive() {
        variance
    } else {
        zero()
    };
    let portfolio = A::times(A::sqrt(floored), hundred());
    let average = A::times(A::divide(total::<A>(&vols), A::from_count(n as u128)), hundred());
    let diversification_ratio = if portfolio.is_positive() {
        A::divide(average, portfolio)
    } else {
        one()
    };
    Some(
        PortfolioRiskSummary {
            symbols: list_symbols(&list),
            equal_weight,
            avg_pairwise_correlation,
            correlation_matrix: matrix,
            equal_weighted_volatility_pct: portfolio,
            weighted_avg_individual_volatility_pct: average,
            diversification_ratio,
            aligned_observations: dates.len(),
            excluded_symbols,
        },
    )
}

/// Numbers with two digits behind the point.
pub open spec fn fixed2_list<A: Arithmetic>(values: Seq<Number>) -> Seq<Seq<char>> {
    values.map_values(|v: Number| crate::number::fixed2::<A>(v))
}

/// One symbol's row of the matrix in the summary.
pub open spec fn matrix_row<A: Arithmetic>(symbol: Seq<char>, row: Seq<Number>) -> Seq<char> {
    "| "@ + symbol + " | "@ + crate::text::joined(fixed2_list::<A>(row), " | "@) + " |\n"@
}

/// The first rows of the matrix in the summary.
pub open spec fn matrix_rows<A: Arithmetic>(
    symbols: Seq<Seq<char>>,
    matrix: Seq<Seq<Number>>,
    n: int,
) -> Seq<char>
    decreases n,
{
    if n <= 0 {
        Seq::empty()
    } else {
        matrix_rows::<A>(symbols, matrix, n - 1) + matrix_row::<A>(symbols[n - 1], matrix[n - 1])
    }
}

impl SummaryView {
    /// The part of the markdown in front of the matrix rows.
    pub open spec fn markdown_head<A: Arithmetic>(self) -> Seq<char> {
        "**Symbols** ("@ + crate::text::decimal(self.aligned_observations)
            + " aligned trading days): "@ + crate::text::joined(self.symbols, ", "@) + "\n\n"@
            + "- Equal-weighted portfolio annualized volatility: "@ + crate::number::fixed2::<A>(
            self.equal_weighted_volatility_pct,
        ) + "%\n- Weighted avg. of individual volatilities (no diversification): "@
            + crate::number::fixed2::<A>(self.weighted_avg_individual_volatility_pct)
            + "%\n- Diversification ratio: "@ + crate::number::fixed2::<A>(
            self.diversification_ratio,
        ) + " (>1 means diversification is reducing risk)\n- Average pairwise correlation: "@
            + crate::number::fixed2::<A>(self.avg_pairwise_correlation) + "\n\n"@
            + "Correlation matrix (daily log returns):\n\n"@ + "| | "@ + crate::text::joined(
            self.symbols,
            " | "@,
        ) + " |\n"@ + "|---|"@ + crate::text::repeated("---|"@, self.symbols.len()) + "\n"@
    }

    /// The part of the markdown behind the matrix rows.
    pub open spec fn markdown_tail(self) -> Seq<char> {
        if self.excluded_symbols.len() == 0 {
            Seq::empty()
        } else {
            "\n_Excluded from correlation analysis (insufficient/errored data): "@
                + crate::text::joined(self.excluded_symbols, ", "@) + "_\n"@
        }
    }

    /// The summary as markdown.
    pub open spec fn markdown<A: Arithmetic>(self) -> Seq<char> {
        self.markdown_head::<A>() + matrix_rows::<A>(
            self.symbols,
            self.correlation_matrix,
            self.symbols.len() as int,
        ) + self.markdown_tail()
    }
}

fn fixed2_texts<A: Arithmetic>(values: &Vec<Number>) -> (r: Vec<String>)
    ensures
        crate::number::repeatable::<A>() ==> crate::text::texts(r@) == fixed2_list::<A>(values@),
{
    let ghost want = fixed2_list::<A>(values@);
    let mut out: Vec<String> = Vec::new();
    for i in 0..values.len()
        invariant
            want == fixed2_list::<A>(values@),
            crate::number::repeatable::<A>() ==> crate::text::texts(out@) == want.take(i as int),
    {
        let ghost before = crate::text::texts(out@);
        let text = A::fixed2(values[i]);
        out.push(text);
        assert(crate::text::texts(out@) =~= before.push(text@));
        assert(want.take(i + 1) =~= want.take(i as int).push(want[i as int]));
    }
    assert(want.take(values@.len() as int) =~= want);
    out
}

fn matrix_row_text<A: Arithmetic>(symbol: &String, row: &Vec<Number>) -> (r: String)
    ensures
        crate::number::repeatable::<A>() ==> r@ == matrix_row::<A>(symbol@, row@),
{
    let cells = fixed2_texts::<A>(row);
    let mut out = "| ".to_owned();
    out.append(symbol.as_str());
    out.append(" | ");
    out.append(join_texts(&cells, " | ").as_str());
    out.append(" |\n");
    out
}

impl PortfolioRiskSummary {
    fn head_text<A: Arithmetic>(&self) -> (r: String)
        ensures
            crate::number::repeatable::<A>() ==> r@ == self@.markdown_head::<A>(),
    {
        let mut out = "**Symbols** (".to_owned();
        out.append(count_text(self.aligned_observations).as_str());
        out.append(" aligned trading days): ");
        out.append(join_texts(&self.symbols, ", ").as_str());
        out.append("\n\n");
        out.append("- Equal-weighted portfolio annualized volatility: ");
        out.append(A::fixed2(self.equal_weighted_volatility_pct).as_str());
        out.append("%\n- Weighted avg. of individual volatilities (no diversification): ");
        out.append(A::fixed2(self.weighted_avg_individual_volatility_pct).as_str());
        out.append("%\n- Diversification ratio: ");
        out.append(A::fixed2(self.diversification_ratio).as_str());
        out.append(" (>1 means diversification is reducing risk)\n- Average pairwise correlation: ");
        out.append(A::fixed2(self.avg_pairwise_correlation).as_str());
        out.append("\n\n");
        out.append("Correlation matrix (daily log returns):\n\n");
        out.append("| | ");
        out.append(join_texts(&self.symbols, " | ").as_str());
        out.append(" |\n");
        out.append("|---|");
        out.append(repeat_text("---|", self.symbols.len()).as_str());
        out.append("\n");
        out
    }

    /// Renders the summary as a compact markdown block.
    pub fn to_markdown<A: Arithmetic>(&self) -> (r: String)
        requires
            self.symbols@.len() <= self.correlation_matrix@.len(),
        ensures
            crate::number::repeatable::<A>() ==> r@ == self@.markdown::<A>(),
    {
        let mut out = self.head_text::<A>();
        let ghost head = out@;
        let ghost view = self@;
        assert(head + Seq::<char>::empty() =~= head);
        for i in 0..self.symbols.len()
            invariant
                view == self@,
                self.symbols@.len() <= self.correlation_matrix@.len(),
                crate::number::repeatable::<A>() ==> out@ == head + matrix_rows::<A>(
                    view.symbols,
                    view.correlation_matrix,
                    i as int,
                ),
        {
            let row = matrix_row_text::<A>(&self.symbols[i], &self.correlation_matrix[i]);
            assert(crate::number::repeatable::<A>() ==> row@ == matrix_row::<A>(
                view.symbols[i as int],
                view.correlation_matrix[i as int],
            ));
            out.append(row.as_str());
            assert(crate::number::repeatable::<A>() ==> out@ =~= head + (matrix_rows::<A>(
                view.symbols,
                view.correlation_matrix,
                i as int,
            ) + row@));
        }
        let ghost body = out@;
        if self.excluded_symbols.len() > 0 {
            let mut tail =
                "\n_Excluded from correlation analysis (insufficient/errored data): ".to_owned();
            tail.append(join_texts(&self.excluded_symbols, ", ").as_str());
            tail.append("_\n");
            out.append(tail.as_str());
        } else {
            assert(body + Seq::<char>::empty() =~= body);
        }
        out
    }
}

/// The shared dates of series can be listed, and are: in ascending order, and
/// exactly those on which all of the series have a return.
pub proof fn law_aligned_dates_are_the_shared_ones(list: Seq<crate::basket::SeriesView>)
    requires
        list.len() > 0,
    ensures
        lists_shared_dates(aligned_dates(list), list),
{
    let first = crate::alignment::return_dates(list[0].candles);
    crate::alignment::lemma_return_dates_finite(list[0].candles);
    let shared = first.filter(|d: Seq<char>| traded_by_all(list, d));
    let dates = crate::alignment::lemma_listable(shared);
    assert forall|d: Seq<char>| #[trigger] dates.contains(d) <==> traded_by_all(list, d) by {
        if traded_by_all(list, d) {
            assert(crate::alignment::return_dates(list[0].candles).contains(d));
        }
    }
    assert(lists_shared_dates(dates, list));
}

/// Members in the order of their symbols.
pub open spec fn in_symbol_order(list: Seq<crate::basket::SeriesView>) -> bool {
    forall|i: int, j: int|
        0 <= i < j < list.len() ==> !(#[trigger] crate::text::precedes(
            list[j].symbol,
            list[i].symbol,
        ))
}

proof fn lemma_placed_members(
    list: Seq<crate::basket::SeriesView>,
    s: crate::basket::SeriesView,
)
    ensures
        placed(list, s).len() == list.len() + 1,
        placed(list, s).to_multiset() == list.to_multiset().insert(s),
        forall|x: crate::basket::SeriesView| #[trigger]
            placed(list, s).contains(x) <==> list.contains(x) || x == s,
    decreases list.len(),
{
    broadcast use vstd::seq_lib::group_to_multiset_ensures;

    if !(list.len() == 0 || !crate::text::precedes(s.symbol, list.last().symbol)) {
        lemma_placed_members(list.drop_last(), s);
        let rest = placed(list.drop_last(), s);
        assert(list =~= list.drop_last().push(list.last()));
        assert(placed(list, s).to_multiset() =~= rest.to_multiset().insert(list.last()));
        assert(list.to_multiset() =~= list.drop_last().to_multiset().insert(list.last()));
        assert(placed(list, s).to_multiset() =~= list.to_multiset().insert(s));
    }
    assert forall|x: crate::basket::SeriesView| #[trigger]
        placed(list, s).contains(x) <==> list.contains(x) || x == s by {
        assert(placed(list, s).contains(x) <==> placed(list, s).to_multiset().count(x) > 0);
        assert(list.contains(x) <==> list.to_multiset().count(x) > 0);
    }
}

proof fn lemma_placed_in_order(
    list: Seq<crate::basket::SeriesView>,
    s: crate::basket::SeriesView,
)
    requires
        in_symbol_order(list),
    ensures
        in_symbol_order(placed(list, s)),
    decreases list.len(),
{
    let now = placed(list, s);
    if list.len() == 0 || !crate::text::precedes(s.symbol, list.last().symbol) {
        assert forall|i: int, j: int| 0 <= i < j < now.len() implies !(
        #[trigger] crate::text::precedes(now[j].symbol, now[i].symbol)) by {
            let last = list.len() - 1;
            if j < list.len() {
                assert(!crate::text::precedes(list[j].symbol, list[i].symbol));
            } else if crate::text::precedes(s.symbol, list[i].symbol) && i < last {
                assert(!crate::text::precedes(list[last].symbol, list[i].symbol));
                crate::text::lemma_precedes_total(list[i].symbol, list[last].symbol);
                if list[i].symbol != list[last].symbol {
                    crate::text::lemma_precedes_transitive(
                        s.symbol,
                        list[i].symbol,
                        list[last].symbol,
                    );
                }
            }
        }
    } else {
        let front = list.drop_last();
        assert(in_symbol_order(front)) by {
            assert forall|i: int, j: int| 0 <= i < j < front.len() implies !(
            #[trigger] crate::text::precedes(front[j].symbol, front[i].symbol)) by {
                assert(!crate::text::precedes(list[j].symbol, list[i].symbol));
            }
        }
        lemma_placed_in_order(front, s);
        lemma_placed_members(front, s);
        let rest = placed(front, s);
        assert forall|i: int, j: int| 0 <= i < j < now.len() implies !(
        #[trigger] crate::text::precedes(now[j].symbol, now[i].symbol)) by {
            if j < rest.len() {
                assert(!crate::text::precedes(rest[j].symbol, rest[i].symbol));
            } else {
                assert(rest.contains(rest[i]));
                if rest[i] == s {
                    if crate::text::precedes(list.last().symbol, s.symbol) {
                        crate::text::lemma_precedes_transitive(
                            s.symbol,
                            list.last().symbol,
                            s.symbol,
                        );
                        crate::text::lemma_precedes_irreflexive(s.symbol);
                    }
                } else {
                    assert(front.contains(rest[i]));
                    let k = choose|k: int| 0 <= k < front.len() && front[k] == rest[i];
                    assert(!crate::text::precedes(list[list.len() - 1].symbol, list[k].symbol));
                }
            }
        }
    }
}

/// The analysis works on the usable series of a basket, all of them and no
/// others, in the order of their symbols; every other series is excluded.
pub proof fn law_ranking_sorts_the_usable_series(series: Seq<crate::basket::SeriesView>)
    ensures
        in_symbol_order(ranked(series)),
        ranked(series).to_multiset() == series.filter(
            |s: crate::basket::SeriesView| usable(s),
        ).to_multiset(),
        excluded(series) == symbols_of(
            series.filter(|s: crate::basket::SeriesView| !usable(s)),
        ),
        ranked(series).len() + excluded(series).len() == series.len(),
    decreases series.len(),
{
    broadcast use vstd::seq_lib::group_to_multiset_ensures;

    let kept = series.filter(|s: crate::basket::SeriesView| usable(s));
    let left_out = series.filter(|s: crate::basket::SeriesView| !usable(s));
    reveal(Seq::filter);
    if series.len() > 0 {
        law_ranking_sorts_the_usable_series(series.drop_last());
        if usable(series.last()) {
            lemma_placed_in_order(ranked(series.drop_last()), series.last());
            lemma_placed_members(ranked(series.drop_last()), series.last());
        }
    }
    assert(excluded(series) =~= symbols_of(left_out));
    assert(ranked(series).to_multiset() =~= kept.to_multiset());
}

/// A series that the analysis cannot use, wherever it stands in a basket, adds
/// its symbol to the excluded ones and changes nothing else.
pub proof fn law_unusable_series_changes_nothing_else<A: Arithmetic>(
    series: Seq<crate::basket::SeriesView>,
    bad: crate::basket::SeriesView,
    at: int,
)
    requires
        0 <= at <= series.len(),
        !usable(bad),
    ensures
        analysable(series.insert(at, bad)) == analysable(series),
        excluded(series.insert(at, bad)) == excluded(series.take(at)).push(bad.symbol) + excluded(
            series.skip(at),
        ),
        excluded(series) == excluded(series.take(at)) + excluded(series.skip(at)),
        risk_summary::<A>(series) matches Some(summary) ==> risk_summary::<A>(
            series.insert(at, bad),
        ) == Some(SummaryView { excluded_symbols: excluded(series.insert(at, bad)), ..summary }),
{
    lemma_ranked_without(series, bad, at);
}

proof fn lemma_ranked_without(
    series: Seq<crate::basket::SeriesView>,
    bad: crate::basket::SeriesView,
    at: int,
)
    requires
        0 <= at <= series.len(),
        !usable(bad),
    ensures
        ranked(series.insert(at, bad)) == ranked(series),
        excluded(series.insert(at, bad)) == excluded(series.take(at)).push(bad.symbol) + excluded(
            series.skip(at),
        ),
        excluded(series) == excluded(series.take(at)) + excluded(series.skip(at)),
    decreases series.len() - at,
{
    let more = series.insert(at, bad);
    if at == series.len() {
        assert(more.drop_last() =~= series);
        assert(series.take(at) =~= series);
        assert(series.skip(at) =~= Seq::<crate::basket::SeriesView>::empty());
        assert(excluded(series).push(bad.symbol) + Seq::<Seq<char>>::empty() =~= excluded(
            series,
        ).push(bad.symbol));
        assert(excluded(series) + Seq::<Seq<char>>::empty() =~= excluded(series));
    } else {
        let front = series.drop_last();
        assert(more.drop_last() =~= front.insert(at, bad));
        assert(more.last() == series.last());
        lemma_ranked_without(front, bad, at);
        assert(front.take(at) =~= series.take(at));
        assert(series.skip(at).drop_last() =~= front.skip(at));
        assert(series.skip(at).last() == series.last());
        assert(excluded(more) =~= excluded(series.take(at)).push(bad.symbol) + excluded(
            series.skip(at),
        ));
        assert(excluded(series) =~= excluded(series.take(at)) + excluded(series.skip(at)));
    }
}

proof fn lemma_ranked_members(series: Seq<crate::basket::SeriesView>)
    ensures
        forall|x: crate::basket::SeriesView| #[trigger]
            ranked(series).contains(x) <==> series.contains(x) && usable(x),
    decreases series.len(),
{
    if series.len() > 0 {
        let front = series.drop_last();
        let last = series.last();
        lemma_ranked_members(front);
        lemma_placed_members(ranked(front), last);
        assert forall|x: crate::basket::SeriesView| #[trigger]
            ranked(series).contains(x) <==> series.contains(x) && usable(x) by {
            if front.contains(x) {
                let i = choose|i: int| 0 <= i < front.len() && front[i] == x;
                assert(series[i] == x);
            }
            if series.contains(x) && x != last {
                let i = choose|i: int| 0 <= i < series.len() && series[i] == x;
                assert(front[i] == x);
            }
            assert(series[series.len() - 1] == last);
            assert(ranked(front).contains(x) <==> front.contains(x) && usable(x));
        }
    }
}

/// The members of a ranking have different symbols where those of the basket do.
proof fn lemma_ranked_ascending(series: Seq<crate::basket::SeriesView>)
    requires
        symbols_of(series).no_duplicates(),
    ensures
        crate::alignment::ascending(symbols_of(ranked(series))),
    decreases series.len(),
{
    law_ranking_sorts_the_usable_series(series);
    if series.len() > 0 {
        let front = series.drop_last();
        let last = series.last();
        assert forall|i: int, j: int|
            0 <= i < front.len() && 0 <= j < front.len() && i != j implies symbols_of(front)[i]
            != symbols_of(front)[j] by {
            assert(symbols_of(series)[i] != symbols_of(series)[j]);
        }
        lemma_ranked_ascending(front);
        lemma_ranked_members(front);
        if usable(last) {
            let list = ranked(front);
            assert forall|k: int| 0 <= k < list.len() implies (#[trigger] list[k]).symbol
                != last.symbol by {
                assert(list.contains(list[k]));
                let i = choose|i: int| 0 <= i < front.len() && front[i] == list[k];
                assert(symbols_of(series)[i] != symbols_of(series)[series.len() - 1]);
            }
            lemma_placed_ascending(list, last);
        }
    }
}

proof fn lemma_placed_ascending(
    list: Seq<crate::basket::SeriesView>,
    s: crate::basket::SeriesView,
)
    requires
        crate::alignment::ascending(symbols_of(list)),
        forall|k: int| 0 <= k < list.len() ==> (#[trigger] list[k]).symbol != s.symbol,
    ensures
        crate::alignment::ascending(symbols_of(placed(list, s))),
    decreases list.len(),
{
    let names = symbols_of(list);
    let now = symbols_of(placed(list, s));
    let last = list.len() - 1;
    if list.len() == 0 || !crate::text::precedes(s.symbol, list.last().symbol) {
        assert forall|i: int, j: int| 0 <= i < j < now.len() implies #[trigger]
            crate::text::precedes(now[i], now[j]) by {
            if j < list.len() {
                assert(crate::text::precedes(names[i], names[j]));
            } else {
                assert(list[last].symbol != s.symbol);
                crate::text::lemma_precedes_total(names[last], s.symbol);
                if i < last {
                    assert(crate::text::precedes(names[i], names[last]));
                    crate::text::lemma_precedes_transitive(names[i], names[last], s.symbol);
                }
            }
        }
    } else {
        let front = list.drop_last();
        assert forall|i: int, j: int| 0 <= i < j < front.len() implies #[trigger]
            crate::text::precedes(symbols_of(front)[i], symbols_of(front)[j]) by {
            assert(crate::text::precedes(names[i], names[j]));
        }
        assert forall|k: int| 0 <= k < front.len() implies (#[trigger] front[k]).symbol
            != s.symbol by {
            assert(list[k].symbol != s.symbol);
        }
        lemma_placed_ascending(front, s);
        lemma_placed_members(front, s);
        let rest = placed(front, s);
        assert forall|i: int, j: int| 0 <= i < j < now.len() implies #[trigger]
            crate::text::precedes(now[i], now[j]) by {
            if j < rest.len() {
                assert(crate::text::precedes(symbols_of(rest)[i], symbols_of(rest)[j]));
            } else {
                assert(rest.contains(rest[i]));
                if rest[i] != s {
                    assert(front.contains(rest[i]));
                    let k = choose|k: int| 0 <= k < front.len() && front[k] == rest[i];
                    assert(crate::text::precedes(names[k], names[last]));
                }
            }
        }
    }
}

/// Series of different symbols are ranked alike in whatever order a basket
/// lists them.
proof fn lemma_ranking_unique(
    a: Seq<crate::basket::SeriesView>,
    b: Seq<crate::basket::SeriesView>,
)
    requires
        symbols_of(a).no_duplicates(),
        symbols_of(b).no_duplicates(),
        forall|x: crate::basket::SeriesView| a.contains(x) <==> b.contains(x),
    ensures
        ranked(a) == ranked(b),
{
    let first = ranked(a);
    let second = ranked(b);
    lemma_ranked_ascending(a);
    lemma_ranked_ascending(b);
    lemma_ranked_members(a);
    lemma_ranked_members(b);
    assert forall|x: crate::basket::SeriesView| #[trigger]
        first.contains(x) <==> second.contains(x) by {
        assert(a.contains(x) <==> b.contains(x));
    }
    assert forall|d: Seq<char>| symbols_of(first).contains(d) <==> symbols_of(second).contains(
        d,
    ) by {
        if symbols_of(first).contains(d) {
            let i = choose|i: int| 0 <= i < first.len() && symbols_of(first)[i] == d;
            assert(first.contains(first[i]));
            let j = choose|j: int| 0 <= j < second.len() && second[j] == first[i];
            assert(symbols_of(second)[j] == d);
        }
        if symbols_of(second).contains(d) {
            let i = choose|i: int| 0 <= i < second.len() && symbols_of(second)[i] == d;
            assert(second.contains(second[i]));
            assert(first.contains(second[i]));
            let j = choose|j: int| 0 <= j < first.len() && first[j] == second[i];
            assert(symbols_of(first)[j] == d);
        }
    }
    crate::alignment::lemma_ascending_unique(symbols_of(first), symbols_of(second));
    assert forall|i: int| 0 <= i < first.len() implies first[i] == second[i] by {
        assert(first.contains(first[i]));
        let j = choose|j: int| 0 <= j < second.len() && second[j] == first[i];
        let names = symbols_of(second);
        assert(names[j] == symbols_of(first)[i]);
        assert(names[i] == names[j]);
        crate::text::lemma_precedes_irreflexive(names[i]);
        if i < j {
            assert(crate::text::precedes(names[i], names[j]));
        } else if j < i {
            assert(crate::text::precedes(names[j], names[i]));
        }
    }
    assert(symbols_of(first).len() == symbols_of(second).len());
    assert(first =~= second);
}

/// A series taken out of a basket leaves the other excluded symbols.
proof fn lemma_excluded_without(series: Seq<crate::basket::SeriesView>, at: int)
    requires
        0 <= at < series.len(),
    ensures
        excluded(series).to_multiset() == (if usable(series[at]) {
            excluded(series.remove(at)).to_multiset()
        } else {
            excluded(series.remove(at)).to_multiset().insert(series[at].symbol)
        }),
    decreases series.len(),
{
    broadcast use vstd::seq_lib::group_to_multiset_ensures;

    let front = series.drop_last();
    let rest = series.remove(at);
    if at == series.len() - 1 {
        assert(rest =~= front);
    } else {
        lemma_excluded_without(front, at);
        assert(rest.drop_last() =~= front.remove(at));
        assert(rest.last() == series.last());
    }
    assert(excluded(series).to_multiset() =~= (if usable(series[at]) {
        excluded(rest).to_multiset()
    } else {
        excluded(rest).to_multiset().insert(series[at].symbol)
    }));
}

/// Baskets of the same series exclude the same symbols.
proof fn lemma_excluded_alike(
    a: Seq<crate::basket::SeriesView>,
    b: Seq<crate::basket::SeriesView>,
)
    requires
        a.to_multiset() == b.to_multiset(),
    ensures
        excluded(a).to_multiset() == excluded(b).to_multiset(),
    decreases a.len(),
{
    broadcast use vstd::seq_lib::group_to_multiset_ensures;

    assert(a.len() == a.to_multiset().len());
    assert(b.len() == b.to_multiset().len());
    if a.len() > 0 {
        let last = a.len() - 1;
        assert(a.contains(a[last]));
        assert(a.to_multiset().count(a[last]) > 0);
        assert(b.contains(a[last]));
        let at = choose|i: int| 0 <= i < b.len() && b[i] == a[last];
        assert(a.remove(last).to_multiset() =~= b.remove(at).to_multiset());
        lemma_excluded_without(a, last);
        lemma_excluded_without(b, at);
        lemma_excluded_alike(a.remove(last), b.remove(at));
    } else {
        assert(a =~= b);
    }
}

/// The order in which a basket lists its symbols, all different, does not
/// change the summary, but for the order of the excluded ones.
pub proof fn law_order_of_the_basket_does_not_matter<A: Arithmetic>(
    a: Seq<crate::basket::SeriesView>,
    b: Seq<crate::basket::SeriesView>,
)
    requires
        symbols_of(a).no_duplicates(),
        a.to_multiset() == b.to_multiset(),
    ensures
        analysable(a) == analysable(b),
        risk_summary::<A>(a) matches Some(summary) ==> risk_summary::<A>(b) == Some(
            SummaryView { excluded_symbols: excluded(b), ..summary },
        ),
        excluded(a).to_multiset() == excluded(b).to_multiset(),
{
    broadcast use vstd::seq_lib::group_to_multiset_ensures;

    assert forall|x: crate::basket::SeriesView| a.contains(x) <==> b.contains(x) by {
        assert(a.contains(x) <==> a.to_multiset().count(x) > 0);
        assert(b.contains(x) <==> b.to_multiset().count(x) > 0);
    }
    assert(a.no_duplicates()) by {
        assert forall|i: int, j: int| 0 <= i < a.len() && 0 <= j < a.len() && i != j implies a[i]
            != a[j] by {
            assert(symbols_of(a)[i] != symbols_of(a)[j]);
        }
    }
    a.lemma_multiset_has_no_duplicates();
    b.lemma_multiset_has_no_duplicates_conv();
    assert forall|i: int, j: int| 0 <= i < b.len() && 0 <= j < b.len() && i != j implies symbols_of(
        b,
    )[i] != symbols_of(b)[j] by {
        assert(b.contains(b[i]));
        assert(b.contains(b[j]));
        let k = choose|k: int| 0 <= k < a.len() && a[k] == b[i];
        let l = choose|l: int| 0 <= l < a.len() && a[l] == b[j];
        assert(symbols_of(a)[k] == symbols_of(b)[i]);
        assert(symbols_of(a)[l] == symbols_of(b)[j]);
        assert(b[i] != b[j]);
    }
    lemma_ranking_unique(a, b);
    lemma_excluded_alike(a, b);
}

/// Two series that differ at most in the figures of their statistics.
pub open spec fn alike(a: crate::basket::SeriesView, b: crate::basket::SeriesView) -> bool {
    &&& a.symbol == b.symbol
    &&& a.candles == b.candles
    &&& a.error == b.error
    &&& a.stats is Some <==> b.stats is Some
}

/// Two lists of series that differ at most in the figures of their statistics.
pub open spec fn all_alike(
    a: Seq<crate::basket::SeriesView>,
    b: Seq<crate::basket::SeriesView>,
) -> bool {
    a.len() == b.len() && forall|i: int| 0 <= i < a.len() ==> alike(#[trigger] a[i], b[i])
}

proof fn lemma_placed_alike(
    list_a: Seq<crate::basket::SeriesView>,
    a: crate::basket::SeriesView,
    list_b: Seq<crate::basket::SeriesView>,
    b: crate::basket::SeriesView,
)
    requires
        all_alike(list_a, list_b),
        alike(a, b),
    ensures
        all_alike(placed(list_a, a), placed(list_b, b)),
    decreases list_a.len(),
{
    if list_a.len() > 0 {
        assert(alike(list_a[list_a.len() - 1], list_b[list_b.len() - 1]));
        let front_a = list_a.drop_last();
        let front_b = list_b.drop_last();
        assert forall|i: int| 0 <= i < front_a.len() implies alike(
            #[trigger] front_a[i],
            front_b[i],
        ) by {
            assert(alike(list_a[i], list_b[i]));
        }
        lemma_placed_alike(front_a, a, front_b, b);
        let now_a = placed(list_a, a);
        let now_b = placed(list_b, b);
        assert forall|i: int| 0 <= i < now_a.len() implies alike(#[trigger] now_a[i], now_b[i]) by {
            if crate::text::precedes(a.symbol, list_a.last().symbol) {
                if i < placed(front_a, a).len() {
                    assert(alike(placed(front_a, a)[i], placed(front_b, b)[i]));
                }
            } else if i < list_a.len() {
                assert(alike(list_a[i], list_b[i]));
            }
        }
    }
}

proof fn lemma_ranked_alike(
    a: Seq<crate::basket::SeriesView>,
    b: Seq<crate::basket::SeriesView>,
)
    requires
        all_alike(a, b),
    ensures
        all_alike(ranked(a), ranked(b)),
    decreases a.len(),
{
    if a.len() > 0 {
        assert(alike(a[a.len() - 1], b[b.len() - 1]));
        let front_a = a.drop_last();
        let front_b = b.drop_last();
        assert forall|i: int| 0 <= i < front_a.len() implies alike(
            #[trigger] front_a[i],
            front_b[i],
        ) by {
            assert(alike(a[i], b[i]));
        }
        lemma_ranked_alike(front_a, front_b);
        if usable(a.last()) {
            lemma_placed_alike(ranked(front_a), a.last(), ranked(front_b), b.last());
        }
    }
}

/// Whether there is a summary does not depend on the figures that were computed,
/// and neither do the dates it rests on.
pub proof fn law_analysability_does_not_depend_on_figures(
    a: Seq<crate::basket::SeriesView>,
    b: Seq<crate::basket::SeriesView>,
)
    requires
        all_alike(a, b),
    ensures
        analysable(a) == analysable(b),
        ranked(a).len() > 0 ==> aligned_dates(ranked(a)) == aligned_dates(ranked(b)),
{
    lemma_ranked_alike(a, b);
    let first = ranked(a);
    let second = ranked(b);
    if first.len() > 0 {
        law_aligned_dates_are_the_shared_ones(first);
        law_aligned_dates_are_the_shared_ones(second);
        assert forall|d: Seq<char>| aligned_dates(first).contains(d) <==> aligned_dates(
            second,
        ).contains(d) by {
            if traded_by_all(first, d) {
                assert forall|i: int|
                    0 <= i < second.len() implies crate::alignment::return_dates(
                    (#[trigger] second[i]).candles,
                ).contains(d) by {
                    assert(alike(first[i], second[i]));
                }
            }
            if traded_by_all(second, d) {
                assert forall|i: int| 0 <= i < first.len() implies crate::alignment::return_dates(
                    (#[trigger] first[i]).candles,
                ).contains(d) by {
                    assert(alike(first[i], second[i]));
                }
            }
        }
        crate::alignment::lemma_ascending_unique(aligned_dates(first), aligned_dates(second));
    }
}

} // verus!
