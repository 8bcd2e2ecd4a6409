//! Statistics, correlations and portfolio risk.

use vstd::prelude::*;
use crate::number::Arithmetic;
use crate::number::Number;
use crate::number::hundred;
use crate::number::one;
use crate::number::trading_days;
use crate::number::zero;

verus! {

pub(crate) proof fn lemma_sum_fold<A: Arithmetic>(
    values: Seq<Number>,
    onto: spec_fn(Number, Number) -> Number,
)
    requires
        forall|s: Number, x: Number| #[trigger] onto(s, x) == crate::number::plus::<A>(s, x),
    ensures
        crate::number::sum::<A>(values) == values.fold_left(zero(), onto),
    decreases values.len(),
{
    if values.len() > 0 {
        lemma_sum_fold::<A>(values.drop_last(), onto);
    }
}

/// Where every operation of `A` has one result, the named results are what the
/// operations give.
pub proof fn law_named_results_are_those_of_the_host<A: Arithmetic>()
    requires
        crate::number::repeatable::<A>(),
    ensures
        forall|a: Number, b: Number, r: Number| #[trigger]
            call_ensures(A::plus, (a, b), r) ==> r == crate::number::plus::<A>(a, b),
        forall|a: Number, b: Number, r: Number| #[trigger]
            call_ensures(A::minus, (a, b), r) ==> r == crate::number::minus::<A>(a, b),
        forall|a: Number, b: Number, r: Number| #[trigger]
            call_ensures(A::times, (a, b), r) ==> r == crate::number::times::<A>(a, b),
        forall|a: Number, b: Number, r: Number| #[trigger]
            call_ensures(A::divide, (a, b), r) ==> r == crate::number::divide::<A>(a, b),
        forall|a: Number, r: Number| #[trigger]
            call_ensures(A::ln, (a,), r) ==> r == crate::number::ln::<A>(a),
        forall|a: Number, r: Number| #[trigger]
            call_ensures(A::sqrt, (a,), r) ==> r == crate::number::sqrt::<A>(a),
        forall|a: Number, r: Number| #[trigger]
            call_ensures(A::square, (a,), r) ==> r == crate::number::square::<A>(a),
        forall|n: u128, r: Number| #[trigger]
            call_ensures(A::from_count, (n,), r) ==> r == crate::number::from_count::<A>(n as nat),
        forall|a: Number, r: String| #[trigger]
            call_ensures(A::fixed2, (a,), r) ==> r@ == crate::number::fixed2::<A>(a),
        forall|s: &str, r: Option<crate::number::Single>| #[trigger]
            call_ensures(A::parse_single, (s,), r) ==> r == crate::number::parse_single::<A>(s@),
{
}

/// A host whose operations never have two results is one whose results are
/// named.
pub proof fn law_hosts_with_single_results_are_repeatable<A: Arithmetic>()
    requires
        forall|a: Number, b: Number, r: Number, s: Number| #[trigger]
            call_ensures(A::plus, (a, b), r) && #[trigger] call_ensures(A::plus, (a, b), s) ==> r
                == s,
        forall|a: Number, b: Number, r: Number, s: Number| #[trigger]
            call_ensures(A::minus, (a, b), r) && #[trigger] call_ensures(A::minus, (a, b), s) ==> r
                == s,
        forall|a: Number, b: Number, r: Number, s: Number| #[trigger]
            call_ensures(A::times, (a, b), r) && #[trigger] call_ensures(A::times, (a, b), s) ==> r
                == s,
        forall|a: Number, b: Number, r: Number, s: Number| #[trigger]
            call_ensures(A::divide, (a, b), r) && #[trigger] call_ensures(A::divide, (a, b), s)
                ==> r == s,
        forall|a: Number, r: Number, s: Number| #[trigger]
            call_ensures(A::ln, (a,), r) && #[trigger] call_ensures(A::ln, (a,), s) ==> r == s,
        forall|a: Number, r: Number, s: Number| #[trigger]
            call_ensures(A::sqrt, (a,), r) && #[trigger] call_ensures(A::sqrt, (a,), s) ==> r == s,
        forall|a: Number, r: Number, s: Number| #[trigger]
            call_ensures(A::square, (a,), r) && #[trigger] call_ensures(A::square, (a,), s) ==> r
                == s,
        forall|n: u128, r: Number, s: Number| #[trigger]
            call_ensures(A::from_count, (n,), r) && #[trigger] call_ensures(A::from_count, (n,), s)
                ==> r == s,
        forall|a: Number, r: String, s: String| #[trigger]
            call_ensures(A::fixed2, (a,), r) && #[trigger] call_ensures(A::fixed2, (a,), s) ==> r@
                == s@,
        forall|
            x: &str,
            y: &str,
            r: Option<crate::number::Single>,
            s: Option<crate::number::Single>,
        |
            x@ == y@ && #[trigger] call_ensures(A::parse_single, (x,), r) && #[trigger]
            call_ensures(A::parse_single, (y,), s) ==> r == s,
    ensures
        crate::number::repeatable::<A>(),
{
    assert forall|x: &str, r: Option<crate::number::Single>| #[trigger]
        call_ensures(A::parse_single, (x,), r) implies r == crate::number::parse_single::<A>(
        x@,
    ) by {
        assert(crate::number::may_read::<A>(x@, r));
        assert(crate::number::may_read::<A>(x@, crate::number::parse_single::<A>(x@)));
    }
}

/// Numbers compare by their patterns: no pattern beyond infinity compares, a
/// pattern with the sign bit lies below one without unless both are zeros, and
/// larger patterns are larger numbers above zero and smaller ones below it.
pub proof fn law_numbers_compare_by_their_patterns(x: Number, y: Number)
    ensures
        x.spec_is_nan() <==> x.bits % 0x8000_0000_0000_0000 > 0x7FF0_0000_0000_0000,
        x.spec_is_nan() || y.spec_is_nan() ==> !x.below(y) && !x.at_most(y) && !x.level_with(y),
        x.positive() <==> 0 < x.bits <= 0x7FF0_0000_0000_0000,
        x.level_with(y) <==> x.at_most(y) && y.at_most(x),
        x.below(y) <==> x.at_most(y) && !y.at_most(x),
        !x.spec_is_nan() && !y.spec_is_nan() ==> {
            let negative_x = x.bits >= 0x8000_0000_0000_0000;
            let negative_y = y.bits >= 0x8000_0000_0000_0000;
            &&& !negative_x && !negative_y ==> (x.below(y) <==> x.bits < y.bits)
            &&& negative_x && negative_y ==> (x.below(y) <==> y.bits < x.bits)
            &&& negative_x && !negative_y ==> x.at_most(y)
            &&& negative_x && !negative_y ==> (x.level_with(y) <==> x.bits
                == 0x8000_0000_0000_0000 && y.bits == 0)
        },
{
}

/// The numbers from 0 to 2 are the patterns up to that of 2, and minus zero.
pub proof fn law_temperatures_reach_from_zero_to_two(x: crate::number::Single)
    ensures
        x.from_zero_to_two() <==> (0 <= x.bits <= 0x4000_0000 || x.bits == 0x8000_0000),
{
}

proof fn lemma_gains<A: Arithmetic>(
    prices: Seq<Number>,
    pairs: Seq<(Number, Number)>,
    kept: spec_fn((Number, Number)) -> bool,
    gain: spec_fn((Number, Number)) -> Number,
)
    requires
        prices.len() >= 1,
        pairs.len() == prices.len() - 1,
        forall|i: int|
            0 <= i < pairs.len() ==> (#[trigger] pairs[i]) == (prices[i], prices[i + 1]),
        forall|q: (Number, Number)| #[trigger] kept(q) == (q.0.positive() && q.1.positive()),
        forall|q: (Number, Number)| #[trigger]
            gain(q) == crate::number::ln::<A>(crate::number::divide::<A>(q.1, q.0)),
    ensures
        crate::stats::log_returns::<A>(prices) == pairs.filter(kept).map_values(gain),
    decreases prices.len(),
{
    reveal(Seq::filter);
    if prices.len() >= 2 {
        let front = pairs.drop_last();
        assert forall|i: int| 0 <= i < front.len() implies (#[trigger] front[i]) == (
            prices.drop_last()[i],
            prices.drop_last()[i + 1],
        ) by {
            assert(pairs[i] == (prices[i], prices[i + 1]));
        }
        lemma_gains::<A>(prices.drop_last(), front, kept, gain);
        let q = pairs[pairs.len() - 1];
        assert(q == (prices[prices.len() - 2], prices[prices.len() - 1]));
        assert(kept(q) == (q.0.positive() && q.1.positive()));
        if kept(q) {
            assert(front.filter(kept).push(q).map_values(gain) =~= front.filter(kept).map_values(
                gain,
            ).push(gain(q)));
        }
    }
    assert(crate::stats::log_returns::<A>(prices) =~= pairs.filter(kept).map_values(gain));
}

/// The volatility rests on every pair of neighbouring prices that are both
/// positive, and on no other: with `g` their log returns, it is the root of the
/// squared distances of all `g` from their mean, added up and divided by one
/// less than their number, times the root of 252, times 100. With fewer than two
/// log returns it is 0.
pub proof fn law_volatility_rests_on_every_return<A: Arithmetic>(
    symbol: Seq<char>,
    meta: crate::chart::MetaView,
    candles: Seq<crate::chart::CandleView>,
)
    requires
        candles.len() > 0,
    ensures
        ({
            let onto = |s: Number, x: Number| crate::number::plus::<A>(s, x);
            let pairs = Seq::new(
                (candles.len() - 1) as nat,
                |i: int| (candles[i].close, candles[i + 1].close),
            );
            let g = pairs.filter(
                |q: (Number, Number)| q.0.positive() && q.1.positive(),
            ).map_values(
                |q: (Number, Number)|
                    crate::number::ln::<A>(crate::number::divide::<A>(q.1, q.0)),
            );
            let count = crate::number::from_count::<A>(g.len());
            let middle = crate::number::divide::<A>(g.fold_left(zero(), onto), count);
            let distances = g.map_values(
                |x: Number| crate::number::square::<A>(crate::number::minus::<A>(x, middle)),
            );
            let variance = crate::number::divide::<A>(
                distances.fold_left(zero(), onto),
                crate::number::minus::<A>(count, one()),
            );
            crate::stats::series_stats::<A>(symbol, meta, candles)->0.annualized_volatility_pct
                == if g.len() < 2 {
                zero()
            } else {
                crate::number::times::<A>(
                    crate::number::times::<A>(
                        crate::number::sqrt::<A>(variance),
                        crate::number::sqrt::<A>(trading_days()),
                    ),
                    hundred(),
                )
            }
        }),
        trading_days().bits == 0x406F_8000_0000_0000,
        hundred().bits == 0x4059_0000_0000_0000,
        one().bits == 0x3FF0_0000_0000_0000,
        zero().bits == 0,
{
    let onto = |s: Number, x: Number| crate::number::plus::<A>(s, x);
    let pairs = Seq::new(
        (candles.len() - 1) as nat,
        |i: int| (candles[i].close, candles[i + 1].close),
    );
    let kept = |q: (Number, Number)| q.0.positive() && q.1.positive();
    let gain = |q: (Number, Number)|
        crate::number::ln::<A>(crate::number::divide::<A>(q.1, q.0));
    let g = pairs.filter(kept).map_values(gain);
    lemma_gains::<A>(crate::stats::closes(candles), pairs, kept, gain);
    lemma_sum_fold::<A>(g, onto);
    let middle = crate::stats::mean::<A>(g);
    let distances = g.map_values(
        |x: Number| crate::number::square::<A>(crate::number::minus::<A>(x, middle)),
    );
    assert(distances =~= crate::stats::squared_deviations::<A>(g, middle));
    lemma_sum_fold::<A>(distances, onto);
}

/// The other figures of a series: what is copied from it, its return from the
/// first close to the last, and its average volume without a fraction.
pub proof fn law_statistics_describe_the_series<A: Arithmetic>(
    symbol: Seq<char>,
    meta: crate::chart::MetaView,
    candles: Seq<crate::chart::CandleView>,
)
    ensures
        crate::stats::series_stats::<A>(symbol, meta, candles) is Some <==> candles.len() > 0,
        crate::stats::series_stats::<A>(symbol, meta, candles) matches Some(stats) ==> {
            let first = candles[0].close;
            let last = candles[candles.len() - 1].close;
            let volume = candles.fold_left(
                0int,
                |v: int, c: crate::chart::CandleView| v + c.volume,
            );
            let rest = volume - stats.avg_daily_volume * candles.len();
            &&& stats.symbol == symbol
            &&& stats.currency == (match meta.currency {
                Some(text) => text,
                None => "N/A"@,
            })
            &&& stats.exchange == (match meta.exchange_name {
                Some(text) => text,
                None => "N/A"@,
            })
            &&& stats.latest_close == last
            &&& stats.period_start_close == first
            &&& stats.fifty_two_week_high == meta.fifty_two_week_high
            &&& stats.fifty_two_week_low == meta.fifty_two_week_low
            &&& stats.num_observations == candles.len()
            &&& stats.period_return_pct == (if first.bits == 0 || first.bits
                == 0x8000_0000_0000_0000 {
                zero()
            } else {
                crate::number::times::<A>(
                    crate::number::minus::<A>(crate::number::divide::<A>(last, first), one()),
                    hundred(),
                )
            })
            &&& -candles.len() < rest < candles.len()
            &&& volume >= 0 ==> rest >= 0
            &&& volume <= 0 ==> rest <= 0
        },
{
    if candles.len() > 0 {
        let onto = |v: int, c: crate::chart::CandleView| v + c.volume;
        lemma_volume_fold(candles, onto);
        let volume = crate::stats::volume_sum(candles);
        let n = candles.len() as int;
        let size: int = if volume < 0 {
            -volume
        } else {
            volume
        };
        let q = size / n;
        assert(size == q * n + size % n && 0 <= size % n < n) by (nonlinear_arith)
            requires
                q == size / n,
                n > 0,
        ;
        assert((-q) * n == -(q * n)) by (nonlinear_arith);
    }
}

proof fn lemma_volume_fold(
    candles: Seq<crate::chart::CandleView>,
    onto: spec_fn(int, crate::chart::CandleView) -> int,
)
    requires
        forall|v: int, c: crate::chart::CandleView| #[trigger] onto(v, c) == v + c.volume,
    ensures
        crate::stats::volume_sum(candles) == candles.fold_left(0int, onto),
    decreases candles.len(),
{
    if candles.len() > 0 {
        lemma_volume_fold(candles.drop_last(), onto);
    }
}

/// `i` is where the highest of the closes up to `j` was reached first.
pub open spec fn tops(candles: Seq<crate::chart::CandleView>, i: int, j: int) -> bool {
    &&& 0 <= i <= j
    &&& forall|l: int| 0 <= l < i ==> (#[trigger] candles[l]).close.below(candles[i].close)
    &&& forall|l: int| i <= l <= j ==> !candles[i].close.below((#[trigger] candles[l]).close)
}

/// How far the close at `j` lies below that at `i`, in percent.
pub open spec fn fall<A: Arithmetic>(
    candles: Seq<crate::chart::CandleView>,
    i: int,
    j: int,
) -> Number {
    crate::number::times::<A>(
        crate::number::minus::<A>(
            crate::number::divide::<A>(candles[j].close, candles[i].close),
            one(),
        ),
        hundred(),
    )
}

/// The maximum drawdown is the deepest fall of any close of the series from the
/// highest close up to it, and 0 where there is no fall.
pub proof fn law_drawdown_is_the_deepest_fall<A: Arithmetic>(
    symbol: Seq<char>,
    meta: crate::chart::MetaView,
    candles: Seq<crate::chart::CandleView>,
)
    requires
        candles.len() > 0,
        forall|i: int| 0 <= i < candles.len() ==> !(#[trigger] candles[i]).close.spec_is_nan(),
    ensures
        ({
            let deepest = crate::stats::series_stats::<A>(
                symbol,
                meta,
                candles,
            )->0.max_drawdown_pct;
            &&& deepest.at_most(zero())
            &&& forall|i: int, j: int|
                j < candles.len() && #[trigger] tops(candles, i, j) ==> !fall::<A>(
                    candles,
                    i,
                    j,
                ).below(deepest)
            &&& deepest == zero() || exists|i: int, j: int|
                j < candles.len() && #[trigger] tops(candles, i, j) && deepest == fall::<A>(
                    candles,
                    i,
                    j,
                )
        }),
{
    let n = candles.len() as int;
    lemma_deepest::<A>(candles, n);
}

proof fn lemma_peak_tops(candles: Seq<crate::chart::CandleView>, j: int) -> (i: int)
    requires
        0 <= j < candles.len(),
        forall|i: int| 0 <= i < candles.len() ==> !(#[trigger] candles[i]).close.spec_is_nan(),
    ensures
        tops(candles, i, j),
        crate::stats::peak(crate::stats::closes(candles), j + 1) == candles[i].close,
        forall|i1: int| #[trigger] tops(candles, i1, j) ==> i1 == i,
    decreases j,
{
    let prices = crate::stats::closes(candles);
    assert(prices[j] == candles[j].close);
    let i = if j == 0 {
        assert(crate::stats::peak(prices, 0) == candles[0].close);
        0
    } else {
        let before = lemma_peak_tops(candles, j - 1);
        if candles[before].close.below(candles[j].close) {
            assert forall|l: int| 0 <= l < j implies (#[trigger] candles[l]).close.below(
                candles[j].close,
            ) by {
                if l < before {
                    assert(candles[l].close.below(candles[before].close));
                } else {
                    assert(!candles[before].close.below(candles[l].close));
                }
            }
            j
        } else {
            before
        }
    };
    assert forall|i1: int| #[trigger] tops(candles, i1, j) implies i1 == i by {
        if i1 < i {
            assert(candles[i1].close.below(candles[i].close));
            assert(!candles[i1].close.below(candles[i].close));
        } else if i < i1 {
            assert(candles[i].close.below(candles[i1].close));
            assert(!candles[i].close.below(candles[i1].close));
        }
    }
    i
}

proof fn lemma_deepest<A: Arithmetic>(candles: Seq<crate::chart::CandleView>, n: int)
    requires
        0 <= n <= candles.len(),
        forall|i: int| 0 <= i < candles.len() ==> !(#[trigger] candles[i]).close.spec_is_nan(),
    ensures
        ({
            let deepest = crate::stats::max_drawdown::<A>(crate::stats::closes(candles), n);
            &&& deepest.at_most(zero())
            &&& forall|i: int, j: int|
                j < n && #[trigger] tops(candles, i, j) ==> !fall::<A>(candles, i, j).below(
                    deepest,
                )
            &&& deepest == zero() || exists|i: int, j: int|
                j < n && #[trigger] tops(candles, i, j) && deepest == fall::<A>(candles, i, j)
        }),
    decreases n,
{
    if n > 0 {
        let prices = crate::stats::closes(candles);
        lemma_deepest::<A>(candles, n - 1);
        let top = lemma_peak_tops(candles, n - 1);
        let before = crate::stats::max_drawdown::<A>(prices, n - 1);
        let now = crate::stats::max_drawdown::<A>(prices, n);
        assert(prices[n - 1] == candles[n - 1].close);
        assert(crate::stats::drawdown::<A>(prices[n - 1], crate::stats::peak(prices, n))
            == fall::<A>(candles, top, n - 1));
        assert forall|i: int, j: int| j < n && #[trigger] tops(candles, i, j) implies !fall::<A>(
            candles,
            i,
            j,
        ).below(now) by {
            if j < n - 1 {
                assert(!fall::<A>(candles, i, j).below(before));
            } else {
                assert(j == n - 1);
                assert(i == top);
            }
        }
        if now != before {
            assert(tops(candles, top, n - 1));
        } else if before != zero() {
            let (i, j) = choose|i: int, j: int|
                j < n - 1 && #[trigger] tops(candles, i, j) && before == fall::<A>(candles, i, j);
            assert(tops(candles, i, j));
        }
    }
}

proof fn lemma_product_fold<A: Arithmetic>(
    a: Seq<Number>,
    centre_a: Number,
    b: Seq<Number>,
    centre_b: Number,
    products: Seq<Number>,
    onto: spec_fn(Number, Number) -> Number,
)
    requires
        forall|i: int|
            0 <= i < products.len() ==> #[trigger] products[i] == crate::number::times::<A>(
                crate::number::minus::<A>(a[i], centre_a),
                crate::number::minus::<A>(b[i], centre_b),
            ),
        forall|s: Number, x: Number| #[trigger] onto(s, x) == crate::number::plus::<A>(s, x),
    ensures
        crate::correlation::product_sum::<A>(a, centre_a, b, centre_b, products.len() as int)
            == products.fold_left(zero(), onto),
    decreases products.len(),
{
    if products.len() > 0 {
        let front = products.drop_last();
        assert forall|i: int| 0 <= i < front.len() implies #[trigger] front[i]
            == crate::number::times::<A>(
            crate::number::minus::<A>(a[i], centre_a),
            crate::number::minus::<A>(b[i], centre_b),
        ) by {
            assert(products[i] == front[i]);
        }
        lemma_product_fold::<A>(a, centre_a, b, centre_b, front, onto);
        assert(products[products.len() - 1] == products.last());
    }
}

/// The coefficient of two series rests on all of their days: the products of the
/// two distances from the mean, day by day, make up the covariance, and the
/// squares of either distance, over the same days, the two variances.
pub proof fn law_correlation_rests_on_every_day<A: Arithmetic>(a: Seq<Number>, b: Seq<Number>)
    requires
        a.len() == b.len(),
    ensures
        a.len() < 2 ==> crate::correlation::pearson::<A>(a, b) == zero(),
        a.len() >= 2 ==> {
            let onto = |s: Number, x: Number| crate::number::plus::<A>(s, x);
            let count = crate::number::from_count::<A>(a.len());
            let middle_a = crate::number::divide::<A>(a.fold_left(zero(), onto), count);
            let middle_b = crate::number::divide::<A>(b.fold_left(zero(), onto), count);
            let da = a.map_values(|x: Number| crate::number::minus::<A>(x, middle_a));
            let db = b.map_values(|x: Number| crate::number::minus::<A>(x, middle_b));
            let covariance = Seq::new(
                a.len(),
                |i: int| crate::number::times::<A>(da[i], db[i]),
            ).fold_left(zero(), onto);
            let variance_a = Seq::new(
                a.len(),
                |i: int| crate::number::times::<A>(da[i], da[i]),
            ).fold_left(zero(), onto);
            let variance_b = Seq::new(
                a.len(),
                |i: int| crate::number::times::<A>(db[i], db[i]),
            ).fold_left(zero(), onto);
            crate::correlation::pearson::<A>(a, b) == if variance_a.at_most(zero())
                || variance_b.at_most(zero()) {
                zero()
            } else {
                crate::number::divide::<A>(
                    covariance,
                    crate::number::times::<A>(
                        crate::number::sqrt::<A>(variance_a),
                        crate::number::sqrt::<A>(variance_b),
                    ),
                )
            }
        },
{
    if a.len() >= 2 {
        let onto = |s: Number, x: Number| crate::number::plus::<A>(s, x);
        lemma_sum_fold::<A>(a, onto);
        lemma_sum_fold::<A>(b, onto);
        let middle_a = crate::stats::mean::<A>(a);
        let middle_b = crate::stats::mean::<A>(b);
        let da = a.map_values(|x: Number| crate::number::minus::<A>(x, middle_a));
        let db = b.map_values(|x: Number| crate::number::minus::<A>(x, middle_b));
        let ab = Seq::new(a.len(), |i: int| crate::number::times::<A>(da[i], db[i]));
        let aa = Seq::new(a.len(), |i: int| crate::number::times::<A>(da[i], da[i]));
        let bb = Seq::new(a.len(), |i: int| crate::number::times::<A>(db[i], db[i]));
        lemma_product_fold::<A>(a, middle_a, b, middle_b, ab, onto);
        lemma_product_fold::<A>(a, middle_a, a, middle_a, aa, onto);
        lemma_product_fold::<A>(b, middle_b, b, middle_b, bb, onto);
    }
}

/// The coefficient of a series with itself is one and the same sum, over all of
/// its days, over the product of that sum's roots.
pub proof fn law_series_is_compared_with_itself_over_all_days<A: Arithmetic>(a: Seq<Number>)
    requires
        a.len() >= 2,
    ensures
        ({
            let onto = |s: Number, x: Number| crate::number::plus::<A>(s, x);
            let middle = crate::number::divide::<A>(
                a.fold_left(zero(), onto),
                crate::number::from_count::<A>(a.len()),
            );
            let v = a.map_values(
                |x: Number|
                    crate::number::times::<A>(
                        crate::number::minus::<A>(x, middle),
                        crate::number::minus::<A>(x, middle),
                    ),
            ).fold_left(zero(), onto);
            crate::correlation::pearson::<A>(a, a) == if v.at_most(zero()) {
                zero()
            } else {
                crate::number::divide::<A>(
                    v,
                    crate::number::times::<A>(
                        crate::number::sqrt::<A>(v),
                        crate::number::sqrt::<A>(v),
                    ),
                )
            }
        }),
{
    let onto = |s: Number, x: Number| crate::number::plus::<A>(s, x);
    lemma_sum_fold::<A>(a, onto);
    let middle = crate::stats::mean::<A>(a);
    let squares = a.map_values(
        |x: Number|
            crate::number::times::<A>(
                crate::number::minus::<A>(x, middle),
                crate::number::minus::<A>(x, middle),
            ),
    );
    lemma_product_fold::<A>(a, middle, a, middle, squares, onto);
}

/// The matrix pairs every series with every other, and each with itself at 1.
pub proof fn law_matrix_pairs_every_series<A: Arithmetic>(
    series: Seq<Seq<Number>>,
    i: int,
    j: int,
)
    requires
        0 <= i < series.len(),
        0 <= j < series.len(),
    ensures
        crate::correlation::correlations::<A>(series).len() == series.len(),
        crate::correlation::correlations::<A>(series)[i].len() == series.len(),
        crate::correlation::correlations::<A>(series)[i][j] == if i == j {
            one()
        } else {
            crate::correlation::pearson::<A>(series[i], series[j])
        },
{
}

/// All rows are as long as there are rows.
pub open spec fn square_matrix(matrix: Seq<Seq<Number>>) -> bool {
    forall|i: int| 0 <= i < matrix.len() ==> (#[trigger] matrix[i]).len() == matrix.len()
}

proof fn lemma_pair_row<A: Arithmetic>(
    matrix: Seq<Seq<Number>>,
    i: int,
    j: int,
    onto: spec_fn(Number, Number) -> Number,
)
    requires
        square_matrix(matrix),
        0 <= i < matrix.len(),
        0 <= j <= matrix.len(),
        forall|s: Number, x: Number| #[trigger] onto(s, x) == crate::number::plus::<A>(s, x),
    ensures
        crate::correlation::pair_sum::<A>(matrix, i, j) == (if j <= i + 1 {
            Seq::<Number>::empty()
        } else {
            matrix[i].subrange(i + 1, j)
        }).fold_left(crate::correlation::pair_sum::<A>(matrix, i, 0), onto),
    decreases j,
{
    assert(matrix[i].len() == matrix.len());
    if j > 0 {
        lemma_pair_row::<A>(matrix, i, j - 1, onto);
        if j > i + 1 {
            let row = matrix[i].subrange(i + 1, j);
            if j - 1 > i + 1 {
                assert(row.drop_last() =~= matrix[i].subrange(i + 1, j - 1));
            } else {
                assert(row.drop_last() =~= Seq::<Number>::empty());
            }
            assert(row.last() == matrix[i][j - 1]);
        }
    }
}

proof fn lemma_pair_rows<A: Arithmetic>(
    matrix: Seq<Seq<Number>>,
    uppers: Seq<Seq<Number>>,
    onto: spec_fn(Number, Number) -> Number,
    row_onto: spec_fn(Number, Seq<Number>) -> Number,
)
    requires
        square_matrix(matrix),
        uppers.len() <= matrix.len(),
        forall|i: int| 0 <= i < uppers.len() ==> #[trigger] uppers[i] == matrix[i].skip(i + 1),
        forall|s: Number, x: Number| #[trigger] onto(s, x) == crate::number::plus::<A>(s, x),
        forall|s: Number, row: Seq<Number>| #[trigger] row_onto(s, row) == row.fold_left(s, onto),
    ensures
        crate::correlation::pair_sum::<A>(matrix, uppers.len() as int, 0) == uppers.fold_left(
            zero(),
            row_onto,
        ),
    decreases uppers.len(),
{
    if uppers.len() > 0 {
        let i = uppers.len() - 1;
        let front = uppers.drop_last();
        assert forall|l: int| 0 <= l < front.len() implies #[trigger] front[l] == matrix[l].skip(
            l + 1,
        ) by {
            assert(uppers[l] == front[l]);
        }
        lemma_pair_rows::<A>(matrix, front, onto, row_onto);
        assert(uppers[i] == matrix[i].skip(i + 1));
        assert(matrix[i].len() == matrix.len());
        lemma_pair_row::<A>(matrix, i, matrix.len() as int, onto);
        if matrix.len() > i + 1 {
            assert(matrix[i].subrange(i + 1, matrix.len() as int) =~= matrix[i].skip(i + 1));
        } else {
            assert(Seq::<Number>::empty() =~= matrix[i].skip(i + 1));
        }
        assert(uppers.last() == uppers[i]);
    }
}

/// The average correlation counts every pair of different series once: what
/// stands to the right of the diagonal, row by row, over the number of pairs.
pub proof fn law_average_correlation_counts_every_pair<A: Arithmetic>(
    matrix: Seq<Seq<Number>>,
    pairs: nat,
)
    requires
        square_matrix(matrix),
        2 * pairs == matrix.len() * (matrix.len() - 1),
    ensures
        crate::correlation::average_pair::<A>(matrix) == if pairs == 0 {
            zero()
        } else {
            crate::number::divide::<A>(
                Seq::new(matrix.len(), |i: int| matrix[i].skip(i + 1)).fold_left(
                    zero(),
                    |s: Number, row: Seq<Number>|
                        row.fold_left(s, |t: Number, x: Number| crate::number::plus::<A>(t, x)),
                ),
                crate::number::from_count::<A>(pairs),
            )
        },
{
    let n = matrix.len() as int;
    if n >= 2 {
        assert(pairs > 0) by (nonlinear_arith)
            requires
                n >= 2,
                2 * pairs == n * (n - 1),
        ;
        let uppers = Seq::new(matrix.len(), |i: int| matrix[i].skip(i + 1));
        let onto = |t: Number, x: Number| crate::number::plus::<A>(t, x);
        let row_onto = |s: Number, row: Seq<Number>|
            row.fold_left(s, |t: Number, x: Number| crate::number::plus::<A>(t, x));
        assert forall|s: Number, row: Seq<Number>| #[trigger] row_onto(s, row) == row.fold_left(
            s,
            onto,
        ) by {
            lemma_fold_same(row, s, |t: Number, x: Number| crate::number::plus::<A>(t, x), onto);
        }
        lemma_pair_rows::<A>(matrix, uppers, onto, row_onto);
        assert(crate::correlation::pair_count(n) == pairs);
    } else {
        assert(pairs == 0) by (nonlinear_arith)
            requires
                0 <= n < 2,
                2 * pairs == n * (n - 1),
        ;
    }
}

/// Folds with the same steps come to the same.
proof fn lemma_fold_same<B>(
    values: Seq<B>,
    start: Number,
    f: spec_fn(Number, B) -> Number,
    g: spec_fn(Number, B) -> Number,
)
    requires
        forall|s: Number, x: B| #[trigger] f(s, x) == g(s, x),
    ensures
        values.fold_left(start, f) == values.fold_left(start, g),
    decreases values.len(),
{
    if values.len() > 0 {
        lemma_fold_same(values.drop_last(), start, f, g);
    }
}

proof fn lemma_variance_row<A: Arithmetic>(
    weight: Number,
    vols: Seq<Number>,
    matrix: Seq<Seq<Number>>,
    i: int,
    terms: Seq<Number>,
    onto: spec_fn(Number, Number) -> Number,
)
    requires
        0 <= i,
        forall|j: int|
            0 <= j < terms.len() ==> #[trigger] terms[j] == crate::number::times::<A>(
                crate::number::times::<A>(
                    crate::number::times::<A>(crate::number::times::<A>(weight, weight), vols[i]),
                    vols[j],
                ),
                matrix[i][j],
            ),
        forall|s: Number, x: Number| #[trigger] onto(s, x) == crate::number::plus::<A>(s, x),
    ensures
        crate::correlation::variance_sum::<A>(weight, vols, matrix, i, terms.len() as int)
            == terms.fold_left(
            crate::correlation::variance_sum::<A>(weight, vols, matrix, i, 0),
            onto,
        ),
    decreases terms.len(),
{
    if terms.len() > 0 {
        let front = terms.drop_last();
        assert forall|j: int| 0 <= j < front.len() implies #[trigger] front[j]
            == crate::number::times::<A>(
            crate::number::times::<A>(
                crate::number::times::<A>(crate::number::times::<A>(weight, weight), vols[i]),
                vols[j],
            ),
            matrix[i][j],
        ) by {
            assert(terms[j] == front[j]);
        }
        lemma_variance_row::<A>(weight, vols, matrix, i, front, onto);
        assert(terms[terms.len() - 1] == terms.last());
    }
}

proof fn lemma_variance_rows<A: Arithmetic>(
    weight: Number,
    vols: Seq<Number>,
    matrix: Seq<Seq<Number>>,
    terms: Seq<Seq<Number>>,
    onto: spec_fn(Number, Number) -> Number,
    row_onto: spec_fn(Number, Seq<Number>) -> Number,
)
    requires
        terms.len() <= matrix.len(),
        forall|i: int, j: int|
            0 <= i < terms.len() && 0 <= j < matrix.len() ==> #[trigger] terms[i][j]
                == crate::number::times::<A>(
                crate::number::times::<A>(
                    crate::number::times::<A>(crate::number::times::<A>(weight, weight), vols[i]),
                    vols[j],
                ),
                matrix[i][j],
            ),
        forall|i: int|
            0 <= i < terms.len() ==> (#[trigger] terms[i]).len() == matrix.len(),
        forall|s: Number, x: Number| #[trigger] onto(s, x) == crate::number::plus::<A>(s, x),
        forall|s: Number, row: Seq<Number>| #[trigger] row_onto(s, row) == row.fold_left(s, onto),
    ensures
        crate::correlation::variance_sum::<A>(weight, vols, matrix, terms.len() as int, 0)
            == terms.fold_left(zero(), row_onto),
    decreases terms.len(),
{
    if terms.len() > 0 {
        let i = terms.len() - 1;
        let front = terms.drop_last();
        assert forall|l: int, j: int| 0 <= l < front.len() && 0 <= j < matrix.len() implies
            #[trigger] front[l][j] == crate::number::times::<A>(
            crate::number::times::<A>(
                crate::number::times::<A>(crate::number::times::<A>(weight, weight), vols[l]),
                vols[j],
            ),
            matrix[l][j],
        ) by {
            assert(terms[l][j] == front[l][j]);
        }
        assert forall|l: int| 0 <= l < front.len() implies (#[trigger] front[l]).len()
            == matrix.len() by {
            assert(terms[l] == front[l]);
        }
        lemma_variance_rows::<A>(weight, vols, matrix, front, onto, row_onto);
        assert(terms[i].len() == matrix.len());
        lemma_variance_row::<A>(weight, vols, matrix, i, terms[i], onto);
        assert(terms.last() == terms[i]);
    }
}

/// The variance of a portfolio adds up, over every ordered pair of holdings, the
/// square of the weight times both volatilities times the entry of the matrix
/// for that pair, whatever that entry is.
pub proof fn law_variance_weighs_every_pair_by_its_correlation<A: Arithmetic>(
    weight: Number,
    vols: Seq<Number>,
    matrix: Seq<Seq<Number>>,
)
    requires
        vols.len() == matrix.len(),
        square_matrix(matrix),
    ensures
        crate::correlation::portfolio_variance::<A>(weight, vols, matrix) == Seq::new(
            matrix.len(),
            |i: int|
                Seq::new(
                    matrix.len(),
                    |j: int|
                        crate::number::times::<A>(
                            crate::number::times::<A>(
                                crate::number::times::<A>(
                                    crate::number::times::<A>(weight, weight),
                                    vols[i],
                                ),
                                vols[j],
                            ),
                            matrix[i][j],
                        ),
                ),
        ).fold_left(
            zero(),
            |s: Number, row: Seq<Number>|
                row.fold_left(s, |t: Number, x: Number| crate::number::plus::<A>(t, x)),
        ),
{
    let terms = Seq::new(
        matrix.len(),
        |i: int|
            Seq::new(
                matrix.len(),
                |j: int|
                    crate::number::times::<A>(
                        crate::number::times::<A>(
                            crate::number::times::<A>(
                                crate::number::times::<A>(weight, weight),
                                vols[i],
                            ),
                            vols[j],
                        ),
                        matrix[i][j],
                    ),
            ),
    );
    let onto = |t: Number, x: Number| crate::number::plus::<A>(t, x);
    let row_onto = |s: Number, row: Seq<Number>|
        row.fold_left(s, |t: Number, x: Number| crate::number::plus::<A>(t, x));
    assert forall|s: Number, row: Seq<Number>| #[trigger] row_onto(s, row) == row.fold_left(
        s,
        onto,
    ) by {
        lemma_fold_same(row, s, |t: Number, x: Number| crate::number::plus::<A>(t, x), onto);
    }
    lemma_variance_rows::<A>(weight, vols, matrix, terms, onto, row_onto);
}

/// The variance of two holdings of volatilities `s` and `t` and correlation `c`:
/// each holding with itself, and the pair twice, times `c` itself.
pub proof fn law_variance_of_two_holdings<A: Arithmetic>(weight: Number, s: Number, t: Number, c: Number)
    ensures
        ({
            let scale = crate::number::times::<A>(weight, weight);
            let ss = crate::number::times::<A>(
                crate::number::times::<A>(crate::number::times::<A>(scale, s), s),
                one(),
            );
            let tt = crate::number::times::<A>(
                crate::number::times::<A>(crate::number::times::<A>(scale, t), t),
                one(),
            );
            let st = crate::number::times::<A>(
                crate::number::times::<A>(crate::number::times::<A>(scale, s), t),
                c,
            );
            let ts = crate::number::times::<A>(
                crate::number::times::<A>(crate::number::times::<A>(scale, t), s),
                c,
            );
            crate::correlation::portfolio_variance::<A>(
                weight,
                seq![s, t],
                seq![seq![one(), c], seq![c, one()]],
            ) == crate::number::plus::<A>(
                crate::number::plus::<A>(
                    crate::number::plus::<A>(crate::number::plus::<A>(zero(), ss), st),
                    ts,
                ),
                tt,
            )
        }),
{
    reveal_with_fuel(crate::correlation::variance_sum, 8);
}

/// Two matrices that differ in one entry only give variances that differ in one
/// term only: the same factor times the one entry, and times the other.
pub proof fn law_an_entry_moves_its_own_term<A: Arithmetic>(
    weight: Number,
    vols: Seq<Number>,
    matrix: Seq<Seq<Number>>,
    i: int,
    j: int,
    c: Number,
)
    requires
        vols.len() == matrix.len(),
        square_matrix(matrix),
        0 <= i < matrix.len(),
        0 <= j < matrix.len(),
    ensures
        ({
            let other = matrix.update(i, matrix[i].update(j, c));
            let scale = crate::number::times::<A>(
                crate::number::times::<A>(crate::number::times::<A>(weight, weight), vols[i]),
                vols[j],
            );
            exists|terms: Seq<Seq<Number>>|
                {
                    let changed = terms.update(
                        i,
                        terms[i].update(j, crate::number::times::<A>(scale, c)),
                    );
                    &&& square_matrix(terms)
                    &&& terms.len() == matrix.len()
                    &&& terms[i][j] == crate::number::times::<A>(scale, matrix[i][j])
                    &&& crate::correlation::portfolio_variance::<A>(weight, vols, matrix)
                        == #[trigger] total_of::<A>(terms)
                    &&& crate::correlation::portfolio_variance::<A>(weight, vols, other)
                        == total_of::<A>(changed)
                }
        }),
{
    let other = matrix.update(i, matrix[i].update(j, c));
    assert(square_matrix(other)) by {
        assert forall|l: int| 0 <= l < other.len() implies (#[trigger] other[l]).len()
            == other.len() by {
            assert(matrix[l].len() == matrix.len());
        }
    }
    let terms = variance_terms::<A>(weight, vols, matrix);
    let scale = crate::number::times::<A>(
        crate::number::times::<A>(crate::number::times::<A>(weight, weight), vols[i]),
        vols[j],
    );
    let changed = terms.update(i, terms[i].update(j, crate::number::times::<A>(scale, c)));
    lemma_variance_total::<A>(weight, vols, matrix);
    lemma_variance_total::<A>(weight, vols, other);
    let after = variance_terms::<A>(weight, vols, other);
    assert forall|l: int| 0 <= l < after.len() implies after[l] == changed[l] by {
        assert(matrix[l].len() == matrix.len());
        assert(after[l] =~= changed[l]);
    }
    assert(after =~= changed);
}

/// Rows of numbers added up from the left, row after row.
pub open spec fn total_of<A: Arithmetic>(terms: Seq<Seq<Number>>) -> Number {
    terms.fold_left(
        zero(),
        |s: Number, row: Seq<Number>|
            row.fold_left(s, |t: Number, x: Number| crate::number::plus::<A>(t, x)),
    )
}

spec fn variance_terms<A: Arithmetic>(
    weight: Number,
    vols: Seq<Number>,
    matrix: Seq<Seq<Number>>,
) -> Seq<Seq<Number>> {
    Seq::new(
        matrix.len(),
        |i: int|
            Seq::new(
                matrix.len(),
                |j: int|
                    crate::number::times::<A>(
                        crate::number::times::<A>(
                            crate::number::times::<A>(
                                crate::number::times::<A>(weight, weight),
                                vols[i],
                            ),
                            vols[j],
                        ),
                        matrix[i][j],
                    ),
            ),
    )
}

proof fn lemma_variance_total<A: Arithmetic>(
    weight: Number,
    vols: Seq<Number>,
    matrix: Seq<Seq<Number>>,
)
    requires
        vols.len() == matrix.len(),
        square_matrix(matrix),
    ensures
        crate::correlation::portfolio_variance::<A>(weight, vols, matrix) == total_of::<A>(
            variance_terms::<A>(weight, vols, matrix),
        ),
{
    law_variance_weighs_every_pair_by_its_correlation::<A>(weight, vols, matrix);
}

/// A total adds every number, in order, to zero.
pub proof fn law_totals_add_every_number<A: Arithmetic>(values: Seq<Number>)
    ensures
        crate::number::sum::<A>(values) == values.fold_left(
            zero(),
            |s: Number, x: Number| crate::number::plus::<A>(s, x),
        ),
{
    lemma_sum_fold::<A>(values, |s: Number, x: Number| crate::number::plus::<A>(s, x));
}

/// Volumes add up where the total of the candles so far fits into 64 bits at
/// every candle.
pub proof fn law_volumes_add_up_at_every_candle(candles: Seq<crate::chart::CandleView>)
    ensures
        crate::stats::volumes_add_up(candles) <==> forall|n: int|
            0 <= n <= candles.len() ==> -0x8000_0000_0000_0000 <= (
            #[trigger] candles.take(n)).fold_left(
                0int,
                |v: int, c: crate::chart::CandleView| v + c.volume,
            ) <= 0x7FFF_FFFF_FFFF_FFFF,
{
    let onto = |v: int, c: crate::chart::CandleView| v + c.volume;
    assert forall|n: int| 0 <= n <= candles.len() implies crate::stats::volume_sum(
        #[trigger] candles.take(n),
    ) == candles.take(n).fold_left(0int, onto) by {
        lemma_volume_fold(candles.take(n), onto);
    }
}

proof fn lemma_drawdown_fold<A: Arithmetic>(
    prices: Seq<Number>,
    n: int,
    step: spec_fn((Number, Number), Number) -> (Number, Number),
)
    requires
        0 <= n <= prices.len(),
        forall|s: (Number, Number), p: Number| #[trigger]
            step(s, p) == deeper::<A>(s, p),
    ensures
        prices.take(n).fold_left((prices[0], zero()), step) == (
            crate::stats::peak(prices, n),
            crate::stats::max_drawdown::<A>(prices, n),
        ),
    decreases n,
{
    if n > 0 {
        lemma_drawdown_fold::<A>(prices, n - 1, step);
        assert(prices.take(n).drop_last() =~= prices.take(n - 1));
    }
}

/// The highest price and the deepest fall after one more price.
pub open spec fn deeper<A: Arithmetic>(so_far: (Number, Number), price: Number) -> (Number, Number) {
    let top = if so_far.0.below(price) {
        price
    } else {
        so_far.0
    };
    let now = crate::number::times::<A>(
        crate::number::minus::<A>(crate::number::divide::<A>(price, top), one()),
        hundred(),
    );
    (
        top,
        if now.below(so_far.1) {
            now
        } else {
            so_far.1
        },
    )
}

/// The maximum drawdown follows every close of the series, whatever pattern it
/// has: from the first close and a fall of 0 on, each close raises the highest
/// one or may deepen the fall.
pub proof fn law_drawdown_follows_every_close<A: Arithmetic>(
    symbol: Seq<char>,
    meta: crate::chart::MetaView,
    candles: Seq<crate::chart::CandleView>,
)
    requires
        candles.len() > 0,
    ensures
        crate::stats::series_stats::<A>(symbol, meta, candles)->0.max_drawdown_pct
            == candles.map_values(|c: crate::chart::CandleView| c.close).fold_left(
            (candles[0].close, zero()),
            |s: (Number, Number), p: Number| deeper::<A>(s, p),
        ).1,
{
    let prices = crate::stats::closes(candles);
    assert(prices =~= candles.map_values(|c: crate::chart::CandleView| c.close));
    assert(prices.take(prices.len() as int) =~= prices);
    lemma_drawdown_fold::<A>(
        prices,
        prices.len() as int,
        |s: (Number, Number), p: Number| deeper::<A>(s, p),
    );
}

} // verus!
