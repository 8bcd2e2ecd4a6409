//! What becomes of the figures where a series changes its sign or its unit.
//!
//! The laws here speak of any arithmetic that rounds as IEEE 754 does: its
//! premises are properties of single operations, each on operands and results
//! for which a sign or a power of two does not touch the rounding.

use vstd::prelude::*;
use crate::number::Arithmetic;
use crate::number::Number;
use crate::number::zero;

verus! {

/// The same number, or both no number.
pub open spec fn same(x: Number, y: Number) -> bool {
    x == y || (x.spec_is_nan() && y.spec_is_nan())
}

/// Equal numbers, be it zeros of different sign, or both no number.
pub open spec fn equal(x: Number, y: Number) -> bool {
    x.level_with(y) || (x.spec_is_nan() && y.spec_is_nan())
}

/// `y` is `-x`, the sign of a zero aside, or both are no number.
pub open spec fn opposite(x: Number, y: Number) -> bool {
    ||| x.spec_is_nan() && y.spec_is_nan()
    ||| !x.spec_is_nan() && !y.spec_is_nan() && x.rank() == -y.rank()
}

/// Opposite numbers have an opposite sum, and equal numbers an equal one.
pub open spec fn sum_mirrors<A: Arithmetic>(x: Number, y: Number, x1: Number, y1: Number) -> bool {
    let r = crate::number::plus::<A>(x, y);
    let r1 = crate::number::plus::<A>(x1, y1);
    &&& opposite(x, x1) && opposite(y, y1) ==> opposite(r, r1)
    &&& equal(x, x1) && equal(y, y1) ==> equal(r, r1)
}

/// Opposite numbers have an opposite difference.
pub open spec fn difference_mirrors<A: Arithmetic>(
    x: Number,
    y: Number,
    x1: Number,
    y1: Number,
) -> bool {
    opposite(x, x1) && opposite(y, y1) ==> opposite(
        crate::number::minus::<A>(x, y),
        crate::number::minus::<A>(x1, y1),
    )
}

/// One opposite factor makes an opposite product, two an equal one.
pub open spec fn product_mirrors<A: Arithmetic>(
    x: Number,
    y: Number,
    x1: Number,
    y1: Number,
) -> bool {
    let r = crate::number::times::<A>(x, y);
    let r1 = crate::number::times::<A>(x1, y1);
    &&& opposite(x, x1) && y == y1 ==> opposite(r, r1)
    &&& opposite(x, x1) && opposite(y, y1) ==> equal(r, r1)
    &&& same(x, x1) && same(y, y1) ==> same(r, r1)
}

/// An opposite dividend makes an opposite quotient.
pub open spec fn quotient_mirrors<A: Arithmetic>(
    x: Number,
    y: Number,
    x1: Number,
    y1: Number,
) -> bool {
    opposite(x, x1) && same(y, y1) ==> opposite(
        crate::number::divide::<A>(x, y),
        crate::number::divide::<A>(x1, y1),
    )
}

/// Rounding treats both signs alike.
pub open spec fn signs_mirror<A: Arithmetic>() -> bool {
    &&& forall|x: Number, y: Number, x1: Number, y1: Number| #[trigger]
        sum_mirrors::<A>(x, y, x1, y1)
    &&& forall|x: Number, y: Number, x1: Number, y1: Number| #[trigger]
        difference_mirrors::<A>(x, y, x1, y1)
    &&& forall|x: Number, y: Number, x1: Number, y1: Number| #[trigger]
        product_mirrors::<A>(x, y, x1, y1)
    &&& forall|x: Number, y: Number, x1: Number, y1: Number| #[trigger]
        quotient_mirrors::<A>(x, y, x1, y1)
    &&& forall|x: Number, y: Number| #[trigger]
        same(x, y) ==> same(crate::number::sqrt::<A>(x), crate::number::sqrt::<A>(y))
}

/// Two series that are opposite member by member.
pub open spec fn all_opposite(a: Seq<Number>, b: Seq<Number>) -> bool {
    a.len() == b.len() && forall|i: int| 0 <= i < a.len() ==> opposite(#[trigger] a[i], b[i])
}

proof fn lemma_sum_opposite<A: Arithmetic>(a: Seq<Number>, b: Seq<Number>)
    requires
        signs_mirror::<A>(),
        all_opposite(a, b),
    ensures
        opposite(crate::number::sum::<A>(a), crate::number::sum::<A>(b)),
    decreases a.len(),
{
    if a.len() > 0 {
        let front_a = a.drop_last();
        let front_b = b.drop_last();
        assert forall|i: int| 0 <= i < front_a.len() implies opposite(
            #[trigger] front_a[i],
            front_b[i],
        ) by {
            assert(opposite(a[i], b[i]));
        }
        lemma_sum_opposite::<A>(front_a, front_b);
        assert(opposite(a[a.len() - 1], b[b.len() - 1]));
        assert(sum_mirrors::<A>(
            crate::number::sum::<A>(front_a),
            a.last(),
            crate::number::sum::<A>(front_b),
            b.last(),
        ));
    }
}

proof fn lemma_products_opposite<A: Arithmetic>(
    a: Seq<Number>,
    centre_a: Number,
    c: Seq<Number>,
    centre_c: Number,
    b: Seq<Number>,
    centre_b: Number,
    n: int,
)
    requires
        signs_mirror::<A>(),
        all_opposite(a, c),
        opposite(centre_a, centre_c),
        n <= a.len(),
    ensures
        opposite(
            crate::correlation::product_sum::<A>(a, centre_a, b, centre_b, n),
            crate::correlation::product_sum::<A>(c, centre_c, b, centre_b, n),
        ),
        equal(
            crate::correlation::product_sum::<A>(a, centre_a, a, centre_a, n),
            crate::correlation::product_sum::<A>(c, centre_c, c, centre_c, n),
        ),
    decreases n,
{
    if n > 0 {
        lemma_products_opposite::<A>(a, centre_a, c, centre_c, b, centre_b, n - 1);
        let i = n - 1;
        assert(opposite(a[i], c[i]));
        assert(difference_mirrors::<A>(a[i], centre_a, c[i], centre_c));
        let da = crate::number::minus::<A>(a[i], centre_a);
        let dc = crate::number::minus::<A>(c[i], centre_c);
        let db = crate::number::minus::<A>(b[i], centre_b);
        assert(product_mirrors::<A>(da, db, dc, db));
        assert(product_mirrors::<A>(da, da, dc, dc));
        assert(sum_mirrors::<A>(
            crate::correlation::product_sum::<A>(a, centre_a, b, centre_b, i),
            crate::number::times::<A>(da, db),
            crate::correlation::product_sum::<A>(c, centre_c, b, centre_b, i),
            crate::number::times::<A>(dc, db),
        ));
        assert(sum_mirrors::<A>(
            crate::correlation::product_sum::<A>(a, centre_a, a, centre_a, i),
            crate::number::times::<A>(da, da),
            crate::correlation::product_sum::<A>(c, centre_c, c, centre_c, i),
            crate::number::times::<A>(dc, dc),
        ));
    }
}

/// The coefficient of a series turned upside down is the opposite one.
pub proof fn law_negation_turns_the_correlation<A: Arithmetic>(
    a: Seq<Number>,
    negated: Seq<Number>,
    b: Seq<Number>,
)
    requires
        a.len() == b.len(),
        all_opposite(a, negated),
        signs_mirror::<A>(),
    ensures
        opposite(
            crate::correlation::pearson::<A>(a, b),
            crate::correlation::pearson::<A>(negated, b),
        ),
{
    let n = a.len() as int;
    let count = crate::number::from_count::<A>(a.len());
    let mean_a = crate::stats::mean::<A>(a);
    let mean_c = crate::stats::mean::<A>(negated);
    let mean_b = crate::stats::mean::<A>(b);
    lemma_sum_opposite::<A>(a, negated);
    assert(quotient_mirrors::<A>(
        crate::number::sum::<A>(a),
        count,
        crate::number::sum::<A>(negated),
        count,
    ));
    lemma_products_opposite::<A>(a, mean_a, negated, mean_c, b, mean_b, n);
    let variance_a = crate::correlation::product_sum::<A>(a, mean_a, a, mean_a, n);
    let variance_c = crate::correlation::product_sum::<A>(negated, mean_c, negated, mean_c, n);
    let variance_b = crate::correlation::product_sum::<A>(b, mean_b, b, mean_b, n);
    if !(n < 2 || variance_a.at_most(zero()) || variance_b.at_most(zero())) {
        assert(same(variance_a, variance_c));
        let root_a = crate::number::sqrt::<A>(variance_a);
        let root_c = crate::number::sqrt::<A>(variance_c);
        let root_b = crate::number::sqrt::<A>(variance_b);
        assert(product_mirrors::<A>(root_a, root_b, root_c, root_b));
        assert(quotient_mirrors::<A>(
            crate::correlation::product_sum::<A>(a, mean_a, b, mean_b, n),
            crate::number::times::<A>(root_a, root_b),
            crate::correlation::product_sum::<A>(negated, mean_c, b, mean_b, n),
            crate::number::times::<A>(root_c, root_b),
        ));
    }
}

/// The pattern without its sign.
pub open spec fn magnitude(x: Number) -> int {
    if x.bits < 0x8000_0000_0000_0000 {
        x.bits as int
    } else {
        x.bits - 0x8000_0000_0000_0000
    }
}

/// The distance between the pattern of a number and that of its double.
pub open spec fn binade() -> int {
    0x10_0000_0000_0000
}

/// `x` times the `k`-th power of two: the exponent moves by `k`, and a zero stays.
pub open spec fn shifted(x: Number, k: int) -> Number {
    if magnitude(x) == 0 {
        x
    } else {
        Number { bits: (x.bits + k * binade()) as u64 }
    }
}

/// A zero, or a finite number in full precision.
pub open spec fn regular(x: Number) -> bool {
    magnitude(x) == 0 || 2 * binade() <= magnitude(x) < 2047 * binade()
}

/// A zero, or a number that is finite and in full precision both before and
/// after it is multiplied by the `k`-th power of two.
pub open spec fn tame(x: Number, k: int) -> bool {
    ||| magnitude(x) == 0
    ||| 2 * binade() <= magnitude(x) < 2047 * binade() && 2 * binade() <= magnitude(x) + k
        * binade() < 2047 * binade()
}

/// The quotient of two numbers does not change with their common unit.
pub open spec fn quotient_keeps<A: Arithmetic>(x: Number, y: Number, k: int) -> bool {
    tame(x, k) && tame(y, k) ==> crate::number::divide::<A>(shifted(x, k), shifted(y, k))
        == crate::number::divide::<A>(x, y)
}

/// Quotients do not change with the common unit of their operands.
pub open spec fn quotients_ignore_the_unit<A: Arithmetic>() -> bool {
    forall|x: Number, y: Number, k: int| #[trigger] quotient_keeps::<A>(x, y, k)
}

/// A power of two moves through a sum and a difference.
pub open spec fn sum_scales<A: Arithmetic>(x: Number, y: Number, k: int) -> bool {
    let s = crate::number::plus::<A>(x, y);
    let d = crate::number::minus::<A>(x, y);
    &&& tame(x, k) && tame(y, k) && tame(s, k) ==> crate::number::plus::<A>(
        shifted(x, k),
        shifted(y, k),
    ) == shifted(s, k)
    &&& tame(x, k) && tame(y, k) && tame(d, k) ==> crate::number::minus::<A>(
        shifted(x, k),
        shifted(y, k),
    ) == shifted(d, k)
}

/// The product is in full precision in either unit: it does not vanish unless a
/// factor does.
pub open spec fn product_tame<A: Arithmetic>(x: Number, y: Number, k: int) -> bool {
    let r = crate::number::times::<A>(x, y);
    tame(r, k) && (magnitude(r) == 0 ==> magnitude(x) == 0 || magnitude(y) == 0)
}

/// Powers of two move through a product.
pub open spec fn product_scales<A: Arithmetic>(x: Number, y: Number, i: int, j: int) -> bool {
    tame(x, i) && tame(y, j) && product_tame::<A>(x, y, i + j) ==> crate::number::times::<A>(
        shifted(x, i),
        shifted(y, j),
    ) == shifted(crate::number::times::<A>(x, y), i + j)
}

/// The quotient is in full precision in either unit: it does not vanish unless
/// the dividend does.
pub open spec fn quotient_tame<A: Arithmetic>(x: Number, y: Number, k: int) -> bool {
    let r = crate::number::divide::<A>(x, y);
    magnitude(y) != 0 && tame(r, k) && (magnitude(r) == 0 ==> magnitude(x) == 0)
}

/// A power of two moves from the dividend to the quotient.
pub open spec fn quotient_scales<A: Arithmetic>(x: Number, y: Number, k: int) -> bool {
    tame(x, k) && regular(y) && quotient_tame::<A>(x, y, k) ==> crate::number::divide::<A>(
        shifted(x, k),
        y,
    ) == shifted(crate::number::divide::<A>(x, y), k)
}

/// Of a power of two, its root moves through a square root.
pub open spec fn root_scales<A: Arithmetic>(x: Number, k: int) -> bool {
    x.positive() && tame(x, 2 * k) && tame(crate::number::sqrt::<A>(x), k)
        ==> crate::number::sqrt::<A>(shifted(x, 2 * k)) == shifted(crate::number::sqrt::<A>(x), k)
}

/// Powers of two are exact in every operation.
pub open spec fn powers_of_two_are_exact<A: Arithmetic>() -> bool {
    &&& quotients_ignore_the_unit::<A>()
    &&& forall|x: Number, y: Number, k: int| #[trigger] sum_scales::<A>(x, y, k)
    &&& forall|x: Number, y: Number, i: int, j: int| #[trigger] product_scales::<A>(x, y, i, j)
    &&& forall|x: Number, y: Number, k: int| #[trigger] quotient_scales::<A>(x, y, k)
    &&& forall|x: Number, k: int| #[trigger] root_scales::<A>(x, k)
}

/// A power of two changes neither sign nor order.
proof fn lemma_shifted_order(x: Number, y: Number, k: int)
    requires
        tame(x, k),
        tame(y, k),
    ensures
        shifted(x, k).below(shifted(y, k)) == x.below(y),
        shifted(x, k).positive() == x.positive(),
        shifted(x, k).level_with(zero()) == x.level_with(zero()),
        shifted(x, k).at_most(zero()) == x.at_most(zero()),
{
}

/// `b` is `a`, member by member, times the `k`-th power of two.
pub open spec fn all_shifted(a: Seq<Number>, b: Seq<Number>, k: int) -> bool {
    &&& a.len() == b.len()
    &&& forall|i: int| 0 <= i < a.len() ==> tame(#[trigger] a[i], k) && b[i] == shifted(a[i], k)
}

proof fn lemma_log_returns_keep<A: Arithmetic>(a: Seq<Number>, b: Seq<Number>, k: int)
    requires
        quotients_ignore_the_unit::<A>(),
        all_shifted(a, b, k),
    ensures
        crate::stats::log_returns::<A>(a) == crate::stats::log_returns::<A>(b),
    decreases a.len(),
{
    if a.len() >= 2 {
        let front_a = a.drop_last();
        let front_b = b.drop_last();
        assert forall|i: int| 0 <= i < front_a.len() implies tame(#[trigger] front_a[i], k)
            && front_b[i] == shifted(front_a[i], k) by {
            assert(tame(a[i], k));
        }
        lemma_log_returns_keep::<A>(front_a, front_b, k);
        let previous = a[a.len() - 2];
        let last = a[a.len() - 1];
        assert(tame(previous, k) && tame(last, k));
        lemma_shifted_order(previous, last, k);
        lemma_shifted_order(last, previous, k);
        assert(quotient_keeps::<A>(last, previous, k));
    }
}

proof fn lemma_drawdown_keeps<A: Arithmetic>(a: Seq<Number>, b: Seq<Number>, k: int, n: int)
    requires
        quotients_ignore_the_unit::<A>(),
        all_shifted(a, b, k),
        0 < a.len(),
        0 <= n <= a.len(),
    ensures
        tame(crate::stats::peak(a, n), k),
        crate::stats::peak(b, n) == shifted(crate::stats::peak(a, n), k),
        crate::stats::max_drawdown::<A>(a, n) == crate::stats::max_drawdown::<A>(b, n),
    decreases n,
{
    if n > 0 {
        lemma_drawdown_keeps::<A>(a, b, k, n - 1);
        let price = a[n - 1];
        assert(tame(price, k));
        lemma_shifted_order(crate::stats::peak(a, n - 1), price, k);
        assert(quotient_keeps::<A>(price, crate::stats::peak(a, n), k));
    } else {
        assert(tame(a[0], k));
    }
}

proof fn lemma_volumes_keep(
    a: Seq<crate::chart::CandleView>,
    b: Seq<crate::chart::CandleView>,
)
    requires
        a.len() == b.len(),
        forall|i: int| 0 <= i < a.len() ==> (#[trigger] a[i]).volume == b[i].volume,
    ensures
        crate::stats::volume_sum(a) == crate::stats::volume_sum(b),
    decreases a.len(),
{
    if a.len() > 0 {
        assert(a[a.len() - 1].volume == b[b.len() - 1].volume);
        assert forall|i: int| 0 <= i < a.drop_last().len() implies (#[trigger] a.drop_last()[i]).volume
            == b.drop_last()[i].volume by {
            assert(a[i].volume == b[i].volume);
        }
        lemma_volumes_keep(a.drop_last(), b.drop_last());
    }
}

/// The statistics of a series whose prices are all multiplied by a power of two
/// have the same percentages, volume and count; the prices in them are
/// multiplied alike.
pub proof fn law_statistics_do_not_depend_on_the_unit<A: Arithmetic>(
    symbol: Seq<char>,
    meta: crate::chart::MetaView,
    candles: Seq<crate::chart::CandleView>,
    scaled: Seq<crate::chart::CandleView>,
    k: int,
)
    requires
        candles.len() == scaled.len(),
        forall|i: int|
            0 <= i < candles.len() ==> tame((#[trigger] candles[i]).close, k) && scaled[i] == (
            crate::chart::CandleView { close: shifted(candles[i].close, k), ..candles[i] }),
        quotients_ignore_the_unit::<A>(),
    ensures
        crate::stats::series_stats::<A>(symbol, meta, candles) is Some
            <==> crate::stats::series_stats::<A>(symbol, meta, scaled) is Some,
        crate::stats::series_stats::<A>(symbol, meta, candles) matches Some(stats)
            ==> crate::stats::series_stats::<A>(symbol, meta, scaled) == Some(
            crate::stats::StatsView {
                latest_close: shifted(stats.latest_close, k),
                period_start_close: shifted(stats.period_start_close, k),
                ..stats
            },
        ),
{
    if candles.len() > 0 {
        let a = crate::stats::closes(candles);
        let b = crate::stats::closes(scaled);
        assert forall|i: int| 0 <= i < a.len() implies tame(#[trigger] a[i], k) && b[i] == shifted(
            a[i],
            k,
        ) by {
            assert(tame(candles[i].close, k));
        }
        let last = a[a.len() - 1];
        assert(tame(a[0], k) && tame(last, k));
        lemma_shifted_order(a[0], last, k);
        assert(quotient_keeps::<A>(last, a[0], k));
        lemma_log_returns_keep::<A>(a, b, k);
        lemma_drawdown_keeps::<A>(a, b, k, a.len() as int);
        assert forall|i: int| 0 <= i < candles.len() implies (#[trigger] candles[i]).volume
            == scaled[i].volume by {
            assert(tame(candles[i].close, k));
        }
        lemma_volumes_keep(candles, scaled);
    }
}

/// No step of the correlation of `a` and `b` leaves full precision, neither as
/// it is nor where `a` is multiplied by the `k`-th power of two.
pub open spec fn correlation_stays_regular<A: Arithmetic>(
    a: Seq<Number>,
    b: Seq<Number>,
    k: int,
) -> bool {
    let n = a.len() as int;
    let count = crate::number::from_count::<A>(a.len());
    let mean_a = crate::stats::mean::<A>(a);
    let mean_b = crate::stats::mean::<A>(b);
    let variance_a = crate::correlation::product_sum::<A>(a, mean_a, a, mean_a, n);
    let variance_b = crate::correlation::product_sum::<A>(b, mean_b, b, mean_b, n);
    let root_a = crate::number::sqrt::<A>(variance_a);
    let root_b = crate::number::sqrt::<A>(variance_b);
    &&& regular(count)
    &&& quotient_tame::<A>(crate::number::sum::<A>(a), count, k)
    &&& forall|i: int| 0 <= i <= n ==> tame(crate::number::sum::<A>(#[trigger] a.take(i)), k)
    &&& forall|i: int| 0 <= i < n ==> step_stays_regular::<A>(a, mean_a, b, mean_b, i, k)
    &&& !variance_a.at_most(zero()) && !variance_b.at_most(zero()) ==> {
        &&& tame(root_a, k)
        &&& regular(root_b)
        &&& product_tame::<A>(root_a, root_b, k)
    }
}

/// The part of one day in [`correlation_stays_regular`].
pub open spec fn step_stays_regular<A: Arithmetic>(
    a: Seq<Number>,
    mean_a: Number,
    b: Seq<Number>,
    mean_b: Number,
    i: int,
    k: int,
) -> bool {
    let da = crate::number::minus::<A>(a[i], mean_a);
    let db = crate::number::minus::<A>(b[i], mean_b);
    &&& tame(da, k)
    &&& regular(db)
    &&& product_tame::<A>(da, db, k)
    &&& product_tame::<A>(da, da, 2 * k)
    &&& tame(crate::correlation::product_sum::<A>(a, mean_a, b, mean_b, i + 1), k)
    &&& tame(crate::correlation::product_sum::<A>(a, mean_a, a, mean_a, i + 1), 2 * k)
}

proof fn lemma_sum_scales<A: Arithmetic>(a: Seq<Number>, b: Seq<Number>, k: int)
    requires
        powers_of_two_are_exact::<A>(),
        all_shifted(a, b, k),
        forall|i: int|
            0 <= i <= a.len() ==> tame(crate::number::sum::<A>(#[trigger] a.take(i)), k),
    ensures
        crate::number::sum::<A>(b) == shifted(crate::number::sum::<A>(a), k),
    decreases a.len(),
{
    if a.len() > 0 {
        let front_a = a.drop_last();
        let front_b = b.drop_last();
        let n = a.len() as int;
        assert forall|i: int| 0 <= i < front_a.len() implies tame(#[trigger] front_a[i], k)
            && front_b[i] == shifted(front_a[i], k) by {
            assert(tame(a[i], k));
        }
        assert forall|i: int| 0 <= i <= front_a.len() implies tame(
            crate::number::sum::<A>(#[trigger] front_a.take(i)),
            k,
        ) by {
            assert(front_a.take(i) =~= a.take(i));
        }
        lemma_sum_scales::<A>(front_a, front_b, k);
        assert(a.take(n) =~= a);
        assert(a.take(n - 1) =~= front_a);
        assert(tame(a[n - 1], k));
        assert(sum_scales::<A>(crate::number::sum::<A>(front_a), a.last(), k));
    }
}

proof fn lemma_products_scale<A: Arithmetic>(
    a: Seq<Number>,
    mean_a: Number,
    c: Seq<Number>,
    mean_c: Number,
    b: Seq<Number>,
    mean_b: Number,
    n: int,
    k: int,
)
    requires
        powers_of_two_are_exact::<A>(),
        all_shifted(a, c, k),
        tame(mean_a, k),
        mean_c == shifted(mean_a, k),
        0 <= n <= a.len(),
        forall|i: int| 0 <= i < n ==> step_stays_regular::<A>(a, mean_a, b, mean_b, i, k),
    ensures
        tame(crate::correlation::product_sum::<A>(a, mean_a, b, mean_b, n), k),
        tame(crate::correlation::product_sum::<A>(a, mean_a, a, mean_a, n), 2 * k),
        crate::correlation::product_sum::<A>(c, mean_c, b, mean_b, n) == shifted(
            crate::correlation::product_sum::<A>(a, mean_a, b, mean_b, n),
            k,
        ),
        crate::correlation::product_sum::<A>(c, mean_c, c, mean_c, n) == shifted(
            crate::correlation::product_sum::<A>(a, mean_a, a, mean_a, n),
            2 * k,
        ),
    decreases n,
{
    if n > 0 {
        lemma_products_scale::<A>(a, mean_a, c, mean_c, b, mean_b, n - 1, k);
        let i = n - 1;
        assert(step_stays_regular::<A>(a, mean_a, b, mean_b, i, k));
        assert(tame(a[i], k));
        let da = crate::number::minus::<A>(a[i], mean_a);
        let db = crate::number::minus::<A>(b[i], mean_b);
        assert(sum_scales::<A>(a[i], mean_a, k));
        lemma_not_shifted(db);
        assert(product_scales::<A>(da, db, k, 0));
        assert(product_scales::<A>(da, da, k, k));
        assert(k + k == 2 * k);
        assert(sum_scales::<A>(
            crate::correlation::product_sum::<A>(a, mean_a, b, mean_b, i),
            crate::number::times::<A>(da, db),
            k,
        ));
        assert(sum_scales::<A>(
            crate::correlation::product_sum::<A>(a, mean_a, a, mean_a, i),
            crate::number::times::<A>(da, da),
            2 * k,
        ));
    }
}

/// The zeroth power of two changes nothing.
proof fn lemma_not_shifted(x: Number)
    requires
        regular(x),
    ensures
        tame(x, 0),
        shifted(x, 0) == x,
{
}

/// The coefficient does not change where a series is multiplied by a power of
/// two, as long as no step of it leaves full precision.
pub proof fn law_correlation_does_not_depend_on_the_unit<A: Arithmetic>(
    a: Seq<Number>,
    scaled: Seq<Number>,
    b: Seq<Number>,
    k: int,
)
    requires
        a.len() == b.len(),
        all_shifted(a, scaled, k),
        correlation_stays_regular::<A>(a, b, k),
        powers_of_two_are_exact::<A>(),
    ensures
        crate::correlation::pearson::<A>(scaled, b) == crate::correlation::pearson::<A>(a, b),
{
    let n = a.len() as int;
    let count = crate::number::from_count::<A>(a.len());
    let mean_a = crate::stats::mean::<A>(a);
    let mean_c = crate::stats::mean::<A>(scaled);
    let mean_b = crate::stats::mean::<A>(b);
    lemma_sum_scales::<A>(a, scaled, k);
    assert(a.take(n) =~= a);
    assert(tame(crate::number::sum::<A>(a.take(n)), k));
    assert(quotient_scales::<A>(crate::number::sum::<A>(a), count, k));
    assert(mean_c == shifted(mean_a, k));
    lemma_products_scale::<A>(a, mean_a, scaled, mean_c, b, mean_b, n, k);
    let covariance = crate::correlation::product_sum::<A>(a, mean_a, b, mean_b, n);
    let variance_a = crate::correlation::product_sum::<A>(a, mean_a, a, mean_a, n);
    let variance_b = crate::correlation::product_sum::<A>(b, mean_b, b, mean_b, n);
    lemma_shifted_order(variance_a, variance_a, 2 * k);
    if !(n < 2 || variance_a.at_most(zero()) || variance_b.at_most(zero())) {
        let root_a = crate::number::sqrt::<A>(variance_a);
        let root_b = crate::number::sqrt::<A>(variance_b);
        assert(variance_a.positive());
        assert(root_scales::<A>(variance_a, k));
        lemma_not_shifted(root_b);
        assert(product_scales::<A>(root_a, root_b, k, 0));
        assert(quotient_keeps::<A>(covariance, crate::number::times::<A>(root_a, root_b), k));
    }
}

} // verus!
