//! Pearson correlation, the matrix of all pairs, and the variance of an
//! equally weighted portfolio.

use vstd::prelude::*;
use crate::number::Arithmetic;
use crate::number::Number;
use crate::number::one;
use crate::number::total;
use crate::number::zero;

verus! {

/// The sum of the products of two series' distances from their centres, over
/// the first members.
pub open spec fn product_sum<A: Arithmetic>(
    a: Seq<Number>,
    centre_a: Number,
    b: Seq<Number>,
    centre_b: Number,
    n: int,
) -> Number
    decreases n,
{
    if n <= 0 {
        zero()
    } else {
        crate::number::plus::<A>(
            product_sum::<A>(a, centre_a, b, centre_b, n - 1),
            crate::number::times::<A>(
                crate::number::minus::<A>(a[n - 1], centre_a),
                crate::number::minus::<A>(b[n - 1], centre_b),
            ),
        )
    }
}

/// The Pearson correlation coefficient of two series of equal length: their
/// covariance over the product of their deviations. It is 0 for fewer than two
/// members, and where a series does not vary.
pub open spec fn pearson<A: Arithmetic>(a: Seq<Number>, b: Seq<Number>) -> Number {
    let n = a.len() as int;
    let mean_a = crate::stats::mean::<A>(a);
    let mean_b = crate::stats::mean::<A>(b);
    let variance_a = product_sum::<A>(a, mean_a, a, mean_a, n);
    let variance_b = product_sum::<A>(b, mean_b, b, mean_b, n);
    if n < 2 || variance_a.at_most(zero()) || variance_b.at_most(zero()) {
        zero()
    } else {
        crate::number::divide::<A>(
            product_sum::<A>(a, mean_a, b, mean_b, n),
            crate::number::times::<A>(
                crate::number::sqrt::<A>(variance_a),
                crate::number::sqrt::<A>(variance_b),
            ),
        )
    }
}

/// The Pearson correlation coefficient of two series of equal length.
pub fn pearson_correlation<A: Arithmetic>(a: &Vec<Number>, b: &Vec<Number>) -> (r: Number)
    requires
        a@.len() == b@.len(),
    ensures
        a@.len() < 2 ==> r == zero(),
        crate::number::repeatable::<A>() ==> r == pearson::<A>(a@, b@),
{
    let n = a.len();
    if n < 2 {
        return zero();
    }
    let mean_a = A::divide(total::<A>(a), A::from_count(n as u128));
    let mean_b = A::divide(total::<A>(b), A::from_count(n as u128));
    let mut covariance = zero();
    let mut variance_a = zero();
    let mut variance_b = zero();
    for i in 0..n
        invariant
            n == a@.len(),
            n == b@.len(),
            crate::number::repeatable::<A>() ==> {
                &&& covariance == product_sum::<A>(a@, mean_a, b@, mean_b, i as int)
                &&& variance_a == product_sum::<A>(a@, mean_a, a@, mean_a, i as int)
                &&& variance_b == product_sum::<A>(b@, mean_b, b@, mean_b, i as int)
            },
    {
        let da = A::minus(a[i], mean_a);
        let db = A::minus(b[i], mean_b);
        covariance = A::plus(covariance, A::times(da, db));
        variance_a = A::plus(variance_a, A::times(da, da));
        variance_b = A::plus(variance_b, A::times(db, db));
    }
    if variance_a.is_at_most(zero()) || variance_b.is_at_most(zero()) {
        return zero();
    }
    A::divide(covariance, A::times(A::sqrt(variance_a), A::sqrt(variance_b)))
}

/// The lists that a list of lists holds.
pub open spec fn rows(matrix: Seq<Vec<Number>>) -> Seq<Seq<Number>> {
    matrix.map_values(|row: Vec<Number>| row@)
}

/// The correlation of two of the series; each agrees with itself.
pub open spec fn correlation<A: Arithmetic>(series: Seq<Seq<Number>>, i: int, j: int) -> Number {
    if i == j {
        one()
    } else {
        pearson::<A>(series[i], series[j])
    }
}

/// The correlations of all pairs of the series.
pub open spec fn correlations<A: Arithmetic>(series: Seq<Seq<Number>>) -> Seq<Seq<Number>> {
    Seq::new(
        series.len(),
        |i: int| Seq::new(series.len(), |j: int| correlation::<A>(series, i, j)),
    )
}

/// The sum of a matrix above its diagonal, row by row: over the rows before `i`
/// and the first `j` members of row `i`.
pub open spec fn pair_sum<A: Arithmetic>(matrix: Seq<Seq<Number>>, i: int, j: int) -> Number
    decreases i, j,
{
    if i < 0 || j < 0 {
        zero()
    } else if j > 0 {
        let before = pair_sum::<A>(matrix, i, j - 1);
        if i < j - 1 {
            crate::number::plus::<A>(before, matrix[i][j - 1])
        } else {
            before
        }
    } else if i > 0 {
        pair_sum::<A>(matrix, i - 1, matrix.len() as int)
    } else {
        zero()
    }
}

/// How many pairs there are of `n` things.
pub open spec fn pair_count(n: int) -> int {
    n * (n - 1) / 2
}

/// The mean of a matrix above its diagonal; 0 where there is no pair.
pub open spec fn average_pair<A: Arithmetic>(matrix: Seq<Seq<Number>>) -> Number {
    if matrix.len() < 2 {
        zero()
    } else {
        crate::number::divide::<A>(
            pair_sum::<A>(matrix, matrix.len() as int, 0),
            crate::number::from_count::<A>(pair_count(matrix.len() as int) as nat),
        )
    }
}

/// What a pair of holdings adds to the variance of a portfolio.
pub open spec fn variance_term<A: Arithmetic>(
    weight: Number,
    volatilities: Seq<Number>,
    matrix: Seq<Seq<Number>>,
    i: int,
    j: int,
) -> Number {
    crate::number::times::<A>(
        crate::number::times::<A>(
            crate::number::times::<A>(
                crate::number::times::<A>(weight, weight),
                volatilities[i],
            ),
            volatilities[j],
        ),
        matrix[i][j],
    )
}

/// The variance that the rows before `i` and the first `j` members of row `i` add up to.
pub open spec fn variance_sum<A: Arithmetic>(
    weight: Number,
    volatilities: Seq<Number>,
    matrix: Seq<Seq<Number>>,
    i: int,
    j: int,
) -> Number
    decreases i, j,
{
    if i < 0 || j < 0 {
        zero()
    } else if j > 0 {
        crate::number::plus::<A>(
            variance_sum::<A>(weight, volatilities, matrix, i, j - 1),
            variance_term::<A>(weight, volatilities, matrix, i, j - 1),
        )
    } else if i > 0 {
        variance_sum::<A>(weight, volatilities, matrix, i - 1, matrix.len() as int)
    } else {
        zero()
    }
}

/// The variance of a portfolio of equally weighted holdings.
pub open spec fn portfolio_variance<A: Arithmetic>(
    weight: Number,
    volatilities: Seq<Number>,
    matrix: Seq<Seq<Number>>,
) -> Number {
    variance_sum::<A>(weight, volatilities, matrix, matrix.len() as int, 0)
}

/// All rows are as long as there are rows, and the diagonal holds ones.
pub open spec fn unit_diagonal(matrix: Seq<Seq<Number>>) -> bool {
    forall|i: int|
        0 <= i < matrix.len() ==> (#[trigger] matrix[i]).len() == matrix.len() && matrix[i][i]
            == one()
}

fn correlation_row<A: Arithmetic>(series: &Vec<Vec<Number>>, i: usize) -> (r: Vec<Number>)
    requires
        i < series@.len(),
        forall|k: int|
            0 <= k < series@.len() ==> (#[trigger] series@[k])@.len() == series@[0]@.len(),
    ensures
        r@.len() == series@.len(),
        r@[i as int] == one(),
        crate::number::repeatable::<A>() ==> r@ == correlations::<A>(rows(series@))[i as int],
{
    let ghost want = correlations::<A>(rows(series@))[i as int];
    let mut row: Vec<Number> = Vec::new();
    for j in 0..series.len()
        invariant
            i < series@.len(),
            want == correlations::<A>(rows(series@))[i as int],
            forall|k: int|
                0 <= k < series@.len() ==> (#[trigger] series@[k])@.len() == series@[0]@.len(),
            row@.len() == j,
            i < j ==> row@[i as int] == one(),
            crate::number::repeatable::<A>() ==> row@ == want.take(j as int),
    {
        let entry = if i == j {
            one()
        } else {
            assert(series@[i as int]@.len() == series@[j as int]@.len());
            pearson_correlation::<A>(&series[i], &series[j])
        };
        row.push(entry);
        assert(crate::number::repeatable::<A>() ==> row@ =~= want.take(j + 1));
    }
    assert(want.take(series@.len() as int) =~= want);
    row
}

/// The correlations of all pairs of the series.
pub fn correlation_matrix<A: Arithmetic>(series: &Vec<Vec<Number>>) -> (r: Vec<Vec<Number>>)
    requires
        forall|k: int|
            0 <= k < series@.len() ==> (#[trigger] series@[k])@.len() == series@[0]@.len(),
    ensures
        r@.len() == series@.len(),
        unit_diagonal(rows(r@)),
        crate::number::repeatable::<A>() ==> rows(r@) == correlations::<A>(rows(series@)),
{
    let ghost want = correlations::<A>(rows(series@));
    let mut matrix: Vec<Vec<Number>> = Vec::new();
    for i in 0..series.len()
        invariant
            want == correlations::<A>(rows(series@)),
            forall|k: int|
                0 <= k < series@.len() ==> (#[trigger] series@[k])@.len() == series@[0]@.len(),
            matrix@.len() == i,
            forall|k: int|
                0 <= k < i ==> (#[trigger] matrix@[k])@.len() == series@.len() && matrix@[k]@[k]
                    == one(),
            crate::number::repeatable::<A>() ==> rows(matrix@) == want.take(i as int),
    {
        let row = correlation_row::<A>(series, i);
        matrix.push(row);
        assert(crate::number::repeatable::<A>() ==> rows(matrix@) =~= want.take(i + 1));
    }
    assert(want.take(series@.len() as int) =~= want);
    assert forall|i: int| 0 <= i < rows(matrix@).len() implies (#[trigger] rows(
        matrix@,
    )[i]).len() == rows(matrix@).len() && rows(matrix@)[i][i] == one() by {
        assert(matrix@[i]@.len() == series@.len());
    }
    matrix
}

/// The mean of a matrix above its diagonal; 0 where there is no pair.
pub fn average_correlation<A: Arithmetic>(matrix: &Vec<Vec<Number>>) -> (r: Number)
    requires
        forall|k: int| 0 <= k < matrix@.len() ==> (#[trigger] matrix@[k])@.len() == matrix@.len(),
    ensures
        crate::number::repeatable::<A>() ==> r == average_pair::<A>(rows(matrix@)),
{
    let ghost all = rows(matrix@);
    let n = matrix.len();
    let mut sum = zero();
    let mut count: u128 = 0;
    assert(0 * (2 * n - 0 - 1) == 0) by (nonlinear_arith);
    for i in 0..n
        invariant
            n == matrix@.len(),
            all == rows(matrix@),
            forall|k: int|
                0 <= k < matrix@.len() ==> (#[trigger] matrix@[k])@.len() == matrix@.len(),
            2 * count == i * (2 * n - i - 1),
            crate::number::repeatable::<A>() ==> sum == pair_sum::<A>(all, i as int, 0),
    {
        let ghost start = count;
        proof {
            lemma_room(n as int, i as int, start as int);
        }
        for j in 0..n
            invariant
                n == matrix@.len(),
                i < n,
                all == rows(matrix@),
                forall|k: int|
                    0 <= k < matrix@.len() ==> (#[trigger] matrix@[k])@.len() == matrix@.len(),
                2 * start == i * (2 * n - i - 1),
                start + n <= u128::MAX,
                count == start + (if j > i {
                    j - i - 1
                } else {
                    0
                }),
                crate::number::repeatable::<A>() ==> sum == pair_sum::<A>(all, i as int, j as int),
        {
            assert(matrix@[i as int]@.len() == matrix@.len());
            if i < j {
                sum = A::plus(sum, matrix[i][j]);
                count = count + 1;
            }
        }
        assert(2 * count == (i + 1) * (2 * n - (i + 1) - 1)) by (nonlinear_arith)
            requires
                2 * start == i * (2 * n - i - 1),
                count == start + (n - i - 1),
        ;
    }
    if count > 0 {
        proof {
            assert(n >= 2) by (nonlinear_arith)
                requires
                    2 * count == n * (2 * n - n - 1),
                    count > 0,
                    n >= 0,
            ;
            assert(count == pair_count(n as int)) by (nonlinear_arith)
                requires
                    2 * count == n * (2 * n - n - 1),
                    pair_count(n as int) == n * (n - 1) / 2,
            ;
        }
        A::divide(sum, A::from_count(count))
    } else {
        proof {
            assert(n < 2) by (nonlinear_arith)
                requires
                    2 * count == n * (2 * n - n - 1),
                    count == 0,
                    n >= 0,
            ;
        }
        zero()
    }
}

/// The pairs of fewer than 2^64 things can be counted in 128 bits.
proof fn lemma_room(n: int, i: int, start: int)
    requires
        0 <= i < n <= usize::MAX,
        2 * start == i * (2 * n - i - 1),
    ensures
        start + n <= u128::MAX,
{
    assert(start <= n * n) by (nonlinear_arith)
        requires
            0 <= i < n,
            2 * start == i * (2 * n - i - 1),
    ;
    assert(n * n + n <= 0xFFFF_FFFF_FFFF_FFFF * 0x1_0000_0000_0000_0000) by (nonlinear_arith)
        requires
            0 <= n <= 0xFFFF_FFFF_FFFF_FFFF,
    ;
}

/// The variance of a portfolio of equally weighted holdings.
pub fn equal_weight_variance<A: Arithmetic>(
    weight: Number,
    volatilities: &Vec<Number>,
    matrix: &Vec<Vec<Number>>,
) -> (r: Number)
    requires
        volatilities@.len() == matrix@.len(),
        forall|k: int| 0 <= k < matrix@.len() ==> (#[trigger] matrix@[k])@.len() == matrix@.len(),
    ensures
        crate::number::repeatable::<A>() ==> r == portfolio_variance::<A>(
            weight,
            volatilities@,
            rows(matrix@),
        ),
{
    let ghost all = rows(matrix@);
    let n = matrix.len();
    let mut sum = zero();
    for i in 0..n
        invariant
            n == matrix@.len(),
            n == volatilities@.len(),
            all == rows(matrix@),
            forall|k: int|
                0 <= k < matrix@.len() ==> (#[trigger] matrix@[k])@.len() == matrix@.len(),
            crate::number::repeatable::<A>() ==> sum == variance_sum::<A>(
                weight,
                volatilities@,
                all,
                i as int,
                0,
            ),
    {
        for j in 0..n
            invariant
                n == matrix@.len(),
                n == volatilities@.len(),
                i < n,
                all == rows(matrix@),
                forall|k: int|
                    0 <= k < matrix@.len() ==> (#[trigger] matrix@[k])@.len() == matrix@.len(),
                crate::number::repeatable::<A>() ==> sum == variance_sum::<A>(
                    weight,
                    volatilities@,
                    all,
                    i as int,
                    j as int,
                ),
        {
            assert(matrix@[i as int]@.len() == matrix@.len());
            let weights = A::times(weight, weight);
            let term = A::times(
                A::times(A::times(weights, volatilities[i]), volatilities[j]),
                matrix[i][j],
            );
            sum = A::plus(sum, term);
        }
    }
    sum
}

/// Where the order of factors does not matter, neither does the order of the
/// two series in the sum of their products.
proof fn lemma_product_sum_symmetric<A: Arithmetic>(
    a: Seq<Number>,
    centre_a: Number,
    b: Seq<Number>,
    centre_b: Number,
    n: int,
)
    requires
        forall|x: Number, y: Number|
            #[trigger] crate::number::times::<A>(x, y) == crate::number::times::<A>(y, x),
    ensures
        product_sum::<A>(a, centre_a, b, centre_b, n) == product_sum::<A>(
            b,
            centre_b,
            a,
            centre_a,
            n,
        ),
    decreases n,
{
    if n > 0 {
        lemma_product_sum_symmetric::<A>(a, centre_a, b, centre_b, n - 1);
    }
}

/// The coefficient of two series is the same whichever comes first, given that
/// the order of factors does not matter.
pub proof fn law_correlation_is_symmetric<A: Arithmetic>(a: Seq<Number>, b: Seq<Number>)
    requires
        a.len() == b.len(),
        forall|x: Number, y: Number|
            #[trigger] crate::number::times::<A>(x, y) == crate::number::times::<A>(y, x),
    ensures
        pearson::<A>(a, b) == pearson::<A>(b, a),
{
    lemma_product_sum_symmetric::<A>(
        a,
        crate::stats::mean::<A>(a),
        b,
        crate::stats::mean::<A>(b),
        a.len() as int,
    );
}

/// The correlation matrix is symmetric, given that the order of factors does
/// not matter.
pub proof fn law_correlations_are_symmetric<A: Arithmetic>(
    series: Seq<Seq<Number>>,
    i: int,
    j: int,
)
    requires
        0 <= i < series.len(),
        0 <= j < series.len(),
        series[i].len() == series[j].len(),
        forall|x: Number, y: Number|
            #[trigger] crate::number::times::<A>(x, y) == crate::number::times::<A>(y, x),
    ensures
        correlations::<A>(series)[i][j] == correlations::<A>(series)[j][i],
{
    law_correlation_is_symmetric::<A>(series[i], series[j]);
}

/// The correlation matrix is square and has ones on its diagonal.
pub proof fn law_correlations_have_a_unit_diagonal<A: Arithmetic>(series: Seq<Seq<Number>>)
    ensures
        correlations::<A>(series).len() == series.len(),
        unit_diagonal(correlations::<A>(series)),
{
}

} // verus!
