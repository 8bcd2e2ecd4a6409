use quant_research_agent::basket::SymbolSeries;
use quant_research_agent::chart::Candle;
use quant_research_agent::correlation::pearson_correlation;
use quant_research_agent::number::Arithmetic;
use quant_research_agent::number::Number;
use quant_research_agent::number::Single;
use quant_research_agent::portfolio_analytics::compute_risk_summary;
use quant_research_agent::portfolio_analytics::PortfolioRiskSummary;
use quant_research_agent::stats::FinanceStats;

struct Floats;

impl Arithmetic for Floats {
    fn plus(a: Number, b: Number) -> Number {
        number(float(a) + float(b))
    }

    fn minus(a: Number, b: Number) -> Number {
        number(float(a) - float(b))
    }

    fn times(a: Number, b: Number) -> Number {
        number(float(a) * float(b))
    }

    fn divide(a: Number, b: Number) -> Number {
        number(float(a) / float(b))
    }

    fn ln(a: Number) -> Number {
        number(float(a).ln())
    }

    fn sqrt(a: Number) -> Number {
        number(float(a).sqrt())
    }

    fn square(a: Number) -> Number {
        number(float(a).powi(2))
    }

    fn from_count(n: u128) -> Number {
        number(n as f64)
    }

    fn fixed2(a: Number) -> String {
        format!("{:.2}", float(a))
    }

    fn parse_single(text: &str) -> Option<Single> {
        text.parse::<f32>().ok().map(|x| Single { bits: x.to_bits() })
    }
}

fn number(x: f64) -> Number {
    Number { bits: x.to_bits() }
}

fn float(x: Number) -> f64 {
    f64::from_bits(x.bits)
}

fn candle(date: &str, close: f64) -> Candle {
    Candle {
        date: date.to_string(),
        open: number(close),
        high: number(close),
        low: number(close),
        close: number(close),
        volume: 1000,
    }
}

fn stats(symbol: &str, annualized_volatility_pct: f64) -> FinanceStats {
    FinanceStats {
        symbol: symbol.to_string(),
        currency: "USD".to_string(),
        exchange: "TEST".to_string(),
        latest_close: number(108.0),
        period_start_close: number(100.0),
        period_return_pct: number(8.0),
        annualized_volatility_pct: number(annualized_volatility_pct),
        max_drawdown_pct: number(-3.0),
        fifty_two_week_high: None,
        fifty_two_week_low: None,
        avg_daily_volume: 1_000_000,
        num_observations: 6,
    }
}

const DATES: [&str; 6] =
    ["2024-01-01", "2024-01-02", "2024-01-03", "2024-01-04", "2024-01-05", "2024-01-08"];

fn series(symbol: &str, prices: &[f64], volatility: f64) -> SymbolSeries {
    SymbolSeries {
        symbol: symbol.to_string(),
        candles: DATES.iter().zip(prices.iter()).map(|(d, p)| candle(d, *p)).collect(),
        stats: Some(stats(symbol, volatility)),
        error: None,
    }
}

fn errored(symbol: &str) -> SymbolSeries {
    SymbolSeries {
        symbol: symbol.to_string(),
        candles: vec![],
        stats: None,
        error: Some("not found".to_string()),
    }
}

#[test]
fn test_identical_series_are_perfectly_correlated() {
    let dates = [
        "2024-01-01",
        "2024-01-02",
        "2024-01-03",
        "2024-01-04",
        "2024-01-05",
        "2024-01-08",
    ];
    let prices = [100.0, 102.0, 101.0, 105.0, 103.0, 108.0];

    let candles_a: Vec<Candle> =
        dates.iter().zip(prices.iter()).map(|(d, p)| candle(d, *p)).collect();
    let candles_b = candles_a.clone();

    let series = vec![
        SymbolSeries {
            symbol: "A".to_string(),
            candles: candles_a,
            stats: Some(stats("A", 20.0)),
            error: None,
        },
        SymbolSeries {
            symbol: "B".to_string(),
            candles: candles_b,
            stats: Some(stats("B", 20.0)),
            error: None,
        },
    ];

    let summary = compute_risk_summary::<Floats>(&series).expect("expected a risk summary");
    assert!((float(summary.avg_pairwise_correlation) - 1.0).abs() < 1e-6);
    // Identical, fully-correlated, equal-vol assets: portfolio vol == individual vol.
    assert!((float(summary.equal_weighted_volatility_pct) - 20.0).abs() < 1e-3);
    assert!((float(summary.diversification_ratio) - 1.0).abs() < 1e-3);
    assert_eq!(summary.aligned_observations, 5); // 6 prices -> 5 daily returns
}

#[test]
fn test_single_symbol_returns_none() {
    let series = vec![SymbolSeries {
        symbol: "A".to_string(),
        candles: vec![],
        stats: None,
        error: None,
    }];
    assert!(compute_risk_summary::<Floats>(&series).is_none());
}

#[test]
fn test_errored_symbol_is_excluded_not_fatal() {
    let dates =
        ["2024-01-01", "2024-01-02", "2024-01-03", "2024-01-04", "2024-01-05", "2024-01-08"];
    let prices = [100.0, 101.0, 102.0, 100.0, 103.0, 104.0];
    let candles_a: Vec<Candle> =
        dates.iter().zip(prices.iter()).map(|(d, p)| candle(d, *p)).collect();
    let candles_b = candles_a.clone();

    let series = vec![
        SymbolSeries {
            symbol: "A".to_string(),
            candles: candles_a,
            stats: Some(stats("A", 18.0)),
            error: None,
        },
        SymbolSeries {
            symbol: "B".to_string(),
            candles: candles_b,
            stats: Some(stats("B", 22.0)),
            error: None,
        },
        SymbolSeries {
            symbol: "BADTICKER".to_string(),
            candles: vec![],
            stats: None,
            error: Some("not found".to_string()),
        },
    ];

    let summary = compute_risk_summary::<Floats>(&series)
        .expect("two good symbols should still produce a summary");
    assert_eq!(summary.symbols.len(), 2);
    assert_eq!(summary.excluded_symbols, vec!["BADTICKER".to_string()]);
}

fn log_returns(prices: &[f64]) -> Vec<f64> {
    (1..prices.len()).map(|i| (prices[i] / prices[i - 1]).ln()).collect()
}

fn pearson(a: &[f64], b: &[f64]) -> f64 {
    let n = a.len() as f64;
    let mean_a = a.iter().fold(0.0, |s, x| s + x) / n;
    let mean_b = b.iter().fold(0.0, |s, x| s + x) / n;
    let (mut cov, mut var_a, mut var_b) = (0.0, 0.0, 0.0);
    for i in 0..a.len() {
        let da = a[i] - mean_a;
        let db = b[i] - mean_b;
        cov += da * db;
        var_a += da * da;
        var_b += db * db;
    }
    if var_a <= 0.0 || var_b <= 0.0 {
        return 0.0;
    }
    cov / (var_a.sqrt() * var_b.sqrt())
}

fn summary_bits(s: &PortfolioRiskSummary) -> Vec<u64> {
    let mut bits = vec![
        s.equal_weight.bits,
        s.avg_pairwise_correlation.bits,
        s.equal_weighted_volatility_pct.bits,
        s.weighted_avg_individual_volatility_pct.bits,
        s.diversification_ratio.bits,
    ];
    for row in &s.correlation_matrix {
        for entry in row {
            bits.push(entry.bits);
        }
    }
    bits
}

const UP: [f64; 6] = [100.0, 102.0, 101.0, 105.0, 103.0, 108.0];
const DOWN: [f64; 6] = [50.0, 49.0, 49.5, 47.0, 48.0, 45.5];
const FLAT: [f64; 6] = [10.0, 10.0, 10.0, 10.0, 10.0, 10.0];

#[test]
fn summary_follows_the_formulas() {
    let basket = vec![series("B", &DOWN, 30.0), series("A", &UP, 20.0), series("C", &FLAT, 10.0)];
    let summary = compute_risk_summary::<Floats>(&basket).unwrap();
    assert_eq!(summary.symbols, vec!["A".to_string(), "B".to_string(), "C".to_string()]);
    assert!(summary.excluded_symbols.is_empty());

    let rows = [log_returns(&UP), log_returns(&DOWN), log_returns(&FLAT)];
    let mut matrix = [[0.0; 3]; 3];
    let mut sum = 0.0;
    for i in 0..3 {
        for j in 0..3 {
            matrix[i][j] = if i == j { 1.0 } else { pearson(&rows[i], &rows[j]) };
            if i < j {
                sum += matrix[i][j];
            }
            assert_eq!(float(summary.correlation_matrix[i][j]), matrix[i][j]);
        }
    }
    assert!(matrix[0][1] < -0.9);
    assert_eq!(matrix[0][2], 0.0);
    assert_eq!(float(summary.avg_pairwise_correlation), sum / 3.0);

    let w = 1.0 / 3.0;
    let vols = [20.0 / 100.0, 30.0 / 100.0, 10.0 / 100.0];
    let mut variance: f64 = 0.0;
    for i in 0..3 {
        for j in 0..3 {
            variance += w * w * vols[i] * vols[j] * matrix[i][j];
        }
    }
    let portfolio = variance.max(0.0).sqrt() * 100.0;
    let average = ((vols[0] + vols[1] + vols[2]) / 3.0) * 100.0;
    assert_eq!(float(summary.equal_weight), w);
    assert_eq!(float(summary.equal_weighted_volatility_pct), portfolio);
    assert_eq!(float(summary.weighted_avg_individual_volatility_pct), average);
    assert_eq!(float(summary.diversification_ratio), average / portfolio);
    assert!(float(summary.diversification_ratio) > 1.0);
}

#[test]
fn matrix_is_symmetric_with_ones_on_the_diagonal() {
    let basket = vec![series("B", &DOWN, 30.0), series("A", &UP, 20.0), series("C", &FLAT, 10.0)];
    let matrix = compute_risk_summary::<Floats>(&basket).unwrap().correlation_matrix;
    for i in 0..3 {
        assert_eq!(float(matrix[i][i]), 1.0);
        for j in 0..3 {
            assert_eq!(matrix[i][j], matrix[j][i]);
        }
    }
}

#[test]
fn a_portfolio_without_volatility_has_ratio_one() {
    let basket = vec![series("A", &UP, 0.0), series("B", &DOWN, 0.0)];
    let summary = compute_risk_summary::<Floats>(&basket).unwrap();
    assert_eq!(float(summary.equal_weighted_volatility_pct), 0.0);
    assert_eq!(float(summary.diversification_ratio), 1.0);
}

#[test]
fn an_unusable_symbol_changes_nothing_else() {
    let clean = vec![series("A", &UP, 20.0), series("B", &DOWN, 30.0)];
    let expected = compute_risk_summary::<Floats>(&clean).unwrap();
    for at in 0..3 {
        let mut basket = clean.clone();
        basket.insert(at, errored("BAD"));
        let summary = compute_risk_summary::<Floats>(&basket).unwrap();
        assert_eq!(summary.symbols, expected.symbols);
        assert_eq!(summary_bits(&summary), summary_bits(&expected));
        assert_eq!(summary.aligned_observations, expected.aligned_observations);
        assert_eq!(summary.excluded_symbols, vec!["BAD".to_string()]);
    }
}

#[test]
fn order_of_the_basket_does_not_matter() {
    let a = vec![series("A", &UP, 20.0), series("B", &DOWN, 30.0), series("C", &FLAT, 10.0)];
    let b = vec![a[2].clone(), a[0].clone(), a[1].clone()];
    let first = compute_risk_summary::<Floats>(&a).unwrap();
    let second = compute_risk_summary::<Floats>(&b).unwrap();
    assert_eq!(first.symbols, second.symbols);
    assert_eq!(summary_bits(&first), summary_bits(&second));
}

#[test]
fn each_reason_excludes_a_symbol() {
    let mut short = series("SHORT", &UP, 20.0);
    short.candles.truncate(4);
    let mut bare = series("BARE", &UP, 20.0);
    bare.stats = None;
    let mut marked = series("MARKED", &UP, 20.0);
    marked.error = Some("late".to_string());
    let basket = vec![short, series("B", &DOWN, 1.0), bare, series("A", &UP, 1.0), marked];
    let summary = compute_risk_summary::<Floats>(&basket).unwrap();
    assert_eq!(summary.symbols, vec!["A".to_string(), "B".to_string()]);
    assert_eq!(
        summary.excluded_symbols,
        vec!["SHORT".to_string(), "BARE".to_string(), "MARKED".to_string()]
    );
}

#[test]
fn too_few_shared_dates_give_no_summary() {
    let a = series("A", &UP, 20.0);
    let mut b = series("B", &DOWN, 30.0);
    b.candles[5].date = "2024-01-09".to_string();
    assert!(compute_risk_summary::<Floats>(&vec![a.clone(), b.clone()]).is_none());
    b.candles[5].date = "2024-01-08".to_string();
    assert_eq!(compute_risk_summary::<Floats>(&vec![a, b]).unwrap().aligned_observations, 5);
}

#[test]
fn only_shared_dates_are_compared() {
    let mut a = series("A", &UP, 20.0);
    let b = series("B", &DOWN, 30.0);
    let expected = summary_bits(&compute_risk_summary::<Floats>(&vec![a.clone(), b.clone()]).unwrap());
    a.candles.push(candle("2024-01-09", 120.0));
    let summary = compute_risk_summary::<Floats>(&vec![a, b]).unwrap();
    assert_eq!(summary.aligned_observations, 5);
    assert_eq!(summary_bits(&summary), expected);
}

#[test]
fn a_price_that_is_not_positive_leaves_no_return() {
    let mut a = series("A", &UP, 20.0);
    a.candles.push(candle("2024-01-09", 0.0));
    a.candles.push(candle("2024-01-10", 5.0));
    a.candles.push(candle("2024-01-11", 6.0));
    let map = quant_research_agent::alignment::daily_log_returns::<Floats>(&a.candles);
    assert_eq!(map.keys().len(), 6);
    assert_eq!(map.get(&"2024-01-09".to_string()), None);
    assert_eq!(map.get(&"2024-01-10".to_string()), None);
    assert_eq!(map.get(&"2024-01-11".to_string()).map(float), Some((6.0f64 / 5.0).ln()));
    assert_eq!(map.get(&"2024-01-02".to_string()).map(float), Some((102.0f64 / 100.0).ln()));
}

#[test]
fn the_last_return_of_a_date_counts() {
    let candles = vec![candle("d", 1.0), candle("e", 2.0), candle("e", 6.0)];
    let map = quant_research_agent::alignment::daily_log_returns::<Floats>(&candles);
    assert_eq!(map.keys(), vec!["e".to_string()]);
    assert_eq!(map.get(&"e".to_string()).map(float), Some((6.0f64 / 2.0).ln()));
}

#[test]
fn correlation_of_little_data_is_zero() {
    assert_eq!(float(pearson_correlation::<Floats>(&vec![], &vec![])), 0.0);
    assert_eq!(
        float(pearson_correlation::<Floats>(&vec![number(1.0)], &vec![number(2.0)])),
        0.0
    );
    let a: Vec<Number> = [1.0, 2.0, 4.0].iter().map(|x| number(*x)).collect();
    let b: Vec<Number> = [3.0, 1.0, 0.5].iter().map(|x| number(*x)).collect();
    assert_eq!(
        float(pearson_correlation::<Floats>(&a, &b)),
        pearson(&[1.0, 2.0, 4.0], &[3.0, 1.0, 0.5])
    );
}

#[test]
fn symbols_sort_by_code_point() {
    let basket = vec![
        series("b", &UP, 1.0),
        series("AB", &UP, 1.0),
        series("A", &UP, 1.0),
        series("é", &UP, 1.0),
        series("Z", &UP, 1.0),
    ];
    let mut expected: Vec<String> = basket.iter().map(|s| s.symbol.clone()).collect();
    expected.sort();
    assert_eq!(compute_risk_summary::<Floats>(&basket).unwrap().symbols, expected);
}

fn summary() -> PortfolioRiskSummary {
    PortfolioRiskSummary {
        symbols: vec!["A".to_string(), "B".to_string()],
        equal_weight: number(0.5),
        avg_pairwise_correlation: number(0.25),
        correlation_matrix: vec![
            vec![number(1.0), number(0.25)],
            vec![number(0.25), number(1.0)],
        ],
        equal_weighted_volatility_pct: number(12.25),
        weighted_avg_individual_volatility_pct: number(15.0),
        diversification_ratio: number(1.5),
        aligned_observations: 20,
        excluded_symbols: vec![],
    }
}

#[test]
fn markdown_shows_every_figure() {
    let expected = "**Symbols** (20 aligned trading days): A, B\n\n\
         - Equal-weighted portfolio annualized volatility: 12.25%\n\
         - Weighted avg. of individual volatilities (no diversification): 15.00%\n\
         - Diversification ratio: 1.50 (>1 means diversification is reducing risk)\n\
         - Average pairwise correlation: 0.25\n\n\
         Correlation matrix (daily log returns):\n\n\
         | | A | B |\n\
         |---|---|---|\n\
         | A | 1.00 | 0.25 |\n\
         | B | 0.25 | 1.00 |\n";
    assert_eq!(summary().to_markdown::<Floats>(), expected);
}

#[test]
fn markdown_names_the_excluded() {
    let mut with_excluded = summary();
    with_excluded.excluded_symbols = vec!["X".to_string(), "Y".to_string()];
    assert_eq!(
        with_excluded.to_markdown::<Floats>(),
        summary().to_markdown::<Floats>()
            + "\n_Excluded from correlation analysis (insufficient/errored data): X, Y_\n"
    );
}

fn numbers(values: &[f64]) -> Vec<Number> {
    values.iter().map(|x| number(*x)).collect()
}

const LEFT: [f64; 5] = [0.01, -0.02, 0.015, 0.0, 0.03];
const RIGHT: [f64; 5] = [0.02, -0.01, 0.005, 0.001, -0.03];

#[test]
fn correlation_is_symmetric() {
    let a = numbers(&LEFT);
    let b = numbers(&RIGHT);
    assert_eq!(pearson_correlation::<Floats>(&a, &b), pearson_correlation::<Floats>(&b, &a));
}

#[test]
fn negation_turns_the_correlation() {
    let b = numbers(&RIGHT);
    let a = float(pearson_correlation::<Floats>(&numbers(&LEFT), &b));
    let negated: Vec<f64> = LEFT.iter().map(|x| -x).collect();
    assert_eq!(float(pearson_correlation::<Floats>(&numbers(&negated), &b)), -a);
    assert!(a != 0.0);
    let flat = numbers(&[1.0, 1.0, 1.0, 1.0, 1.0]);
    assert_eq!(float(pearson_correlation::<Floats>(&flat, &b)), 0.0);
}

#[test]
fn correlation_does_not_depend_on_the_unit() {
    let b = numbers(&RIGHT);
    let a = pearson_correlation::<Floats>(&numbers(&LEFT), &b);
    for factor in [4.0, 0.25, 1024.0] {
        let scaled: Vec<f64> = LEFT.iter().map(|x| factor * x).collect();
        assert_eq!(pearson_correlation::<Floats>(&numbers(&scaled), &b), a);
    }
}
