use quant_research_agent::agent::ToolName;
use quant_research_agent::chart::YahooChartResult;
use quant_research_agent::chart::YahooIndicators;
use quant_research_agent::chart::YahooMeta;
use quant_research_agent::chart::YahooQuoteIndicators;
use quant_research_agent::config::Config;
use quant_research_agent::number::Arithmetic;
use quant_research_agent::number::Number;
use quant_research_agent::number::Single;
use quant_research_agent::orchestrator::Pipeline;
use quant_research_agent::orchestrator::PortfolioOrchestrator;
use quant_research_agent::orchestrator::NO_RISK_FIGURES;
use quant_research_agent::orchestrator::PORTFOLIO_AGENT_PREAMBLE;
use quant_research_agent::orchestrator::QUANT_AGENT_PREAMBLE;
use quant_research_agent::orchestrator::REPORT_AGENT_PREAMBLE;
use quant_research_agent::orchestrator::RESEARCH_AGENT_PREAMBLE;
use quant_research_agent::portfolio_analytics::compute_risk_summary;
use quant_research_agent::transport::FinanceError;

struct Floats;

impl Arithmetic for Floats {
    fn plus(a: Number, b: Number) -> Number {
        number(float(a) + float(b))
    }

    fn minus(a: Number, b: Number) -> Number {
        number(float(a) - float(b))
    }

    fn times(a: Number, b: Number) -> Number {
        number(float(a) * float(b))
    }

    fn divide(a: Number, b: Number) -> Number {
        number(float(a) / float(b))
    }

    fn ln(a: Number) -> Number {
        number(float(a).ln())
    }

    fn sqrt(a: Number) -> Number {
        number(float(a).sqrt())
    }

    fn square(a: Number) -> Number {
        number(float(a).powi(2))
    }

    fn from_count(n: u128) -> Number {
        number(n as f64)
    }

    fn fixed2(a: Number) -> String {
        format!("{:.2}", float(a))
    }

    fn parse_single(text: &str) -> Option<Single> {
        text.parse::<f32>().ok().map(|x| Single { bits: x.to_bits() })
    }
}

fn number(x: f64) -> Number {
    Number { bits: x.to_bits() }
}

fn float(x: Number) -> f64 {
    f64::from_bits(x.bits)
}

#[test]
fn test_orchestrator_creation() {
    let config = Config::default();
    let orchestrator = PortfolioOrchestrator::new(config);
    assert_eq!(orchestrator.config.model, "llama3.2");
}

#[test]
fn test_preambles_are_not_empty() {
    assert!(!QUANT_AGENT_PREAMBLE.is_empty());
    assert!(!RESEARCH_AGENT_PREAMBLE.is_empty());
    assert!(!PORTFOLIO_AGENT_PREAMBLE.is_empty());
    assert!(!REPORT_AGENT_PREAMBLE.is_empty());
}

fn chart(prices: &[f64]) -> YahooChartResult {
    let column: Vec<Option<Number>> = prices.iter().map(|p| Some(number(*p))).collect();
    YahooChartResult {
        meta: YahooMeta {
            currency: None,
            symbol: None,
            exchange_name: None,
            instrument_type: None,
            regular_market_price: None,
            previous_close: None,
            fifty_two_week_high: None,
            fifty_two_week_low: None,
            regular_market_time: None,
            long_name: None,
            short_name: None,
        },
        timestamp: Some((0..prices.len()).map(|i| i as i64 * 86400).collect()),
        indicators: YahooIndicators {
            quote: vec![YahooQuoteIndicators {
                open: Some(column.clone()),
                high: Some(column.clone()),
                low: Some(column.clone()),
                close: Some(column),
                volume: None,
            }],
        },
    }
}

fn fetched() -> Vec<Result<YahooChartResult, FinanceError>> {
    vec![
        Ok(chart(&[100.0, 102.0, 101.0, 105.0, 103.0, 108.0])),
        Ok(chart(&[50.0, 49.0, 49.5, 47.0, 48.0, 45.5])),
        Err(FinanceError::RateLimited),
    ]
}

fn symbols() -> Vec<String> {
    vec!["AAPL".to_string(), "PETR4.SA".to_string(), "BAD".to_string()]
}

fn start(hint: Option<&str>) -> (PortfolioOrchestrator, Pipeline) {
    let orchestrator = PortfolioOrchestrator::new(Config::default());
    let pipeline = orchestrator.run::<Floats>(&symbols(), hint, &fetched());
    (orchestrator, pipeline)
}

#[test]
fn orchestrator_looks_back_half_a_year() {
    let mut config = Config::default();
    config.tavily_api_key = "key".to_string();
    let orchestrator = PortfolioOrchestrator::new(config);
    assert_eq!(orchestrator.multi_tool.inner.default_range, "6mo");
    assert_eq!(orchestrator.multi_tool.inner.default_interval, "1d");
    assert_eq!(orchestrator.search_tool.api_key, "key");
    assert_eq!(orchestrator.search_tool.max_results, 5);
}

#[test]
fn pipeline_makes_its_calls_in_order() {
    let (orchestrator, mut pipeline) = start(None);
    let series = orchestrator.multi_tool.fetch_basket::<Floats>(&symbols(), &fetched());
    let risk = compute_risk_summary::<Floats>(&series).unwrap().to_markdown::<Floats>();
    assert_eq!(pipeline.risk_markdown, risk);
    assert!(risk.contains("AAPL, PETR4.SA"));
    assert!(risk.contains("data): BAD_"));

    let call = orchestrator.next_call(&pipeline).unwrap();
    assert_eq!(call.preamble, QUANT_AGENT_PREAMBLE);
    assert_eq!(call.host, "http://localhost:11434");
    assert_eq!(call.model, "llama3.2");
    assert_eq!(call.prompt, format!("Here are the computed portfolio risk metrics:\n\n{risk}"));
    assert_eq!(f32::from_bits(call.temperature.bits), 0.7);
    assert!(call.tools.is_empty());
    assert_eq!(call.max_turns, None);
    assert!(pipeline.finish().is_none());
    pipeline.on_reply(Ok("quant".to_string()));

    let call = orchestrator.next_call(&pipeline).unwrap();
    assert_eq!(call.preamble, RESEARCH_AGENT_PREAMBLE);
    assert_eq!(call.prompt, "Recent news and outlook for: AAPL, PETR4.SA, BAD");
    assert_eq!(call.tools, vec![ToolName::WebSearch]);
    assert_eq!(call.max_turns, Some(3));
    pipeline.on_reply(Ok("research".to_string()));

    let call = orchestrator.next_call(&pipeline).unwrap();
    assert_eq!(call.preamble, PORTFOLIO_AGENT_PREAMBLE);
    assert_eq!(
        call.prompt,
        "Quant analyst's risk interpretation:\nquant\n\nMarket research context:\nresearch"
    );
    assert!(call.tools.is_empty());
    pipeline.on_reply(Ok("advice".to_string()));

    let call = orchestrator.next_call(&pipeline).unwrap();
    assert_eq!(call.preamble, REPORT_AGENT_PREAMBLE);
    assert_eq!(
        call.prompt,
        format!(
            "Symbols: AAPL, PETR4.SA, BAD\n\nRaw risk metrics:\n{risk}\n\nQuant \
             interpretation:\nquant\n\nMarket research:\nresearch\n\nPortfolio strategy \
             notes:\nadvice"
        )
    );
    assert!(call.tools.is_empty());
    pipeline.on_reply(Ok("report".to_string()));

    assert!(orchestrator.next_call(&pipeline).is_none());
    assert_eq!(pipeline.finish(), Some(Ok("report".to_string())));
}

#[test]
fn a_hint_replaces_the_research_query() {
    let (orchestrator, mut pipeline) = start(Some("AI capex exposure in EM tech"));
    pipeline.on_reply(Ok(String::new()));
    assert_eq!(orchestrator.next_call(&pipeline).unwrap().prompt, "AI capex exposure in EM tech");
}

#[test]
fn the_first_failure_ends_the_pipeline() {
    let labels = [
        "Quant agent failed: down",
        "Research agent failed: down",
        "Portfolio agent failed: down",
        "Report agent failed: down",
    ];
    for (stage, label) in labels.iter().enumerate() {
        let (orchestrator, mut pipeline) = start(None);
        for _ in 0..stage {
            pipeline.on_reply(Ok("fine".to_string()));
        }
        let call = orchestrator.next_call(&pipeline).unwrap();
        assert_eq!(call.conclude(Err("down".to_string())), Err(label.to_string()));
        pipeline.on_reply(Err("down".to_string()));
        assert!(orchestrator.next_call(&pipeline).is_none());
        assert_eq!(pipeline.finish(), Some(Err(label.to_string())));
    }
}

#[test]
fn missing_risk_figures_are_said_to_be_missing() {
    let orchestrator = PortfolioOrchestrator::new(Config::default());
    let pipeline = orchestrator.run::<Floats>(
        &vec!["X".to_string()],
        None,
        &vec![Err(FinanceError::RateLimited)],
    );
    assert_eq!(pipeline.risk_markdown, NO_RISK_FIGURES);
    assert_eq!(
        NO_RISK_FIGURES,
        "_Not enough overlapping trading days across these symbols to compute \
         correlation/portfolio risk (this can happen with very different exchange \
         calendars or too few symbols). Proceeding with the data that was available._"
    );
}
