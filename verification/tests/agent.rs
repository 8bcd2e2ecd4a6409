use quant_research_agent::agent::ResearchAgent;
use quant_research_agent::agent::ToolName;
use quant_research_agent::agent::RESEARCH_SYSTEM_PROMPT;
use quant_research_agent::config::Config;
use quant_research_agent::number::Number;
use quant_research_agent::search::SearchReply;
use quant_research_agent::search::TavilyResponse;
use quant_research_agent::search::TavilyResult;

#[test]
fn test_agent_creation() {
    let config = Config::default();
    let agent = ResearchAgent::new(config);

    assert_eq!(agent.config.model, "llama3.2");
}

#[test]
fn test_system_prompt_not_empty() {
    assert!(!RESEARCH_SYSTEM_PROMPT.is_empty());
    assert!(RESEARCH_SYSTEM_PROMPT.contains("research"));
}

fn agent_with_key(key: &str) -> ResearchAgent {
    let mut config = Config::default();
    config.tavily_api_key = key.to_string();
    config.max_search_results = 7;
    ResearchAgent::new(config)
}

fn page(title: &str) -> TavilyResult {
    TavilyResult {
        title: title.to_string(),
        url: format!("https://{title}.example"),
        content: format!("about {title}"),
        score: Number { bits: 0.5f64.to_bits() },
    }
}

fn answered(results: Vec<TavilyResult>) -> SearchReply {
    SearchReply::Answered {
        code: 200,
        status: "200 OK".to_string(),
        body: Ok(TavilyResponse { results, answer: None }),
    }
}

#[test]
fn agent_hands_its_configuration_to_its_tools() {
    let agent = agent_with_key("key");
    assert_eq!(agent.search_tool.api_key, "key");
    assert_eq!(agent.search_tool.max_results, 7);
    assert_eq!(agent.finance_tool.default_range, "3mo");
    assert_eq!(agent.finance_tool.default_interval, "1d");
    assert_eq!(agent.fx_tool.inner.default_range, "5d");
    assert_eq!(agent.fx_tool.inner.default_interval, "1d");
    assert_eq!(agent.multi_tool.inner.default_range, "3mo");
    assert_eq!(agent.multi_tool.inner.default_interval, "1d");
}

#[test]
fn research_call_wraps_the_query() {
    let call = agent_with_key("key").research("How is AAPL?");
    assert_eq!(call.host, "http://localhost:11434");
    assert_eq!(call.model, "llama3.2");
    assert_eq!(call.preamble, RESEARCH_SYSTEM_PROMPT);
    assert_eq!(f32::from_bits(call.temperature.bits), 0.7);
    assert_eq!(call.max_turns, Some(5));
    assert_eq!(
        call.tools,
        vec![
            ToolName::WebSearch,
            ToolName::YahooFinance,
            ToolName::YahooFundamentals,
            ToolName::FxRate,
            ToolName::MultiSymbolSnapshot,
        ]
    );
    assert_eq!(
        call.prompt,
        "Research the following request.\n\n        If it is a SINGLE STOCK:\n        \
         - Call yahoo_finance FIRST using range=3mo and interval=1d unless the user specifies \
         otherwise.\n        - Then call yahoo_fundamentals.\n        - Use web_search only for \
         qualitative news/context.\n        - Use the exact numeric values returned by the tools. \
         Never substitute or invent prices.\n\n        If it is MULTIPLE STOCKS:\n        - Use \
         multi_symbol_snapshot.\n\n        Then write your analysis immediately after the tool \
         results.\n\n        User request:\n        How is AAPL?"
    );
}

#[test]
fn research_failure_is_labelled() {
    let call = agent_with_key("key").research("q");
    assert_eq!(call.conclude(Ok("answer".to_string())), Ok("answer".to_string()));
    assert_eq!(
        call.conclude(Err("refused".to_string())),
        Err("Agent execution failed: refused".to_string())
    );
}

#[test]
fn quick_search_lists_the_pages() {
    let agent = agent_with_key("key");
    let r = agent.quick_search("q", answered(vec![page("one"), page("two")]));
    assert_eq!(
        r,
        Ok("## Search Results\n\n1. **one**\n   about one\n   URL: https://one.example\n\n\
            2. **two**\n   about two\n   URL: https://two.example\n"
            .to_string())
    );
}

#[test]
fn quick_search_failure_is_labelled() {
    let r = agent_with_key("").quick_search("q", answered(vec![page("one")]));
    assert_eq!(r, Err("Search failed: TAVILY_API_KEY is not set".to_string()));
    let r = agent_with_key("key").quick_search("q", answered(vec![]));
    assert_eq!(r, Err("Search failed: No results returned for query: q".to_string()));
}

#[test]
fn empty_listing_names_the_query() {
    assert_eq!(
        quant_research_agent::agent::format_quick_results("q", &vec![]),
        "No results found for: q"
    );
}
