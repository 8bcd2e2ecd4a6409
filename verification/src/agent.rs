//! The research agent: what it asks of the language model, and the lookups that
//! bypass the model.

use vstd::prelude::*;
use crate::basket::MultiSymbolTool;
use crate::chart::YahooChartResult;
use crate::config::Config;
use crate::finance::YahooFinanceTool;
use crate::fundamentals::QuoteSummaryResult;
use crate::fundamentals::YahooFundamentalsTool;
use crate::fx::FxRateTool;
use crate::number::Arithmetic;
use crate::number::Single;
use crate::search::SearchReply;
use crate::search::SearchResult;
use crate::search::WebSearchTool;
use crate::text::count_text;
use crate::text::join_texts;
use crate::transport::FinanceError;

verus! {

/// The system prompt defines the agent's personality and behavior.
pub const RESEARCH_SYSTEM_PROMPT: &'static str = r#"
You are a financial research analyst assistant with access to real-time market data tools.

TOOLS AVAILABLE:
- yahoo_finance: single stock price, candles, quant stats
- yahoo_fundamentals: P/E, market cap, margins, valuation
- web_search: news and qualitative context
- multi_symbol_snapshot: ONLY use when the user asks about MULTIPLE tickers
- fx_rate: ONLY use when the user explicitly asks about exchange rates

STRICT RULES:
1. For a single stock query, ONLY call yahoo_finance and yahoo_fundamentals. Never call multi_symbol_snapshot or fx_rate.
2. multi_symbol_snapshot requires symbols as a JSON array: ["AAPL", "MSFT"] — never as a string.
3. Never suggest or write Python code. You have tools — use them.
4. Never say a tool failed if it returned data. Synthesise what you received.
5. After tools return data, write your analysis immediately. Do not call more tools.
6. CRITICAL: Always use the exact numbers returned by tools. Never substitute, estimate, round, or recompute price figures unless explicitly requested.
7. For single stock analysis, always call yahoo_finance with range=3mo and interval=1d unless the user explicitly specifies different values.
8. If yahoo_finance returns a price or performance metric, report those values exactly as returned by the tool.

OUTPUT FORMAT:
## [TICKER] — Analysis
**Price & Performance** (from yahoo_finance)
**Fundamentals** (from yahoo_fundamentals)
**Market Context** (from web_search)
**Assessment** — 4-5 sentences synthesising all three sources
"#;

/// What stands in front of the user's request.
pub const RESEARCH_INSTRUCTIONS: &'static str = r#"Research the following request.

        If it is a SINGLE STOCK:
        - Call yahoo_finance FIRST using range=3mo and interval=1d unless the user specifies otherwise.
        - Then call yahoo_fundamentals.
        - Use web_search only for qualitative news/context.
        - Use the exact numeric values returned by the tools. Never substitute or invent prices.

        If it is MULTIPLE STOCKS:
        - Use multi_symbol_snapshot.

        Then write your analysis immediately after the tool results.

        User request:
        "#;

/// A tool that the language model may call.
#[derive(Debug, Clone, Copy, PartialEq, Eq, Structural)]
pub enum ToolName {
    WebSearch,
    YahooFinance,
    YahooFundamentals,
    FxRate,
    MultiSymbolSnapshot,
}

/// One call of the language model.
#[derive(Debug)]
pub struct AgentCall {
    /// The server to ask.
    pub host: String,
    pub model: String,
    pub preamble: String,
    pub prompt: String,
    /// How freely the model may answer.
    pub temperature: Single,
    /// The tools that are registered, in order.
    pub tools: Vec<ToolName>,
    /// How many rounds of tool calls are allowed, where any are.
    pub max_turns: Option<usize>,
    /// What a failure is reported as.
    pub failure: String,
}

/// The mathematical counterpart of [`AgentCall`].
pub struct AgentCallView {
    pub host: Seq<char>,
    pub model: Seq<char>,
    pub preamble: Seq<char>,
    pub prompt: Seq<char>,
    pub temperature: Single,
    pub tools: Seq<ToolName>,
    pub max_turns: Option<usize>,
    pub failure: Seq<char>,
}

impl View for AgentCall {
    type V = AgentCallView;

    open spec fn view(&self) -> AgentCallView {
        AgentCallView {
            host: self.host@,
            model: self.model@,
            preamble: self.preamble@,
            prompt: self.prompt@,
            temperature: self.temperature,
            tools: self.tools@,
            max_turns: self.max_turns,
            failure: self.failure@,
        }
    }
}

/// The outcome of a call or a lookup, by the texts.
pub open spec fn answer_view(r: Result<String, String>) -> Result<Seq<char>, Seq<char>> {
    match r {
        Ok(text) => Ok(text@),
        Err(e) => Err(e@),
    }
}

/// An outcome with what failed put in front of an error.
pub open spec fn labelled(label: Seq<char>, outcome: Result<Seq<char>, Seq<char>>) -> Result<
    Seq<char>,
    Seq<char>,
> {
    match outcome {
        Ok(text) => Ok(text),
        Err(e) => Err(label + ": "@ + e),
    }
}

/// An error with what failed put in front of it.
pub(crate) fn label_error(label: &str, message: &str) -> (r: String)
    ensures
        r@ == label@ + ": "@ + message@,
{
    label.to_owned().concat(": ").concat(message)
}

impl AgentCall {
    /// What the call came to, given the reply of the model.
    pub fn conclude(&self, reply: Result<String, String>) -> (r: Result<String, String>)
        ensures
            answer_view(r) == labelled(self.failure@, answer_view(reply)),
    {
        match reply {
            Ok(text) => Ok(text),
            Err(e) => Err(label_error(self.failure.as_str(), e.as_str())),
        }
    }
}

/// The call behind a research request: all tools, and up to five rounds of them.
pub open spec fn research_call(
    config: crate::config::ConfigView,
    query: Seq<char>,
) -> AgentCallView {
    AgentCallView {
        host: config.ollama_host,
        model: config.model,
        preamble: RESEARCH_SYSTEM_PROMPT@,
        prompt: RESEARCH_INSTRUCTIONS@ + query,
        temperature: config.temperature,
        tools: seq![
            ToolName::WebSearch,
            ToolName::YahooFinance,
            ToolName::YahooFundamentals,
            ToolName::FxRate,
            ToolName::MultiSymbolSnapshot,
        ],
        max_turns: Some(5),
        failure: "Agent execution failed"@,
    }
}

/// A page in the quick listing, under its number.
pub open spec fn quick_entry(number: nat, page: crate::search::PageView) -> Seq<char> {
    crate::text::decimal(number) + ". **"@ + page.title + "**\n   "@ + page.content
        + "\n   URL: "@ + page.url + "\n"@
}

/// The pages in the quick listing, numbered from one.
pub open spec fn quick_entries(pages: Seq<crate::search::PageView>) -> Seq<Seq<char>> {
    Seq::new(pages.len(), |i: int| quick_entry((i + 1) as nat, pages[i]))
}

/// The quick listing of what a search found.
pub open spec fn quick_listing(query: Seq<char>, pages: Seq<crate::search::PageView>) -> Seq<
    char,
> {
    if pages.len() == 0 {
        "No results found for: "@ + query
    } else {
        "## Search Results\n\n"@ + crate::text::joined(quick_entries(pages), "\n"@)
    }
}

/// What a quick search comes to.
pub open spec fn quick_outcome(api_key: Seq<char>, query: Seq<char>, reply: SearchReply) -> Result<
    Seq<char>,
    Seq<char>,
> {
    match crate::search::search_outcome(api_key, query, reply) {
        Ok(pages) => Ok(quick_listing(query, pages)),
        Err(e) => Err("Search failed"@ + ": "@ + e.message()),
    }
}

fn quick_entry_text(number: usize, page: &SearchResult) -> (r: String)
    ensures
        r@ == quick_entry(number as nat, page@),
{
    let mut out = count_text(number);
    out.append(". **");
    out.append(page.title.as_str());
    out.append("**\n   ");
    out.append(page.content.as_str());
    out.append("\n   URL: ");
    out.append(page.url.as_str());
    out.append("\n");
    out
}

/// Lists what a search found.
pub fn format_quick_results(query: &str, pages: &Vec<SearchResult>) -> (r: String)
    ensures
        r@ == quick_listing(query@, crate::search::page_views(pages@)),
{
    if pages.len() == 0 {
        return "No results found for: ".to_owned().concat(query);
    }
    let ghost want = quick_entries(crate::search::page_views(pages@));
    let mut entries: Vec<String> = Vec::new();
    for i in 0..pages.len()
        invariant
            want == quick_entries(crate::search::page_views(pages@)),
            crate::text::texts(entries@) == want.take(i as int),
    {
        let ghost before = crate::text::texts(entries@);
        entries.push(quick_entry_text(i + 1, &pages[i]));
        assert(crate::text::texts(entries@) =~= before.push(want[i as int]));
        assert(want.take(i + 1) =~= before.push(want[i as int]));
    }
    assert(want.take(pages@.len() as int) =~= want);
    "## Search Results\n\n".to_owned().concat(join_texts(&entries, "\n").as_str())
}

/// The main research agent: its configuration and its tools.
#[derive(Debug, Clone)]
pub struct ResearchAgent {
    pub config: Config,
    /// The web search tool.
    pub search_tool: WebSearchTool,
    /// The Yahoo Finance price history tool.
    pub finance_tool: YahooFinanceTool,
    /// The Yahoo Finance fundamentals tool.
    pub fundamentals_tool: YahooFundamentalsTool,
    /// The exchange rate tool.
    pub fx_tool: FxRateTool,
    /// The multi-symbol snapshot tool.
    pub multi_tool: MultiSymbolTool,
}

impl ResearchAgent {
    /// An agent with the given configuration.
    pub fn new(config: Config) -> (r: ResearchAgent)
        ensures
            r.config == config,
            r.search_tool.api_key@ == config.tavily_api_key@,
            r.search_tool.max_results == config.max_search_results,
            r.finance_tool.default_range@ == "3mo"@,
            r.finance_tool.default_interval@ == "1d"@,
            r.fx_tool.inner.default_range@ == "5d"@,
            r.fx_tool.inner.default_interval@ == "1d"@,
            r.multi_tool.inner.default_range@ == "3mo"@,
            r.multi_tool.inner.default_interval@ == "1d"@,
    {
        let search_tool = WebSearchTool::new(
            config.tavily_api_key.as_str(),
            config.max_search_results,
        );
        ResearchAgent {
            config,
            search_tool,
            finance_tool: YahooFinanceTool::new("3mo", "1d"),
            fundamentals_tool: YahooFundamentalsTool::new(),
            fx_tool: FxRateTool::new(),
            multi_tool: MultiSymbolTool::new("3mo", "1d"),
        }
    }

    /// What to ask the model in order to research a topic.
    pub fn research(&self, query: &str) -> (r: AgentCall)
        ensures
            r@ == research_call(self.config@, query@),
    {
        let mut tools: Vec<ToolName> = Vec::new();
        tools.push(ToolName::WebSearch);
        tools.push(ToolName::YahooFinance);
        tools.push(ToolName::YahooFundamentals);
        tools.push(ToolName::FxRate);
        tools.push(ToolName::MultiSymbolSnapshot);
        assert(tools@ =~= research_call(self.config@, query@).tools);
        AgentCall {
            host: self.config.ollama_host.clone(),
            model: self.config.model.clone(),
            preamble: RESEARCH_SYSTEM_PROMPT.to_owned(),
            prompt: RESEARCH_INSTRUCTIONS.to_owned().concat(query),
            temperature: self.config.temperature,
            tools,
            max_turns: Some(5),
            failure: "Agent execution failed".to_owned(),
        }
    }

    /// A quick search without the model, given the reply to the search.
    pub fn quick_search(&self, query: &str, reply: SearchReply) -> (r: Result<String, String>)
        ensures
            answer_view(r) == quick_outcome(self.search_tool.api_key@, query@, reply),
    {
        match self.search_tool.search(query, reply) {
            Ok(pages) => Ok(format_quick_results(query, &pages)),
            Err(e) => Err(label_error("Search failed", e.message().as_str())),
        }
    }

    /// The report on a symbol without the model, given what the lookup came to.
    pub fn analyze_symbol<A: Arithmetic>(
        &self,
        symbol: &str,
        fetched: Result<YahooChartResult, FinanceError>,
    ) -> (r: Result<String, String>)
        requires
            fetched matches Ok(result) ==> crate::stats::volumes_add_up(
                crate::chart::chart_candles(result),
            ),
        ensures
            r is Ok <==> fetched is Ok,
            fetched matches Err(e) ==> r->Err_0@ == "Yahoo Finance lookup failed"@ + ": "@
                + e@.message(),
            fetched matches Ok(result) ==> (crate::number::repeatable::<A>()
                || crate::finance::numberless(result) ==> r->Ok_0@
                == crate::finance::chart_report::<A>(symbol@, result)),
    {
        match self.finance_tool.get_report::<A>(symbol, fetched) {
            Ok(report) => Ok(report),
            Err(e) => Err(label_error("Yahoo Finance lookup failed", e.message().as_str())),
        }
    }

    /// The fundamentals of a symbol without the model, given what the lookup came to.
    pub fn get_fundamentals<A: Arithmetic>(
        &self,
        symbol: &str,
        fetched: Result<QuoteSummaryResult, FinanceError>,
    ) -> (r: Result<String, String>)
        ensures
            r is Ok <==> fetched is Ok,
            fetched matches Err(e) ==> r->Err_0@ == "Yahoo Finance fundamentals lookup failed"@
                + ": "@ + e@.message(),
            fetched matches Ok(result) ==> (crate::number::repeatable::<A>()
                || crate::fundamentals::all_written(result) ==> r->Ok_0@ == crate::fundamentals::fundamentals_report::<A>(symbol@, result)),
    {
        match self.fundamentals_tool.get_report::<A>(symbol, fetched) {
            Ok(report) => Ok(report),
            Err(e) => Err(
                label_error("Yahoo Finance fundamentals lookup failed", e.message().as_str()),
            ),
        }
    }

    /// An exchange rate without the model, given what the lookup came to.
    pub fn get_fx_rate<A: Arithmetic>(
        &self,
        from_currency: &str,
        to_currency: &str,
        fetched: Result<YahooChartResult, FinanceError>,
    ) -> (r: Result<String, String>)
        requires
            fetched matches Ok(result) ==> crate::stats::volumes_add_up(
                crate::chart::chart_candles(result),
            ),
        ensures
            r is Ok <==> fetched is Ok,
            fetched matches Err(e) ==> r->Err_0@ == "FX rate lookup failed"@ + ": "@
                + e@.message(),
            fetched matches Ok(result) ==> (crate::number::repeatable::<A>()
                || crate::finance::numberless(result) ==> r->Ok_0@ == crate::fx::fx_report(
                from_currency@,
                to_currency@,
                crate::finance::chart_report::<A>(
                    crate::fx::pair(from_currency@, to_currency@),
                    result,
                ),
            )),
    {
        match self.fx_tool.get_report::<A>(from_currency, to_currency, fetched) {
            Ok(report) => Ok(report),
            Err(e) => Err(label_error("FX rate lookup failed", e.message().as_str())),
        }
    }

    /// The comparison table of a basket without the model, given what the
    /// lookups came to. A failed lookup is a row of the table, never a failure.
    pub fn get_portfolio_snapshot<A: Arithmetic>(
        &self,
        symbols: &Vec<String>,
        fetched: &Vec<Result<YahooChartResult, FinanceError>>,
    ) -> (r: Result<String, String>)
        requires
            symbols@.len() == fetched@.len(),
            forall|i: int|
                0 <= i < fetched@.len() ==> (#[trigger] fetched@[i] matches Ok(result)
                    ==> crate::stats::volumes_add_up(crate::chart::chart_candles(result))),
        ensures
            r is Ok,
            crate::number::repeatable::<A>() || (forall|i: int|
                0 <= i < fetched@.len() ==> crate::basket::candleless(#[trigger] fetched@[i]))
                ==> r->Ok_0@ == crate::basket::snapshot::<A>(
                symbols@.len(),
                self.multi_tool.inner.default_range@,
                self.multi_tool.inner.default_interval@,
                crate::basket::basket::<A>(crate::text::texts(symbols@), fetched@),
            ),
    {
        let series = self.multi_tool.fetch_basket::<A>(symbols, fetched);
        proof {
            let want = crate::basket::basket::<A>(crate::text::texts(symbols@), fetched@);
            if forall|i: int|
                0 <= i < fetched@.len() ==> crate::basket::candleless(#[trigger] fetched@[i]) {
                assert forall|i: int| 0 <= i < series@.len() implies (#[trigger] series@[i]).stats
                    is None && series@[i]@ == want[i] by {
                    assert(crate::basket::candleless(fetched@[i]));
                    assert(crate::basket::tells_of(series@[i]@, symbols@[i]@, fetched@[i]));
                }
                assert(crate::basket::series_views(series@) =~= want);
            }
        }
        Ok(self.multi_tool.get_report::<A>(symbols, None, None, &series))
    }
}

} // verus!
