//! The portfolio pipeline: a fixed sequence of calls of the language model, each
//! with a narrow task, where the reply to one call goes into the next.
//!
//! The risk figures are computed before the first call. The model is asked to
//! interpret them, never to compute them.

use vstd::prelude::*;
use crate::agent::AgentCall;
use crate::agent::ToolName;
use crate::agent::label_error;
use crate::basket::MultiSymbolTool;
use crate::chart::YahooChartResult;
use crate::config::Config;
use crate::number::Arithmetic;
use crate::portfolio_analytics::compute_risk_summary;
use crate::search::WebSearchTool;
use crate::text::join_texts;
use crate::transport::FinanceError;

verus! {

pub const QUANT_AGENT_PREAMBLE: &'static str = r#"
You are a quantitative risk analyst. You will be given pre-computed,
already-correct numbers: a correlation matrix, portfolio volatility, and a
diversification ratio for a basket of holdings. Do NOT recompute or
second-guess the numbers - treat them as ground truth. Your job is only to
INTERPRET them: call out concentration risk, which pairs are most/least
correlated and what that implies, and whether the diversification ratio
suggests this basket is well diversified or not. Be concise (150-250 words),
no preamble, do not repeat the raw table back verbatim.
"#;

pub const RESEARCH_AGENT_PREAMBLE: &'static str = r#"
You are a markets research assistant. Use the web_search tool ONCE to find
current, relevant context for the given symbols/topic, then summarize
concisely (150-250 words) with sources. Never call the tool more than once
per turn.
"#;

pub const PORTFOLIO_AGENT_PREAMBLE: &'static str = r#"
You are a portfolio strategist. You will be given (1) a quant analyst's risk
interpretation of a basket of holdings and (2) qualitative market research
context. Combine them into concrete, actionable portfolio observations:
where concentration risk could be trimmed, what diversification gaps exist,
and what an investor might watch for next. Include one brief line noting
this isn't personalized financial advice. Be concise (200-300 words).
"#;

pub const REPORT_AGENT_PREAMBLE: &'static str = r#"
You are a financial report writer. You will be given a quant risk
interpretation, market research context, and portfolio strategy notes for a
basket of holdings. Combine them into ONE polished markdown report with
exactly these sections: ## Overview, ## Risk Analysis, ## Market Context,
## Portfolio Recommendations, ## Next Steps. Do not invent numbers that
weren't given to you. Keep it well-organized and skimmable.
"#;

/// What stands for the risk figures where there are none.
pub const NO_RISK_FIGURES: &'static str =
    "_Not enough overlapping trading days across these symbols to compute correlation/portfolio risk (this can happen with very different exchange calendars or too few symbols). Proceeding with the data that was available._";

/// The call that interprets the risk figures.
pub open spec fn quant_call(
    config: crate::config::ConfigView,
    risk_markdown: Seq<char>,
) -> crate::agent::AgentCallView {
    crate::agent::AgentCallView {
        host: config.ollama_host,
        model: config.model,
        preamble: QUANT_AGENT_PREAMBLE@,
        prompt: "Here are the computed portfolio risk metrics:\n\n"@ + risk_markdown,
        temperature: config.temperature,
        tools: Seq::empty(),
        max_turns: None,
        failure: "Quant agent failed"@,
    }
}

/// The call that gathers qualitative context: it alone may search the web.
pub open spec fn context_call(
    config: crate::config::ConfigView,
    query: Seq<char>,
) -> crate::agent::AgentCallView {
    crate::agent::AgentCallView {
        host: config.ollama_host,
        model: config.model,
        preamble: RESEARCH_AGENT_PREAMBLE@,
        prompt: query,
        temperature: config.temperature,
        tools: seq![ToolName::WebSearch],
        max_turns: Some(3),
        failure: "Research agent failed"@,
    }
}

/// The call that draws advice from interpretation and context.
pub open spec fn advice_call(
    config: crate::config::ConfigView,
    quant_commentary: Seq<char>,
    research_context: Seq<char>,
) -> crate::agent::AgentCallView {
    crate::agent::AgentCallView {
        host: config.ollama_host,
        model: config.model,
        preamble: PORTFOLIO_AGENT_PREAMBLE@,
        prompt: "Quant analyst's risk interpretation:\n"@ + quant_commentary
            + "\n\nMarket research context:\n"@ + research_context,
        temperature: config.temperature,
        tools: Seq::empty(),
        max_turns: None,
        failure: "Portfolio agent failed"@,
    }
}

/// The call that writes the final document.
pub open spec fn report_call(
    config: crate::config::ConfigView,
    symbols: Seq<Seq<char>>,
    risk_markdown: Seq<char>,
    quant_commentary: Seq<char>,
    research_context: Seq<char>,
    portfolio_advice: Seq<char>,
) -> crate::agent::AgentCallView {
    crate::agent::AgentCallView {
        host: config.ollama_host,
        model: config.model,
        preamble: REPORT_AGENT_PREAMBLE@,
        prompt: "Symbols: "@ + crate::text::joined(symbols, ", "@) + "\n\nRaw risk metrics:\n"@
            + risk_markdown + "\n\nQuant interpretation:\n"@ + quant_commentary
            + "\n\nMarket research:\n"@ + research_context + "\n\nPortfolio strategy notes:\n"@
            + portfolio_advice,
        temperature: config.temperature,
        tools: Seq::empty(),
        max_turns: None,
        failure: "Report agent failed"@,
    }
}

/// The risk figures of a basket in words.
pub open spec fn risk_text<A: Arithmetic>(series: Seq<crate::basket::SeriesView>) -> Seq<char> {
    match crate::portfolio_analytics::risk_summary::<A>(series) {
        Some(summary) => summary.markdown::<A>(),
        None => NO_RISK_FIGURES@,
    }
}

/// What the research call is asked: the caller's hint, or else for news.
pub open spec fn research_query(symbols: Seq<Seq<char>>, hint: Option<&str>) -> Seq<char> {
    match hint {
        Some(text) => text@,
        None => "Recent news and outlook for: "@ + crate::text::joined(symbols, ", "@),
    }
}

/// A pipeline under way: what it works on, and the replies so far.
#[derive(Debug)]
pub struct Pipeline {
    pub symbols: Vec<String>,
    pub risk_markdown: String,
    pub research_query: String,
    /// The replies of the model, one for each call that succeeded.
    pub replies: Vec<String>,
    /// What ended the pipeline early, if anything did.
    pub failure: Option<String>,
}

/// The mathematical counterpart of [`Pipeline`].
pub struct PipelineView {
    pub symbols: Seq<Seq<char>>,
    pub risk_markdown: Seq<char>,
    pub research_query: Seq<char>,
    pub replies: Seq<Seq<char>>,
    pub failure: Option<Seq<char>>,
}

impl View for Pipeline {
    type V = PipelineView;

    open spec fn view(&self) -> PipelineView {
        PipelineView {
            symbols: crate::text::texts(self.symbols@),
            risk_markdown: self.risk_markdown@,
            research_query: self.research_query@,
            replies: crate::text::texts(self.replies@),
            failure: crate::text::opt_text(self.failure),
        }
    }
}

impl PipelineView {
    /// A call is to be made: nothing failed, and not all four have been.
    pub open spec fn waiting(self) -> bool {
        self.failure is None && self.replies.len() < 4
    }

    /// The call to make.
    pub open spec fn call(self, config: crate::config::ConfigView) -> crate::agent::AgentCallView {
        if self.replies.len() == 0 {
            quant_call(config, self.risk_markdown)
        } else if self.replies.len() == 1 {
            context_call(config, self.research_query)
        } else if self.replies.len() == 2 {
            advice_call(config, self.replies[0], self.replies[1])
        } else {
            report_call(
                config,
                self.symbols,
                self.risk_markdown,
                self.replies[0],
                self.replies[1],
                self.replies[2],
            )
        }
    }

    /// What a failure of the call to make is reported as.
    pub open spec fn failure_label(self) -> Seq<char> {
        if self.replies.len() == 0 {
            "Quant agent failed"@
        } else if self.replies.len() == 1 {
            "Research agent failed"@
        } else if self.replies.len() == 2 {
            "Portfolio agent failed"@
        } else {
            "Report agent failed"@
        }
    }

    /// The pipeline after the reply to its call.
    pub open spec fn after(self, reply: Result<Seq<char>, Seq<char>>) -> PipelineView {
        match crate::agent::labelled(self.failure_label(), reply) {
            Ok(text) => PipelineView { replies: self.replies.push(text), ..self },
            Err(e) => PipelineView { failure: Some(e), ..self },
        }
    }

    /// What the pipeline has come to, once it no longer waits: the failure, or
    /// the reply to the last call.
    pub open spec fn conclusion(self) -> Option<Result<Seq<char>, Seq<char>>> {
        match self.failure {
            Some(e) => Some(Err(e)),
            None => if self.replies.len() < 4 {
                None
            } else {
                Some(Ok(self.replies.last()))
            },
        }
    }
}

impl Pipeline {
    /// Takes the reply to the call that [`PortfolioOrchestrator::next_call`] named.
    pub fn on_reply(&mut self, reply: Result<String, String>)
        requires
            old(self)@.waiting(),
        ensures
            final(self)@ == old(self)@.after(crate::agent::answer_view(reply)),
    {
        match reply {
            Ok(text) => {
                let ghost before = crate::text::texts(self.replies@);
                self.replies.push(text);
                assert(crate::text::texts(self.replies@) =~= before.push(text@));
            },
            Err(e) => {
                let label = match self.replies.len() {
                    0 => "Quant agent failed",
                    1 => "Research agent failed",
                    2 => "Portfolio agent failed",
                    _ => "Report agent failed",
                };
                self.failure = Some(label_error(label, e.as_str()));
            },
        }
    }

    /// What the pipeline has come to; nothing while a call is to be made.
    pub fn finish(&self) -> (r: Option<Result<String, String>>)
        ensures
            (match r {
                Some(outcome) => Some(crate::agent::answer_view(outcome)),
                None => None,
            }) == self@.conclusion(),
    {
        match &self.failure {
            Some(e) => Some(Err(e.clone())),
            None => {
                if self.replies.len() < 4 {
                    None
                } else {
                    Some(Ok(self.replies[self.replies.len() - 1].clone()))
                }
            },
        }
    }
}

/// Orchestrates the portfolio pipeline.
#[derive(Debug, Clone)]
pub struct PortfolioOrchestrator {
    pub config: Config,
    pub multi_tool: MultiSymbolTool,
    pub search_tool: WebSearchTool,
}

impl PortfolioOrchestrator {
    /// An orchestrator over half a year of daily prices.
    pub fn new(config: Config) -> (r: PortfolioOrchestrator)
        ensures
            r.config == config,
            r.multi_tool.inner.default_range@ == "6mo"@,
            r.multi_tool.inner.default_interval@ == "1d"@,
            r.search_tool.api_key@ == config.tavily_api_key@,
            r.search_tool.max_results == config.max_search_results,
    {
        let search_tool = WebSearchTool::new(
            config.tavily_api_key.as_str(),
            config.max_search_results,
        );
        PortfolioOrchestrator {
            config,
            multi_tool: MultiSymbolTool::new("6mo", "1d"),
            search_tool,
        }
    }

    /// Begins the pipeline for a basket, given what the lookups of its symbols
    /// came to. The risk figures are computed here.
    pub fn run<A: Arithmetic>(
        &self,
        symbols: &Vec<String>,
        context_query: Option<&str>,
        fetched: &Vec<Result<YahooChartResult, FinanceError>>,
    ) -> (r: Pipeline)
        requires
            symbols@.len() == fetched@.len(),
            forall|i: int|
                0 <= i < fetched@.len() ==> (#[trigger] fetched@[i] matches Ok(result)
                    ==> crate::stats::volumes_add_up(crate::chart::chart_candles(result))),
        ensures
            r@.symbols == crate::text::texts(symbols@),
            r@.research_query == research_query(crate::text::texts(symbols@), context_query),
            r@.replies.len() == 0,
            r@.failure is None,
            crate::number::repeatable::<A>() || !crate::portfolio_analytics::analysable(
                crate::basket::basket::<A>(crate::text::texts(symbols@), fetched@),
            ) ==> r@.risk_markdown == risk_text::<A>(
                crate::basket::basket::<A>(crate::text::texts(symbols@), fetched@),
            ),
    {
        let series = self.multi_tool.fetch_basket::<A>(symbols, fetched);
        proof {
            let found = crate::basket::series_views(series@);
            let want = crate::basket::basket::<A>(crate::text::texts(symbols@), fetched@);
            assert forall|i: int| 0 <= i < found.len() implies crate::portfolio_analytics::alike(
                #[trigger] found[i],
                want[i],
            ) by {
                assert(crate::basket::tells_of(series@[i]@, symbols@[i]@, fetched@[i]));
            }
            crate::portfolio_analytics::law_analysability_does_not_depend_on_figures(found, want);
        }
        let risk_markdown = match compute_risk_summary::<A>(&series) {
            Some(summary) => {
                assert(summary@.symbols.len() == summary@.correlation_matrix.len());
                summary.to_markdown::<A>()
            },
            None => NO_RISK_FIGURES.to_owned(),
        };
        let research_query = match context_query {
            Some(text) => text.to_owned(),
            None => "Recent news and outlook for: ".to_owned().concat(
                join_texts(symbols, ", ").as_str(),
            ),
        };
        let mut names: Vec<String> = Vec::new();
        for i in 0..symbols.len()
            invariant
                names@ == symbols@.take(i as int),
        {
            names.push(symbols[i].clone());
            assert(names@ =~= symbols@.take(i + 1));
        }
        assert(symbols@.take(symbols@.len() as int) =~= symbols@);
        Pipeline {
            symbols: names,
            risk_markdown,
            research_query,
            replies: Vec::new(),
            failure: None,
        }
    }

    /// The call that a pipeline is to make next; none once it has come to an end.
    pub fn next_call(&self, pipeline: &Pipeline) -> (r: Option<AgentCall>)
        ensures
            r is Some <==> pipeline@.waiting(),
            r matches Some(call) ==> call@ == pipeline@.call(self.config@),
    {
        if pipeline.failure.is_some() {
            return None;
        }
        let replies = &pipeline.replies;
        if replies.len() == 0 {
            Some(self.run_quant_agent(pipeline.risk_markdown.as_str()))
        } else if replies.len() == 1 {
            Some(self.run_research_agent(pipeline.research_query.as_str()))
        } else if replies.len() == 2 {
            Some(self.run_portfolio_agent(replies[0].as_str(), replies[1].as_str()))
        } else if replies.len() == 3 {
            Some(
                self.run_report_agent(
                    &pipeline.symbols,
                    pipeline.risk_markdown.as_str(),
                    replies[0].as_str(),
                    replies[1].as_str(),
                    replies[2].as_str(),
                ),
            )
        } else {
            None
        }
    }

    /// A call of the configured model without tools.
    fn plain_call(&self, preamble: &str, prompt: String, failure: &str) -> (r: AgentCall)
        ensures
            r@ == (crate::agent::AgentCallView {
                host: self.config.ollama_host@,
                model: self.config.model@,
                preamble: preamble@,
                prompt: prompt@,
                temperature: self.config.temperature,
                tools: Seq::empty(),
                max_turns: None,
                failure: failure@,
            }),
    {
        AgentCall {
            host: self.config.ollama_host.clone(),
            model: self.config.model.clone(),
            preamble: preamble.to_owned(),
            prompt,
            temperature: self.config.temperature,
            tools: Vec::new(),
            max_turns: None,
            failure: failure.to_owned(),
        }
    }

    /// The call that interprets the risk figures.
    pub fn run_quant_agent(&self, risk_markdown: &str) -> (r: AgentCall)
        ensures
            r@ == quant_call(self.config@, risk_markdown@),
    {
        let prompt = "Here are the computed portfolio risk metrics:\n\n".to_owned().concat(
            risk_markdown,
        );
        self.plain_call(QUANT_AGENT_PREAMBLE, prompt, "Quant agent failed")
    }

    /// The call that gathers qualitative context.
    pub fn run_research_agent(&self, query: &str) -> (r: AgentCall)
        ensures
            r@ == context_call(self.config@, query@),
    {
        let mut call = self.plain_call(
            RESEARCH_AGENT_PREAMBLE,
            query.to_owned(),
            "Research agent failed",
        );
        call.tools.push(ToolName::WebSearch);
        call.max_turns = Some(3);
        assert(call.tools@ =~= seq![ToolName::WebSearch]);
        call
    }

    /// The call that draws advice from interpretation and context.
    pub fn run_portfolio_agent(&self, quant_commentary: &str, research_context: &str) -> (r:
        AgentCall)
        ensures
            r@ == advice_call(self.config@, quant_commentary@, research_context@),
    {
        let mut prompt = "Quant analyst's risk interpretation:\n".to_owned();
        prompt.append(quant_commentary);
        prompt.append("\n\nMarket research context:\n");
        prompt.append(research_context);
        self.plain_call(PORTFOLIO_AGENT_PREAMBLE, prompt, "Portfolio agent failed")
    }

    /// The call that writes the final document.
    pub fn run_report_agent(
        &self,
        symbols: &Vec<String>,
        risk_markdown: &str,
        quant_commentary: &str,
        research_context: &str,
        portfolio_advice: &str,
    ) -> (r: AgentCall)
        ensures
            r@ == report_call(
                self.config@,
                crate::text::texts(symbols@),
                risk_markdown@,
                quant_commentary@,
                research_context@,
                portfolio_advice@,
            ),
    {
        let mut prompt = "Symbols: ".to_owned();
        prompt.append(join_texts(symbols, ", ").as_str());
        prompt.append("\n\nRaw risk metrics:\n");
        prompt.append(risk_markdown);
        prompt.append("\n\nQuant interpretation:\n");
        prompt.append(quant_commentary);
        prompt.append("\n\nMarket research:\n");
        prompt.append(research_context);
        prompt.append("\n\nPortfolio strategy notes:\n");
        prompt.append(portfolio_advice);
        self.plain_call(REPORT_AGENT_PREAMBLE, prompt, "Report agent failed")
    }
}

/// The tasks of the calls, in the order in which they are made.
pub open spec fn preambles() -> Seq<Seq<char>> {
    seq![
        QUANT_AGENT_PREAMBLE@,
        RESEARCH_AGENT_PREAMBLE@,
        PORTFOLIO_AGENT_PREAMBLE@,
        REPORT_AGENT_PREAMBLE@,
    ]
}

/// The calls are made in a fixed order, whatever is replied: the number of
/// replies alone says which comes next, and a reply leaves everything else as
/// it is.
pub proof fn law_stages_run_in_order(
    p: PipelineView,
    config: crate::config::ConfigView,
    text: Seq<char>,
)
    requires
        p.waiting(),
    ensures
        p.call(config).preamble == preambles()[p.replies.len() as int],
        p.after(Ok(text)) == (PipelineView { replies: p.replies.push(text), ..p }),
{
}

/// A pipeline in which every call succeeds makes four calls, and comes to the
/// reply to the last of them.
pub proof fn law_pipeline_comes_to_the_last_reply(
    p: PipelineView,
    quant: Seq<char>,
    research: Seq<char>,
    advice: Seq<char>,
    report: Seq<char>,
)
    requires
        p.failure is None,
        p.replies.len() == 0,
    ensures
        p.waiting(),
        p.after(Ok(quant)).waiting(),
        p.after(Ok(quant)).after(Ok(research)).waiting(),
        p.after(Ok(quant)).after(Ok(research)).after(Ok(advice)).waiting(),
        !p.after(Ok(quant)).after(Ok(research)).after(Ok(advice)).after(Ok(report)).waiting(),
        p.after(Ok(quant)).after(Ok(research)).after(Ok(advice)).after(Ok(report)).conclusion()
            == Some(Ok::<Seq<char>, Seq<char>>(report)),
{
}

/// The first call that fails ends the pipeline: no call follows, and the
/// failure is what is reported, under the name of the call.
pub proof fn law_first_failure_ends_the_pipeline(
    p: PipelineView,
    config: crate::config::ConfigView,
    e: Seq<char>,
)
    requires
        p.waiting(),
    ensures
        !p.after(Err(e)).waiting(),
        p.after(Err(e)).conclusion() == Some(
            Err::<Seq<char>, Seq<char>>(p.call(config).failure + ": "@ + e),
        ),
{
}

/// A text holds another one, word for word.
pub open spec fn holds(text: Seq<char>, part: Seq<char>) -> bool {
    exists|before: Seq<char>, after: Seq<char>| text == #[trigger] (before + part + after)
}

/// The risk figures stand, word for word, in what the first and the last call
/// ask, however the calls before them were answered.
pub proof fn law_risk_figures_reach_the_model_unchanged(
    p: PipelineView,
    config: crate::config::ConfigView,
)
    requires
        p.waiting(),
        p.replies.len() == 0 || p.replies.len() == 3,
    ensures
        holds(p.call(config).prompt, p.risk_markdown),
{
    let prompt = p.call(config).prompt;
    if p.replies.len() == 0 {
        let before = "Here are the computed portfolio risk metrics:\n\n"@;
        assert(prompt =~= before + p.risk_markdown + Seq::<char>::empty());
    } else {
        let before = "Symbols: "@ + crate::text::joined(p.symbols, ", "@)
            + "\n\nRaw risk metrics:\n"@;
        let after = "\n\nQuant interpretation:\n"@ + p.replies[0] + "\n\nMarket research:\n"@
            + p.replies[1] + "\n\nPortfolio strategy notes:\n"@ + p.replies[2];
        assert(prompt =~= before + p.risk_markdown + after);
    }
}

/// The reply to each of the first three calls stands, word for word, in what
/// the last call asks.
pub proof fn law_replies_reach_the_report(p: PipelineView, config: crate::config::ConfigView, i: int)
    requires
        p.waiting(),
        p.replies.len() == 3,
        0 <= i < 3,
    ensures
        holds(p.call(config).prompt, p.replies[i]),
{
    let prompt = p.call(config).prompt;
    let first = "Symbols: "@ + crate::text::joined(p.symbols, ", "@) + "\n\nRaw risk metrics:\n"@
        + p.risk_markdown + "\n\nQuant interpretation:\n"@;
    let second = first + p.replies[0] + "\n\nMarket research:\n"@;
    let third = second + p.replies[1] + "\n\nPortfolio strategy notes:\n"@;
    if i == 0 {
        assert(prompt =~= first + p.replies[0] + ("\n\nMarket research:\n"@ + p.replies[1]
            + "\n\nPortfolio strategy notes:\n"@ + p.replies[2]));
    } else if i == 1 {
        assert(prompt =~= second + p.replies[1] + ("\n\nPortfolio strategy notes:\n"@
            + p.replies[2]));
    } else {
        assert(prompt =~= third + p.replies[2] + Seq::<char>::empty());
    }
}

/// Only the second call has a tool, the web search.
pub proof fn law_only_the_research_call_has_tools(
    p: PipelineView,
    config: crate::config::ConfigView,
)
    requires
        p.waiting(),
    ensures
        p.replies.len() == 1 ==> p.call(config).tools == seq![ToolName::WebSearch],
        p.replies.len() != 1 ==> p.call(config).tools.len() == 0,
{
}

} // verus!
