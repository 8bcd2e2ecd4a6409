//! Replies, requests, configuration and calls of the model.

use vstd::prelude::*;
use crate::agent::ToolName;
use crate::config::ConfigError;
use crate::fundamentals::CrumbReply;
use crate::number::Arithmetic;
use crate::search::SearchReply;
use crate::transport::Body;
use crate::transport::HostReply;

verus! {

/// The status codes of success are those that start with a 2.
pub proof fn law_success_is_a_matter_of_the_first_digit(code: u16)
    ensures
        crate::transport::success_code(code) <==> code / 100 == 2,
{
}

/// A host delivers where its answer has a status of success, was understood,
/// reports no error and lists at least one result: the last of them. No other
/// reply delivers anything.
pub proof fn law_host_delivers_the_last_result<T>(
    symbol: Seq<char>,
    host: Seq<char>,
    reply: HostReply<T>,
    delivery: T,
)
    ensures
        crate::transport::verdict(symbol, host, reply) == Ok::<
            T,
            crate::transport::FinanceErrorView,
        >(delivery) <==> {
            &&& reply matches HostReply::Answered { code, status, body }
            &&& 200 <= code <= 299
            &&& body matches Body::Parsed(envelope)
            &&& envelope.error is None
            &&& envelope.result matches Some(results)
            &&& results@.len() > 0
            &&& results@[results@.len() - 1] == delivery
        },
{
}

/// Each error of a host comes of its own kind of reply, and holds what the
/// reply says.
pub proof fn law_host_errors_say_what_happened<T>(
    symbol: Seq<char>,
    host: Seq<char>,
    reply: HostReply<T>,
)
    ensures
        crate::transport::verdict(symbol, host, reply) == Err::<
            T,
            crate::transport::FinanceErrorView,
        >(crate::transport::FinanceErrorView::RateLimited) <==> {
            &&& reply matches HostReply::Answered { code, status, body }
            &&& code == 429
        },
        reply matches HostReply::SendFailed(e) ==> crate::transport::verdict(symbol, host, reply)
            == Err::<T, crate::transport::FinanceErrorView>(
            crate::transport::FinanceErrorView::NetworkError(e@),
        ),
        reply matches HostReply::Answered { code, status, body } ==> {
            &&& code != 429 && (code < 200 || code > 299) ==> crate::transport::verdict(
                symbol,
                host,
                reply,
            ) == Err::<T, crate::transport::FinanceErrorView>(
                crate::transport::FinanceErrorView::RequestFailed(
                    "HTTP "@ + status@ + " from "@ + host,
                ),
            )
            &&& 200 <= code <= 299 ==> {
                &&& body matches Body::Unreadable(e) ==> crate::transport::verdict(
                    symbol,
                    host,
                    reply,
                ) == Err::<T, crate::transport::FinanceErrorView>(
                    crate::transport::FinanceErrorView::NetworkError(e@),
                )
                &&& body matches Body::Malformed(e) ==> crate::transport::verdict(
                    symbol,
                    host,
                    reply,
                ) == Err::<T, crate::transport::FinanceErrorView>(
                    crate::transport::FinanceErrorView::ParseFailed(e@),
                )
                &&& body matches Body::Parsed(envelope) ==> {
                    &&& envelope.error is Some && envelope.error->0.description is Some
                        ==> crate::transport::verdict(symbol, host, reply) == Err::<
                        T,
                        crate::transport::FinanceErrorView,
                    >(
                        crate::transport::FinanceErrorView::SymbolNotFound(
                            envelope.error->0.description->0@,
                        ),
                    )
                    &&& envelope.error is Some && envelope.error->0.description is None
                        ==> crate::transport::verdict(symbol, host, reply) == Err::<
                        T,
                        crate::transport::FinanceErrorView,
                    >(crate::transport::FinanceErrorView::SymbolNotFound(symbol))
                    &&& envelope.error is None && (envelope.result is None
                        || envelope.result->0@.len() == 0) ==> crate::transport::verdict(
                        symbol,
                        host,
                        reply,
                    ) == Err::<T, crate::transport::FinanceErrorView>(
                        crate::transport::FinanceErrorView::SymbolNotFound(symbol),
                    )
                }
            }
        },
{
}

/// Each kind of error has an opening of its own, and what an error holds
/// follows it, word for word.
pub proof fn law_error_messages_hold_what_happened(s: Seq<char>)
    ensures
        crate::transport::FinanceErrorView::RequestFailed(s).message()
            == "Failed to fetch data from Yahoo Finance: "@ + s,
        crate::transport::FinanceErrorView::ParseFailed(s).message()
            == "Failed to parse Yahoo Finance response: "@ + s,
        crate::transport::FinanceErrorView::SymbolNotFound(s).message()
            == "Symbol not found or no data returned for: "@ + s,
        crate::transport::FinanceErrorView::RateLimited.message()
            == "Rate limited by Yahoo Finance, please wait"@,
        crate::transport::FinanceErrorView::NetworkError(s).message() == "Network error: "@ + s,
        crate::search::SearchErrorView::RequestFailed(s).message() == "Tavily API request failed: "@
            + s,
        crate::search::SearchErrorView::NoResults(s).message()
            == "No results returned for query: "@ + s,
        crate::search::SearchErrorView::NetworkError(s).message() == "Network error: "@ + s,
        crate::search::SearchErrorView::MissingApiKey.message() == "TAVILY_API_KEY is not set"@,
        ConfigError::EmptyModel.spec_message() == "OLLAMA_MODEL cannot be empty"@,
        ConfigError::TemperatureOutOfRange.spec_message()
            == "TEMPERATURE must be between 0.0 and 2.0"@,
        ConfigError::NoSearchResults.spec_message() == "MAX_SEARCH_RESULTS must be at least 1"@,
{
}

/// A lookup asks for the URL of the first endpoint not yet asked, as long as
/// none has delivered; a reply moves it on by one endpoint, and changes the
/// delivery where it is one and the error where it is not.
pub proof fn law_lookup_moves_on_one_endpoint_at_a_time<T>(
    fetch: crate::transport::HostFetchView<T>,
    reply: HostReply<T>,
)
    ensures
        fetch.request() is Some <==> fetch.waiting(),
        fetch.waiting() <==> fetch.outcome is None && fetch.tried < fetch.endpoints.len(),
        fetch.waiting() ==> fetch.request() == Some(fetch.endpoints[fetch.tried as int].url),
        fetch.after(reply).tried == fetch.tried + 1,
        fetch.after(reply).symbol == fetch.symbol,
        fetch.after(reply).endpoints == fetch.endpoints,
        crate::transport::verdict(
            fetch.symbol,
            fetch.endpoints[fetch.tried as int].host,
            reply,
        ) matches Ok(delivery) ==> fetch.after(reply).outcome == Some(delivery) && fetch.after(
            reply,
        ).last_error == fetch.last_error,
        crate::transport::verdict(
            fetch.symbol,
            fetch.endpoints[fetch.tried as int].host,
            reply,
        ) matches Err(e) ==> fetch.after(reply).outcome == fetch.outcome && fetch.after(
            reply,
        ).last_error == Some(e),
        fetch.outcome matches Some(delivery) ==> fetch.conclusion() == Ok::<
            T,
            crate::transport::FinanceErrorView,
        >(delivery),
        fetch.outcome is None && fetch.last_error is Some ==> fetch.conclusion() == Err::<
            T,
            crate::transport::FinanceErrorView,
        >(fetch.last_error->0),
        fetch.outcome is None && fetch.last_error is None ==> fetch.conclusion() == Err::<
            T,
            crate::transport::FinanceErrorView,
        >(
            crate::transport::FinanceErrorView::RequestFailed("All Yahoo Finance hosts failed"@),
        ),
{
}

/// A chart is asked for on two hosts in turn, under URLs that name the host and
/// hold symbol, range and interval, encoded, each as the parameter of its name.
#[verifier::rlimit(40)]
pub proof fn law_chart_requests_name_what_is_asked_for(
    symbol: Seq<char>,
    range: Seq<char>,
    interval: Seq<char>,
    i: int,
)
    requires
        0 <= i < 2,
    ensures
        ({
            let fetch = crate::finance::chart_fetch(symbol, range, interval);
            let url = fetch.endpoints[i].url;
            &&& fetch.symbol == symbol
            &&& fetch.tried == 0
            &&& fetch.outcome is None
            &&& fetch.last_error is None
            &&& fetch.endpoints.len() == 2
            &&& fetch.endpoints[0].host == "query1.finance.yahoo.com"@
            &&& fetch.endpoints[1].host == "query2.finance.yahoo.com"@
            &&& crate::laws::texts::shows(
                url,
                "https://"@,
                fetch.endpoints[i].host,
                "/v8/finance/chart/"@,
            )
            &&& crate::laws::texts::shows(
                url,
                "/v8/finance/chart/"@,
                crate::outside::percent_encoded(symbol),
                "?range="@,
            )
            &&& crate::laws::texts::shows(
                url,
                "?range="@,
                crate::outside::percent_encoded(range),
                "&interval="@,
            )
            &&& crate::laws::texts::shows(
                url,
                "&interval="@,
                crate::outside::percent_encoded(interval),
                "&includePrePost=false"@,
            )
        }),
{
    broadcast use {
        crate::laws::texts::lemma_shows_first,
        crate::laws::texts::lemma_shows_here,
        crate::laws::texts::lemma_shows_more,
    };

    let host = crate::finance::chart_endpoints(symbol, range, interval)[i].host;
    assert(crate::finance::chart_endpoints(symbol, range, interval)[i].url
        == crate::finance::chart_url(host, symbol, range, interval));
}

/// Fundamentals are asked for on two hosts in turn, under URLs that name the
/// host and hold symbol and crumb, encoded.
#[verifier::rlimit(40)]
pub proof fn law_fundamentals_requests_name_what_is_asked_for(
    symbol: Seq<char>,
    crumb: Seq<char>,
    i: int,
)
    requires
        0 <= i < 2,
    ensures
        ({
            let endpoints = crate::fundamentals::fundamentals_endpoints(symbol, crumb);
            let url = endpoints[i].url;
            &&& endpoints.len() == 2
            &&& endpoints[0].host == "query1.finance.yahoo.com"@
            &&& endpoints[1].host == "query2.finance.yahoo.com"@
            &&& crate::laws::texts::shows(
                url,
                "https://"@,
                endpoints[i].host,
                "/v10/finance/quoteSummary/"@,
            )
            &&& crate::laws::texts::shows(
                url,
                "/v10/finance/quoteSummary/"@,
                crate::outside::percent_encoded(symbol),
                "?modules=summaryDetail,defaultKeyStatistics,financialData,assetProfile&crumb="@,
            )
            &&& crate::laws::texts::ends_with(
                url,
                "?modules=summaryDetail,defaultKeyStatistics,financialData,assetProfile&crumb="@
                    + crate::outside::percent_encoded(crumb),
            )
        }),
{
    broadcast use {
        crate::laws::texts::lemma_shows_first,
        crate::laws::texts::lemma_shows_here,
        crate::laws::texts::lemma_shows_more,
    };

    let endpoints = crate::fundamentals::fundamentals_endpoints(symbol, crumb);
    let host = endpoints[i].host;
    let front = "https://"@ + host + "/v10/finance/quoteSummary/"@
        + crate::outside::percent_encoded(symbol);
    assert(endpoints[i].url == crate::fundamentals::fundamentals_url(host, symbol, crumb));
    assert(endpoints[i].url =~= front + (
    "?modules=summaryDetail,defaultKeyStatistics,financialData,assetProfile&crumb="@
        + crate::outside::percent_encoded(crumb)));
}

/// What the caller names is taken, and the default where nothing is named.
pub proof fn law_choices_come_before_defaults(choice: &str, default: Seq<char>)
    ensures
        crate::finance::or_default(Some(choice), default) == choice@,
        crate::finance::or_default(None, default) == default,
{
}

/// A crumb is the body of a successful answer without the whitespace around
/// it, where anything is left; no other reply has one, and each failure says
/// what happened.
pub proof fn law_crumb_is_the_trimmed_body(reply: CrumbReply, crumb: Seq<char>)
    ensures
        crate::fundamentals::crumb_verdict(reply) == Ok::<
            Seq<char>,
            crate::transport::FinanceErrorView,
        >(crumb) <==> {
            &&& reply matches CrumbReply::Answered { code, status, body }
            &&& 200 <= code <= 299
            &&& body matches Ok(text)
            &&& crumb.len() > 0
            &&& crumb == crate::text::trimmed(text@)
        },
        reply matches CrumbReply::SendFailed(e) ==> crate::fundamentals::crumb_verdict(reply)
            == Err::<Seq<char>, crate::transport::FinanceErrorView>(
            crate::transport::FinanceErrorView::NetworkError(e@),
        ),
        reply matches CrumbReply::Answered { code, status, body } ==> {
            &&& code < 200 || code > 299 ==> crate::fundamentals::crumb_verdict(reply) == Err::<
                Seq<char>,
                crate::transport::FinanceErrorView,
            >(
                crate::transport::FinanceErrorView::RequestFailed(
                    "Failed to fetch Yahoo crumb token: HTTP "@ + status@,
                ),
            )
            &&& 200 <= code <= 299 && body is Err ==> crate::fundamentals::crumb_verdict(reply)
                == Err::<Seq<char>, crate::transport::FinanceErrorView>(
                crate::transport::FinanceErrorView::NetworkError(body->Err_0@),
            )
            &&& 200 <= code <= 299 && body is Ok && crate::text::trimmed(body->Ok_0@).len() == 0
                ==> crate::fundamentals::crumb_verdict(reply) == Err::<
                Seq<char>,
                crate::transport::FinanceErrorView,
            >(
                crate::transport::FinanceErrorView::RequestFailed(
                    "Yahoo returned an empty crumb token"@,
                ),
            )
        },
{
}

/// A search with a key finds the pages of a successful reply, every one of them
/// and in order, with title, address, content and score as they were replied.
pub proof fn law_search_finds_the_replied_pages(
    api_key: Seq<char>,
    query: Seq<char>,
    reply: SearchReply,
)
    ensures
        crate::search::search_outcome(api_key, query, reply) is Ok <==> {
            &&& api_key.len() > 0
            &&& reply matches SearchReply::Answered { code, status, body }
            &&& 200 <= code <= 299
            &&& body matches Ok(response)
            &&& response.results@.len() > 0
        },
        crate::search::search_outcome(api_key, query, reply) matches Ok(pages) ==> {
            let found = reply->body->Ok_0.results@;
            &&& pages.len() == found.len()
            &&& forall|i: int|
                0 <= i < found.len() ==> {
                    &&& (#[trigger] pages[i]).title == found[i].title@
                    &&& pages[i].url == found[i].url@
                    &&& pages[i].content == found[i].content@
                    &&& pages[i].score == found[i].score
                }
        },
        api_key.len() > 0 ==> {
            &&& reply matches SearchReply::SendFailed(e) ==> crate::search::search_outcome(
                api_key,
                query,
                reply,
            ) == Err::<Seq<crate::search::PageView>, crate::search::SearchErrorView>(
                crate::search::SearchErrorView::NetworkError(e@),
            )
            &&& reply matches SearchReply::Answered { code, status, body } ==> {
                &&& code < 200 || code > 299 ==> crate::search::search_outcome(
                    api_key,
                    query,
                    reply,
                ) == Err::<Seq<crate::search::PageView>, crate::search::SearchErrorView>(
                    crate::search::SearchErrorView::RequestFailed("HTTP "@ + status@),
                )
                &&& 200 <= code <= 299 && body is Err ==> crate::search::search_outcome(
                    api_key,
                    query,
                    reply,
                ) == Err::<Seq<crate::search::PageView>, crate::search::SearchErrorView>(
                    crate::search::SearchErrorView::RequestFailed(body->Err_0@),
                )
                &&& 200 <= code <= 299 && body is Ok && body->Ok_0.results@.len() == 0
                    ==> crate::search::search_outcome(api_key, query, reply) == Err::<
                    Seq<crate::search::PageView>,
                    crate::search::SearchErrorView,
                >(crate::search::SearchErrorView::NoResults(query))
            }
        },
{
}

/// A quick search lists what the search found, and puts what failed in front of
/// an error.
pub proof fn law_quick_search_is_a_search(
    api_key: Seq<char>,
    query: Seq<char>,
    reply: SearchReply,
)
    ensures
        crate::search::search_outcome(api_key, query, reply) matches Ok(pages)
            ==> crate::agent::quick_outcome(api_key, query, reply) == Ok::<Seq<char>, Seq<char>>(
            crate::agent::quick_listing(query, pages),
        ),
        crate::search::search_outcome(api_key, query, reply) matches Err(e)
            ==> crate::agent::quick_outcome(api_key, query, reply) == Err::<Seq<char>, Seq<char>>(
            "Search failed"@ + ": "@ + e.message(),
        ),
{
}

/// What a value shows of itself holds its fields under the same names, and a
/// list shows its members in order.
pub proof fn law_exchange_views_are_faithful<T>(
    fetch: crate::transport::HostFetch<T>,
    endpoint: crate::transport::Endpoint,
    error: crate::transport::FinanceError,
    outcome: Result<T, crate::transport::FinanceError>,
    page: crate::search::SearchResult,
    found: crate::search::TavilyResult,
    search_error: crate::search::SearchError,
    pages: Seq<crate::search::SearchResult>,
)
    ensures
        endpoint@.host == endpoint.host@ && endpoint@.url == endpoint.url@,
        fetch@.symbol == fetch.symbol@,
        fetch@.endpoints.len() == fetch.endpoints@.len(),
        forall|i: int|
            0 <= i < fetch.endpoints@.len() ==> #[trigger] fetch@.endpoints[i]
                == fetch.endpoints@[i]@,
        fetch@.tried == fetch.tried && fetch@.outcome == fetch.outcome,
        fetch.last_error matches Some(e) ==> fetch@.last_error == Some(e@),
        fetch.last_error is None ==> fetch@.last_error is None,
        error matches crate::transport::FinanceError::RequestFailed(s) ==> error@
            == crate::transport::FinanceErrorView::RequestFailed(s@),
        error matches crate::transport::FinanceError::ParseFailed(s) ==> error@
            == crate::transport::FinanceErrorView::ParseFailed(s@),
        error matches crate::transport::FinanceError::SymbolNotFound(s) ==> error@
            == crate::transport::FinanceErrorView::SymbolNotFound(s@),
        error is RateLimited ==> error@ == crate::transport::FinanceErrorView::RateLimited,
        error matches crate::transport::FinanceError::NetworkError(s) ==> error@
            == crate::transport::FinanceErrorView::NetworkError(s@),
        outcome matches Ok(t) ==> crate::transport::outcome_view(outcome) == Ok::<
            T,
            crate::transport::FinanceErrorView,
        >(t),
        outcome matches Err(e) ==> crate::transport::outcome_view(outcome) == Err::<
            T,
            crate::transport::FinanceErrorView,
        >(e@),
        page@.title == page.title@ && page@.url == page.url@ && page@.content == page.content@
            && page@.score == page.score,
        found@.title == found.title@ && found@.url == found.url@ && found@.content
            == found.content@ && found@.score == found.score,
        search_error matches crate::search::SearchError::RequestFailed(s) ==> search_error@
            == crate::search::SearchErrorView::RequestFailed(s@),
        search_error matches crate::search::SearchError::NoResults(s) ==> search_error@
            == crate::search::SearchErrorView::NoResults(s@),
        search_error matches crate::search::SearchError::NetworkError(s) ==> search_error@
            == crate::search::SearchErrorView::NetworkError(s@),
        search_error is MissingApiKey ==> search_error@
            == crate::search::SearchErrorView::MissingApiKey,
        crate::search::page_views(pages) == Seq::new(pages.len(), |i: int| pages[i]@),
{
    assert(crate::search::page_views(pages) =~= Seq::new(pages.len(), |i: int| pages[i]@));
}

/// What calls, configurations and pipelines show of themselves holds their
/// fields under the same names.
pub proof fn law_agent_views_are_faithful(
    config: crate::config::Config,
    call: crate::agent::AgentCall,
    pipeline: crate::orchestrator::Pipeline,
    answer: Result<String, String>,
    searched: Result<Vec<crate::search::SearchResult>, crate::search::SearchError>,
)
    ensures
        config@.model == config.model@ && config@.ollama_host == config.ollama_host@
            && config@.temperature == config.temperature && config@.tavily_api_key
            == config.tavily_api_key@ && config@.max_search_results == config.max_search_results
            && config@.log_level == config.log_level@,
        call@.host == call.host@ && call@.model == call.model@ && call@.preamble == call.preamble@
            && call@.prompt == call.prompt@ && call@.temperature == call.temperature && call@.tools
            == call.tools@ && call@.max_turns == call.max_turns && call@.failure == call.failure@,
        pipeline@.symbols == Seq::new(
            pipeline.symbols@.len(),
            |i: int| pipeline.symbols@[i]@,
        ),
        pipeline@.risk_markdown == pipeline.risk_markdown@,
        pipeline@.research_query == pipeline.research_query@,
        pipeline@.replies == Seq::new(pipeline.replies@.len(), |i: int| pipeline.replies@[i]@),
        pipeline.failure matches Some(e) ==> pipeline@.failure == Some(e@),
        pipeline.failure is None ==> pipeline@.failure is None,
        answer matches Ok(text) ==> crate::agent::answer_view(answer) == Ok::<Seq<char>, Seq<char>>(
            text@,
        ),
        answer matches Err(e) ==> crate::agent::answer_view(answer) == Err::<Seq<char>, Seq<char>>(
            e@,
        ),
        searched matches Ok(pages) ==> crate::search::pages_or_error(searched) == Ok::<
            Seq<crate::search::PageView>,
            crate::search::SearchErrorView,
        >(crate::search::page_views(pages@)),
        searched matches Err(e) ==> crate::search::pages_or_error(searched) == Err::<
            Seq<crate::search::PageView>,
            crate::search::SearchErrorView,
        >(e@),
{
    assert(pipeline@.symbols =~= Seq::new(
        pipeline.symbols@.len(),
        |i: int| pipeline.symbols@[i]@,
    ));
    assert(pipeline@.replies =~= Seq::new(
        pipeline.replies@.len(),
        |i: int| pipeline.replies@[i]@,
    ));
}

proof fn lemma_digits_fold(digits: Seq<char>, f: spec_fn(int, char) -> int)
    requires
        forall|i: int| 0 <= i < digits.len() ==> '0' <= #[trigger] digits[i] && digits[i] <= '9',
        forall|v: int, c: char| #[trigger] f(v, c) == 10 * v + (c as int - '0' as int),
    ensures
        crate::config::digits_value(digits) == digits.fold_left(0int, f),
    decreases digits.len(),
{
    if digits.len() > 0 {
        let front = digits.drop_last();
        assert forall|i: int| 0 <= i < front.len() implies '0' <= #[trigger] front[i] && front[i]
            <= '9' by {
            assert(digits[i] == front[i]);
        }
        assert('0' <= digits[digits.len() - 1] && digits[digits.len() - 1] <= '9');
        lemma_digits_fold(front, f);
    }
}

/// A text denotes a count where it has digits, nothing else but a plus sign in
/// front of them, and a value that a machine word holds: the value of its
/// digits, whatever their number.
pub proof fn law_counts_are_read_digit_by_digit(text: Seq<char>, digits: Seq<char>)
    requires
        text == digits || text == seq!['+'] + digits,
        digits.len() > 0 ==> digits[0] != '+',
    ensures
        ({
            let numeral = digits.len() > 0 && forall|i: int|
                0 <= i < digits.len() ==> '0' <= #[trigger] digits[i] && digits[i] <= '9';
            let value = digits.fold_left(0int, |v: int, c: char| 10 * v + (c as int - '0' as int));
            &&& crate::config::parsed_count(text) is Some <==> numeral && value <= usize::MAX
            &&& crate::config::parsed_count(text) matches Some(n) ==> n == value
        }),
{
    assert((seq!['+'] + digits).skip(1) =~= digits);
    assert(crate::config::unsigned_part(text) == digits);
    if forall|i: int| 0 <= i < digits.len() ==> '0' <= #[trigger] digits[i] && digits[i] <= '9' {
        assert forall|i: int| 0 <= i < digits.len() implies crate::config::is_digit(
            #[trigger] digits[i],
        ) by {}
        lemma_digits_fold(digits, |v: int, c: char| 10 * v + (c as int - '0' as int));
    } else {
        let i = choose|i: int|
            0 <= i < digits.len() && !('0' <= #[trigger] digits[i] && digits[i] <= '9');
        assert(!crate::config::is_digit(digits[i]));
    }
}

/// A count that is written out is read back as the same count, with or without
/// a plus sign in front.
pub proof fn law_written_counts_are_read_back(n: nat)
    requires
        n <= usize::MAX,
    ensures
        crate::config::parsed_count(crate::text::decimal(n)) == Some(n),
        crate::config::parsed_count(seq!['+'] + crate::text::decimal(n)) == Some(n),
{
    let digits = crate::text::decimal(n);
    crate::laws::texts::law_numerals_read_as_their_number(n);
    assert('0' <= digits[0] && digits[0] <= '9');
    law_counts_are_read_digit_by_digit(digits, digits);
    law_counts_are_read_digit_by_digit(seq!['+'] + digits, digits);
}

/// Each variable that is set and can be read decides the setting of its own,
/// and no other; what is not set, or is no number where one is asked for, has
/// its default.
pub proof fn law_variables_decide_their_own_setting<A: Arithmetic>(vars: crate::config::EnvVars)
    ensures
        ({
            let config = crate::config::env_config::<A>(vars);
            let default = crate::config::default_config();
            &&& vars.ollama_model matches Some(text) ==> config.model == text@
            &&& vars.ollama_model is None ==> config.model == default.model
            &&& vars.ollama_host matches Some(text) ==> config.ollama_host == text@
            &&& vars.ollama_host is None ==> config.ollama_host == default.ollama_host
            &&& vars.tavily_api_key matches Some(text) ==> config.tavily_api_key == text@
            &&& vars.tavily_api_key is None ==> config.tavily_api_key == default.tavily_api_key
            &&& vars.rust_log matches Some(text) ==> config.log_level == text@
            &&& vars.rust_log is None ==> config.log_level == default.log_level
            &&& vars.temperature is Some && crate::number::parse_single::<A>(
                vars.temperature->0@,
            ) is Some ==> Some(config.temperature) == crate::number::parse_single::<A>(
                vars.temperature->0@,
            )
            &&& vars.temperature is None || crate::number::parse_single::<A>(
                vars.temperature->0@,
            ) is None ==> config.temperature == default.temperature
            &&& vars.max_search_results is Some && crate::config::parsed_count(
                vars.max_search_results->0@,
            ) is Some ==> Some(config.max_search_results) == crate::config::parsed_count(
                vars.max_search_results->0@,
            )
            &&& vars.max_search_results is None || crate::config::parsed_count(
                vars.max_search_results->0@,
            ) is None ==> config.max_search_results == default.max_search_results
            &&& default.model == "llama3.2"@
            &&& default.ollama_host == "http://localhost:11434"@
            &&& default.temperature.bits == 0x3F33_3333
            &&& default.tavily_api_key.len() == 0
            &&& default.max_search_results == 5
            &&& default.log_level == "info"@
        }),
{
}

/// A configuration is refused where it has no model, a temperature that is not
/// from 0 to 2 or no search results to ask for, for the first of these that
/// holds, and for nothing else.
pub proof fn law_configurations_are_refused_for_three_reasons(config: crate::config::ConfigView)
    ensures
        ({
            let cold = config.temperature.bits <= 0x4000_0000 || config.temperature.bits
                == 0x8000_0000;
            let fault = crate::config::config_fault(config);
            &&& fault == Some(ConfigError::EmptyModel) <==> config.model.len() == 0
            &&& fault == Some(ConfigError::TemperatureOutOfRange) <==> config.model.len() > 0
                && !cold
            &&& fault == Some(ConfigError::NoSearchResults) <==> config.model.len() > 0 && cold
                && config.max_search_results == 0
            &&& fault is None <==> config.model.len() > 0 && cold && config.max_search_results > 0
        }),
{
    crate::laws::figures::law_temperatures_reach_from_zero_to_two(config.temperature);
}

/// Every call goes to the configured host and model at the configured
/// temperature, whatever it asks.
pub proof fn law_calls_follow_the_configuration(
    config: crate::config::ConfigView,
    query: Seq<char>,
    pipeline: crate::orchestrator::PipelineView,
)
    ensures
        crate::agent::research_call(config, query).host == config.ollama_host,
        crate::agent::research_call(config, query).model == config.model,
        crate::agent::research_call(config, query).temperature == config.temperature,
        pipeline.call(config).host == config.ollama_host,
        pipeline.call(config).model == config.model,
        pipeline.call(config).temperature == config.temperature,
{
}

/// A research call ends with the query, word for word, behind fixed
/// instructions, and may call every tool, each registered once, in up to five
/// rounds.
pub proof fn law_research_call_asks_the_query(config: crate::config::ConfigView, query: Seq<char>)
    ensures
        ({
            let call = crate::agent::research_call(config, query);
            &&& call.prompt == crate::agent::RESEARCH_INSTRUCTIONS@ + query
            &&& call.preamble == crate::agent::RESEARCH_SYSTEM_PROMPT@
            &&& call.max_turns == Some(5usize)
            &&& call.failure == "Agent execution failed"@
            &&& call.tools.len() == 5
            &&& call.tools.no_duplicates()
            &&& forall|tool: ToolName| #[trigger] call.tools.contains(tool)
            &&& call.tools[0] == ToolName::WebSearch
            &&& call.tools[1] == ToolName::YahooFinance
            &&& call.tools[2] == ToolName::YahooFundamentals
            &&& call.tools[3] == ToolName::FxRate
        }),
{
    let tools = crate::agent::research_call(config, query).tools;
    assert forall|tool: ToolName| #[trigger] tools.contains(tool) by {
        match tool {
            ToolName::WebSearch => assert(tools[0] == tool),
            ToolName::YahooFinance => assert(tools[1] == tool),
            ToolName::YahooFundamentals => assert(tools[2] == tool),
            ToolName::FxRate => assert(tools[3] == tool),
            ToolName::MultiSymbolSnapshot => assert(tools[4] == tool),
        }
    }
}

/// An error is reported behind what failed; a reply stands as it is.
pub proof fn law_failures_are_labelled(label: Seq<char>, text: Seq<char>)
    ensures
        crate::agent::labelled(label, Ok(text)) == Ok::<Seq<char>, Seq<char>>(text),
        crate::agent::labelled(label, Err(text)) == Err::<Seq<char>, Seq<char>>(
            label + ": "@ + text,
        ),
{
}

/// The research call of a pipeline asks the caller's hint, or for news on the
/// symbols, all of them and in order.
pub proof fn law_research_query_names_the_symbols(symbols: Seq<Seq<char>>, hint: &str)
    ensures
        crate::orchestrator::research_query(symbols, Some(hint)) == hint@,
        crate::orchestrator::research_query(symbols, None) == "Recent news and outlook for: "@
            + crate::text::joined(symbols, ", "@),
{
}

/// Each call of a pipeline is asked what its stage needs, each piece behind the
/// label of its own: the risk figures, the research query, the interpretation
/// with the context, and at last all of them with the symbols and the advice.
#[verifier::rlimit(60)]
pub proof fn law_stages_ask_with_what_came_before(
    p: crate::orchestrator::PipelineView,
    config: crate::config::ConfigView,
)
    requires
        p.waiting(),
    ensures
        ({
            let call = p.call(config);
            &&& p.replies.len() == 0 ==> call.prompt
                == "Here are the computed portfolio risk metrics:\n\n"@ + p.risk_markdown
            &&& p.replies.len() == 1 ==> call.prompt == p.research_query && call.max_turns == Some(
                3usize,
            )
            &&& p.replies.len() != 1 ==> call.max_turns is None
            &&& p.replies.len() == 2 ==> {
                &&& crate::laws::texts::shows(
                    call.prompt,
                    "Quant analyst's risk interpretation:\n"@,
                    p.replies[0],
                    "\n\nMarket research context:\n"@,
                )
                &&& crate::laws::texts::ends_with(
                    call.prompt,
                    "\n\nMarket research context:\n"@ + p.replies[1],
                )
            }
            &&& p.replies.len() == 3 ==> {
                &&& crate::laws::texts::shows(
                    call.prompt,
                    "Symbols: "@,
                    crate::text::joined(p.symbols, ", "@),
                    "\n\nRaw risk metrics:\n"@,
                )
                &&& crate::laws::texts::shows(
                    call.prompt,
                    "\n\nRaw risk metrics:\n"@,
                    p.risk_markdown,
                    "\n\nQuant interpretation:\n"@,
                )
                &&& crate::laws::texts::shows(
                    call.prompt,
                    "\n\nQuant interpretation:\n"@,
                    p.replies[0],
                    "\n\nMarket research:\n"@,
                )
                &&& crate::laws::texts::shows(
                    call.prompt,
                    "\n\nMarket research:\n"@,
                    p.replies[1],
                    "\n\nPortfolio strategy notes:\n"@,
                )
                &&& crate::laws::texts::ends_with(
                    call.prompt,
                    "\n\nPortfolio strategy notes:\n"@ + p.replies[2],
                )
            }
        }),
{
    broadcast use {
        crate::laws::texts::lemma_shows_first,
        crate::laws::texts::lemma_shows_here,
        crate::laws::texts::lemma_shows_more,
    };

    let call = p.call(config);
    if p.replies.len() == 2 {
        assert(call.prompt =~= ("Quant analyst's risk interpretation:\n"@ + p.replies[0]) + (
        "\n\nMarket research context:\n"@ + p.replies[1]));
    }
    if p.replies.len() == 3 {
        let front = "Symbols: "@ + crate::text::joined(p.symbols, ", "@)
            + "\n\nRaw risk metrics:\n"@ + p.risk_markdown + "\n\nQuant interpretation:\n"@
            + p.replies[0] + "\n\nMarket research:\n"@ + p.replies[1];
        assert(call.prompt =~= front + ("\n\nPortfolio strategy notes:\n"@ + p.replies[2]));
    }
}

/// A pipeline waits while nothing failed and fewer than four calls were
/// answered; a reply adds itself, a failure ends it under the name of the call,
/// and neither changes what the pipeline works on.
pub proof fn law_pipeline_takes_one_reply_at_a_time(
    p: crate::orchestrator::PipelineView,
    config: crate::config::ConfigView,
    text: Seq<char>,
)
    requires
        p.waiting(),
    ensures
        p.failure is None,
        p.replies.len() < 4,
        p.after(Ok(text)).replies == p.replies.push(text),
        p.after(Ok(text)).failure is None,
        p.after(Err(text)).replies == p.replies,
        p.after(Err(text)).failure == Some(p.call(config).failure + ": "@ + text),
        p.after(Ok(text)).symbols == p.symbols && p.after(Err(text)).symbols == p.symbols,
        p.after(Ok(text)).risk_markdown == p.risk_markdown,
        p.after(Ok(text)).research_query == p.research_query,
        p.conclusion() is None,
        p.call(config).failure == seq![
            "Quant agent failed"@,
            "Research agent failed"@,
            "Portfolio agent failed"@,
            "Report agent failed"@,
        ][p.replies.len() as int],
{
}

/// A pipeline that no longer waits has come to its failure, or to the reply to
/// its last call.
pub proof fn law_pipeline_ends_with_failure_or_report(p: crate::orchestrator::PipelineView)
    ensures
        p.waiting() <==> p.failure is None && p.replies.len() < 4,
        p.conclusion() is None <==> p.waiting(),
        p.failure matches Some(e) ==> p.conclusion() == Some(Err::<Seq<char>, Seq<char>>(e)),
        p.failure is None && p.replies.len() >= 4 ==> p.conclusion() == Some(
            Ok::<Seq<char>, Seq<char>>(p.replies[p.replies.len() - 1]),
        ),
{
}

} // verus!
