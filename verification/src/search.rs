//! The `web_search` tool: page extracts from Tavily.

use vstd::prelude::*;
use crate::number::Arithmetic;
use crate::number::Number;
use crate::text::count_text;
use crate::text::join_texts;
use crate::transport::is_success;

verus! {

/// Where searches are posted.
pub const SEARCH_URL: &'static str = "https://api.tavily.com/search";

/// What can go wrong in a search.
#[derive(Debug)]
pub enum SearchError {
    RequestFailed(String),
    NoResults(String),
    NetworkError(String),
    MissingApiKey,
}

/// The mathematical counterpart of [`SearchError`].
pub enum SearchErrorView {
    RequestFailed(Seq<char>),
    NoResults(Seq<char>),
    NetworkError(Seq<char>),
    MissingApiKey,
}

impl View for SearchError {
    type V = SearchErrorView;

    open spec fn view(&self) -> SearchErrorView {
        match self {
            SearchError::RequestFailed(s) => SearchErrorView::RequestFailed(s@),
            SearchError::NoResults(s) => SearchErrorView::NoResults(s@),
            SearchError::NetworkError(s) => SearchErrorView::NetworkError(s@),
            SearchError::MissingApiKey => SearchErrorView::MissingApiKey,
        }
    }
}

impl SearchErrorView {
    /// The error in words.
    pub open spec fn message(self) -> Seq<char> {
        match self {
            SearchErrorView::RequestFailed(s) => "Tavily API request failed: "@ + s,
            SearchErrorView::NoResults(s) => "No results returned for query: "@ + s,
            SearchErrorView::NetworkError(s) => "Network error: "@ + s,
            SearchErrorView::MissingApiKey => "TAVILY_API_KEY is not set"@,
        }
    }
}

impl SearchError {
    /// The error in words.
    pub fn message(&self) -> (r: String)
        ensures
            r@ == self@.message(),
    {
        match self {
            SearchError::RequestFailed(s) =>
                "Tavily API request failed: ".to_owned().concat(s.as_str()),
            SearchError::NoResults(s) =>
                "No results returned for query: ".to_owned().concat(s.as_str()),
            SearchError::NetworkError(s) => "Network error: ".to_owned().concat(s.as_str()),
            SearchError::MissingApiKey => "TAVILY_API_KEY is not set".to_owned(),
        }
    }
}

/// One page that a search found.
#[derive(Debug, Clone)]
pub struct SearchResult {
    pub title: String,
    pub url: String,
    /// Full extract, not a meta snippet.
    pub content: String,
    pub score: Number,
}

/// A page by its texts and score.
pub struct PageView {
    pub title: Seq<char>,
    pub url: Seq<char>,
    pub content: Seq<char>,
    pub score: Number,
}

impl View for SearchResult {
    type V = PageView;

    open spec fn view(&self) -> PageView {
        PageView {
            title: self.title@,
            url: self.url@,
            content: self.content@,
            score: self.score,
        }
    }
}

/// The pages that a list holds.
pub open spec fn page_views(pages: Seq<SearchResult>) -> Seq<PageView> {
    pages.map_values(|p: SearchResult| p@)
}

/// What is posted to Tavily.
#[derive(Debug)]
pub struct TavilyRequest {
    pub api_key: String,
    pub query: String,
    /// "basic" or "advanced".
    pub search_depth: String,
    pub max_results: usize,
    pub include_answer: bool,
}

/// One page in a reply of Tavily.
#[derive(Debug)]
pub struct TavilyResult {
    pub title: String,
    pub url: String,
    pub content: String,
    pub score: Number,
}

impl View for TavilyResult {
    type V = PageView;

    open spec fn view(&self) -> PageView {
        PageView {
            title: self.title@,
            url: self.url@,
            content: self.content@,
            score: self.score,
        }
    }
}

/// A reply of Tavily.
#[derive(Debug)]
pub struct TavilyResponse {
    pub results: Vec<TavilyResult>,
    pub answer: Option<String>,
}

/// What came back from Tavily.
#[derive(Debug)]
pub enum SearchReply {
    /// No answer arrived.
    SendFailed(String),
    /// An answer with a status code, the status in words, and the body as far
    /// as it was understood. Where the status is not a success the body is of
    /// no account.
    Answered { code: u16, status: String, body: Result<TavilyResponse, String> },
}

/// Input arguments of the tool.
#[derive(Debug)]
pub struct SearchArgs {
    pub query: String,
}

/// The web search tool.
#[derive(Debug, Clone)]
pub struct WebSearchTool {
    pub api_key: String,
    pub max_results: usize,
}

/// The pages of a reply in their order.
pub open spec fn reply_pages(response: TavilyResponse) -> Seq<PageView> {
    response.results@.map_values(|p: TavilyResult| p@)
}

/// What a search for `query` came to.
pub open spec fn search_outcome(api_key: Seq<char>, query: Seq<char>, reply: SearchReply) -> Result<
    Seq<PageView>,
    SearchErrorView,
> {
    if api_key.len() == 0 {
        Err(SearchErrorView::MissingApiKey)
    } else {
        match reply {
            SearchReply::SendFailed(e) => Err(SearchErrorView::NetworkError(e@)),
            SearchReply::Answered { code, status, body } => if !crate::transport::success_code(
                code,
            ) {
                Err(SearchErrorView::RequestFailed("HTTP "@ + status@))
            } else {
                match body {
                    Err(e) => Err(SearchErrorView::RequestFailed(e@)),
                    Ok(response) => if response.results@.len() == 0 {
                        Err(SearchErrorView::NoResults(query))
                    } else {
                        Ok(reply_pages(response))
                    },
                }
            },
        }
    }
}

/// The outcome of a search by its view.
pub open spec fn pages_or_error(r: Result<Vec<SearchResult>, SearchError>) -> Result<
    Seq<PageView>,
    SearchErrorView,
> {
    match r {
        Ok(pages) => Ok(page_views(pages@)),
        Err(e) => Err(e@),
    }
}

/// A page in the listing, under its number.
pub open spec fn page_entry<A: Arithmetic>(number: nat, page: PageView) -> Seq<char> {
    crate::text::decimal(number) + ". **"@ + page.title + "** (relevance: "@
        + crate::number::fixed2::<A>(page.score) + ")\n   "@ + page.content + "\n   URL: "@
        + page.url + "\n"@
}

/// The pages in the listing, numbered from one.
pub open spec fn page_entries<A: Arithmetic>(pages: Seq<PageView>) -> Seq<Seq<char>> {
    Seq::new(pages.len(), |i: int| page_entry::<A>((i + 1) as nat, pages[i]))
}

/// The listing of what a search found.
pub open spec fn search_listing<A: Arithmetic>(query: Seq<char>, pages: Seq<PageView>) -> Seq<
    char,
> {
    "## Search Results: "@ + query + "\n\n"@ + crate::text::joined(
        page_entries::<A>(pages),
        "\n"@,
    )
}

/// The pages of a reply in their order.
fn pages_from(response: &TavilyResponse) -> (r: Vec<SearchResult>)
    ensures
        page_views(r@) == reply_pages(*response),
{
    let mut pages: Vec<SearchResult> = Vec::new();
    let ghost want = reply_pages(*response);
    for i in 0..response.results.len()
        invariant
            want == reply_pages(*response),
            page_views(pages@) == want.take(i as int),
    {
        let found = &response.results[i];
        let ghost before = page_views(pages@);
        pages.push(
            SearchResult {
                title: found.title.clone(),
                url: found.url.clone(),
                content: found.content.clone(),
                score: found.score,
            },
        );
        assert(page_views(pages@) =~= before.push(want[i as int]));
        assert(want.take(i + 1) =~= before.push(want[i as int]));
    }
    assert(want.take(response.results@.len() as int) =~= want);
    pages
}

/// A page in the listing, under its number.
fn page_entry_text<A: Arithmetic>(number: usize, page: &SearchResult) -> (r: String)
    ensures
        crate::number::repeatable::<A>() ==> r@ == page_entry::<A>(number as nat, page@),
{
    let mut out = count_text(number);
    out.append(". **");
    out.append(page.title.as_str());
    out.append("** (relevance: ");
    out.append(A::fixed2(page.score).as_str());
    out.append(")\n   ");
    out.append(page.content.as_str());
    out.append("\n   URL: ");
    out.append(page.url.as_str());
    out.append("\n");
    out
}

/// Lists what a search found, with the relevance of each page.
pub fn format_search_results<A: Arithmetic>(query: &str, pages: &Vec<SearchResult>) -> (r: String)
    ensures
        crate::number::repeatable::<A>() ==> r@ == search_listing::<A>(query@, page_views(pages@)),
{
    let ghost want = page_entries::<A>(page_views(pages@));
    let mut entries: Vec<String> = Vec::new();
    for i in 0..pages.len()
        invariant
            want == page_entries::<A>(page_views(pages@)),
            crate::number::repeatable::<A>() ==> crate::text::texts(entries@) == want.take(
                i as int,
            ),
    {
        let ghost before = crate::text::texts(entries@);
        let entry = page_entry_text::<A>(i + 1, &pages[i]);
        entries.push(entry);
        assert(crate::text::texts(entries@) =~= before.push(entry@));
        assert(want.take(i + 1) =~= want.take(i as int).push(want[i as int]));
    }
    assert(want.take(pages@.len() as int) =~= want);
    let mut out = "## Search Results: ".to_owned();
    out.append(query);
    out.append("\n\n");
    out.append(join_texts(&entries, "\n").as_str());
    out
}

impl WebSearchTool {
    /// A tool with the given key that asks for at most `max_results` pages.
    pub fn new(api_key: &str, max_results: usize) -> (r: WebSearchTool)
        ensures
            r.api_key@ == api_key@,
            r.max_results == max_results,
    {
        WebSearchTool { api_key: api_key.to_owned(), max_results }
    }

    /// What to post for a search; without a key nothing is.
    pub fn request(&self, query: &str) -> (r: Result<TavilyRequest, SearchError>)
        ensures
            self.api_key@.len() == 0 ==> r is Err && r->Err_0@ == SearchErrorView::MissingApiKey,
            self.api_key@.len() > 0 ==> {
                &&& r is Ok
                &&& r->Ok_0.api_key@ == self.api_key@
                &&& r->Ok_0.query@ == query@
                &&& r->Ok_0.search_depth@ == "advanced"@
                &&& r->Ok_0.max_results == self.max_results
                &&& r->Ok_0.include_answer
            },
    {
        if self.api_key.as_str().is_empty() {
            return Err(SearchError::MissingApiKey);
        }
        Ok(
            TavilyRequest {
                api_key: self.api_key.clone(),
                query: query.to_owned(),
                search_depth: "advanced".to_owned(),
                max_results: self.max_results,
                include_answer: true,
            },
        )
    }

    /// The pages that the search for `query` found, given the reply to its request.
    pub fn search(&self, query: &str, reply: SearchReply) -> (r: Result<
        Vec<SearchResult>,
        SearchError,
    >)
        ensures
            pages_or_error(r) == search_outcome(self.api_key@, query@, reply),
    {
        if self.api_key.as_str().is_empty() {
            return Err(SearchError::MissingApiKey);
        }
        match reply {
            SearchReply::SendFailed(e) => Err(SearchError::NetworkError(e)),
            SearchReply::Answered { code, status, body } => {
                if !is_success(code) {
                    let text = "HTTP ".to_owned().concat(status.as_str());
                    return Err(SearchError::RequestFailed(text));
                }
                match body {
                    Err(e) => Err(SearchError::RequestFailed(e)),
                    Ok(response) => {
                        if response.results.len() == 0 {
                            return Err(SearchError::NoResults(query.to_owned()));
                        }
                        Ok(pages_from(&response))
                    },
                }
            },
        }
    }

    /// The listing of what the search found, given the reply to its request.
    pub fn call<A: Arithmetic>(&self, args: &SearchArgs, reply: SearchReply) -> (r: Result<
        String,
        SearchError,
    >)
        ensures
            match search_outcome(self.api_key@, args.query@, reply) {
                Ok(pages) => r is Ok && (crate::number::repeatable::<A>() ==> r->Ok_0@
                    == search_listing::<A>(args.query@, pages)),
                Err(e) => r is Err && r->Err_0@ == e,
            },
    {
        match self.search(args.query.as_str(), reply) {
            Ok(pages) => Ok(format_search_results::<A>(args.query.as_str(), &pages)),
            Err(e) => Err(e),
        }
    }
}

/// A search that succeeds found at least one page.
pub proof fn law_search_never_succeeds_empty(
    api_key: Seq<char>,
    query: Seq<char>,
    reply: SearchReply,
)
    ensures
        search_outcome(api_key, query, reply) matches Ok(pages) ==> pages.len() > 0,
{
}

/// Without a key every search is refused for that, whatever would be replied.
pub proof fn law_no_search_without_a_key(api_key: Seq<char>, query: Seq<char>, reply: SearchReply)
    requires
        api_key.len() == 0,
    ensures
        search_outcome(api_key, query, reply) == Err::<Seq<PageView>, SearchErrorView>(
            SearchErrorView::MissingApiKey,
        ),
{
}

} // verus!
