//! Requests to Yahoo Finance: which hosts are asked, in which order, what each
//! reply means, and what is reported when no host delivers.

use vstd::prelude::*;

verus! {

/// What can go wrong in a lookup.
#[derive(Debug)]
pub enum FinanceError {
    RequestFailed(String),
    ParseFailed(String),
    SymbolNotFound(String),
    RateLimited,
    NetworkError(String),
}

/// The mathematical counterpart of [`FinanceError`].
pub enum FinanceErrorView {
    RequestFailed(Seq<char>),
    ParseFailed(Seq<char>),
    SymbolNotFound(Seq<char>),
    RateLimited,
    NetworkError(Seq<char>),
}

impl View for FinanceError {
    type V = FinanceErrorView;

    open spec fn view(&self) -> FinanceErrorView {
        match self {
            FinanceError::RequestFailed(s) => FinanceErrorView::RequestFailed(s@),
            FinanceError::ParseFailed(s) => FinanceErrorView::ParseFailed(s@),
            FinanceError::SymbolNotFound(s) => FinanceErrorView::SymbolNotFound(s@),
            FinanceError::RateLimited => FinanceErrorView::RateLimited,
            FinanceError::NetworkError(s) => FinanceErrorView::NetworkError(s@),
        }
    }
}

impl FinanceErrorView {
    /// The error in words.
    pub open spec fn message(self) -> Seq<char> {
        match self {
            FinanceErrorView::RequestFailed(s) =>
                "Failed to fetch data from Yahoo Finance: "@ + s,
            FinanceErrorView::ParseFailed(s) =>
                "Failed to parse Yahoo Finance response: "@ + s,
            FinanceErrorView::SymbolNotFound(s) =>
                "Symbol not found or no data returned for: "@ + s,
            FinanceErrorView::RateLimited => "Rate limited by Yahoo Finance, please wait"@,
            FinanceErrorView::NetworkError(s) => "Network error: "@ + s,
        }
    }
}

impl FinanceError {
    /// The error in words.
    pub fn message(&self) -> (r: String)
        ensures
            r@ == self@.message(),
    {
        match self {
            FinanceError::RequestFailed(s) =>
                "Failed to fetch data from Yahoo Finance: ".to_owned().concat(s.as_str()),
            FinanceError::ParseFailed(s) =>
                "Failed to parse Yahoo Finance response: ".to_owned().concat(s.as_str()),
            FinanceError::SymbolNotFound(s) =>
                "Symbol not found or no data returned for: ".to_owned().concat(s.as_str()),
            FinanceError::RateLimited => "Rate limited by Yahoo Finance, please wait".to_owned(),
            FinanceError::NetworkError(s) => "Network error: ".to_owned().concat(s.as_str()),
        }
    }
}

/// The result of a lookup, with the error by its view.
pub open spec fn outcome_view<T>(r: Result<T, FinanceError>) -> Result<T, FinanceErrorView> {
    match r {
        Ok(t) => Ok(t),
        Err(e) => Err(e@),
    }
}

/// An error that Yahoo Finance reports inside a reply.
#[derive(Debug)]
pub struct YahooApiError {
    pub code: Option<String>,
    pub description: Option<String>,
}

/// The envelope of every Yahoo Finance reply.
#[derive(Debug)]
pub struct Envelope<T> {
    pub result: Option<Vec<T>>,
    pub error: Option<YahooApiError>,
}

/// What became of the body of an answer.
#[derive(Debug)]
pub enum Body<T> {
    /// It could not be read.
    Unreadable(String),
    /// It is not the expected JSON.
    Malformed(String),
    /// It was understood.
    Parsed(Envelope<T>),
}

/// What came back from one host.
#[derive(Debug)]
pub enum HostReply<T> {
    /// No answer arrived.
    SendFailed(String),
    /// An answer with a status code, the status in words, and the body. Where
    /// the status is not a success the body is of no account.
    Answered { code: u16, status: String, body: Body<T> },
}

/// A status code that means success.
pub open spec fn success_code(code: u16) -> bool {
    200 <= code < 300
}

/// Whether a status code means success.
pub fn is_success(code: u16) -> (r: bool)
    ensures
        r == success_code(code),
{
    200 <= code && code < 300
}

/// What an understood reply says about `symbol`: the last result it lists.
pub open spec fn envelope_verdict<T>(symbol: Seq<char>, envelope: Envelope<T>) -> Result<
    T,
    FinanceErrorView,
> {
    match envelope.error {
        Some(api) => match api.description {
            Some(text) => Err(FinanceErrorView::SymbolNotFound(text@)),
            None => Err(FinanceErrorView::SymbolNotFound(symbol)),
        },
        None => match envelope.result {
            Some(results) => if results@.len() > 0 {
                Ok(results@.last())
            } else {
                Err(FinanceErrorView::SymbolNotFound(symbol))
            },
            None => Err(FinanceErrorView::SymbolNotFound(symbol)),
        },
    }
}

/// What a reply of `host` means for the lookup of `symbol`.
pub open spec fn verdict<T>(symbol: Seq<char>, host: Seq<char>, reply: HostReply<T>) -> Result<
    T,
    FinanceErrorView,
> {
    match reply {
        HostReply::SendFailed(e) => Err(FinanceErrorView::NetworkError(e@)),
        HostReply::Answered { code, status, body } => if code == 429 {
            Err(FinanceErrorView::RateLimited)
        } else if !success_code(code) {
            Err(FinanceErrorView::RequestFailed("HTTP "@ + status@ + " from "@ + host))
        } else {
            match body {
                Body::Unreadable(e) => Err(FinanceErrorView::NetworkError(e@)),
                Body::Malformed(e) => Err(FinanceErrorView::ParseFailed(e@)),
                Body::Parsed(envelope) => envelope_verdict(symbol, envelope),
            }
        },
    }
}

/// What an understood reply says about `symbol`.
fn judge_envelope<T>(symbol: &str, envelope: Envelope<T>) -> (r: Result<T, FinanceError>)
    ensures
        outcome_view(r) == envelope_verdict(symbol@, envelope),
{
    if let Some(api) = envelope.error {
        return match api.description {
            Some(text) => Err(FinanceError::SymbolNotFound(text)),
            None => Err(FinanceError::SymbolNotFound(symbol.to_owned())),
        };
    }
    match envelope.result {
        Some(mut results) => match results.pop() {
            Some(result) => Ok(result),
            None => Err(FinanceError::SymbolNotFound(symbol.to_owned())),
        },
        None => Err(FinanceError::SymbolNotFound(symbol.to_owned())),
    }
}

/// What a reply of `host` means for the lookup of `symbol`.
pub fn judge_reply<T>(symbol: &str, host: &str, reply: HostReply<T>) -> (r: Result<
    T,
    FinanceError,
>)
    ensures
        outcome_view(r) == verdict(symbol@, host@, reply),
{
    match reply {
        HostReply::SendFailed(e) => Err(FinanceError::NetworkError(e)),
        HostReply::Answered { code, status, body } => {
            if code == 429 {
                return Err(FinanceError::RateLimited);
            }
            if !is_success(code) {
                let text = "HTTP ".to_owned().concat(status.as_str()).concat(" from ").concat(host);
                return Err(FinanceError::RequestFailed(text));
            }
            match body {
                Body::Unreadable(e) => Err(FinanceError::NetworkError(e)),
                Body::Malformed(e) => Err(FinanceError::ParseFailed(e)),
                Body::Parsed(envelope) => judge_envelope(symbol, envelope),
            }
        },
    }
}

/// A host and the URL to ask it for.
#[derive(Debug)]
pub struct Endpoint {
    pub host: String,
    pub url: String,
}

/// The mathematical counterpart of [`Endpoint`].
pub struct EndpointView {
    pub host: Seq<char>,
    pub url: Seq<char>,
}

impl View for Endpoint {
    type V = EndpointView;

    open spec fn view(&self) -> EndpointView {
        EndpointView { host: self.host@, url: self.url@ }
    }
}

/// A lookup under way: its endpoints are asked in turn until one delivers.
#[derive(Debug)]
pub struct HostFetch<T> {
    pub symbol: String,
    pub endpoints: Vec<Endpoint>,
    /// How many endpoints have replied.
    pub tried: usize,
    /// What the last of them delivered, if it did.
    pub outcome: Option<T>,
    /// What went wrong most recently.
    pub last_error: Option<FinanceError>,
}

/// The mathematical counterpart of [`HostFetch`].
pub struct HostFetchView<T> {
    pub symbol: Seq<char>,
    pub endpoints: Seq<EndpointView>,
    pub tried: nat,
    pub outcome: Option<T>,
    pub last_error: Option<FinanceErrorView>,
}

impl<T> View for HostFetch<T> {
    type V = HostFetchView<T>;

    open spec fn view(&self) -> HostFetchView<T> {
        HostFetchView {
            symbol: self.symbol@,
            endpoints: self.endpoints@.map_values(|e: Endpoint| e@),
            tried: self.tried as nat,
            outcome: self.outcome,
            last_error: match self.last_error {
                Some(e) => Some(e@),
                None => None,
            },
        }
    }
}

/// A lookup that has asked nobody yet.
pub open spec fn fresh_fetch<T>(
    symbol: Seq<char>,
    endpoints: Seq<EndpointView>,
) -> HostFetchView<T> {
    HostFetchView { symbol, endpoints, tried: 0, outcome: None, last_error: None }
}

impl<T> HostFetchView<T> {
    /// An endpoint is to be asked: none has delivered, and one is left.
    pub open spec fn waiting(self) -> bool {
        self.outcome is None && self.tried < self.endpoints.len()
    }

    /// The URL to ask for next.
    pub open spec fn request(self) -> Option<Seq<char>> {
        if self.waiting() {
            Some(self.endpoints[self.tried as int].url)
        } else {
            None
        }
    }

    /// The lookup after the reply to its request.
    pub open spec fn after(self, reply: HostReply<T>) -> HostFetchView<T> {
        match verdict(self.symbol, self.endpoints[self.tried as int].host, reply) {
            Ok(result) => HostFetchView {
                tried: self.tried + 1,
                outcome: Some(result),
                ..self
            },
            Err(e) => HostFetchView { tried: self.tried + 1, last_error: Some(e), ..self },
        }
    }

    /// What the lookup has come to: the delivery, or the latest error.
    pub open spec fn conclusion(self) -> Result<T, FinanceErrorView> {
        match self.outcome {
            Some(result) => Ok(result),
            None => match self.last_error {
                Some(e) => Err(e),
                None => Err(FinanceErrorView::RequestFailed("All Yahoo Finance hosts failed"@)),
            },
        }
    }
}

impl<T> HostFetch<T> {
    /// A lookup that has asked nobody yet.
    pub fn start(symbol: &str, endpoints: Vec<Endpoint>) -> (r: HostFetch<T>)
        ensures
            r@ == fresh_fetch::<T>(symbol@, endpoints@.map_values(|e: Endpoint| e@)),
    {
        HostFetch {
            symbol: symbol.to_owned(),
            endpoints,
            tried: 0,
            outcome: None,
            last_error: None,
        }
    }

    /// The URL to ask for next; none once a host delivered or all have been asked.
    pub fn next_request(&self) -> (r: Option<String>)
        ensures
            crate::text::opt_text(r) == self@.request(),
    {
        if self.outcome.is_none() && self.tried < self.endpoints.len() {
            Some(self.endpoints[self.tried].url.clone())
        } else {
            None
        }
    }

    /// Takes the reply to the request that [`HostFetch::next_request`] named.
    pub fn on_reply(&mut self, reply: HostReply<T>)
        requires
            old(self)@.waiting(),
        ensures
            final(self)@ == old(self)@.after(reply),
    {
        assert(self.tried < self.endpoints.len());
        match judge_reply(self.symbol.as_str(), self.endpoints[self.tried].host.as_str(), reply) {
            Ok(result) => {
                self.outcome = Some(result);
            },
            Err(e) => {
                self.last_error = Some(e);
            },
        }
        self.tried = self.tried + 1;
    }

    /// What the lookup has come to.
    pub fn finish(self) -> (r: Result<T, FinanceError>)
        ensures
            outcome_view(r) == self@.conclusion(),
    {
        match self.outcome {
            Some(result) => Ok(result),
            None => match self.last_error {
                Some(e) => Err(e),
                None => Err(
                    FinanceError::RequestFailed("All Yahoo Finance hosts failed".to_owned()),
                ),
            },
        }
    }
}

/// A lookup after replies to its requests, as far as it asks for them.
pub open spec fn fed<T>(fetch: HostFetchView<T>, replies: Seq<HostReply<T>>) -> HostFetchView<T>
    decreases replies.len(),
{
    if replies.len() == 0 || !fetch.waiting() {
        fetch
    } else {
        fed(fetch.after(replies[0]), replies.skip(1))
    }
}

/// What the replies mean, each as the reply of the endpoint in its place.
pub open spec fn verdict_at<T>(
    fetch: HostFetchView<T>,
    replies: Seq<HostReply<T>>,
    i: int,
) -> Result<T, FinanceErrorView> {
    verdict(fetch.symbol, fetch.endpoints[fetch.tried + i].host, replies[i])
}

/// While every reply is a failure the endpoints are asked in turn, each once.
pub proof fn law_failures_move_on_to_the_next_endpoint<T>(
    fetch: HostFetchView<T>,
    replies: Seq<HostReply<T>>,
)
    requires
        fetch.outcome is None,
        fetch.tried + replies.len() <= fetch.endpoints.len(),
        forall|i: int| 0 <= i < replies.len() ==> verdict_at(fetch, replies, i) is Err,
    ensures
        fed(fetch, replies) == (HostFetchView {
            tried: fetch.tried + replies.len(),
            last_error: if replies.len() == 0 {
                fetch.last_error
            } else {
                Some(verdict_at(fetch, replies, replies.len() - 1)->Err_0)
            },
            ..fetch
        }),
        fetch.tried + replies.len() < fetch.endpoints.len() ==> fed(fetch, replies).request()
            == Some(fetch.endpoints[(fetch.tried + replies.len()) as int].url),
    decreases replies.len(),
{
    if replies.len() > 0 {
        assert(verdict_at(fetch, replies, 0) is Err);
        let next = fetch.after(replies[0]);
        let rest = replies.skip(1);
        assert forall|i: int| 0 <= i < rest.len() implies verdict_at(next, rest, i) is Err by {
            assert(verdict_at(fetch, replies, i + 1) is Err);
            assert(fetch.tried + (i + 1) == next.tried + i);
        }
        law_failures_move_on_to_the_next_endpoint(next, rest);
        if rest.len() > 0 {
            assert(fetch.tried + (replies.len() - 1) == next.tried + (rest.len() - 1));
        }
    }
}

/// The first endpoint that delivers ends the lookup: what it delivered is the
/// result, and no further endpoint is asked.
pub proof fn law_first_delivery_is_the_result<T>(
    fetch: HostFetchView<T>,
    replies: Seq<HostReply<T>>,
    k: int,
)
    requires
        fetch.outcome is None,
        0 <= k < replies.len(),
        fetch.tried + k < fetch.endpoints.len(),
        forall|i: int| 0 <= i < k ==> verdict_at(fetch, replies, i) is Err,
        verdict_at(fetch, replies, k) is Ok,
    ensures
        fed(fetch, replies).conclusion() == verdict_at(fetch, replies, k),
        fed(fetch, replies).request() is None,
        fed(fetch, replies).tried == fetch.tried + k + 1,
    decreases k,
{
    let next = fetch.after(replies[0]);
    let rest = replies.skip(1);
    if k == 0 {
        assert(verdict(fetch.symbol, fetch.endpoints[fetch.tried as int].host, replies[0])
            == verdict_at(fetch, replies, 0));
        assert(!next.waiting());
        assert(fed(next, rest) == next);
    } else {
        assert(verdict_at(fetch, replies, 0) is Err);
        assert forall|i: int| 0 <= i < k - 1 implies verdict_at(next, rest, i) is Err by {
            assert(verdict_at(fetch, replies, i + 1) is Err);
            assert(fetch.tried + (i + 1) == next.tried + i);
        }
        assert(fetch.tried + k == next.tried + (k - 1));
        law_first_delivery_is_the_result(next, rest, k - 1);
    }
}

/// Where no endpoint delivers, the lookup reports what the last one failed with.
pub proof fn law_last_failure_is_reported<T>(
    symbol: Seq<char>,
    endpoints: Seq<EndpointView>,
    replies: Seq<HostReply<T>>,
)
    requires
        0 < endpoints.len() == replies.len(),
        forall|i: int|
            0 <= i < replies.len() ==> verdict_at(
                fresh_fetch::<T>(symbol, endpoints),
                replies,
                i,
            ) is Err,
    ensures
        fed(fresh_fetch::<T>(symbol, endpoints), replies).conclusion() == verdict_at(
            fresh_fetch::<T>(symbol, endpoints),
            replies,
            replies.len() - 1,
        ),
        fed(fresh_fetch::<T>(symbol, endpoints), replies).request() is None,
{
    let fetch = fresh_fetch::<T>(symbol, endpoints);
    assert(verdict_at(fetch, replies, replies.len() - 1) is Err);
    law_failures_move_on_to_the_next_endpoint(fetch, replies);
}

} // verus!
