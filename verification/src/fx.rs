//! The `fx_rate` tool: exchange rates, as the charts of currency pairs.

use vstd::prelude::*;
use crate::chart::YahooChartResult;
use crate::finance::YahooFinanceTool;
use crate::number::Arithmetic;
use crate::outside::to_uppercase;
use crate::text::trim_text;
use crate::transport::FinanceError;
use crate::transport::HostFetch;

verus! {

/// Input arguments of the tool.
#[derive(Debug)]
pub struct FxRateArgs {
    /// Base currency code, e.g. "USD".
    pub from_currency: String,
    /// Quote currency code, e.g. "INR".
    pub to_currency: String,
}

/// The exchange rate tool. A pair of currencies has a chart like a share, under
/// a symbol of its own.
#[derive(Debug, Clone)]
pub struct FxRateTool {
    pub inner: YahooFinanceTool,
}

/// The symbol of a currency pair: both codes in upper case, without whitespace
/// around them, then `=X`.
pub open spec fn pair(from_currency: Seq<char>, to_currency: Seq<char>) -> Seq<char> {
    crate::outside::uppercase(crate::text::trimmed(from_currency)) + crate::outside::uppercase(
        crate::text::trimmed(to_currency),
    ) + "=X"@
}

/// The report on a currency pair.
pub open spec fn fx_report(
    from_currency: Seq<char>,
    to_currency: Seq<char>,
    report: Seq<char>,
) -> Seq<char> {
    "**FX Pair**: "@ + crate::outside::uppercase(from_currency) + " → "@
        + crate::outside::uppercase(to_currency) + "\n\n"@ + report
}

proof fn lemma_trimmed_ascii(text: Seq<char>)
    requires
        crate::outside::is_ascii_text(text),
    ensures
        crate::outside::is_ascii_text(crate::text::trimmed(text)),
{
    crate::text::lemma_trimmed_part(text);
}

impl FxRateTool {
    /// A tool that looks back over a few daily candles.
    pub fn new() -> (r: FxRateTool)
        ensures
            r.inner.default_range@ == "5d"@,
            r.inner.default_interval@ == "1d"@,
    {
        FxRateTool { inner: YahooFinanceTool::new("5d", "1d") }
    }

    /// The symbol of a currency pair, e.g. `USDINR=X`.
    pub fn pair_symbol(from_currency: &str, to_currency: &str) -> (r: String)
        ensures
            r@ == pair(from_currency@, to_currency@),
            crate::outside::is_ascii_text(from_currency@) && crate::outside::is_ascii_text(
                to_currency@,
            ) ==> r@ == crate::outside::ascii_uppercase(crate::text::trimmed(from_currency@))
                + crate::outside::ascii_uppercase(crate::text::trimmed(to_currency@)) + "=X"@,
    {
        proof {
            if crate::outside::is_ascii_text(from_currency@) {
                lemma_trimmed_ascii(from_currency@);
            }
            if crate::outside::is_ascii_text(to_currency@) {
                lemma_trimmed_ascii(to_currency@);
            }
        }
        let mut out = to_uppercase(trim_text(from_currency).as_str());
        out.append(to_uppercase(trim_text(to_currency).as_str()).as_str());
        out.append("=X");
        out
    }

    /// Begins the lookup of a pair's chart.
    pub fn fetch_pair(&self, from_currency: &str, to_currency: &str) -> (r: HostFetch<
        YahooChartResult,
    >)
        ensures
            r@ == crate::finance::chart_fetch(
                pair(from_currency@, to_currency@),
                self.inner.default_range@,
                self.inner.default_interval@,
            ),
    {
        let symbol = Self::pair_symbol(from_currency, to_currency);
        self.inner.fetch_for_report(symbol.as_str(), None, None)
    }

    /// The report on what the lookup of the pair came to.
    pub fn get_report<A: Arithmetic>(
        &self,
        from_currency: &str,
        to_currency: &str,
        fetched: Result<YahooChartResult, FinanceError>,
    ) -> (r: Result<String, FinanceError>)
        requires
            fetched matches Ok(result) ==> crate::stats::volumes_add_up(
                crate::chart::chart_candles(result),
            ),
        ensures
            r is Ok <==> fetched is Ok,
            fetched matches Err(e) ==> r == Err::<String, FinanceError>(e),
            fetched matches Ok(result) ==> (crate::number::repeatable::<A>()
                || crate::finance::numberless(result) ==> r->Ok_0@ == fx_report(
                from_currency@,
                to_currency@,
                crate::finance::chart_report::<A>(pair(from_currency@, to_currency@), result),
            )),
    {
        let symbol = Self::pair_symbol(from_currency, to_currency);
        match self.inner.get_report::<A>(symbol.as_str(), fetched) {
            Ok(report) => {
                let mut out = "**FX Pair**: ".to_owned();
                out.append(to_uppercase(from_currency).as_str());
                out.append(" → ");
                out.append(to_uppercase(to_currency).as_str());
                out.append("\n\n");
                out.append(report.as_str());
                Ok(out)
            },
            Err(e) => Err(e),
        }
    }
}

/// Whitespace around the currency codes does not change the pair.
pub proof fn law_pair_ignores_surrounding_whitespace(
    from_currency: Seq<char>,
    to_currency: Seq<char>,
)
    ensures
        pair(crate::text::trimmed(from_currency), crate::text::trimmed(to_currency)) == pair(
            from_currency,
            to_currency,
        ),
{
    crate::text::law_trimming_is_done_once(from_currency);
    crate::text::law_trimming_is_done_once(to_currency);
}

} // verus!
