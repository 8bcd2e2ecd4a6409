//! Price charts as Yahoo Finance delivers them, and the candles made of them.

use vstd::prelude::*;
use crate::calendar::format_timestamp;
use crate::number::Number;

verus! {

/// The quote snapshot of a chart.
#[derive(Debug, Clone)]
pub struct YahooMeta {
    pub currency: Option<String>,
    pub symbol: Option<String>,
    pub exchange_name: Option<String>,
    pub instrument_type: Option<String>,
    pub regular_market_price: Option<Number>,
    pub previous_close: Option<Number>,
    pub fifty_two_week_high: Option<Number>,
    pub fifty_two_week_low: Option<Number>,
    pub regular_market_time: Option<i64>,
    pub long_name: Option<String>,
    pub short_name: Option<String>,
}

/// The part of a [`YahooMeta`] that reports are made of.
pub struct MetaView {
    pub currency: Option<Seq<char>>,
    pub exchange_name: Option<Seq<char>>,
    pub regular_market_price: Option<Number>,
    pub previous_close: Option<Number>,
    pub fifty_two_week_high: Option<Number>,
    pub fifty_two_week_low: Option<Number>,
    pub long_name: Option<Seq<char>>,
    pub short_name: Option<Seq<char>>,
}

impl View for YahooMeta {
    type V = MetaView;

    open spec fn view(&self) -> MetaView {
        MetaView {
            currency: crate::text::opt_text(self.currency),
            exchange_name: crate::text::opt_text(self.exchange_name),
            regular_market_price: self.regular_market_price,
            previous_close: self.previous_close,
            fifty_two_week_high: self.fifty_two_week_high,
            fifty_two_week_low: self.fifty_two_week_low,
            long_name: crate::text::opt_text(self.long_name),
            short_name: crate::text::opt_text(self.short_name),
        }
    }
}

/// The columns of a chart. A column can be missing, and so can any entry of it.
#[derive(Debug)]
pub struct YahooQuoteIndicators {
    pub open: Option<Vec<Option<Number>>>,
    pub high: Option<Vec<Option<Number>>>,
    pub low: Option<Vec<Option<Number>>>,
    pub close: Option<Vec<Option<Number>>>,
    pub volume: Option<Vec<Option<i64>>>,
}

#[derive(Debug)]
pub struct YahooIndicators {
    pub quote: Vec<YahooQuoteIndicators>,
}

/// A chart: parallel columns beside a list of timestamps.
#[derive(Debug)]
pub struct YahooChartResult {
    pub meta: YahooMeta,
    pub timestamp: Option<Vec<i64>>,
    pub indicators: YahooIndicators,
}

/// A single OHLCV candle with a human-readable date.
#[derive(Debug, Clone)]
pub struct Candle {
    pub date: String,
    pub open: Number,
    pub high: Number,
    pub low: Number,
    pub close: Number,
    pub volume: i64,
}

/// The mathematical counterpart of [`Candle`].
pub struct CandleView {
    pub date: Seq<char>,
    pub open: Number,
    pub high: Number,
    pub low: Number,
    pub close: Number,
    pub volume: int,
}

impl View for Candle {
    type V = CandleView;

    open spec fn view(&self) -> CandleView {
        CandleView {
            date: self.date@,
            open: self.open,
            high: self.high,
            low: self.low,
            close: self.close,
            volume: self.volume as int,
        }
    }
}

/// The candles that a list holds.
pub open spec fn candle_views(candles: Seq<Candle>) -> Seq<CandleView> {
    candles.map_values(|c: Candle| c@)
}

/// The entry of a column at a row, if it has one.
pub open spec fn cell<T>(column: Option<Vec<Option<T>>>, row: int) -> Option<T> {
    match column {
        Some(entries) => if 0 <= row < entries@.len() {
            entries@[row]
        } else {
            None
        },
        None => None,
    }
}

/// The candle of one row, if the row has all of open, high, low and close. A
/// missing volume counts as none traded.
pub open spec fn row_candle(quote: YahooQuoteIndicators, ts: i64, row: int) -> Option<CandleView> {
    match (cell(quote.open, row), cell(quote.high, row), cell(quote.low, row), cell(
        quote.close,
        row,
    )) {
        (Some(open), Some(high), Some(low), Some(close)) => Some(
            CandleView {
                date: crate::calendar::timestamp_text(ts as int),
                open,
                high,
                low,
                close,
                volume: match cell(quote.volume, row) {
                    Some(v) => v as int,
                    None => 0,
                },
            },
        ),
        _ => None,
    }
}

/// The candles of the first rows, in their order.
pub open spec fn candles_upto(
    quote: YahooQuoteIndicators,
    timestamps: Seq<i64>,
    rows: int,
) -> Seq<CandleView>
    decreases rows,
{
    if rows <= 0 {
        Seq::empty()
    } else {
        let before = candles_upto(quote, timestamps, rows - 1);
        match row_candle(quote, timestamps[rows - 1], rows - 1) {
            Some(candle) => before.push(candle),
            None => before,
        }
    }
}

/// The candles of a chart: one for each complete row, in the chart's order.
pub open spec fn chart_candles(result: YahooChartResult) -> Seq<CandleView> {
    match result.timestamp {
        Some(timestamps) => if result.indicators.quote@.len() > 0 {
            candles_upto(result.indicators.quote@[0], timestamps@, timestamps@.len() as int)
        } else {
            Seq::empty()
        },
        None => Seq::empty(),
    }
}

/// The entry of a column at a row, if it has one.
fn cell_at<T: Copy>(column: &Option<Vec<Option<T>>>, row: usize) -> (r: Option<T>)
    ensures
        r == cell(*column, row as int),
{
    match column {
        Some(entries) => if row < entries.len() {
            entries[row]
        } else {
            None
        },
        None => None,
    }
}

/// The candles of a chart: one for each complete row, in the chart's order.
pub(crate) fn candles_of(result: &YahooChartResult) -> (r: Vec<Candle>)
    ensures
        candle_views(r@) == chart_candles(*result),
{
    let mut candles: Vec<Candle> = Vec::new();
    assert(candle_views(candles@) =~= Seq::<CandleView>::empty());
    let timestamps = match &result.timestamp {
        Some(t) => t,
        None => {
            return candles;
        },
    };
    if result.indicators.quote.len() == 0 {
        return candles;
    }
    let quote = &result.indicators.quote[0];
    for i in 0..timestamps.len()
        invariant
            candle_views(candles@) == candles_upto(*quote, timestamps@, i as int),
    {
        let ghost before = candles@;
        let open = cell_at(&quote.open, i);
        let high = cell_at(&quote.high, i);
        let low = cell_at(&quote.low, i);
        let close = cell_at(&quote.close, i);
        if let (Some(open), Some(high), Some(low), Some(close)) = (open, high, low, close) {
            let volume: i64 = match cell_at(&quote.volume, i) {
                Some(v) => v,
                None => 0,
            };
            let date = format_timestamp(timestamps[i]);
            candles.push(Candle { date, open, high, low, close, volume });
            assert(candle_views(candles@) =~= candle_views(before).push(candles@.last()@));
        }
    }
    candles
}

/// The complete ones among the first rows, in their order.
pub open spec fn complete_rows(
    quote: YahooQuoteIndicators,
    timestamps: Seq<i64>,
    rows: int,
) -> Seq<int>
    decreases rows,
{
    if rows <= 0 {
        Seq::empty()
    } else {
        let before = complete_rows(quote, timestamps, rows - 1);
        if row_candle(quote, timestamps[rows - 1], rows - 1) is Some {
            before.push(rows - 1)
        } else {
            before
        }
    }
}

/// The candles stand for the complete rows one by one: the rows ascend, none of
/// them is missed, and no other row leaves a candle.
pub proof fn law_candles_are_the_complete_rows(
    quote: YahooQuoteIndicators,
    timestamps: Seq<i64>,
    rows: int,
)
    requires
        rows >= 0,
    ensures
        candles_upto(quote, timestamps, rows).len() == complete_rows(quote, timestamps, rows).len(),
        forall|k: int|
            0 <= k < complete_rows(quote, timestamps, rows).len() ==> {
                let row = #[trigger] complete_rows(quote, timestamps, rows)[k];
                &&& 0 <= row < rows
                &&& row_candle(quote, timestamps[row], row) == Some(
                    candles_upto(quote, timestamps, rows)[k],
                )
            },
        forall|k: int, l: int|
            0 <= k < l < complete_rows(quote, timestamps, rows).len()
                ==> #[trigger] complete_rows(quote, timestamps, rows)[k]
                < #[trigger] complete_rows(quote, timestamps, rows)[l],
        forall|row: int|
            0 <= row < rows ==> (complete_rows(quote, timestamps, rows).contains(row)
                <==> #[trigger] row_candle(quote, timestamps[row], row) is Some),
    decreases rows,
{
    if rows > 0 {
        law_candles_are_the_complete_rows(quote, timestamps, rows - 1);
        let before = complete_rows(quote, timestamps, rows - 1);
        let now = complete_rows(quote, timestamps, rows);
        assert forall|row: int| 0 <= row < rows implies (now.contains(row)
            <==> #[trigger] row_candle(quote, timestamps[row], row) is Some) by {
            if row < rows - 1 {
                if before.contains(row) {
                    let k = choose|k: int| 0 <= k < before.len() && before[k] == row;
                    assert(now[k] == row);
                }
                if now.contains(row) {
                    let k = choose|k: int| 0 <= k < now.len() && now[k] == row;
                    assert(before[k] == row);
                }
            } else {
                if row_candle(quote, timestamps[row], row) is Some {
                    assert(now[before.len() as int] == row);
                } else if now.contains(row) {
                    let k = choose|k: int| 0 <= k < now.len() && now[k] == row;
                    assert(before[k] < rows - 1);
                }
            }
        }
    }
}

} // verus!
