# Quant research agent

A verified library for quantitative research: it turns market data into
candles, statistics and portfolio risk figures, renders them as markdown, and
decides what a language model is asked about them. The model interprets
figures; it never computes them.

- `src/` is the library, written in Verus. Its functions carry contracts, and Verus proves them.
  Real numbers are kept as bit patterns. They are compared by verified code;
  sums, quotients and logarithms come from an `Arithmetic` that the caller
  supplies, and the contracts say which operations are applied to what, and in
  which order, given that the arithmetic has one result for given operands
  (`repeatable`). What rests on no computed value is said of every arithmetic.
- `tests/` runs the library with `f64` arithmetic.
- `app/` performs the requests that the library asks for: Yahoo Finance,
  Tavily, and a language model behind Ollama.

## Tools

| Tool | Module | Purpose |
|---|---|---|
| `yahoo_finance` | `finance` | price history of one symbol, with statistics |
| `yahoo_fundamentals` | `fundamentals` | valuation, margins and leverage of a company |
| `fx_rate` | `fx` | exchange rate of two currencies |
| `multi_symbol_snapshot` | `basket` | a basket of symbols side by side |
| `web_search` | `search` | page extracts from the web |

## What is proved of the whole

Laws that span several functions are public proof functions whose names begin
with `law_`. Among them: hosts are asked in turn until one delivers, and the
last failure is reported where none does (`transport`); a symbol that cannot be
used is excluded and changes nothing else, and the order of a basket does not
matter (`portfolio_analytics`); the pipeline makes its calls in a fixed order
and hands the risk figures to the model word for word (`orchestrator`).

## Settings

`OLLAMA_MODEL`, `OLLAMA_HOST`, `TEMPERATURE`, `MAX_SEARCH_RESULTS`,
`TAVILY_API_KEY`, `RUST_LOG`; all have defaults.
