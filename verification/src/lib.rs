//! Quantitative research toolkit: market data, risk figures, and the calls of a
//! language model that interprets them.
//!
//! The library decides and computes; it performs no input or output. Where a
//! host has to be asked, it says what to ask ([`transport::HostFetch`],
//! [`agent::AgentCall`], [`orchestrator::Pipeline`]) and takes the reply as a
//! value. Where real numbers have to be computed with, it takes the operations
//! from the caller ([`number::Arithmetic`]).
//!
//! - [`finance`], [`fundamentals`], [`fx`], [`basket`], [`search`]: the tools
//! - [`chart`], [`stats`]: candles and their statistics
//! - [`alignment`], [`correlation`], [`portfolio_analytics`]: the risk figures
//! - [`laws`]: what the results mean in terms of the inputs
//! - [`scaling`]: how figures behave under a change of sign or unit
//! - [`agent`], [`orchestrator`]: what the language model is asked
//! - [`config`]: settings
//! - [`number`], [`text`], [`calendar`], [`transport`]: foundations
//! - [`outside`]: the calls into other crates, whose contracts are taken on trust

pub mod agent;
pub mod alignment;
pub mod basket;
pub mod calendar;
pub mod chart;
pub mod config;
pub mod correlation;
pub mod finance;
pub mod fundamentals;
pub mod fx;
pub mod laws;
pub mod number;
pub mod orchestrator;
pub mod outside;
pub mod portfolio_analytics;
pub mod scaling;
pub mod search;
pub mod stats;
pub mod text;
pub mod transport;
