//! Trading backtest bookkeeping: the decisions of the per-ticker simulation,
//! the price-file row format and the portfolio-wide counters.
pub mod engine;
pub mod rows;
pub mod tally;
