//! Decision core of a ladder-trading market maker.
//!
//! The library computes order ladders from a declarative strategy and a
//! reference price, classifies exchange errors for an unbounded-retry policy,
//! and plans the clear / fetch / place / sleep trading cycle as pure,
//! verified decision functions.  All exchange I/O stays with the caller.

pub mod dec;
pub mod power;
pub mod retry;
pub mod strategy;
pub mod sums;
pub mod trader;

pub use dec::Dec;
pub use dec::SCALE;
pub use retry::{ErrorKind, RetryRun, UNPROCESSABLE_ENTITY, is_retryable, with_retry};
pub use strategy::{OrderSpec, Strategy, StrategyError};
pub use trader::{CancelCommand, ClearTrace, OpenOrder, OrderBook, PlaceCommand, TradePlan, Trader, cancel_commands};
