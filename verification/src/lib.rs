//! Bar sampling and event detection for trade-tick streams.
//!
//! The crate folds an ordered sequence of trades into OHLCV bars under
//! fixed-threshold rules (elapsed time, trade count, traded volume, traded
//! dollar value) and under adaptive imbalance rules whose flush threshold is
//! re-estimated by an exponentially weighted moving average, and detects
//! change-point events on a bar series with a symmetric CUSUM filter.
//!
//! All quantities are integers: prices and amounts are fixed-point values in
//! units chosen by the caller, timestamps are microseconds since the epoch,
//! and log returns for the CUSUM filter are supplied by the caller as scaled
//! integers.

pub mod base;
pub mod cusum;
pub mod ewma;
pub mod imbalance_bar;
pub mod threshold_bar;
pub mod tick_rule;
pub mod time_bar;

pub use base::{Bar, Trade};
pub use cusum::compute_cusum_events;
pub use ewma::{ewma_update, ewma_update_signed};
pub use imbalance_bar::{
    compute_imbalance_bars, compute_tick_imbalance_bars, compute_volume_imbalance_bars,
    ImbalanceKind,
};
pub use threshold_bar::{
    compute_dollar_bars, compute_threshold_bars, compute_tick_bars, compute_volume_bars, BarMetric,
};
pub use tick_rule::tick_rule_sign;
pub use time_bar::compute_time_bars;
