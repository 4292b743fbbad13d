//! Descriptive signals over a security's closing-price series.
//!
//! A closing-price series is an ordered sequence of binary64 values,
//! carried as their bit patterns. Four independent, stateless signals
//! are computed over such a series — the minimum, the maximum, the
//! difference between the first and last price, and a windowed simple
//! moving average — each returning either a result or an explicit
//! absence marker, and one report row is assembled per security whose
//! series is non-empty.

pub mod fp;
pub mod report;
pub mod signals;
