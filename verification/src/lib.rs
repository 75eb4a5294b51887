//! Coverage audit for candle (open/high/low/close/volume) history endpoints.
//!
//! Given a window of UNIX seconds and a resolution in minutes, the crate
//! enumerates the timestamps at which candles are due and reports, for each of
//! them, whether a response holds a candle.  Every function is verified with
//! Verus; calendar arithmetic and random numbers come from `chrono` and `rand`
//! through a handful of trusted wrappers in [`utc`] and [`driver`].

pub mod audit;
pub mod candles;
pub mod driver;
pub mod error;
pub mod schedule;
pub mod url;
pub mod utc;
