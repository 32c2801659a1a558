//! A latency monitor's core: per-target time series, rolling hop windows,
//! a row-synchronised CSV log with a summary block, traceroute hop
//! selection and the event sequencer that ties them together.

pub mod address;
pub mod command;
pub mod hops;
pub mod log;
pub mod monitor;
pub mod series;
pub mod text;
pub mod trace;
pub mod words;
