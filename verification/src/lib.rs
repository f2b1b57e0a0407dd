//! A live process monitor's core: running per-process statistics, ranking of
//! process snapshots by CPU use, resolution of owning users, and the text of
//! the terminal frames that show the result.
//!
//! All metrics are fixed-point integers with two decimal places: a CPU value of
//! `1250` is 12.50 %, a memory value of `200` is 2.00 MB.

pub mod engine;
pub mod identity;
pub mod ranking;
pub mod render;
pub mod scheduler;
pub mod statistics;
pub mod text;
