//! Verified core of a runner that benchmarks many "hello world" HTTP servers
//! one after another: process lifecycle decisions, readiness polling, port
//! clean-up, load-generator output parsing, statistics and chart planning.

pub mod errors;
pub mod text;
pub mod samples;
pub mod stats;
pub mod chart;
pub mod export;
pub mod load;
pub mod reaper;
pub mod lifecycle;
pub mod targets;
pub mod hello;
pub mod versions;
