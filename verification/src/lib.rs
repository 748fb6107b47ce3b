//! Grouped, styled reports from a Prometheus text exposition stream.
//!
//! The stream is taken line by line. Every family is introduced by a
//! `# HELP` and a `# TYPE` line; the sample lines that follow are either
//! listed one by one (gauges and counters) or gathered into groups
//! (histograms and summaries).

pub mod aggregate;
pub mod error;
pub mod family;
pub mod grammar;
pub mod laws;
pub mod line;
pub mod paint;
pub mod render;
pub mod text;
