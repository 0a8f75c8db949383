//! Library for turning kernel network-filesystem mount statistics reports
//! into per-operation rate and latency figures.
//!
//! The crate has three verified cores: a line-oriented snapshot parser that
//! turns a report's text into typed mount records, a delta engine that
//! compares two snapshots of the same mount and derives exact rational
//! rates, and a small filter over the derived records.

pub mod cli;
pub mod display;
pub mod laws;
pub mod maps;
pub mod monitor;
pub mod numeric;
pub mod parser;
pub mod stats;
pub mod text;
pub mod types;
