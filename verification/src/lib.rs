//! Supervises an end-to-end test run: classifies interleaved service-log and
//! test-runner output lines, correlates service log records with test
//! failures through a shared request identifier or URL, groups batch-job
//! lines, and aggregates SQL query statistics and test summaries.

pub mod analysis;
pub mod batch;
pub mod config;
pub mod correlation;
pub mod export;
pub mod filter;
pub mod formatter;
pub mod log_parser;
pub mod process;
pub mod text;
