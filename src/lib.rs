//! Reporting engine of a TPC-C style load-test harness: log records of many
//! terminals are classified against a steady-state window, accumulated into
//! per-transaction-type histograms, and turned into throughput and latency
//! reports.

pub mod aggregate;
pub mod cfg;
pub mod generator;
pub mod histo;
pub mod report;
pub mod terminal;
pub mod util;
pub mod window;
