//! Run one base command over a list of argument variants, each repeated a
//! number of times, under a bounded degree of concurrency.
pub mod queue;
pub mod schedule;
pub mod output;
pub mod config;
