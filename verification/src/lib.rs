//! PowerMon watchdog: the rules by which Thornwave advertisements are measured against
//! thresholds, acted upon, exposed as metrics and stored.
pub mod acceptance;
pub mod action;
pub mod address;
pub mod calendar;
pub mod cli;
pub mod clock;
pub mod columns;
pub mod config;
pub mod diagnostics;
pub mod exposition;
pub mod float;
pub mod http_server;
pub mod json;
pub mod metrics;
pub mod parquet_writer;
pub mod processor;
pub mod sample;
pub mod scanner;
pub mod state;
pub mod text;
