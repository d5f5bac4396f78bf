//! Ingestion core of a serial monitor: packets, the tabular data set they
//! feed, the tokenizer and resynchronising parser, the aggregator's and the
//! producer's per-cycle decisions, and the export table.
pub mod data;
pub mod tokens;
pub mod parser;
pub mod laws;
pub mod aggregator;
pub mod export;
pub mod producer;
