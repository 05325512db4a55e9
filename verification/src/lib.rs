//! Consensus pricing: many price observations for one asset in, one trusted
//! price out, with the rules that carry it to the store and to its readers.

pub mod models;
pub mod wide;
pub mod aggregator;
pub mod guarantees;
pub mod oracle_client;
pub mod storage;
pub mod routes;
pub mod ingest;
pub mod config;
