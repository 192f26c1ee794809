//! Stream ingestion core: connection lifecycle decisions, a bounded update
//! queue, a block-time cache and latency correlation.

pub mod artifact;
pub mod cache;
pub mod channel;
pub mod config;
pub mod connection;
pub mod latency;
pub mod ledger;
pub mod processor;
pub mod request;
pub mod retry;
pub mod search;
pub mod settings;
pub mod shreds;
pub mod text;
pub mod update;
