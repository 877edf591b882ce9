//! Verified core of dgmon, a monitor for GPU clusters.
pub mod api;
pub mod collector;
pub mod http;
pub mod inference;
pub mod laws;
pub mod config;
pub mod control;
pub mod metric_name;
pub mod number;
pub mod order;
pub mod params;
pub mod promapi;
pub mod readings;
pub mod report;
pub mod storage;
pub mod store;
pub mod table;
pub mod text;
