//! Storage-side logic of a lightweight OpenTelemetry receiver.
pub mod activity_laws;
pub mod analytics;
pub mod balance;
pub mod cache;
pub mod cache_laws;
pub mod calls;
pub mod capability;
pub mod columns;
pub mod config;
pub mod counter;
pub mod counts;
pub mod credit_laws;
pub mod dashboard;
pub mod diagnose;
pub mod error;
pub mod filter;
pub mod group;
pub mod histogram;
pub mod identity;
pub mod latency;
pub mod latency_laws;
pub mod latency_series;
pub mod layout;
pub mod listing;
pub mod order;
pub mod parse;
pub mod pool;
pub mod provider_laws;
pub mod providers;
pub mod query_laws;
pub mod ratio;
pub mod records;
pub mod report;
pub mod report_laws;
pub mod retention;
pub mod role_laws;
pub mod roles;
pub mod series;
pub mod series_laws;
pub mod session_laws;
pub mod sources;
pub mod sql;
pub mod store_laws;
pub mod sums;
pub mod table_laws;
pub mod tables;
pub mod tally;
pub mod text;
pub mod text_laws;
pub mod tokens;
pub mod tools;
pub mod usage;
