//! Decision logic of a gateway that speaks the PostgreSQL wire protocol and
//! forwards queries to Trino.
pub mod cancel;
pub mod catalog;
pub mod config;
pub mod datetime;
pub mod error_mapping;
pub mod float;
pub mod handler;
pub mod info_schema;
pub mod intercept;
pub mod json;
pub mod policy;
pub mod query_extended;
pub mod query_inspection;
pub mod query_pipeline;
pub mod query_simple;
pub mod response;
pub mod rewrite;
pub mod session;
pub mod shutdown;
pub mod sql;
pub mod startup;
pub mod text;
pub mod tls;
pub mod trino_stream;
pub mod types;
pub mod wire;
