//! Ingestion and storage of DMARC aggregate reports.
//!
//! The library locates report attachments in mail messages, decompresses
//! them, normalizes the parsed `<feedback>` document into a canonical report,
//! stores reports idempotently and answers aggregate queries over them.
pub mod schema;
pub mod report;
pub mod text;
pub mod store;
pub mod mail;
pub mod config;
pub mod extract;
pub mod scan;
