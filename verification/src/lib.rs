//! Flight listings: a single table of flight records with filtered, sorted and
//! paginated retrieval, full-replace ingestion behind a shared secret, and the
//! decisions that keep a local table file in step with a remote copy.

pub mod laws;
pub mod models;
pub mod query;
pub mod routes;
pub mod s3_client;
pub mod store;
pub mod text;
