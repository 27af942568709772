//! A client library for the ArangoDB database server: the database handle,
//! the addresses of its HTTP endpoints, the server's replies and the
//! gathering of AQL query results across batches.
pub mod aql;
pub mod cursor;
pub mod database;
pub mod response;
pub mod urls;
