//! A mirror of the stream accounts of one ledger program: the payload decoder,
//! the table of mirrored rows, the synchronization rules and the queries.

pub mod keys;
pub mod models;
pub mod payload;
pub mod routes;
pub mod sync;
pub mod store;
