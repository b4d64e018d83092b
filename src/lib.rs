//! A user-space TCP responder: header validation, connection keys, a
//! per-connection handshake state machine, a connection table and a
//! segment builder, each with a verified contract.

pub mod wire;
pub mod validate;
pub mod endpoint;
pub mod connection;
pub mod table;
pub mod builder;
pub mod ingest;
