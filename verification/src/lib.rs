//! Batch QR-code pipeline: payload classification, table ingestion,
//! image validation against expected payloads, and archive assembly.

pub mod archive;
pub mod b64;
pub mod classify;
pub mod export;
pub mod scan;
pub mod store;
pub mod table;
pub mod text;
pub mod validate;
