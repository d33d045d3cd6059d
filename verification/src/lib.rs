//! An in-memory key-value store spoken to over a length-prefixed binary
//! protocol: the frame codec, the store, the server's dispatch and the
//! client's connection pool, each with its contract.

pub mod client;
pub mod engine;
pub mod exchange;
pub mod pool;
pub mod protocol;
pub mod reader;
pub mod record;
pub mod session;
