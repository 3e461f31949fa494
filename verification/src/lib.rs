//! Verified core of a bounded-concurrency TCP file server.
//!
//! The library holds everything the server decides or computes: the wire
//! protocol (command classification, the download request grammar, the
//! statistics push message), the admission gate that bounds concurrent work,
//! the per-file download counters, the subscriber registry, and the chunking
//! of file content for streaming. The sockets, files and threads around it
//! live outside the library and only carry plain values in and out.

pub mod bytes;
pub mod chunks;
pub mod error;
pub mod gate;
pub mod protocol;
pub mod registry;
pub mod request;
pub mod stats;
pub mod tracker;

pub use error::FileServerError;
pub use protocol::CommandType;
pub use stats::Stats;
