//! Drains a streaming byte source fully into memory, as raw bytes or as
//! UTF-8 text.
//!
//! The verified core works on finished pull records: a [`source::ChunkStream`]
//! holds the chunks a body handed out, a [`source::ReaderSource`] holds what a
//! buffered reader returned, read by read. Callers that sit on a live body or
//! reader collect those records at the I/O boundary and hand them in as plain
//! values; every decision after that point — ordering, error selection,
//! UTF-8 validation — is made here, under contract.

pub mod converter;
pub mod error;
pub mod process;
pub mod source;
pub mod util;

pub use converter::StreamConverter;
pub use error::StreamConverterError;
pub use source::{ChunkPull, ChunkStream, ReadPull, ReaderSource};
