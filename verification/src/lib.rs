//! Decoding, merging and summarising `blktrace` block-I/O event streams.

pub mod blk_io_trace;
pub mod error;
pub mod kway;
pub mod plugins;
pub mod reading;
pub mod text;
pub mod trace;
pub mod trace_file;
pub mod wire;

pub use blk_io_trace::BlkIoTrace;
pub use error::Error;
pub use trace::Reader;
pub use trace_file::TraceReader;
