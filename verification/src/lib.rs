//! A seekable, file-like reader over an HTTP(S) resource.
//!
//! Reads and seeks are served from a resident chunk, a shared cache of
//! recently fetched byte ranges and, on a miss, a range request to the
//! transport, retried on transient failures.

pub mod adapter;
pub mod buffer;
pub mod cache;
pub mod config;
pub mod error;
pub mod file;
pub mod filesystem;
pub mod header;
pub mod laws;
pub mod memory;
pub mod session;
pub mod sync;
pub mod text;
pub mod timing;
pub mod transport;

pub use adapter::{offset_by, seek_target, FileAdapter};
pub use buffer::{empty_bytes, RangeBuffer};
pub use cache::{CacheKey, Payload, RangeCache};
pub use config::HttpConfig;
pub use error::{FsError, IoKind, PravahaErrorCode};
pub use file::{File, FileSystem};
pub use filesystem::{create, open, HttpFileSystem, HttpFileSystemBuilder};
pub use header::{parse_content_length, parse_content_range, split_header_line};
pub use memory::MemoryTransport;
pub use session::HttpFile;
pub use timing::{retry_delay, TimeSpan};
pub use transport::{
    check_range_response, content_length_with_retry, head_length, range_with_retry, should_retry,
    BlockingHttp, Fetched, HttpResponse, PrefetchTicket,
};
