//! Configuration of a filesystem, fixed for its lifetime.

use vstd::prelude::*;
use crate::timing::TimeSpan;

verus! {

/// Tunables of the read path. A filesystem copies its configuration into
/// every file it opens.
#[derive(Clone, Copy, Debug)]
pub struct HttpConfig {
    /// Bytes requested per refill; a value of zero behaves as one.
    pub chunk_size: u64,
    /// Master switch of the prefetch.
    pub read_ahead: bool,
    /// The next chunk is prefetched once this few bytes, or fewer, are left
    /// in the resident chunk.
    pub read_ahead_trigger: u64,
    /// Most entries the range cache may hold; zero disables caching.
    pub cache_max_entries: usize,
    /// Most payload bytes the range cache may hold; zero disables caching.
    pub cache_max_bytes: usize,
    /// Retries allowed after the first try of a request.
    pub retry_max_attempts: usize,
    /// Delay before the first retry.
    pub retry_base_delay: TimeSpan,
    /// Cap on the delay before any retry.
    pub retry_max_delay: TimeSpan,
    /// Hint to the transport: time allowed to connect.
    pub connect_timeout: TimeSpan,
    /// Hint to the transport: time allowed for one request.
    pub read_timeout: TimeSpan,
    /// Hint to the transport: time an idle connection is kept.
    pub idle_timeout: TimeSpan,
}

impl HttpConfig {
    /// Last offset of the chunk that starts at `start`, inclusive; it stops
    /// at the largest offset there is.
    pub open spec fn spec_range_end(&self, start: u64) -> u64 {
        let span: int = if self.chunk_size == 0 {
            0
        } else {
            self.chunk_size - 1
        };
        if start + span > u64::MAX {
            u64::MAX
        } else {
            (start + span) as u64
        }
    }

    /// Exec counterpart of [`HttpConfig::spec_range_end`].
    pub fn range_end(&self, start: u64) -> (r: u64)
        ensures
            r == self.spec_range_end(start),
            r >= start,
    {
        let span: u64 = if self.chunk_size == 0 {
            0
        } else {
            self.chunk_size - 1
        };
        if span > u64::MAX - start {
            u64::MAX
        } else {
            start + span
        }
    }

    /// Whether the bounds leave the range cache any room: either bound at
    /// zero disables caching.
    pub open spec fn caches(&self) -> bool {
        self.cache_max_entries > 0 && self.cache_max_bytes > 0
    }

    /// The configuration that is the default: chunks of 256 KiB, prefetch
    /// on with a trigger of half a chunk, a cache of 64 entries and
    /// 32 MiB, three retries from 50 ms up to 2 s, and timeouts of 10 s to
    /// connect and 30 s to read or idle.
    pub open spec fn is_default(&self) -> bool {
        &&& self.chunk_size == 262_144
        &&& self.read_ahead
        &&& self.read_ahead_trigger == 131_072
        &&& self.cache_max_entries == 64
        &&& self.cache_max_bytes == 33_554_432
        &&& self.retry_max_attempts == 3
        &&& self.retry_base_delay@ == 50_000_000
        &&& self.retry_max_delay@ == 2_000_000_000
        &&& self.connect_timeout@ == 10_000_000_000
        &&& self.read_timeout@ == 30_000_000_000
        &&& self.idle_timeout@ == 30_000_000_000
    }
}

impl Default for HttpConfig {
    /// The default configuration.
    fn default() -> (r: HttpConfig)
        ensures
            r.is_default(),
    {
        HttpConfig {
            chunk_size: 262_144,
            read_ahead: true,
            read_ahead_trigger: 131_072,
            cache_max_entries: 64,
            cache_max_bytes: 33_554_432,
            retry_max_attempts: 3,
            retry_base_delay: TimeSpan::from_millis(50),
            retry_max_delay: TimeSpan::from_secs(2),
            connect_timeout: TimeSpan::from_secs(10),
            read_timeout: TimeSpan::from_secs(30),
            idle_timeout: TimeSpan::from_secs(30),
        }
    }
}

} // verus!
