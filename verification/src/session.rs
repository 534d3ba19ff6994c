//! The file session: the read path over the resident chunk, the shared
//! range cache, the prefetch slot and the retrying transport.

use vstd::prelude::*;
use vstd::rwlock::{RwLock, RwLockPredicate};
use std::sync::Arc;
use std::sync::mpsc::Receiver;
use crate::buffer::RangeBuffer;
use crate::cache::{
    key_view, lemma_insert_adds_only_its_own, CacheKey, KeyView, Payload, RangeCache,
};
use crate::config::HttpConfig;
use crate::error::FsError;
use crate::file::File;
use crate::sync::{receive, share};
use crate::transport::{
    content_length_with_retry, length_admitted, range_admitted, range_with_retry,
    share_transport, BlockingHttp, Fetched, HttpResponse, PrefetchTicket,
};

verus! {

/// Whether `data` may stand in the cache under `k`: it is not empty, ends
/// at an offset that exists, and is an answer of the transport to the
/// request that `k` names.
pub open spec fn vouched_payload<T: BlockingHttp>(t: T, k: KeyView, data: Seq<u8>) -> bool {
    &&& data.len() > 0
    &&& k.1 + data.len() <= u64::MAX
    &&& t.serves_range(k.0, k.1, k.2, data)
}

/// Whether a cache may hold the range `range` of `url`: the transport
/// has an answer with bytes for the request of that range, to vouch for.
pub open spec fn cacheable<T: BlockingHttp>(t: T, url: Seq<char>, range: (u64, u64)) -> bool {
    exists|payload: Seq<u8>| #[trigger] vouched_payload(t, (url, range.0, range.1), payload)
}

/// What holds of the shared cache whenever no file is working on it.
pub struct CacheRule<T: BlockingHttp> {
    /// The transport whose answers the cache holds.
    pub transport: Arc<T>,
    /// The bound on entries that the filesystem was configured with.
    pub max_entries: usize,
    /// The bound on bytes that the filesystem was configured with.
    pub max_bytes: usize,
}

impl<T: BlockingHttp> RwLockPredicate<RangeCache> for CacheRule<T> {
    open spec fn inv(self, cache: RangeCache) -> bool {
        &&& cache.wf()
        &&& cache@.max_entries == self.max_entries
        &&& cache@.max_bytes == self.max_bytes
        &&& forall|k: KeyView| #[trigger]
            cache@.entries.contains_key(k) ==> vouched_payload(
                *self.transport,
                k,
                cache@.entries[k],
            )
    }
}

/// The range cache of a filesystem, shared by the files it opened.
pub type SharedCache<T> = Arc<RwLock<RangeCache, CacheRule<T>>>;

/// A cache for `transport` with the bounds of `config`, holding nothing.
pub fn new_shared_cache<T: BlockingHttp>(transport: &Arc<T>, config: &HttpConfig) -> (r: SharedCache<T>)
    ensures
        r.pred() == (CacheRule {
            transport: *transport,
            max_entries: config.cache_max_entries,
            max_bytes: config.cache_max_bytes,
        }),
{
    let cache = RangeCache::new(config.cache_max_entries, config.cache_max_bytes);
    let ghost rule = CacheRule {
        transport: *transport,
        max_entries: config.cache_max_entries,
        max_bytes: config.cache_max_bytes,
    };
    Arc::new(RwLock::new(cache, Ghost(rule)))
}

/// Looks a range up in the shared cache; a hit becomes the most recently
/// used entry. What is found is an answer of the transport to the
/// request that `key` names; a cache whose bounds disable it holds
/// nothing. Whether an enabled cache holds the key is for the value to
/// say that the lock hands out: other files fill and empty it.
pub fn cache_lookup<T: BlockingHttp>(cache: &SharedCache<T>, key: &CacheKey) -> (r: Option<Payload>)
    ensures
        r matches Some(p) ==> vouched_payload(*cache.pred().transport, key_view(key), p@),
        cache.pred().max_entries == 0 || cache.pred().max_bytes == 0 ==> r is None,
{
    let (mut inner, handle) = cache.acquire_write();
    let found = inner.get(key);
    handle.release_write(inner);
    found
}

/// Stores an answer of the transport in the shared cache.
pub fn cache_store<T: BlockingHttp>(cache: &SharedCache<T>, key: CacheKey, data: Payload)
    requires
        vouched_payload(*cache.pred().transport, key_view(&key), data@),
{
    let (mut inner, handle) = cache.acquire_write();
    let ghost before = inner@;
    let ghost k = key_view(&key);
    let ghost bytes = data@;
    inner.insert(key, data);
    proof {
        lemma_insert_adds_only_its_own(before, k, bytes);
        assert forall|x: KeyView| #[trigger] inner@.entries.contains_key(x) implies vouched_payload(
            *cache.pred().transport,
            x,
            inner@.entries[x],
        ) by {
            assert(before.put(k, bytes).entries.contains_key(x));
        }
    }
    handle.release_write(inner);
}

/// The prefetch slot: the range a background fetch targets, and the
/// channel its outcome arrives on once a worker has been started.
#[verifier::reject_recursive_types(T)]
pub struct PrefetchState<T: BlockingHttp> {
    range_start: u64,
    range_end: u64,
    rx: Option<Receiver<Fetched<T>>>,
}

/// A file session as a mathematical value.
#[verifier::ext_equal]
pub struct FileState {
    /// The URL of the resource.
    pub url: Seq<char>,
    /// The configuration the file was opened with.
    pub config: HttpConfig,
    /// The current absolute offset.
    pub offset: u64,
    /// Whether the end of the resource was seen.
    pub eof: bool,
    /// Whether the file was closed.
    pub closed: bool,
    /// The size of the resource: not probed yet, probed and unknown, or known.
    pub size: Option<Option<u64>>,
    /// The file offset of the first resident byte.
    pub buffer_start: u64,
    /// The resident bytes.
    pub buffer: Seq<u8>,
    /// The first and last offset that the prefetch slot targets.
    pub prefetch: Option<(u64, u64)>,
    /// Whether a worker was started for the prefetch slot.
    pub worker: bool,
    /// The offset at which the last read that returned bytes ended.
    pub last_read_end: Option<u64>,
}

/// Whether a probe of `url` may come back without a length: the
/// transport may answer that it knows none, or the probe may fail.
pub open spec fn length_unknown<T: BlockingHttp>(t: T, url: Seq<char>) -> bool {
    t.serves_length(url, None) || exists|err: FsError| #[trigger] t.length_may_fail(url, err)
}

/// The size that a probe with this outcome has learned: none from a failure.
pub open spec fn learned(outcome: Result<Option<u64>, FsError>) -> Option<u64> {
    match outcome {
        Ok(length) => length,
        Err(_) => None,
    }
}

/// Whether `size` is what a first probe of the size of the file `pre`
/// may learn: what an outcome has learned that the transport admits
/// for a probe of the URL.
pub open spec fn size_probed<T: BlockingHttp>(t: T, pre: FileState, size: Option<u64>) -> bool {
    exists|outcome: Result<Option<u64>, FsError>| #[trigger]
        length_admitted(t, pre.url, outcome) && size == learned(outcome)
}

/// Whether a refill that brought `actual` bytes for the chunk at
/// `range_start` has reached the end of the resource. With a known size,
/// it has when the chunk ends at or past it. Without one, it has when the
/// chunk is shorter than the `expected` bytes and a chunk was resident
/// before, so that a short first answer never ends the file by itself.
pub open spec fn ends_resource(
    size: Option<u64>,
    range_start: u64,
    actual: nat,
    expected: int,
    old_buffer_end: u64,
) -> bool {
    match size {
        Some(n) => range_start + actual >= n,
        None => actual < expected && old_buffer_end > 0,
    }
}

impl FileState {
    /// The offset past the resident bytes; zero when none are resident.
    pub open spec fn buffer_end(self) -> u64 {
        if self.buffer.len() == 0 {
            0
        } else {
            (self.buffer_start + self.buffer.len()) as u64
        }
    }

    /// Whether the byte at `pos` is resident.
    pub open spec fn resident(self, pos: u64) -> bool {
        self.buffer_start <= pos < self.buffer_end()
    }

    /// The last offset of the chunk that a refill at the current offset requests.
    pub open spec fn range_end(self) -> u64 {
        self.config.spec_range_end(self.offset)
    }

    /// The number of bytes that a refill at the current offset requests.
    pub open spec fn expected_size(self) -> int {
        self.range_end() - self.offset + 1
    }

    /// The state with nothing resident.
    pub open spec fn cleared(self) -> FileState {
        FileState { buffer_start: 0, buffer: Seq::empty(), ..self }
    }

    /// The state with an empty prefetch slot.
    pub open spec fn unslotted(self) -> FileState {
        FileState { prefetch: None, worker: false, ..self }
    }

    /// The state after a seek to `pos`. A seek backwards, or to an offset
    /// that is not resident, drops the resident chunk; any seek clears
    /// the end-of-file flag, the prefetch slot and the memory of the last read.
    pub open spec fn after_seek(self, pos: u64) -> FileState {
        let kept = if pos < self.offset || !self.resident(pos) {
            self.cleared()
        } else {
            self
        };
        FileState { offset: pos, eof: false, last_read_end: None, ..kept.unslotted() }
    }

    /// The state after a close.
    pub open spec fn after_close(self) -> FileState {
        if self.closed {
            self
        } else {
            FileState { closed: true, ..self.cleared().unslotted() }
        }
    }

    /// The state after a refill was answered with no bytes: the end is
    /// reached, nothing is resident and the prefetch slot is empty.
    pub open spec fn with_end(self) -> FileState {
        FileState { eof: true, ..self.cleared().unslotted() }
    }

    /// Whether `data`, as the chunk at the current offset, reaches the end of the resource.
    pub open spec fn ends_with(self, data: Seq<u8>) -> bool {
        ends_resource(
            self.size.unwrap(),
            self.offset,
            data.len(),
            self.expected_size(),
            self.buffer_end(),
        )
    }

    /// The state after a refill made `data` the resident chunk at the
    /// current offset. Where the chunk reaches the end of the resource,
    /// the end is seen and the prefetch slot is emptied.
    pub open spec fn with_chunk(self, data: Seq<u8>) -> FileState {
        let placed = FileState { buffer_start: self.offset, buffer: data, ..self };
        if self.eof || self.ends_with(data) {
            FileState { eof: true, ..placed.unslotted() }
        } else {
            placed
        }
    }

    /// Whether `data`, as the chunk at the current offset, would end past the largest offset.
    pub open spec fn overruns(self, data: Seq<u8>) -> bool {
        self.offset + data.len() > u64::MAX
    }

    /// Whether `data`, as the chunk at the current offset, fails to reach
    /// past the end of the chunk that was resident before.
    pub open spec fn stalls(self, data: Seq<u8>) -> bool {
        self.buffer_end() > 0 && self.offset + data.len() <= self.buffer_end()
    }

    /// The state after the transport answered a refill with `data`.
    pub open spec fn after_answer(self, data: Seq<u8>) -> FileState {
        if data.len() == 0 {
            self.with_end()
        } else if self.overruns(data) {
            self
        } else {
            self.with_chunk(data)
        }
    }

    /// The chunk after the resident one, where the time to prefetch it has
    /// come: prefetch is on, the end was not seen, bytes are resident past
    /// the offset, and no more of them than the trigger.
    pub open spec fn next_chunk_due(self) -> Option<(u64, u64)> {
        if !self.config.read_ahead || self.eof || self.buffer_end() <= self.offset
            || self.buffer_end() - self.offset > self.config.read_ahead_trigger {
            None
        } else {
            Some((self.buffer_end(), self.config.spec_range_end(self.buffer_end())))
        }
    }

    /// The range to schedule a prefetch for: the chunk that is due, unless
    /// the slot targets it already.
    pub open spec fn prefetch_goal(self) -> Option<(u64, u64)> {
        if self.next_chunk_due() == self.prefetch {
            None
        } else {
            self.next_chunk_due()
        }
    }

    /// The state with the prefetch slot set to target `goal`, no worker started.
    pub open spec fn scheduled(self, goal: (u64, u64)) -> FileState {
        FileState { prefetch: Some(goal), worker: false, ..self }
    }

    /// Everything the state holds came from the transport `t`: the
    /// resident chunk answers the request of its offset, a size that is
    /// known was reported and one that is unknown was not to be had, and
    /// an end that was seen was seen in an answer. The offset lies in the
    /// resident chunk or at its end, and a closed file holds no chunk
    /// and no slot.
    pub open spec fn vouched_by<T: BlockingHttp>(self, t: T) -> bool {
        &&& self.buffer_start + self.buffer.len() <= u64::MAX
        &&& self.buffer.len() == 0 ==> self.buffer_start == 0
        &&& self.buffer.len() > 0 ==> t.serves_range(
            self.url,
            self.buffer_start,
            self.config.spec_range_end(self.buffer_start),
            self.buffer,
        )
        &&& self.buffer.len() > 0 ==> self.buffer_start <= self.offset <= self.buffer_end()
        &&& self.closed ==> self.buffer.len() == 0 && self.prefetch is None
        &&& self.size matches Some(Some(n)) ==> t.serves_length(self.url, Some(n))
        &&& self.size == Some(None::<u64>) ==> length_unknown(t, self.url)
        &&& self.eof ==> self.size is Some && self.prefetch is None
        &&& self.eof && !self.closed ==> if self.buffer.len() == 0 {
            t.serves_range(self.url, self.offset, self.range_end(), Seq::empty())
        } else {
            &&& self.buffer_start <= self.offset <= self.buffer_end()
            &&& self.size matches Some(Some(n)) ==> self.buffer_end() >= n
            &&& self.size == Some(None::<u64>) ==> self.buffer.len() < self.config.spec_range_end(
                self.buffer_start,
            ) - self.buffer_start + 1
        }
    }
}

/// A file of an HTTP filesystem.
#[verifier::reject_recursive_types(T)]
pub struct HttpFile<T: BlockingHttp> {
    url: String,
    transport: Arc<T>,
    config: HttpConfig,
    cache: SharedCache<T>,
    buffer: RangeBuffer,
    file_offset: u64,
    eof_reached: bool,
    closed: bool,
    cached_size: Option<Option<u64>>,
    prefetch: Option<PrefetchState<T>>,
    last_read_end: Option<u64>,
}

/// The message of the failure that stands for a prefetch without an outcome.
pub open spec fn canceled_text() -> Seq<char> {
    "Prefetch thread canceled"@
}

/// Whether `err` is the failure that stands for a prefetch without an outcome.
pub open spec fn is_canceled(err: FsError) -> bool {
    err matches FsError::Network(m) && m@ == canceled_text()
}

/// The state that takes in the answer to a refill of the file `pre`:
/// the size is remembered as `size`, and the slot is empty where the
/// refill has consumed it.
pub open spec fn refill_base(pre: FileState, size: Option<Option<u64>>, consumed: bool) -> FileState {
    let probed = FileState { size: size, ..pre };
    if consumed {
        probed.unslotted()
    } else {
        probed
    }
}

/// Whether a refill of the file `pre` may succeed and leave `post`: the
/// transport vouches for a payload as the chunk at the offset, whether
/// that came from the cache, the prefetch or a request, and `post` has
/// taken it in. The slot is consumed only where it targets the chunk.
pub open spec fn refilled<T: BlockingHttp>(t: T, pre: FileState, post: FileState) -> bool {
    exists|data: Seq<u8>, consumed: bool|
        {
            &&& #[trigger] t.serves_range(pre.url, pre.offset, pre.range_end(), data)
            &&& !pre.overruns(data)
            &&& consumed ==> pre.prefetch == Some((pre.offset, pre.range_end()))
            &&& post == #[trigger] refill_base(pre, post.size, consumed).after_answer(data)
        }
}

/// Whether a refill of the file `pre` may fail with `err` and leave
/// `post`. A failure of the transport on the request for the chunk, and
/// the failure of a prefetch without an outcome, leave all but the size
/// and the slot as they are. An answer of the transport that would end
/// past the largest offset, or that does not reach past the chunk that
/// was resident, is a protocol failure.
pub open spec fn refill_failed<T: BlockingHttp>(
    t: T,
    pre: FileState,
    post: FileState,
    err: FsError,
) -> bool {
    ||| {
        &&& t.range_may_fail(pre.url, pre.offset, pre.range_end(), err)
        &&& post.unslotted() == refill_base(pre, post.size, true)
    }
    ||| {
        &&& is_canceled(err)
        &&& pre.worker
        &&& pre.prefetch == Some((pre.offset, pre.range_end()))
        &&& post == refill_base(pre, post.size, true)
    }
    ||| {
        &&& err is Protocol
        &&& exists|data: Seq<u8>, consumed: bool|
            {
                &&& #[trigger] t.serves_range(pre.url, pre.offset, pre.range_end(), data)
                &&& data.len() > 0
                &&& pre.overruns(data) || pre.stalls(data)
                &&& post == #[trigger] refill_base(pre, post.size, consumed).after_answer(data)
            }
    }
}

/// The failure that stands for a prefetch without an outcome.
fn canceled() -> (r: FsError)
    ensures
        is_canceled(r),
{
    FsError::Network("Prefetch thread canceled".to_string())
}

impl<T: BlockingHttp> HttpFile<T> {
    /// Most refills in a row that a read makes without copying a byte.
    pub const MAX_REFILL_ATTEMPTS: usize = 3;

    /// The session as a mathematical value. The transport and the shared
    /// cache, which are no plain values, are what
    /// [`HttpFile::model_transport`] and [`HttpFile::model_cache`] name;
    /// of the channel of a prefetch worker the value holds whether there
    /// is one.
    pub closed spec fn view(&self) -> FileState {
        FileState {
            url: self.url@,
            config: self.config,
            offset: self.file_offset,
            eof: self.eof_reached,
            closed: self.closed,
            size: self.cached_size,
            buffer_start: self.buffer.start(),
            buffer: self.buffer.bytes(),
            prefetch: match self.prefetch {
                Some(p) => Some((p.range_start, p.range_end)),
                None => None,
            },
            worker: match self.prefetch {
                Some(p) => p.rx is Some,
                None => false,
            },
            last_read_end: self.last_read_end,
        }
    }

    /// The transport the file reads through.
    pub closed spec fn model_transport(&self) -> T {
        *self.transport
    }

    /// The range cache the file shares with its filesystem.
    pub closed spec fn model_cache(&self) -> SharedCache<T> {
        self.cache
    }

    /// The parts are consistent: the resident chunk with its offsets, and
    /// the shared cache with this file's transport and bounds.
    pub closed spec fn parts_wf(&self) -> bool {
        &&& self.buffer.wf()
        &&& self.cache.pred() == (CacheRule {
            transport: self.transport,
            max_entries: self.config.cache_max_entries,
            max_bytes: self.config.cache_max_bytes,
        })
    }

    /// The session is consistent, and all it holds came from its transport.
    pub open spec fn wf(&self) -> bool {
        self.parts_wf() && self@.vouched_by(self.model_transport())
    }

    /// A file at offset zero with nothing resident.
    pub fn new(url: String, transport: Arc<T>, config: HttpConfig, cache: SharedCache<T>) -> (r: Self)
        requires
            cache.pred() == (CacheRule {
                transport: transport,
                max_entries: config.cache_max_entries,
                max_bytes: config.cache_max_bytes,
            }),
        ensures
            r.wf(),
            r.model_transport() == *transport,
            r.model_cache() == cache,
            r@ == (FileState {
                url: url@,
                config: config,
                offset: 0,
                eof: false,
                closed: false,
                size: None,
                buffer_start: 0,
                buffer: Seq::empty(),
                prefetch: None,
                worker: false,
                last_read_end: None,
            }),
    {
        HttpFile {
            url,
            transport,
            config,
            cache,
            buffer: RangeBuffer::new(),
            file_offset: 0,
            eof_reached: false,
            closed: false,
            cached_size: None,
            prefetch: None,
            last_read_end: None,
        }
    }

    /// Probes the content length through the retrying transport: see
    /// [`content_length_with_retry`]. The result is an outcome that the
    /// transport admits for a probe of this file's URL.
    pub fn get_content_length_with_retry(&self) -> (r: Result<Option<u64>, FsError>)
        ensures
            length_admitted(self.model_transport(), self@.url, r),
    {
        content_length_with_retry(&*self.transport, self.url.as_str(), &self.config)
    }

    /// Requests a range through the retrying transport: see
    /// [`range_with_retry`]. The result is an outcome that the transport
    /// admits for the request of this range of this file's URL.
    pub fn get_range_with_retry(&self, start: u64, end: u64) -> (r: Result<HttpResponse, FsError>)
        ensures
            range_admitted(self.model_transport(), self@.url, start, end, r),
    {
        range_with_retry(&*self.transport, self.url.as_str(), start, end, &self.config)
    }

    /// Looks the range of this file's URL up in the shared cache: see [`cache_lookup`].
    pub fn try_cache_lookup(&self, range_start: u64, range_end: u64) -> (r: Option<Payload>)
        requires
            self.parts_wf(),
        ensures
            r matches Some(p) ==> vouched_payload(
                self.model_transport(),
                (self@.url, range_start, range_end),
                p@,
            ),
            !self@.config.caches() ==> r is None,
    {
        let key: CacheKey = (self.url.clone(), range_start, range_end);
        cache_lookup(&self.cache, &key)
    }

    /// The entry that an answer to a request of this file enters the
    /// cache as: the key is the URL of the file with the range as it was
    /// requested, the payload is the answer.
    pub fn cache_entry(&self, range_start: u64, range_end: u64, data: Payload) -> (r: (
        CacheKey,
        Payload,
    ))
        ensures
            key_view(&r.0) == (self@.url, range_start, range_end),
            r.1 == data,
    {
        ((self.url.clone(), range_start, range_end), data)
    }

    /// Stores an answer of the transport in the shared cache, as the
    /// entry that [`HttpFile::cache_entry`] makes of it.
    pub fn store_cache(&self, range_start: u64, range_end: u64, data: Payload)
        requires
            self.parts_wf(),
            vouched_payload(self.model_transport(), (self@.url, range_start, range_end), data@),
    {
        let entry = self.cache_entry(range_start, range_end, data);
        cache_store(&self.cache, entry.0, entry.1);
    }

    /// The size of the resource as far as it is known, probing it on first use.
    fn probe_size(&mut self) -> (r: Option<u64>)
        requires
            old(self).wf(),
        ensures
            final(self).wf(),
            final(self).model_transport() == old(self).model_transport(),
            final(self).model_cache() == old(self).model_cache(),
            final(self)@ == (FileState { size: Some(r), ..old(self)@ }),
            old(self)@.size matches Some(known) ==> r == known,
            old(self)@.size is None ==> size_probed(old(self).model_transport(), old(self)@, r),
    {
        match self.cached_size {
            Some(known) => known,
            None => {
                let outcome = self.get_content_length_with_retry();
                assert(size_probed(self.model_transport(), self@, learned(outcome)));
                let probed: Option<u64> = match outcome {
                    Ok(length) => length,
                    Err(_) => None,
                };
                self.cached_size = Some(probed);
                probed
            },
        }
    }
}

impl<T: BlockingHttp> File for HttpFile<T> {
    open spec fn valid(&self) -> bool {
        self.wf()
    }

    /// What [`File::read`] does on this file, as its contract has it.
    open spec fn read_may(
        &self,
        post: &Self,
        before: Seq<u8>,
        after: Seq<u8>,
        r: Result<usize, FsError>,
    ) -> bool {
        &&& after.len() == before.len()
        &&& post.model_transport() == self.model_transport()
        &&& post.model_cache() == self.model_cache()
        &&& before.len() == 0 ==> r == Ok::<usize, FsError>(0) && post@ == self@
        &&& before.len() > 0 && self@.closed ==> r == Err::<usize, FsError>(FsError::FileClosed)
            && post@ == self@
        &&& before.len() > 0 && !self@.closed && self@.eof && !self@.resident(self@.offset) ==> r
            == Ok::<usize, FsError>(0) && post@ == self@
        &&& served(self@, before.len()) ==> r == Ok::<usize, FsError>(
            quota(self@, before.len()) as usize,
        )
        &&& r matches Err(err) ==> {
            &&& before.len() > 0
            &&& read_failed(self.model_transport(), self@, err)
            &&& post@.url == self@.url
            &&& post@.config == self@.config
            &&& post@.closed == self@.closed
            &&& post@.offset >= self@.offset
            &&& post@.offset - self@.offset <= before.len()
            &&& post@.last_read_end == self@.last_read_end
            &&& forall|i: int|
                0 <= i < post@.offset - self@.offset ==> vouched_byte(
                    post.model_transport(),
                    post@.url,
                    post@.config,
                    (self@.offset + i) as u64,
                    #[trigger] after[i],
                )
            &&& forall|i: int|
                post@.offset - self@.offset <= i < before.len() ==> after[i] == before[i]
        }
        &&& r matches Ok(n) ==> {
            &&& read_went(self@, post@, n, before.len())
            &&& slot_settled(self.model_transport(), self@, post@, n)
            &&& exists|starts: Seq<u64>, chunks: Seq<Seq<u8>>| #[trigger]
                refill_chain(self.model_transport(), self@, post@, starts, chunks)
            &&& forall|i: int|
                0 <= i < n ==> vouched_byte(
                    post.model_transport(),
                    post@.url,
                    post@.config,
                    (self@.offset + i) as u64,
                    #[trigger] after[i],
                )
            &&& forall|i: int| n <= i < before.len() ==> after[i] == before[i]
        }
    }

    /// What [`File::seek`] does on this file, as its contract has it.
    open spec fn seek_may(&self, post: &Self, pos: u64, failure: Option<FsError>) -> bool {
        &&& post.model_transport() == self.model_transport()
        &&& post.model_cache() == self.model_cache()
        &&& self@.closed ==> failure == Some(FsError::FileClosed) && post@ == self@
        &&& !self@.closed ==> failure is None && post@ == self@.after_seek(pos)
    }

    /// What [`File::tell`] tells of this file: its offset.
    open spec fn tell_may(&self, r: u64) -> bool {
        r == self@.offset
    }

    /// What [`File::size`] does on this file, as its contract has it.
    open spec fn size_may(&self, post: &Self, r: Option<u64>) -> bool {
        &&& post.model_transport() == self.model_transport()
        &&& post.model_cache() == self.model_cache()
        &&& self@.closed ==> r is None && post@ == self@
        &&& !self@.closed ==> post@ == (FileState { size: Some(r), ..self@ })
        &&& !self@.closed ==> (self@.size matches Some(known) ==> r == known)
        &&& !self@.closed && self@.size is None ==> size_probed(self.model_transport(), self@, r)
        &&& !self@.closed && r is None ==> length_unknown(self.model_transport(), self@.url)
        &&& r matches Some(n) ==> post.model_transport().serves_length(post@.url, Some(n))
    }

    /// Reads into the front of `buf` until it is full or the end of the
    /// resource is seen, refilling the resident chunk as often as needed.
    ///
    /// An empty `buf` gets `Ok(0)`, a closed file `FileClosed`, and
    /// neither changes anything. A read that the resident chunk serves
    /// by itself makes no request and succeeds: see [`served`]. Any
    /// other read succeeds unless a refill fails; the failure is then the
    /// result as it came, [`read_failed`] says where it may come from,
    /// the file stands where the bytes copied so far end, and their count
    /// is lost. On success the result is the number of bytes read, and
    /// [`read_went`] holds of the states before and after, and
    /// [`refill_chain`] says which chunks were asked for and which is
    /// resident in the end. Each byte handed out is one the transport
    /// answered for its offset, and the buffer past the bytes copied is
    /// as it was.
    ///
    /// A refill leaves the offset resident or the end seen, so that no
    /// two refills follow each other without a byte copied between them;
    /// the bound on refills in a row guards the loop all the same.
    fn read(&mut self, buf: &mut [u8]) -> (r: Result<usize, FsError>)
        ensures
            final(buf)@.len() == old(buf)@.len(),
            final(self).model_transport() == old(self).model_transport(),
            final(self).model_cache() == old(self).model_cache(),
            old(buf)@.len() == 0 ==> r == Ok::<usize, FsError>(0) && final(self)@ == old(self)@,
            old(buf)@.len() > 0 && old(self)@.closed ==> r == Err::<usize, FsError>(
                FsError::FileClosed,
            ) && final(self)@ == old(self)@,
            old(buf)@.len() > 0 && !old(self)@.closed && old(self)@.eof && !old(self)@.resident(
                old(self)@.offset,
            ) ==> r == Ok::<usize, FsError>(0) && final(self)@ == old(self)@,
            served(old(self)@, old(buf)@.len()) ==> r == Ok::<usize, FsError>(
                quota(old(self)@, old(buf)@.len()) as usize,
            ),
            r matches Err(err) ==> {
                &&& old(buf)@.len() > 0
                &&& read_failed(old(self).model_transport(), old(self)@, err)
                &&& final(self)@.url == old(self)@.url
                &&& final(self)@.config == old(self)@.config
                &&& final(self)@.closed == old(self)@.closed
                &&& final(self)@.offset >= old(self)@.offset
                &&& final(self)@.offset - old(self)@.offset <= old(buf)@.len()
                &&& final(self)@.last_read_end == old(self)@.last_read_end
                &&& forall|i: int|
                    0 <= i < final(self)@.offset - old(self)@.offset ==> vouched_byte(
                        final(self).model_transport(),
                        final(self)@.url,
                        final(self)@.config,
                        (old(self)@.offset + i) as u64,
                        #[trigger] final(buf)@[i],
                    )
                &&& forall|i: int|
                    final(self)@.offset - old(self)@.offset <= i < old(buf)@.len() ==> final(buf)@[i]
                        == old(buf)@[i]
            },
            r matches Ok(n) ==> {
                &&& read_went(old(self)@, final(self)@, n, old(buf)@.len())
                &&& slot_settled(old(self).model_transport(), old(self)@, final(self)@, n)
                &&& exists|starts: Seq<u64>, chunks: Seq<Seq<u8>>| #[trigger]
                    refill_chain(
                        old(self).model_transport(),
                        old(self)@,
                        final(self)@,
                        starts,
                        chunks,
                    )
                &&& forall|i: int|
                    0 <= i < n ==> vouched_byte(
                        final(self).model_transport(),
                        final(self)@.url,
                        final(self)@.config,
                        (old(self)@.offset + i) as u64,
                        #[trigger] final(buf)@[i],
                    )
                &&& forall|i: int| n <= i < old(buf)@.len() ==> final(buf)@[i] == old(buf)@[i]
            },
    {
        let len: usize = buf.len();
        proof {
            lemma_chain_begins(self.model_transport(), self@);
        }
        if len == 0 {
            return Ok(0);
        }
        if self.closed {
            return Err(FsError::FileClosed);
        }
        let start_offset: u64 = self.file_offset;
        let mut total: usize = 0;
        let mut attempts: usize = 0;
        let ghost mut starts: Seq<u64> = Seq::empty();
        let ghost mut chunks: Seq<Seq<u8>> = Seq::empty();
        while total < len
            invariant_except_break
                attempts > 0 ==> self@.resident(self@.offset),
                served(old(self)@, len as nat) && total > 0 ==> total == len,
            invariant
                served(old(self)@, len as nat) ==> total == 0 || total == quota(
                    old(self)@,
                    len as nat,
                ),
                served(old(self)@, len as nat) ==> attempts == 0,
                refill_chain(self.model_transport(), old(self)@, self@, starts, chunks),
                self@.worker ==> old(self)@.worker,
                self.wf(),
                self.model_transport() == old(self).model_transport(),
                self.model_cache() == old(self).model_cache(),
                self@.url == old(self)@.url,
                self@.config == old(self)@.config,
                !self@.closed,
                !old(self)@.closed,
                self@.last_read_end == old(self)@.last_read_end,
                old(self)@.size is Some ==> self@.size == old(self)@.size,
                total <= len == buf@.len() == old(buf)@.len(),
                self@.offset == start_offset + total,
                start_offset == old(self)@.offset,
                attempts <= 3,
                total == 0 && attempts == 0 ==> self@ == old(self)@,
                old(self)@.eof && !old(self)@.resident(old(self)@.offset) ==> total == 0 && attempts
                    == 0,
                self@.prefetch == old(self)@.prefetch || self@.prefetch is None,
                forall|i: int|
                    0 <= i < total ==> vouched_byte(
                        self.model_transport(),
                        self@.url,
                        self@.config,
                        (start_offset + i) as u64,
                        #[trigger] buf@[i],
                    ),
                forall|i: int| total <= i < len ==> buf@[i] == old(buf)@[i],
            ensures
                total == len || (self@.eof && !self@.resident(self@.offset)),
            decreases len - total, 4 - attempts,
        {
            if !self.buffer.contains(self.file_offset) {
                if self.eof_reached {
                    break ;
                }
                let ghost at = self@;
                match self.refill_buffer() {
                    Ok(()) => {
                        proof {
                            let t = self.model_transport();
                            assert(refilled(t, at, self@));
                            let (data, consumed) = choose|data: Seq<u8>, consumed: bool|
                                {
                                    &&& #[trigger] t.serves_range(
                                        at.url,
                                        at.offset,
                                        at.range_end(),
                                        data,
                                    )
                                    &&& !at.overruns(data)
                                    &&& consumed ==> at.prefetch == Some(
                                        (at.offset, at.range_end()),
                                    )
                                    &&& self@ == #[trigger] refill_base(
                                        at,
                                        self@.size,
                                        consumed,
                                    ).after_answer(data)
                                };
                            lemma_answer_taken_in(at, self@, data, consumed);
                            lemma_chain_grows(
                                t,
                                old(self)@,
                                at,
                                self@,
                                starts,
                                chunks,
                                data,
                                consumed,
                            );
                            starts = starts.push(at.offset);
                            chunks = chunks.push(data);
                        }
                    },
                    Err(e) => {
                        proof {
                            lemma_refill_failure_in_read(
                                self.model_transport(),
                                old(self)@,
                                at,
                                self@,
                                e,
                            );
                        }
                        return Err(e);
                    },
                }
                attempts = attempts + 1;
                if self.eof_reached && !self.buffer.contains(self.file_offset) {
                    break ;
                }
                if attempts > Self::MAX_REFILL_ATTEMPTS {
                    return Err(
                        FsError::Protocol("Too many refill attempts without progress".to_string()),
                    );
                }
                continue ;
            }
            attempts = 0;
            let ghost before = buf@;
            let ghost at_offset = self.file_offset;
            let n: usize = self.buffer.read_at(buf, total, self.file_offset);
            proof {
                let t = self.model_transport();
                let chunk = self@.buffer;
                let chunk_start = self@.buffer_start;
                assert(t.serves_range(
                    self@.url,
                    chunk_start,
                    self@.config.spec_range_end(chunk_start),
                    chunk,
                ));
                assert forall|i: int| 0 <= i < total + n implies vouched_byte(
                    t,
                    self@.url,
                    self@.config,
                    (start_offset + i) as u64,
                    #[trigger] buf@[i],
                ) by {
                    if i < total {
                        assert(buf@[i] == before[i]);
                    } else {
                        let j = i - total;
                        assert(buf@.subrange(total as int, total + n)[j] == chunk.subrange(
                            at_offset - chunk_start,
                            at_offset - chunk_start + n,
                        )[j]);
                        assert(buf@[i] == chunk[at_offset - chunk_start + j]);
                        assert(chunk_start <= start_offset + i < chunk_start + chunk.len());
                    }
                }
            }
            let ghost at = self@;
            total = total + n;
            self.file_offset = self.file_offset + n as u64;
            proof {
                lemma_chain_moves(self.model_transport(), old(self)@, at, self@, starts, chunks);
            }
            if self.eof_reached && !self.buffer.contains(self.file_offset) {
                break ;
            }
        }
        let ghost copied = self@;
        if total > 0 {
            let sequential: bool = match self.last_read_end {
                Some(prev_end) => start_offset == prev_end,
                None => true,
            };
            self.last_read_end = Some(self.file_offset);
            if sequential {
                self.maybe_prefetch_next();
            } else {
                self.prefetch = None;
            }
        }
        proof {
            lemma_chain_moves(self.model_transport(), old(self)@, copied, self@, starts, chunks);
        }
        Ok(total)
    }

    /// Fails on a closed file and changes nothing; else the state is that
    /// of [`FileState::after_seek`]. No request is made.
    fn seek(&mut self, pos: u64) -> (r: Result<(), FsError>)
        ensures
            final(self).model_transport() == old(self).model_transport(),
            final(self).model_cache() == old(self).model_cache(),
            old(self)@.closed ==> r == Err::<(), FsError>(FsError::FileClosed) && final(self)@ == old(self)@,
            !old(self)@.closed ==> r is Ok && final(self)@ == old(self)@.after_seek(pos),
    {
        if self.closed {
            return Err(FsError::FileClosed);
        }
        if pos < self.file_offset || !self.buffer.contains(pos) {
            self.buffer.clear();
        }
        self.file_offset = pos;
        self.eof_reached = false;
        self.prefetch = None;
        self.last_read_end = None;
        assert(self@ =~= old(self)@.after_seek(pos));
        Ok(())
    }

    fn tell(&self) -> (r: u64)
        ensures
            r == self@.offset,
    {
        self.file_offset
    }

    fn eof(&self) -> (r: bool)
        ensures
            r == self@.eof,
    {
        self.eof_reached
    }

    /// `None` on a closed file. Else the size as the first probe reported
    /// it, made now if none was made before, and remembered. A probe
    /// that fails, after the retries that the configuration allows,
    /// counts as one that learned no size.
    fn size(&mut self) -> (r: Option<u64>)
        ensures
            final(self).model_transport() == old(self).model_transport(),
            final(self).model_cache() == old(self).model_cache(),
            old(self)@.closed ==> r is None && final(self)@ == old(self)@,
            !old(self)@.closed ==> final(self)@ == (FileState { size: Some(r), ..old(self)@ }),
            !old(self)@.closed ==> (old(self)@.size matches Some(known) ==> r == known),
            !old(self)@.closed && old(self)@.size is None ==> size_probed(
                old(self).model_transport(),
                old(self)@,
                r,
            ),
            !old(self)@.closed && r is None ==> length_unknown(
                old(self).model_transport(),
                old(self)@.url,
            ),
            r matches Some(n) ==> final(self).model_transport().serves_length(final(self)@.url, Some(n)),
    {
        if self.closed {
            return None;
        }
        self.probe_size()
    }

    /// The state is that of [`FileState::after_close`].
    fn close(&mut self)
        ensures
            final(self).model_transport() == old(self).model_transport(),
            final(self).model_cache() == old(self).model_cache(),
            final(self)@ == old(self)@.after_close(),
    {
        if !self.closed {
            self.buffer.clear();
            self.prefetch = None;
            self.closed = true;
        }
    }
}

/// Whether the transport `t` vouches for the byte `b` at offset `pos` of
/// `url`: some chunk that it answered covers `pos` and holds `b` there.
pub open spec fn vouched_byte<T: BlockingHttp>(
    t: T,
    url: Seq<char>,
    config: HttpConfig,
    pos: u64,
    b: u8,
) -> bool {
    exists|start: u64, data: Seq<u8>|
        {
            &&& #[trigger] t.serves_range(url, start, config.spec_range_end(start), data)
            &&& start <= pos < start + data.len()
            &&& data[pos - start] == b
        }
}

/// The bytes that a read of the file `pre` into `room` bytes can copy
/// without a request: what is resident from the offset on, as far as
/// there is room.
pub open spec fn quota(pre: FileState, room: nat) -> nat {
    let resident = (pre.buffer_end() - pre.offset) as nat;
    if room <= resident {
        room
    } else {
        resident
    }
}

/// Whether the resident chunk serves a read of the file `pre` into
/// `room` bytes by itself: the file is open, the offset is resident,
/// and the chunk holds as many bytes as there is room for, or the end
/// was seen with it. Such a read makes no request.
pub open spec fn served(pre: FileState, room: nat) -> bool {
    &&& !pre.closed
    &&& pre.resident(pre.offset)
    &&& room <= pre.buffer_end() - pre.offset || pre.eof
}

/// Whether a read of the file `pre` may fail with `err`. A closed file
/// fails as closed. An open file fails as the transport fails on the
/// request for a chunk at or after the offset; or as a prefetch fails
/// that had a worker and left no outcome; or with a protocol failure,
/// where the transport answers such a request with a payload that would
/// end past the largest offset.
pub open spec fn read_failed<T: BlockingHttp>(t: T, pre: FileState, err: FsError) -> bool {
    if pre.closed {
        err == FsError::FileClosed
    } else {
        ||| exists|start: u64|
            pre.offset <= start && #[trigger] t.range_may_fail(
                pre.url,
                start,
                pre.config.spec_range_end(start),
                err,
            )
        ||| is_canceled(err) && pre.worker
        ||| err is Protocol && exists|start: u64, data: Seq<u8>|
            {
                &&& pre.offset <= start
                &&& #[trigger] t.serves_range(pre.url, start, pre.config.spec_range_end(start), data)
                &&& start + data.len() > u64::MAX
            }
    }
}

/// A refill that fails in the course of a read fails as [`read_failed`]
/// says: the refill is made at an offset that is not resident, where a
/// chunk of any length reaches past the one before.
pub proof fn lemma_refill_failure_in_read<T: BlockingHttp>(
    t: T,
    pre: FileState,
    at: FileState,
    post: FileState,
    err: FsError,
)
    requires
        !pre.closed,
        at.url == pre.url,
        at.config == pre.config,
        pre.offset <= at.offset,
        at.worker ==> pre.worker,
        at.vouched_by(t),
        !at.resident(at.offset),
        refill_failed(t, at, post, err),
    ensures
        read_failed(t, pre, err),
{
    if t.range_may_fail(at.url, at.offset, at.range_end(), err) {
        assert(t.range_may_fail(pre.url, at.offset, pre.config.spec_range_end(at.offset), err));
    } else if is_canceled(err) && at.worker {
    } else {
        let (data, consumed) = choose|data: Seq<u8>, consumed: bool|
            {
                &&& #[trigger] t.serves_range(at.url, at.offset, at.range_end(), data)
                &&& data.len() > 0
                &&& at.overruns(data) || at.stalls(data)
                &&& post == #[trigger] refill_base(at, post.size, consumed).after_answer(data)
            };
        assert(!at.stalls(data));
        assert(t.serves_range(pre.url, at.offset, pre.config.spec_range_end(at.offset), data));
    }
}

/// The offset at which a read of the file `pre` makes its first
/// request, if it makes one: the end of the resident chunk where the
/// offset is resident, else the offset.
pub open spec fn first_miss(pre: FileState) -> u64 {
    if pre.resident(pre.offset) {
        pre.buffer_end()
    } else {
        pre.offset
    }
}

/// Whether the refills of a read took the file from `pre` to `post`
/// through the chunks `chunks`, which start at `starts`.
///
/// Each chunk is an answer of the transport to the request of its start.
/// The first starts where the read first misses, each later one where
/// the chunk before it ends, and none past the offset the read reached:
/// a chunk is asked for only when the bytes before it are copied. A read
/// without a refill has copied from the resident chunk and left it.
/// After a refill, the last chunk is resident, and the end is seen as
/// [`ends_resource`] says of it; a last chunk without bytes is the end,
/// with nothing resident.
#[verifier::opaque]
pub open spec fn refill_chain<T: BlockingHttp>(
    t: T,
    pre: FileState,
    post: FileState,
    starts: Seq<u64>,
    chunks: Seq<Seq<u8>>,
) -> bool {
    &&& chain_links(t, pre, starts, chunks)
    &&& chain_reached(pre, post, starts)
    &&& chain_ends(pre, post, starts, chunks)
}

/// Whether chunk number `k` of a chain is in order: it is an answer of
/// the transport to the request of its start, it ends at an offset that
/// exists, and, unless it is the first, it starts where the chunk
/// before it ends, which has bytes.
pub open spec fn chain_link<T: BlockingHttp>(
    t: T,
    pre: FileState,
    starts: Seq<u64>,
    chunks: Seq<Seq<u8>>,
    k: int,
) -> bool {
    &&& t.serves_range(pre.url, starts[k], pre.config.spec_range_end(starts[k]), chunks[k])
    &&& starts[k] + chunks[k].len() <= u64::MAX
    &&& k >= 1 ==> chunks[k - 1].len() > 0 && starts[k] == starts[k - 1] + chunks[k - 1].len()
}

/// The chunks of a chain, each with its start, are in order, as
/// [`chain_link`] says of each.
pub open spec fn chain_links<T: BlockingHttp>(
    t: T,
    pre: FileState,
    starts: Seq<u64>,
    chunks: Seq<Seq<u8>>,
) -> bool {
    &&& starts.len() == chunks.len()
    &&& forall|k: int| 0 <= k < starts.len() ==> #[trigger] chain_link(t, pre, starts, chunks, k)
}

/// No chunk of a chain starts past the offset that the read reached.
pub open spec fn chain_reached(pre: FileState, post: FileState, starts: Seq<u64>) -> bool {
    &&& pre.offset <= post.offset
    &&& forall|k: int| 0 <= k < starts.len() ==> (#[trigger] starts[k]) <= post.offset
}

/// What a chain leaves resident, and whether it has seen the end.
pub open spec fn chain_ends(
    pre: FileState,
    post: FileState,
    starts: Seq<u64>,
    chunks: Seq<Seq<u8>>,
) -> bool {
    if starts.len() == 0 {
        &&& post.buffer_start == pre.buffer_start
        &&& post.buffer == pre.buffer
        &&& post.eof == pre.eof
        &&& post.offset > pre.offset ==> pre.resident(pre.offset) && post.offset <= pre.buffer_end()
    } else {
        let last = starts.len() - 1;
        let before_end = if last == 0 {
            pre.buffer_end()
        } else {
            starts[last]
        };
        &&& starts.len() == chunks.len()
        &&& starts[0] == first_miss(pre)
        &&& post.size is Some
        &&& post.offset <= starts[last] + chunks[last].len() <= u64::MAX
        &&& if chunks[last].len() == 0 {
            post.buffer.len() == 0 && post.eof
        } else {
            &&& post.buffer_start == starts[last]
            &&& post.buffer == chunks[last]
            &&& post.eof == ends_resource(
                post.size.unwrap(),
                starts[last],
                chunks[last].len(),
                pre.config.spec_range_end(starts[last]) - starts[last] + 1,
                before_end,
            )
        }
    }
}

/// A read begins with no refill made.
pub proof fn lemma_chain_begins<T: BlockingHttp>(t: T, pre: FileState)
    ensures
        refill_chain(t, pre, pre, Seq::empty(), Seq::empty()),
{
    reveal(refill_chain);
}

/// The chain of a read stays as it is while the read copies from the
/// resident chunk, and when it notes where it ended.
pub proof fn lemma_chain_moves<T: BlockingHttp>(
    t: T,
    pre: FileState,
    at: FileState,
    post: FileState,
    starts: Seq<u64>,
    chunks: Seq<Seq<u8>>,
)
    requires
        refill_chain(t, pre, at, starts, chunks),
        post.buffer_start == at.buffer_start,
        post.buffer == at.buffer,
        post.eof == at.eof,
        post.size == at.size,
        at.offset <= post.offset,
        post.offset > at.offset ==> at.resident(at.offset) && post.offset <= at.buffer_end(),
    ensures
        refill_chain(t, pre, post, starts, chunks),
{
    reveal(refill_chain);
    assert(chain_reached(pre, post, starts)) by {
        assert forall|k: int| 0 <= k < starts.len() implies (#[trigger] starts[k])
            <= post.offset by {
            assert(starts[k] <= at.offset);
        }
    }
    assert(chain_ends(pre, post, starts, chunks));
}

/// Whether the file `post` is the file `at` with `data` taken in as the
/// answer to a refill, as far as the offset, the resident chunk and the
/// end go.
pub open spec fn answer_taken_in(at: FileState, post: FileState, data: Seq<u8>) -> bool {
    &&& post.offset == at.offset
    &&& post.size is Some
    &&& at.offset + data.len() <= u64::MAX
    &&& if data.len() == 0 {
        post.buffer.len() == 0 && post.eof
    } else {
        &&& post.buffer_start == at.offset
        &&& post.buffer == data
        &&& post.eof == ends_resource(
            post.size.unwrap(),
            at.offset,
            data.len(),
            at.config.spec_range_end(at.offset) - at.offset + 1,
            at.buffer_end(),
        )
    }
}

/// A file that took in the answer to a refill holds it as
/// [`answer_taken_in`] says.
pub proof fn lemma_answer_taken_in(
    at: FileState,
    post: FileState,
    data: Seq<u8>,
    consumed: bool,
)
    requires
        !at.eof,
        !at.overruns(data),
        post.size is Some,
        post == refill_base(at, post.size, consumed).after_answer(data),
    ensures
        answer_taken_in(at, post, data),
{
}

/// A refill that succeeds adds its chunk to the chain of a read.
pub proof fn lemma_chain_grows<T: BlockingHttp>(
    t: T,
    pre: FileState,
    at: FileState,
    post: FileState,
    starts: Seq<u64>,
    chunks: Seq<Seq<u8>>,
    data: Seq<u8>,
    consumed: bool,
)
    requires
        refill_chain(t, pre, at, starts, chunks),
        at.url == pre.url,
        at.config == pre.config,
        at.buffer.len() > 0 ==> at.buffer_start <= at.offset <= at.buffer_start + at.buffer.len()
            <= u64::MAX,
        !at.eof,
        !at.resident(at.offset),
        t.serves_range(at.url, at.offset, at.range_end(), data),
        answer_taken_in(at, post, data),
    ensures
        refill_chain(t, pre, post, starts.push(at.offset), chunks.push(data)),
{
    reveal(refill_chain);
    let starts2 = starts.push(at.offset);
    let chunks2 = chunks.push(data);
    let n = starts.len() as int;
    // Where a chunk went before, it is used up: the refill is at its end.
    assert(n > 0 ==> chunks[n - 1].len() > 0 && at.offset == starts[n - 1] + chunks[n - 1].len())
        by {
        if n > 0 {
            assert(chain_ends(pre, at, starts, chunks));
            assert(starts[n - 1] <= at.offset);
        }
    }
    assert(chain_links(t, pre, starts2, chunks2)) by {
        assert forall|k: int| 0 <= k < starts2.len() implies #[trigger] chain_link(
            t,
            pre,
            starts2,
            chunks2,
            k,
        ) by {
            if k < n {
                assert(chain_link(t, pre, starts, chunks, k));
            }
        }
    }
    assert(chain_reached(pre, post, starts2)) by {
        assert forall|k: int| 0 <= k < starts2.len() implies (#[trigger] starts2[k])
            <= post.offset by {
            if k < n {
                assert(starts[k] <= at.offset);
            }
        }
    }
    assert(starts2[n] == at.offset && chunks2[n] == data);
    assert(chain_ends(pre, at, starts, chunks));
    if n == 0 {
        assert(starts2[0] == first_miss(pre));
        assert(at.buffer_end() == pre.buffer_end());
    } else {
        assert(starts2[0] == starts[0]);
        assert(at.buffer_end() == at.offset);
    }
    assert(chain_ends(pre, post, starts2, chunks2));
}

/// Whether a read that started where the last one ended, or is the first.
pub open spec fn sequential(pre: FileState) -> bool {
    match pre.last_read_end {
        Some(prev_end) => pre.offset == prev_end,
        None => true,
    }
}

/// Whether the prefetch slot after a read of `n` bytes is as the rule
/// of scheduling has it: after a read that returned bytes and began
/// where the last one ended, the slot targets the chunk that is due,
/// unless the cache held that chunk, which only a cache that is enabled
/// can, and only where the transport has an answer with bytes for it.
pub open spec fn slot_settled<T: BlockingHttp>(t: T, pre: FileState, post: FileState, n: usize) -> bool {
    n > 0 && sequential(pre) ==> (post.next_chunk_due() matches Some(goal) ==> {
        ||| post.prefetch == Some(goal)
        ||| pre.config.caches() && cacheable(t, pre.url, goal)
    })
}

/// What holds of the states before and after a read that returned `n`
/// bytes into `room` bytes of room. The file has moved on by `n`. A read
/// that stopped short of its room has seen the end. A read that did not
/// start where the last one ended leaves the prefetch slot empty; one
/// that did leaves it at the chunk that is due, where the cache is
/// disabled, and at that chunk or as it was, where a cache may hold it.
pub open spec fn read_went(pre: FileState, post: FileState, n: usize, room: nat) -> bool {
    &&& n <= room
    &&& post.offset == pre.offset + n
    &&& post.url == pre.url
    &&& post.config == pre.config
    &&& post.closed == pre.closed
    &&& pre.size is Some ==> post.size == pre.size
    &&& post.last_read_end == if n > 0 {
        Some(post.offset)
    } else {
        pre.last_read_end
    }
    &&& n < room ==> post.eof && !post.resident(post.offset)
    &&& post.eof ==> post.prefetch is None
    &&& post.worker ==> pre.worker
    &&& n > 0 && !sequential(pre) ==> post.prefetch is None
    &&& n > 0 && sequential(pre) && !pre.config.caches() && post.next_chunk_due() is Some
        ==> post.prefetch == post.next_chunk_due()
    &&& post.prefetch matches Some(goal) ==> pre.prefetch == Some(goal) || post.next_chunk_due()
        == Some(goal)
}

impl<T: BlockingHttp> HttpFile<T> {
    /// The range the prefetch slot targets.
    pub fn prefetch_target(&self) -> (r: Option<(u64, u64)>)
        ensures
            r == self@.prefetch,
    {
        match &self.prefetch {
            Some(p) => Some((p.range_start, p.range_end)),
            None => None,
        }
    }

    /// The order for the background fetch that the prefetch slot waits
    /// for, where the slot is set and no worker was started for it: the
    /// range of the slot, of this file's URL, from this file's transport,
    /// retried as this file's configuration allows.
    pub fn prefetch_ticket(&self) -> (r: Option<PrefetchTicket<T>>)
        requires
            self.wf(),
        ensures
            r is Some <==> self@.prefetch is Some && !self@.worker,
            r matches Some(ticket) ==> {
                &&& self@.prefetch == Some((ticket.spec_start(), ticket.spec_end()))
                &&& ticket.spec_url() == self@.url
                &&& ticket.spec_transport() == self.model_transport()
                &&& ticket.spec_config() == self@.config
            },
    {
        match &self.prefetch {
            Some(p) => {
                if p.rx.is_none() {
                    Some(
                        PrefetchTicket::new(
                            share_transport(&self.transport),
                            self.url.clone(),
                            p.range_start,
                            p.range_end,
                            self.config,
                        ),
                    )
                } else {
                    None
                }
            },
            None => None,
        }
    }

    /// Hands the slot the channel on which the outcome of its background
    /// fetch will arrive. The channel is taken where the slot targets
    /// this range and has no worker yet, and dropped otherwise.
    pub fn attach_prefetch(&mut self, range_start: u64, range_end: u64, rx: Receiver<Fetched<T>>) -> (r:
        bool)
        requires
            old(self).wf(),
        ensures
            final(self).wf(),
            final(self).model_transport() == old(self).model_transport(),
            final(self).model_cache() == old(self).model_cache(),
            r == (old(self)@.prefetch == Some((range_start, range_end)) && !old(self)@.worker),
            final(self)@ == if r {
                FileState { worker: true, ..old(self)@ }
            } else {
                old(self)@
            },
    {
        match self.prefetch.take() {
            None => false,
            Some(p) => {
                if p.range_start == range_start && p.range_end == range_end && p.rx.is_none() {
                    self.prefetch = Some(
                        PrefetchState { range_start, range_end, rx: Some(rx) },
                    );
                    true
                } else {
                    self.prefetch = Some(p);
                    false
                }
            },
        }
    }

    /// Takes the outcome of the background fetch where the slot targets
    /// exactly this range, emptying the slot, and waits for the worker if
    /// need be. A worker that is gone without an outcome counts as a
    /// network failure; any other failure is one that the transport may
    /// give for this range. A slot for another range stays; a slot
    /// without a worker is emptied and yields nothing.
    pub fn take_prefetch_if_match(&mut self, range_start: u64, range_end: u64) -> (r: Option<
        Result<HttpResponse, FsError>,
    >)
        requires
            old(self).wf(),
        ensures
            final(self).wf(),
            final(self).model_transport() == old(self).model_transport(),
            final(self).model_cache() == old(self).model_cache(),
            final(self)@ == if old(self)@.prefetch == Some((range_start, range_end)) {
                old(self)@.unslotted()
            } else {
                old(self)@
            },
            r is Some <==> old(self)@.prefetch == Some((range_start, range_end)) && old(self)@.worker,
            r matches Some(Ok(response)) ==> old(self).model_transport().serves_range(
                old(self)@.url,
                range_start,
                range_end,
                response.data@,
            ),
            r matches Some(Err(err)) ==> is_canceled(err) || old(self).model_transport().range_may_fail(
                old(self)@.url,
                range_start,
                range_end,
                err,
            ),
    {
        match self.prefetch.take() {
            None => None,
            Some(p) => {
                if p.range_start == range_start && p.range_end == range_end {
                    match p.rx {
                        None => None,
                        Some(rx) => {
                            match receive(rx) {
                                None => Some(Err(canceled())),
                                Some(fetched) => {
                                    match fetched.claim(
                                        &self.transport,
                                        &self.url,
                                        range_start,
                                        range_end,
                                    ) {
                                        Some(result) => Some(result),
                                        None => Some(Err(canceled())),
                                    }
                                },
                            }
                        },
                    }
                } else {
                    self.prefetch = Some(p);
                    None
                }
            },
        }
    }

    /// Whether a chunk of `actual` bytes at the current offset ends the resource.
    fn reaches_end(&self, actual: u64, range_end: u64) -> (r: bool)
        requires
            self@.size is Some,
            self.parts_wf(),
            actual > 0,
            self@.offset + actual <= u64::MAX,
            range_end == self@.range_end(),
        ensures
            r == ends_resource(
                self@.size.unwrap(),
                self@.offset,
                actual as nat,
                self@.expected_size(),
                self@.buffer_end(),
            ),
    {
        let old_buffer_end: u64 = self.buffer.end();
        let span: u64 = range_end - self.file_offset;
        match self.cached_size {
            Some(Some(size)) => self.file_offset + actual >= size,
            Some(None) => actual <= span && old_buffer_end > 0,
            None => false,
        }
    }

    /// Makes a payload found in the cache the resident chunk at the current offset.
    fn install_cached(&mut self, data: Payload, range_end: u64)
        requires
            old(self).wf(),
            !old(self)@.closed,
            !old(self)@.eof,
            old(self)@.size is Some,
            range_end == old(self)@.range_end(),
            vouched_payload(
                old(self).model_transport(),
                (old(self)@.url, old(self)@.offset, range_end),
                data@,
            ),
        ensures
            final(self).wf(),
            final(self).model_transport() == old(self).model_transport(),
            final(self).model_cache() == old(self).model_cache(),
            final(self)@ == old(self)@.with_chunk(data@),
    {
        let actual: u64 = data.len() as u64;
        let reached: bool = self.reaches_end(actual, range_end);
        if reached {
            self.eof_reached = true;
            self.prefetch = None;
        }
        let range_start: u64 = self.file_offset;
        self.buffer.set_data(data, range_start, range_start + actual);
    }

    /// Takes in the payload that the transport answered the refill at the
    /// current offset with. No bytes: the end is reached and nothing is
    /// resident. A payload that would end past the largest offset is
    /// refused and changes nothing. Any other becomes the resident chunk
    /// and enters the cache under the range requested; it is then refused,
    /// where a chunk was resident before and this one does not reach
    /// past its end.
    pub fn install_chunk(&mut self, data: Vec<u8>) -> (r: Result<(), FsError>)
        requires
            old(self).wf(),
            !old(self)@.closed,
            !old(self)@.eof,
            old(self)@.size is Some,
            old(self).model_transport().serves_range(
                old(self)@.url,
                old(self)@.offset,
                old(self)@.range_end(),
                data@,
            ),
        ensures
            final(self).wf(),
            final(self).model_transport() == old(self).model_transport(),
            final(self).model_cache() == old(self).model_cache(),
            final(self)@ == old(self)@.after_answer(data@),
            r is Err <==> data@.len() > 0 && (old(self)@.overruns(data@) || old(self)@.stalls(data@)),
            r matches Err(e) ==> e is Protocol,
    {
        let range_start: u64 = self.file_offset;
        let range_end: u64 = self.config.range_end(range_start);
        if data.len() == 0 {
            assert(data@ =~= Seq::<u8>::empty());
            self.eof_reached = true;
            self.prefetch = None;
            self.buffer.clear();
            return Ok(());
        }
        let actual: u64 = data.len() as u64;
        if actual > u64::MAX - range_start {
            return Err(FsError::Protocol("Response reaches past the largest offset".to_string()));
        }
        let old_buffer_end: u64 = self.buffer.end();
        let reached: bool = self.reaches_end(actual, range_end);
        if reached {
            self.eof_reached = true;
            self.prefetch = None;
        }
        let payload: Payload = Arc::new(data);
        self.store_cache(range_start, range_end, share_payload(&payload));
        self.buffer.set_data(payload, range_start, range_start + actual);
        if self.buffer.end() <= old_buffer_end && old_buffer_end > 0 {
            return Err(FsError::Protocol("Buffer refill did not advance".to_string()));
        }
        Ok(())
    }

    /// Loads the chunk at the current offset: from the cache, else from
    /// the prefetch slot where it targets this chunk, else from the
    /// retrying transport. Probes the size first, if that was never done.
    ///
    /// A slot that targets the chunk is consumed, and so is empty after
    /// the refill, unless the cache held the chunk: only a cache that is
    /// enabled can, and only an answer of the transport with bytes.
    ///
    /// On success [`refilled`] holds: the end is reached with nothing
    /// resident, or a chunk that starts at the offset is resident. On
    /// failure [`refill_failed`] says where the error came from: a
    /// failure of the transport or the prefetch is the result as it came,
    /// with nothing but the size and the slot changed.
    pub fn refill_buffer(&mut self) -> (r: Result<(), FsError>)
        requires
            old(self).wf(),
            !old(self)@.closed,
            !old(self)@.eof,
        ensures
            final(self).wf(),
            final(self).model_transport() == old(self).model_transport(),
            final(self).model_cache() == old(self).model_cache(),
            final(self)@.url == old(self)@.url,
            final(self)@.config == old(self)@.config,
            final(self)@.offset == old(self)@.offset,
            final(self)@.closed == old(self)@.closed,
            final(self)@.last_read_end == old(self)@.last_read_end,
            final(self)@.size is Some,
            old(self)@.size is Some ==> final(self)@.size == old(self)@.size,
            final(self)@.prefetch == old(self)@.prefetch || final(self)@.prefetch is None,
            final(self)@.prefetch == old(self)@.prefetch || final(self)@.eof || old(self)@.prefetch
                == Some((old(self)@.offset, old(self)@.range_end())),
            final(self)@.worker ==> old(self)@.worker,
            old(self)@.prefetch == Some((old(self)@.offset, old(self)@.range_end()))
                && final(self)@.prefetch is Some ==> r is Ok && old(self)@.config.caches()
                && cacheable(
                old(self).model_transport(),
                old(self)@.url,
                (old(self)@.offset, old(self)@.range_end()),
            ),
            r is Ok ==> refilled(old(self).model_transport(), old(self)@, final(self)@),
            r matches Err(err) ==> refill_failed(
                old(self).model_transport(),
                old(self)@,
                final(self)@,
                err,
            ),
            r is Ok ==> {
                ||| final(self)@.eof && final(self)@.buffer.len() == 0
                ||| final(self)@.buffer_start == old(self)@.offset && final(self)@.buffer.len() > 0
            },
            r is Err ==> {
                ||| !final(self)@.eof && final(self)@.buffer_start == old(self)@.buffer_start
                    && final(self)@.buffer == old(self)@.buffer
                ||| final(self)@.buffer_start == old(self)@.offset && final(self)@.buffer.len() > 0
                    && old(self)@.stalls(final(self)@.buffer)
            },
    {
        let ghost pre = self@;
        let ghost t = self.model_transport();
        let range_start: u64 = self.file_offset;
        let range_end: u64 = self.config.range_end(range_start);
        let _ = self.probe_size();
        let ghost probed = self@;
        match self.try_cache_lookup(range_start, range_end) {
            Some(data) => {
                let ghost bytes = data@;
                self.install_cached(data, range_end);
                proof {
                    assert(probed =~= refill_base(pre, self@.size, false));
                    assert(self@ =~= refill_base(pre, self@.size, false).after_answer(bytes));
                    assert(t.serves_range(pre.url, pre.offset, pre.range_end(), bytes));
                }
                return Ok(());
            },
            None => {},
        }
        let ghost consumed = pre.prefetch == Some((range_start, range_end));
        let response: HttpResponse = match self.take_prefetch_if_match(range_start, range_end) {
            Some(result) => match result {
                Ok(response) => response,
                Err(e) => {
                    return Err(e);
                },
            },
            None => match self.get_range_with_retry(range_start, range_end) {
                Ok(response) => response,
                Err(e) => {
                    return Err(e);
                },
            },
        };
        let ghost taken = self@;
        let ghost bytes = response.data@;
        let r = self.install_chunk(response.data);
        proof {
            assert(taken =~= refill_base(pre, self@.size, consumed));
            assert(self@ =~= refill_base(pre, self@.size, consumed).after_answer(bytes));
            assert(t.serves_range(pre.url, pre.offset, pre.range_end(), bytes));
        }
        r
    }

    /// The range to schedule a prefetch for, if any: see [`FileState::prefetch_goal`].
    pub fn prefetch_goal(&self) -> (r: Option<(u64, u64)>)
        requires
            self.wf(),
        ensures
            r == self@.prefetch_goal(),
    {
        if !self.config.read_ahead || self.eof_reached {
            return None;
        }
        let buffer_end: u64 = self.buffer.end();
        if buffer_end <= self.file_offset {
            return None;
        }
        let remaining: u64 = buffer_end - self.file_offset;
        if remaining > self.config.read_ahead_trigger {
            return None;
        }
        let next_start: u64 = buffer_end;
        let next_end: u64 = self.config.range_end(next_start);
        match &self.prefetch {
            Some(p) => {
                if p.range_start == next_start && p.range_end == next_end {
                    return None;
                }
            },
            None => {},
        }
        Some((next_start, next_end))
    }

    /// The step after the lookup of the goal in the cache: the slot is
    /// set to `goal`, with no worker, where the cache did not hold it,
    /// and nothing changes where it did.
    pub fn schedule_after_lookup(&mut self, goal: (u64, u64), cached: bool)
        requires
            old(self).wf(),
            old(self)@.prefetch_goal() == Some(goal),
        ensures
            final(self).wf(),
            final(self).model_transport() == old(self).model_transport(),
            final(self).model_cache() == old(self).model_cache(),
            final(self)@ == if cached {
                old(self)@
            } else {
                old(self)@.scheduled(goal)
            },
    {
        if !cached {
            self.prefetch = Some(PrefetchState { range_start: goal.0, range_end: goal.1, rx: None });
        }
    }

    /// Sets the prefetch slot to the chunk after the resident one, where
    /// the time for it has come, the slot does not target it already and
    /// the cache does not hold it. The lookup counts as a use of the entry.
    ///
    /// Without a goal nothing changes. With one, the cache is asked for
    /// it, and [`HttpFile::schedule_after_lookup`] does the rest: the slot
    /// is set to the goal unless the cache held it. The cache can hold
    /// it only where it is enabled and the transport has an answer with
    /// bytes for that range; where not, the slot is set.
    pub fn maybe_prefetch_next(&mut self)
        requires
            old(self).wf(),
        ensures
            final(self).wf(),
            final(self).model_transport() == old(self).model_transport(),
            final(self).model_cache() == old(self).model_cache(),
            match old(self)@.prefetch_goal() {
                None => final(self)@ == old(self)@,
                Some(goal) => if final(self)@ == old(self)@ {
                    old(self)@.config.caches() && cacheable(
                        old(self).model_transport(),
                        old(self)@.url,
                        goal,
                    )
                } else {
                    final(self)@ == old(self)@.scheduled(goal)
                },
            },
    {
        match self.prefetch_goal() {
            None => {},
            Some(goal) => {
                let found = self.try_cache_lookup(goal.0, goal.1);
                proof {
                    if found is Some {
                        assert(vouched_payload(
                            self.model_transport(),
                            (self@.url, goal.0, goal.1),
                            found->Some_0@,
                        ));
                    }
                }
                self.schedule_after_lookup(goal, found.is_some());
            },
        }
    }
}

/// Another handle to the same payload.
fn share_payload(p: &Payload) -> (r: Payload)
    ensures
        r@ == p@,
{
    share(p)
}

} // verus!
