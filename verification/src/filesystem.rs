//! The filesystem: a transport, a configuration and the range cache that
//! its files share; and the builder that makes one.

use vstd::prelude::*;
use vstd::string::StringExecFns;
use std::sync::Arc;
use crate::config::HttpConfig;
use crate::error::{FsError, IoKind};
use crate::file::FileSystem;
use crate::sync::share;
use crate::session::{new_shared_cache, CacheRule, FileState, HttpFile, SharedCache};
use crate::text::{chars_of, same_text, starts_with};
use crate::timing::TimeSpan;
use crate::transport::{share_transport, BlockingHttp};

verus! {

/// The two ways to ask for a file that is read: `r` and `rb`.
pub open spec fn is_read_mode(mode: Seq<char>) -> bool {
    mode == seq!['r'] || mode == seq!['r', 'b']
}

/// Whether `url` names a resource this library reads: one whose scheme is `http` or `https`.
pub open spec fn is_http_url(url: Seq<char>) -> bool {
    ||| crate::text::spec_starts_with(url, seq!['h', 't', 't', 'p', ':', '/', '/'])
    ||| crate::text::spec_starts_with(url, seq!['h', 't', 't', 'p', 's', ':', '/', '/'])
}

/// Exec counterpart of [`is_read_mode`].
pub fn read_mode(mode: &str) -> (r: bool)
    ensures
        r == is_read_mode(mode@),
{
    let text = chars_of(mode);
    let plain: Vec<char> = vec!['r'];
    let binary: Vec<char> = vec!['r', 'b'];
    assert(plain@ =~= seq!['r']);
    assert(binary@ =~= seq!['r', 'b']);
    same_text(&text, &plain) || same_text(&text, &binary)
}

/// Exec counterpart of [`is_http_url`].
pub fn http_url(url: &str) -> (r: bool)
    ensures
        r == is_http_url(url@),
{
    let text = chars_of(url);
    let plain: Vec<char> = vec!['h', 't', 't', 'p', ':', '/', '/'];
    let secure: Vec<char> = vec!['h', 't', 't', 'p', 's', ':', '/', '/'];
    assert(plain@ =~= seq!['h', 't', 't', 'p', ':', '/', '/']);
    assert(secure@ =~= seq!['h', 't', 't', 'p', 's', ':', '/', '/']);
    starts_with(&text, &plain) || starts_with(&text, &secure)
}

/// A filesystem over HTTP(S).
#[verifier::reject_recursive_types(T)]
pub struct HttpFileSystem<T: BlockingHttp> {
    transport: Arc<T>,
    config: HttpConfig,
    cache: SharedCache<T>,
}

/// Collects the settings of a filesystem, then builds it.
pub struct HttpFileSystemBuilder<T: BlockingHttp> {
    config: HttpConfig,
    transport: Option<Arc<T>>,
}

impl<T: BlockingHttp> HttpFileSystemBuilder<T> {
    /// The configuration collected so far.
    pub closed spec fn spec_config(&self) -> HttpConfig {
        self.config
    }

    /// The transport chosen so far, if any.
    pub closed spec fn spec_transport(&self) -> Option<T> {
        match self.transport {
            Some(t) => Some(*t),
            None => None,
        }
    }

    /// A builder with the default configuration and no transport.
    pub fn new() -> (r: Self)
        ensures
            r.spec_config().is_default(),
            r.spec_transport() is None,
    {
        HttpFileSystemBuilder { config: HttpConfig::default(), transport: None }
    }

    /// The configuration collected so far.
    pub fn config(&self) -> (r: HttpConfig)
        ensures
            r == self.spec_config(),
    {
        self.config
    }

    /// Chooses the transport.
    pub fn transport(self, transport: Arc<T>) -> (r: Self)
        ensures
            r.spec_config() == self.spec_config(),
            r.spec_transport() == Some(*transport),
    {
        let mut b = self;
        b.transport = Some(transport);
        b
    }

    /// Sets the chunk size; zero counts as one.
    pub fn chunk_size(self, chunk_size: u64) -> (r: Self)
        ensures
            r.spec_transport() == self.spec_transport(),
            r.spec_config() == (HttpConfig {
                chunk_size: if chunk_size == 0 {
                    1
                } else {
                    chunk_size
                },
                ..self.spec_config()
            }),
    {
        let mut b = self;
        b.config.chunk_size = if chunk_size == 0 {
            1
        } else {
            chunk_size
        };
        b
    }

    /// Switches the prefetch on or off.
    pub fn read_ahead(self, enabled: bool) -> (r: Self)
        ensures
            r.spec_transport() == self.spec_transport(),
            r.spec_config() == (HttpConfig { read_ahead: enabled, ..self.spec_config() }),
    {
        let mut b = self;
        b.config.read_ahead = enabled;
        b
    }

    /// Sets the prefetch trigger; zero counts as one.
    pub fn read_ahead_trigger(self, trigger: u64) -> (r: Self)
        ensures
            r.spec_transport() == self.spec_transport(),
            r.spec_config() == (HttpConfig {
                read_ahead_trigger: if trigger == 0 {
                    1
                } else {
                    trigger
                },
                ..self.spec_config()
            }),
    {
        let mut b = self;
        b.config.read_ahead_trigger = if trigger == 0 {
            1
        } else {
            trigger
        };
        b
    }

    /// Sets the bound on cache entries.
    pub fn cache_max_entries(self, max_entries: usize) -> (r: Self)
        ensures
            r.spec_transport() == self.spec_transport(),
            r.spec_config() == (HttpConfig { cache_max_entries: max_entries, ..self.spec_config() }),
    {
        let mut b = self;
        b.config.cache_max_entries = max_entries;
        b
    }

    /// Sets the bound on cached bytes.
    pub fn cache_max_bytes(self, max_bytes: usize) -> (r: Self)
        ensures
            r.spec_transport() == self.spec_transport(),
            r.spec_config() == (HttpConfig { cache_max_bytes: max_bytes, ..self.spec_config() }),
    {
        let mut b = self;
        b.config.cache_max_bytes = max_bytes;
        b
    }

    /// Sets the number of retries allowed after the first try.
    pub fn retry_max_attempts(self, attempts: usize) -> (r: Self)
        ensures
            r.spec_transport() == self.spec_transport(),
            r.spec_config() == (HttpConfig { retry_max_attempts: attempts, ..self.spec_config() }),
    {
        let mut b = self;
        b.config.retry_max_attempts = attempts;
        b
    }

    /// Sets the delay before the first retry.
    pub fn retry_base_delay(self, delay: TimeSpan) -> (r: Self)
        ensures
            r.spec_transport() == self.spec_transport(),
            r.spec_config() == (HttpConfig { retry_base_delay: delay, ..self.spec_config() }),
    {
        let mut b = self;
        b.config.retry_base_delay = delay;
        b
    }

    /// Sets the cap on the delay before a retry.
    pub fn retry_max_delay(self, delay: TimeSpan) -> (r: Self)
        ensures
            r.spec_transport() == self.spec_transport(),
            r.spec_config() == (HttpConfig { retry_max_delay: delay, ..self.spec_config() }),
    {
        let mut b = self;
        b.config.retry_max_delay = delay;
        b
    }

    /// Sets the time allowed to connect.
    pub fn connect_timeout(self, timeout: TimeSpan) -> (r: Self)
        ensures
            r.spec_transport() == self.spec_transport(),
            r.spec_config() == (HttpConfig { connect_timeout: timeout, ..self.spec_config() }),
    {
        let mut b = self;
        b.config.connect_timeout = timeout;
        b
    }

    /// Sets the time allowed for one request.
    pub fn read_timeout(self, timeout: TimeSpan) -> (r: Self)
        ensures
            r.spec_transport() == self.spec_transport(),
            r.spec_config() == (HttpConfig { read_timeout: timeout, ..self.spec_config() }),
    {
        let mut b = self;
        b.config.read_timeout = timeout;
        b
    }

    /// Sets the time an idle connection is kept.
    pub fn idle_timeout(self, timeout: TimeSpan) -> (r: Self)
        ensures
            r.spec_transport() == self.spec_transport(),
            r.spec_config() == (HttpConfig { idle_timeout: timeout, ..self.spec_config() }),
    {
        let mut b = self;
        b.config.idle_timeout = timeout;
        b
    }

    /// Builds the filesystem: the configuration collected, an empty cache
    /// with its bounds, and the transport chosen, or `fallback` where
    /// none was.
    pub fn build(self, fallback: Arc<T>) -> (r: HttpFileSystem<T>)
        ensures
            r.wf(),
            r.spec_config() == self.spec_config(),
            r.model_transport() == match self.spec_transport() {
                Some(t) => t,
                None => *fallback,
            },
    {
        let transport: Arc<T> = match self.transport {
            Some(t) => t,
            None => fallback,
        };
        let cache = new_shared_cache(&transport, &self.config);
        HttpFileSystem { transport, config: self.config, cache }
    }
}

impl<T: BlockingHttp> Default for HttpFileSystemBuilder<T> {
    /// A builder with the default configuration and no transport.
    fn default() -> (r: Self)
        ensures
            r.spec_config().is_default(),
            r.spec_transport() is None,
    {
        HttpFileSystemBuilder::new()
    }
}

impl<T: BlockingHttp> HttpFileSystem<T> {
    /// The configuration of the filesystem.
    pub closed spec fn spec_config(&self) -> HttpConfig {
        self.config
    }

    /// The transport of the filesystem.
    pub closed spec fn model_transport(&self) -> T {
        *self.transport
    }

    /// The range cache that the files of this filesystem share.
    pub closed spec fn model_cache(&self) -> SharedCache<T> {
        self.cache
    }

    /// The cache is the one made for this transport and these bounds.
    pub closed spec fn wf(&self) -> bool {
        self.cache.pred() == (CacheRule {
            transport: self.transport,
            max_entries: self.config.cache_max_entries,
            max_bytes: self.config.cache_max_bytes,
        })
    }

    /// A filesystem with the default configuration that reads through `transport`.
    pub fn new(transport: Arc<T>) -> (r: Self)
        ensures
            r.wf(),
            r.spec_config().is_default(),
            r.model_transport() == *transport,
    {
        HttpFileSystemBuilder::new().build(transport)
    }

    /// A builder with the default configuration and no transport.
    pub fn builder() -> (r: HttpFileSystemBuilder<T>)
        ensures
            r.spec_config().is_default(),
            r.spec_transport() is None,
    {
        HttpFileSystemBuilder::new()
    }

    /// The configuration of the filesystem.
    pub fn config(&self) -> (r: HttpConfig)
        ensures
            r == self.spec_config(),
    {
        self.config
    }
}

/// The state of a file that was just opened.
pub open spec fn fresh_file(url: Seq<char>, config: HttpConfig) -> FileState {
    FileState {
        url: url,
        config: config,
        offset: 0,
        eof: false,
        closed: false,
        size: None,
        buffer_start: 0,
        buffer: Seq::empty(),
        prefetch: None,
        worker: false,
        last_read_end: None,
    }
}

impl<T: BlockingHttp> FileSystem for HttpFileSystem<T> {
    type Handle = HttpFile<T>;

    open spec fn valid(&self) -> bool {
        self.wf()
    }

    /// Opens `url` for reading. The mode must be `r` or `rb`; any other is
    /// an invalid input. The URL is taken as it is, and no request is
    /// made. The file reads through the transport of the filesystem and
    /// shares its cache.
    fn open(&self, url: &str, mode: &str) -> (r: Result<HttpFile<T>, FsError>)
        ensures
            r is Ok <==> is_read_mode(mode@),
            r matches Err(e) ==> e matches FsError::Io(kind, _) && kind == IoKind::InvalidInput,
            r matches Ok(file) ==> file@ == fresh_file(url@, self.spec_config())
                && file.model_transport() == self.model_transport() && file.model_cache()
                == self.model_cache(),
    {
        if !read_mode(mode) {
            return Err(
                FsError::Io(
                    IoKind::InvalidInput,
                    "Only read mode ('r' or 'rb') is supported".to_string(),
                ),
            );
        }
        Ok(
            HttpFile::new(
                String::from_str(url),
                share_transport(&self.transport),
                self.config,
                share(&self.cache),
            ),
        )
    }
}

/// A filesystem for `url` that reads through `transport`, where the
/// scheme of `url` is `http` or `https`; any other URL is refused as an
/// unsupported protocol, with the URL as the detail.
pub fn create<T: BlockingHttp>(url: &str, transport: Arc<T>) -> (r: Result<HttpFileSystem<T>, FsError>)
    ensures
        r is Ok <==> is_http_url(url@),
        r matches Ok(fs) ==> fs.wf() && fs.spec_config().is_default() && fs.model_transport()
            == *transport,
        r matches Err(e) ==> e matches FsError::UnsupportedProtocol(detail) && detail@ == url@,
{
    if http_url(url) {
        Ok(HttpFileSystem::new(transport))
    } else {
        Err(FsError::UnsupportedProtocol(String::from_str(url)))
    }
}

/// Opens `url` in `mode` on a filesystem made for it: [`create`], then [`FileSystem::open`].
pub fn open<T: BlockingHttp>(url: &str, mode: &str, transport: Arc<T>) -> (r: Result<
    HttpFile<T>,
    FsError,
>)
    ensures
        r is Ok <==> is_http_url(url@) && is_read_mode(mode@),
        r matches Ok(file) ==> file.wf() && file.model_transport() == *transport && file@.url
            == url@ && file@.config.is_default() && file@ == fresh_file(url@, file@.config),
        r matches Err(e) ==> if is_http_url(url@) {
            e matches FsError::Io(kind, _) && kind == IoKind::InvalidInput
        } else {
            e matches FsError::UnsupportedProtocol(detail) && detail@ == url@
        },
{
    match create(url, transport) {
        Ok(fs) => fs.open(url, mode),
        Err(e) => Err(e),
    }
}

} // verus!
