use pravaha::filesystem::{http_url, read_mode};
use pravaha::{
    create, offset_by, open, seek_target, BlockingHttp, File, FileAdapter, FileSystem, FsError,
    HttpFileSystem, HttpFileSystemBuilder, HttpResponse, IoKind, TimeSpan,
};
use std::io::SeekFrom;
use std::sync::Arc;

struct Fixed {
    resource: Vec<u8>,
    length: Option<u64>,
}

impl BlockingHttp for Fixed {
    fn get_content_length(&self, _url: &str) -> Result<Option<u64>, FsError> {
        Ok(self.length)
    }

    fn get_range(&self, _url: &str, start: u64, end: u64) -> Result<HttpResponse, FsError> {
        let len = self.resource.len() as u64;
        if start >= len {
            return Ok(HttpResponse::new(Vec::new(), 416, None, None));
        }
        let stop = std::cmp::min(end.saturating_add(1), len);
        let data = self.resource[start as usize..stop as usize].to_vec();
        Ok(HttpResponse::new(data, 206, None, Some((start, stop - 1))))
    }

    fn pause(&self, _delay: TimeSpan) {}
}

fn transport(known: bool) -> Arc<Fixed> {
    let resource: Vec<u8> = (0..50u8).collect();
    Arc::new(Fixed { length: if known { Some(50) } else { None }, resource })
}

#[test]
fn create_accepts_http_and_https() {
    assert!(create("http://example.test/a", transport(true)).is_ok());
    assert!(create("https://example.test/a", transport(true)).is_ok());
    assert!(create("http://", transport(true)).is_ok());
}

#[test]
fn create_refuses_other_schemes() {
    for url in ["ftp://example.test/a", "", "http:/x", "HTTP://x", "file:///tmp/x", " https://x", "https:/"] {
        match create(url, transport(true)) {
            Err(FsError::UnsupportedProtocol(detail)) => assert_eq!(detail, url),
            Err(other) => panic!("wrong error {:?}", other),
            Ok(_) => panic!("accepted {:?}", url),
        }
    }
}

#[test]
fn url_and_mode_checks() {
    assert!(http_url("http://a"));
    assert!(http_url("https://a"));
    assert!(!http_url("https:/a"));
    assert!(!http_url("xhttp://a"));
    assert!(read_mode("r"));
    assert!(read_mode("rb"));
    assert!(!read_mode(""));
    assert!(!read_mode("w"));
    assert!(!read_mode("rb+"));
    assert!(!read_mode("R"));
    assert!(!read_mode("br"));
}

#[test]
fn created_filesystem_has_the_default_configuration() {
    let fs = create("http://example.test/a", transport(true)).expect("creates");
    let c = fs.config();
    assert_eq!(c.chunk_size, 262_144);
    assert!(c.read_ahead);
    assert_eq!(c.cache_max_entries, 64);
    assert_eq!(c.retry_max_attempts, 3);
}

#[test]
fn open_accepts_read_modes_only() {
    assert!(open("http://example.test/a", "r", transport(true)).is_ok());
    assert!(open("http://example.test/a", "rb", transport(true)).is_ok());
    for mode in ["w", "", "r+", "a", "rw", "RB"] {
        match open("http://example.test/a", mode, transport(true)) {
            Err(FsError::Io(kind, detail)) => {
                assert_eq!(kind, IoKind::InvalidInput);
                assert_eq!(detail, "Only read mode ('r' or 'rb') is supported");
            }
            Err(other) => panic!("wrong error {:?}", other),
            Ok(_) => panic!("accepted {:?}", mode),
        }
    }
}

#[test]
fn open_checks_the_scheme_before_the_mode() {
    assert!(matches!(
        open("ftp://example.test/a", "w", transport(true)),
        Err(FsError::UnsupportedProtocol(_))
    ));
}

#[test]
fn filesystem_open_does_not_check_the_scheme() {
    let fs = HttpFileSystem::new(transport(true));
    let mut file = fs.open("anything", "r").expect("opens");
    assert_eq!(file.tell(), 0);
    assert!(!file.eof());
    let mut buf = [0u8; 3];
    assert_eq!(file.read(&mut buf).expect("reads"), 3);
    assert_eq!(buf, [0, 1, 2]);
}

#[test]
fn opened_file_reads_through_the_transport() {
    let mut file = open("https://example.test/a", "rb", transport(true)).expect("opens");
    let mut buf = [0u8; 60];
    assert_eq!(file.read(&mut buf).expect("reads"), 50);
    assert_eq!(file.size(), Some(50));
    assert!(file.eof());
}

#[test]
fn builder_starts_from_the_defaults() {
    let b: HttpFileSystemBuilder<Fixed> = HttpFileSystemBuilder::new();
    let c = b.config();
    assert_eq!(c.chunk_size, 262_144);
    assert_eq!(c.read_ahead_trigger, 131_072);
    assert_eq!(c.cache_max_bytes, 33_554_432);
    let d: HttpFileSystemBuilder<Fixed> = HttpFileSystem::builder();
    assert_eq!(d.config().chunk_size, 262_144);
}

#[test]
fn builder_sets_each_field() {
    let c = HttpFileSystemBuilder::<Fixed>::new()
        .chunk_size(512)
        .read_ahead(false)
        .read_ahead_trigger(7)
        .cache_max_entries(128)
        .cache_max_bytes(1 << 20)
        .retry_max_attempts(5)
        .retry_base_delay(TimeSpan::from_millis(10))
        .retry_max_delay(TimeSpan::from_secs(1))
        .connect_timeout(TimeSpan::from_secs(3))
        .read_timeout(TimeSpan::from_secs(4))
        .idle_timeout(TimeSpan::from_secs(5))
        .config();
    assert_eq!(c.chunk_size, 512);
    assert!(!c.read_ahead);
    assert_eq!(c.read_ahead_trigger, 7);
    assert_eq!(c.cache_max_entries, 128);
    assert_eq!(c.cache_max_bytes, 1 << 20);
    assert_eq!(c.retry_max_attempts, 5);
    assert_eq!(c.retry_base_delay, TimeSpan::from_millis(10));
    assert_eq!(c.retry_max_delay, TimeSpan::from_secs(1));
    assert_eq!(c.connect_timeout, TimeSpan::from_secs(3));
    assert_eq!(c.read_timeout, TimeSpan::from_secs(4));
    assert_eq!(c.idle_timeout, TimeSpan::from_secs(5));
}

#[test]
fn builder_raises_zero_to_one() {
    let c = HttpFileSystemBuilder::<Fixed>::new().chunk_size(0).read_ahead_trigger(0).config();
    assert_eq!(c.chunk_size, 1);
    assert_eq!(c.read_ahead_trigger, 1);
}

#[test]
fn build_prefers_the_chosen_transport() {
    let chosen = Arc::new(Fixed { resource: vec![1, 1, 1], length: Some(3) });
    let fallback = Arc::new(Fixed { resource: vec![2, 2, 2], length: Some(3) });
    let fs = HttpFileSystemBuilder::new().transport(chosen).build(fallback.clone());
    let mut buf = [0u8; 3];
    fs.open("http://x", "r").expect("opens").read(&mut buf).expect("reads");
    assert_eq!(buf, [1, 1, 1]);
    let fs = HttpFileSystemBuilder::new().build(fallback);
    fs.open("http://x", "r").expect("opens").read(&mut buf).expect("reads");
    assert_eq!(buf, [2, 2, 2]);
}

#[test]
fn built_filesystem_keeps_the_configuration() {
    let fs = HttpFileSystemBuilder::new().chunk_size(4).read_ahead(false).build(transport(true));
    assert_eq!(fs.config().chunk_size, 4);
    let mut file = fs.open("http://x", "r").expect("opens");
    let mut buf = [0u8; 2];
    file.read(&mut buf).expect("reads");
    file.seek(4).expect("seeks");
    file.read(&mut buf).expect("reads");
    assert_eq!(buf, [4, 5]);
}

#[test]
fn offsets_move_and_saturate() {
    assert_eq!(offset_by(10, 5), 15);
    assert_eq!(offset_by(10, -4), 6);
    assert_eq!(offset_by(10, -10), 0);
    assert_eq!(offset_by(10, -11), 0);
    assert_eq!(offset_by(10, 0), 10);
    assert_eq!(offset_by(u64::MAX - 1, 5), u64::MAX);
    assert_eq!(offset_by(u64::MAX, i64::MAX), u64::MAX);
    assert_eq!(offset_by(0, i64::MAX), i64::MAX as u64);
    assert_eq!(offset_by(0, i64::MIN), 0);
    assert_eq!(offset_by(1 << 63, i64::MIN), 0);
    assert_eq!(offset_by((1 << 63) + 7, i64::MIN), 7);
    assert_eq!(offset_by(u64::MAX, i64::MIN), u64::MAX - (1 << 63));
}

#[test]
fn seek_targets() {
    assert_eq!(seek_target(SeekFrom::Start(9), 4, None), Ok(9));
    assert_eq!(seek_target(SeekFrom::Current(3), 4, None), Ok(7));
    assert_eq!(seek_target(SeekFrom::Current(-9), 4, Some(50)), Ok(0));
    assert_eq!(seek_target(SeekFrom::End(-1), 4, Some(50)), Ok(49));
    assert_eq!(seek_target(SeekFrom::End(5), 4, Some(50)), Ok(55));
    assert_eq!(
        seek_target(SeekFrom::End(0), 4, None),
        Err(FsError::Io(
            IoKind::Unsupported,
            "Cannot seek from end without known file size".to_string()
        ))
    );
}

#[test]
fn adapter_seeks_relative_to_start_current_and_end() {
    let file = open("http://example.test/a", "r", transport(true)).expect("opens");
    let mut adapter = FileAdapter::new(file);
    assert_eq!(adapter.seek(SeekFrom::Start(10)), Ok(10));
    let mut buf = [0u8; 2];
    assert_eq!(adapter.read(&mut buf), Ok(2));
    assert_eq!(buf, [10, 11]);
    assert_eq!(adapter.seek(SeekFrom::Current(-5)), Ok(7));
    assert_eq!(adapter.seek(SeekFrom::Current(i64::MIN)), Ok(0));
    assert_eq!(adapter.seek(SeekFrom::End(-2)), Ok(48));
    assert_eq!(adapter.read(&mut buf), Ok(2));
    assert_eq!(buf, [48, 49]);
    assert_eq!(adapter.seek(SeekFrom::End(10)), Ok(60));
    let file = adapter.into_inner();
    assert_eq!(file.tell(), 60);
}

#[test]
fn adapter_cannot_seek_from_an_unknown_end() {
    let file = open("http://example.test/a", "r", transport(false)).expect("opens");
    let mut adapter = FileAdapter::new(file);
    assert!(matches!(
        adapter.seek(SeekFrom::End(0)),
        Err(FsError::Io(IoKind::Unsupported, _))
    ));
    assert_eq!(adapter.seek(SeekFrom::Current(4)), Ok(4));
}

#[test]
fn adapter_passes_on_the_failure_of_a_closed_file() {
    let mut file = open("http://example.test/a", "r", transport(true)).expect("opens");
    file.close();
    let mut adapter = FileAdapter::new(file);
    assert_eq!(adapter.seek(SeekFrom::Start(1)), Err(FsError::FileClosed));
    assert_eq!(adapter.seek(SeekFrom::Current(1)), Err(FsError::FileClosed));
    assert!(matches!(adapter.seek(SeekFrom::End(0)), Err(FsError::Io(IoKind::Unsupported, _))));
    let mut buf = [0u8; 2];
    assert_eq!(adapter.read(&mut buf), Err(FsError::FileClosed));
}

#[test]
fn file_seeks_relative_to_start_current_and_end() {
    let mut file = open("http://example.test/a", "r", transport(true)).expect("opens");
    assert_eq!(file.seek_from(SeekFrom::Start(20)), Ok(20));
    assert_eq!(file.seek_from(SeekFrom::Current(5)), Ok(25));
    assert_eq!(file.seek_from(SeekFrom::End(-50)), Ok(0));
    assert_eq!(file.seek_from(SeekFrom::End(-51)), Ok(0));
    assert_eq!(file.tell(), 0);
    file.close();
    assert_eq!(file.seek_from(SeekFrom::Start(1)), Err(FsError::FileClosed));
    assert!(matches!(file.seek_from(SeekFrom::End(0)), Err(FsError::Io(IoKind::Unsupported, _))));
}

#[test]
fn default_size_and_close_of_a_file() {
    struct Plain {
        at: u64,
    }
    impl File for Plain {
        fn read(&mut self, _buf: &mut [u8]) -> Result<usize, FsError> {
            Ok(0)
        }
        fn seek(&mut self, pos: u64) -> Result<(), FsError> {
            self.at = pos;
            Ok(())
        }
        fn tell(&self) -> u64 {
            self.at
        }
        fn eof(&self) -> bool {
            true
        }
    }
    let mut adapter = FileAdapter::new(Plain { at: 3 });
    assert_eq!(adapter.seek(SeekFrom::Current(4)), Ok(7));
    assert!(matches!(adapter.seek(SeekFrom::End(0)), Err(FsError::Io(IoKind::Unsupported, _))));
    let mut plain = adapter.into_inner();
    assert_eq!(plain.size(), None);
    plain.close();
    assert_eq!(plain.tell(), 7);
    assert!(plain.eof());
}

#[test]
fn seek_from_a_remembered_end_asks_nothing() {
    let mut file = open("http://example.test/a", "r", transport(true)).expect("opens");
    assert_eq!(file.size(), Some(50));
    assert_eq!(file.seek_from(SeekFrom::End(-10)), Ok(40));
    assert_eq!(file.seek_from(SeekFrom::End(i64::MIN)), Ok(0));
    let mut unknown = open("http://example.test/a", "r", transport(false)).expect("opens");
    assert_eq!(unknown.size(), None);
    assert!(unknown.seek_from(SeekFrom::End(0)).is_err());
    assert_eq!(unknown.tell(), 0);
}
