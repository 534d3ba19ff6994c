use pravaha::{
    check_range_response, BlockingHttp, File, FileSystem, FsError, HttpFile, HttpFileSystem,
    HttpFileSystemBuilder, HttpResponse, TimeSpan,
};
use std::sync::mpsc::channel;
use std::sync::{Arc, Mutex};

const URL: &str = "http://example.test/resource";

struct Mock {
    resource: Vec<u8>,
    length: Option<u64>,
    status: Option<u16>,
    reply_cap: Option<usize>,
    range_failures: Mutex<usize>,
    head_failures: Mutex<usize>,
    range_calls: Mutex<Vec<(u64, u64)>>,
    head_calls: Mutex<usize>,
    pauses: Mutex<Vec<TimeSpan>>,
}

impl Mock {
    fn new(resource: &[u8], known: bool) -> Mock {
        Mock {
            resource: resource.to_vec(),
            length: if known { Some(resource.len() as u64) } else { None },
            status: None,
            reply_cap: None,
            range_failures: Mutex::new(0),
            head_failures: Mutex::new(0),
            range_calls: Mutex::new(Vec::new()),
            head_calls: Mutex::new(0),
            pauses: Mutex::new(Vec::new()),
        }
    }

    fn ranges(&self) -> Vec<(u64, u64)> {
        self.range_calls.lock().unwrap().clone()
    }

    fn heads(&self) -> usize {
        *self.head_calls.lock().unwrap()
    }

    fn paused(&self) -> Vec<TimeSpan> {
        self.pauses.lock().unwrap().clone()
    }
}

impl BlockingHttp for Mock {
    fn get_content_length(&self, _url: &str) -> Result<Option<u64>, FsError> {
        *self.head_calls.lock().unwrap() += 1;
        let mut failures = self.head_failures.lock().unwrap();
        if *failures > 0 {
            *failures -= 1;
            return Err(FsError::Network("head failed".to_string()));
        }
        Ok(self.length)
    }

    fn get_range(&self, _url: &str, start: u64, end: u64) -> Result<HttpResponse, FsError> {
        self.range_calls.lock().unwrap().push((start, end));
        let mut failures = self.range_failures.lock().unwrap();
        if *failures > 0 {
            *failures -= 1;
            return Err(FsError::Network("range failed".to_string()));
        }
        let len = self.resource.len() as u64;
        let response = if let Some(status) = self.status {
            HttpResponse::new(self.resource.clone(), status, Some(len), None)
        } else if start >= len {
            HttpResponse::new(Vec::new(), 416, None, None)
        } else {
            let mut stop = std::cmp::min(end.saturating_add(1), len);
            if let Some(cap) = self.reply_cap {
                stop = std::cmp::min(stop, start + cap as u64);
            }
            let data = self.resource[start as usize..stop as usize].to_vec();
            let size = data.len() as u64;
            HttpResponse::new(data, 206, Some(size), Some((start, stop - 1)))
        };
        check_range_response(response, start)
    }

    fn pause(&self, delay: TimeSpan) {
        self.pauses.lock().unwrap().push(delay);
    }
}

fn builder(mock: &Arc<Mock>) -> HttpFileSystemBuilder<Mock> {
    HttpFileSystemBuilder::new()
        .transport(mock.clone())
        .chunk_size(10)
        .read_ahead(false)
        .cache_max_entries(4)
        .cache_max_bytes(4096)
        .retry_base_delay(TimeSpan::from_millis(1))
        .retry_max_delay(TimeSpan::from_millis(3))
}

fn filesystem(mock: &Arc<Mock>) -> HttpFileSystem<Mock> {
    builder(mock).build(mock.clone())
}

fn open(mock: &Arc<Mock>) -> HttpFile<Mock> {
    filesystem(mock).open(URL, "r").expect("opens")
}

const ALPHABET: &[u8] = b"ABCDEFGHIJKLMNO";

#[test]
fn reads_whole_resource_of_known_length() {
    let mock = Arc::new(Mock::new(ALPHABET, true));
    let mut file = open(&mock);
    let mut buf = [0u8; 100];
    assert_eq!(file.read(&mut buf).expect("reads"), 15);
    assert_eq!(&buf[..15], ALPHABET);
    assert!(buf[15..].iter().all(|b| *b == 0));
    assert!(file.eof());
    assert_eq!(file.tell(), 15);
    let mut again = [0u8; 10];
    assert_eq!(file.read(&mut again).expect("reads"), 0);
    assert_eq!(mock.ranges(), vec![(0, 9), (10, 19)]);
    assert_eq!(mock.heads(), 1);
}

#[test]
fn reads_tail_after_seek() {
    let mock = Arc::new(Mock::new(ALPHABET, true));
    let mut file = open(&mock);
    file.seek(12).expect("seeks");
    let mut buf = [0u8; 10];
    assert_eq!(file.read(&mut buf).expect("reads"), 3);
    assert_eq!(&buf[..3], b"MNO");
    assert!(file.eof());
    assert_eq!(mock.ranges(), vec![(12, 21)]);
}

#[test]
fn reads_whole_resource_of_unknown_length() {
    let mock = Arc::new(Mock::new(ALPHABET, false));
    let mut file = open(&mock);
    let mut buf = [0u8; 100];
    assert_eq!(file.read(&mut buf).expect("reads"), 15);
    assert_eq!(&buf[..15], ALPHABET);
    assert!(file.eof());
    assert_eq!(file.size(), None);
    assert_eq!(mock.heads(), 1);
}

#[test]
fn short_first_answer_does_not_end_unknown_length() {
    let mock = Arc::new(Mock::new(b"ABCDE", false));
    let mut file = open(&mock);
    let mut buf = [0u8; 3];
    assert_eq!(file.read(&mut buf).expect("reads"), 3);
    assert!(!file.eof());
    let mut rest = [0u8; 10];
    assert_eq!(file.read(&mut rest).expect("reads"), 2);
    assert_eq!(&rest[..2], b"DE");
    assert!(file.eof());
    assert_eq!(mock.ranges(), vec![(0, 9), (5, 14)]);
}

#[test]
fn read_until_size_then_zero() {
    for n in [1usize, 9, 10, 11, 20, 37] {
        let resource: Vec<u8> = (0..n).map(|i| (i * 7 % 251) as u8).collect();
        let mock = Arc::new(Mock::new(&resource, true));
        let mut file = open(&mock);
        let mut buf = vec![0u8; 2 * n];
        assert_eq!(file.read(&mut buf).expect("reads"), n);
        assert_eq!(&buf[..n], &resource[..]);
        assert!(file.eof());
        assert_eq!(file.read(&mut buf).expect("reads"), 0);
        assert_eq!(file.tell(), n as u64);
    }
}

#[test]
fn empty_resource_reads_nothing() {
    let mock = Arc::new(Mock::new(b"", true));
    let mut file = open(&mock);
    let mut buf = [0u8; 4];
    assert_eq!(file.read(&mut buf).expect("reads"), 0);
    assert!(file.eof());
    assert_eq!(file.size(), Some(0));
}

#[test]
fn empty_buffer_reads_nothing_and_asks_nothing() {
    let mock = Arc::new(Mock::new(ALPHABET, true));
    let mut file = open(&mock);
    let mut buf = [0u8; 0];
    assert_eq!(file.read(&mut buf).expect("reads"), 0);
    assert!(!file.eof());
    assert!(mock.ranges().is_empty());
    assert_eq!(mock.heads(), 0);
    file.close();
    assert_eq!(file.read(&mut buf).expect("reads"), 0);
}

#[test]
fn sequential_reads_concatenate_to_the_resource() {
    let resource: Vec<u8> = (0..95u32).map(|i| (i * 31 % 256) as u8).collect();
    let mock = Arc::new(Mock::new(&resource, true));
    let mut file = open(&mock);
    let mut all: Vec<u8> = Vec::new();
    for size in [1usize, 3, 7, 10, 11, 2, 25, 40] {
        let mut buf = vec![0u8; size];
        let n = file.read(&mut buf).expect("reads");
        all.extend_from_slice(&buf[..n]);
        assert_eq!(file.tell(), all.len() as u64);
        assert_eq!(&all[..], &resource[..all.len()]);
    }
    assert_eq!(all, resource);
}

#[test]
fn seek_then_tell() {
    let mock = Arc::new(Mock::new(ALPHABET, true));
    let mut file = open(&mock);
    for p in [0u64, 7, 15, 1_000_000, u64::MAX] {
        file.seek(p).expect("seeks");
        assert_eq!(file.tell(), p);
        assert!(!file.eof());
    }
    assert!(mock.ranges().is_empty());
}

#[test]
fn read_after_seek_matches_fresh_reader() {
    let resource: Vec<u8> = (0..64u32).map(|i| (i * 5 + 1) as u8).collect();
    for p in [0u64, 3, 10, 19, 20, 63, 64, 70] {
        for k in [1usize, 9, 10, 30] {
            let mock = Arc::new(Mock::new(&resource, true));
            let mut used = open(&mock);
            let mut scratch = [0u8; 17];
            used.read(&mut scratch).expect("reads");
            used.seek(40).expect("seeks");
            used.read(&mut scratch).expect("reads");
            used.seek(p).expect("seeks");
            let mut a = vec![0u8; k];
            let n = used.read(&mut a).expect("reads");

            let other = Arc::new(Mock::new(&resource, true));
            let mut fresh = open(&other);
            fresh.seek(p).expect("seeks");
            let mut b = vec![0u8; k];
            let m = fresh.read(&mut b).expect("reads");
            assert_eq!(n, m);
            assert_eq!(a, b);
            let end = std::cmp::min(p as usize + k, resource.len());
            assert_eq!(&a[..n], &resource[std::cmp::min(p as usize, end)..end]);
        }
    }
}

#[test]
fn forward_seek_inside_the_chunk_keeps_it() {
    let mock = Arc::new(Mock::new(ALPHABET, true));
    let mut file = open(&mock);
    let mut buf = [0u8; 2];
    file.read(&mut buf).expect("reads");
    file.seek(6).expect("seeks");
    assert_eq!(file.read(&mut buf).expect("reads"), 2);
    assert_eq!(&buf, b"GH");
    assert_eq!(mock.ranges(), vec![(0, 9)]);
}

#[test]
fn backward_seek_drops_the_chunk() {
    let mock = Arc::new(Mock::new(ALPHABET, true));
    let fs = builder(&mock).cache_max_entries(0).build(mock.clone());
    let mut file = fs.open(URL, "rb").expect("opens");
    let mut buf = [0u8; 4];
    file.read(&mut buf).expect("reads");
    file.seek(2).expect("seeks");
    assert_eq!(file.read(&mut buf).expect("reads"), 4);
    assert_eq!(&buf, b"CDEF");
    assert_eq!(mock.ranges(), vec![(0, 9), (2, 11)]);
}

#[test]
fn cache_hit_elides_transport() {
    let mock = Arc::new(Mock::new(ALPHABET, true));
    let mut file = open(&mock);
    let mut buf = [0u8; 10];
    assert_eq!(file.read(&mut buf).expect("reads"), 10);
    assert_eq!(mock.ranges().len(), 1);
    file.seek(0).expect("seeks");
    let mut again = [0u8; 10];
    assert_eq!(file.read(&mut again).expect("reads"), 10);
    assert_eq!(again, buf);
    assert_eq!(mock.ranges(), vec![(0, 9)]);
}

#[test]
fn files_of_one_filesystem_share_the_cache() {
    let mock = Arc::new(Mock::new(ALPHABET, true));
    let fs = filesystem(&mock);
    let mut first = fs.open(URL, "r").expect("opens");
    let mut second = fs.open(URL, "r").expect("opens");
    let mut other = fs.open("http://example.test/other", "r").expect("opens");
    let mut buf = [0u8; 10];
    first.read(&mut buf).expect("reads");
    second.read(&mut buf).expect("reads");
    assert_eq!(&buf, b"ABCDEFGHIJ");
    assert_eq!(mock.ranges(), vec![(0, 9)]);
    other.read(&mut buf).expect("reads");
    assert_eq!(mock.ranges(), vec![(0, 9), (0, 9)]);
}

#[test]
fn disabled_cache_asks_again() {
    let mock = Arc::new(Mock::new(ALPHABET, true));
    let fs = builder(&mock).cache_max_bytes(0).build(mock.clone());
    let mut file = fs.open(URL, "r").expect("opens");
    let mut buf = [0u8; 10];
    file.read(&mut buf).expect("reads");
    file.seek(0).expect("seeks");
    file.read(&mut buf).expect("reads");
    assert_eq!(mock.ranges(), vec![(0, 9), (0, 9)]);
}

fn prefetching(mock: &Arc<Mock>) -> HttpFile<Mock> {
    builder(mock)
        .read_ahead(true)
        .read_ahead_trigger(3)
        .build(mock.clone())
        .open(URL, "r")
        .expect("opens")
}

fn run_worker(file: &mut HttpFile<Mock>) -> bool {
    match file.prefetch_ticket() {
        None => false,
        Some(ticket) => {
            let (start, end) = ticket.range();
            let (tx, rx) = channel();
            tx.send(ticket.run()).expect("sends");
            file.attach_prefetch(start, end, rx)
        }
    }
}

#[test]
fn prefetch_is_scheduled_and_used_once() {
    let resource: Vec<u8> = (0..30u8).collect();
    let mock = Arc::new(Mock::new(&resource, true));
    let mut file = prefetching(&mock);
    let mut buf = [0u8; 8];
    assert_eq!(file.read(&mut buf).expect("reads"), 8);
    assert_eq!(file.prefetch_target(), Some((10, 19)));
    assert!(run_worker(&mut file));
    assert!(!run_worker(&mut file));
    assert_eq!(mock.ranges(), vec![(0, 9), (10, 19)]);
    let mut more = [0u8; 5];
    assert_eq!(file.read(&mut more).expect("reads"), 5);
    assert_eq!(&more, &resource[8..13]);
    assert_eq!(mock.ranges(), vec![(0, 9), (10, 19)]);
    assert_eq!(file.prefetch_target(), None);
}

#[test]
fn prefetch_is_scheduled_without_a_cache() {
    let resource: Vec<u8> = (0..30u8).collect();
    let mock = Arc::new(Mock::new(&resource, true));
    for (entries, bytes) in [(0usize, 4096usize), (4, 0), (0, 0)] {
        let fs = builder(&mock)
            .read_ahead(true)
            .read_ahead_trigger(3)
            .cache_max_entries(entries)
            .cache_max_bytes(bytes)
            .build(mock.clone());
        let mut file = fs.open(URL, "r").expect("opens");
        assert!(file.try_cache_lookup(0, 9).is_none());
        let mut buf = [0u8; 8];
        file.read(&mut buf).expect("reads");
        assert!(file.try_cache_lookup(0, 9).is_none());
        assert_eq!(file.prefetch_goal(), None);
        assert_eq!(file.prefetch_target(), Some((10, 19)));
        file.maybe_prefetch_next();
        assert_eq!(file.prefetch_target(), Some((10, 19)));
    }
}

#[test]
fn scheduling_follows_the_lookup() {
    let resource: Vec<u8> = (0..30u8).collect();
    let mock = Arc::new(Mock::new(&resource, true));
    let fs = builder(&mock).read_ahead(true).read_ahead_trigger(3).build(mock.clone());
    let mut file = fs.open(URL, "r").expect("opens");
    file.refill_buffer().expect("refills");
    file.seek(8).expect("seeks");
    assert_eq!(file.prefetch_goal(), Some((10, 19)));
    file.schedule_after_lookup((10, 19), true);
    assert_eq!(file.prefetch_target(), None);
    assert_eq!(file.prefetch_goal(), Some((10, 19)));
    file.schedule_after_lookup((10, 19), false);
    assert_eq!(file.prefetch_target(), Some((10, 19)));
    assert_eq!(file.prefetch_goal(), None);
    assert!(file.prefetch_ticket().is_some());
    file.maybe_prefetch_next();
    assert_eq!(file.prefetch_target(), Some((10, 19)));
}

#[test]
fn ticket_asks_the_transport_of_the_file_for_the_slot() {
    let resource: Vec<u8> = (0..30u8).collect();
    let mock = Arc::new(Mock::new(&resource, true));
    let mut file = prefetching(&mock);
    let mut buf = [0u8; 8];
    file.read(&mut buf).expect("reads");
    let ticket = file.prefetch_ticket().expect("ticket");
    assert_eq!(ticket.range(), (10, 19));
    *mock.range_failures.lock().unwrap() = 2;
    let before = mock.ranges().len();
    let _fetched = ticket.run();
    assert_eq!(mock.ranges()[before..].to_vec(), vec![(10, 19); 3]);
    assert_eq!(mock.paused().len(), 2);
}

#[test]
fn refill_consumes_a_slot_that_targets_the_chunk() {
    let resource: Vec<u8> = (0..30u8).collect();
    let mock = Arc::new(Mock::new(&resource, true));
    let fs = builder(&mock)
        .read_ahead(true)
        .read_ahead_trigger(3)
        .cache_max_entries(0)
        .build(mock.clone());
    let mut file = fs.open(URL, "r").expect("opens");
    let mut buf = [0u8; 8];
    file.read(&mut buf).expect("reads");
    assert_eq!(file.prefetch_target(), Some((10, 19)));
    assert!(run_worker(&mut file));
    let mut two = [0u8; 2];
    file.read(&mut two).expect("reads");
    assert_eq!(file.prefetch_target(), Some((10, 19)));
    let calls = mock.ranges().len();
    file.refill_buffer().expect("refills");
    assert_eq!(file.prefetch_target(), None);
    assert_eq!(mock.ranges().len(), calls);
    assert_eq!(file.tell(), 10);
}

#[test]
fn prefetch_waits_for_the_trigger() {
    let resource: Vec<u8> = (0..30u8).collect();
    let mock = Arc::new(Mock::new(&resource, true));
    let mut file = prefetching(&mock);
    let mut buf = [0u8; 6];
    file.read(&mut buf).expect("reads");
    assert_eq!(file.prefetch_target(), None);
    let mut one = [0u8; 1];
    file.read(&mut one).expect("reads");
    assert_eq!(file.prefetch_target(), Some((10, 19)));
    file.read(&mut one).expect("reads");
    assert_eq!(file.prefetch_target(), Some((10, 19)));
}

#[test]
fn prefetch_is_not_scheduled_at_the_end() {
    let mock = Arc::new(Mock::new(b"ABCDEFGHIJ", true));
    let mut file = prefetching(&mock);
    let mut buf = [0u8; 9];
    file.read(&mut buf).expect("reads");
    assert!(file.eof());
    assert_eq!(file.prefetch_target(), None);
}

#[test]
fn prefetch_is_not_scheduled_for_a_cached_chunk() {
    let resource: Vec<u8> = (0..30u8).collect();
    let mock = Arc::new(Mock::new(&resource, true));
    let fs = builder(&mock).read_ahead(true).read_ahead_trigger(3).build(mock.clone());
    let mut warm = fs.open(URL, "r").expect("opens");
    warm.seek(10).expect("seeks");
    let mut buf = [0u8; 1];
    warm.read(&mut buf).expect("reads");
    let mut file = fs.open(URL, "r").expect("opens");
    let mut eight = [0u8; 8];
    file.read(&mut eight).expect("reads");
    assert_eq!(file.prefetch_target(), None);
}

#[test]
fn unserved_prefetch_falls_back_to_the_transport() {
    let resource: Vec<u8> = (0..30u8).collect();
    let mock = Arc::new(Mock::new(&resource, true));
    let mut file = prefetching(&mock);
    let mut buf = [0u8; 8];
    file.read(&mut buf).expect("reads");
    assert_eq!(file.prefetch_target(), Some((10, 19)));
    let mut more = [0u8; 5];
    assert_eq!(file.read(&mut more).expect("reads"), 5);
    assert_eq!(&more, &resource[8..13]);
    assert_eq!(mock.ranges(), vec![(0, 9), (10, 19)]);
}

#[test]
fn lost_prefetch_worker_is_a_network_error() {
    let resource: Vec<u8> = (0..30u8).collect();
    let mock = Arc::new(Mock::new(&resource, true));
    let mut file = prefetching(&mock);
    let mut buf = [0u8; 8];
    file.read(&mut buf).expect("reads");
    let (tx, rx) = channel();
    drop(tx);
    assert!(file.attach_prefetch(10, 19, rx));
    let mut more = [0u8; 5];
    assert_eq!(
        file.read(&mut more).expect_err("fails"),
        FsError::Network("Prefetch thread canceled".to_string())
    );
}

#[test]
fn prefetch_outcome_of_another_transport_is_refused() {
    let resource: Vec<u8> = (0..30u8).collect();
    let mock = Arc::new(Mock::new(&resource, true));
    let mut file = prefetching(&mock);
    let stranger = Arc::new(Mock::new(&[9u8; 30], true));
    let mut foreign = prefetching(&stranger);
    let mut buf = [0u8; 8];
    file.read(&mut buf).expect("reads");
    foreign.read(&mut buf).expect("reads");
    let ticket = foreign.prefetch_ticket().expect("ticket");
    let (tx, rx) = channel();
    tx.send(ticket.run()).expect("sends");
    assert!(file.attach_prefetch(10, 19, rx));
    let mut more = [0u8; 5];
    assert_eq!(
        file.read(&mut more).expect_err("fails"),
        FsError::Network("Prefetch thread canceled".to_string())
    );
}

#[test]
fn prefetch_failure_surfaces_when_consumed() {
    let resource: Vec<u8> = (0..30u8).collect();
    let mut inner = Mock::new(&resource, true);
    inner.status = None;
    let mock = Arc::new(inner);
    let mut file = prefetching(&mock);
    let mut buf = [0u8; 8];
    file.read(&mut buf).expect("reads");
    *mock.range_failures.lock().unwrap() = 10;
    assert!(run_worker(&mut file));
    *mock.range_failures.lock().unwrap() = 0;
    let calls = mock.ranges().len();
    let mut more = [0u8; 5];
    assert_eq!(
        file.read(&mut more).expect_err("fails"),
        FsError::Network("range failed".to_string())
    );
    assert_eq!(mock.ranges().len(), calls);
}

#[test]
fn attach_needs_a_matching_free_slot() {
    let resource: Vec<u8> = (0..30u8).collect();
    let mock = Arc::new(Mock::new(&resource, true));
    let mut file = prefetching(&mock);
    let (_tx0, rx0) = channel();
    assert!(!file.attach_prefetch(10, 19, rx0));
    let mut buf = [0u8; 8];
    file.read(&mut buf).expect("reads");
    let (_tx1, rx1) = channel();
    assert!(!file.attach_prefetch(10, 18, rx1));
    let (_tx2, rx2) = channel();
    assert!(file.attach_prefetch(10, 19, rx2));
    let (_tx3, rx3) = channel();
    assert!(!file.attach_prefetch(10, 19, rx3));
    assert!(file.prefetch_ticket().is_none());
}

#[test]
fn seek_empties_the_prefetch_slot() {
    let resource: Vec<u8> = (0..30u8).collect();
    let mock = Arc::new(Mock::new(&resource, true));
    let mut file = prefetching(&mock);
    let mut buf = [0u8; 8];
    file.read(&mut buf).expect("reads");
    assert_eq!(file.prefetch_target(), Some((10, 19)));
    file.seek(0).expect("seeks");
    assert_eq!(file.prefetch_target(), None);
    let mut four = [0u8; 4];
    file.read(&mut four).expect("reads");
    assert_eq!(file.prefetch_target(), None);
}

#[test]
fn end_of_file_empties_the_prefetch_slot() {
    let resource: Vec<u8> = (0..20u8).collect();
    let mock = Arc::new(Mock::new(&resource, true));
    let fs = builder(&mock).read_ahead(true).read_ahead_trigger(3).build(mock.clone());
    let mut file = fs.open(URL, "r").expect("opens");
    let mut buf = [0u8; 8];
    file.read(&mut buf).expect("reads");
    assert_eq!(file.prefetch_target(), Some((10, 19)));
    let mut other = fs.open(URL, "r").expect("opens");
    other.seek(10).expect("seeks");
    let mut one = [0u8; 1];
    other.read(&mut one).expect("reads");
    let mut more = [0u8; 5];
    assert_eq!(file.read(&mut more).expect("reads"), 5);
    assert!(file.eof());
    assert_eq!(file.prefetch_target(), None);
    assert_eq!(mock.ranges(), vec![(0, 9), (10, 19)]);
}

#[test]
fn failed_read_keeps_the_bytes_copied_so_far() {
    let resource: Vec<u8> = (0..30u8).collect();
    let mock = Arc::new(Mock::new(&resource, true));
    let fs = builder(&mock).retry_max_attempts(0).build(mock.clone());
    let mut file = fs.open(URL, "r").expect("opens");
    let mut buf = [0u8; 4];
    file.read(&mut buf).expect("reads");
    *mock.range_failures.lock().unwrap() = 1;
    let mut big = [0u8; 12];
    assert!(matches!(file.read(&mut big), Err(FsError::Network(_))));
    assert_eq!(file.tell(), 10);
    assert_eq!(&big[..6], &resource[4..10]);
    let mut rest = [0u8; 3];
    assert_eq!(file.read(&mut rest).expect("reads"), 3);
    assert_eq!(&rest, &resource[10..13]);
}

#[test]
fn resident_chunk_serves_reads_without_a_request() {
    let mock = Arc::new(Mock::new(ALPHABET, true));
    let mut file = open(&mock);
    let mut buf = [0u8; 2];
    file.read(&mut buf).expect("reads");
    *mock.range_failures.lock().unwrap() = 100;
    let mut three = [0u8; 3];
    assert_eq!(file.read(&mut three), Ok(3));
    assert_eq!(&three, b"CDE");
    let mut five = [0u8; 5];
    assert_eq!(file.read(&mut five), Ok(5));
    assert_eq!(&five, b"FGHIJ");
    assert_eq!(mock.ranges().len(), 1);
    assert!(matches!(file.read(&mut five), Err(FsError::Network(_))));
}

#[test]
fn resident_chunk_at_the_end_serves_a_longer_read() {
    let mock = Arc::new(Mock::new(ALPHABET, true));
    let mut file = open(&mock);
    file.seek(10).expect("seeks");
    let mut buf = [0u8; 2];
    file.read(&mut buf).expect("reads");
    assert!(file.eof());
    *mock.range_failures.lock().unwrap() = 100;
    let mut big = [7u8; 50];
    assert_eq!(file.read(&mut big), Ok(3));
    assert_eq!(&big[..3], b"MNO");
    assert!(big[3..].iter().all(|b| *b == 7));
    assert_eq!(mock.ranges().len(), 1);
}

#[test]
fn failed_read_leaves_the_rest_of_the_buffer() {
    let mock = Arc::new(Mock::new(ALPHABET, true));
    let fs = builder(&mock).retry_max_attempts(0).build(mock.clone());
    let mut file = fs.open(URL, "r").expect("opens");
    let mut buf = [0u8; 4];
    file.read(&mut buf).expect("reads");
    *mock.range_failures.lock().unwrap() = 1;
    let mut big = [9u8; 12];
    assert_eq!(
        file.read(&mut big),
        Err(FsError::Network("range failed".to_string()))
    );
    assert_eq!(&big[..6], b"EFGHIJ");
    assert_eq!(&big[6..], &[9u8; 6]);
    assert_eq!(file.tell(), 10);
}

#[test]
fn unknown_size_is_what_the_probe_learned() {
    let mock = Arc::new(Mock::new(ALPHABET, false));
    let mut file = open(&mock);
    assert_eq!(file.size(), None);
    assert_eq!(mock.heads(), 1);
    let mock = Arc::new(Mock::new(ALPHABET, true));
    *mock.head_failures.lock().unwrap() = 100;
    let mut file = open(&mock);
    assert_eq!(file.size(), None);
    assert_eq!(mock.heads(), 4);
}

#[test]
fn cache_entry_is_keyed_by_the_request() {
    let mock = Arc::new(Mock::new(ALPHABET, true));
    let file = open(&mock);
    let (key, payload) = file.cache_entry(10, 19, Arc::new(b"KLMNO".to_vec()));
    assert_eq!(key, (URL.to_string(), 10, 19));
    assert_eq!(payload.as_slice(), b"KLMNO");
    file.store_cache(10, 19, payload);
    assert_eq!(file.try_cache_lookup(10, 19).expect("hit").as_slice(), b"KLMNO");
    assert!(file.try_cache_lookup(10, 14).is_none());
}

#[test]
fn closed_file_holds_no_chunk_and_no_slot() {
    let resource: Vec<u8> = (0..30u8).collect();
    let mock = Arc::new(Mock::new(&resource, true));
    let mut file = prefetching(&mock);
    let mut buf = [0u8; 8];
    file.read(&mut buf).expect("reads");
    assert_eq!(file.prefetch_target(), Some((10, 19)));
    file.close();
    assert_eq!(file.prefetch_target(), None);
    assert!(file.prefetch_ticket().is_none());
    assert_eq!(file.read(&mut buf), Err(FsError::FileClosed));
}

#[test]
fn retries_network_failures_within_budget() {
    let mock = Arc::new(Mock::new(ALPHABET, true));
    *mock.range_failures.lock().unwrap() = 3;
    let fs = builder(&mock).retry_max_attempts(3).build(mock.clone());
    let mut file = fs.open(URL, "r").expect("opens");
    let mut buf = [0u8; 4];
    assert_eq!(file.read(&mut buf).expect("reads"), 4);
    assert_eq!(&buf, b"ABCD");
    assert_eq!(mock.ranges(), vec![(0, 9); 4]);
    assert_eq!(
        mock.paused(),
        vec![TimeSpan::from_millis(1), TimeSpan::from_millis(2), TimeSpan::from_millis(3)]
    );
}

#[test]
fn gives_up_when_the_budget_is_spent() {
    let mock = Arc::new(Mock::new(ALPHABET, true));
    *mock.range_failures.lock().unwrap() = 4;
    let fs = builder(&mock).retry_max_attempts(3).build(mock.clone());
    let mut file = fs.open(URL, "r").expect("opens");
    let mut buf = [0u8; 4];
    assert_eq!(
        file.read(&mut buf).expect_err("fails"),
        FsError::Network("range failed".to_string())
    );
    assert_eq!(mock.ranges().len(), 4);
    assert_eq!(mock.paused().len(), 3);
    assert_eq!(file.tell(), 0);
    assert_eq!(file.read(&mut buf).expect("reads"), 4);
}

#[test]
fn no_retries_without_budget() {
    let mock = Arc::new(Mock::new(ALPHABET, true));
    *mock.range_failures.lock().unwrap() = 1;
    let fs = builder(&mock).retry_max_attempts(0).build(mock.clone());
    let mut file = fs.open(URL, "r").expect("opens");
    let mut buf = [0u8; 4];
    assert!(matches!(file.read(&mut buf), Err(FsError::Network(_))));
    assert_eq!(mock.ranges().len(), 1);
    assert!(mock.paused().is_empty());
}

#[test]
fn protocol_error_is_not_retried() {
    let mut inner = Mock::new(ALPHABET, true);
    inner.status = Some(200);
    let mock = Arc::new(inner);
    let mut file = open(&mock);
    let mut buf = [0u8; 4];
    assert!(matches!(file.read(&mut buf), Err(FsError::Protocol(_))));
    assert_eq!(mock.ranges().len(), 1);
    assert!(mock.paused().is_empty());
    assert_eq!(buf, [0u8; 4]);
}

#[test]
fn http_failure_is_retried_as_network_error() {
    let mut inner = Mock::new(ALPHABET, true);
    inner.status = Some(503);
    let mock = Arc::new(inner);
    let mut file = open(&mock);
    let mut buf = [0u8; 4];
    assert_eq!(
        file.read(&mut buf).expect_err("fails"),
        FsError::Network("HTTP error: 503".to_string())
    );
    assert_eq!(mock.ranges().len(), 4);
}

#[test]
fn size_probe_is_retried_and_remembered() {
    let mock = Arc::new(Mock::new(ALPHABET, true));
    *mock.head_failures.lock().unwrap() = 2;
    let mut file = open(&mock);
    assert_eq!(file.size(), Some(15));
    assert_eq!(mock.heads(), 3);
    assert_eq!(file.size(), Some(15));
    let mut buf = [0u8; 4];
    file.read(&mut buf).expect("reads");
    assert_eq!(mock.heads(), 3);
}

#[test]
fn failed_size_probe_counts_as_unknown() {
    let mock = Arc::new(Mock::new(ALPHABET, true));
    *mock.head_failures.lock().unwrap() = 4;
    let mut file = open(&mock);
    assert_eq!(file.size(), None);
    assert_eq!(mock.heads(), 4);
    assert_eq!(file.size(), None);
    assert_eq!(mock.heads(), 4);
    let mut buf = [0u8; 100];
    assert_eq!(file.read(&mut buf).expect("reads"), 15);
    assert!(file.eof());
}

#[test]
fn one_byte_answers_end_the_read() {
    let resource = vec![5u8; 4096];
    let mut inner = Mock::new(&resource, false);
    inner.reply_cap = Some(1);
    let mock = Arc::new(inner);
    let mut file = open(&mock);
    let mut buf = [0u8; 64];
    assert_eq!(file.read(&mut buf).expect("reads"), 2);
    assert!(file.eof());
    assert_eq!(mock.ranges(), vec![(0, 9), (1, 10)]);
    assert_eq!(file.read(&mut buf).expect("reads"), 0);
}

#[test]
fn chunk_that_does_not_advance_is_refused() {
    let mock = Arc::new(Mock::new(ALPHABET, true));
    let mut file = open(&mock);
    let mut buf = [0u8; 2];
    file.read(&mut buf).expect("reads");
    assert_eq!(
        file.install_chunk(vec![1, 2, 3]).expect_err("fails"),
        FsError::Protocol("Buffer refill did not advance".to_string())
    );
}

#[test]
fn chunk_past_the_largest_offset_is_refused() {
    let mock = Arc::new(Mock::new(ALPHABET, true));
    let mut file = open(&mock);
    assert_eq!(file.size(), Some(15));
    file.seek(u64::MAX - 1).expect("seeks");
    assert_eq!(
        file.install_chunk(vec![1, 2, 3]).expect_err("fails"),
        FsError::Protocol("Response reaches past the largest offset".to_string())
    );
    assert!(file.install_chunk(vec![1]).is_ok());
    assert!(file.eof());
}

#[test]
fn read_near_the_largest_offset() {
    let mock = Arc::new(Mock::new(ALPHABET, true));
    let mut file = open(&mock);
    file.seek(u64::MAX).expect("seeks");
    let mut buf = [0u8; 4];
    assert_eq!(file.read(&mut buf).expect("reads"), 0);
    assert!(file.eof());
    assert_eq!(mock.ranges(), vec![(u64::MAX, u64::MAX)]);
}

#[test]
fn closed_file_fails() {
    let mock = Arc::new(Mock::new(ALPHABET, true));
    let mut file = open(&mock);
    let mut buf = [0u8; 4];
    file.read(&mut buf).expect("reads");
    file.close();
    assert_eq!(file.read(&mut buf).expect_err("fails"), FsError::FileClosed);
    assert_eq!(file.seek(0).expect_err("fails"), FsError::FileClosed);
    assert_eq!(file.size(), None);
    assert_eq!(file.tell(), 4);
    file.close();
    assert_eq!(file.read(&mut buf).expect_err("fails"), FsError::FileClosed);
    assert_eq!(mock.ranges().len(), 1);
}

#[test]
fn refill_goes_cache_first() {
    let mock = Arc::new(Mock::new(ALPHABET, true));
    let mut file = open(&mock);
    file.refill_buffer().expect("refills");
    assert_eq!(mock.ranges(), vec![(0, 9)]);
    assert!(file.try_cache_lookup(0, 9).is_some());
    assert!(file.try_cache_lookup(0, 8).is_none());
    assert_eq!(file.get_content_length_with_retry().expect("probes"), Some(15));
    let direct = file.get_range_with_retry(3, 5).expect("fetches");
    assert_eq!(direct.data, b"DEF".to_vec());
    assert_eq!(file.prefetch_goal(), None);
    file.maybe_prefetch_next();
    assert_eq!(file.prefetch_target(), None);
    assert!(file.take_prefetch_if_match(0, 9).is_none());
}
