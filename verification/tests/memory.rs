use pravaha::{
    BlockingHttp, File, FileSystem, HttpFileSystemBuilder, MemoryTransport, TimeSpan,
};
use std::sync::Arc;

fn resource(n: usize) -> Vec<u8> {
    (0..n).map(|i| (i * 13 % 256) as u8).collect()
}

#[test]
fn memory_reports_its_length_when_asked_to() {
    let t = MemoryTransport::new(resource(15), true);
    assert_eq!(t.get_content_length("http://x"), Ok(Some(15)));
    let t = MemoryTransport::new(resource(15), false);
    assert_eq!(t.get_content_length("http://x"), Ok(None));
    t.pause(TimeSpan::from_secs(3600));
}

#[test]
fn memory_serves_the_bytes_of_a_range() {
    let r = resource(15);
    let t = MemoryTransport::new(r.clone(), true);
    let a = t.get_range("http://x", 0, 9).expect("answers");
    assert_eq!(a.data, r[0..10].to_vec());
    assert_eq!(a.status, 206);
    assert_eq!(a.content_length, Some(10));
    assert_eq!(a.content_range, Some((0, 9)));
    let b = t.get_range("http://x", 10, 19).expect("answers");
    assert_eq!(b.data, r[10..15].to_vec());
    assert_eq!(b.content_range, Some((10, 14)));
    let c = t.get_range("http://x", 14, 14).expect("answers");
    assert_eq!(c.data, vec![r[14]]);
    let d = t.get_range("http://x", 3, u64::MAX).expect("answers");
    assert_eq!(d.data, r[3..].to_vec());
}

#[test]
fn memory_serves_nothing_outside_the_resource() {
    let t = MemoryTransport::new(resource(15), true);
    for (start, end) in [(15u64, 24u64), (20, 29), (u64::MAX, u64::MAX), (5, 4), (9, 0)] {
        let a = t.get_range("http://x", start, end).expect("answers");
        assert!(a.data.is_empty());
        assert_eq!(a.status, 416);
    }
    let empty = MemoryTransport::new(Vec::new(), true);
    assert!(empty.get_range("http://x", 0, 9).expect("answers").data.is_empty());
}

#[test]
fn file_over_memory_returns_the_resource() {
    for known in [true, false] {
        for n in [0usize, 1, 5, 10, 11, 64] {
            for chunk in [1u64, 3, 10, 100] {
                let r = resource(n);
                let t = Arc::new(MemoryTransport::new(r.clone(), known));
                let fs = HttpFileSystemBuilder::new()
                    .transport(t.clone())
                    .chunk_size(chunk)
                    .cache_max_entries(2)
                    .cache_max_bytes(64)
                    .build(t);
                let mut file = fs.open("http://x", "r").expect("opens");
                let mut buf = vec![0u8; 2 * n + 1];
                assert_eq!(file.read(&mut buf).expect("reads"), n);
                assert_eq!(&buf[..n], &r[..]);
                assert!(file.eof());
                assert_eq!(file.read(&mut buf).expect("reads"), 0);
                assert_eq!(file.size(), if known { Some(n as u64) } else { None });
            }
        }
    }
}

#[test]
fn file_over_memory_reads_any_window() {
    let r = resource(40);
    let t = Arc::new(MemoryTransport::new(r.clone(), true));
    let fs = HttpFileSystemBuilder::new().transport(t.clone()).chunk_size(7).build(t);
    let mut file = fs.open("http://x", "rb").expect("opens");
    for (p, k) in [(0u64, 5usize), (33, 20), (7, 7), (6, 2), (39, 1), (40, 3), (12, 28)] {
        file.seek(p).expect("seeks");
        let mut buf = vec![0u8; k];
        let n = file.read(&mut buf).expect("reads");
        let end = std::cmp::min(p as usize + k, r.len());
        assert_eq!(n, end - std::cmp::min(p as usize, end));
        assert_eq!(&buf[..n], &r[end - n..end]);
    }
}

#[test]
fn retrying_requests_over_memory_never_fail() {
    let r = resource(15);
    let t = MemoryTransport::new(r.clone(), true);
    let config = pravaha::HttpConfig::default();
    let answer = pravaha::range_with_retry(&t, "http://x", 5, 9, &config).expect("answers");
    assert_eq!(answer.data, r[5..10].to_vec());
    assert_eq!(pravaha::content_length_with_retry(&t, "http://x", &config), Ok(Some(15)));
}

#[test]
fn adapter_over_memory_reads_what_the_file_reads() {
    let r = resource(15);
    let t = Arc::new(MemoryTransport::new(r.clone(), true));
    let fs = HttpFileSystemBuilder::new().transport(t.clone()).chunk_size(4).build(t);
    let file = fs.open("http://x", "r").expect("opens");
    let mut adapter = pravaha::FileAdapter::new(file);
    assert_eq!(adapter.seek(std::io::SeekFrom::End(-5)), Ok(10));
    let mut buf = [0u8; 8];
    assert_eq!(adapter.read(&mut buf), Ok(5));
    assert_eq!(&buf[..5], &r[10..]);
    assert_eq!(adapter.seek(std::io::SeekFrom::Current(-15)), Ok(0));
    assert_eq!(adapter.read(&mut buf), Ok(8));
    assert_eq!(&buf[..], &r[..8]);
}
