//! What a file hands out when its transport answers from one fixed resource.

use vstd::prelude::*;
use crate::config::HttpConfig;
use crate::error::FsError;
use crate::file::File;
use crate::session::{
    chain_link, ends_resource, read_failed, read_went, refill_chain, vouched_byte, FileState,
    HttpFile,
};
use crate::transport::BlockingHttp;

verus! {

/// The payload that a request for the bytes `start` to `end`, inclusive,
/// gets from `resource`: the bytes that exist in that range.
pub open spec fn range_of(resource: Seq<u8>, start: u64, end: u64) -> Seq<u8> {
    if start >= resource.len() || end < start {
        Seq::empty()
    } else if end + 1 >= resource.len() {
        resource.subrange(start as int, resource.len() as int)
    } else {
        resource.subrange(start as int, end + 1)
    }
}

/// The transport answers for `url` from `resource`: every payload is the
/// part of the resource that was asked for, and every length it reports
/// is the length of the resource.
pub open spec fn faithful<T: BlockingHttp>(t: T, url: Seq<char>, resource: Seq<u8>) -> bool {
    &&& forall|start: u64, end: u64, data: Seq<u8>| #[trigger]
        t.serves_range(url, start, end, data) ==> data == range_of(resource, start, end)
    &&& forall|n: u64| #[trigger] t.serves_length(url, Some(n)) ==> n == resource.len()
}

/// A byte that a faithful transport vouches for is the byte of the resource at that offset.
pub proof fn lemma_vouched_byte_is_resource_byte<T: BlockingHttp>(
    t: T,
    url: Seq<char>,
    config: HttpConfig,
    resource: Seq<u8>,
    pos: u64,
    b: u8,
)
    requires
        faithful(t, url, resource),
        vouched_byte(t, url, config, pos, b),
    ensures
        pos < resource.len(),
        resource[pos as int] == b,
{
    let (start, data) = choose|start: u64, data: Seq<u8>|
        {
            &&& #[trigger] t.serves_range(url, start, config.spec_range_end(start), data)
            &&& start <= pos < start + data.len()
            &&& data[pos - start] == b
        };
    assert(data == range_of(resource, start, config.spec_range_end(start)));
}

/// Reads return the resource: with a faithful transport, the `n` bytes
/// that a read at offset `p` handed out are the bytes `p` to `p + n` of
/// the resource, and a read that stopped short of its room stopped at or
/// past the end. Reads one after the other therefore return the
/// resource from where the first began, piece by piece and without gaps.
pub proof fn lemma_read_returns_resource<T: BlockingHttp>(
    t: T,
    resource: Seq<u8>,
    pre: FileState,
    post: FileState,
    out: Seq<u8>,
    n: usize,
)
    requires
        faithful(t, pre.url, resource),
        post.vouched_by(t),
        !pre.closed,
        n <= out.len(),
        read_went(pre, post, n, out.len()),
        forall|i: int|
            0 <= i < n ==> vouched_byte(t, post.url, post.config, (pre.offset + i) as u64, #[trigger] out[i]),
    ensures
        n > 0 ==> pre.offset + n <= resource.len(),
        n > 0 ==> out.take(n as int) == resource.subrange(pre.offset as int, pre.offset + n),
        n < out.len() ==> post.offset >= resource.len(),
        pre.offset <= resource.len() && n < out.len() ==> pre.offset + n == resource.len(),
{
    if n > 0 {
        assert forall|i: int| 0 <= i < n implies pre.offset + i < resource.len() && #[trigger] out[i]
            == resource[pre.offset + i] by {
            lemma_vouched_byte_is_resource_byte(
                t,
                post.url,
                post.config,
                resource,
                (pre.offset + i) as u64,
                out[i],
            );
        }
        assert(out[n - 1] == resource[pre.offset + (n - 1)]);
        assert(out.take(n as int) =~= resource.subrange(pre.offset as int, pre.offset + n));
    }
    if n < out.len() {
        lemma_end_seen_is_end(t, resource, post);
    }
}

/// Where the end was seen and the offset is not resident, a faithful
/// transport has no byte at the offset: the file is at or past the end
/// of the resource.
pub proof fn lemma_end_seen_is_end<T: BlockingHttp>(t: T, resource: Seq<u8>, s: FileState)
    requires
        faithful(t, s.url, resource),
        s.vouched_by(t),
        !s.closed,
        s.eof,
        !s.resident(s.offset),
    ensures
        s.offset >= resource.len(),
{
    if s.buffer.len() == 0 {
        assert(range_of(resource, s.offset, s.range_end()) == Seq::<u8>::empty());
        if s.offset < resource.len() {
            assert(range_of(resource, s.offset, s.range_end()).len() > 0);
        }
    } else {
        let last = s.config.spec_range_end(s.buffer_start);
        assert(s.buffer == range_of(resource, s.buffer_start, last));
        assert(s.offset == s.buffer_end());
        match s.size {
            Some(Some(size)) => {
                assert(size == resource.len());
            },
            _ => {},
        }
    }
}

/// Reading until the size: with a faithful transport, a read from
/// offset zero into more room than the resource is long returns exactly
/// the resource and leaves the file at its end with the end seen.
pub proof fn lemma_read_until_size<T: BlockingHttp>(
    t: T,
    resource: Seq<u8>,
    pre: FileState,
    post: FileState,
    out: Seq<u8>,
    n: usize,
)
    requires
        faithful(t, pre.url, resource),
        post.vouched_by(t),
        !pre.closed,
        pre.offset == 0,
        out.len() > resource.len(),
        n <= out.len(),
        read_went(pre, post, n, out.len()),
        forall|i: int|
            0 <= i < n ==> vouched_byte(t, post.url, post.config, (pre.offset + i) as u64, #[trigger] out[i]),
    ensures
        n == resource.len(),
        out.take(n as int) == resource,
        post.eof,
        post.offset == resource.len(),
        !post.resident(post.offset),
{
    lemma_read_returns_resource(t, resource, pre, post, out, n);
    if n > 0 {
        assert(resource.subrange(0, n as int) =~= resource);
    } else {
        assert(out.take(0) =~= resource);
    }
}

/// A read does not depend on what came before: with a faithful
/// transport, two files at the same offset, whatever they hold, read the
/// same bytes into the same room. So a read after a seek to `p` returns
/// what a fresh file that starts at `p` returns.
pub proof fn lemma_read_is_history_free<T: BlockingHttp>(
    t: T,
    resource: Seq<u8>,
    pre1: FileState,
    post1: FileState,
    out1: Seq<u8>,
    n1: usize,
    pre2: FileState,
    post2: FileState,
    out2: Seq<u8>,
    n2: usize,
)
    requires
        faithful(t, pre1.url, resource),
        pre1.url == pre2.url,
        pre1.offset == pre2.offset,
        out1.len() == out2.len(),
        post1.vouched_by(t),
        post2.vouched_by(t),
        !pre1.closed,
        !pre2.closed,
        n1 <= out1.len(),
        n2 <= out2.len(),
        read_went(pre1, post1, n1, out1.len()),
        read_went(pre2, post2, n2, out2.len()),
        forall|i: int|
            0 <= i < n1 ==> vouched_byte(t, post1.url, post1.config, (pre1.offset + i) as u64, #[trigger] out1[i]),
        forall|i: int|
            0 <= i < n2 ==> vouched_byte(t, post2.url, post2.config, (pre2.offset + i) as u64, #[trigger] out2[i]),
    ensures
        n1 == n2,
        out1.take(n1 as int) == out2.take(n2 as int),
{
    lemma_read_returns_resource(t, resource, pre1, post1, out1, n1);
    lemma_read_returns_resource(t, resource, pre2, post2, out2, n2);
    if n1 == 0 && n2 == 0 {
        assert(out1.take(0) =~= out2.take(0));
    }
}

/// A seek takes the file where it was told to: after `seek(p)` on an
/// open file, the offset is `p`, the end is not seen and the prefetch
/// slot is empty; a second seek to `p` changes nothing more.
pub proof fn lemma_seek_then_tell(s: FileState, p: u64)
    ensures
        s.after_seek(p).offset == p,
        !s.after_seek(p).eof,
        s.after_seek(p).prefetch is None,
        s.after_seek(p).after_seek(p) == s.after_seek(p),
{
    assert(s.after_seek(p).after_seek(p) =~= s.after_seek(p));
}

/// Closing twice is closing once.
pub proof fn lemma_close_is_idempotent(s: FileState)
    ensures
        s.after_close().closed,
        s.after_close().after_close() == s.after_close(),
{
}

/// A read that returned bytes but did not start where the last one
/// ended leaves the prefetch slot empty.
pub proof fn lemma_jump_empties_slot(pre: FileState, post: FileState, n: usize, room: nat)
    requires
        read_went(pre, post, n, room),
        n > 0,
        pre.last_read_end matches Some(prev_end) && prev_end != pre.offset,
    ensures
        post.prefetch is None,
{
}

/// The transport never fails a request for a range of `url`.
pub open spec fn unfailing<T: BlockingHttp>(t: T, url: Seq<char>) -> bool {
    forall|start: u64, end: u64, err: FsError| !#[trigger] t.range_may_fail(url, start, end, err)
}

/// Success is owed where nothing can fail: a read of an open file
/// without a prefetch worker, over a transport that is faithful to a
/// resource and never fails, has no failure to return.
pub proof fn lemma_unfailing_read_succeeds<T: BlockingHttp>(
    t: T,
    resource: Seq<u8>,
    pre: FileState,
    err: FsError,
)
    requires
        faithful(t, pre.url, resource),
        unfailing(t, pre.url),
        resource.len() <= u64::MAX,
        !pre.closed,
        !pre.worker,
    ensures
        !read_failed(t, pre, err),
{
    if read_failed(t, pre, err) {
        if exists|start: u64|
            pre.offset <= start && #[trigger] t.range_may_fail(
                pre.url,
                start,
                pre.config.spec_range_end(start),
                err,
            ) {
        } else {
            let (start, data) = choose|start: u64, data: Seq<u8>|
                {
                    &&& pre.offset <= start
                    &&& #[trigger] t.serves_range(
                        pre.url,
                        start,
                        pre.config.spec_range_end(start),
                        data,
                    )
                    &&& start + data.len() > u64::MAX
                };
            assert(data == range_of(resource, start, pre.config.spec_range_end(start)));
        }
    }
}

/// Reading until the size, in full: a read of a fresh file into more
/// room than the resource is long, over a transport that is faithful
/// and never fails, returns the length of the resource, hands out the
/// resource, leaves the rest of the buffer as it was, and leaves the
/// file at the end with the end seen; the read after it returns zero.
pub proof fn lemma_read_until_size_is_owed<T: BlockingHttp>(
    pre: HttpFile<T>,
    post: HttpFile<T>,
    resource: Seq<u8>,
    before: Seq<u8>,
    after: Seq<u8>,
    r: Result<usize, FsError>,
)
    requires
        post.wf(),
        pre.read_may(&post, before, after, r),
        faithful(pre.model_transport(), pre@.url, resource),
        unfailing(pre.model_transport(), pre@.url),
        !pre@.closed,
        !pre@.worker,
        pre@.offset == 0,
        resource.len() < before.len(),
        before.len() <= usize::MAX,
    ensures
        r == Ok::<usize, FsError>(resource.len() as usize),
        after.take(resource.len() as int) == resource,
        forall|i: int| resource.len() <= i < before.len() ==> after[i] == before[i],
        post@.eof,
        post@.offset == resource.len(),
        forall|next: HttpFile<T>, out: Seq<u8>, again: Result<usize, FsError>|
            out.len() > 0 && #[trigger] post.read_may(&next, out, out, again) ==> again == Ok::<
                usize,
                FsError,
            >(0),
{
    let t = pre.model_transport();
    match r {
        Err(err) => {
            lemma_unfailing_read_succeeds(t, resource, pre@, err);
        },
        Ok(n) => {
            lemma_read_until_size(t, resource, pre@, post@, after, n);
        },
    }
}

/// Reads one after the other return the resource piece by piece: a read
/// of an open file without a prefetch worker, over a transport that is
/// faithful and never fails, returns the bytes of the resource from the
/// offset on, as many as there is room for or as are left, and leaves
/// the file behind them.
pub proof fn lemma_read_is_owed<T: BlockingHttp>(
    pre: HttpFile<T>,
    post: HttpFile<T>,
    resource: Seq<u8>,
    before: Seq<u8>,
    after: Seq<u8>,
    r: Result<usize, FsError>,
)
    requires
        post.wf(),
        pre.read_may(&post, before, after, r),
        faithful(pre.model_transport(), pre@.url, resource),
        unfailing(pre.model_transport(), pre@.url),
        resource.len() <= u64::MAX,
        !pre@.closed,
        !pre@.worker,
        before.len() <= usize::MAX,
    ensures
        r matches Ok(n) && {
            &&& n == if pre@.offset >= resource.len() {
                0
            } else if before.len() <= resource.len() - pre@.offset {
                before.len() as int
            } else {
                resource.len() - pre@.offset
            }
            &&& n > 0 ==> after.take(n as int) == resource.subrange(
                pre@.offset as int,
                pre@.offset + n,
            )
            &&& forall|i: int| n <= i < before.len() ==> after[i] == before[i]
            &&& post@.offset == pre@.offset + n
            &&& !post@.worker
        },
{
    let t = pre.model_transport();
    match r {
        Err(err) => {
            lemma_unfailing_read_succeeds(t, resource, pre@, err);
        },
        Ok(n) => {
            lemma_read_returns_resource(t, resource, pre@, post@, after, n);
        },
    }
}

/// A read that begins at an offset that is not resident, and ends
/// inside the first chunk it asks for, has made that one request: the
/// chunk of the resource at the offset is resident after it, and the
/// end is seen as [`ends_resource`] says of that chunk.
pub proof fn lemma_read_leaves_first_chunk<T: BlockingHttp>(
    t: T,
    resource: Seq<u8>,
    pre: FileState,
    post: FileState,
    starts: Seq<u64>,
    chunks: Seq<Seq<u8>>,
)
    requires
        faithful(t, pre.url, resource),
        refill_chain(t, pre, post, starts, chunks),
        !pre.resident(pre.offset),
        pre.offset < post.offset,
        post.offset < pre.offset + range_of(resource, pre.offset, pre.range_end()).len(),
    ensures
        starts.len() == 1,
        post.buffer_start == pre.offset,
        post.buffer == range_of(resource, pre.offset, pre.range_end()),
        post.size is Some,
        post.eof == ends_resource(
            post.size.unwrap(),
            pre.offset,
            post.buffer.len(),
            pre.expected_size(),
            pre.buffer_end(),
        ),
{
    reveal(refill_chain);
    let first = range_of(resource, pre.offset, pre.range_end());
    assert(starts.len() > 0);
    assert(chain_link(t, pre, starts, chunks, 0));
    assert(chunks[0] == first);
    if starts.len() > 1 {
        assert(chain_link(t, pre, starts, chunks, 1));
        assert(starts[1] <= post.offset);
    }
}

/// A read after a seek is the read of a fresh file: two open files
/// without a prefetch worker that stand at the same offset of the same
/// URL, whatever else they hold, read into the same room with the same
/// result and the same bytes, over a transport that is faithful and
/// never fails. A file that was just sought, and one that was just
/// opened and sought, are two such files.
pub proof fn lemma_read_after_seek_is_fresh<T: BlockingHttp>(
    used: HttpFile<T>,
    used_after: HttpFile<T>,
    fresh: HttpFile<T>,
    fresh_after: HttpFile<T>,
    resource: Seq<u8>,
    before: Seq<u8>,
    used_out: Seq<u8>,
    fresh_out: Seq<u8>,
    used_result: Result<usize, FsError>,
    fresh_result: Result<usize, FsError>,
)
    requires
        used_after.wf(),
        fresh_after.wf(),
        used.read_may(&used_after, before, used_out, used_result),
        fresh.read_may(&fresh_after, before, fresh_out, fresh_result),
        used.model_transport() == fresh.model_transport(),
        used@.url == fresh@.url,
        used@.offset == fresh@.offset,
        faithful(used.model_transport(), used@.url, resource),
        unfailing(used.model_transport(), used@.url),
        resource.len() <= u64::MAX,
        !used@.closed && !used@.worker,
        !fresh@.closed && !fresh@.worker,
        before.len() <= usize::MAX,
    ensures
        used_result == fresh_result,
        used_result is Ok,
        used_out == fresh_out,
{
    lemma_read_is_owed(used, used_after, resource, before, used_out, used_result);
    lemma_read_is_owed(fresh, fresh_after, resource, before, fresh_out, fresh_result);
    let n = used_result->Ok_0 as int;
    assert(used_out.len() == before.len() && fresh_out.len() == before.len());
    assert forall|i: int| 0 <= i < before.len() implies used_out[i] == fresh_out[i] by {
        if i < n {
            assert(used_out[i] == used_out.take(n)[i]);
            assert(fresh_out[i] == fresh_out.take(n)[i]);
        }
    }
    assert(used_out =~= fresh_out);
}

/// A prefetch is scheduled once: a file whose slot was set to the goal
/// has no goal left, so that scheduling again changes nothing, until
/// the file moves on.
pub proof fn lemma_scheduling_once(s: FileState, goal: (u64, u64))
    requires
        s.prefetch_goal() == Some(goal),
    ensures
        s.scheduled(goal).prefetch == Some(goal),
        !s.scheduled(goal).worker,
        s.scheduled(goal).prefetch_goal() is None,
        s.scheduled(goal).next_chunk_due() == Some(goal),
{
}

} // verus!
