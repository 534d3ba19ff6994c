//! A transport that answers from memory: the reference for what a
//! faithful transport is.

use vstd::prelude::*;
use crate::error::FsError;
use crate::laws::{faithful, range_of};
use crate::timing::TimeSpan;
use crate::transport::{BlockingHttp, HttpResponse};

verus! {

/// A transport that serves one resource, held in memory, under every URL.
pub struct MemoryTransport {
    resource: Vec<u8>,
    reports_length: bool,
}

impl MemoryTransport {
    /// The resource served.
    pub closed spec fn spec_resource(&self) -> Seq<u8> {
        self.resource@
    }

    /// Whether a probe learns the length of the resource.
    pub closed spec fn spec_reports_length(&self) -> bool {
        self.reports_length
    }

    /// A transport that serves `resource`, and reports its length where
    /// `reports_length` says so.
    pub fn new(resource: Vec<u8>, reports_length: bool) -> (r: Self)
        ensures
            r.spec_resource() == resource@,
            r.spec_reports_length() == reports_length,
    {
        MemoryTransport { resource, reports_length }
    }
}

impl BlockingHttp for MemoryTransport {
    open spec fn serves_length(&self, url: Seq<char>, length: Option<u64>) -> bool {
        match length {
            Some(n) => self.spec_reports_length() && n == self.spec_resource().len(),
            None => !self.spec_reports_length(),
        }
    }

    open spec fn serves_range(&self, url: Seq<char>, start: u64, end: u64, data: Seq<u8>) -> bool {
        data == range_of(self.spec_resource(), start, end)
    }

    open spec fn length_may_fail(&self, url: Seq<char>, err: FsError) -> bool {
        false
    }

    open spec fn range_may_fail(&self, url: Seq<char>, start: u64, end: u64, err: FsError) -> bool {
        false
    }

    /// The length of the resource, where the transport reports it.
    fn get_content_length(&self, url: &str) -> (r: Result<Option<u64>, FsError>)
        ensures
            r is Ok,
    {
        if self.reports_length {
            Ok(Some(self.resource.len() as u64))
        } else {
            Ok(None)
        }
    }

    /// The bytes of the resource in the range, with status 206; an empty
    /// payload with status 416 for a range that holds none.
    fn get_range(&self, url: &str, start: u64, end: u64) -> (r: Result<HttpResponse, FsError>)
        ensures
            r is Ok,
    {
        let len: usize = self.resource.len();
        if end < start || start >= len as u64 {
            let none: Vec<u8> = Vec::new();
            assert(none@ =~= range_of(self.spec_resource(), start, end));
            return Ok(HttpResponse::new(none, 416, None, None));
        }
        let from: usize = start as usize;
        let to: usize = if end >= (len - 1) as u64 {
            len
        } else {
            (end + 1) as usize
        };
        let mut data: Vec<u8> = Vec::new();
        let mut i: usize = from;
        while i < to
            invariant
                from <= i <= to <= self.resource@.len(),
                data@ == self.resource@.subrange(from as int, i as int),
            decreases to - i,
        {
            data.push(self.resource[i]);
            assert(data@ =~= self.resource@.subrange(from as int, i + 1));
            i = i + 1;
        }
        let size: u64 = (to - from) as u64;
        Ok(HttpResponse::new(data, 206, Some(size), Some((start, (to - 1) as u64))))
    }

    /// Returns at once: memory needs no rest between tries.
    fn pause(&self, delay: TimeSpan) {
    }
}

/// The transport that answers from memory is faithful to its resource, under every URL.
pub proof fn lemma_memory_is_faithful(t: MemoryTransport, url: Seq<char>)
    ensures
        faithful(t, url, t.spec_resource()),
{
}

} // verus!
