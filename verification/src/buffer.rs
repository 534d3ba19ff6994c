//! The resident chunk of a file: one payload and the file offsets it covers.

use vstd::prelude::*;
use std::sync::Arc;
use crate::cache::Payload;

verus! {

/// A payload without bytes.
pub fn empty_bytes() -> (r: Payload)
    ensures
        r@.len() == 0,
{
    Arc::new(Vec::new())
}

/// The bytes of the file that are resident: `data` covers the offsets from
/// `buffer_start` up to, not including, `buffer_end`.
pub struct RangeBuffer {
    data: Payload,
    buffer_start: u64,
    buffer_end: u64,
}

impl RangeBuffer {
    /// The resident bytes.
    pub closed spec fn bytes(&self) -> Seq<u8> {
        self.data@
    }

    /// First file offset covered.
    pub closed spec fn start(&self) -> u64 {
        self.buffer_start
    }

    /// First file offset past the resident bytes; zero when nothing is resident.
    pub closed spec fn spec_end(&self) -> u64 {
        self.buffer_end
    }

    /// The end is the start plus the number of bytes, and an empty buffer ends at zero.
    pub open spec fn wf(&self) -> bool {
        &&& self.start() + self.bytes().len() == self.spec_end()
        &&& self.bytes().len() == 0 ==> self.spec_end() == 0
    }

    /// Whether `file_offset` is resident.
    pub open spec fn spec_contains(&self, file_offset: u64) -> bool {
        self.start() <= file_offset < self.spec_end()
    }

    /// The number of bytes a read at `file_offset` into `room` bytes copies.
    pub open spec fn copy_len(&self, file_offset: u64, room: nat) -> nat {
        if self.spec_contains(file_offset) {
            let left = (self.spec_end() - file_offset) as nat;
            if left <= room {
                left
            } else {
                room
            }
        } else {
            0
        }
    }

    /// A buffer with nothing resident.
    pub fn new() -> (r: RangeBuffer)
        ensures
            r.wf(),
            r.bytes().len() == 0,
            r.start() == 0,
            r.spec_end() == 0,
    {
        RangeBuffer { data: empty_bytes(), buffer_start: 0, buffer_end: 0 }
    }

    /// Makes `data` the resident chunk, covering `file_start` up to `file_end`.
    pub fn set_data(&mut self, data: Payload, file_start: u64, file_end: u64)
        requires
            file_start + data@.len() == file_end,
            data@.len() == 0 ==> file_end == 0,
        ensures
            final(self).wf(),
            final(self).bytes() == data@,
            final(self).start() == file_start,
            final(self).spec_end() == file_end,
    {
        self.data = data;
        self.buffer_start = file_start;
        self.buffer_end = file_end;
    }

    /// Whether `file_offset` is resident.
    pub fn contains(&self, file_offset: u64) -> (r: bool)
        ensures
            r == self.spec_contains(file_offset),
    {
        file_offset >= self.buffer_start && file_offset < self.buffer_end
    }

    /// Copies resident bytes, from `file_offset` on, into `out` from `at`
    /// on: as many as are resident and fit. Returns their number, zero when
    /// `file_offset` is not resident; the rest of `out` keeps its bytes.
    pub fn read_at(&self, out: &mut [u8], at: usize, file_offset: u64) -> (n: usize)
        requires
            self.wf(),
            at <= old(out)@.len(),
        ensures
            n == self.copy_len(file_offset, (old(out)@.len() - at) as nat),
            final(out)@.len() == old(out)@.len(),
            self.spec_contains(file_offset) ==> final(out)@.subrange(at as int, at + n)
                == self.bytes().subrange(
                file_offset - self.start(),
                file_offset - self.start() + n,
            ),
            forall|i: int|
                0 <= i < old(out)@.len() && !(at <= i < at + n) ==> final(out)@[i] == old(out)@[i],
    {
        if !self.contains(file_offset) {
            return 0;
        }
        let buffer_offset: usize = (file_offset - self.buffer_start) as usize;
        let available: usize = self.data.len() - buffer_offset;
        let room: usize = out.len() - at;
        let to_copy: usize = if available <= room {
            available
        } else {
            room
        };
        let mut i: usize = 0;
        while i < to_copy
            invariant
                self.wf(),
                i <= to_copy,
                buffer_offset + to_copy <= self.data@.len(),
                at + to_copy <= out@.len() <= usize::MAX,
                self.data@.len() <= usize::MAX,
                out@.len() == old(out)@.len(),
                forall|j: int|
                    at <= j < at + i ==> #[trigger] out@[j] == self.data@[buffer_offset + (j - at)],
                forall|j: int|
                    0 <= j < out@.len() && !(at <= j < at + i) ==> out@[j] == old(out)@[j],
            decreases to_copy - i,
        {
            out[at + i] = self.data[buffer_offset + i];
            i = i + 1;
        }
        assert(out@.subrange(at as int, at + to_copy) =~= self.bytes().subrange(
            file_offset - self.start(),
            file_offset - self.start() + to_copy,
        ));
        to_copy
    }

    /// Copies resident bytes, from `file_offset` on, to the front of `out`;
    /// see [`RangeBuffer::read_at`].
    pub fn read(&self, out: &mut [u8], file_offset: u64) -> (n: usize)
        requires
            self.wf(),
        ensures
            n == self.copy_len(file_offset, old(out)@.len()),
            final(out)@.len() == old(out)@.len(),
            self.spec_contains(file_offset) ==> final(out)@.subrange(0, n as int)
                == self.bytes().subrange(
                file_offset - self.start(),
                file_offset - self.start() + n,
            ),
            forall|i: int| n <= i < old(out)@.len() ==> final(out)@[i] == old(out)@[i],
    {
        self.read_at(out, 0, file_offset)
    }

    /// Drops the resident chunk.
    pub fn clear(&mut self)
        ensures
            final(self).wf(),
            final(self).bytes().len() == 0,
            final(self).start() == 0,
            final(self).spec_end() == 0,
    {
        self.data = empty_bytes();
        self.buffer_start = 0;
        self.buffer_end = 0;
    }

    /// First file offset past the resident bytes; zero when nothing is resident.
    pub fn end(&self) -> (r: u64)
        ensures
            r == self.spec_end(),
    {
        self.buffer_end
    }

    /// First file offset covered.
    pub fn begin(&self) -> (r: u64)
        ensures
            r == self.start(),
    {
        self.buffer_start
    }
}

} // verus!
