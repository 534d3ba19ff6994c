//! The interfaces a caller reads through.

use vstd::prelude::*;
use crate::error::FsError;

verus! {

/// Whether `post` is the value `pre`, as it was.
pub open spec fn unchanged<F: ?Sized>(pre: &F, post: &F) -> bool {
    pre == post
}

/// The error of a result that is one; `None` for a success.
pub open spec fn failure_of<V>(r: Result<V, FsError>) -> Option<FsError> {
    match r {
        Ok(_) => None,
        Err(err) => Some(err),
    }
}

/// A readable, seekable file.
///
/// The four relations say what the calls of an implementation may do
/// and return. One that leaves them alone promises nothing about its
/// calls; one that defines them is held to them by its callers' proofs.
pub trait File: Send {
    /// What the implementation needs to hold of itself between calls. An
    /// implementation that leaves this alone needs nothing.
    open spec fn valid(&self) -> bool {
        true
    }

    /// Whether a read into a buffer that held `before` may leave the file
    /// as `post`, the buffer holding `after`, and return `r`.
    open spec fn read_may(
        &self,
        post: &Self,
        before: Seq<u8>,
        after: Seq<u8>,
        r: Result<usize, FsError>,
    ) -> bool {
        true
    }

    /// Whether a seek to `pos` may leave the file as `post`, and succeed
    /// where `failure` is `None` or fail with the error that it holds.
    open spec fn seek_may(&self, post: &Self, pos: u64, failure: Option<FsError>) -> bool {
        true
    }

    /// Whether the file may tell `r` as its offset.
    open spec fn tell_may(&self, r: u64) -> bool {
        true
    }

    /// Whether asking for the size may leave the file as `post` and return `r`.
    open spec fn size_may(&self, post: &Self, r: Option<u64>) -> bool {
        true
    }

    /// Reads up to `buf.len()` bytes into the front of `buf` and returns
    /// their number; zero for an empty `buf` or at the end of the file.
    fn read(&mut self, buf: &mut [u8]) -> (r: Result<usize, FsError>)
        requires
            old(self).valid(),
        ensures
            final(self).valid(),
            old(self).read_may(&*final(self), old(buf)@, final(buf)@, r),
    ;

    /// Moves to the absolute offset `pos`, which may lie past the end.
    fn seek(&mut self, pos: u64) -> (r: Result<(), FsError>)
        requires
            old(self).valid(),
        ensures
            final(self).valid(),
            old(self).seek_may(&*final(self), pos, failure_of(r)),
    ;

    /// The current absolute offset.
    fn tell(&self) -> (r: u64)
        requires
            self.valid(),
        ensures
            self.tell_may(r),
    ;

    /// Whether the end of the file was seen.
    fn eof(&self) -> (r: bool)
        requires
            self.valid(),
    ;

    /// The size of the file, where it is known. A file that does not say
    /// otherwise knows none: it answers `None` and stays as it is.
    fn size(&mut self) -> (r: Option<u64>)
        requires
            old(self).valid(),
        ensures
            final(self).valid(),
            (r is None && unchanged(old(self), &*final(self))) || old(self).size_may(
                &*final(self),
                r,
            ),
    {
        None
    }

    /// Closes the file; closing a closed file does nothing.
    fn close(&mut self)
        requires
            old(self).valid(),
        ensures
            final(self).valid(),
    {
    }
}

/// A source of files.
pub trait FileSystem: Send + Sync {
    /// The files this filesystem opens.
    type Handle: File;

    /// What the implementation needs to hold of itself. An implementation
    /// that leaves this alone needs nothing.
    open spec fn valid(&self) -> bool {
        true
    }

    /// Opens `path` in `mode`.
    fn open(&self, path: &str, mode: &str) -> (r: Result<Self::Handle, FsError>)
        requires
            self.valid(),
        ensures
            r matches Ok(file) ==> file.valid(),
    ;
}

} // verus!
