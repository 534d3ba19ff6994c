//! Seeking relative to the start, the current offset or the end, on top
//! of the absolute seek of a [`File`].

use vstd::prelude::*;
use std::io::SeekFrom;
use crate::error::{FsError, IoKind};
use crate::file::{failure_of, unchanged, File};
use crate::session::{FileState, HttpFile};
use crate::transport::BlockingHttp;

verus! {

/// `std::io::SeekFrom`, with its three variants.
#[verifier::external_type_specification]
pub struct ExSeekFrom(SeekFrom);

/// `base` moved by `delta`, held within the offsets there are.
pub open spec fn spec_offset_by(base: u64, delta: i64) -> u64 {
    let moved = base + delta;
    if moved < 0 {
        0
    } else if moved > u64::MAX {
        u64::MAX
    } else {
        moved as u64
    }
}

/// Exec counterpart of [`spec_offset_by`].
pub fn offset_by(base: u64, delta: i64) -> (r: u64)
    ensures
        r == spec_offset_by(base, delta),
{
    if delta >= 0 {
        let up: u64 = delta as u64;
        if up > u64::MAX - base {
            u64::MAX
        } else {
            base + up
        }
    } else {
        let down: u64 = if delta == i64::MIN {
            0x8000_0000_0000_0000
        } else {
            (-delta) as u64
        };
        if down > base {
            0
        } else {
            base - down
        }
    }
}

/// The detail of the failure of a seek from an end that is not known.
pub open spec fn no_size_text() -> Seq<char> {
    "Cannot seek from end without known file size"@
}

/// The absolute offset that `pos` names for a file at offset `current`
/// whose size is `size`; none for a seek from the end of a file whose
/// size is not known.
pub open spec fn spec_seek_target(pos: SeekFrom, current: u64, size: Option<u64>) -> Option<u64> {
    match pos {
        SeekFrom::Start(offset) => Some(offset),
        SeekFrom::Current(delta) => Some(spec_offset_by(current, delta)),
        SeekFrom::End(delta) => match size {
            Some(end) => Some(spec_offset_by(end, delta)),
            None => None,
        },
    }
}

/// Resolves `pos` to an absolute offset: see [`spec_seek_target`]. A
/// seek from an unknown end fails as unsupported.
pub fn seek_target(pos: SeekFrom, current: u64, size: Option<u64>) -> (r: Result<u64, FsError>)
    ensures
        match spec_seek_target(pos, current, size) {
            Some(target) => r == Ok::<u64, FsError>(target),
            None => r matches Err(FsError::Io(kind, detail)) && kind == IoKind::Unsupported
                && detail@ == no_size_text(),
        },
{
    match pos {
        SeekFrom::Start(offset) => Ok(offset),
        SeekFrom::Current(delta) => Ok(offset_by(current, delta)),
        SeekFrom::End(delta) => match size {
            Some(end) => Ok(offset_by(end, delta)),
            None => Err(
                FsError::Io(
                    IoKind::Unsupported,
                    "Cannot seek from end without known file size".to_string(),
                ),
            ),
        },
    }
}

/// Wraps a [`File`] for callers that seek relative to the current
/// offset or the end.
pub struct FileAdapter<F: File> {
    inner: F,
}

impl<F: File> FileAdapter<F> {
    /// The file wrapped.
    pub closed spec fn spec_inner(&self) -> F {
        self.inner
    }

    /// The file wrapped is valid.
    pub open spec fn wf(&self) -> bool {
        self.spec_inner().valid()
    }

    /// Wraps `file`.
    pub fn new(file: F) -> (r: Self)
        ensures
            r.spec_inner() == file,
    {
        FileAdapter { inner: file }
    }

    /// Hands the file back.
    pub fn into_inner(self) -> (r: F)
        ensures
            r == self.spec_inner(),
    {
        self.inner
    }

    /// Whether a seek of the file `pre` to `target` may leave it as `post`
    /// and make the adapter return `r`: the file's own seek decides, and
    /// a seek that went well returns `target`.
    pub open spec fn moved(pre: &F, post: &F, target: u64, r: Result<u64, FsError>) -> bool {
        &&& pre.seek_may(post, target, failure_of(r))
        &&& r matches Ok(reached) ==> reached == target
    }

    /// Whether asking the file `pre` for its size may leave it as `post`
    /// and yield `size`.
    pub open spec fn sized(pre: &F, post: &F, size: Option<u64>) -> bool {
        (size is None && unchanged(pre, post)) || pre.size_may(post, size)
    }

    /// Whether a seek of the adapter to `pos` may take the file wrapped
    /// from `pre` to `post` and return `r`. A seek from the start hands
    /// the offset to the file as it is. A seek from the current offset
    /// asks the file for that offset first, one from the end for its size;
    /// the file is then sought to the offset or size moved by the delta.
    /// Where the file knows no size, it is not sought, and the seek fails
    /// as unsupported.
    pub open spec fn seek_went(pre: &F, post: &F, pos: SeekFrom, r: Result<u64, FsError>) -> bool {
        match pos {
            SeekFrom::Start(offset) => Self::moved(pre, post, offset, r),
            SeekFrom::Current(delta) => exists|current: u64| #[trigger]
                pre.tell_may(current) && Self::moved(pre, post, spec_offset_by(current, delta), r),
            SeekFrom::End(delta) => exists|asked: F, size: Option<u64>| #[trigger]
                Self::sized(pre, &asked, size) && match size {
                    Some(end) => Self::moved(&asked, post, spec_offset_by(end, delta), r),
                    None => {
                        &&& unchanged(&asked, post)
                        &&& r matches Err(FsError::Io(kind, detail))
                        &&& kind == IoKind::Unsupported
                        &&& detail@ == no_size_text()
                    },
                },
        }
    }

    /// Reads from the file wrapped: what its read does and returns is
    /// what this read does and returns.
    pub fn read(&mut self, buf: &mut [u8]) -> (r: Result<usize, FsError>)
        requires
            old(self).wf(),
        ensures
            final(self).wf(),
            old(self).spec_inner().read_may(&final(self).spec_inner(), old(buf)@, final(buf)@, r),
    {
        self.inner.read(buf)
    }

    /// Seeks the file wrapped to the offset that `pos` names, asking it
    /// for its offset or its size only where `pos` needs one, and returns
    /// that offset: see [`FileAdapter::seek_went`]. The offset is resolved
    /// by [`seek_target`]; the seek itself fails as the file wrapped makes
    /// it fail.
    pub fn seek(&mut self, pos: SeekFrom) -> (r: Result<u64, FsError>)
        requires
            old(self).wf(),
        ensures
            final(self).wf(),
            Self::seek_went(&old(self).spec_inner(), &final(self).spec_inner(), pos, r),
    {
        let ghost before = self.inner;
        match pos {
            SeekFrom::Start(_) => match seek_target(pos, 0, None) {
                Ok(offset) => self.move_to(offset),
                Err(e) => Err(e),
            },
            SeekFrom::Current(delta) => {
                let current: u64 = self.inner.tell();
                match seek_target(pos, current, None) {
                    Ok(offset) => {
                        let r = self.move_to(offset);
                        proof {
                            assert(before.tell_may(current) && Self::moved(
                                &before,
                                &self.inner,
                                spec_offset_by(current, delta),
                                r,
                            ));
                        }
                        r
                    },
                    Err(e) => Err(e),
                }
            },
            SeekFrom::End(delta) => {
                let size: Option<u64> = self.inner.size();
                let ghost asked = self.inner;
                match seek_target(pos, 0, size) {
                    Ok(offset) => {
                        let r = self.move_to(offset);
                        proof {
                            assert(Self::sized(&before, &asked, size) && Self::moved(
                                &asked,
                                &self.inner,
                                spec_offset_by(size.unwrap(), delta),
                                r,
                            ));
                        }
                        r
                    },
                    Err(e) => {
                        proof {
                            assert(Self::sized(&before, &asked, size) && unchanged(
                                &asked,
                                &self.inner,
                            ));
                        }
                        Err(e)
                    },
                }
            },
        }
    }

    /// Seeks the file wrapped to `target` and returns `target`, or fails
    /// as the file wrapped does.
    fn move_to(&mut self, target: u64) -> (r: Result<u64, FsError>)
        requires
            old(self).wf(),
        ensures
            final(self).wf(),
            Self::moved(&old(self).spec_inner(), &final(self).spec_inner(), target, r),
    {
        match self.inner.seek(target) {
            Ok(()) => Ok(target),
            Err(e) => Err(e),
        }
    }
}

impl<T: BlockingHttp> HttpFile<T> {
    /// Seeks to the offset that `pos` names and returns it. A seek from
    /// the end probes the size first, if that was never done, and fails
    /// as unsupported where none is known; a closed file has no size.
    /// With a size that is remembered, it succeeds without a probe.
    /// Any other seek on a closed file fails as [`File::seek`] does.
    pub fn seek_from(&mut self, pos: SeekFrom) -> (r: Result<u64, FsError>)
        requires
            old(self).wf(),
        ensures
            final(self).wf(),
            final(self).model_transport() == old(self).model_transport(),
            final(self).model_cache() == old(self).model_cache(),
            pos matches SeekFrom::End(delta) ==> (old(self)@.size matches Some(Some(end)) ==> (
            !old(self)@.closed ==> r == Ok::<u64, FsError>(spec_offset_by(end, delta)))),
            pos matches SeekFrom::End(_) && (old(self)@.closed || old(self)@.size == Some(
                None::<u64>,
            )) ==> r is Err,
            match pos {
                SeekFrom::End(delta) => match r {
                    Ok(target) => {
                        &&& !old(self)@.closed
                        &&& final(self)@.size matches Some(Some(end))
                        &&& target == spec_offset_by(end, delta)
                        &&& final(self)@ == (FileState {
                            size: final(self)@.size,
                            ..old(self)@
                        }).after_seek(target)
                        &&& old(self)@.size is Some ==> final(self)@.size == old(self)@.size
                    },
                    Err(e) => e matches FsError::Io(kind, _) && kind == IoKind::Unsupported,
                },
                _ => if old(self)@.closed {
                    r == Err::<u64, FsError>(FsError::FileClosed) && final(self)@ == old(self)@
                } else {
                    let target = spec_seek_target(pos, old(self)@.offset, None).unwrap();
                    r == Ok::<u64, FsError>(target) && final(self)@ == old(self)@.after_seek(target)
                },
            },
    {
        let target: Result<u64, FsError> = match pos {
            SeekFrom::Start(_) => seek_target(pos, 0, None),
            SeekFrom::Current(_) => {
                let current: u64 = self.tell();
                seek_target(pos, current, None)
            },
            SeekFrom::End(_) => {
                let size: Option<u64> = self.size();
                seek_target(pos, 0, size)
            },
        };
        match target {
            Err(e) => Err(e),
            Ok(offset) => match self.seek(offset) {
                Ok(()) => Ok(offset),
                Err(e) => Err(e),
            },
        }
    }
}

} // verus!
