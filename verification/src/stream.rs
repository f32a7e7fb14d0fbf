//! Whole-file and single-range streams: the cursor-driven pull loops every
//! other stream shape is built from.

use vstd::prelude::*;

use crate::vfs::{FileAccess, FileHandle, FsError};

verus! {

/// Half-open byte window `[start, end)` into a file.
#[derive(Clone, Copy, Debug, PartialEq, Eq, Structural)]
pub struct ByteRange {
    /// First byte of the window.
    pub start: u64,
    /// One past the last byte of the window.
    pub end: u64,
}

impl ByteRange {
    /// A range is valid for a file of `size` bytes when it is ordered and
    /// lies inside the file. Zero-length ranges are legal.
    pub open spec fn valid_for(&self, size: nat) -> bool {
        self.start <= self.end && self.end <= size
    }
}

/// Upper bound on the bytes requested from the capability in one pull.
/// Frame sizes are not semantically significant: consumers concatenate.
pub const BUF_SIZE: usize = 8192;

/// Streams one contiguous byte window of a file. The cursor starts at the
/// window's start with `remaining = end - start`; each pull issues one
/// bounded read, clamped so the stream never reads past the window's end,
/// and advances the cursor by the bytes actually read.
pub struct FileBytesStreamRange {
    /// Handle of the file being served.
    pub handle: FileHandle,
    /// Absolute offset of the next byte to read.
    pub offset: u64,
    /// Bytes still to emit before the window is exhausted.
    pub remaining: u64,
    /// Whether a read has failed; a failed stream is terminal.
    pub failed: bool,
    /// All data bytes emitted so far, in order.
    pub emitted: Ghost<Seq<u8>>,
}

impl FileBytesStreamRange {
    /// Start of the window being served.
    pub open spec fn start(&self) -> int {
        self.offset - self.emitted@.len()
    }

    /// End (exclusive) of the window being served.
    pub open spec fn end_pos(&self) -> int {
        self.offset + self.remaining
    }

    /// Well-formed w.r.t. capability `fa`: the file exists, the window lies
    /// inside it, and the bytes emitted so far are exactly the part of the
    /// window the cursor has passed.
    pub open spec fn wf<F: FileAccess>(&self, fa: &F) -> bool {
        match fa.file_at(self.handle.id) {
            Some(c) => {
                &&& self.emitted@.len() <= self.offset
                &&& self.offset + self.remaining <= c.len()
                &&& self.offset + self.remaining <= u64::MAX
                &&& self.emitted@ == c.subrange(self.start(), self.offset as int)
            },
            None => false,
        }
    }

    /// The full byte sequence this stream is to emit: the window
    /// `[start, end_pos)` of the backing file.
    pub open spec fn target<F: FileAccess>(&self, fa: &F) -> Seq<u8> {
        fa.file_at(self.handle.id)->Some_0.subrange(self.start(), self.end_pos())
    }

    /// Terminal: the window is exhausted, or a read has failed.
    pub open spec fn done(&self) -> bool {
        self.remaining == 0 || self.failed
    }

    /// A stream over window `range` of the file behind `handle`, its cursor
    /// at `range.start`. A zero-length window is immediately exhausted.
    pub fn new<F: FileAccess>(fa: &F, handle: FileHandle, range: ByteRange) -> (s: Self)
        requires
            fa.file_at(handle.id) matches Some(c) && range.valid_for(c.len()),
        ensures
            s.wf(fa),
            s.handle == handle,
            s.emitted@ == Seq::<u8>::empty(),
            !s.failed,
            s.start() == range.start,
            s.end_pos() == range.end,
    {
        let s = FileBytesStreamRange {
            handle,
            offset: range.start,
            remaining: range.end - range.start,
            failed: false,
            emitted: Ghost(Seq::empty()),
        };
        proof {
            let c = fa.file_at(handle.id)->Some_0;
            assert(s.emitted@ =~= c.subrange(range.start as int, range.start as int));
        }
        s
    }

    /// Pull the next frame: one bounded read at the cursor. Returns a
    /// non-empty data frame, or `None` at end of stream (once the window's
    /// bytes have all been emitted, or after a failure), or the failure
    /// itself, exactly once, after which the stream is terminal. When the
    /// stream ends without failure its emitted bytes are exactly the
    /// window `[start, end_pos)` of the file. A stream that is already
    /// terminal touches neither the capability nor itself.
    pub fn poll_next<F: FileAccess>(&mut self, fa: &mut F) -> (r: Option<
        Result<Vec<u8>, FsError>,
    >)
        requires
            old(self).wf(old(fa)),
        ensures
            final(self).wf(final(fa)),
            forall|i: u64| final(fa).file_at(i) == old(fa).file_at(i),
            final(self).handle == old(self).handle,
            final(self).start() == old(self).start(),
            final(self).end_pos() == old(self).end_pos(),
            match r {
                None => *final(self) == *old(self) && *final(fa) == *old(fa) && old(self).done(),
                Some(Ok(v)) => {
                    &&& v@.len() > 0
                    &&& !old(self).done()
                    &&& !final(self).failed
                    &&& final(self).emitted@ == old(self).emitted@ + v@
                    &&& final(self).remaining < old(self).remaining
                },
                Some(Err(e)) => {
                    &&& e == FsError::IoFailure
                    &&& !old(self).done()
                    &&& final(self).failed
                    &&& final(self).emitted@ == old(self).emitted@
                },
            },
            r is None && !old(self).failed ==> final(self).emitted@ == final(self).target(
                final(fa),
            ),
            final(fa).reads_reliable() == old(fa).reads_reliable(),
            forall|i: u64| final(fa).open_ok(i) == old(fa).open_ok(i),
            old(fa).reads_reliable() && !old(self).done() ==> r matches Some(Ok(_)),
    {
        if self.failed || self.remaining == 0 {
            return None;
        }
        let want: usize = if self.remaining < BUF_SIZE as u64 {
            self.remaining as usize
        } else {
            BUF_SIZE
        };
        match fa.read_at(&self.handle, self.offset, want) {
            Ok(v) => {
                self.emitted = Ghost(self.emitted@ + v@);
                self.offset = self.offset + v.len() as u64;
                self.remaining = self.remaining - v.len() as u64;
                proof {
                    let c = fa.file_at(self.handle.id)->Some_0;
                    assert(self.emitted@ =~= c.subrange(self.start(), self.offset as int));
                }
                Some(Ok(v))
            },
            Err(e) => {
                self.failed = true;
                Some(Err(e))
            },
        }
    }
}

/// Streams an entire file in order: a window covering the whole file, with
/// the size captured at construction.
pub struct FileBytesStream {
    /// The underlying single-range stream over `[0, size)`.
    pub inner: FileBytesStreamRange,
}

impl FileBytesStream {
    /// Well-formed: the inner stream's window is the whole file.
    pub open spec fn wf<F: FileAccess>(&self, fa: &F) -> bool {
        &&& self.inner.wf(fa)
        &&& self.inner.start() == 0
        &&& self.inner.end_pos() == fa.file_at(self.inner.handle.id)->Some_0.len()
    }

    /// The full byte sequence this stream is to emit: the whole file.
    pub open spec fn target<F: FileAccess>(&self, fa: &F) -> Seq<u8> {
        fa.file_at(self.inner.handle.id)->Some_0
    }

    /// Terminal: everything emitted, or failed.
    pub open spec fn done(&self) -> bool {
        self.inner.done()
    }

    /// Construct by capturing the file's current size. A failure of the
    /// size query is reported synchronously, before any frame is produced.
    pub fn new<F: FileAccess>(fa: &mut F, handle: FileHandle) -> (r: Result<Self, FsError>)
        requires
            old(fa).file_at(handle.id) is Some,
        ensures
            forall|i: u64| final(fa).file_at(i) == old(fa).file_at(i),
            forall|i: u64| final(fa).open_ok(i) == old(fa).open_ok(i),
            final(fa).reads_reliable() == old(fa).reads_reliable(),
            r matches Ok(s) ==> {
                &&& s.wf(final(fa))
                &&& s.inner.handle == handle
                &&& s.inner.emitted@ == Seq::<u8>::empty()
                &&& !s.inner.failed
            },
            r matches Err(e) ==> e == FsError::IoFailure,
            old(fa).reads_reliable() ==> r is Ok,
    {
        match fa.size(&handle) {
            Ok(n) => {
                let inner = FileBytesStreamRange::new(&*fa, handle, ByteRange { start: 0, end: n });
                Ok(FileBytesStream { inner })
            },
            Err(e) => Err(e),
        }
    }

    /// Pull the next frame of the whole file; same contract shape as the
    /// single-range pull, with the whole file as the target. When the
    /// stream ends without failure its emitted bytes are exactly the file.
    pub fn poll_next<F: FileAccess>(&mut self, fa: &mut F) -> (r: Option<
        Result<Vec<u8>, FsError>,
    >)
        requires
            old(self).wf(old(fa)),
        ensures
            final(self).wf(final(fa)),
            forall|i: u64| final(fa).file_at(i) == old(fa).file_at(i),
            final(self).inner.handle == old(self).inner.handle,
            match r {
                None => *final(self) == *old(self) && *final(fa) == *old(fa) && old(self).done(),
                Some(Ok(v)) => {
                    &&& v@.len() > 0
                    &&& !old(self).done()
                    &&& !final(self).inner.failed
                    &&& final(self).inner.emitted@ == old(self).inner.emitted@ + v@
                },
                Some(Err(e)) => {
                    &&& e == FsError::IoFailure
                    &&& !old(self).done()
                    &&& final(self).inner.failed
                    &&& final(self).inner.emitted@ == old(self).inner.emitted@
                },
            },
            r is None && !old(self).inner.failed ==> final(self).inner.emitted@ == final(self).target(final(fa)),
            final(fa).reads_reliable() == old(fa).reads_reliable(),
            forall|i: u64| final(fa).open_ok(i) == old(fa).open_ok(i),
            old(fa).reads_reliable() && !old(self).done() ==> r matches Some(Ok(_)),
    {
        let r = self.inner.poll_next(fa);
        proof {
            let c = fa.file_at(self.inner.handle.id)->Some_0;
            assert(c.subrange(0, c.len() as int) =~= c);
        }
        r
    }
}

} // verus!
