//! The body dispatcher: a closed set of stream shapes behind one uniform
//! "next frame" pull contract, the single type the serving layer depends
//! on. It adds no buffering and no state beyond the selected variant; each
//! pull flows straight through to the wrapped stream and its result is
//! forwarded unchanged.

use vstd::prelude::*;

use crate::multifile::{lemma_files_prefix_stable, sources_exist, MultiFileBytesStream};
use crate::multipart::FileBytesStreamMultiRange;
use crate::stream::{FileBytesStream, FileBytesStreamRange};
use crate::vfs::{FileAccess, FsError};

verus! {

/// Body of a response: no body at all, or one of the four stream shapes.
pub enum Body {
    /// No response body: immediately and permanently at end of stream.
    Empty,
    /// Serve a complete file.
    Full(FileBytesStream),
    /// Serve a range from a file.
    Range(FileBytesStreamRange),
    /// Serve multiple ranges from a file.
    MultiRange(FileBytesStreamMultiRange),
    /// Serve from multiple files.
    MultiFiles(MultiFileBytesStream),
}

impl Body {
    /// The wrapped stream is well-formed w.r.t. capability `fa`.
    pub open spec fn wf<F: FileAccess>(&self, fa: &F) -> bool {
        match self {
            Body::Empty => true,
            Body::Full(s) => s.wf(fa),
            Body::Range(s) => s.wf(fa),
            Body::MultiRange(s) => s.wf(fa),
            Body::MultiFiles(s) => s.wf(fa),
        }
    }

    /// All bytes emitted so far by the wrapped stream.
    pub open spec fn emitted(&self) -> Seq<u8> {
        match self {
            Body::Empty => Seq::empty(),
            Body::Full(s) => s.inner.emitted@,
            Body::Range(s) => s.emitted@,
            Body::MultiRange(s) => s.emitted@,
            Body::MultiFiles(s) => s.emitted@,
        }
    }

    /// The full byte sequence this body is to emit: nothing, the whole
    /// file, the window, the multipart message, or the concatenation.
    pub open spec fn target<F: FileAccess>(&self, fa: &F) -> Seq<u8> {
        match self {
            Body::Empty => Seq::empty(),
            Body::Full(s) => s.target(fa),
            Body::Range(s) => s.target(fa),
            Body::MultiRange(s) => s.target(fa),
            Body::MultiFiles(s) => s.target(fa),
        }
    }

    /// Whether the wrapped stream has failed.
    pub open spec fn failed(&self) -> bool {
        match self {
            Body::Empty => false,
            Body::Full(s) => s.inner.failed,
            Body::Range(s) => s.failed,
            Body::MultiRange(s) => s.failed,
            Body::MultiFiles(s) => s.failed,
        }
    }

    /// Terminal: no more frames will ever be produced.
    pub open spec fn is_done(&self) -> bool {
        match self {
            Body::Empty => true,
            Body::Full(s) => s.done(),
            Body::Range(s) => s.done(),
            Body::MultiRange(s) => s.is_done(),
            Body::MultiFiles(s) => s.is_done(),
        }
    }

    /// Every backing source exists. Only the multi-file shape can still
    /// discover a missing source after construction; every other shape
    /// knows its file exists while well-formed.
    pub open spec fn sources_ok<F: FileAccess>(&self, fa: &F) -> bool {
        match self {
            Body::MultiFiles(s) => sources_exist(fa, s.idents@, s.idents@.len() as int),
            _ => true,
        }
    }

    /// The body had, at the given state, nothing more to emit: it may
    /// report end of stream only from here. This is `is_done` for every
    /// shape but the multi-file one, whose lazy opening can leave sources
    /// to advance past (each exhausted or empty) after the last byte.
    pub open spec fn at_end<F: FileAccess>(&self, fa: &F) -> bool {
        match self {
            Body::Empty => true,
            Body::Full(s) => s.done(),
            Body::Range(s) => s.done(),
            Body::MultiRange(s) => s.is_done(),
            Body::MultiFiles(s) => s.failed || s.exhausted(fa),
        }
    }

    /// The capability promises this body everything it needs to succeed:
    /// reliable reads, and — for the multi-file shape, which opens sources
    /// as it goes — openable sources. Under this promise a pull never
    /// surfaces a failure.
    pub open spec fn reliable_inputs<F: FileAccess>(&self, fa: &F) -> bool {
        &&& fa.reads_reliable()
        &&& match self {
            Body::MultiFiles(s) => forall|j: int|
                0 <= j < s.idents@.len() ==> fa.open_ok(#[trigger] s.idents@[j]),
            _ => true,
        }
    }

    /// Pull the next frame and forward the wrapped stream's result
    /// unchanged: a non-empty data frame, or `None` at end of stream
    /// (immediately and permanently, for `Empty`), or the failure that
    /// aborted the stream. When the body ends without failure its emitted
    /// bytes are exactly its target sequence.
    pub fn poll_frame<F: FileAccess>(&mut self, fa: &mut F) -> (r: Option<
        Result<Vec<u8>, FsError>,
    >)
        requires
            old(self).wf(old(fa)),
        ensures
            final(self).wf(final(fa)),
            forall|i: u64| final(fa).file_at(i) == old(fa).file_at(i),
            match r {
                None => {
                    &&& final(self).is_done()
                    &&& final(self).failed() == old(self).failed()
                    &&& final(self).emitted() == old(self).emitted()
                },
                Some(Ok(v)) => {
                    &&& v@.len() > 0
                    &&& !old(self).is_done()
                    &&& !final(self).failed()
                    &&& final(self).emitted() == old(self).emitted() + v@
                },
                Some(Err(_)) => {
                    &&& !old(self).is_done()
                    &&& final(self).failed()
                    &&& final(self).emitted() == old(self).emitted()
                },
            },
            old(self).is_done() ==> *final(self) == *old(self) && *final(fa) == *old(fa),
            r is None && !old(self).failed() ==> final(self).emitted() == final(self).target(
                final(fa),
            ) && final(self).sources_ok(final(fa)),
            final(fa).reads_reliable() == old(fa).reads_reliable(),
            forall|i: u64| final(fa).open_ok(i) == old(fa).open_ok(i),
            old(self).reliable_inputs(old(fa)) ==> !(r matches Some(Err(_))),
            r is None ==> old(self).at_end(old(fa)),
            (*old(self)) matches Body::Empty ==> (*final(self)) matches Body::Empty,
            (*old(self)) matches Body::Full(s0) ==> (*final(self)) matches Body::Full(s1)
                && s1.inner.handle == s0.inner.handle && s1.inner.start() == s0.inner.start()
                && s1.inner.end_pos() == s0.inner.end_pos(),
            (*old(self)) matches Body::Range(s0) ==> (*final(self)) matches Body::Range(s1)
                && s1.handle == s0.handle && s1.start() == s0.start() && s1.end_pos()
                == s0.end_pos(),
            (*old(self)) matches Body::MultiRange(s0) ==> (*final(self)) matches Body::MultiRange(s1)
                && s1.handle == s0.handle && s1.ranges == s0.ranges && s1.boundary == s0.boundary
                && s1.content_type == s0.content_type && s1.total_size == s0.total_size,
            (*old(self)) matches Body::MultiFiles(s0) ==> (*final(self)) matches Body::MultiFiles(s1)
                && s1.idents == s0.idents,
            final(self).target(final(fa)) == old(self).target(old(fa)),
    {
        match self {
            Body::Empty => None,
            Body::Full(s) => s.poll_next(fa),
            Body::Range(s) => s.poll_next(fa),
            Body::MultiRange(s) => s.poll_next(fa),
            Body::MultiFiles(s) => {
                let ghost fa0: F = *fa;
                let ghost ids = s.idents@;
                let r = s.poll_next(fa);
                proof {
                    lemma_files_prefix_stable(&fa0, fa, ids, ids.len() as int);
                }
                r
            },
        }
    }
}

} // verus!
