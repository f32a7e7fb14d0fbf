//! Multi-file streaming: the logical concatenation of several
//! independently opened files served as one continuous byte sequence,
//! advancing to the next source when the current one is exhausted.

use vstd::prelude::*;

use crate::stream::FileBytesStream;
use crate::vfs::{FileAccess, FsError};

verus! {

/// The contents of the first `i` sources, concatenated in order.
pub open spec fn files_prefix<F: FileAccess>(fa: &F, idents: Seq<u64>, i: int) -> Seq<u8>
    decreases i,
{
    if i <= 0 {
        Seq::empty()
    } else {
        files_prefix(fa, idents, i - 1) + fa.file_at(idents[i - 1])->Some_0
    }
}

/// Each of the first `i` sources exists.
pub open spec fn sources_exist<F: FileAccess>(fa: &F, idents: Seq<u64>, i: int) -> bool {
    forall|j: int| 0 <= j < i ==> fa.file_at(#[trigger] idents[j]) is Some
}

/// Two capabilities that agree on the first `i` sources give the same
/// concatenation of them.
pub proof fn lemma_files_prefix_stable<F: FileAccess>(fa1: &F, fa2: &F, idents: Seq<u64>, i: int)
    requires
        forall|j: int| 0 <= j < i ==> fa1.file_at(#[trigger] idents[j]) == fa2.file_at(idents[j]),
    ensures
        files_prefix(fa1, idents, i) == files_prefix(fa2, idents, i),
    decreases i,
{
    if i > 0 {
        lemma_files_prefix_stable(fa1, fa2, idents, i - 1);
    }
}

/// Streams the concatenation of several files as one continuous byte
/// sequence, with no delimiters between them. Sources are opened lazily,
/// one at a time, each only when it is first needed, so at most one handle
/// is held at a time. An empty source list is immediately exhausted.
/// Failure opening or reading any source aborts the whole stream;
/// already-emitted bytes of earlier sources are not retracted.
pub struct MultiFileBytesStream {
    /// Identifiers of the sources, in emission order.
    pub idents: Vec<u64>,
    /// Index of the source being served, or of the next one to open.
    pub idx: usize,
    /// Whole-file stream over the source being served; `None` before the
    /// source at `idx` has been opened.
    pub current: Option<FileBytesStream>,
    /// Whether an open, size query or read failed; then the stream is
    /// terminal.
    pub failed: bool,
    /// All bytes emitted so far, in order.
    pub emitted: Ghost<Seq<u8>>,
}

impl MultiFileBytesStream {
    /// The full byte sequence this stream is to emit: the literal
    /// concatenation of every source's content, in order.
    pub open spec fn target<F: FileAccess>(&self, fa: &F) -> Seq<u8> {
        files_prefix(fa, self.idents@, self.idents@.len() as int)
    }

    /// Well-formed w.r.t. capability `fa`: every source already passed
    /// exists, and the bytes emitted so far are their full contents plus
    /// whatever the current source's stream has emitted.
    pub open spec fn wf<F: FileAccess>(&self, fa: &F) -> bool {
        &&& self.idx <= self.idents@.len()
        &&& sources_exist(fa, self.idents@, self.idx as int)
        &&& if self.failed {
            self.current is None
        } else {
            match self.current {
                Some(s) => {
                    &&& self.idx < self.idents@.len()
                    &&& s.wf(fa)
                    &&& !s.inner.failed
                    &&& s.inner.handle.id == self.idents@[self.idx as int]
                    &&& self.emitted@ == files_prefix(fa, self.idents@, self.idx as int)
                        + s.inner.emitted@
                },
                None => self.emitted@ == files_prefix(fa, self.idents@, self.idx as int),
            }
        }
    }

    /// Terminal: every source has been emitted, or a failure occurred.
    pub open spec fn is_done(&self) -> bool {
        self.failed || (self.idx == self.idents@.len() && self.current is None)
    }

    /// Every source exists and the bytes emitted so far are already the
    /// complete concatenation. Because opening is lazy, a stream in this
    /// state may still have sources to advance past (each exhausted or
    /// empty), so it is not necessarily `is_done`; but no further byte
    /// will be emitted, and end of stream may be reported only from here.
    pub open spec fn exhausted<F: FileAccess>(&self, fa: &F) -> bool {
        &&& sources_exist(fa, self.idents@, self.idents@.len() as int)
        &&& self.emitted@ == self.target(fa)
    }

    /// A stream over the given sources, none of them opened yet.
    pub fn new(idents: Vec<u64>) -> (s: Self)
        ensures
            s.idents == idents,
            s.idx == 0,
            s.current is None,
            !s.failed,
            s.emitted@ == Seq::<u8>::empty(),
    {
        MultiFileBytesStream {
            idents,
            idx: 0,
            current: None,
            failed: false,
            emitted: Ghost(Seq::empty()),
        }
    }

    /// Pull the next frame of the concatenation. The current source's
    /// stream is pulled first; when it is exhausted the next source is
    /// opened and consulted, so no gap frame is ever emitted between
    /// files. Returns a non-empty data frame, or `None` at end of the last
    /// source (immediately, for an empty source list), or the failure that
    /// aborted the stream, exactly once. When the stream ends without
    /// failure its emitted bytes are exactly the concatenation of every
    /// source's content, in order.
    pub fn poll_next<F: FileAccess>(&mut self, fa: &mut F) -> (r: Option<
        Result<Vec<u8>, FsError>,
    >)
        requires
            old(self).wf(old(fa)),
        ensures
            final(self).wf(final(fa)),
            forall|i: u64| final(fa).file_at(i) == old(fa).file_at(i),
            final(self).idents == old(self).idents,
            match r {
                None => {
                    &&& final(self).is_done()
                    &&& final(self).failed == old(self).failed
                    &&& final(self).emitted@ == old(self).emitted@
                },
                Some(Ok(v)) => {
                    &&& v@.len() > 0
                    &&& !old(self).is_done()
                    &&& !final(self).failed
                    &&& final(self).emitted@ == old(self).emitted@ + v@
                },
                Some(Err(_)) => {
                    &&& !old(self).is_done()
                    &&& final(self).failed
                    &&& final(self).emitted@ == old(self).emitted@
                },
            },
            old(self).is_done() ==> *final(self) == *old(self) && *final(fa) == *old(fa),
            r is None && !old(self).failed ==> final(self).emitted@ == final(self).target(
                final(fa),
            ) && sources_exist(final(fa), final(self).idents@, final(self).idents@.len() as int),
            r is None ==> old(self).failed || old(self).exhausted(old(fa)),
            final(fa).reads_reliable() == old(fa).reads_reliable(),
            forall|i: u64| final(fa).open_ok(i) == old(fa).open_ok(i),
            old(fa).reads_reliable() && (forall|j: int|
                0 <= j < old(self).idents@.len() ==> old(fa).open_ok(
                    #[trigger] old(self).idents@[j],
                )) ==> !(r matches Some(Err(_))),
        decreases 2 * (old(self).idents@.len() - old(self).idx) + (if old(self).current is Some {
            0int
        } else {
            1int
        }),
    {
        if self.failed {
            return None;
        }
        let ghost fa0: F = *fa;
        match &mut self.current {
            Some(s) => {
                match s.poll_next(fa) {
                    Some(Ok(v)) => {
                        self.emitted = Ghost(self.emitted@ + v@);
                        proof {
                            lemma_files_prefix_stable(&fa0, fa, self.idents@, self.idx as int);
                            assert(self.emitted@ =~= files_prefix(fa, self.idents@, self.idx as int)
                                + self.current->Some_0.inner.emitted@);
                        }
                        return Some(Ok(v));
                    },
                    Some(Err(e)) => {
                        self.current = None;
                        self.failed = true;
                        return Some(Err(e));
                    },
                    None => {
                        // The current source is exhausted: its stream
                        // emitted the whole file. Advance to the next
                        // source; it is opened when next consulted.
                        proof {
                            assert(self.idx < self.idents.len());
                            assert(self.emitted@ == files_prefix(
                                fa,
                                self.idents@,
                                self.idx + 1,
                            ));
                        }
                        self.current = None;
                        self.idx = self.idx + 1;
                    },
                }
            },
            None => {
                if self.idx == self.idents.len() {
                    return None;
                }
                let ident = self.idents[self.idx];
                match fa.open(ident) {
                    Ok(h) => {
                        match FileBytesStream::new(fa, h) {
                            Ok(s) => {
                                proof {
                                    lemma_files_prefix_stable(
                                        &fa0,
                                        fa,
                                        self.idents@,
                                        self.idx as int,
                                    );
                                    assert(s.inner.emitted@ =~= Seq::<u8>::empty());
                                }
                                self.current = Some(s);
                                proof {
                                    assert(self.emitted@ =~= files_prefix(
                                        fa,
                                        self.idents@,
                                        self.idx as int,
                                    ) + self.current->Some_0.inner.emitted@);
                                }
                            },
                            Err(e) => {
                                proof {
                                    lemma_files_prefix_stable(
                                        &fa0,
                                        fa,
                                        self.idents@,
                                        self.idx as int,
                                    );
                                }
                                self.failed = true;
                                return Some(Err(e));
                            },
                        }
                    },
                    Err(e) => {
                        proof {
                            lemma_files_prefix_stable(&fa0, fa, self.idents@, self.idx as int);
                        }
                        self.failed = true;
                        return Some(Err(e));
                    },
                }
            },
        }
        let ghost mid_fa: F = *fa;
        let r = self.poll_next(fa);
        proof {
            if r is None && !old(self).failed {
                lemma_files_prefix_stable(
                    &fa0,
                    &mid_fa,
                    old(self).idents@,
                    old(self).idents@.len() as int,
                );
            }
        }
        r
    }
}

} // verus!
