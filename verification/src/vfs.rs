//! The file-access capability: an abstract random-access read source, plus
//! an in-memory implementation with the same semantics as a real storage
//! backend (including injectable partial reads and injectable failures).

use vstd::prelude::*;

verus! {

/// Error kinds surfaced by the capability layer and by every stream built
/// on top of it.
#[derive(Clone, Copy, Debug, PartialEq, Eq, Structural)]
pub enum FsError {
    /// No byte source exists under the requested identifier.
    NotFound,
    /// The byte source exists but may not be opened.
    PermissionDenied,
    /// A storage I/O operation failed.
    IoFailure,
}

/// Opaque capability referencing an open, randomly readable byte source;
/// owned by the stream serving it and released when that stream is dropped.
#[derive(Clone, Copy, Debug)]
pub struct FileHandle {
    /// Identifier of the byte source this handle was opened on.
    pub id: u64,
}

/// Abstract random-access read source. Byte sources are named by `u64`
/// identifiers; `file_at` is the capability's model: the content an open
/// handle on a given identifier reads. Reads never change any content.
pub trait FileAccess: Sized {
    /// The byte content behind identifier `ident`, or `None` when no such
    /// source exists.
    spec fn file_at(&self, ident: u64) -> Option<Seq<u8>>;

    /// Whether the capability promises that size queries and reads will
    /// succeed. Reads on a capability in this state never see `IoFailure`.
    spec fn reads_reliable(&self) -> bool;

    /// Whether opening `ident` is promised to succeed.
    spec fn open_ok(&self, ident: u64) -> bool;

    /// Open the byte source named `ident`. On success the returned handle
    /// reads exactly `file_at(ident)`.
    fn open(&mut self, ident: u64) -> (r: Result<FileHandle, FsError>)
        ensures
            forall|i: u64| final(self).file_at(i) == old(self).file_at(i),
            forall|i: u64| final(self).open_ok(i) == old(self).open_ok(i),
            final(self).reads_reliable() == old(self).reads_reliable(),
            r matches Ok(h) ==> h.id == ident && old(self).file_at(ident) is Some,
            old(self).open_ok(ident) ==> r is Ok,
    ;

    /// The current size in bytes of the source behind an open handle.
    fn size(&mut self, handle: &FileHandle) -> (r: Result<u64, FsError>)
        requires
            old(self).file_at(handle.id) is Some,
        ensures
            forall|i: u64| final(self).file_at(i) == old(self).file_at(i),
            forall|i: u64| final(self).open_ok(i) == old(self).open_ok(i),
            final(self).reads_reliable() == old(self).reads_reliable(),
            r matches Ok(n) ==> n == old(self).file_at(handle.id)->Some_0.len(),
            r matches Err(e) ==> e == FsError::IoFailure,
            old(self).reads_reliable() ==> r is Ok,
    ;

    /// Read at most `len` bytes starting at absolute `offset`. A successful
    /// read returns a prefix of the bytes from `offset` on; it is empty only
    /// at true end of file (or when `len == 0`). Partial reads (fewer bytes
    /// than requested, but more than zero) are legal.
    fn read_at(&mut self, handle: &FileHandle, offset: u64, len: usize) -> (r: Result<
        Vec<u8>,
        FsError,
    >)
        requires
            old(self).file_at(handle.id) is Some,
            offset <= old(self).file_at(handle.id)->Some_0.len(),
        ensures
            forall|i: u64| final(self).file_at(i) == old(self).file_at(i),
            forall|i: u64| final(self).open_ok(i) == old(self).open_ok(i),
            final(self).reads_reliable() == old(self).reads_reliable(),
            r matches Ok(v) ==> {
                let c = old(self).file_at(handle.id)->Some_0;
                &&& v@.len() <= len
                &&& v@ == c.subrange(offset as int, offset + v@.len())
                &&& (v@.len() == 0 <==> (len == 0 || offset == c.len()))
            },
            r matches Err(e) ==> e == FsError::IoFailure,
            old(self).reads_reliable() ==> r is Ok,
    ;
}

/// In-memory `FileAccess`: identifier `i` names `files[i]`. Deterministic
/// partial reads and failures can be injected, so every stream shape and
/// every error path can be exercised without touching real storage.
pub struct MemFileAccess {
    /// One byte source per identifier.
    pub files: Vec<Vec<u8>>,
    /// Identifiers whose `open` is refused with `PermissionDenied`.
    pub denied: Vec<u64>,
    /// Upper bound on the bytes one `read_at` returns; `0` means unbounded.
    /// A positive bound simulates partial reads.
    pub chunk_limit: usize,
    /// When `Some(k)`, the `k` next reads succeed and every read after them
    /// fails with `IoFailure`, simulating a mid-stream storage failure.
    pub reads_until_failure: Option<u64>,
    /// Number of `read_at` calls made so far (saturating).
    pub reads_made: u64,
}

impl MemFileAccess {
    /// A capability over the given sources, with no injected partial reads
    /// and no injected failures.
    pub fn new(files: Vec<Vec<u8>>) -> (r: MemFileAccess)
        ensures
            r.files == files,
            r.denied@ =~= Seq::<u64>::empty(),
            r.chunk_limit == 0,
            r.reads_until_failure is None,
            r.reads_made == 0,
    {
        MemFileAccess {
            files,
            denied: Vec::new(),
            chunk_limit: 0,
            reads_until_failure: None,
            reads_made: 0,
        }
    }

    /// Whether opening `ident` is refused with `PermissionDenied`.
    fn is_denied(&self, ident: u64) -> (r: bool)
        ensures
            r == self.denied@.contains(ident),
    {
        let mut i: usize = 0;
        while i < self.denied.len()
            invariant
                i <= self.denied@.len(),
                forall|j: int| 0 <= j < i ==> self.denied@[j] != ident,
            decreases self.denied@.len() - i,
        {
            if self.denied[i] == ident {
                return true;
            }
            i = i + 1;
        }
        false
    }
}

impl FileAccess for MemFileAccess {
    open spec fn file_at(&self, ident: u64) -> Option<Seq<u8>> {
        if ident < self.files@.len() {
            Some(self.files@[ident as int]@)
        } else {
            None
        }
    }

    open spec fn reads_reliable(&self) -> bool {
        self.reads_until_failure is None
    }

    open spec fn open_ok(&self, ident: u64) -> bool {
        ident < self.files@.len() && !self.denied@.contains(ident)
    }

    fn open(&mut self, ident: u64) -> (r: Result<FileHandle, FsError>)
        ensures
            *final(self) == *old(self),
            r matches Ok(h) ==> h.id == ident && ident < old(self).files@.len() && !old(
                self,
            ).denied@.contains(ident),
            (r matches Err(e) && e == FsError::NotFound) <==> ident >= old(self).files@.len(),
            (r matches Err(e) && e == FsError::PermissionDenied) <==> (ident < old(
                self,
            ).files@.len() && old(self).denied@.contains(ident)),
    {
        if ident >= self.files.len() as u64 {
            Err(FsError::NotFound)
        } else if self.is_denied(ident) {
            Err(FsError::PermissionDenied)
        } else {
            Ok(FileHandle { id: ident })
        }
    }

    fn size(&mut self, handle: &FileHandle) -> (r: Result<u64, FsError>)
        ensures
            *final(self) == *old(self),
            r is Ok,
    {
        proof {
            assert(handle.id < self.files.len());
        }
        let idx: usize = handle.id as usize;
        Ok(self.files[idx].len() as u64)
    }

    fn read_at(&mut self, handle: &FileHandle, offset: u64, len: usize) -> (r: Result<
        Vec<u8>,
        FsError,
    >)
        ensures
            final(self).files == old(self).files,
            final(self).denied == old(self).denied,
            final(self).chunk_limit == old(self).chunk_limit,
            final(self).reads_made == if old(self).reads_made < u64::MAX {
                old(self).reads_made + 1
            } else {
                old(self).reads_made as int
            },
            r is Err <==> old(self).reads_until_failure == Some(0u64),
            r matches Ok(v) ==> v@.len() == ({
                let c = old(self).file_at(handle.id)->Some_0;
                let m = if len <= c.len() - offset {
                    len as int
                } else {
                    c.len() - offset
                };
                if old(self).chunk_limit != 0 && old(self).chunk_limit < m {
                    old(self).chunk_limit as int
                } else {
                    m
                }
            }),
    {
        if self.reads_made < u64::MAX {
            self.reads_made = self.reads_made + 1;
        }
        match self.reads_until_failure {
            Some(k) => {
                if k == 0 {
                    return Err(FsError::IoFailure);
                }
                self.reads_until_failure = Some(k - 1);
            },
            None => {},
        }
        proof {
            assert(self.files == old(self).files);
            assert(handle.id < self.files.len());
        }
        let idx: usize = handle.id as usize;
        let file = &self.files[idx];
        proof {
            assert(offset <= file.len());
        }
        let off: usize = offset as usize;
        let avail: usize = file.len() - off;
        let mut take: usize = if len < avail {
            len
        } else {
            avail
        };
        if self.chunk_limit != 0 && self.chunk_limit < take {
            take = self.chunk_limit;
        }
        let mut out: Vec<u8> = Vec::new();
        let mut i: usize = 0;
        while i < take
            invariant
                i <= take,
                off + take <= usize::MAX,
                off + take <= file@.len(),
                out@ =~= file@.subrange(off as int, off + i),
            decreases take - i,
        {
            out.push(file[off + i]);
            i = i + 1;
        }
        Ok(out)
    }
}

} // verus!
