//! Multi-range streaming: several byte windows of one file encoded as a
//! multipart/byteranges message, with boundary delimiters and per-part
//! headers generated inline with the data.
//!
//! Wire format, byte-exact, per part:
//! `--{boundary}\r\n`, `Content-Type: {content_type}\r\n`,
//! `Content-Range: bytes {start}-{end-1}/{total_size}\r\n`, `\r\n`,
//! the raw bytes of the window, `\r\n`; and after the last part the
//! trailer `--{boundary}--\r\n`.

use vstd::prelude::*;

use crate::stream::{ByteRange, FileBytesStreamRange};
use crate::vfs::{FileAccess, FileHandle, FsError};

verus! {

/// The line terminator `\r\n`.
pub open spec fn crlf() -> Seq<u8> {
    seq![13u8, 10u8]
}

/// The delimiter prefix `--`.
pub open spec fn dashes() -> Seq<u8> {
    seq![45u8, 45u8]
}

/// The bytes of `Content-Type: `.
pub open spec fn content_type_label() -> Seq<u8> {
    seq![67u8, 111u8, 110u8, 116u8, 101u8, 110u8, 116u8, 45u8, 84u8, 121u8, 112u8, 101u8, 58u8, 32u8]
}

/// The bytes of `Content-Range: bytes `.
pub open spec fn content_range_label() -> Seq<u8> {
    seq![
        67u8, 111u8, 110u8, 116u8, 101u8, 110u8, 116u8, 45u8, 82u8, 97u8, 110u8, 103u8, 101u8,
        58u8, 32u8, 98u8, 121u8, 116u8, 101u8, 115u8, 32u8,
    ]
}

/// The shortest decimal numeral for `n`, as ASCII digit bytes.
pub open spec fn dec_rep(n: nat) -> Seq<u8>
    decreases n,
{
    if n < 10 {
        seq![(48 + n) as u8]
    } else {
        dec_rep(n / 10).push((48 + n % 10) as u8)
    }
}

/// The header block of one part: boundary delimiter line, `Content-Type`
/// line, `Content-Range` line (inclusive end, full file size), blank line.
pub open spec fn part_header(boundary: Seq<u8>, ct: Seq<u8>, range: ByteRange, total: u64) -> Seq<
    u8,
>
    recommends
        range.end >= 1,
{
    dashes() + boundary + crlf() + content_type_label() + ct + crlf() + content_range_label()
        + dec_rep(range.start as nat) + seq![45u8] + dec_rep((range.end - 1) as nat) + seq![47u8]
        + dec_rep(total as nat) + crlf() + crlf()
}

/// One whole part: its header block, the raw bytes of its window of the
/// file `c`, and a line terminator.
pub open spec fn part_bytes(c: Seq<u8>, boundary: Seq<u8>, ct: Seq<u8>, range: ByteRange, total: u64) -> Seq<u8>
    recommends
        range.valid_for(c.len()),
        range.end >= 1,
{
    part_header(boundary, ct, range, total) + c.subrange(range.start as int, range.end as int)
        + crlf()
}

/// The closing delimiter `--{boundary}--` and its line terminator.
pub open spec fn trailer_bytes(boundary: Seq<u8>) -> Seq<u8> {
    dashes() + boundary + dashes() + crlf()
}

/// The first `i` parts of the message, concatenated in range order.
pub open spec fn parts_prefix(
    ranges: Seq<ByteRange>,
    c: Seq<u8>,
    boundary: Seq<u8>,
    ct: Seq<u8>,
    total: u64,
    i: int,
) -> Seq<u8>
    decreases i,
{
    if i <= 0 {
        Seq::empty()
    } else {
        parts_prefix(ranges, c, boundary, ct, total, i - 1) + part_bytes(
            c,
            boundary,
            ct,
            ranges[i - 1],
            total,
        )
    }
}

/// The complete multipart/byteranges message for `ranges` over file `c`:
/// every part in order, followed by the trailer.
pub open spec fn multipart_encoding(
    ranges: Seq<ByteRange>,
    c: Seq<u8>,
    boundary: Seq<u8>,
    ct: Seq<u8>,
    total: u64,
) -> Seq<u8> {
    parts_prefix(ranges, c, boundary, ct, total, ranges.len() as int) + trailer_bytes(boundary)
}

/// The message from part `i` on: the remaining parts, then the trailer.
pub open spec fn parts_suffix(
    ranges: Seq<ByteRange>,
    c: Seq<u8>,
    boundary: Seq<u8>,
    ct: Seq<u8>,
    total: u64,
    i: int,
) -> Seq<u8>
    decreases ranges.len() - i,
{
    if i < 0 || ranges.len() <= i {
        trailer_bytes(boundary)
    } else {
        part_bytes(c, boundary, ct, ranges[i], total) + parts_suffix(
            ranges,
            c,
            boundary,
            ct,
            total,
            i + 1,
        )
    }
}

/// The complete message splits, at every part index, into the parts before
/// it and the message from it on.
pub proof fn lemma_encoding_split(
    ranges: Seq<ByteRange>,
    c: Seq<u8>,
    boundary: Seq<u8>,
    ct: Seq<u8>,
    total: u64,
    i: int,
)
    requires
        0 <= i <= ranges.len(),
    ensures
        multipart_encoding(ranges, c, boundary, ct, total) == parts_prefix(
            ranges,
            c,
            boundary,
            ct,
            total,
            i,
        ) + parts_suffix(ranges, c, boundary, ct, total, i),
    decreases ranges.len() - i,
{
    if i == ranges.len() {
        assert(multipart_encoding(ranges, c, boundary, ct, total) == parts_prefix(
            ranges,
            c,
            boundary,
            ct,
            total,
            i,
        ) + parts_suffix(ranges, c, boundary, ct, total, i));
    } else {
        lemma_encoding_split(ranges, c, boundary, ct, total, i + 1);
        assert(parts_prefix(ranges, c, boundary, ct, total, i + 1) == parts_prefix(
            ranges,
            c,
            boundary,
            ct,
            total,
            i,
        ) + part_bytes(c, boundary, ct, ranges[i], total));
        assert(parts_prefix(ranges, c, boundary, ct, total, i) + parts_suffix(
            ranges,
            c,
            boundary,
            ct,
            total,
            i,
        ) =~= (parts_prefix(ranges, c, boundary, ct, total, i) + part_bytes(
            c,
            boundary,
            ct,
            ranges[i],
            total,
        )) + parts_suffix(ranges, c, boundary, ct, total, i + 1));
    }
}

/// Offset in the complete message at which part `i`'s data bytes begin:
/// just past the parts before it and past its own header block.
pub open spec fn part_data_offset(
    ranges: Seq<ByteRange>,
    c: Seq<u8>,
    boundary: Seq<u8>,
    ct: Seq<u8>,
    total: u64,
    i: int,
) -> int {
    parts_prefix(ranges, c, boundary, ct, total, i).len() + part_header(
        boundary,
        ct,
        ranges[i],
        total,
    ).len() as int
}

/// The multipart message can be parsed back: for every part, the bytes of
/// the complete message between that part's header block and its line
/// terminator are exactly the corresponding window of the file, so
/// splitting the message on the boundary and re-extracting each part's
/// data per its `Content-Range` header reconstructs every requested
/// window, in order.
pub proof fn lemma_multipart_part_data(
    ranges: Seq<ByteRange>,
    c: Seq<u8>,
    boundary: Seq<u8>,
    ct: Seq<u8>,
    total: u64,
    i: int,
)
    requires
        0 <= i < ranges.len(),
        ranges[i].valid_for(c.len()),
    ensures
        multipart_encoding(ranges, c, boundary, ct, total).subrange(
            part_data_offset(ranges, c, boundary, ct, total, i),
            part_data_offset(ranges, c, boundary, ct, total, i) + (ranges[i].end
                - ranges[i].start),
        ) == c.subrange(ranges[i].start as int, ranges[i].end as int),
{
    lemma_encoding_split(ranges, c, boundary, ct, total, i);
    let msg = multipart_encoding(ranges, c, boundary, ct, total);
    let off = part_data_offset(ranges, c, boundary, ct, total, i);
    let data = c.subrange(ranges[i].start as int, ranges[i].end as int);
    assert(msg == parts_prefix(ranges, c, boundary, ct, total, i) + (part_bytes(
        c,
        boundary,
        ct,
        ranges[i],
        total,
    ) + parts_suffix(ranges, c, boundary, ct, total, i + 1)));
    assert(msg.subrange(off, off + data.len()) =~= data);
}

/// Parts stand in the message in the order the ranges were given: the
/// data of each part begins strictly after the data of every part before
/// it. No reordering is performed.
pub proof fn lemma_parts_in_order(
    ranges: Seq<ByteRange>,
    c: Seq<u8>,
    boundary: Seq<u8>,
    ct: Seq<u8>,
    total: u64,
    i: int,
    j: int,
)
    requires
        0 <= i < j < ranges.len(),
    ensures
        part_data_offset(ranges, c, boundary, ct, total, i) < part_data_offset(
            ranges,
            c,
            boundary,
            ct,
            total,
            j,
        ),
    decreases j - i,
{
    if i < j - 1 {
        lemma_parts_in_order(ranges, c, boundary, ct, total, i, j - 1);
    }
    assert(parts_prefix(ranges, c, boundary, ct, total, j) == parts_prefix(
        ranges,
        c,
        boundary,
        ct,
        total,
        j - 1,
    ) + part_bytes(c, boundary, ct, ranges[j - 1], total));
    assert(part_bytes(c, boundary, ct, ranges[j - 1], total).len() >= part_header(
        boundary,
        ct,
        ranges[j - 1],
        total,
    ).len() + 2);
}

/// Append a copy of `src` to `out`.
fn append_bytes(out: &mut Vec<u8>, src: &Vec<u8>)
    ensures
        final(out)@ == old(out)@ + src@,
{
    let mut i: usize = 0;
    while i < src.len()
        invariant
            i <= src@.len(),
            out@ =~= old(out)@ + src@.subrange(0, i as int),
        decreases src@.len() - i,
    {
        out.push(src[i]);
        i = i + 1;
    }
    proof {
        assert(out@ =~= old(out)@ + src@);
    }
}

/// Append the shortest decimal numeral for `n` to `out`.
fn push_dec(out: &mut Vec<u8>, n: u64)
    ensures
        final(out)@ == old(out)@ + dec_rep(n as nat),
    decreases n,
{
    if n < 10 {
        out.push(48 + n as u8);
        proof {
            assert(out@ =~= old(out)@ + dec_rep(n as nat));
        }
    } else {
        push_dec(out, n / 10);
        out.push(48 + (n % 10) as u8);
        proof {
            assert(out@ =~= old(out)@ + dec_rep(n as nat));
        }
    }
}

/// Append a line terminator to `out`.
fn push_crlf(out: &mut Vec<u8>)
    ensures
        final(out)@ == old(out)@ + crlf(),
{
    out.push(13);
    out.push(10);
    proof {
        assert(out@ =~= old(out)@ + crlf());
    }
}

/// Append the byte `b` to `out`, as a one-byte segment.
fn push_byte(out: &mut Vec<u8>, b: u8)
    ensures
        final(out)@ == old(out)@ + seq![b],
{
    out.push(b);
    proof {
        assert(out@ =~= old(out)@ + seq![b]);
    }
}

/// Append the bytes of `Content-Type: ` to `out`.
fn push_content_type_label(out: &mut Vec<u8>)
    ensures
        final(out)@ == old(out)@ + content_type_label(),
{
    out.push(67);
    out.push(111);
    out.push(110);
    out.push(116);
    out.push(101);
    out.push(110);
    out.push(116);
    out.push(45);
    out.push(84);
    out.push(121);
    out.push(112);
    out.push(101);
    out.push(58);
    out.push(32);
    proof {
        assert(out@ =~= old(out)@ + content_type_label());
    }
}

/// Append the bytes of `Content-Range: bytes ` to `out`.
fn push_content_range_label(out: &mut Vec<u8>)
    ensures
        final(out)@ == old(out)@ + content_range_label(),
{
    out.push(67);
    out.push(111);
    out.push(110);
    out.push(116);
    out.push(101);
    out.push(110);
    out.push(116);
    out.push(45);
    out.push(82);
    out.push(97);
    out.push(110);
    out.push(103);
    out.push(101);
    out.push(58);
    out.push(32);
    out.push(98);
    out.push(121);
    out.push(116);
    out.push(101);
    out.push(115);
    out.push(32);
    proof {
        assert(out@ =~= old(out)@ + content_range_label());
    }
}

/// Build the header block of the part serving `range`.
fn build_part_header(
    boundary: &Vec<u8>,
    content_type: &Vec<u8>,
    range: ByteRange,
    total: u64,
) -> (v: Vec<u8>)
    requires
        range.end >= 1,
    ensures
        v@ == part_header(boundary@, content_type@, range, total),
{
    let mut v: Vec<u8> = Vec::new();
    v.push(45);
    v.push(45);
    proof {
        assert(v@ =~= dashes());
    }
    append_bytes(&mut v, boundary);
    push_crlf(&mut v);
    push_content_type_label(&mut v);
    append_bytes(&mut v, content_type);
    push_crlf(&mut v);
    push_content_range_label(&mut v);
    push_dec(&mut v, range.start);
    push_byte(&mut v, 45);
    push_dec(&mut v, range.end - 1);
    push_byte(&mut v, 47);
    push_dec(&mut v, total);
    push_crlf(&mut v);
    push_crlf(&mut v);
    v
}

/// Build the closing delimiter line.
fn build_trailer(boundary: &Vec<u8>) -> (v: Vec<u8>)
    ensures
        v@ == trailer_bytes(boundary@),
{
    let mut v: Vec<u8> = Vec::new();
    v.push(45);
    v.push(45);
    append_bytes(&mut v, boundary);
    v.push(45);
    v.push(45);
    v.push(13);
    v.push(10);
    proof {
        assert(v@ =~= trailer_bytes(boundary@));
    }
    v
}

/// Streams several byte windows of one file as a multipart/byteranges
/// message: for each range, in the order given, a header block then the
/// range's data, and after the last part a closing delimiter. The boundary
/// is fixed per stream instance and identical across all its parts; the
/// `Content-Range` end value is inclusive and its size is the full file
/// size captured at construction. A read failure aborts the whole stream:
/// the trailer is not emitted.
pub struct FileBytesStreamMultiRange {
    /// Handle of the file being served.
    pub handle: FileHandle,
    /// The windows to serve, in emission order; order is preserved, no
    /// merging or reordering is performed.
    pub ranges: Vec<ByteRange>,
    /// Index of the part being served.
    pub idx: usize,
    /// The single-range stream of the part being served, between its
    /// header block and its line terminator; `None` between parts.
    pub inner: Option<FileBytesStreamRange>,
    /// The delimiter token; never empty, fixed for this instance.
    pub boundary: Vec<u8>,
    /// The `Content-Type` value of every part, supplied by the caller.
    pub content_type: Vec<u8>,
    /// The full size of the underlying file, captured at construction.
    pub total_size: u64,
    /// Whether the trailer has been emitted; then the stream is terminal.
    pub finished: bool,
    /// Whether a read has failed; a failed stream is terminal.
    pub failed: bool,
    /// All bytes emitted so far (headers, data and delimiters), in order.
    pub emitted: Ghost<Seq<u8>>,
}

impl FileBytesStreamMultiRange {
    /// The ranges are ordered windows into a file of `total_size == c.len()`
    /// bytes; there is at least one, and none ends at offset zero (the
    /// inclusive `Content-Range` end would underflow).
    pub open spec fn ranges_ok(&self, c: Seq<u8>) -> bool {
        &&& self.total_size == c.len()
        &&& self.ranges@.len() >= 1
        &&& forall|i: int|
            0 <= i < self.ranges@.len() ==> (#[trigger] self.ranges@[i]).valid_for(c.len())
                && self.ranges@[i].end >= 1
    }

    /// The first `i` parts of this stream's message.
    pub open spec fn prefix_bytes(&self, c: Seq<u8>, i: int) -> Seq<u8> {
        parts_prefix(self.ranges@, c, self.boundary@, self.content_type@, self.total_size, i)
    }

    /// The complete message this stream is to emit.
    pub open spec fn target<F: FileAccess>(&self, fa: &F) -> Seq<u8> {
        multipart_encoding(
            self.ranges@,
            fa.file_at(self.handle.id)->Some_0,
            self.boundary@,
            self.content_type@,
            self.total_size,
        )
    }

    /// Well-formed w.r.t. capability `fa`: the file exists, the ranges fit
    /// it, and the bytes emitted so far are exactly a prefix of the message
    /// matching the stream's position (between parts, inside a part's data,
    /// or complete).
    pub open spec fn wf<F: FileAccess>(&self, fa: &F) -> bool {
        match fa.file_at(self.handle.id) {
            Some(c) => {
                &&& self.boundary@.len() > 0
                &&& self.ranges_ok(c)
                &&& self.idx <= self.ranges@.len()
                &&& if self.failed {
                    self.inner is None
                } else if self.finished {
                    &&& self.idx == self.ranges@.len()
                    &&& self.inner is None
                    &&& self.emitted@ == self.target(fa)
                } else {
                    match self.inner {
                        Some(s) => {
                            &&& self.idx < self.ranges@.len()
                            &&& s.wf(fa)
                            &&& !s.failed
                            &&& s.handle == self.handle
                            &&& s.start() == self.ranges@[self.idx as int].start
                            &&& s.end_pos() == self.ranges@[self.idx as int].end
                            &&& self.emitted@ == self.prefix_bytes(c, self.idx as int)
                                + part_header(
                                self.boundary@,
                                self.content_type@,
                                self.ranges@[self.idx as int],
                                self.total_size,
                            ) + s.emitted@
                        },
                        None => self.emitted@ == self.prefix_bytes(c, self.idx as int),
                    }
                }
            },
            None => false,
        }
    }

    /// Terminal: the trailer has been emitted, or a read has failed.
    pub open spec fn is_done(&self) -> bool {
        self.finished || self.failed
    }

    /// A multipart stream over `ranges` of the file behind `handle`, with a
    /// caller-chosen boundary token and per-part `Content-Type` value.
    /// `total_size` is the file's full size.
    pub fn new<F: FileAccess>(
        fa: &F,
        handle: FileHandle,
        ranges: Vec<ByteRange>,
        boundary: Vec<u8>,
        content_type: Vec<u8>,
        total_size: u64,
    ) -> (s: Self)
        requires
            fa.file_at(handle.id) matches Some(c) && total_size == c.len() && forall|i: int|
                0 <= i < ranges@.len() ==> (#[trigger] ranges@[i]).valid_for(c.len())
                    && ranges@[i].end >= 1,
            ranges@.len() >= 1,
            boundary@.len() > 0,
        ensures
            s.wf(fa),
            s.handle == handle,
            s.ranges == ranges,
            s.boundary == boundary,
            s.content_type == content_type,
            s.total_size == total_size,
            s.emitted@ == Seq::<u8>::empty(),
            !s.failed,
            !s.finished,
    {
        FileBytesStreamMultiRange {
            handle,
            ranges,
            idx: 0,
            inner: None,
            boundary,
            content_type,
            total_size,
            finished: false,
            failed: false,
            emitted: Ghost(Seq::empty()),
        }
    }

    /// The exact number of bytes this stream will emit in total: for every
    /// part its header block plus its data window plus its line terminator,
    /// plus the closing delimiter. Returns `None` exactly when that total
    /// does not fit in `u64`. Each part's header is assembled here so that
    /// the bytes counted are exactly the bytes later emitted.
    pub fn content_length<F: FileAccess>(&self, fa: &F) -> (r: Option<u64>)
        requires
            self.wf(fa),
        ensures
            r matches Some(t) ==> t == self.target(fa).len(),
            r is None <==> self.target(fa).len() > u64::MAX,
    {
        let ghost c = fa.file_at(self.handle.id)->Some_0;
        let mut sum: u64 = 0;
        let mut i: usize = 0;
        while i < self.ranges.len()
            invariant
                self.wf(fa),
                c == fa.file_at(self.handle.id)->Some_0,
                i <= self.ranges@.len(),
                sum == self.prefix_bytes(c, i as int).len(),
            decreases self.ranges@.len() - i,
        {
            let range = self.ranges[i];
            proof {
                assert(self.ranges@[i as int].valid_for(c.len()));
                lemma_encoding_split(
                    self.ranges@,
                    c,
                    self.boundary@,
                    self.content_type@,
                    self.total_size,
                    i + 1,
                );
            }
            let hdr = build_part_header(
                &self.boundary,
                &self.content_type,
                range,
                self.total_size,
            );
            proof {
                assert(part_bytes(c, self.boundary@, self.content_type@, range, self.total_size)
                    .len() == hdr@.len() + (range.end - range.start) + 2);
                assert(self.target(fa).len() >= self.prefix_bytes(c, i + 1).len());
            }
            let hdr_len: u64 = hdr.len() as u64;
            let data_len: u64 = range.end - range.start;
            let s1 = match sum.checked_add(hdr_len) {
                Some(x) => x,
                None => {
                    return None;
                },
            };
            let s2 = match s1.checked_add(data_len) {
                Some(x) => x,
                None => {
                    return None;
                },
            };
            let s3 = match s2.checked_add(2) {
                Some(x) => x,
                None => {
                    return None;
                },
            };
            sum = s3;
            i = i + 1;
        }
        proof {
            lemma_encoding_split(
                self.ranges@,
                c,
                self.boundary@,
                self.content_type@,
                self.total_size,
                self.ranges@.len() as int,
            );
            assert(parts_suffix(
                self.ranges@,
                c,
                self.boundary@,
                self.content_type@,
                self.total_size,
                self.ranges@.len() as int,
            ) == trailer_bytes(self.boundary@));
            assert(trailer_bytes(self.boundary@).len() == self.boundary@.len() + 6);
        }
        let blen: u64 = self.boundary.len() as u64;
        let s4 = match sum.checked_add(blen) {
            Some(x) => x,
            None => {
                return None;
            },
        };
        match s4.checked_add(6) {
            Some(x) => Some(x),
            None => None,
        }
    }

    /// Pull the next frame of the message: a part's header block, a chunk
    /// of a part's data, a part's line terminator, or the trailer, strictly
    /// in message order. Returns a non-empty frame, or `None` once the
    /// stream is terminal, or a failure exactly once. When the stream ends
    /// without failure its emitted bytes are exactly the complete
    /// multipart/byteranges message.
    pub fn poll_next<F: FileAccess>(&mut self, fa: &mut F) -> (r: Option<
        Result<Vec<u8>, FsError>,
    >)
        requires
            old(self).wf(old(fa)),
        ensures
            final(self).wf(final(fa)),
            forall|i: u64| final(fa).file_at(i) == old(fa).file_at(i),
            final(self).handle == old(self).handle,
            final(self).ranges == old(self).ranges,
            final(self).boundary == old(self).boundary,
            final(self).content_type == old(self).content_type,
            final(self).total_size == old(self).total_size,
            match r {
                None => *final(self) == *old(self) && *final(fa) == *old(fa) && old(self).is_done(),
                Some(Ok(v)) => {
                    &&& v@.len() > 0
                    &&& !old(self).is_done()
                    &&& !final(self).failed
                    &&& final(self).emitted@ == old(self).emitted@ + v@
                },
                Some(Err(e)) => {
                    &&& e == FsError::IoFailure
                    &&& !old(self).is_done()
                    &&& final(self).failed
                    &&& final(self).emitted@ == old(self).emitted@
                },
            },
            r is None && !old(self).failed ==> final(self).emitted@ == final(self).target(
                final(fa),
            ),
            final(fa).reads_reliable() == old(fa).reads_reliable(),
            forall|i: u64| final(fa).open_ok(i) == old(fa).open_ok(i),
            old(fa).reads_reliable() && !old(self).is_done() ==> r matches Some(Ok(_)),
    {
        if self.failed || self.finished {
            return None;
        }
        let ghost c = fa.file_at(self.handle.id)->Some_0;
        match &mut self.inner {
            Some(s) => {
                match s.poll_next(fa) {
                    Some(Ok(v)) => {
                        self.emitted = Ghost(self.emitted@ + v@);
                        proof {
                            assert(self.emitted@ =~= self.prefix_bytes(c, self.idx as int)
                                + part_header(
                                self.boundary@,
                                self.content_type@,
                                self.ranges@[self.idx as int],
                                self.total_size,
                            ) + self.inner->Some_0.emitted@);
                        }
                        Some(Ok(v))
                    },
                    Some(Err(e)) => {
                        self.inner = None;
                        self.failed = true;
                        Some(Err(e))
                    },
                    None => {
                        // The part's data is complete: emit its line
                        // terminator and move to the next part.
                        let mut v: Vec<u8> = Vec::new();
                        v.push(13);
                        v.push(10);
                        self.inner = None;
                        self.emitted = Ghost(self.emitted@ + v@);
                        proof {
                            assert(v@ =~= crlf());
                            assert(self.emitted@ =~= self.prefix_bytes(c, self.idx + 1));
                            assert(self.idx < self.ranges.len());
                        }
                        self.idx = self.idx + 1;
                        Some(Ok(v))
                    },
                }
            },
            None => {
                if self.idx < self.ranges.len() {
                    // Emit the header block of part `idx` and open its
                    // data window.
                    let range = self.ranges[self.idx];
                    let hdr = build_part_header(
                        &self.boundary,
                        &self.content_type,
                        range,
                        self.total_size,
                    );
                    let s = FileBytesStreamRange::new(&*fa, self.handle, range);
                    self.inner = Some(s);
                    self.emitted = Ghost(self.emitted@ + hdr@);
                    proof {
                        assert(hdr@.len() > 0);
                        assert(self.emitted@ =~= self.prefix_bytes(c, self.idx as int)
                            + part_header(
                            self.boundary@,
                            self.content_type@,
                            self.ranges@[self.idx as int],
                            self.total_size,
                        ) + self.inner->Some_0.emitted@);
                    }
                    Some(Ok(hdr))
                } else {
                    // All parts emitted: emit the closing delimiter.
                    let v = build_trailer(&self.boundary);
                    self.finished = true;
                    self.emitted = Ghost(self.emitted@ + v@);
                    proof {
                        assert(v@.len() > 0);
                        assert(self.emitted@ =~= self.target(fa));
                    }
                    Some(Ok(v))
                }
            },
        }
    }
}

} // verus!
