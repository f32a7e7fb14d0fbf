use filebody::stream::{ByteRange, FileBytesStreamRange};
use filebody::vfs::{FileAccess, FileHandle, FsError, MemFileAccess};

/// Pull the stream to its end, returning the concatenated data bytes, the
/// error it surfaced (if any), and the number of non-empty frames.
fn drain(
    stream: &mut FileBytesStreamRange,
    fa: &mut MemFileAccess,
) -> (Vec<u8>, Option<FsError>, usize) {
    let mut out = Vec::new();
    let mut frames = 0;
    loop {
        match stream.poll_next(fa) {
            None => return (out, None, frames),
            Some(Ok(v)) => {
                assert!(!v.is_empty(), "streams never emit empty frames");
                frames += 1;
                out.extend_from_slice(&v);
            }
            Some(Err(e)) => return (out, Some(e), frames),
        }
    }
}

#[test]
fn single_range_hello() {
    let mut fa = MemFileAccess::new(vec![b"hello world".to_vec()]);
    let h = fa.open(0).unwrap();
    let mut s = FileBytesStreamRange::new(&fa, h, ByteRange { start: 0, end: 5 });
    let (out, err, _) = drain(&mut s, &mut fa);
    assert!(err.is_none());
    assert_eq!(out, b"hello".to_vec());
}

#[test]
fn single_range_every_window() {
    let file = b"hello world".to_vec();
    let mut fa = MemFileAccess::new(vec![file.clone()]);
    let h = fa.open(0).unwrap();
    for s in 0..=file.len() {
        for e in s..=file.len() {
            let mut stream = FileBytesStreamRange::new(
                &fa,
                h,
                ByteRange { start: s as u64, end: e as u64 },
            );
            let (out, err, _) = drain(&mut stream, &mut fa);
            assert!(err.is_none());
            assert_eq!(out, file[s..e].to_vec());
        }
    }
}

#[test]
fn single_range_zero_length_never_reads() {
    let mut fa = MemFileAccess::new(vec![b"hello world".to_vec()]);
    let h = fa.open(0).unwrap();
    let mut s = FileBytesStreamRange::new(&fa, h, ByteRange { start: 3, end: 3 });
    let reads_before = fa.reads_made;
    assert!(s.poll_next(&mut fa).is_none());
    assert!(s.poll_next(&mut fa).is_none());
    assert_eq!(fa.reads_made, reads_before, "a zero-length range never invokes a read");
}

#[test]
fn single_range_partial_reads_concatenate() {
    let mut fa = MemFileAccess::new(vec![b"hello world".to_vec()]);
    fa.chunk_limit = 2;
    let h = fa.open(0).unwrap();
    let mut s = FileBytesStreamRange::new(&fa, h, ByteRange { start: 0, end: 11 });
    let (out, err, frames) = drain(&mut s, &mut fa);
    assert!(err.is_none());
    assert_eq!(out, b"hello world".to_vec());
    assert!(frames >= 6, "a chunk limit of 2 forces many partial reads");
}

#[test]
fn single_range_failure_is_surfaced_once_then_terminal() {
    let mut fa = MemFileAccess::new(vec![b"hello world".to_vec()]);
    fa.chunk_limit = 4;
    fa.reads_until_failure = Some(1);
    let h = fa.open(0).unwrap();
    let mut s = FileBytesStreamRange::new(&fa, h, ByteRange { start: 0, end: 11 });
    match s.poll_next(&mut fa) {
        Some(Ok(v)) => assert_eq!(v, b"hell".to_vec()),
        other => panic!("expected a data frame, got {:?}", other),
    }
    match s.poll_next(&mut fa) {
        Some(Err(FsError::IoFailure)) => {}
        _ => panic!("expected the injected failure"),
    }
    assert!(s.poll_next(&mut fa).is_none(), "a failed stream is terminal");
    assert!(s.poll_next(&mut fa).is_none());
}
