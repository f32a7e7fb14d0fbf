use filebody::body::Body;
use filebody::multifile::MultiFileBytesStream;
use filebody::multipart::FileBytesStreamMultiRange;
use filebody::stream::{ByteRange, FileBytesStream, FileBytesStreamRange};
use filebody::vfs::{FileAccess, FsError, MemFileAccess};

fn drain(body: &mut Body, fa: &mut MemFileAccess) -> (Vec<u8>, Option<FsError>) {
    let mut out = Vec::new();
    loop {
        match body.poll_frame(fa) {
            None => return (out, None),
            Some(Ok(v)) => {
                assert!(!v.is_empty(), "the dispatcher forwards only non-empty frames");
                out.extend_from_slice(&v);
            }
            Some(Err(e)) => return (out, Some(e)),
        }
    }
}

#[test]
fn body_empty_is_permanently_at_end() {
    let mut fa = MemFileAccess::new(Vec::new());
    let mut b = Body::Empty;
    assert!(b.poll_frame(&mut fa).is_none());
    assert!(b.poll_frame(&mut fa).is_none());
}

#[test]
fn body_full_forwards_whole_file() {
    let mut fa = MemFileAccess::new(vec![b"xyz".to_vec()]);
    let h = fa.open(0).unwrap();
    let mut b = Body::Full(FileBytesStream::new(&mut fa, h).unwrap());
    let (out, err) = drain(&mut b, &mut fa);
    assert!(err.is_none());
    assert_eq!(out, b"xyz".to_vec());
}

#[test]
fn body_range_forwards_window() {
    let mut fa = MemFileAccess::new(vec![b"hello world".to_vec()]);
    let h = fa.open(0).unwrap();
    let mut b = Body::Range(FileBytesStreamRange::new(
        &fa,
        h,
        ByteRange { start: 6, end: 11 },
    ));
    let (out, err) = drain(&mut b, &mut fa);
    assert!(err.is_none());
    assert_eq!(out, b"world".to_vec());
}

#[test]
fn body_multi_range_forwards_message() {
    let mut fa = MemFileAccess::new(vec![b"hello world".to_vec()]);
    let h = fa.open(0).unwrap();
    let mut b = Body::MultiRange(FileBytesStreamMultiRange::new(
        &fa,
        h,
        vec![ByteRange { start: 0, end: 5 }],
        b"B".to_vec(),
        b"text/plain".to_vec(),
        11,
    ));
    let (out, err) = drain(&mut b, &mut fa);
    assert!(err.is_none());
    let expected = "--B\r\nContent-Type: text/plain\r\nContent-Range: bytes 0-4/11\r\n\r\nhello\r\n--B--\r\n";
    assert_eq!(String::from_utf8(out).unwrap(), expected);
}

#[test]
fn body_multi_files_forwards_concatenation() {
    let mut fa = MemFileAccess::new(vec![b"abc".to_vec(), b"def".to_vec()]);
    let mut b = Body::MultiFiles(MultiFileBytesStream::new(vec![0, 1]));
    let (out, err) = drain(&mut b, &mut fa);
    assert!(err.is_none());
    assert_eq!(out, b"abcdef".to_vec());
}

#[test]
fn body_forwards_failure_unchanged() {
    let mut fa = MemFileAccess::new(vec![b"hello world".to_vec()]);
    fa.reads_until_failure = Some(0);
    let h = fa.open(0).unwrap();
    let mut b = Body::Range(FileBytesStreamRange::new(
        &fa,
        h,
        ByteRange { start: 0, end: 11 },
    ));
    let (out, err) = drain(&mut b, &mut fa);
    assert_eq!(err, Some(FsError::IoFailure));
    assert!(out.is_empty());
    assert!(b.poll_frame(&mut fa).is_none());
}
