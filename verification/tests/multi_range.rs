use filebody::multipart::FileBytesStreamMultiRange;
use filebody::stream::ByteRange;
use filebody::vfs::{FileAccess, FsError, MemFileAccess};

fn drain(
    stream: &mut FileBytesStreamMultiRange,
    fa: &mut MemFileAccess,
) -> (Vec<u8>, Option<FsError>) {
    let mut out = Vec::new();
    loop {
        match stream.poll_next(fa) {
            None => return (out, None),
            Some(Ok(v)) => {
                assert!(!v.is_empty(), "streams never emit empty frames");
                out.extend_from_slice(&v);
            }
            Some(Err(e)) => return (out, Some(e)),
        }
    }
}

#[test]
fn multi_range_two_parts_exact_message() {
    let mut fa = MemFileAccess::new(vec![b"hello world".to_vec()]);
    let h = fa.open(0).unwrap();
    let mut s = FileBytesStreamMultiRange::new(
        &fa,
        h,
        vec![ByteRange { start: 0, end: 5 }, ByteRange { start: 6, end: 11 }],
        b"B".to_vec(),
        b"text/plain".to_vec(),
        11,
    );
    let (out, err) = drain(&mut s, &mut fa);
    assert!(err.is_none());
    let expected = "--B\r\nContent-Type: text/plain\r\nContent-Range: bytes 0-4/11\r\n\r\nhello\r\n--B\r\nContent-Type: text/plain\r\nContent-Range: bytes 6-10/11\r\n\r\nworld\r\n--B--\r\n";
    assert_eq!(String::from_utf8(out).unwrap(), expected);
}

#[test]
fn multi_range_multi_digit_content_range() {
    let mut content = Vec::new();
    for i in 0..30u8 {
        content.push(97 + (i % 26));
    }
    let mut fa = MemFileAccess::new(vec![content.clone()]);
    let h = fa.open(0).unwrap();
    let mut s = FileBytesStreamMultiRange::new(
        &fa,
        h,
        vec![ByteRange { start: 10, end: 25 }],
        b"bound".to_vec(),
        b"application/octet-stream".to_vec(),
        30,
    );
    let (out, err) = drain(&mut s, &mut fa);
    assert!(err.is_none());
    let mut expected = Vec::new();
    expected.extend_from_slice(b"--bound\r\n");
    expected.extend_from_slice(b"Content-Type: application/octet-stream\r\n");
    expected.extend_from_slice(b"Content-Range: bytes 10-24/30\r\n");
    expected.extend_from_slice(b"\r\n");
    expected.extend_from_slice(&content[10..25]);
    expected.extend_from_slice(b"\r\n");
    expected.extend_from_slice(b"--bound--\r\n");
    assert_eq!(out, expected);
}

#[test]
fn multi_range_message_parses_back_to_the_windows() {
    let file = b"The quick brown fox jumps over the lazy dog".to_vec();
    let total = file.len() as u64;
    let ranges = [(4u64, 9u64), (10, 15), (0, 3), (35, 43)];
    let mut fa = MemFileAccess::new(vec![file.clone()]);
    let h = fa.open(0).unwrap();
    let mut s = FileBytesStreamMultiRange::new(
        &fa,
        h,
        ranges.iter().map(|&(a, b)| ByteRange { start: a, end: b }).collect(),
        b"SEP".to_vec(),
        b"text/plain".to_vec(),
        total,
    );
    let (out, err) = drain(&mut s, &mut fa);
    assert!(err.is_none());
    let text = String::from_utf8(out).unwrap();

    // Split on the boundary delimiter line and re-extract each part's data
    // according to its Content-Range header.
    let mut parts: Vec<&str> = text.split("--SEP\r\n").collect();
    assert_eq!(parts.remove(0), "", "the message starts with the first delimiter");
    assert_eq!(parts.len(), ranges.len());
    let trailer = "--SEP--\r\n";
    for (i, part) in parts.iter().enumerate() {
        let part = if i + 1 == ranges.len() {
            assert!(part.ends_with(trailer));
            &part[..part.len() - trailer.len()]
        } else {
            part
        };
        let (headers, data) = part.split_once("\r\n\r\n").unwrap();
        let range_line = headers
            .lines()
            .find(|l| l.starts_with("Content-Range: bytes "))
            .unwrap();
        let spec = &range_line["Content-Range: bytes ".len()..];
        let (window, size) = spec.split_once('/').unwrap();
        let (first, last) = window.split_once('-').unwrap();
        let first: u64 = first.parse().unwrap();
        let last: u64 = last.parse().unwrap();
        let size: u64 = size.parse().unwrap();
        assert_eq!(size, total);
        assert_eq!((first, last + 1), ranges[i], "parts come in caller order");
        assert!(data.ends_with("\r\n"));
        let data = &data[..data.len() - 2];
        assert_eq!(
            data.as_bytes(),
            &file[first as usize..(last + 1) as usize],
            "each part's data is exactly its window of the file"
        );
    }
}

#[test]
fn multi_range_parts_keep_caller_order() {
    let mut fa = MemFileAccess::new(vec![b"hello world".to_vec()]);
    let h = fa.open(0).unwrap();
    // Later window first: the order given is the order emitted.
    let mut s = FileBytesStreamMultiRange::new(
        &fa,
        h,
        vec![ByteRange { start: 6, end: 11 }, ByteRange { start: 0, end: 5 }],
        b"B".to_vec(),
        b"text/plain".to_vec(),
        11,
    );
    let (out, err) = drain(&mut s, &mut fa);
    assert!(err.is_none());
    let text = String::from_utf8(out).unwrap();
    let world = text.find("world\r\n").unwrap();
    let hello = text.find("hello\r\n").unwrap();
    assert!(world < hello);
}

#[test]
fn multi_range_content_length_matches_emitted_bytes() {
    let mut fa = MemFileAccess::new(vec![b"hello world".to_vec()]);
    let h = fa.open(0).unwrap();
    let mut s = FileBytesStreamMultiRange::new(
        &fa,
        h,
        vec![ByteRange { start: 0, end: 5 }, ByteRange { start: 6, end: 11 }],
        b"B".to_vec(),
        b"text/plain".to_vec(),
        11,
    );
    let announced = s.content_length(&fa).unwrap();
    let (out, err) = drain(&mut s, &mut fa);
    assert!(err.is_none());
    assert_eq!(announced, out.len() as u64);
    // Headers of 62 and 63 bytes (5 for the delimiter line, 26 for the
    // type line, 29 resp. 30 for the range line, 2 for the blank line),
    // 5 data bytes and a 2-byte terminator per part, and a 7-byte trailer.
    assert_eq!(announced, (62 + 5 + 2) + (63 + 5 + 2) + 7);
}

#[test]
fn multi_range_failure_aborts_without_trailer() {
    let mut fa = MemFileAccess::new(vec![b"hello world".to_vec()]);
    fa.reads_until_failure = Some(1);
    let h = fa.open(0).unwrap();
    let mut s = FileBytesStreamMultiRange::new(
        &fa,
        h,
        vec![ByteRange { start: 0, end: 5 }, ByteRange { start: 6, end: 11 }],
        b"B".to_vec(),
        b"text/plain".to_vec(),
        11,
    );
    let (out, err) = drain(&mut s, &mut fa);
    assert_eq!(err, Some(FsError::IoFailure));
    let text = String::from_utf8(out).unwrap();
    assert!(text.contains("hello\r\n"), "the first part was emitted before the failure");
    assert!(!text.contains("world"), "the second part's data never appeared");
    assert!(!text.contains("--B--"), "the trailer is not emitted after a failure");
    assert!(s.poll_next(&mut fa).is_none(), "a failed stream is terminal");
}

#[test]
fn multi_range_single_byte_file_part() {
    let mut fa = MemFileAccess::new(vec![b"q".to_vec()]);
    let h = fa.open(0).unwrap();
    let mut s = FileBytesStreamMultiRange::new(
        &fa,
        h,
        vec![ByteRange { start: 0, end: 1 }],
        b"xyz".to_vec(),
        b"text/plain".to_vec(),
        1,
    );
    let (out, err) = drain(&mut s, &mut fa);
    assert!(err.is_none());
    let expected = "--xyz\r\nContent-Type: text/plain\r\nContent-Range: bytes 0-0/1\r\n\r\nq\r\n--xyz--\r\n";
    assert_eq!(String::from_utf8(out).unwrap(), expected);
}
