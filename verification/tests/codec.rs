use askkit::codec::SseDecoder;
use askkit::error::AppError;

fn drain(dec: &mut SseDecoder) -> Vec<Vec<u8>> {
    let mut out = Vec::new();
    while let Some(rec) = dec.next_record() {
        out.push(rec);
    }
    out
}

#[test]
fn whole_buffer_at_once() {
    let mut dec = SseDecoder::new();
    dec.feed(b"alpha\n\nbeta\n\ngamma");
    let records = drain(&mut dec);
    assert_eq!(records, vec![b"alpha".to_vec(), b"beta".to_vec()]);
}

#[test]
fn chunk_boundaries_do_not_matter() {
    // The same bytes, fed one at a time, yield the same records in the
    // same order as fed at once.
    let input: &[u8] = b"alpha\n\nbeta\n\ngamma\n\n";
    let mut whole = SseDecoder::new();
    whole.feed(input);
    let expected = drain(&mut whole);

    let mut bytewise = SseDecoder::new();
    let mut got = Vec::new();
    for b in input {
        bytewise.feed(&[*b]);
        got.extend(drain(&mut bytewise));
    }
    assert_eq!(got, expected);
    assert_eq!(
        got,
        vec![b"alpha".to_vec(), b"beta".to_vec(), b"gamma".to_vec()]
    );
}

#[test]
fn delimiter_split_across_chunks() {
    let mut dec = SseDecoder::new();
    dec.feed(b"data: one\n");
    assert!(dec.next_record().is_none());
    dec.feed(b"\ndata: two");
    assert_eq!(drain(&mut dec), vec![b"data: one".to_vec()]);
    dec.feed(b"\n\n");
    assert_eq!(drain(&mut dec), vec![b"data: two".to_vec()]);
}

#[test]
fn incomplete_record_is_never_yielded() {
    let mut dec = SseDecoder::new();
    dec.feed(b"no trailing delimiter here\n");
    assert!(dec.next_record().is_none());
    assert!(dec.next_record().is_none());
}

#[test]
fn empty_records_are_yielded() {
    let mut dec = SseDecoder::new();
    dec.feed(b"\n\n\n\n");
    assert_eq!(drain(&mut dec), vec![Vec::<u8>::new(), Vec::<u8>::new()]);
}

#[test]
fn decode_yields_text_records() {
    let mut dec = SseDecoder::new();
    dec.feed(b"hello\n\nwor");
    assert_eq!(dec.decode(), Ok(Some("hello".to_string())));
    assert_eq!(dec.decode(), Ok(None));
    dec.feed(b"ld\n\n");
    assert_eq!(dec.decode(), Ok(Some("world".to_string())));
}

#[test]
fn decode_reports_invalid_utf8() {
    let mut dec = SseDecoder::new();
    dec.feed(&[0xff, 0xfe, b'\n', b'\n', b'o', b'k', b'\n', b'\n']);
    assert_eq!(dec.decode(), Err(AppError::FromUtf8));
    // The bad record is consumed; the next one still arrives.
    assert_eq!(dec.decode(), Ok(Some("ok".to_string())));
}
